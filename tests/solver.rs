use pow::check_nibble::check_leading_zero_nibbles;
use pow::mask::{check_leading_zero_dubits, check_mask, compute_mask_cerberus};
use pow::message::{combined_nonce, next_batch, CerberusMessage};
use pow::solver::scalar;
use pow::solver::simd128;
use pow::solver::Solver;

fn test_cerberus_validator<S: Solver, F: FnMut(&[u8; 64]) -> Option<S>>(mut factory: F) {
    for df in 6..=8u32 {
        let mask = compute_mask_cerberus(df);

        let test_seed: [u8; 64] = core::array::from_fn(|i| b'a'.wrapping_add(i as u8));

        let Some(mut solver) = factory(&test_seed) else {
            panic!("solver is None for seed");
        };

        let (nonce, hash) = solver.solve(mask, |_| {}).unwrap();
        let mut ref_hasher = blake3::Hasher::new();
        ref_hasher.update(&test_seed);
        let final_nonce = (nonce[0] as u64 | (nonce[1] as u64) << 32).to_le_bytes();
        ref_hasher.update(&final_nonce);
        let ref_hash = ref_hasher.finalize();
        let ref_hash_bytes = ref_hash.as_bytes();
        let ref_hash: [u32; 8] = core::array::from_fn(|i| {
            u32::from_le_bytes([
                ref_hash_bytes[i * 4],
                ref_hash_bytes[i * 4 + 1],
                ref_hash_bytes[i * 4 + 2],
                ref_hash_bytes[i * 4 + 3],
            ])
        });
        let hit = (ref_hash[0] & mask) == 0;
        assert_eq!(hash, ref_hash, "incorrect output: {:?}", nonce);
        assert!(hit);
        assert!(check_leading_zero_dubits(ref_hash_bytes, df as usize));
    }
}

#[test]
fn scalar_test_solve_cerberus() {
    test_cerberus_validator::<scalar::CerberusSolver, _>(|prefix| {
        CerberusMessage::new(prefix, 0).map(Into::into)
    });
}

#[test]
fn simd128_test_solve_cerberus() {
    test_cerberus_validator::<simd128::CerberusSolver, _>(|prefix| {
        CerberusMessage::new(prefix, 0).map(Into::into)
    });
}

fn seed() -> [u8; 64] {
    core::array::from_fn(|i| b'a'.wrapping_add(i as u8))
}

#[test]
fn scalar_and_lanes_find_the_same_nonce() {
    for df in 4..=7u32 {
        let mask = compute_mask_cerberus(df);
        let message = CerberusMessage::new(&seed(), 5).unwrap();
        let mut a = scalar::CerberusSolver::from(message);
        let mut b = simd128::CerberusSolver::from(message);
        let ra = a.solve(mask, |_| {}).unwrap();
        let rb = b.solve(mask, |_| {}).unwrap();
        assert_eq!(ra, rb);
        assert_eq!(ra.0[0], 5);
        assert_eq!(ra.1, message.hash_candidate(ra.0[1]));
        for k in 0..ra.0[1] {
            assert!(!check_mask(message.hash_candidate(k)[0], mask));
        }
    }
}

#[test]
fn batch_id_changes_the_search() {
    let mask = compute_mask_cerberus(5);
    let m0 = CerberusMessage::new(&seed(), 0).unwrap();
    let m1 = CerberusMessage::new(&seed(), 1).unwrap();
    let r0 = scalar::CerberusSolver::from(m0).solve(mask, |_| {}).unwrap();
    let r1 = scalar::CerberusSolver::from(m1).solve(mask, |_| {}).unwrap();
    assert_eq!(r1.0[0], 1);
    assert_ne!(r0.1, r1.1);
}

#[test]
fn scalar_progress_stays_within_one_period() {
    let mask = compute_mask_cerberus(9);
    let message = CerberusMessage::new(&seed(), 0).unwrap();
    let mut solver = scalar::CerberusSolver::from(message);
    solver.set_report_slot(1, 4);
    let mut total: u64 = 0;
    let mut calls = 0u32;
    let (nonce, _) = solver
        .solve(mask, |n| {
            total += n as u64;
            calls += 1;
        })
        .unwrap();
    let attempts = nonce[1] as u64 + 1;
    let period = scalar::REPORT_PERIOD as u64;
    assert!(total < attempts + period);
    assert!(total + period > attempts);
    assert_eq!(total, calls as u64 * period);
    let slot = 4096u64;
    let expected = (1..=attempts).filter(|k| k % period == slot).count() as u64;
    assert_eq!(calls as u64, expected);
}

#[test]
fn lanes_progress_stays_within_one_period() {
    let mask = compute_mask_cerberus(9);
    let message = CerberusMessage::new(&seed(), 0).unwrap();
    let mut solver = simd128::CerberusSolver::from(message);
    solver.set_report_slot(3, 4);
    let mut total: u64 = 0;
    let (nonce, _) = solver.solve(mask, |n| total += n as u64).unwrap();
    let steps = nonce[1] as u64 / 4;
    let period = simd128::REPORT_PERIOD as u64;
    let slot = 6144u64;
    let expected = (0..steps).filter(|k| k % period == slot).count() as u64;
    assert_eq!(total, expected * period * 4);
    assert!(total < 4 * steps + 4 * period);
    assert!(total + 4 * period > 4 * steps);
}

#[test]
fn mask_values() {
    assert_eq!(compute_mask_cerberus(16), u32::MAX);
    assert_eq!(compute_mask_cerberus(1), 0x0000_00c0);
    assert_eq!(compute_mask_cerberus(4), 0x0000_00ff);
    assert_eq!(compute_mask_cerberus(6), 0x0000_f0ff);
    assert_eq!(compute_mask_cerberus(15), 0xfcff_ffff);
}

#[test]
fn mask_accepts_exactly_the_top_bits_zero() {
    let mut x: u32 = 0x1234_5678;
    for _ in 0..20000 {
        x ^= x << 13;
        x ^= x >> 17;
        x ^= x << 5;
        for f in 1..=16u32 {
            for w in [x, x & 0x00ff_ffff, x & 0x0000_ffff, x & 0xff3f_0000, 0] {
                let bytes = w.to_le_bytes();
                let be = u32::from_be_bytes(bytes);
                let want = if f == 16 { w == 0 } else { be.leading_zeros() >= 2 * f };
                assert_eq!(check_mask(w, compute_mask_cerberus(f)), want, "f {} w {:08x}", f, w);
                let mut hash = [0xffu8; 32];
                hash[..4].copy_from_slice(&bytes);
                assert_eq!(check_leading_zero_dubits(&hash, f as usize), want);
                if f % 2 == 0 {
                    let nibbles = f as usize / 2;
                    assert_eq!(check_leading_zero_nibbles(nibbles).check(&hash, nibbles), want);
                }
            }
        }
    }
}

#[test]
fn mask_sixteen_rejects_all_but_zero() {
    let mask = compute_mask_cerberus(16);
    assert!(check_mask(0, mask));
    assert!(!check_mask(1, mask));
    assert!(!check_mask(0x8000_0000, mask));
    assert!(!check_mask(u32::MAX, mask));
}

#[test]
fn dubits_level_zero_accepts_everything() {
    assert!(check_leading_zero_dubits(&[0xff; 32], 0));
    let mut hash = [0u8; 32];
    assert!(check_leading_zero_dubits(&hash, 16));
    hash[3] = 1;
    assert!(!check_leading_zero_dubits(&hash, 16));
    assert!(check_leading_zero_dubits(&hash, 15));
}

#[test]
fn combined_nonce_puts_batch_high() {
    assert_eq!(combined_nonce([1, 2]), 0x0000_0001_0000_0002);
    assert_eq!(combined_nonce([0, u32::MAX]), 0xffff_ffff);
    assert_eq!(combined_nonce([u32::MAX, u32::MAX]), u64::MAX);
}

#[test]
fn batches_advance_by_thread_count() {
    assert_eq!(next_batch(3, 8), Some(11));
    assert_eq!(next_batch(u32::MAX - 8, 8), Some(u32::MAX));
    assert_eq!(next_batch(u32::MAX - 7, 8), None);
}

#[test]
fn report_slots_are_staggered() {
    let message = CerberusMessage::new(&seed(), 0).unwrap();
    let mask = compute_mask_cerberus(8);
    let mut seen = Vec::new();
    for tid in 0..4u32 {
        let mut solver = scalar::CerberusSolver::from(message);
        solver.set_report_slot(tid, 4);
        let mut calls = 0u32;
        let (nonce, _) = solver.solve(mask, |_| calls += 1).unwrap();
        let slot = tid as u64 * scalar::REPORT_PERIOD as u64 / 4;
        let expected = (1..=nonce[1] as u64 + 1)
            .filter(|k| k % scalar::REPORT_PERIOD as u64 == slot)
            .count() as u32;
        assert_eq!(calls, expected);
        seen.push(slot);
    }
    assert_eq!(seen, vec![0, 4096, 8192, 12288]);
}
