use pow::compress::simd128::{compress_mb4, g4, splat};
use pow::compress::{compress8, iv, setup_block, FLAG_CHUNK_END, FLAG_CHUNK_START, FLAG_ROOT};
use pow::message::{trailing_block_words, CerberusMessage};

fn words_of(bytes: &[u8]) -> [u32; 8] {
    let mut out = [0u32; 8];
    for i in 0..8 {
        out[i] = u32::from_le_bytes(bytes[i * 4..i * 4 + 4].try_into().unwrap());
    }
    out
}

#[test]
fn test_compress_unchained() {
    for blockc in 1..=4 {
        let mut chaining_value = iv();

        let mut msg = Vec::new();
        let mut ctr = 0usize;
        while msg.len() < 64 * blockc {
            let mut hasher = blake3::Hasher::new();
            hasher.update(ctr.to_le_bytes().as_slice());
            let hash = hasher.finalize();
            msg.extend_from_slice(hash.as_bytes());
            ctr = ctr.wrapping_add(1);
        }
        assert_eq!(msg.len(), 64 * blockc);

        let mut reference_hasher = blake3::Hasher::new();
        reference_hasher.update(&msg);
        let hash = reference_hasher.finalize();
        let hash = hash.as_bytes();

        let count_chunks = msg.len().div_ceil(64);
        ctr = 0;
        let mut chunks = msg.chunks_exact(64);
        let mut output = [0u32; 8];
        while let Some(chunk) = chunks.next() {
            let block = core::array::from_fn(|i| {
                u32::from_le_bytes(chunk[i * 4..i * 4 + 4].try_into().unwrap())
            });

            let this_flag = if ctr == 0 { FLAG_CHUNK_START } else { 0 }
                | if count_chunks == ctr + 1 {
                    FLAG_CHUNK_END | FLAG_ROOT
                } else {
                    0
                };
            output = compress8(&chaining_value, &block, 0, 64, this_flag);
            chaining_value = output;
            ctr += 1;
        }

        let output: [u32; 8] = output[..8].try_into().unwrap();
        let mut expected = [0u32; 8];
        for i in 0..8 {
            expected[i] = u32::from_le_bytes(hash[i * 4..i * 4 + 4].try_into().unwrap());
        }
        assert_eq!(output, expected, "output mismatch (blockc: {})", blockc);
    }
}

// The mixing function, G, which mixes either a column or a diagonal.
fn gref(state: &mut [u32; 16], a: usize, b: usize, c: usize, d: usize, mx: u32, my: u32) {
    state[a] = state[a].wrapping_add(state[b]).wrapping_add(mx);
    state[d] = (state[d] ^ state[a]).rotate_right(16);
    state[c] = state[c].wrapping_add(state[d]);
    state[b] = (state[b] ^ state[c]).rotate_right(12);
    state[a] = state[a].wrapping_add(state[b]).wrapping_add(my);
    state[d] = (state[d] ^ state[a]).rotate_right(8);
    state[c] = state[c].wrapping_add(state[d]);
    state[b] = (state[b] ^ state[c]).rotate_right(7);
}

#[test]
fn test_g_function() {
    let iv = iv();
    let mut state: [u32; 16] = core::array::from_fn(|i| iv[i % 8].wrapping_add(i as u32));
    let mut state_v: [[u32; 4]; 16] = core::array::from_fn(|i| splat(state[i]));
    gref(&mut state, 0, 4, 8, 12, iv[0], iv[1]);
    g4(&mut state_v, 0, 4, 8, 12, splat(iv[0]), splat(iv[1]));

    for i in 0..16 {
        assert_eq!(
            state_v[i][0],
            state[i],
            "word {}: expected: {:08x}, results: {:08x}",
            i,
            state[i],
            state_v[i][0]
        );
    }
}

#[test]
fn test_compress_mb4() {
    let iv = iv();
    let mut v = [0u32; 16];
    v[..8].copy_from_slice(&iv);
    v[8..12].copy_from_slice(&iv[..4]);
    v[12] = 0;
    v[13] = 0;
    v[14] = 4;
    v[15] = 0x0b;
    let mut v: [[u32; 4]; 16] = core::array::from_fn(|i| splat(v[i]));
    let mut block = [0u32; 16];
    block[0] = u32::from_le_bytes(*b"IETF");
    compress_mb4(&mut v, &block, 4, splat(0));
    let expected = [
        0x1edea283, 0xabe6f4e6, 0x24896868, 0xcfc04e8f, 0x9470c54c, 0xff82a646, 0xd6b4cbd1,
        0xe2815116,
    ];
    let mut results = [0u32; 8];
    for i in 0..8 {
        results[i] = v[i][0];
    }
    assert_eq!(
        results, expected,
        "expected: {:08x?}, results: {:08x?}",
        expected, results
    );
    let mut hasher = blake3::Hasher::new();
    hasher.update(b"IETF");
    let hash = hasher.finalize();
    let hash = hash.as_bytes();
    let expected = words_of(hash);
    assert_eq!(results, expected);
}

#[test]
fn single_short_block_matches_reference() {
    let mut block = [0u32; 16];
    block[0] = u32::from_le_bytes(*b"IETF");
    let out = compress8(&iv(), &block, 0, 4, FLAG_CHUNK_START | FLAG_CHUNK_END | FLAG_ROOT);
    assert_eq!(out, words_of(blake3::hash(b"IETF").as_bytes()));
}

#[test]
fn setup_block_lays_out_state() {
    let cv = [1, 2, 3, 4, 5, 6, 7, 8];
    let s = setup_block(cv, 0x1_0000_0002, 8, 0x0a);
    let iv = iv();
    assert_eq!(&s[..8], &cv);
    assert_eq!(&s[8..12], &iv[..4]);
    assert_eq!(s[12], 2);
    assert_eq!(s[13], 1);
    assert_eq!(s[14], 8);
    assert_eq!(s[15], 0x0a);
}

#[test]
fn counter_enters_the_state() {
    let block = [7u32; 16];
    let a = compress8(&iv(), &block, 0, 64, FLAG_CHUNK_START);
    let b = compress8(&iv(), &block, 1 << 32, 64, FLAG_CHUNK_START);
    assert_ne!(a, b);
}

#[test]
fn midstate_then_trailing_block_matches_reference() {
    let salt: [u8; 64] = core::array::from_fn(|i| (i as u8).wrapping_mul(7).wrapping_add(3));
    let message = CerberusMessage::new(&salt, 0x0102_0304).unwrap();
    let hash = message.hash_candidate(0xa0b0_c0d0);

    let mut data = salt.to_vec();
    data.extend_from_slice(&0x0102_0304u32.to_le_bytes());
    data.extend_from_slice(&0xa0b0_c0d0u32.to_le_bytes());
    assert_eq!(hash, words_of(blake3::hash(&data).as_bytes()));

    let direct = compress8(
        &message.midstate,
        &trailing_block_words(0x0102_0304, 0xa0b0_c0d0),
        0,
        8,
        message.trailing_block_flags(),
    );
    assert_eq!(hash, direct);
}

#[test]
fn salt_of_other_length_is_refused() {
    assert!(CerberusMessage::new(&[0u8; 63], 0).is_none());
    assert!(CerberusMessage::new(&[0u8; 65], 0).is_none());
    assert!(CerberusMessage::new(&[], 0).is_none());
    let m = CerberusMessage::new(&[0u8; 64], 9).unwrap();
    assert_eq!(m.batch_id, 9);
}

#[test]
fn lanes_match_scalar_compression() {
    let salt: [u8; 64] = core::array::from_fn(|i| b'a'.wrapping_add(i as u8));
    let message = CerberusMessage::new(&salt, 3).unwrap();
    let start = setup_block(message.midstate, 0, 8, message.trailing_block_flags());
    let mut v: [[u32; 4]; 16] = core::array::from_fn(|i| splat(start[i]));
    compress_mb4(&mut v, &trailing_block_words(3, 0), 1, [40, 41, 42, 43]);
    for lane in 0..4 {
        let expected = message.hash_candidate(40 + lane as u32);
        for i in 0..8 {
            assert_eq!(v[i][lane], expected[i]);
        }
    }
}
