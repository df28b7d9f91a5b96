//! Four compressions computed in lock-step, one per lane of a 4-word vector.
use vstd::prelude::*;

use crate::compress::{compress_state, fold, g_spec, permute, rotr, round_spec, rounds, scheduled, ror};

verus! {

/// Word `i` of every position of `v`, read from lane `l`.
pub open spec fn lane(v: Seq<[u32; 4]>, l: int) -> Seq<u32> {
    Seq::new(v.len(), |i: int| v[i]@[l])
}

/// The block of lane `l`: the template with word `patch_index` replaced by
/// that lane's patch value.
pub open spec fn patched_block(template: Seq<u32>, patch_index: int, patch: [u32; 4], l: int) -> Seq<u32> {
    template.update(patch_index, patch@[l])
}

/// The same value in every lane.
pub fn splat(x: u32) -> (r: [u32; 4])
    ensures
        forall|l: int| 0 <= l < 4 ==> r@[l] == x,
{
    [x, x, x, x]
}

pub(crate) fn add4(x: [u32; 4], y: [u32; 4]) -> (r: [u32; 4])
    ensures
        forall|l: int| 0 <= l < 4 ==> r@[l] == x@[l].wrapping_add(y@[l]),
{
    [x[0].wrapping_add(y[0]), x[1].wrapping_add(y[1]), x[2].wrapping_add(y[2]), x[3].wrapping_add(y[3])]
}

fn xor_ror4(x: [u32; 4], y: [u32; 4], n: u32) -> (r: [u32; 4])
    requires
        0 < n < 32,
    ensures
        forall|l: int| 0 <= l < 4 ==> r@[l] == rotr(x@[l] ^ y@[l], n),
{
    [ror(x[0] ^ y[0], n), ror(x[1] ^ y[1], n), ror(x[2] ^ y[2], n), ror(x[3] ^ y[3], n)]
}

/// Lane-wise bitwise and.
pub fn and4(x: [u32; 4], y: [u32; 4]) -> (r: [u32; 4])
    ensures
        forall|l: int| 0 <= l < 4 ==> r@[l] == x@[l] & y@[l],
{
    [x[0] & y[0], x[1] & y[1], x[2] & y[2], x[3] & y[3]]
}

/// The mixing function G applied in every lane at once.
pub fn g4(v: &mut [[u32; 4]; 16], a: usize, b: usize, c: usize, d: usize, x: [u32; 4], y: [u32; 4])
    requires
        a < 16,
        b < 16,
        c < 16,
        d < 16,
        a != b && a != c && a != d && b != c && b != d && c != d,
    ensures
        forall|l: int|
            0 <= l < 4 ==> #[trigger] lane(final(v)@, l) == g_spec(
                lane(old(v)@, l),
                a as int,
                b as int,
                c as int,
                d as int,
                x@[l],
                y@[l],
            ),
{
    let mut va = v[a];
    let mut vb = v[b];
    let mut vc = v[c];
    let mut vd = v[d];
    va = add4(add4(va, vb), x);
    vd = xor_ror4(vd, va, 16);
    vc = add4(vc, vd);
    vb = xor_ror4(vb, vc, 12);
    va = add4(add4(va, vb), y);
    vd = xor_ror4(vd, va, 8);
    vc = add4(vc, vd);
    vb = xor_ror4(vb, vc, 7);
    v[a] = va;
    v[b] = vb;
    v[c] = vc;
    v[d] = vd;
    assert forall|l: int| 0 <= l < 4 implies #[trigger] lane(v@, l) == g_spec(
        lane(old(v)@, l),
        a as int,
        b as int,
        c as int,
        d as int,
        x@[l],
        y@[l],
    ) by {
        assert(lane(v@, l) =~= g_spec(lane(old(v)@, l), a as int, b as int, c as int, d as int, x@[l], y@[l]));
    }
}

/// One round in every lane, lane `l` taking its message words from lane `l` of `m`.
fn round4(v: &mut [[u32; 4]; 16], m: &[[u32; 4]; 16])
    ensures
        forall|l: int| 0 <= l < 4 ==> #[trigger] lane(final(v)@, l) == round_spec(lane(old(v)@, l), lane(m@, l)),
{
    g4(v, 0, 4, 8, 12, m[0], m[1]);
    g4(v, 1, 5, 9, 13, m[2], m[3]);
    g4(v, 2, 6, 10, 14, m[4], m[5]);
    g4(v, 3, 7, 11, 15, m[6], m[7]);
    g4(v, 0, 5, 10, 15, m[8], m[9]);
    g4(v, 1, 6, 11, 12, m[10], m[11]);
    g4(v, 2, 7, 8, 13, m[12], m[13]);
    g4(v, 3, 4, 9, 14, m[14], m[15]);
}

proof fn lemma_lane_scheduled(m: Seq<[u32; 4]>, l: int, r: nat)
    requires
        m.len() == 16,
    ensures
        scheduled(m, r).len() == 16,
        lane(scheduled(m, r), l) == scheduled(lane(m, l), r),
    decreases r,
{
    if r > 0 {
        lemma_lane_scheduled(m, l, (r - 1) as nat);
        assert(lane(scheduled(m, r), l) =~= scheduled(lane(m, l), r));
    }
}

/// Word `i` of the patched blocks, one lane each.
fn patched_word(block_template: &[u32; 16], patch_index: usize, patch: [u32; 4], i: usize) -> (r: [u32; 4])
    requires
        patch_index < 16,
        i < 16,
    ensures
        forall|l: int| 0 <= l < 4 ==> r@[l] == patched_block(block_template@, patch_index as int, patch, l)[i as int],
{
    if i == patch_index {
        patch
    } else {
        splat(block_template[i])
    }
}

fn patched_message(block_template: &[u32; 16], patch_index: usize, patch: [u32; 4]) -> (r: [[u32; 4]; 16])
    requires
        patch_index < 16,
    ensures
        forall|l: int| 0 <= l < 4 ==> #[trigger] lane(r@, l) == patched_block(block_template@, patch_index as int, patch, l),
{
    let r = [
        patched_word(block_template, patch_index, patch, 0),
        patched_word(block_template, patch_index, patch, 1),
        patched_word(block_template, patch_index, patch, 2),
        patched_word(block_template, patch_index, patch, 3),
        patched_word(block_template, patch_index, patch, 4),
        patched_word(block_template, patch_index, patch, 5),
        patched_word(block_template, patch_index, patch, 6),
        patched_word(block_template, patch_index, patch, 7),
        patched_word(block_template, patch_index, patch, 8),
        patched_word(block_template, patch_index, patch, 9),
        patched_word(block_template, patch_index, patch, 10),
        patched_word(block_template, patch_index, patch, 11),
        patched_word(block_template, patch_index, patch, 12),
        patched_word(block_template, patch_index, patch, 13),
        patched_word(block_template, patch_index, patch, 14),
        patched_word(block_template, patch_index, patch, 15),
    ];
    assert forall|l: int| 0 <= l < 4 implies #[trigger] lane(r@, l) == patched_block(block_template@, patch_index as int, patch, l) by {
        assert(lane(r@, l) =~= patched_block(block_template@, patch_index as int, patch, l));
    }
    r
}

/// Seven rounds in every lane.
fn rounds4(v: &mut [[u32; 4]; 16], message: &[[u32; 4]; 16])
    ensures
        forall|l: int| 0 <= l < 4 ==> #[trigger] lane(final(v)@, l) == rounds(lane(old(v)@, l), lane(message@, l), 7),
{
    let ghost v0 = v@;
    let mut m = *message;
    let mut r: usize = 0;
    while r < 7
        invariant
            r <= 7,
            forall|l: int| 0 <= l < 4 ==> #[trigger] lane(v@, l) == rounds(lane(v0, l), lane(message@, l), r as nat),
            m@ == scheduled(message@, r as nat),
        decreases 7 - r,
    {
        proof {
            assert forall|l: int| 0 <= l < 4 implies #[trigger] lane(m@, l) == scheduled(lane(message@, l), r as nat) by {
                lemma_lane_scheduled(message@, l, r as nat);
            }
        }
        round4(v, &m);
        m = permute(&m);
        r = r + 1;
    }
}

/// Folds the two halves of every lane by xor into words 0 to 7.
fn fold4(v: &mut [[u32; 4]; 16])
    ensures
        forall|l: int| 0 <= l < 4 ==> #[trigger] lane(final(v)@, l).take(8) == fold(lane(old(v)@, l)),
{
    let ghost v0 = v@;
    let mut k: usize = 0;
    while k < 8
        invariant
            k <= 8,
            forall|j: int, l: int|
                #![trigger v@[j]@[l]]
                0 <= j < 16 && 0 <= l < 4 ==> v@[j]@[l] == if j < k {
                    v0[j]@[l] ^ v0[j + 8]@[l]
                } else {
                    v0[j]@[l]
                },
        decreases 8 - k,
    {
        let x = v[k];
        let y = v[k + 8];
        v[k] = [x[0] ^ y[0], x[1] ^ y[1], x[2] ^ y[2], x[3] ^ y[3]];
        k = k + 1;
    }
    assert forall|l: int| 0 <= l < 4 implies #[trigger] lane(v@, l).take(8) == fold(lane(v0, l)) by {
        assert(lane(v@, l).take(8) =~= fold(lane(v0, l)));
    }
}

/// Four compressions of prepared working states, one per lane, whose blocks
/// agree but for word `patch_index`, which lane `l` takes from lane `l` of
/// `patch`. Words 0 to 7 of `v` hold the results.
pub fn compress_mb4(v: &mut [[u32; 4]; 16], block_template: &[u32; 16], patch_index: usize, patch: [u32; 4])
    requires
        patch_index < 16,
    ensures
        forall|l: int|
            0 <= l < 4 ==> #[trigger] lane(final(v)@, l).take(8) == compress_state(
                lane(old(v)@, l),
                patched_block(block_template@, patch_index as int, patch, l),
            ),
{
    let m = patched_message(block_template, patch_index, patch);
    rounds4(v, &m);
    fold4(v);
}

} // verus!
