//! The interleaver: the 162 encoded bits are permuted by bit-reversed
//! addressing, which is a bijection on the 162 output positions.

use vstd::prelude::*;
use vstd::relations::injective_on;
use vstd::set_lib::{lemma_int_range, lemma_map_size, set_int_range};

verus! {

/// The eight bits of `x` in reversed order.
pub open spec fn rev8(x: u8) -> u8 {
    ((x >> 7u8) & 1) | (((x >> 6u8) & 1) << 1u8) | (((x >> 5u8) & 1) << 2u8) | (((x >> 4u8) & 1)
        << 3u8) | (((x >> 3u8) & 1) << 4u8) | (((x >> 2u8) & 1) << 5u8) | (((x >> 1u8) & 1)
        << 6u8) | ((x & 1) << 7u8)
}

/// Reverses the bit order of a byte.
pub fn reverse_byte(x: u8) -> (r: u8)
    ensures
        r == rev8(x),
{
    ((x >> 7u8) & 1) | (((x >> 6u8) & 1) << 1u8) | (((x >> 5u8) & 1) << 2u8) | (((x >> 4u8) & 1)
        << 3u8) | (((x >> 3u8) & 1) << 4u8) | (((x >> 2u8) & 1) << 5u8) | (((x >> 1u8) & 1)
        << 6u8) | ((x & 1) << 7u8)
}

/// Reversing a byte's bits twice gives the byte back.
pub proof fn lemma_rev8_involution(x: u8)
    ensures
        rev8(rev8(x)) == x,
{
    assert(rev8(rev8(x)) == x) by (bit_vector);
}

/// Only 255 reverses to 255.
pub proof fn lemma_rev8_only_self_max(x: u8)
    ensures
        rev8(x) == 255 ==> x == 255,
{
    assert(rev8(x) == 255 ==> x == 255) by (bit_vector);
}

/// Counter value `k` places a bit: the loop over 0..255 uses `k` exactly
/// when its bit reversal is a valid output position.
pub open spec fn is_hit(k: int) -> bool {
    0 <= k < 255 && rev8(k as u8) < 162
}

/// How many counter values below `n` place a bit.
pub open spec fn hits_below(n: int) -> int
    decreases n,
{
    if n <= 0 {
        0
    } else {
        hits_below(n - 1) + if is_hit(n - 1) {
            1int
        } else {
            0int
        }
    }
}

/// Index in the generation-order stream of the bit that lands at output
/// position `j` of the interleaver.
pub open spec fn source_index(j: int) -> int {
    hits_below(rev8(j as u8) as int)
}

/// Stream `s` in interleaved order.
pub open spec fn interleaved(s: Seq<u8>) -> Seq<u8> {
    Seq::new(162, |j: int| s[source_index(j)])
}

proof fn lemma_hits_monotone(m: int, n: int)
    requires
        m <= n,
    ensures
        hits_below(m) <= hits_below(n),
    decreases n - m,
{
    if m < n {
        lemma_hits_monotone(m, n - 1);
    }
}

/// The counter values below `n` that place a bit, as a set.
spec fn hit_set(n: int) -> Set<int> {
    Set::new(|k: int| 0 <= k < n && is_hit(k))
}

proof fn lemma_hit_set_card(n: int)
    requires
        0 <= n,
    ensures
        hit_set(n).finite(),
        hit_set(n).len() == hits_below(n),
    decreases n,
{
    if n == 0 {
        assert(hit_set(0) =~= Set::empty());
    } else {
        lemma_hit_set_card(n - 1);
        if is_hit(n - 1) {
            assert(hit_set(n) =~= hit_set(n - 1).insert(n - 1));
            assert(!hit_set(n - 1).contains(n - 1));
        } else {
            assert(hit_set(n) =~= hit_set(n - 1));
        }
    }
}

/// Exactly 162 of the 255 counter values place a bit: the hit set is the
/// image of the 162 output positions under bit reversal.
proof fn lemma_hits_total()
    ensures
        hits_below(255) == 162,
{
    let f = |j: int| rev8(j as u8) as int;
    let t = set_int_range(0, 162);
    lemma_int_range(0, 162);
    assert forall|x1: int, x2: int|
        t.contains(x1) && t.contains(x2) && #[trigger] f(x1) == #[trigger] f(x2) implies x1
        == x2 by {
        lemma_rev8_involution(x1 as u8);
        lemma_rev8_involution(x2 as u8);
    }
    assert(injective_on(f, t));
    assert(t.map(f) =~= hit_set(255)) by {
        assert forall|b: int| t.map(f).contains(b) implies hit_set(255).contains(b) by {
            let j = choose|j: int| t.contains(j) && b == f(j);
            lemma_rev8_involution(j as u8);
            lemma_rev8_only_self_max(j as u8);
        }
        assert forall|k: int| hit_set(255).contains(k) implies t.map(f).contains(k) by {
            lemma_rev8_involution(k as u8);
            let j = rev8(k as u8) as int;
            assert(t.contains(j) && k == f(j));
        }
    }
    lemma_map_size(t, hit_set(255), f);
    lemma_hit_set_card(255);
}

/// A counter value that places a bit places it at a source index below 162.
pub proof fn lemma_hit_count_bound(k: int)
    requires
        is_hit(k),
    ensures
        0 <= hits_below(k) < 162,
{
    lemma_hits_monotone(0, k);
    lemma_hits_monotone(k + 1, 255);
    lemma_hits_total();
}

/// Every output position of the interleaver draws from a source index in
/// range: the permutation never reads outside the stream.
pub proof fn lemma_source_index_in_range(j: int)
    requires
        0 <= j < 162,
    ensures
        0 <= source_index(j) < 162,
{
    lemma_rev8_involution(j as u8);
    lemma_rev8_only_self_max(j as u8);
    lemma_hit_count_bound(rev8(j as u8) as int);
}

/// Distinct output positions draw from distinct source indices: no encoded
/// bit is duplicated.
pub proof fn lemma_source_index_injective(j1: int, j2: int)
    requires
        0 <= j1 < 162,
        0 <= j2 < 162,
        j1 != j2,
    ensures
        source_index(j1) != source_index(j2),
{
    lemma_rev8_involution(j1 as u8);
    lemma_rev8_involution(j2 as u8);
    lemma_rev8_only_self_max(j1 as u8);
    lemma_rev8_only_self_max(j2 as u8);
    let k1 = rev8(j1 as u8) as int;
    let k2 = rev8(j2 as u8) as int;
    if k1 < k2 {
        lemma_hits_monotone(k1 + 1, k2);
    } else {
        lemma_hits_monotone(k2 + 1, k1);
    }
}

proof fn lemma_hits_reach(n: int, p: int)
    requires
        0 <= p < hits_below(n),
    ensures
        exists|k: int| #[trigger] is_hit(k) && 0 <= k < n && hits_below(k) == p,
    decreases n,
{
    if p < hits_below(n - 1) {
        lemma_hits_reach(n - 1, p);
        let k = choose|k: int| #[trigger] is_hit(k) && 0 <= k < n - 1 && hits_below(k) == p;
        assert(is_hit(k) && 0 <= k < n && hits_below(k) == p);
    } else {
        assert(is_hit(n - 1) && 0 <= n - 1 < n && hits_below(n - 1) == p);
    }
}

/// Every source index is drawn by some output position: no encoded bit is
/// dropped. Together with the range and injectivity lemmas this makes the
/// interleave a bijection on the 162 positions.
pub proof fn lemma_source_index_surjective(p: int)
    requires
        0 <= p < 162,
    ensures
        exists|j: int| 0 <= j < 162 && #[trigger] source_index(j) == p,
{
    lemma_hits_total();
    lemma_hits_reach(255, p);
    let k = choose|k: int| #[trigger] is_hit(k) && 0 <= k < 255 && hits_below(k) == p;
    lemma_rev8_involution(k as u8);
    let j = rev8(k as u8) as int;
    assert(0 <= j < 162 && source_index(j) == p);
}

} // verus!
