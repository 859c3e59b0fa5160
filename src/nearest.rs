use vstd::prelude::*;

verus! {

/// `i` is where the nearest hit among `hits` stands: a hit whose distance no
/// other hit undercuts, and the first of those in order. An entry is `None`
/// where the object at that position is not hit, and otherwise the hit's
/// distance as an integer whose order is the order of distances.
pub open spec fn is_nearest(hits: Seq<Option<u64>>, i: int) -> bool {
    &&& 0 <= i < hits.len()
    &&& hits[i] is Some
    &&& forall|j: int| 0 <= j < hits.len() && #[trigger] hits[j] is Some ==> hits[i]->0 <= hits[j]->0
    &&& forall|j: int| 0 <= j < i && #[trigger] hits[j] is Some ==> hits[i]->0 < hits[j]->0
}

/// Nothing in `hits` is hit.
pub open spec fn no_hit(hits: Seq<Option<u64>>) -> bool {
    forall|j: int| 0 <= j < hits.len() ==> #[trigger] hits[j] is None
}

/// The position of the nearest hit among the objects of a scene, or `None`
/// when the ray hits none of them. The search keeps the nearest hit seen so
/// far and lets a later object replace it only with a strictly nearer one, so
/// of several hits at the same distance the first one wins.
pub fn closest_hit(hits: &Vec<Option<u64>>) -> (r: Option<usize>)
    ensures
        r is None <==> no_hit(hits@),
        r matches Some(i) ==> is_nearest(hits@, i as int),
{
    let mut best: Option<usize> = None;
    let mut bound: u64 = 0;
    let mut k: usize = 0;
    while k < hits.len()
        invariant
            k <= hits@.len(),
            best is None <==> no_hit(hits@.subrange(0, k as int)),
            best matches Some(b) ==> is_nearest(hits@.subrange(0, k as int), b as int) && hits@[b as int] == Some(bound),
        decreases hits@.len() - k,
    {
        let ghost seen = hits@.subrange(0, k as int);
        let ghost next = hits@.subrange(0, k + 1);
        assert(forall|j: int| 0 <= j < k ==> next[j] == seen[j]);
        match hits[k] {
            Some(d) => {
                let closer = match best {
                    None => true,
                    Some(_) => d < bound,
                };
                if closer {
                    best = Some(k);
                    bound = d;
                }
            },
            None => {},
        }
        k = k + 1;
    }
    assert(hits@.subrange(0, hits@.len() as int) =~= hits@);
    best
}

/// The largest magnitude a 64-bit float pattern can carry: every bit but the
/// sign.
pub const MAGNITUDE_MASK: u64 = 0x7fff_ffff_ffff_ffff;

/// The value that a 64-bit float bit pattern stands for in sign-magnitude
/// reading: the low 63 bits, negated when the sign bit is set. Two non-NaN
/// doubles compare as their bit patterns do in this reading, with the one
/// exception that both zeros read as 0.
pub open spec fn signed_magnitude(bits: u64) -> int {
    let m = (bits & MAGNITUDE_MASK) as int;
    if bits >> 63u64 == 1 {
        -m
    } else {
        m
    }
}

/// The key of a bit pattern: its signed magnitude shifted up by 2^63, and
/// one lower still for a negative pattern, so that the two zeros differ.
pub open spec fn ordered_key(bits: u64) -> int {
    0x8000_0000_0000_0000 + signed_magnitude(bits) - (if bits >> 63u64 == 1 {
        1int
    } else {
        0int
    })
}

/// Turns the bit pattern of a hit distance into a key for `closest_hit`:
/// the sign bit is set on a non-negative pattern, and every bit is flipped on
/// a negative one. Keys are then ordered as the signed magnitudes are, and a
/// negative zero keys just below a positive one.
pub fn distance_key(bits: u64) -> (r: u64)
    ensures
        r as int == ordered_key(bits),
{
    if bits >> 63u64 == 1 {
        assert(bits >> 63u64 == 1 ==> !bits == MAGNITUDE_MASK - (bits & MAGNITUDE_MASK)) by (bit_vector);
        !bits
    } else {
        assert(bits >> 63u64 != 1 ==> (bits | 0x8000_0000_0000_0000u64) == 0x8000_0000_0000_0000u64 + (
        bits & MAGNITUDE_MASK)) by (bit_vector);
        bits | 0x8000_0000_0000_0000u64
    }
}

/// Keys keep the order of what they stand for: a smaller signed magnitude
/// gets a smaller key, and a key no larger than another stands for a signed
/// magnitude no larger than the other's.
pub proof fn lemma_distance_key_order(a: u64, b: u64)
    ensures
        signed_magnitude(a) < signed_magnitude(b) ==> ordered_key(a) < ordered_key(b),
        ordered_key(a) <= ordered_key(b) ==> signed_magnitude(a) <= signed_magnitude(b),
{
}

/// An entry of `a` stands somewhere in `b` when the two hold the same entries.
proof fn lemma_entry_carries_over(a: Seq<Option<u64>>, b: Seq<Option<u64>>, k: int) -> (m: int)
    requires
        a.to_multiset() == b.to_multiset(),
        0 <= k < a.len(),
    ensures
        0 <= m < b.len(),
        b[m] == a[k],
{
    vstd::seq_lib::to_multiset_contains(a, a[k]);
    vstd::seq_lib::to_multiset_contains(b, a[k]);
    assert(a.contains(a[k]));
    choose|m: int| 0 <= m < b.len() && b[m] == a[k]
}

/// The order in which a scene holds its objects does not decide the nearest
/// hit: when `a` and `b` hold the same entries, in any order, either both
/// show no hit, or the nearest hit of each lies at the same distance.
pub proof fn lemma_nearest_ignores_order(a: Seq<Option<u64>>, b: Seq<Option<u64>>)
    requires
        a.to_multiset() == b.to_multiset(),
    ensures
        no_hit(a) <==> no_hit(b),
        forall|i: int, j: int| is_nearest(a, i) && is_nearest(b, j) ==> a[i] == b[j],
{
    if !no_hit(a) {
        let k = choose|k: int| 0 <= k < a.len() && a[k] is Some;
        let m = lemma_entry_carries_over(a, b, k);
        assert(b[m] is Some);
    }
    if !no_hit(b) {
        let k = choose|k: int| 0 <= k < b.len() && b[k] is Some;
        let m = lemma_entry_carries_over(b, a, k);
        assert(a[m] is Some);
    }
    assert forall|i: int, j: int| is_nearest(a, i) && is_nearest(b, j) implies a[i] == b[j] by {
        let m = lemma_entry_carries_over(a, b, i);
        let n = lemma_entry_carries_over(b, a, j);
        assert(b[m] is Some);
        assert(a[n] is Some);
    }
}

} // verus!
