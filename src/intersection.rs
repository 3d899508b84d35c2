use vstd::prelude::*;

verus! {

/// Bit pattern of the double positive infinity.
pub const POSITIVE_INFINITY_BITS: u64 = 0x7ff0_0000_0000_0000;

/// Bit pattern of the double negative zero.
pub const NEGATIVE_ZERO_BITS: u64 = 0x8000_0000_0000_0000;

/// Whether the double with bit pattern `bits` is zero or positive, and not NaN.
pub open spec fn non_negative(bits: u64) -> bool {
    bits <= POSITIVE_INFINITY_BITS || bits == NEGATIVE_ZERO_BITS
}

/// A key that orders non-negative doubles by value: IEEE 754 lays them out
/// so that their bit patterns increase with their values, and both zeros
/// count as zero.
pub open spec fn magnitude(bits: u64) -> u64 {
    if bits == NEGATIVE_ZERO_BITS {
        0
    } else {
        bits
    }
}

fn magnitude_of(bits: u64) -> (r: u64)
    ensures
        r == magnitude(bits),
{
    if bits == NEGATIVE_ZERO_BITS {
        0
    } else {
        bits
    }
}

/// The hit among intersections at distances given by their double bit
/// patterns: the nearest one in front of the ray origin (distance zero or
/// more), the first of equals; none when every one lies behind.
pub fn nearest_hit(ts: &Vec<u64>) -> (r: Option<usize>)
    ensures
        r is None <==> forall|j: int| 0 <= j < ts@.len() ==> !non_negative(#[trigger] ts@[j]),
        r matches Some(i) ==> {
            &&& i < ts@.len()
            &&& non_negative(ts@[i as int])
            &&& forall|j: int|
                0 <= j < ts@.len() && non_negative(#[trigger] ts@[j]) ==> magnitude(ts@[i as int])
                    <= magnitude(ts@[j])
            &&& forall|j: int|
                0 <= j < i && non_negative(#[trigger] ts@[j]) ==> magnitude(ts@[i as int]) < magnitude(
                    ts@[j],
                )
        },
{
    let mut best: Option<usize> = None;
    let mut j: usize = 0;
    while j < ts.len()
        invariant
            j <= ts@.len(),
            best is None <==> forall|k: int| 0 <= k < j ==> !non_negative(#[trigger] ts@[k]),
            best matches Some(i) ==> {
                &&& i < j
                &&& non_negative(ts@[i as int])
                &&& forall|k: int|
                    0 <= k < j && non_negative(#[trigger] ts@[k]) ==> magnitude(ts@[i as int])
                        <= magnitude(ts@[k])
                &&& forall|k: int|
                    0 <= k < i && non_negative(#[trigger] ts@[k]) ==> magnitude(ts@[i as int])
                        < magnitude(ts@[k])
            },
        decreases ts@.len() - j,
    {
        let t = ts[j];
        if t <= POSITIVE_INFINITY_BITS || t == NEGATIVE_ZERO_BITS {
            match best {
                None => {
                    best = Some(j);
                },
                Some(i) => {
                    if magnitude_of(t) < magnitude_of(ts[i]) {
                        best = Some(j);
                    }
                },
            }
        }
        j = j + 1;
    }
    best
}

/// Where the double with bit pattern `bits` lies on the number line, for
/// every double but NaN: IEEE 754 stores sign and magnitude, and magnitudes
/// increase with their bit patterns. Both zeros sit at zero.
pub open spec fn signed_key(bits: u64) -> int {
    if bits < NEGATIVE_ZERO_BITS {
        bits as int
    } else {
        NEGATIVE_ZERO_BITS as int - bits as int
    }
}

fn signed_key_of(bits: u64) -> (r: i64)
    ensures
        r == signed_key(bits),
{
    if bits < NEGATIVE_ZERO_BITS {
        bits as i64
    } else {
        -((bits - NEGATIVE_ZERO_BITS) as i64)
    }
}

/// Whether position `i` of `ts` comes before position `j` in distance order:
/// it is nearer, or as near and earlier.
pub open spec fn precedes(ts: Seq<u64>, i: int, j: int) -> bool {
    signed_key(ts[i]) < signed_key(ts[j]) || (signed_key(ts[i]) == signed_key(ts[j]) && i < j)
}

/// Whether `order` lists positions of `ts` by increasing distance, equal
/// distances in the order they are given.
pub open spec fn sorted_by_distance(ts: Seq<u64>, order: Seq<usize>) -> bool {
    forall|a: int, b: int|
        0 <= a < b < order.len() ==> precedes(ts, #[trigger] order[a] as int, #[trigger] order[b] as int)
}

/// The positions `0..ts.len()` of intersections at distances given by their
/// double bit patterns, each once, ordered by increasing distance; equal
/// distances keep the order they are given in.
pub fn sort_by_distance(ts: &Vec<u64>) -> (order: Vec<usize>)
    ensures
        order@.len() == ts@.len(),
        forall|a: int| 0 <= a < order@.len() ==> order@[a] < ts@.len(),
        forall|a: int, b: int| 0 <= a < b < order@.len() ==> order@[a] != order@[b],
        sorted_by_distance(ts@, order@),
{
    let mut order: Vec<usize> = Vec::new();
    let mut i: usize = 0;
    while i < ts.len()
        invariant
            i <= ts@.len(),
            order@.len() == i,
            forall|a: int| 0 <= a < order@.len() ==> order@[a] < i,
            forall|a: int, b: int| 0 <= a < b < order@.len() ==> order@[a] != order@[b],
            sorted_by_distance(ts@, order@),
        decreases ts@.len() - i,
    {
        let key = signed_key_of(ts[i]);
        let mut p: usize = 0;
        while p < order.len() && signed_key_of(ts[order[p]]) <= key
            invariant
                p <= order@.len(),
                order@.len() == i,
                i < ts@.len(),
                forall|a: int| 0 <= a < order@.len() ==> order@[a] < i,
                forall|a: int| 0 <= a < p ==> signed_key(ts@[order@[a] as int]) <= key,
            decreases order@.len() - p,
        {
            p = p + 1;
        }
        let ghost before = order@;
        order.insert(p, i);
        proof {
            assert(order@ == before.insert(p as int, i));
            assert forall|a: int, b: int| 0 <= a < b < order@.len() implies precedes(
                ts@,
                #[trigger] order@[a] as int,
                #[trigger] order@[b] as int,
            ) by {
                if p < before.len() {
                    assert(signed_key(ts@[before[p as int] as int]) > key);
                }
                if a == p && b - 1 > p {
                    assert(precedes(ts@, before[p as int] as int, before[b - 1] as int));
                }
            }
        }
        i = i + 1;
    }
    order
}

/// Position of the first occurrence of `o` in `c`.
pub open spec fn first_position(c: Seq<usize>, o: usize) -> int
    decreases c.len(),
{
    if c.len() == 0 || c[0] == o {
        0
    } else {
        1 + first_position(c.drop_first(), o)
    }
}

/// Crossing the surface of object `o`: the ray leaves `o` if it was inside it,
/// and enters it otherwise.
pub open spec fn toggle(c: Seq<usize>, o: usize) -> Seq<usize> {
    if c.contains(o) {
        c.remove(first_position(c, o))
    } else {
        c.push(o)
    }
}

/// The objects that contain the ray after its first `k` intersections, with
/// objects given by id, in the order the ray entered them.
pub open spec fn containers(objects: Seq<usize>, k: nat) -> Seq<usize>
    decreases k,
{
    if k == 0 {
        Seq::empty()
    } else {
        toggle(containers(objects, (k - 1) as nat), objects[k - 1])
    }
}

/// The object entered most recently, if any; none stands for vacuum.
pub open spec fn innermost(c: Seq<usize>) -> Option<usize> {
    if c.len() == 0 {
        None
    } else {
        Some(c.last())
    }
}

proof fn lemma_first_position(c: Seq<usize>, o: usize, j: int)
    requires
        0 <= j < c.len(),
        c[j] == o,
        forall|k: int| 0 <= k < j ==> c[k] != o,
    ensures
        first_position(c, o) == j,
    decreases j,
{
    if j > 0 {
        lemma_first_position(c.drop_first(), o, j - 1);
    }
}

fn toggle_in(c: &mut Vec<usize>, o: usize)
    ensures
        final(c)@ == toggle(old(c)@, o),
{
    let mut j: usize = 0;
    while j < c.len()
        invariant
            c@ == old(c)@,
            j <= c@.len(),
            forall|k: int| 0 <= k < j ==> c@[k] != o,
        decreases c@.len() - j,
    {
        if c[j] == o {
            proof {
                lemma_first_position(c@, o, j as int);
                assert(c@.contains(o));
            }
            c.remove(j);
            return;
        }
        j = j + 1;
    }
    c.push(o);
}

fn innermost_of(c: &Vec<usize>) -> (r: Option<usize>)
    ensures
        r == innermost(c@),
{
    if c.len() == 0 {
        None
    } else {
        Some(c[c.len() - 1])
    }
}

/// For the intersection at position `hit` of a list sorted by distance, whose
/// objects are given by id: the object whose material the ray leaves there
/// and the one it enters, none standing for vacuum. The ray is inside every
/// object whose surface it has crossed an odd number of times, and the most
/// recently entered of them is its medium.
pub fn media_at(objects: &Vec<usize>, hit: usize) -> (r: (Option<usize>, Option<usize>))
    requires
        hit < objects@.len(),
    ensures
        r.0 == innermost(containers(objects@, hit as nat)),
        r.1 == innermost(containers(objects@, hit as nat + 1)),
{
    let mut inside: Vec<usize> = Vec::new();
    let mut i: usize = 0;
    while i < hit
        invariant
            i <= hit,
            hit < objects@.len(),
            inside@ == containers(objects@, i as nat),
        decreases hit - i,
    {
        toggle_in(&mut inside, objects[i]);
        i = i + 1;
    }
    let leaving = innermost_of(&inside);
    toggle_in(&mut inside, objects[hit]);
    let entering = innermost_of(&inside);
    (leaving, entering)
}

} // verus!
