//! Ordering rooms by their centres.

use vstd::prelude::*;
use vstd::set_lib::lemma_int_range;
use vstd::set_lib::lemma_len_subset;
use vstd::set_lib::lemma_subset_equality;
use vstd::set_lib::set_int_range;
use crate::room::Room;

verus! {

/// The key by which rooms are ordered: the sum of the two coordinates of
/// the centre.
pub open spec fn room_key(r: Room) -> int {
    r.spec_center().spec_weight()
}

/// Whether the keys of `rooms` never fall from one room to the next.
pub open spec fn sorted_by_center(rooms: Seq<Room>) -> bool {
    forall|i: int, j: int| 0 <= i < j < rooms.len() ==> room_key(rooms[i]) <= room_key(rooms[j])
}

/// Whether `after` holds the rooms of `before` moved around as `origin`
/// says: the room at place `k` of `after` stood at place `origin[k]` of
/// `before`, and every place of `before` is the origin of one room.
pub open spec fn rearranges(before: Seq<Room>, after: Seq<Room>, origin: Seq<int>) -> bool {
    &&& after.len() == before.len()
    &&& origin.len() == before.len()
    &&& forall|k: int|
        0 <= k < after.len() ==> 0 <= #[trigger] origin[k] < before.len() && after[k]
            == before[origin[k]]
    &&& forall|k: int, l: int|
        0 <= k < after.len() && 0 <= l < after.len() && k != l ==> origin[k] != origin[l]
}

/// Whether rooms with equal keys stand in `after` in the order of their
/// origins.
pub open spec fn keeps_ties(after: Seq<Room>, origin: Seq<int>) -> bool {
    forall|k: int, l: int|
        0 <= k < l < after.len() && room_key(after[k]) == room_key(after[l]) ==> origin[k]
            < origin[l]
}

/// Whether `after` is `before` sorted by the key of the centre, rooms with
/// equal keys left in the order in which they stood.
pub open spec fn stably_sorted(before: Seq<Room>, after: Seq<Room>) -> bool {
    exists|origin: Seq<int>|
        {
            &&& #[trigger] rearranges(before, after, origin)
            &&& sorted_by_center(after)
            &&& keeps_ties(after, origin)
        }
}

/// Sorts the rooms by the key of their centres, lowest first; rooms with
/// equal keys keep their order.
pub fn sort_rooms(rooms: &mut Vec<Room>)
    ensures
        stably_sorted(old(rooms)@, final(rooms)@),
{
    let ghost before = rooms@;
    let ghost mut origin: Seq<int> = Seq::new(rooms@.len(), |k: int| k);
    let n = rooms.len();
    let mut i: usize = 1;
    while i < n
        invariant
            n == before.len(),
            1 <= i,
            rearranges(before, rooms@, origin),
            keeps_ties(rooms@, origin),
            forall|a: int, b: int|
                0 <= a < b < i && b < n ==> room_key(rooms@[a]) <= room_key(rooms@[b]),
        decreases n - i,
    {
        let mut j: usize = i;
        while j > 0 && rooms[j - 1].center().weight() > rooms[j].center().weight()
            invariant
                n == before.len(),
                0 <= j <= i < n,
                rearranges(before, rooms@, origin),
                keeps_ties(rooms@, origin),
                forall|a: int, b: int|
                    0 <= a < b <= i && b != j ==> room_key(rooms@[a]) <= room_key(rooms@[b]),
            decreases j,
        {
            let left = rooms[j - 1];
            let right = rooms[j];
            let ghost prev = rooms@;
            let ghost prev_origin = origin;
            rooms[j - 1] = right;
            rooms[j] = left;
            proof {
                origin = prev_origin.update(j - 1, prev_origin[j as int]).update(
                    j as int,
                    prev_origin[j - 1],
                );
                assert(rooms@ == prev.update(j - 1, right).update(j as int, left));
                assert forall|k: int, l: int|
                    0 <= k < l < rooms@.len() && room_key(rooms@[k]) == room_key(
                        rooms@[l],
                    ) implies origin[k] < origin[l] by {
                    let pk = if k == j - 1 {
                        j as int
                    } else if k == j {
                        j - 1
                    } else {
                        k
                    };
                    let pl = if l == j - 1 {
                        j as int
                    } else if l == j {
                        j - 1
                    } else {
                        l
                    };
                    assert(rooms@[k] == prev[pk] && rooms@[l] == prev[pl]);
                    assert(origin[k] == prev_origin[pk] && origin[l] == prev_origin[pl]);
                    assert(pk < pl);
                }
            }
            j -= 1;
        }
        i += 1;
    }
    assert(sorted_by_center(rooms@));
    assert(rearranges(before, rooms@, origin));
}

/// What holds of the rooms at every two different places before sorting
/// holds of the rooms at every two different places after it.
pub proof fn lemma_sort_keeps_pairs(
    before: Seq<Room>,
    after: Seq<Room>,
    related: spec_fn(Room, Room) -> bool,
)
    requires
        stably_sorted(before, after),
        forall|i: int, j: int|
            0 <= i < before.len() && 0 <= j < before.len() && i != j ==> #[trigger] related(
                before[i],
                before[j],
            ),
    ensures
        forall|i: int, j: int|
            0 <= i < after.len() && 0 <= j < after.len() && i != j ==> #[trigger] related(
                after[i],
                after[j],
            ),
{
    let origin = choose|origin: Seq<int>|
        {
            &&& #[trigger] rearranges(before, after, origin)
            &&& sorted_by_center(after)
            &&& keeps_ties(after, origin)
        };
    assert forall|i: int, j: int|
        0 <= i < after.len() && 0 <= j < after.len() && i != j implies #[trigger] related(
        after[i],
        after[j],
    ) by {
        assert(after[i] == before[origin[i]]);
        assert(after[j] == before[origin[j]]);
        assert(origin[i] != origin[j]);
    }
}

/// What holds of every room before sorting holds of every room after it,
/// and sorting keeps the number of rooms.
pub proof fn lemma_sort_keeps_each(
    before: Seq<Room>,
    after: Seq<Room>,
    holds: spec_fn(Room) -> bool,
)
    requires
        stably_sorted(before, after),
        forall|i: int| 0 <= i < before.len() ==> #[trigger] holds(before[i]),
    ensures
        after.len() == before.len(),
        forall|i: int| 0 <= i < after.len() ==> #[trigger] holds(after[i]),
{
    let origin = choose|origin: Seq<int>|
        {
            &&& #[trigger] rearranges(before, after, origin)
            &&& sorted_by_center(after)
            &&& keeps_ties(after, origin)
        };
    assert forall|i: int| 0 <= i < after.len() implies #[trigger] holds(after[i]) by {
        assert(after[i] == before[origin[i]]);
    }
}

/// Whether the room at place `i` of `rooms` comes before the room at place
/// `j` once the rooms are sorted: its key is lower, or the keys are equal
/// and it stands first.
pub open spec fn comes_first(rooms: Seq<Room>, i: int, j: int) -> bool {
    room_key(rooms[i]) < room_key(rooms[j]) || (room_key(rooms[i]) == room_key(rooms[j]) && i < j)
}

/// Every place of the rooms is the origin of some place of a rearrangement.
proof fn lemma_every_place_is_an_origin(
    before: Seq<Room>,
    after: Seq<Room>,
    origin: Seq<int>,
    v: int,
)
    requires
        rearranges(before, after, origin),
        0 <= v < before.len(),
    ensures
        exists|k: int| 0 <= k < origin.len() && origin[k] == v,
{
    let n = before.len() as int;
    assert(origin.no_duplicates());
    origin.unique_seq_to_set();
    lemma_int_range(0, n);
    assert(origin.to_set().subset_of(set_int_range(0, n))) by {
        assert forall|x: int| origin.to_set().contains(x) implies set_int_range(0, n).contains(
            x,
        ) by {
            let k = choose|k: int| 0 <= k < origin.len() && origin[k] == x;
            assert(0 <= origin[k] < n);
        }
    }
    lemma_len_subset(origin.to_set(), set_int_range(0, n));
    lemma_subset_equality(origin.to_set(), set_int_range(0, n));
    assert(set_int_range(0, n).contains(v));
    assert(origin.to_set().contains(v));
}

/// In a sorted rearrangement that keeps ties, the origins come in the order
/// in which their rooms are sorted.
proof fn lemma_origins_in_order(
    before: Seq<Room>,
    after: Seq<Room>,
    origin: Seq<int>,
    k: int,
    l: int,
)
    requires
        rearranges(before, after, origin),
        sorted_by_center(after),
        keeps_ties(after, origin),
        0 <= k < l < after.len(),
    ensures
        comes_first(before, origin[k], origin[l]),
{
    assert(after[k] == before[origin[k]]);
    assert(after[l] == before[origin[l]]);
}

/// Two sorted rearrangements of the same rooms that keep ties have the same
/// origins up to every place.
proof fn lemma_same_origins(
    before: Seq<Room>,
    a1: Seq<Room>,
    o1: Seq<int>,
    a2: Seq<Room>,
    o2: Seq<int>,
    k: int,
)
    requires
        rearranges(before, a1, o1),
        sorted_by_center(a1),
        keeps_ties(a1, o1),
        rearranges(before, a2, o2),
        sorted_by_center(a2),
        keeps_ties(a2, o2),
        0 <= k <= before.len(),
    ensures
        forall|m: int| 0 <= m < k ==> o1[m] == o2[m],
    decreases k,
{
    if k > 0 {
        lemma_same_origins(before, a1, o1, a2, o2, k - 1);
        let m = k - 1;
        if o1[m] != o2[m] {
            lemma_every_place_is_an_origin(before, a2, o2, o1[m]);
            let j2 = choose|j: int| 0 <= j < o2.len() && o2[j] == o1[m];
            lemma_every_place_is_an_origin(before, a1, o1, o2[m]);
            let j1 = choose|j: int| 0 <= j < o1.len() && o1[j] == o2[m];
            if j2 < m {
                assert(o1[j2] == o2[j2]);
                assert(o1[j2] != o1[m]);
            }
            if j1 < m {
                assert(o1[j1] == o2[j1]);
                assert(o2[j1] != o2[m]);
            }
            lemma_origins_in_order(before, a2, o2, m, j2);
            lemma_origins_in_order(before, a1, o1, m, j1);
        }
    }
}

/// Sorting has one outcome: two sequences that both are the rooms sorted by
/// the key of the centre, ties kept in order, are equal.
pub proof fn lemma_sort_is_unique(before: Seq<Room>, a1: Seq<Room>, a2: Seq<Room>)
    requires
        stably_sorted(before, a1),
        stably_sorted(before, a2),
    ensures
        a1 == a2,
{
    let o1 = choose|origin: Seq<int>|
        {
            &&& #[trigger] rearranges(before, a1, origin)
            &&& sorted_by_center(a1)
            &&& keeps_ties(a1, origin)
        };
    let o2 = choose|origin: Seq<int>|
        {
            &&& #[trigger] rearranges(before, a2, origin)
            &&& sorted_by_center(a2)
            &&& keeps_ties(a2, origin)
        };
    lemma_same_origins(before, a1, o1, a2, o2, before.len() as int);
    assert forall|k: int| 0 <= k < a1.len() implies a1[k] == a2[k] by {
        assert(a1[k] == before[o1[k]]);
        assert(a2[k] == before[o2[k]]);
    }
    assert(a1 =~= a2);
}

} // verus!
