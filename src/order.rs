use vstd::prelude::*;
use crate::types::{Assertion, Point, point_lt, point_le, point_less, model};

verus! {

/// The index at which `p` goes into `s`, scanning from index `k`: in front of
/// the first entry that is not strictly before it.
pub open spec fn front_pos(s: Seq<(Point, Seq<char>)>, p: Point, k: int) -> int
    decreases s.len() - k,
{
    if 0 <= k < s.len() && point_lt(s[k].0, p) {
        front_pos(s, p, k + 1)
    } else {
        k
    }
}

/// `x` put into `s` in front of the first entry that is not strictly before it.
pub open spec fn insert_front(s: Seq<(Point, Seq<char>)>, x: (Point, Seq<char>)) -> Seq<(Point, Seq<char>)> {
    s.insert(front_pos(s, x.0, 0), x)
}

/// `s` sorted by position; entries at the same position keep their order.
pub open spec fn sort_by_position(s: Seq<(Point, Seq<char>)>) -> Seq<(Point, Seq<char>)>
    decreases s.len(),
{
    if s.len() == 0 {
        s
    } else {
        insert_front(sort_by_position(s.drop_first()), s[0])
    }
}

/// Positions ascend in `s`.
pub open spec fn sorted(s: Seq<(Point, Seq<char>)>) -> bool {
    forall|i: int, j: int| 0 <= i < j < s.len() ==> point_le(s[i].0, s[j].0)
}

proof fn lemma_front_pos(s: Seq<(Point, Seq<char>)>, p: Point, k: int)
    requires
        0 <= k <= s.len(),
        forall|m: int| 0 <= m < k ==> point_lt(s[m].0, p),
    ensures
        k <= front_pos(s, p, k) <= s.len(),
        forall|m: int| 0 <= m < front_pos(s, p, k) ==> point_lt(s[m].0, p),
        front_pos(s, p, k) < s.len() ==> !point_lt(s[front_pos(s, p, k)].0, p),
    decreases s.len() - k,
{
    if 0 <= k < s.len() && point_lt(s[k].0, p) {
        lemma_front_pos(s, p, k + 1);
    }
}

proof fn lemma_insert_sorted(s: Seq<(Point, Seq<char>)>, x: (Point, Seq<char>))
    requires
        sorted(s),
    ensures
        sorted(insert_front(s, x)),
        insert_front(s, x).to_multiset() =~= s.to_multiset().insert(x),
{
    lemma_front_pos(s, x.0, 0);
    let p = front_pos(s, x.0, 0);
    let r = insert_front(s, x);
    assert forall|i: int, j: int| 0 <= i < j < r.len() implies point_le(r[i].0, r[j].0) by {
        if j < p {
        } else if j == p {
        } else if i < p {
            assert(point_le(s[i].0, s[j - 1].0));
        } else if i == p {
            assert(point_le(s[p].0, s[j - 1].0));
        } else {
            assert(point_le(s[i - 1].0, s[j - 1].0));
        }
    }
    vstd::seq_lib::to_multiset_insert(s, p, x);
}

/// Sorting by position orders the entries ascending and keeps every one of
/// them.
pub proof fn lemma_sort_by_position(s: Seq<(Point, Seq<char>)>)
    ensures
        sorted(sort_by_position(s)),
        sort_by_position(s).to_multiset() =~= s.to_multiset(),
    decreases s.len(),
{
    if s.len() > 0 {
        lemma_sort_by_position(s.drop_first());
        lemma_insert_sorted(sort_by_position(s.drop_first()), s[0]);
        assert(s =~= s.drop_first().insert(0, s[0]));
        vstd::seq_lib::to_multiset_insert(s.drop_first(), 0, s[0]);
    }
}

/// Pairs each position with its name and sorts the pairs by position, keeping
/// the order of pairs at the same position.
pub fn sort_assertions(positions: Vec<Point>, names: Vec<String>) -> (r: Vec<Assertion>)
    requires
        positions@.len() == names@.len(),
    ensures
        model(r@) == sort_by_position(
            Seq::new(positions@.len(), |k: int| (positions@[k], names@[k]@)),
        ),
{
    let ghost all = Seq::new(positions@.len(), |k: int| (positions@[k], names@[k]@));
    let mut positions = positions;
    let mut names = names;
    let mut out: Vec<Assertion> = Vec::new();
    proof {
        assert(all.subrange(all.len() as int, all.len() as int) =~= Seq::<(Point, Seq<char>)>::empty());
        assert(model(out@) =~= Seq::<(Point, Seq<char>)>::empty());
    }
    while positions.len() > 0
        invariant
            positions@.len() == names@.len(),
            positions@.len() <= all.len(),
            forall|k: int| 0 <= k < positions@.len() ==> all[k] == (positions@[k], names@[k]@),
            model(out@) == sort_by_position(all.subrange(positions@.len() as int, all.len() as int)),
        decreases positions@.len(),
    {
        let p = positions.pop().unwrap();
        let name = names.pop().unwrap();
        let k: usize = positions.len();
        let ghost x = (p, name@);
        let ghost rest = all.subrange(k + 1, all.len() as int);
        assert(all.subrange(k as int, all.len() as int).drop_first() =~= rest);
        assert(all.subrange(k as int, all.len() as int)[0] == x);
        let mut q: usize = 0;
        while q < out.len() && point_less(out[q].position, p)
            invariant
                q <= out@.len(),
                model(out@) == sort_by_position(rest),
                front_pos(model(out@), p, 0) == front_pos(model(out@), p, q as int),
            decreases out@.len() - q,
        {
            q = q + 1;
        }
        assert(front_pos(model(out@), p, q as int) == q);
        let ghost before = out@;
        out.insert(q, Assertion { position: p, expected_capture_name: name });
        assert(model(out@) =~= model(before).insert(q as int, x));
    }
    assert(all.subrange(0, all.len() as int) =~= all);
    out
}

} // verus!
