use vstd::prelude::*;
use crate::types::{Assertion, CommentNode, Point, model};
use crate::scan::{comment_assertion, read_comment};
use crate::correct::{corrected_rows, correct_rows};
use crate::order::{sort_by_position, sort_assertions};

verus! {

/// The assertions that the comments carry, in the order of the comments,
/// each still on its comment's own row.
pub open spec fn found(source: Seq<u8>, cs: Seq<CommentNode>) -> Seq<(Point, Seq<char>)>
    decreases cs.len(),
{
    if cs.len() == 0 {
        seq![]
    } else {
        let prev = found(source, cs.drop_last());
        match comment_assertion(source, cs.last()) {
            Some(a) => prev.push(a),
            None => prev,
        }
    }
}

/// The starting rows of the assertion comments, in the order found.
pub open spec fn comment_rows(f: Seq<(Point, Seq<char>)>) -> Seq<usize> {
    f.map_values(|a: (Point, Seq<char>)| a.0.row)
}

/// Each assertion moved to the row of the code line it annotates.
pub open spec fn corrected(f: Seq<(Point, Seq<char>)>) -> Seq<(Point, Seq<char>)> {
    Seq::new(
        f.len(),
        |k: int|
            (Point { row: corrected_rows(comment_rows(f))[k] as usize, column: f[k].0.column }, f[k].1),
    )
}

/// The assertions of a source file whose comment nodes, in the order of a
/// pre-order walk of its syntax tree, are `cs`: corrected, then sorted by
/// position.
pub open spec fn extracted(source: Seq<u8>, cs: Seq<CommentNode>) -> Seq<(Point, Seq<char>)> {
    sort_by_position(corrected(found(source, cs)))
}

/// The assertions that the comment nodes `comments` of `source` carry, given
/// in the order of a pre-order walk of the syntax tree, sorted by position.
pub fn assertions_in_comments(source: &[u8], comments: &Vec<CommentNode>) -> (r: Vec<Assertion>)
    ensures
        model(r@) == extracted(source@, comments@),
{
    let mut positions: Vec<Point> = Vec::new();
    let mut names: Vec<String> = Vec::new();
    let mut rows: Vec<usize> = Vec::new();
    let mut k: usize = 0;
    while k < comments.len()
        invariant
            k <= comments@.len(),
            positions@.len() == names@.len(),
            positions@.len() == rows@.len(),
            positions@.len() == found(source@, comments@.subrange(0, k as int)).len(),
            forall|m: int|
                0 <= m < positions@.len() ==> found(source@, comments@.subrange(0, k as int))[m]
                    == (positions@[m], names@[m]@),
            forall|m: int| 0 <= m < positions@.len() ==> rows@[m] == positions@[m].row,
        decreases comments@.len() - k,
    {
        let ghost prefix = comments@.subrange(0, k as int);
        assert(comments@.subrange(0, k + 1).drop_last() =~= prefix);
        assert(comments@.subrange(0, k + 1).last() == comments@[k as int]);
        match read_comment(source, &comments[k]) {
            Some((p, name)) => {
                positions.push(p);
                names.push(name);
                rows.push(p.row);
            },
            None => {},
        }
        k = k + 1;
    }
    assert(comments@.subrange(0, k as int) =~= comments@);
    let ghost f = found(source@, comments@);
    assert(rows@ =~= comment_rows(f));
    let fixed_rows = correct_rows(&rows);
    let mut fixed: Vec<Point> = Vec::new();
    let mut m: usize = 0;
    while m < positions.len()
        invariant
            m <= positions@.len(),
            fixed_rows@.len() == positions@.len(),
            positions@.len() == f.len(),
            fixed@.len() == m,
            rows@ == comment_rows(f),
            forall|j: int| 0 <= j < fixed_rows@.len() ==> fixed_rows@[j] as int == corrected_rows(rows@)[j],
            forall|j: int| 0 <= j < m ==> fixed@[j] == corrected(f)[j].0,
            forall|j: int| 0 <= j < positions@.len() ==> f[j].0 == positions@[j],
        decreases positions@.len() - m,
    {
        fixed.push(Point { row: fixed_rows[m], column: positions[m].column });
        m = m + 1;
    }
    let r = sort_assertions(fixed, names);
    assert(Seq::new(fixed@.len(), |j: int| (fixed@[j], names@[j]@)) =~= corrected(f));
    r
}

} // verus!
