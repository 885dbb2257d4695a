use vstd::prelude::*;
use vstd::utf8::valid_utf8;
use crate::types::{Assertion, CommentNode, Point, model};
use crate::scan::{
    NAME_PATTERN, UP_ARROW, comment_assertion, comment_text, first_arrow, leftmost_match,
    lemma_first_arrow_bounds,
};
use crate::correct::{
    advance, corrected_from, corrected_rows, has_row, lemma_stacked_block, stacked_block, walk_up,
};
use crate::extract::{comment_rows, corrected, extracted, found};
use crate::order::{front_pos, insert_front, lemma_sort_by_position, sort_by_position, sorted};

verus! {

proof fn lemma_found_concat(source: Seq<u8>, a: Seq<CommentNode>, b: Seq<CommentNode>)
    ensures
        found(source, a + b) == found(source, a) + found(source, b),
    decreases b.len(),
{
    if b.len() == 0 {
        assert(a + b =~= a);
        assert(found(source, a) + found(source, b) =~= found(source, a));
    } else {
        lemma_found_concat(source, a, b.drop_last());
        assert((a + b).drop_last() =~= a + b.drop_last());
        assert((a + b).last() == b.last());
        match comment_assertion(source, b.last()) {
            Some(x) => {
                assert(found(source, a) + found(source, b) =~= (found(source, a) + found(
                    source,
                    b.drop_last(),
                )).push(x));
            },
            None => {},
        }
    }
}

proof fn lemma_found_single(source: Seq<u8>, c: CommentNode)
    ensures
        found(source, seq![c]) == match comment_assertion(source, c) {
            Some(a) => seq![a],
            None => Seq::<(Point, Seq<char>)>::empty(),
        },
{
    assert(seq![c].drop_last() =~= Seq::<CommentNode>::empty());
    assert(found(source, Seq::<CommentNode>::empty()) == Seq::<(Point, Seq<char>)>::empty());
    assert(seq![c].last() == c);
    match comment_assertion(source, c) {
        Some(a) => {
            assert(Seq::<(Point, Seq<char>)>::empty().push(a) =~= seq![a]);
        },
        None => {},
    }
}

proof fn lemma_found_none(source: Seq<u8>, cs: Seq<CommentNode>)
    requires
        forall|k: int| 0 <= k < cs.len() ==> comment_assertion(source, #[trigger] cs[k]) is None,
    ensures
        found(source, cs) == Seq::<(Point, Seq<char>)>::empty(),
    decreases cs.len(),
{
    if cs.len() > 0 {
        lemma_found_none(source, cs.drop_last());
    }
}

proof fn lemma_empty_extracted(source: Seq<u8>, cs: Seq<CommentNode>)
    requires
        found(source, cs) == Seq::<(Point, Seq<char>)>::empty(),
    ensures
        extracted(source, cs) == Seq::<(Point, Seq<char>)>::empty(),
{
    assert(corrected(found(source, cs)) =~= Seq::<(Point, Seq<char>)>::empty());
}

/// A comment that carries no assertion can be left out: the other comments
/// give the same assertions without it.
pub proof fn lemma_skip_comment(source: Seq<u8>, s1: Seq<CommentNode>, c: CommentNode, s2: Seq<CommentNode>)
    requires
        comment_assertion(source, c) is None,
    ensures
        extracted(source, s1 + seq![c] + s2) == extracted(source, s1 + s2),
{
    lemma_found_concat(source, s1 + seq![c], s2);
    lemma_found_concat(source, s1, seq![c]);
    lemma_found_concat(source, s1, s2);
    lemma_found_single(source, c);
    assert(found(source, s1) + found(source, seq![c]) =~= found(source, s1));
}

/// A source whose comments hold no arrow, or that has no comments, has no
/// assertions.
pub proof fn lemma_no_arrow_no_assertions(source: Seq<u8>, cs: Seq<CommentNode>)
    requires
        forall|k: int| 0 <= k < cs.len() ==> first_arrow(comment_text(source, #[trigger] cs[k]), 0) is None,
    ensures
        extracted(source, cs) == Seq::<(Point, Seq<char>)>::empty(),
{
    assert forall|k: int| 0 <= k < cs.len() implies comment_assertion(source, #[trigger] cs[k]) is None by {
        assert(first_arrow(comment_text(source, cs[k]), 0) is None);
    }
    lemma_found_none(source, cs);
    lemma_empty_extracted(source, cs);
}

/// Comments on the first row of a file have nothing above them to annotate:
/// they give no assertion.
pub proof fn lemma_first_row_comments(source: Seq<u8>, cs: Seq<CommentNode>)
    requires
        forall|k: int| 0 <= k < cs.len() ==> (#[trigger] cs[k]).start.row == 0,
    ensures
        extracted(source, cs) == Seq::<(Point, Seq<char>)>::empty(),
{
    assert forall|k: int| 0 <= k < cs.len() implies comment_assertion(source, #[trigger] cs[k]) is None by {
        assert(cs[k].start.row == 0);
    }
    lemma_found_none(source, cs);
    lemma_empty_extracted(source, cs);
}

/// A comment with an arrow but no highlight name after it gives no
/// assertion, and the other comments give the same assertions without it.
pub proof fn lemma_arrow_without_name(
    source: Seq<u8>,
    s1: Seq<CommentNode>,
    c: CommentNode,
    s2: Seq<CommentNode>,
    i: int,
)
    requires
        first_arrow(comment_text(source, c), 0) == Some(i),
        leftmost_match(
            NAME_PATTERN@,
            comment_text(source, c).subrange(i + 1, comment_text(source, c).len() as int),
        ) is None,
    ensures
        comment_assertion(source, c) is None,
        extracted(source, s1 + seq![c] + s2) == extracted(source, s1 + s2),
{
    lemma_skip_comment(source, s1, c, s2);
}

/// A comment whose bytes are not valid UTF-8 is passed over, and the other
/// comments give the same assertions without it.
pub proof fn lemma_undecodable_comment(
    source: Seq<u8>,
    s1: Seq<CommentNode>,
    c: CommentNode,
    s2: Seq<CommentNode>,
)
    requires
        !valid_utf8(comment_text(source, c)),
    ensures
        comment_assertion(source, c) is None,
        extracted(source, s1 + seq![c] + s2) == extracted(source, s1 + s2),
{
    lemma_skip_comment(source, s1, c, s2);
}

/// An up arrow points at its own column: the comment's column plus the
/// caret's offset in the comment.
pub proof fn lemma_up_arrow_column(source: Seq<u8>, c: CommentNode, i: int)
    requires
        comment_assertion(source, c) is Some,
        first_arrow(comment_text(source, c), 0) == Some(i),
        comment_text(source, c)[i] == UP_ARROW,
    ensures
        (comment_assertion(source, c)->0).0.column == c.start.column + i,
        (comment_assertion(source, c)->0).0.row == c.start.row,
{
    lemma_first_arrow_bounds(comment_text(source, c), 0);
}

/// A left arrow points at the column where the comment starts.
pub proof fn lemma_left_arrow_column(source: Seq<u8>, c: CommentNode, i: int)
    requires
        comment_assertion(source, c) is Some,
        first_arrow(comment_text(source, c), 0) == Some(i),
        comment_text(source, c)[i] != UP_ARROW,
    ensures
        (comment_assertion(source, c)->0).0.column == c.start.column,
        (comment_assertion(source, c)->0).0.row == c.start.row,
{
}

/// A single assertion comment annotates the line right above it.
pub proof fn lemma_single_comment(source: Seq<u8>, c: CommentNode)
    requires
        comment_assertion(source, c) is Some,
    ensures
        extracted(source, seq![c]) == seq![
            (
                Point {
                    row: (c.start.row - 1) as usize,
                    column: (comment_assertion(source, c)->0).0.column,
                },
                (comment_assertion(source, c)->0).1,
            ),
        ],
{
    let a = comment_assertion(source, c)->0;
    assert(seq![c].drop_last() =~= Seq::<CommentNode>::empty());
    lemma_found_single(source, c);
    let f = found(source, seq![c]);
    assert(f =~= seq![a]);
    let rows = comment_rows(f);
    assert(rows =~= seq![c.start.row]);
    let r = c.start.row as int;
    assert(rows[0] as int == r);
    assert(has_row(rows, 0, r));
    assert(!has_row(rows, 0, r - 1));
    assert(walk_up(rows, 0, r - 1) == r - 1);
    assert(walk_up(rows, 0, r) == r - 1);
    assert(corrected_from(rows, advance(rows, 0, r - 1), 1) =~= Seq::<int>::empty());
    assert(corrected_rows(rows) =~= seq![r - 1]);
    let x = (Point { row: (r - 1) as usize, column: a.0.column }, a.1);
    assert(corrected(f) =~= seq![x]);
    assert(corrected(f).drop_first() =~= Seq::<(Point, Seq<char>)>::empty());
    assert(sort_by_position(corrected(f).drop_first()) =~= Seq::<(Point, Seq<char>)>::empty());
    assert(front_pos(Seq::<(Point, Seq<char>)>::empty(), x.0, 0) == 0);
    assert(insert_front(Seq::<(Point, Seq<char>)>::empty(), x) =~= seq![x]);
}

/// Two assertion comments on consecutive lines both annotate the code line
/// above the first of them, and come out ordered by column.
pub proof fn lemma_stacked_comments(source: Seq<u8>, c1: CommentNode, c2: CommentNode)
    requires
        comment_assertion(source, c1) is Some,
        comment_assertion(source, c2) is Some,
        c2.start.row == c1.start.row + 1,
    ensures
        ({
            let a1 = comment_assertion(source, c1)->0;
            let a2 = comment_assertion(source, c2)->0;
            let row = (c1.start.row - 1) as usize;
            let x1 = (Point { row, column: a1.0.column }, a1.1);
            let x2 = (Point { row, column: a2.0.column }, a2.1);
            extracted(source, seq![c1, c2]) == if a1.0.column <= a2.0.column {
                seq![x1, x2]
            } else {
                seq![x2, x1]
            }
        }),
{
    let a1 = comment_assertion(source, c1)->0;
    let a2 = comment_assertion(source, c2)->0;
    let cs = seq![c1, c2];
    assert(cs.drop_last() =~= seq![c1]);
    assert(seq![c1].drop_last() =~= Seq::<CommentNode>::empty());
    assert(seq![c1].last() == c1);
    assert(cs.last() == c2);
    let f = found(source, cs);
    lemma_found_single(source, c1);
    assert(f =~= seq![a1, a2]);
    let rows = comment_rows(f);
    let r = c1.start.row as int;
    assert(rows =~= seq![c1.start.row, c2.start.row]);
    assert(rows[0] as int == r);
    assert(rows[1] as int == r + 1);
    assert(has_row(rows, 0, r));
    assert(has_row(rows, 0, r + 1));
    assert(!has_row(rows, 0, r - 1));
    assert(walk_up(rows, 0, r - 1) == r - 1);
    assert(walk_up(rows, 0, r) == r - 1);
    assert(walk_up(rows, 0, r + 1) == r - 1);
    assert(advance(rows, 0, r - 1) == 0);
    assert(corrected_from(rows, 0, 2) =~= Seq::<int>::empty());
    assert(corrected_from(rows, 0, 1) =~= seq![r - 1]);
    assert(corrected_rows(rows) =~= seq![r - 1, r - 1]);
    let row = (r - 1) as usize;
    let x1 = (Point { row, column: a1.0.column }, a1.1);
    let x2 = (Point { row, column: a2.0.column }, a2.1);
    let g = corrected(f);
    assert(g =~= seq![x1, x2]);
    let e = Seq::<(Point, Seq<char>)>::empty();
    assert(g.drop_first() =~= seq![x2]);
    assert(seq![x2].drop_first() =~= e);
    assert(sort_by_position(e) == e);
    assert(front_pos(e, x2.0, 0) == 0);
    assert(insert_front(e, x2) =~= seq![x2]);
    assert(sort_by_position(seq![x2]) =~= seq![x2]);
    if a1.0.column <= a2.0.column {
        assert(front_pos(seq![x2], x1.0, 0) == 0);
        assert(insert_front(seq![x2], x1) =~= seq![x1, x2]);
    } else {
        assert(front_pos(seq![x2], x1.0, 1) == 1);
        assert(front_pos(seq![x2], x1.0, 0) == 1);
        assert(insert_front(seq![x2], x1) =~= seq![x2, x1]);
    }
}

/// A block of any number of assertion comments on consecutive rows, under
/// a row on which no assertion comment starts, all annotate that row: each
/// of their assertions moves to it and keeps its column and name. Sorting
/// then keeps every one of them.
pub proof fn lemma_stacked_comment_block(
    source: Seq<u8>,
    cs: Seq<CommentNode>,
    j0: int,
    n: int,
    r: int,
)
    requires
        stacked_block(comment_rows(found(source, cs)), j0, n, r),
    ensures
        forall|m: int|
            j0 <= m < j0 + n ==> #[trigger] corrected(found(source, cs))[m] == (
                Point { row: r as usize, column: found(source, cs)[m].0.column },
                found(source, cs)[m].1,
            ),
        extracted(source, cs).to_multiset() == corrected(found(source, cs)).to_multiset(),
{
    let f = found(source, cs);
    lemma_stacked_block(comment_rows(f), j0, n, r);
    assert forall|m: int| j0 <= m < j0 + n implies #[trigger] corrected(f)[m] == (
        Point { row: r as usize, column: f[m].0.column },
        f[m].1,
    ) by {
        assert(corrected_rows(comment_rows(f))[m] == r);
    }
    lemma_extracted_sorted(source, cs);
}

/// The assertions come out sorted by position, and each assertion found is
/// kept, with its row corrected.
pub proof fn lemma_extracted_sorted(source: Seq<u8>, cs: Seq<CommentNode>)
    ensures
        sorted(extracted(source, cs)),
        extracted(source, cs).to_multiset() == corrected(found(source, cs)).to_multiset(),
{
    lemma_sort_by_position(corrected(found(source, cs)));
}

/// Extraction is a function of the source and its comment nodes: two runs
/// on the same input give the same assertions in the same order, sorted by
/// position.
pub proof fn lemma_extraction_repeatable(
    source: Seq<u8>,
    cs: Seq<CommentNode>,
    r1: Seq<Assertion>,
    r2: Seq<Assertion>,
)
    requires
        model(r1) == extracted(source, cs),
        model(r2) == extracted(source, cs),
    ensures
        model(r1) == model(r2),
        sorted(model(r1)),
{
    lemma_extracted_sorted(source, cs);
}

} // verus!
