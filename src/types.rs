use vstd::prelude::*;

verus! {

/// A position in a multi-line text document, in terms of rows and columns.
///
/// Rows and columns are zero-based.
#[derive(Clone, Copy, Debug, PartialEq, Eq, Structural, Hash, PartialOrd, Ord)]
pub struct Point {
    pub row: usize,
    pub column: usize,
}

impl Default for Point {
    fn default() -> (r: Point)
        ensures
            r.row == 0,
            r.column == 0,
    {
        Point { row: 0, column: 0 }
    }
}

/// A highlight name together with the range it covers.
#[derive(Debug, PartialEq, Eq)]
pub struct CaptureInfo {
    pub name: String,
    pub start: Point,
    pub end: Point,
}

/// A claim that the token at `position` is highlighted as
/// `expected_capture_name`.
#[derive(Debug, PartialEq, Eq)]
pub struct Assertion {
    pub position: Point,
    pub expected_capture_name: String,
}

impl View for Assertion {
    type V = (Point, Seq<char>);

    open spec fn view(&self) -> (Point, Seq<char>) {
        (self.position, self.expected_capture_name@)
    }
}

/// The assertions of a sequence, as positions and names.
pub open spec fn model(s: Seq<Assertion>) -> Seq<(Point, Seq<char>)> {
    s.map_values(|a: Assertion| a@)
}

/// A comment node of the syntax tree: its start and end positions and the
/// byte range of its text in the source.
#[derive(Clone, Copy, Debug, PartialEq, Eq, Structural)]
pub struct CommentNode {
    pub start: Point,
    pub end: Point,
    pub start_byte: usize,
    pub end_byte: usize,
}

/// `a` comes strictly before `b` in row-major order.
pub open spec fn point_lt(a: Point, b: Point) -> bool {
    a.row < b.row || (a.row == b.row && a.column < b.column)
}

/// `a` comes before `b`, or is `b`, in row-major order.
pub open spec fn point_le(a: Point, b: Point) -> bool {
    !point_lt(b, a)
}

/// Row-major comparison of two points.
pub fn point_less(a: Point, b: Point) -> (r: bool)
    ensures
        r == point_lt(a, b),
{
    a.row < b.row || (a.row == b.row && a.column < b.column)
}

} // verus!
