use vstd::prelude::*;
use vstd::utf8::valid_utf8;
use crate::types::{Point, CommentNode};

verus! {

/// The pattern that a highlight name matches: word characters, `!`, `_`,
/// `-` and `.`.
pub const NAME_PATTERN: &'static str = "[!\\w_\\-.]+";

/// The byte `^`, an up arrow.
pub const UP_ARROW: u8 = 94;

/// The byte `<`, which opens a left arrow.
pub const LEFT_CARET: u8 = 60;

/// The byte `-`, which closes a left arrow.
pub const DASH: u8 = 45;

/// The text of the leftmost-first match of the regular expression `pattern`
/// in `text`, if there is one.
pub uninterp spec fn leftmost_match(pattern: Seq<char>, text: Seq<u8>) -> Option<Seq<char>>;

/// Relies on `regex::bytes::Regex::new` and `regex::bytes::Regex::find`: the
/// leftmost-first match of the pattern in the bytes, which depends on the
/// pattern and the bytes alone. The match of a pattern over valid UTF-8 is
/// valid UTF-8, so the lossy conversion keeps it as it is.
#[verifier::external_body]
fn find_leftmost(pattern: &str, text: &[u8]) -> (r: Option<String>)
    ensures
        r is Some <==> leftmost_match(pattern@, text@) is Some,
        r is Some ==> r->0@ == leftmost_match(pattern@, text@)->0,
{
    match regex::bytes::Regex::new(pattern) {
        Ok(re) => re.find(text).map(|m| String::from_utf8_lossy(m.as_bytes()).into_owned()),
        Err(_) => None,
    }
}

/// Relies on `std::str::from_utf8`: it succeeds exactly on valid UTF-8.
#[verifier::external_body]
fn is_utf8(b: &[u8]) -> (r: bool)
    ensures
        r == valid_utf8(b@),
{
    std::str::from_utf8(b).is_ok()
}

/// An arrow ends at byte `i` of `t`: a `^`, or the `-` of `<-`.
pub open spec fn arrow_at(t: Seq<u8>, i: int) -> bool {
    t[i] == UP_ARROW || (t[i] == DASH && i > 0 && t[i - 1] == LEFT_CARET)
}

/// The index of the first arrow of `t` at or after `from`.
pub open spec fn first_arrow(t: Seq<u8>, from: int) -> Option<int>
    decreases t.len() - from,
{
    if from < 0 || from >= t.len() {
        None
    } else if arrow_at(t, from) {
        Some(from)
    } else {
        first_arrow(t, from + 1)
    }
}

/// The first arrow at or after `from` lies in the text.
pub proof fn lemma_first_arrow_bounds(t: Seq<u8>, from: int)
    ensures
        first_arrow(t, from) is Some ==> from <= first_arrow(t, from)->0 < t.len(),
    decreases t.len() - from,
{
    if 0 <= from < t.len() && !arrow_at(t, from) {
        lemma_first_arrow_bounds(t, from + 1);
    }
}

/// The index of the first arrow in the text of a comment: the last byte of
/// the first `^` or `<-`, scanning from the left.
pub fn find_arrow(t: &[u8]) -> (r: Option<usize>)
    ensures
        r is Some <==> first_arrow(t@, 0) is Some,
        r is Some ==> first_arrow(t@, 0) == Some(r->0 as int),
        r is Some ==> r->0 < t@.len(),
{
    let mut i: usize = 0;
    let mut after_caret = false;
    while i < t.len()
        invariant
            i <= t@.len(),
            first_arrow(t@, 0) == first_arrow(t@, i as int),
            after_caret == (i > 0 && t@[i - 1] == LEFT_CARET),
        decreases t@.len() - i,
    {
        let c = t[i];
        if c == DASH && after_caret {
            return Some(i);
        }
        if c == UP_ARROW {
            return Some(i);
        }
        after_caret = c == LEFT_CARET;
        i = i + 1;
    }
    None
}

/// The text of a comment in the source, where its byte range lies in it.
pub open spec fn comment_text(source: Seq<u8>, c: CommentNode) -> Seq<u8> {
    source.subrange(c.start_byte as int, c.end_byte as int)
}

/// The column that an arrow at byte `i` of a comment's text points at: the
/// caret's own column for `^`, the comment's column for `<-`.
pub open spec fn target_column(t: Seq<u8>, c: CommentNode, i: int) -> int {
    if t[i] == UP_ARROW {
        c.start.column + i
    } else {
        c.start.column as int
    }
}

/// The assertion that a comment carries, before its row is moved to the code
/// line it annotates: the comment must lie below the first row, its text must
/// be valid UTF-8, hold an arrow, and a highlight name after the arrow.
pub open spec fn comment_assertion(source: Seq<u8>, c: CommentNode) -> Option<(Point, Seq<char>)> {
    let t = comment_text(source, c);
    if c.start.row > 0 && c.start_byte <= c.end_byte <= source.len() && valid_utf8(t) {
        match first_arrow(t, 0) {
            Some(i) => match leftmost_match(NAME_PATTERN@, t.subrange(i + 1, t.len() as int)) {
                Some(name) => if target_column(t, c, i) <= usize::MAX {
                    Some((Point { row: c.start.row, column: target_column(t, c, i) as usize }, name))
                } else {
                    None
                },
                None => None,
            },
            None => None,
        }
    } else {
        None
    }
}

/// The assertion that one comment carries, before row correction.
pub fn read_comment(source: &[u8], c: &CommentNode) -> (r: Option<(Point, String)>)
    ensures
        r is Some <==> comment_assertion(source@, *c) is Some,
        r is Some ==> comment_assertion(source@, *c) == Some(((r->0).0, (r->0).1@)),
{
    if c.start.row == 0 || c.start_byte > c.end_byte || c.end_byte > source.len() {
        return None;
    }
    let t = vstd::slice::slice_subrange(source, c.start_byte, c.end_byte);
    assert(t@ == comment_text(source@, *c));
    if !is_utf8(t) {
        return None;
    }
    match find_arrow(t) {
        None => None,
        Some(i) => {
            let rest = vstd::slice::slice_subrange(t, i + 1, t.len());
            match find_leftmost(NAME_PATTERN, rest) {
                None => None,
                Some(name) => {
                    if t[i] == UP_ARROW {
                        if i > usize::MAX - c.start.column {
                            None
                        } else {
                            Some((Point { row: c.start.row, column: c.start.column + i }, name))
                        }
                    } else {
                        Some((Point { row: c.start.row, column: c.start.column }, name))
                    }
                },
            }
        },
    }
}

} // verus!
