use vstd::prelude::*;
use tree_sitter::{IncludedRangesError, Language, LanguageError, Parser, Tree};
use crate::types::{Assertion, CommentNode, Point, model};
use crate::extract::{assertions_in_comments, extracted};

verus! {

#[verifier::external_type_specification]
#[verifier::external_body]
pub struct ExParser(tree_sitter::Parser);

#[verifier::external_type_specification]
#[verifier::external_body]
pub struct ExLanguage(tree_sitter::Language);

#[verifier::external_type_specification]
#[verifier::external_body]
pub struct ExTree(tree_sitter::Tree);

#[verifier::external_type_specification]
#[verifier::external_body]
pub struct ExLanguageError(tree_sitter::LanguageError);

#[verifier::external_type_specification]
#[verifier::external_body]
pub struct ExIncludedRangesError(tree_sitter::IncludedRangesError);

/// Why no syntax tree could be had for the source.
#[derive(Clone, Copy, Debug, PartialEq, Eq, Structural)]
pub enum ExtractError {
    /// The parser refused to parse the whole document.
    IncludedRanges,
    /// The parser refused the language.
    Language,
    /// The parser produced no tree.
    Parse,
}

/// Relies on `tree_sitter::Parser::set_included_ranges`: with no ranges the
/// whole document is parsed.
#[verifier::external_body]
fn include_whole_document(parser: &mut Parser) -> Result<(), IncludedRangesError> {
    parser.set_included_ranges(&[])
}

/// Relies on `tree_sitter::Parser::set_language`.
#[verifier::external_body]
fn use_language(parser: &mut Parser, language: &Language) -> Result<(), LanguageError> {
    parser.set_language(language)
}

/// Relies on `tree_sitter::Parser::parse`, from scratch.
#[verifier::external_body]
fn parse_bytes(parser: &mut Parser, source: &[u8]) -> Option<Tree> {
    parser.parse(source, None)
}

/// The nodes of a syntax tree in pre-order, from the root on: each node's
/// kind with its positions and byte range.
pub uninterp spec fn preorder_nodes(tree: Tree) -> Seq<(Seq<char>, CommentNode)>;

/// Relies on `tree_sitter::Tree::root_node` and
/// `tree_sitter::Node::descendant_count`: the number of nodes of the tree,
/// the root included.
#[verifier::external_body]
fn node_count(tree: &Tree) -> (r: usize)
    ensures
        r == preorder_nodes(*tree).len(),
{
    tree.root_node().descendant_count()
}

/// Relies on `tree_sitter::Tree::walk`, `tree_sitter::TreeCursor::goto_descendant`
/// and `tree_sitter::TreeCursor::node`: the node at index `i` of the pre-order
/// of the tree, where index 0 is the root, with its kind, positions and byte
/// range.
#[verifier::external_body]
fn node_at<'tree>(tree: &'tree Tree, i: usize) -> (r: (&'tree str, CommentNode))
    requires
        i < preorder_nodes(*tree).len(),
    ensures
        r.0@ == preorder_nodes(*tree)[i as int].0,
        r.1 == preorder_nodes(*tree)[i as int].1,
{
    let mut cursor = tree.walk();
    cursor.goto_descendant(i);
    let n = cursor.node();
    let (s, e) = (n.start_position(), n.end_position());
    let start = Point { row: s.row, column: s.column };
    let end = Point { row: e.row, column: e.column };
    (n.kind(), CommentNode { start, end, start_byte: n.start_byte(), end_byte: n.end_byte() })
}

/// `needle` occurs in `hay`.
pub open spec fn occurs_in(needle: Seq<char>, hay: Seq<char>) -> bool {
    exists|i: int| 0 <= i && i + needle.len() <= hay.len() && #[trigger] hay.subrange(i, i + needle.len()) == needle
}

/// Relies on `str::contains` with a string pattern: whether the pattern
/// matches a part of the string.
#[verifier::external_body]
fn str_contains(hay: &str, needle: &str) -> (r: bool)
    ensures
        r == occurs_in(needle@, hay@),
{
    hay.contains(needle)
}

/// The nodes of `nodes` whose kind contains `marker`, in order.
pub open spec fn comments_among(nodes: Seq<(Seq<char>, CommentNode)>, marker: Seq<char>) -> Seq<CommentNode>
    decreases nodes.len(),
{
    if nodes.len() == 0 {
        seq![]
    } else {
        let prev = comments_among(nodes.drop_last(), marker);
        if occurs_in(marker, nodes.last().0) {
            prev.push(nodes.last().1)
        } else {
            prev
        }
    }
}

/// The nodes of the tree whose kind contains `comment_node`, in pre-order.
pub fn comment_nodes(tree: &Tree, comment_node: &str) -> (r: Vec<CommentNode>)
    ensures
        r@ == comments_among(preorder_nodes(*tree), comment_node@),
{
    let ghost nodes = preorder_nodes(*tree);
    let count = node_count(tree);
    let mut found: Vec<CommentNode> = Vec::new();
    let mut i: usize = 0;
    while i < count
        invariant
            count == nodes.len(),
            nodes == preorder_nodes(*tree),
            i <= count,
            found@ == comments_among(nodes.subrange(0, i as int), comment_node@),
        decreases count - i,
    {
        let (kind, node) = node_at(tree, i);
        assert(nodes.subrange(0, i + 1).drop_last() =~= nodes.subrange(0, i as int));
        assert(nodes.subrange(0, i + 1).last() == nodes[i as int]);
        if str_contains(kind, comment_node) {
            found.push(node);
        }
        i = i + 1;
    }
    assert(nodes.subrange(0, count as int) =~= nodes);
    found
}

/// Parses `source` as a whole document in `language` and returns the
/// highlight assertions that its comments carry, sorted by position. A node
/// is a comment when its kind contains `comment_node`.
pub fn parse_position_comments(
    parser: &mut Parser,
    language: &Language,
    source: &[u8],
    comment_node: &str,
) -> (r: Result<Vec<Assertion>, ExtractError>)
    ensures
        r is Ok ==> exists|t: Tree|
            model(r->Ok_0@) == extracted(source@, comments_among(preorder_nodes(t), comment_node@)),
{
    if include_whole_document(parser).is_err() {
        return Err(ExtractError::IncludedRanges);
    }
    if use_language(parser, language).is_err() {
        return Err(ExtractError::Language);
    }
    match parse_bytes(parser, source) {
        None => Err(ExtractError::Parse),
        Some(tree) => {
            let comments = comment_nodes(&tree, comment_node);
            let r = assertions_in_comments(source, &comments);
            assert(model(r@) == extracted(
                source@,
                comments_among(preorder_nodes(tree), comment_node@),
            ));
            Ok(r)
        },
    }
}

} // verus!
