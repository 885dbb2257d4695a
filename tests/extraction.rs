use highlight_assertions::correct::correct_rows;
use highlight_assertions::extract::assertions_in_comments;
use highlight_assertions::scan::{find_arrow, read_comment};
use highlight_assertions::types::{point_less, Assertion, CommentNode, Point};

/// The comment node that spans `text` in `source`, where `text` starts at the
/// first occurrence of `text` and lies within one line.
fn comment_at(source: &str, text: &str) -> CommentNode {
    let start_byte = source.find(text).expect("comment text in source");
    let end_byte = start_byte + text.len();
    let before = &source[..start_byte];
    let row = before.matches('\n').count();
    let line_start = before.rfind('\n').map(|i| i + 1).unwrap_or(0);
    let column = start_byte - line_start;
    CommentNode {
        start: Point { row, column },
        end: Point { row, column: column + text.len() },
        start_byte,
        end_byte,
    }
}

fn assertion(row: usize, column: usize, name: &str) -> Assertion {
    Assertion { position: Point { row, column }, expected_capture_name: name.to_string() }
}

#[test]
fn no_comments_give_no_assertions() {
    let source = "int x = 1;\nint y = 2;\n";
    assert_eq!(assertions_in_comments(source.as_bytes(), &vec![]), vec![]);
}

#[test]
fn comments_without_arrows_give_no_assertions() {
    let source = "int x = 1;\n// just a note\n/* keyword */\n";
    let comments = vec![comment_at(source, "// just a note"), comment_at(source, "/* keyword */")];
    assert_eq!(assertions_in_comments(source.as_bytes(), &comments), vec![]);
}

#[test]
fn up_arrow_points_at_its_own_column() {
    let source = "a\nb\nc\nd\nreturn value;\n  // ^ keyword\n";
    let comment = comment_at(source, "// ^ keyword");
    assert_eq!(comment.start, Point { row: 5, column: 2 });
    let caret = "// ^ keyword".find('^').unwrap();
    assert_eq!(
        assertions_in_comments(source.as_bytes(), &vec![comment]),
        vec![assertion(4, 2 + caret, "keyword")]
    );
}

#[test]
fn left_arrow_points_at_comment_start() {
    let source = "    return value;\n    // <- keyword\n";
    let comment = comment_at(source, "// <- keyword");
    assert_eq!(
        assertions_in_comments(source.as_bytes(), &vec![comment]),
        vec![assertion(0, 4, "keyword")]
    );
}

#[test]
fn stacked_comments_annotate_the_same_line() {
    let source = "int x = 1;\n//  ^ variable\n// <- type\n";
    let comments = vec![comment_at(source, "//  ^ variable"), comment_at(source, "// <- type")];
    assert_eq!(
        assertions_in_comments(source.as_bytes(), &comments),
        vec![assertion(0, 0, "type"), assertion(0, 4, "variable")]
    );
}

#[test]
fn three_stacked_comments_reach_the_code_line() {
    let source = "let x = y;\n// ^ a\n//     ^ b\n//         ^ c\n";
    let comments = vec![
        comment_at(source, "// ^ a"),
        comment_at(source, "//     ^ b"),
        comment_at(source, "//         ^ c"),
    ];
    assert_eq!(
        assertions_in_comments(source.as_bytes(), &comments),
        vec![assertion(0, 3, "a"), assertion(0, 7, "b"), assertion(0, 11, "c")]
    );
}

#[test]
fn separate_blocks_annotate_their_own_lines() {
    let source = "one two\n// <- first\ntwo three\n    // ^ second\n";
    let comments = vec![comment_at(source, "// <- first"), comment_at(source, "// ^ second")];
    assert_eq!(
        assertions_in_comments(source.as_bytes(), &comments),
        vec![assertion(0, 0, "first"), assertion(2, 7, "second")]
    );
}

#[test]
fn first_row_comment_gives_no_assertion() {
    let source = "// ^ keyword\nint x;\n";
    let comments = vec![comment_at(source, "// ^ keyword")];
    assert_eq!(assertions_in_comments(source.as_bytes(), &comments), vec![]);
}

#[test]
fn extraction_is_repeatable_and_sorted() {
    let source = "int x = 1;\nfloat y;\n//  ^ variable\n// <- type\n//    ^ punctuation\n";
    let comments = vec![
        comment_at(source, "//  ^ variable"),
        comment_at(source, "// <- type"),
        comment_at(source, "//    ^ punctuation"),
    ];
    let first = assertions_in_comments(source.as_bytes(), &comments);
    let second = assertions_in_comments(source.as_bytes(), &comments);
    assert_eq!(first, second);
    assert_eq!(first.len(), 3);
    for w in first.windows(2) {
        assert!(w[0].position <= w[1].position);
    }
    assert_eq!(
        first,
        vec![assertion(1, 0, "type"), assertion(1, 4, "variable"), assertion(1, 6, "punctuation")]
    );
}

#[test]
fn arrow_without_name_gives_no_assertion() {
    let source = "int x;\n// ^ ***\n//   <- ok\n";
    let comments = vec![comment_at(source, "// ^ ***"), comment_at(source, "//   <- ok")];
    assert_eq!(
        assertions_in_comments(source.as_bytes(), &comments),
        vec![assertion(1, 0, "ok")]
    );
}

#[test]
fn undecodable_comment_is_skipped() {
    let mut source: Vec<u8> = b"int x;\n// ^ a\xff\nint y;\n// <- b\n".to_vec();
    let bad = CommentNode {
        start: Point { row: 1, column: 0 },
        end: Point { row: 1, column: 7 },
        start_byte: 7,
        end_byte: 14,
    };
    let good = CommentNode {
        start: Point { row: 3, column: 0 },
        end: Point { row: 3, column: 7 },
        start_byte: 22,
        end_byte: 29,
    };
    assert_eq!(&source[22..29], b"// <- b");
    assert_eq!(
        assertions_in_comments(&source, &vec![bad, good]),
        vec![assertion(2, 0, "b")]
    );
    source[13] = b'c';
    assert_eq!(
        assertions_in_comments(&source, &vec![bad, good]),
        vec![assertion(0, 3, "ac"), assertion(2, 0, "b")]
    );
}

#[test]
fn out_of_range_comment_is_skipped() {
    let source = "x\n// <- a\n";
    let outside = CommentNode {
        start: Point { row: 1, column: 0 },
        end: Point { row: 1, column: 40 },
        start_byte: 2,
        end_byte: 60,
    };
    assert_eq!(assertions_in_comments(source.as_bytes(), &vec![outside]), vec![]);
}

#[test]
fn name_takes_word_characters_and_punctuation() {
    let source = "f(x)\n// ^ @function.call!-x rest\n";
    let comments = vec![comment_at(source, "// ^ @function.call!-x rest")];
    assert_eq!(
        assertions_in_comments(source.as_bytes(), &comments),
        vec![assertion(0, 3, "function.call!-x")]
    );
}

#[test]
fn name_allows_unicode_word_characters() {
    let source = "f(x)\n// <- größe\n";
    let comments = vec![comment_at(source, "// <- größe")];
    assert_eq!(
        assertions_in_comments(source.as_bytes(), &comments),
        vec![assertion(0, 0, "größe")]
    );
}

#[test]
fn caret_offset_counts_bytes() {
    let source = "héllo wörld\n// é ^ string\n";
    let comments = vec![comment_at(source, "// é ^ string")];
    assert_eq!(
        assertions_in_comments(source.as_bytes(), &comments),
        vec![assertion(0, 6, "string")]
    );
}

#[test]
fn first_arrow_wins() {
    let source = "a + b\n// <- plus ^ other\n";
    let comments = vec![comment_at(source, "// <- plus ^ other")];
    assert_eq!(
        assertions_in_comments(source.as_bytes(), &comments),
        vec![assertion(0, 0, "plus")]
    );
}

#[test]
fn dash_after_other_character_is_no_arrow() {
    assert_eq!(find_arrow(b"// < - x"), None);
    assert_eq!(find_arrow(b"// x-y"), None);
    assert_eq!(find_arrow(b"//<-x"), Some(3));
    assert_eq!(find_arrow(b"// ^x"), Some(3));
    assert_eq!(find_arrow(b""), None);
}

#[test]
fn read_comment_keeps_comment_row() {
    let source = "x\n  // ^ name\n";
    let comment = comment_at(source, "// ^ name");
    let (p, name) = read_comment(source.as_bytes(), &comment).unwrap();
    assert_eq!(p, Point { row: 1, column: 5 });
    assert_eq!(name, "name");
}

#[test]
fn row_correction_walks_up_through_blocks() {
    assert_eq!(correct_rows(&vec![]), Vec::<usize>::new());
    assert_eq!(correct_rows(&vec![1]), vec![0]);
    assert_eq!(correct_rows(&vec![1, 2]), vec![0, 0]);
    assert_eq!(correct_rows(&vec![1, 3]), vec![0, 2]);
    assert_eq!(correct_rows(&vec![5, 6, 7, 10]), vec![4, 4, 4, 9]);
}

#[test]
fn points_compare_row_first() {
    assert!(point_less(Point { row: 0, column: 9 }, Point { row: 1, column: 0 }));
    assert!(point_less(Point { row: 1, column: 2 }, Point { row: 1, column: 3 }));
    assert!(!point_less(Point { row: 1, column: 3 }, Point { row: 1, column: 3 }));
    assert!(!point_less(Point { row: 2, column: 0 }, Point { row: 1, column: 5 }));
    assert_eq!(Point::default(), Point { row: 0, column: 0 });
}
