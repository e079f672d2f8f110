use codescope_mcp::comment::{
    extract_docs_before_line, find_comments_in_file, find_comments_in_sql_file,
    find_text_in_markdown_file, get_code_at_location, line_count,
};
use codescope_mcp::types::CommentType;

fn lines(parts: &[&str]) -> String {
    let mut s = String::new();
    for p in parts {
        s.push_str(p);
        s.push('\n');
    }
    s
}

#[test]
fn test_find_single_line_comments() {
    let source = lines(&["// TODO: fix this", "const x = 1;", "// Another TODO here"]);

    let matches = find_comments_in_file("test.ts", &source, "TODO");
    assert_eq!(matches.len(), 2);
    assert_eq!(matches[0].line, 1);
    assert_eq!(matches[0].comment_type, CommentType::SingleLine);
    assert_eq!(matches[1].line, 3);
}

#[test]
fn test_find_block_comments() {
    let source = lines(&["/* FIXME: broken */", "const x = 1;", "/*", " * Another FIXME", " */"]);

    let matches = find_comments_in_file("test.ts", &source, "FIXME");
    assert_eq!(matches.len(), 2);
    assert_eq!(matches[0].comment_type, CommentType::Block);
    assert_eq!(matches[1].comment_type, CommentType::Block);
}

#[test]
fn test_extract_jsdoc() {
    let source = r#"/**
 * Process user data
 * @param user - The user object
 */
function processUser(user) {}"#;

    let docs = extract_docs_before_line(source, 4);
    assert!(docs.is_some());
    let docs = docs.unwrap();
    assert!(docs.contains("Process user data"));
    assert!(docs.contains("@param user"));
}

#[test]
fn test_extract_single_line_comments() {
    let source = r#"// Helper function
// Does something useful
function helper() {}"#;

    let docs = extract_docs_before_line(source, 2);
    assert!(docs.is_some());
    let docs = docs.unwrap();
    assert!(docs.contains("Helper function"));
    assert!(docs.contains("Does something useful"));
}

#[test]
fn test_no_docs() {
    let source = r#"const x = 1;
function foo() {}"#;

    let docs = extract_docs_before_line(source, 1);
    assert!(docs.is_none());
}

#[test]
fn test_find_text_in_markdown() {
    let source = lines(&[
        "# Test Heading",
        "",
        "This is a test document.",
        "TODO: add more content",
        "Another TODO item here",
    ]);

    let matches = find_text_in_markdown_file("test.md", &source, "TODO");
    assert_eq!(matches.len(), 2);
    assert_eq!(matches[0].line, 4);
    assert_eq!(matches[1].line, 5);
    // All Markdown matches are treated as Block type
    assert_eq!(matches[0].comment_type, CommentType::Block);
}

#[test]
fn test_find_text_in_markdown_multiple_per_line() {
    let source = lines(&["test test test"]);

    let matches = find_text_in_markdown_file("test.md", &source, "test");
    assert_eq!(matches.len(), 3);
    assert_eq!(matches[0].column, 0);
    assert_eq!(matches[1].column, 5);
    assert_eq!(matches[2].column, 10);
}

#[test]
fn test_find_sql_single_line_comments() {
    let source = lines(&["-- TODO: fix this query", "SELECT * FROM users;", "-- Another TODO here"]);

    let matches = find_comments_in_sql_file("test.sql", &source, "TODO");
    assert_eq!(matches.len(), 2);
    assert_eq!(matches[0].line, 1);
    assert_eq!(matches[0].comment_type, CommentType::SingleLine);
    assert_eq!(matches[1].line, 3);
}

#[test]
fn test_find_sql_block_comments() {
    let source = lines(&[
        "/* FIXME: broken query */",
        "SELECT * FROM users;",
        "/*",
        " * Another FIXME",
        " */",
    ]);

    let matches = find_comments_in_sql_file("test.sql", &source, "FIXME");
    assert_eq!(matches.len(), 2);
    assert_eq!(matches[0].comment_type, CommentType::Block);
    assert_eq!(matches[1].comment_type, CommentType::Block);
}

#[test]
fn test_find_sql_mixed_comments() {
    let source = lines(&[
        "-- TODO: single line",
        "/* TODO: block comment */",
        "SELECT * FROM users; -- inline TODO",
    ]);

    let matches = find_comments_in_sql_file("test.sql", &source, "TODO");
    assert_eq!(matches.len(), 3);
    assert_eq!(matches[0].line, 1);
    assert_eq!(matches[0].comment_type, CommentType::SingleLine);
    assert_eq!(matches[1].line, 2);
    assert_eq!(matches[1].comment_type, CommentType::Block);
    assert_eq!(matches[2].line, 3);
    assert_eq!(matches[2].comment_type, CommentType::SingleLine);
}

#[test]
fn test_multiple_block_comments_on_one_line() {
    let source = lines(&["/* TODO: first */ code /* TODO: second */"]);

    let matches = find_comments_in_file("test.ts", &source, "TODO");
    assert_eq!(matches.len(), 2);
    assert_eq!(matches[0].line, 1);
    assert_eq!(matches[0].column, 0);
    assert_eq!(matches[0].comment_type, CommentType::Block);
    assert!(matches[0].content.contains("first"));
    assert_eq!(matches[1].line, 1);
    assert_eq!(matches[1].column, 23);
    assert_eq!(matches[1].comment_type, CommentType::Block);
    assert!(matches[1].content.contains("second"));
}

#[test]
fn test_block_comment_followed_by_single_line_on_same_line() {
    let source = lines(&["/* TODO: block */ code // TODO: single"]);

    let matches = find_comments_in_file("test.ts", &source, "TODO");
    assert_eq!(matches.len(), 2);
    assert_eq!(matches[0].comment_type, CommentType::Block);
    assert!(matches[0].content.contains("block"));
    assert_eq!(matches[1].comment_type, CommentType::SingleLine);
    assert!(matches[1].content.contains("single"));
}

#[test]
fn test_multiline_block_followed_by_single_line_on_end_line() {
    let source = lines(&["/*", " * TODO: multiline block", " */ // TODO: trailing single"]);

    let matches = find_comments_in_file("test.ts", &source, "TODO");
    assert_eq!(matches.len(), 2);
    assert_eq!(matches[0].line, 1); // Block starts on line 1
    assert_eq!(matches[0].comment_type, CommentType::Block);
    assert!(matches[0].content.contains("multiline block"));
    assert_eq!(matches[1].line, 3); // Single-line on line 3
    assert_eq!(matches[1].comment_type, CommentType::SingleLine);
    assert!(matches[1].content.contains("trailing single"));
}

#[test]
fn test_multiline_block_followed_by_new_block_on_end_line() {
    let source = lines(&["/*", " * TODO: first block", " */ /* TODO: second block */"]);

    let matches = find_comments_in_file("test.ts", &source, "TODO");
    assert_eq!(matches.len(), 2);
    assert_eq!(matches[0].line, 1);
    assert_eq!(matches[0].comment_type, CommentType::Block);
    assert!(matches[0].content.contains("first block"));
    assert_eq!(matches[1].line, 3);
    assert_eq!(matches[1].comment_type, CommentType::Block);
    assert!(matches[1].content.contains("second block"));
}

#[test]
fn test_unclosed_block_comment_at_end_of_file() {
    let source = lines(&["code", "/* TODO: unclosed block", " * more content"]);
    // No closing */
    let matches = find_comments_in_file("test.ts", &source, "TODO");
    assert_eq!(matches.len(), 1);
    assert_eq!(matches[0].line, 2);
    assert_eq!(matches[0].comment_type, CommentType::Block);
    assert!(matches[0].content.contains("unclosed block"));
    assert!(matches[0].content.contains("more content"));
}

#[test]
fn test_single_line_comment_before_block_on_same_line() {
    // Single-line comment comes before block comment syntax
    let source = lines(&["// TODO: single /* not a block */"]);

    let matches = find_comments_in_file("test.ts", &source, "TODO");
    assert_eq!(matches.len(), 1);
    assert_eq!(matches[0].comment_type, CommentType::SingleLine);
    // The entire rest of line is part of single-line comment
    assert!(matches[0].content.contains("/* not a block */"));
}

#[test]
fn test_large_multiline_block_comment_no_quadratic_behavior() {
    let mut source = String::from("/* TODO: start\n");
    // Add many lines to verify no O(n^2) behavior
    for i in 0..100 {
        source.push_str(&format!(" * line {}\n", i));
    }
    source.push_str(" */\n");

    let matches = find_comments_in_file("test.ts", &source, "TODO");
    assert_eq!(matches.len(), 1);
    assert_eq!(matches[0].line, 1);
    assert_eq!(matches[0].comment_type, CommentType::Block);
    // Verify all lines are captured
    assert!(matches[0].content.contains("line 99"));
}

#[test]
fn test_mixed_block_and_single_line_complex() {
    let source = lines(&[
        "/* MARKER: a */ x /* MARKER: b */ // MARKER: c",
        "// MARKER: d",
        "/*",
        " * MARKER: e",
        " */ /* MARKER: f",
        " */",
    ]);

    let matches = find_comments_in_file("test.ts", &source, "MARKER");
    assert_eq!(matches.len(), 6);

    // Line 1: block a, block b, single c
    assert_eq!(matches[0].line, 1);
    assert!(matches[0].content.contains("a"));
    assert_eq!(matches[1].line, 1);
    assert!(matches[1].content.contains("b"));
    assert_eq!(matches[2].line, 1);
    assert!(matches[2].content.contains("c"));

    // Line 2: single d
    assert_eq!(matches[3].line, 2);
    assert!(matches[3].content.contains("d"));

    // Lines 3-5: block e
    assert_eq!(matches[4].line, 3);
    assert!(matches[4].content.contains("e"));

    // Lines 5-6: block f
    assert_eq!(matches[5].line, 5);
    assert!(matches[5].content.contains("f"));
}

#[test]
fn two_blocks_on_one_line_keep_their_own_text() {
    let matches = find_comments_in_file("a.ts", "/* a TODO */ code /* b TODO */", "TODO");
    assert_eq!(matches.len(), 2);
    assert_eq!(matches[0].comment_type, CommentType::Block);
    assert_eq!(matches[0].line, 1);
    assert_eq!(matches[0].column, 0);
    assert_eq!(matches[0].content, "/* a TODO */");
    assert_eq!(matches[0].file_path, "a.ts");
    assert_eq!(matches[1].comment_type, CommentType::Block);
    assert_eq!(matches[1].line, 1);
    assert_eq!(matches[1].column, 18);
    assert_eq!(matches[1].content, "/* b TODO */");
}

#[test]
fn unterminated_block_is_reported_at_end_of_input() {
    let matches = find_comments_in_file("a.ts", "let x = 1;\n  /* TODO never closed\nmore", "TODO");
    assert_eq!(matches.len(), 1);
    assert_eq!(matches[0].comment_type, CommentType::Block);
    assert_eq!(matches[0].line, 2);
    assert_eq!(matches[0].column, 2);
    assert_eq!(matches[0].content, "/* TODO never closed\nmore\n");
}

#[test]
fn unterminated_block_without_the_text_is_not_reported() {
    let matches = find_comments_in_file("a.ts", "/* nothing here\nat all", "TODO");
    assert!(matches.is_empty());
}

#[test]
fn block_comment_over_lines_joins_them_with_newlines() {
    let matches = find_comments_in_file("a.ts", "x /* one\ntwo TODO\nthree */ y", "TODO");
    assert_eq!(matches.len(), 1);
    assert_eq!(matches[0].line, 1);
    assert_eq!(matches[0].column, 2);
    assert_eq!(matches[0].content, "/* one\ntwo TODO\nthree */");
}

#[test]
fn text_behind_the_close_of_a_carried_block_is_scanned_like_any_other() {
    let matches = find_comments_in_file("a.ts", "/*\n x\n*/ /* TODO b */\n// TODO c\n", "TODO");
    assert_eq!(matches.len(), 2);
    assert_eq!(matches[0].line, 3);
    assert_eq!(matches[0].column, 3);
    assert_eq!(matches[0].comment_type, CommentType::Block);
    assert_eq!(matches[0].content, "/* TODO b */");
    assert_eq!(matches[1].line, 4);
    assert_eq!(matches[1].column, 0);
    assert_eq!(matches[1].comment_type, CommentType::SingleLine);
    assert_eq!(matches[1].content, "// TODO c");
}

#[test]
fn line_comment_behind_the_close_of_a_carried_block_ends_its_line() {
    let matches = find_comments_in_file("a.ts", "/*\n x\n*/ // TODO /* y\nz\n", "TODO");
    assert_eq!(matches.len(), 1);
    assert_eq!(matches[0].line, 3);
    assert_eq!(matches[0].column, 3);
    assert_eq!(matches[0].comment_type, CommentType::SingleLine);
    assert_eq!(matches[0].content, "// TODO /* y");
}

#[test]
fn block_left_open_behind_the_close_of_a_carried_block_goes_on() {
    let matches = find_comments_in_file("a.ts", "/*\n */ x /* TODO a\nb */ z", "TODO");
    assert_eq!(matches.len(), 1);
    assert_eq!(matches[0].line, 2);
    assert_eq!(matches[0].column, 6);
    assert_eq!(matches[0].comment_type, CommentType::Block);
    assert_eq!(matches[0].content, "/* TODO a\nb */");
}

#[test]
fn carried_block_with_the_text_is_reported_from_its_first_line() {
    let matches = find_comments_in_file("a.ts", "x /* a\nTODO\nb */ y // TODO z", "TODO");
    assert_eq!(matches.len(), 2);
    assert_eq!(matches[0].line, 1);
    assert_eq!(matches[0].column, 2);
    assert_eq!(matches[0].content, "/* a\nTODO\nb */");
    assert_eq!(matches[1].line, 3);
    assert_eq!(matches[1].column, 7);
    assert_eq!(matches[1].content, "// TODO z");
}

#[test]
fn block_comment_on_one_line_is_the_documentation_below_other_code() {
    let docs = extract_docs_before_line("const a = 1;\n/* doc */\nfunction f() {}", 2);
    assert_eq!(docs, Some("/* doc */".to_string()));
}

#[test]
fn block_comment_over_lines_is_read_up_to_its_opening() {
    let docs = extract_docs_before_line("const a = 1;\n/* one\n two */\nfunction f() {}", 3);
    assert_eq!(docs, Some("/* one\n two */".to_string()));
}

#[test]
fn column_counts_bytes_not_characters() {
    let matches = find_comments_in_file("a.ts", "let s = \"héé\"; // TODO", "TODO");
    assert_eq!(matches.len(), 1);
    assert_eq!(matches[0].comment_type, CommentType::SingleLine);
    assert_eq!(matches[0].column, 17);
    assert_eq!(matches[0].content, "// TODO");
}

#[test]
fn carriage_returns_before_newlines_are_not_part_of_lines() {
    let matches = find_comments_in_file("a.ts", "// TODO a\r\nx // TODO b\r\n", "TODO");
    assert_eq!(matches.len(), 2);
    assert_eq!(matches[0].content, "// TODO a");
    assert_eq!(matches[1].content, "// TODO b");
    assert_eq!(matches[1].line, 2);
    assert_eq!(matches[1].column, 2);
}

#[test]
fn empty_search_text_matches_every_comment() {
    let matches = find_comments_in_file("a.ts", "a // one\n/* two */", "");
    assert_eq!(matches.len(), 2);
    assert_eq!(matches[0].content, "// one");
    assert_eq!(matches[1].content, "/* two */");
}

#[test]
fn sql_prefix_is_two_dashes() {
    let matches = find_comments_in_sql_file("a.sql", "SELECT 1; -- TODO x\n// TODO y", "TODO");
    assert_eq!(matches.len(), 1);
    assert_eq!(matches[0].content, "-- TODO x");
    assert_eq!(matches[0].column, 10);
}

#[test]
fn empty_source_has_no_comments() {
    assert!(find_comments_in_file("a.ts", "", "TODO").is_empty());
    assert_eq!(line_count(""), 0);
    assert_eq!(line_count("a\nb\n"), 2);
    assert_eq!(line_count("a\nb\n\n"), 3);
    assert_eq!(line_count("a\nb\r"), 2);
}

#[test]
fn code_at_location_shows_lines_around() {
    let source = "one\ntwo\nthree\nfour\nfive\n";
    let snippet = get_code_at_location("f.ts", source, 3, 1, 1);
    assert_eq!(snippet.file_path, "f.ts");
    assert_eq!(snippet.start_line, 2);
    assert_eq!(snippet.end_line, 4);
    assert_eq!(snippet.code, "two\nthree\nfour");

    let snippet = get_code_at_location("f.ts", source, 1, 3, 0);
    assert_eq!(snippet.start_line, 1);
    assert_eq!(snippet.end_line, 1);
    assert_eq!(snippet.code, "one");

    let snippet = get_code_at_location("f.ts", source, 5, 0, 10);
    assert_eq!(snippet.start_line, 5);
    assert_eq!(snippet.end_line, 5);
    assert_eq!(snippet.code, "five");
}

#[test]
fn docs_skip_blank_lines_directly_above() {
    let source = "// about f\n\n\nfunction f() {}";
    assert_eq!(extract_docs_before_line(source, 3), Some("// about f".to_string()));
}

#[test]
fn docs_stop_at_code_and_at_blank_lines_above_comments() {
    let source = "let a;\n// one\n\n// two\n// three\nfunction f() {}";
    assert_eq!(extract_docs_before_line(source, 5), Some("// two\n// three".to_string()));
    assert_eq!(extract_docs_before_line(source, 0), None);
    assert_eq!(extract_docs_before_line(source, 1), None);
    assert_eq!(extract_docs_before_line(source, 7), None);
}

#[test]
fn docs_keep_the_lines_of_a_block_comment_as_they_are() {
    let source = "x();\n  /**\n   * Doc\n\n   */\nfunction f() {}";
    assert_eq!(
        extract_docs_before_line(source, 5),
        Some("  /**\n   * Doc\n\n   */".to_string())
    );
}

#[test]
fn matches_come_in_the_order_in_which_they_start() {
    let source = "a /* TODO 1 */ b // TODO 2\n/* TODO 3\n*/ /* TODO 4 */ c /* TODO 5\n*/ // TODO 6\n";
    let matches = find_comments_in_file("a.ts", source, "TODO");
    let places: Vec<(usize, usize, CommentType)> =
        matches.iter().map(|m| (m.line, m.column, m.comment_type)).collect();
    assert_eq!(
        places,
        vec![
            (1, 2, CommentType::Block),
            (1, 17, CommentType::SingleLine),
            (2, 0, CommentType::Block),
            (3, 3, CommentType::Block),
            (3, 18, CommentType::Block),
            (4, 3, CommentType::SingleLine),
        ]
    );
    assert_eq!(matches[2].content, "/* TODO 3\n*/");
    assert_eq!(matches[3].content, "/* TODO 4 */");
    assert_eq!(matches[4].content, "/* TODO 5\n*/");
    assert_eq!(matches[5].content, "// TODO 6");
}
