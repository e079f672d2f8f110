use codescope_mcp::language::LanguageId;
use codescope_mcp::stats::count_lines;

#[test]
fn test_count_lines_typescript() {
    let source = "// Single line comment
const x = 1;

/*
 * Block comment
 */
function foo() {
    return x;
}";
    let (total, code, blank, comment) = count_lines(source, LanguageId::TypeScript);
    assert_eq!(total, 9);
    assert_eq!(blank, 1); // empty line between const and block comment
    assert_eq!(comment, 4); // single line + block (3 lines)
    assert_eq!(code, 4); // const, function, return, closing brace
}

#[test]
fn stats_test_count_lines_python() {
    let source = "# Comment
def foo():
    pass

# Another comment";
    let (total, code, blank, comment) = count_lines(source, LanguageId::Python);
    assert_eq!(total, 5);
    assert_eq!(blank, 1);
    assert_eq!(comment, 2);
    assert_eq!(code, 2);
}

#[test]
fn stats_test_count_lines_sql() {
    let source = "-- Comment
SELECT * FROM users;
/* Block */";
    let (total, code, blank, comment) = count_lines(source, LanguageId::Sql);
    assert_eq!(total, 3);
    assert_eq!(blank, 0);
    assert_eq!(comment, 2);
    assert_eq!(code, 1);
}

#[test]
fn test_count_lines_rust_fixture() {
    let source = "// This is a comment
fn main() {
    println!(\"Hello\");
}

/* Block
 * comment
 */";

    let (total, code, blank, comment) = count_lines(source, LanguageId::Rust);

    assert_eq!(total, 8);
    assert_eq!(blank, 1); // empty line between } and /*
    assert_eq!(comment, 4); // single line + block (3 lines)
    assert_eq!(code, 3); // fn, println, closing brace
}

#[test]
fn stats_test_test_count_lines_python() {
    let source = "# Python comment
def hello():
    \"\"\"Docstring\"\"\"
    print(\"Hi\")

# Another comment
x = 1";

    let (total, code, blank, comment) = count_lines(source, LanguageId::Python);

    assert_eq!(total, 7);
    assert_eq!(blank, 1);
    assert_eq!(comment, 2); // # comments
    assert_eq!(code, 4); // def, docstring, print, x
}

#[test]
fn stats_test_test_count_lines_sql() {
    let source = "-- SQL comment
SELECT * FROM users;

/* Block
comment */
INSERT INTO users VALUES (1);";

    let (total, code, blank, comment) = count_lines(source, LanguageId::Sql);

    assert_eq!(total, 6);
    assert_eq!(blank, 1);
    assert_eq!(comment, 3); // -- comment + block (2 lines)
    assert_eq!(code, 2); // SELECT, INSERT
}

#[test]
fn every_line_is_counted_once() {
    let source = "a\n\n// b\n/* c\n\nd */\n * e\n*/ f\n<!-- g\n";
    let (total, code, blank, comment) = count_lines(source, LanguageId::Html);
    assert_eq!(total, 9);
    assert_eq!(code + blank + comment, total);
    assert_eq!(blank, 2);
    // "// b" is code in HTML; "/* c", "d */", " * e" and "<!-- g" are comment
    assert_eq!(comment, 4);
    assert_eq!(code, 3);
}
