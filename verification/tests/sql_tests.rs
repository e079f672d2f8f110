use codescope_mcp::sql_comment::{
    clean_sql_literal, extract_sql_comments, find_parent_table_name, SqlCommentMap,
};
use codescope_mcp::syntax::{Ancestor, CapturedNode, ChildNode, LeafNode, QueryMatch};

#[test]
fn test_clean_sql_literal() {
    assert_eq!(clean_sql_literal("'hello'"), "hello");
    assert_eq!(clean_sql_literal("'it''s'"), "it's");
    assert_eq!(
        clean_sql_literal("'User accounts table'"),
        "User accounts table"
    );
}

#[test]
fn literal_without_quotes_is_only_trimmed_and_unescaped() {
    assert_eq!(clean_sql_literal("  plain  "), "plain");
    assert_eq!(clean_sql_literal("'"), "'");
    assert_eq!(clean_sql_literal("''"), "");
    assert_eq!(clean_sql_literal(" 'a''''b' "), "a''b");
    assert_eq!(clean_sql_literal("'''"), "'");
    assert_eq!(clean_sql_literal("x''y"), "x'y");
}

#[test]
fn later_entry_replaces_earlier_one() {
    let mut map = SqlCommentMap::new();
    assert!(map.get("users").is_none());
    map.insert("users".to_string(), "first".to_string());
    map.insert("users.email".to_string(), "mail".to_string());
    map.insert("users".to_string(), "second".to_string());
    assert_eq!(map.get("users"), Some(&"second".to_string()));
    assert_eq!(map.get("users.email"), Some(&"mail".to_string()));
    assert!(map.get("orders").is_none());
}

#[test]
fn table_name_is_the_first_identifier_of_the_first_reference_that_has_one() {
    use_table_facts();
}

fn ancestor(kind: &str, children: Vec<ChildNode>) -> Ancestor {
    Ancestor {
        kind: kind.to_string(),
        start_line: 1,
        end_line: 1,
        name: None,
        has_object: false,
        object_text: None,
        is_function: false,
        children,
    }
}

fn child(kind: &str, leaves: &[(&str, Option<&str>)]) -> ChildNode {
    ChildNode {
        kind: kind.to_string(),
        children: leaves
            .iter()
            .map(|(k, t)| LeafNode { kind: k.to_string(), text: t.map(|s| s.to_string()) })
            .collect(),
    }
}

fn use_table_facts() {
    let table = ancestor(
        "create_table",
        vec![
            child("keyword_create", &[]),
            child("object_reference", &[("keyword", Some("x"))]),
            child("object_reference", &[("dot", Some(".")), ("identifier", Some("users")), ("identifier", Some("other"))]),
            child("object_reference", &[("identifier", Some("late"))]),
        ],
    );
    let chain = vec![ancestor("column_definitions", vec![]), table.clone(), ancestor("program", vec![])];
    assert_eq!(find_parent_table_name(&chain), Some("users".to_string()));

    // a statement that names no table passes the question on
    let nameless = ancestor("create_table", vec![child("column_definitions", &[("identifier", Some("no"))])]);
    assert_eq!(find_parent_table_name(&vec![nameless.clone(), table.clone()]), Some("users".to_string()));
    assert_eq!(find_parent_table_name(&vec![nameless]), None);

    // a name that cannot be read ends the search
    let unreadable = ancestor("create_table", vec![child("object_reference", &[("identifier", None)])]);
    assert_eq!(find_parent_table_name(&vec![unreadable, table]), None);

    // other statements are not asked
    let view = ancestor("create_view", vec![child("object_reference", &[("identifier", Some("v"))])]);
    assert_eq!(find_parent_table_name(&vec![view]), None);
    assert_eq!(find_parent_table_name(&vec![]), None);
}

fn capture(name: &str, text: Option<&str>) -> CapturedNode {
    CapturedNode {
        capture: name.to_string(),
        is_property: false,
        text: text.map(|t| t.to_string()),
        start_line: 1,
        start_column: 0,
        end_line: 1,
        ancestors: Vec::new(),
    }
}

#[test]
fn test_extract_sql_comments() {
    let matches = vec![
        QueryMatch {
            captures: vec![
                capture("comment.table", Some("COMMENT ON TABLE users IS 'User accounts table'")),
                capture("comment.table.name", Some("users")),
                capture("comment.table.text", Some("'User accounts table'")),
            ],
        },
        QueryMatch {
            captures: vec![
                capture("comment.column", Some("COMMENT ON COLUMN users.email IS 'Primary email address'")),
                capture("comment.column.table", Some("users")),
                capture("comment.column.name", Some("email")),
                capture("comment.column.text", Some("'Primary email address'")),
            ],
        },
        QueryMatch { captures: vec![capture("name", Some("users")), capture("definition.table", Some("..."))] },
    ];
    let comment_map = extract_sql_comments(&matches);

    assert_eq!(
        comment_map.get("users"),
        Some(&"User accounts table".to_string())
    );
    assert_eq!(
        comment_map.get("users.email"),
        Some(&"Primary email address".to_string())
    );
    assert_eq!(comment_map.get("email"), None);
}

#[test]
fn a_comment_statement_that_lacks_a_part_adds_nothing() {
    let matches = vec![
        QueryMatch {
            captures: vec![capture("comment.table", Some("x")), capture("comment.table.name", Some("t"))],
        },
        QueryMatch {
            captures: vec![
                capture("comment.table", Some("x")),
                capture("comment.table.name", Some("u")),
                capture("comment.table.text", Some("'first'")),
                capture("comment.table.text", None),
            ],
        },
        QueryMatch {
            captures: vec![
                capture("comment.column", Some("x")),
                capture("comment.column.name", Some("c")),
                capture("comment.column.text", Some("'text'")),
            ],
        },
        QueryMatch {
            captures: vec![
                capture("comment.table.name", Some("w")),
                capture("comment.table.text", Some("'no marker'")),
            ],
        },
        QueryMatch {
            captures: vec![
                capture("comment.table", Some("x")),
                capture("comment.column", Some("x")),
                capture("comment.table.name", Some("both")),
                capture("comment.table.text", Some("  'table wins' ")),
                capture("comment.column.table", Some("a")),
                capture("comment.column.name", Some("b")),
                capture("comment.column.text", Some("'column'")),
            ],
        },
    ];
    let map = extract_sql_comments(&matches);
    assert_eq!(map.get("t"), None);
    assert_eq!(map.get("u"), None);
    assert_eq!(map.get(".c"), None);
    assert_eq!(map.get("w"), None);
    assert_eq!(map.get("both"), Some(&"table wins".to_string()));
    assert_eq!(map.get("a.b"), None);
}
