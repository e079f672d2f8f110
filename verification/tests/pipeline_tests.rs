use std::sync::Arc;

use codescope_mcp::cache::{CachedContent, ModifiedTime, ParserCache};
use codescope_mcp::config::CodeScopeConfig;
use codescope_mcp::language::LanguageId;
use codescope_mcp::parser::{CachedParser, ParseError};
use codescope_mcp::pipeline::{
    keep_kind, merge_results, CommentCollector, DefinitionCollector, FilePipeline, ImportCollector,
    LoadedFile, MethodCallCollector, ResultCollector, UsageCollector,
};
use codescope_mcp::registry::{LanguageQueries, LanguageRegistry};
use codescope_mcp::types::{CommentType, SymbolKind, SymbolUsage, UsageKind};

const TS_DEFINITIONS: &str = r#"
(function_declaration name: (identifier) @name) @definition.function
(class_declaration name: (type_identifier) @name) @definition.class
"#;

const TS_USAGES: &str = r#"
(identifier) @usage
(property_identifier) @usage
(type_identifier) @usage
"#;

const SQL_DEFINITIONS: &str = r#"
(create_table (object_reference name: (identifier) @name)) @definition.table
(column_definition name: (identifier) @name) @definition.column
(comment_statement
  (keyword_table)
  (object_reference name: (identifier) @comment.table.name)
  (literal) @comment.table.text) @comment.table
(comment_statement
  (keyword_column)
  (object_reference
    (object_reference name: (identifier) @comment.column.table)
    name: (identifier) @comment.column.name)
  (literal) @comment.column.text) @comment.column
"#;

fn registry() -> Arc<LanguageRegistry> {
    let queries = vec![
        LanguageQueries {
            id: LanguageId::TypeScript,
            definitions: TS_DEFINITIONS.to_string(),
            usages: TS_USAGES.to_string(),
        },
        LanguageQueries {
            id: LanguageId::Sql,
            definitions: SQL_DEFINITIONS.to_string(),
            usages: String::new(),
        },
        LanguageQueries { id: LanguageId::Markdown, definitions: String::new(), usages: String::new() },
    ];
    Arc::new(LanguageRegistry::new(&queries).expect("queries compile"))
}

fn content(text: &str, seconds: u64) -> CachedContent {
    CachedContent {
        content: Arc::new(text.to_string()),
        modified_time: ModifiedTime { before_epoch: false, seconds, nanos: 0 },
    }
}

fn loaded(path: &str, text: Option<&str>) -> LoadedFile {
    LoadedFile { path: path.to_string(), content: text.map(|t| content(t, 1)) }
}

fn pipeline() -> FilePipeline {
    FilePipeline::new(registry(), "/project".to_string(), CodeScopeConfig::default_config())
}

#[test]
fn one_unreadable_file_does_not_end_the_run() {
    let files = vec![
        loaded("/project/a.ts", Some("function wanted() {}\n")),
        loaded("/project/broken.ts", None),
        loaded("/project/notes.xyz", Some("function wanted() {}\n")),
        loaded("/project/b.ts", Some("class Other {}\nfunction wanted() { return 1; }\n")),
    ];
    let collector = DefinitionCollector { symbol: "wanted".to_string(), include_docs: false };
    let mut cache = ParserCache::new();
    let found = pipeline().process(&collector, &mut cache, &files);
    assert_eq!(found.len(), 2);
    assert_eq!(found[0].file_path, "/project/a.ts");
    assert_eq!(found[0].node_kind, SymbolKind::Function);
    assert_eq!(found[1].file_path, "/project/b.ts");
    assert_eq!(found[1].start_line, 2);
    // the trees of the two files that were parsed are cached
    assert_eq!(cache.len(), 2);
    // a second run is served from the cache and gives the same
    let again = pipeline().process(&collector, &mut cache, &files);
    assert_eq!(again.len(), 2);
    assert_eq!(cache.len(), 2);
}

#[test]
fn merging_keeps_the_order_of_the_files_and_skips_failures() {
    let outcomes: Vec<Option<Vec<u32>>> =
        vec![Some(vec![1, 2]), None, Some(vec![]), Some(vec![3]), None, Some(vec![4, 5])];
    assert_eq!(merge_results(outcomes), vec![1, 2, 3, 4, 5]);
    let nothing: Vec<Option<Vec<u32>>> = vec![None, None];
    assert!(merge_results(nothing).is_empty());
    let empty: Vec<Option<Vec<u32>>> = Vec::new();
    assert!(merge_results(empty).is_empty());
}

#[test]
fn collectors_turn_a_file_into_facts() {
    let source = "import { now } from './clock';\n// TODO call less often\nconst t = Date.now(); clock.now; now();\n";
    let file = content(source, 7);
    let mut cache = ParserCache::new();
    let mut parser = CachedParser::new(registry());

    let usages = UsageCollector {
        symbol: "now".to_string(),
        include_imports: true,
        max_contexts: 1,
        object_filter: None,
    }
    .process_file(&mut parser, &mut cache, "a.ts", &file)
    .unwrap();
    let kinds: Vec<UsageKind> = usages.iter().map(|u| u.usage_kind).collect();
    assert_eq!(
        kinds,
        vec![UsageKind::Import, UsageKind::MethodCall, UsageKind::PropertyAccess, UsageKind::Identifier]
    );
    assert_eq!(usages[1].qualified_name, "Date.now");
    assert_eq!(usages[1].contexts.len(), 1);
    assert_eq!(cache.len(), 1);

    let calls = MethodCallCollector { method_name: "now".to_string(), object_name: None }
        .process_file(&mut parser, &mut cache, "a.ts", &file)
        .unwrap();
    assert_eq!(calls.len(), 1);
    assert_eq!(calls[0].usage_kind, UsageKind::MethodCall);
    assert_eq!(calls[0].object_name, Some("Date".to_string()));
    assert!(calls[0].contexts.is_empty());

    let calls = MethodCallCollector {
        method_name: "now".to_string(),
        object_name: Some("clock".to_string()),
    }
    .process_file(&mut parser, &mut cache, "a.ts", &file)
    .unwrap();
    assert!(calls.is_empty());

    let imports = ImportCollector { symbol: "now".to_string() }
        .process_file(&mut parser, &mut cache, "a.ts", &file)
        .unwrap();
    assert_eq!(imports.len(), 1);
    assert_eq!(imports[0].usage_kind, UsageKind::Import);
    assert_eq!((imports[0].line, imports[0].column), (1, 9));

    let comments = CommentCollector { text: "TODO".to_string() }
        .process_file(&mut parser, &mut cache, "a.ts", &file)
        .unwrap();
    assert_eq!(comments.len(), 1);
    assert_eq!(comments[0].comment_type, CommentType::SingleLine);
    assert_eq!(comments[0].content, "// TODO call less often");
    assert_eq!(comments[0].line, 2);
    assert_eq!(cache.len(), 1);

    match (UsageCollector {
        symbol: "now".to_string(),
        include_imports: true,
        max_contexts: 0,
        object_filter: None,
    })
    .process_file(&mut parser, &mut cache, "a.unknown", &file)
    {
        Err(ParseError::UnsupportedFileType { path, supported }) => {
            assert_eq!(path, "a.unknown");
            assert_eq!(supported, vec!["ts", "sql", "md", "mdc"]);
        }
        _ => panic!("expected an unsupported file type"),
    }
}

#[test]
fn sql_definitions_get_their_documentation_from_comment_statements() {
    let source = "
CREATE TABLE users (
    id INT PRIMARY KEY,
    email VARCHAR(255)
);

COMMENT ON TABLE users IS 'User accounts table';
COMMENT ON COLUMN users.email IS 'Primary ''email'' address';
";
    let file = content(source, 3);
    let mut cache = ParserCache::new();
    let mut parser = CachedParser::new(registry());

    let tables = DefinitionCollector { symbol: "users".to_string(), include_docs: true }
        .process_file(&mut parser, &mut cache, "schema.sql", &file)
        .unwrap();
    assert_eq!(tables.len(), 1);
    assert_eq!(tables[0].node_kind, SymbolKind::Table);
    assert_eq!(tables[0].docs, Some("User accounts table".to_string()));
    assert_eq!((tables[0].start_line, tables[0].end_line), (2, 5));

    let columns = DefinitionCollector { symbol: "email".to_string(), include_docs: true }
        .process_file(&mut parser, &mut cache, "schema.sql", &file)
        .unwrap();
    assert_eq!(columns.len(), 1);
    assert_eq!(columns[0].node_kind, SymbolKind::Column);
    assert_eq!(columns[0].docs, Some("Primary 'email' address".to_string()));
    assert_eq!(columns[0].code, "email VARCHAR(255)");

    let undocumented = DefinitionCollector { symbol: "id".to_string(), include_docs: true }
        .process_file(&mut parser, &mut cache, "schema.sql", &file)
        .unwrap();
    assert_eq!(undocumented.len(), 1);
    assert_eq!(undocumented[0].docs, None);

    let without = DefinitionCollector { symbol: "users".to_string(), include_docs: false }
        .process_file(&mut parser, &mut cache, "schema.sql", &file)
        .unwrap();
    assert_eq!(without[0].docs, None);
}

#[test]
fn files_are_picked_by_language_exclusion_and_filter() {
    let pipeline = pipeline();
    assert_eq!(pipeline.workspace_root(), "/project");
    assert!(pipeline.accepts("/project/src/a.ts"));
    assert!(pipeline.accepts("/project/docs/a.md"));
    assert!(!pipeline.accepts("/project/src/a.py"));
    assert!(!pipeline.accepts("/project/dist/a.ts"));
    assert!(!pipeline.accepts("/project/src/Makefile"));
    assert!(pipeline.accepts_given("/project/dist/a.ts", false));
    assert!(!pipeline.accepts_given("/project/src/a.ts", true));

    let pipeline = pipeline.with_excludes(Some(vec!["docs".to_string()]));
    assert!(!pipeline.accepts("/project/docs/a.md"));
    assert!(pipeline.accepts("/project/src/a.md"));

    let pipeline = pipeline.with_language_filter(Some("TS".to_string()));
    assert!(pipeline.accepts("/project/src/a.ts"));
    assert!(!pipeline.accepts("/project/src/a.md"));
    assert!(!pipeline.accepts("/project/src/a.sql"));

    let candidates: Vec<String> = ["/project/a.ts", "/project/b.md", "/project/build/c.ts", "/project/d.ts", "/project/e.rs"]
        .iter()
        .map(|s| s.to_string())
        .collect();
    assert_eq!(pipeline.get_files(&candidates), vec!["/project/a.ts", "/project/d.ts"]);

    // a name that stands for no language filters nothing
    let pipeline = pipeline.with_language_filter(Some("cobol".to_string()));
    assert_eq!(
        pipeline.get_files(&candidates),
        vec!["/project/a.ts", "/project/b.md", "/project/d.ts"]
    );
}

#[test]
fn keeping_one_kind_keeps_the_order() {
    let usage = |line: usize, kind: UsageKind| SymbolUsage {
        file_path: "f.ts".to_string(),
        line,
        column: 0,
        qualified_name: "x".to_string(),
        usage_kind: kind,
        object_name: None,
        contexts: Vec::new(),
    };
    let usages = vec![
        usage(1, UsageKind::Import),
        usage(2, UsageKind::MethodCall),
        usage(3, UsageKind::Identifier),
        usage(4, UsageKind::MethodCall),
    ];
    let lines: Vec<usize> = keep_kind(usages, UsageKind::MethodCall).iter().map(|u| u.line).collect();
    assert_eq!(lines, vec![2, 4]);
    assert!(keep_kind(Vec::new(), UsageKind::Import).is_empty());
}

#[test]
fn cached_tree_is_searched_over_a_text_that_became_shorter() {
    let queries = vec![LanguageQueries {
        id: LanguageId::TypeScript,
        definitions: "((function_declaration name: (identifier) @name) @definition.function (#eq? @name \"wanted\"))"
            .to_string(),
        usages: "((identifier) @usage (#eq? @usage \"wanted\"))".to_string(),
    }];
    let registry = Arc::new(LanguageRegistry::new(&queries).expect("queries compile"));
    let mut cache = ParserCache::new();
    let mut parser = CachedParser::new(registry);
    let collector = DefinitionCollector { symbol: "wanted".to_string(), include_docs: false };

    let long = content("function other() {}\nfunction wanted() { return 1; }\n", 3);
    let first = collector.process_file(&mut parser, &mut cache, "a.ts", &long).unwrap();
    assert_eq!(first.len(), 1);
    assert_eq!(first[0].name, "wanted");
    assert_eq!(first[0].start_line, 2);
    assert_eq!(first[0].end_line, 2);
    assert_eq!(first[0].code, "function wanted() { return 1; }");

    // Same path and time: the tree of the longer text is served, and the
    // nodes behind the end of the shorter text have no text.
    let short = content("function other() {}\n", 3);
    let second = collector.process_file(&mut parser, &mut cache, "a.ts", &short).unwrap();
    assert!(second.is_empty());
    assert_eq!(cache.len(), 1);

    let usages = UsageCollector {
        symbol: "wanted".to_string(),
        include_imports: true,
        max_contexts: 0,
        object_filter: None,
    }
    .process_file(&mut parser, &mut cache, "a.ts", &short)
    .unwrap();
    assert!(usages.is_empty());
}

#[test]
fn file_of_no_registered_language_is_refused_as_unsupported() {
    let mut cache = ParserCache::new();
    let mut parser = CachedParser::new(registry());
    let collector = DefinitionCollector { symbol: "wanted".to_string(), include_docs: false };
    let file = content("function wanted() {}\n", 1);
    let refused = collector.process_file(&mut parser, &mut cache, "notes.xyz", &file);
    assert!(matches!(refused, Err(ParseError::UnsupportedFileType { .. })));
    assert_eq!(cache.len(), 0);
    let found = collector.process_file(&mut parser, &mut cache, "a.ts", &file);
    assert_eq!(found.unwrap().len(), 1);
    assert_eq!(cache.len(), 1);
}

#[test]
fn parser_gives_the_tree_of_the_new_text_after_a_change_of_time() {
    let mut cache = ParserCache::new();
    let mut parser = CachedParser::new(registry());
    let at = |seconds: u64| ModifiedTime { before_epoch: false, seconds, nanos: 0 };

    let first = "function a() {}\n";
    let tree = parser.parse(&mut cache, "a.ts", first, at(1)).unwrap();
    assert_eq!(tree.root_node().end_byte(), first.len());
    assert_eq!(cache.len(), 1);

    // the time has changed: the new text is parsed, and its tree replaces the old
    let second = "function a() {}\nfunction b() { return 2; }\n";
    let tree = parser.parse(&mut cache, "a.ts", second, at(2)).unwrap();
    assert_eq!(tree.root_node().end_byte(), second.len());
    assert_eq!(tree.root_node().named_child_count(), 2);
    assert_eq!(cache.len(), 1);

    // the same time: the cached tree is given, whatever the text
    let (tree, id) = parser.parse_with_language(&mut cache, "a.ts", "class C {}", at(2)).unwrap();
    assert_eq!(id, LanguageId::TypeScript);
    assert_eq!(tree.root_node().end_byte(), second.len());
    assert_eq!(cache.len(), 1);

    // a time before the stored one counts as a change too
    let tree = parser.parse(&mut cache, "a.ts", first, at(1)).unwrap();
    assert_eq!(tree.root_node().end_byte(), first.len());
    assert_eq!(cache.len(), 1);
}
