use std::sync::Arc;
use std::time::{Duration, SystemTime};

use codescope_mcp::cache::{CacheManager, FileContentCache, ModifiedTime, ParserCache};
use codescope_mcp::language::LanguageId;
use codescope_mcp::parser::{CachedParser, GenericParser, ParseError};
use codescope_mcp::registry::{LanguageQueries, LanguageRegistry};

fn mtime(t: SystemTime) -> ModifiedTime {
    match t.duration_since(SystemTime::UNIX_EPOCH) {
        Ok(d) => ModifiedTime { before_epoch: false, seconds: d.as_secs(), nanos: d.subsec_nanos() },
        Err(e) => ModifiedTime {
            before_epoch: true,
            seconds: e.duration().as_secs(),
            nanos: e.duration().subsec_nanos(),
        },
    }
}

fn registry_of(ids: &[LanguageId]) -> Arc<LanguageRegistry> {
    let queries: Vec<LanguageQueries> = ids
        .iter()
        .map(|id| LanguageQueries { id: *id, definitions: String::new(), usages: String::new() })
        .collect();
    Arc::new(LanguageRegistry::new(&queries).expect("queries compile"))
}

fn default_registry() -> Arc<LanguageRegistry> {
    registry_of(&[
        LanguageId::TypeScript,
        LanguageId::TypeScriptReact,
        LanguageId::JavaScript,
        LanguageId::JavaScriptReact,
        LanguageId::Markdown,
        LanguageId::Html,
        LanguageId::Css,
        LanguageId::Python,
    ])
}

fn create_test_tree() -> tree_sitter::Tree {
    let mut parser = GenericParser::new(default_registry());
    parser.parse("test.ts", "const x = 1;").unwrap()
}

#[test]
fn test_file_content_cache_creation() {
    let cache = FileContentCache::new();
    assert!(cache.is_empty());
}

#[test]
fn test_file_content_cache_read() {
    let mut cache = FileContentCache::new();
    let path = "/tmp/some/file.txt";
    let on_disk = mtime(SystemTime::now());

    // First read: nothing is cached, so the file is read and stored
    assert!(cache.get_or_read(path, Some(on_disk)).is_none());
    let result1 = cache.store(path, "test content\n".to_string(), on_disk);
    assert!(result1.content.contains("test content"));

    // Second read should use cache
    let result2 = cache.get_or_read(path, Some(on_disk)).unwrap();
    assert_eq!(result1.content, result2.content);

    // Both should be the same Arc instance
    assert!(Arc::ptr_eq(&result1.content, &result2.content));

    // Modification times should match
    assert_eq!(result1.modified_time, result2.modified_time);
}

#[test]
fn test_file_content_cache_returns_mtime() {
    let mut cache = FileContentCache::new();
    let actual_mtime = mtime(SystemTime::now() - Duration::from_secs(5));
    let result = cache.store("/tmp/a.txt", "test content\n".to_string(), actual_mtime);
    assert_eq!(result.modified_time, actual_mtime);
    assert_eq!(cache.get_or_read("/tmp/a.txt", Some(actual_mtime)).unwrap().modified_time, actual_mtime);
}

#[test]
fn test_file_content_cache_invalidate() {
    let mut cache = FileContentCache::new();
    let path = "/tmp/b.txt";

    // Read and cache
    let _ = cache.store(path, "test content\n".to_string(), mtime(SystemTime::now()));
    assert!(!cache.is_empty());

    // Invalidate
    cache.invalidate(path);
    assert!(cache.is_empty());
}

#[test]
fn test_file_not_found() {
    // A file that cannot be examined has no modification time: nothing is
    // served, and nothing is left behind.
    let mut cache = FileContentCache::new();
    let result = cache.get_or_read("/nonexistent/file.txt", None);
    assert!(result.is_none());
    assert!(cache.is_empty());
}

#[test]
fn test_stale_entry_removed_on_access() {
    let mut cache = FileContentCache::new();
    let path = "/tmp/c.txt";

    // Insert a stale entry with an old mtime
    let old_mtime = mtime(SystemTime::UNIX_EPOCH);
    cache.store(path, "old content".to_string(), old_mtime);

    // Access should detect staleness and remove the entry
    let now = mtime(SystemTime::now());
    assert!(cache.get_or_read(path, Some(now)).is_none());
    assert!(cache.is_empty());
    let result = cache.store(path, "".to_string(), now);

    // Should get fresh content, not "old content"
    assert!(!result.content.contains("old content"));
    assert_eq!(cache.len(), 1);
}

#[test]
fn repeated_changes_of_one_file_do_not_grow_the_cache() {
    let mut cache = FileContentCache::new();
    cache.store("/tmp/other.txt", "o".to_string(), mtime(SystemTime::UNIX_EPOCH));
    let start = SystemTime::now();
    for i in 0..20u64 {
        let t = mtime(start + Duration::from_secs(i));
        assert!(cache.get_or_read("/tmp/d.txt", Some(t)).is_none());
        let stored = cache.store("/tmp/d.txt", format!("version {}", i), t);
        assert_eq!(*stored.content, format!("version {}", i));
        let again = cache.get_or_read("/tmp/d.txt", Some(t)).unwrap();
        assert!(Arc::ptr_eq(&stored.content, &again.content));
        assert_eq!(cache.len(), 2);
    }
    cache.clear();
    assert_eq!(cache.len(), 0);
}

#[test]
fn time_before_the_epoch_is_a_time_of_its_own() {
    let mut cache = FileContentCache::new();
    let after = ModifiedTime { before_epoch: false, seconds: 1, nanos: 0 };
    let before = ModifiedTime { before_epoch: true, seconds: 1, nanos: 0 };
    cache.store("/p", "x".to_string(), after);
    assert!(cache.get_or_read("/p", Some(before)).is_none());
    assert!(cache.is_empty());
}

#[test]
fn test_cache_manager_creation() {
    let manager = CacheManager::new();
    assert_eq!(manager.parser_cache.len(), 0);
    assert_eq!(manager.file_cache.len(), 0);
}

#[test]
fn test_cache_manager_default() {
    let mut manager = CacheManager::new();
    let t = mtime(SystemTime::now());
    manager.file_cache.store("a.ts", "const x = 1;".to_string(), t);
    manager.parser_cache.insert("a.ts".to_string(), create_test_tree(), t);
    manager.file_cache.store("b.ts", "const y = 1;".to_string(), t);
    manager.invalidate_file("a.ts");
    assert_eq!(manager.parser_cache.len(), 0);
    assert_eq!(manager.file_cache.len(), 1);
    manager.clear();
    assert_eq!(manager.file_cache.len(), 0);
}

#[test]
fn test_parser_cache_creation() {
    let cache = ParserCache::new();
    assert_eq!(cache.len(), 0);
}

#[test]
fn test_parser_cache_insert_and_get() {
    let mut cache = ParserCache::new();
    let path = "test.ts";
    let tree = create_test_tree();
    let mtime = mtime(SystemTime::now());

    // Insert
    cache.insert(path.to_string(), tree, mtime);
    assert_eq!(cache.len(), 1);

    // Get with matching mtime should succeed
    let result = cache.get(path, mtime);
    assert!(result.is_some());
    assert_eq!(result.unwrap().root_node().kind(), "program");
    assert_eq!(cache.len(), 1);
}

#[test]
fn test_parser_cache_miss_on_mtime_mismatch() {
    let mut cache = ParserCache::new();
    let path = "test.ts";
    let tree = create_test_tree();
    let now = SystemTime::now();

    cache.insert(path.to_string(), tree, mtime(now));

    // Get with different mtime should fail
    let different_mtime = mtime(now + Duration::from_secs(1));
    let result = cache.get(path, different_mtime);
    assert!(result.is_none());
}

#[test]
fn test_parser_cache_stale_entry_removed() {
    let mut cache = ParserCache::new();
    let path = "test.ts";
    let tree = create_test_tree();
    let old_mtime = mtime(SystemTime::UNIX_EPOCH);

    cache.insert(path.to_string(), tree, old_mtime);
    assert_eq!(cache.len(), 1);

    // Access with newer mtime should remove the stale entry
    let new_mtime = mtime(SystemTime::now());
    let result = cache.get(path, new_mtime);
    assert!(result.is_none());
    assert_eq!(cache.len(), 0); // Entry should be removed
}

#[test]
fn test_parser_cache_invalidate() {
    let mut cache = ParserCache::new();
    let path = "test.ts";
    let tree = create_test_tree();
    let mtime = mtime(SystemTime::now());

    cache.insert(path.to_string(), tree, mtime);
    assert_eq!(cache.len(), 1);

    cache.invalidate(path);
    assert_eq!(cache.len(), 0);
}

#[test]
fn test_parser_cache_clear() {
    let mut cache = ParserCache::new();
    let mtime = mtime(SystemTime::now());

    cache.insert("a.ts".to_string(), create_test_tree(), mtime);
    cache.insert("b.ts".to_string(), create_test_tree(), mtime);
    assert_eq!(cache.len(), 2);

    cache.clear();
    assert_eq!(cache.len(), 0);
}

#[test]
fn test_parser_cache_default() {
    let mut cache = ParserCache::new();
    let t = mtime(SystemTime::now());
    cache.insert("a.ts".to_string(), create_test_tree(), t);
    cache.insert("a.ts".to_string(), create_test_tree(), t);
    assert_eq!(cache.len(), 1);
}

#[test]
fn test_cached_parser_creation() {
    let parser = CachedParser::new(default_registry());
    assert!(parser.is_supported("a.ts"));
    assert!(!parser.is_supported("a.xyz"));
}

#[test]
fn test_cached_parser_parse() {
    let mut cache = ParserCache::new();
    let mut parser = CachedParser::new(default_registry());

    let path = "test.ts";
    let source = "const x = 1;";
    let mtime = mtime(SystemTime::now());

    // First parse
    let tree1 = parser.parse(&mut cache, path, source, mtime);
    assert!(tree1.is_ok());
    assert_eq!(cache.len(), 1);

    // Second parse should use cache
    let tree2 = parser.parse(&mut cache, path, source, mtime);
    assert!(tree2.is_ok());
    assert_eq!(cache.len(), 1);

    // The cache answers by path and time alone: the tree of the first parse
    // comes back whatever text is handed in with the same time.
    let tree3 = parser.parse(&mut cache, path, "const longer = 12345;", mtime).unwrap();
    assert_eq!(tree3.root_node().end_byte(), tree1.unwrap().root_node().end_byte());
    assert_eq!(tree3.root_node().end_byte(), 12);
}

#[test]
fn test_cached_parser_cache_miss_on_mtime_change() {
    let mut cache = ParserCache::new();
    let mut parser = CachedParser::new(default_registry());

    let path = "test.ts";
    let source = "const x = 1;";
    let now = SystemTime::now();
    let mtime1 = mtime(now);

    // First parse
    let tree1 = parser.parse(&mut cache, path, source, mtime1).unwrap();

    // Second parse with different mtime should not use cache
    let mtime2 = mtime(now + Duration::from_secs(1));
    let tree2 = parser.parse(&mut cache, path, "const y = 2; const z = 3;", mtime2);
    assert!(tree2.is_ok());
    let tree2 = tree2.unwrap();
    assert_eq!(tree1.root_node().end_byte(), 12);
    assert_eq!(tree2.root_node().end_byte(), 25);
    // the stale entry was replaced, not kept beside the new one
    assert_eq!(cache.len(), 1);
    assert!(cache.get(path, mtime2).is_some());
}

#[test]
fn test_cached_parser_parse_with_language() {
    let mut cache = ParserCache::new();
    let mut parser = CachedParser::new(default_registry());

    let path = "test.tsx";
    let source = "const App = () => <div>Hello</div>;";
    let mtime = mtime(SystemTime::now());

    let result = parser.parse_with_language(&mut cache, path, source, mtime);
    assert!(result.is_ok());

    let (_, lang) = result.unwrap();
    assert_eq!(lang.to_string(), "TypeScriptReact");
}

#[test]
fn test_cached_parser_unsupported_file() {
    let mut cache = ParserCache::new();
    let mut parser = CachedParser::new(default_registry());

    let path = "test.xyz";
    let source = "some content";
    let mtime = mtime(SystemTime::now());

    let result = parser.parse_with_language(&mut cache, path, source, mtime);
    assert!(result.is_err());
    match result {
        Err(e @ ParseError::UnsupportedFileType { .. }) => {
            let message = e.message();
            assert!(message.starts_with("Unsupported file type for path 'test.xyz'. Supported extensions: ts, tsx, js, mjs, cjs, jsx, md, mdc, html, htm, css, py, pyi"));
        }
        _ => panic!("expected an unsupported file type"),
    }
    assert_eq!(cache.len(), 0);
}

#[test]
fn test_generic_parser_creation() {
    let parser = GenericParser::new(default_registry());
    assert!(parser.is_supported("x.ts"));
    assert!(parser.definitions_query("x.ts").is_some());
    assert!(parser.usages_query("x.rs").is_none());
    assert_eq!(parser.definition_mappings("x.css").unwrap().len(), 4);
}

#[test]
fn test_parse_typescript() {
    let mut parser = GenericParser::new(default_registry());

    let path = "test.ts";
    let source = "const x = 1;";

    let tree = parser.parse(path, source);
    assert!(tree.is_ok());
}

#[test]
fn test_parse_tsx() {
    let mut parser = GenericParser::new(default_registry());

    let path = "test.tsx";
    let source = "const App = () => <div>Hello</div>;";

    let tree = parser.parse(path, source);
    assert!(tree.is_ok());
    assert!(!tree.unwrap().root_node().has_error());
}

#[test]
fn test_unsupported_file() {
    let registry = registry_of(&[LanguageId::TypeScript, LanguageId::TypeScriptReact]);
    let mut parser = GenericParser::new(registry);

    let path = "test.py";
    let source = "x = 1";

    let tree = parser.parse(path, source);
    assert!(tree.is_err());
}

#[test]
fn parser_switches_grammar_between_files() {
    let mut parser = GenericParser::new(registry_of(&[
        LanguageId::TypeScript,
        LanguageId::Python,
        LanguageId::Rust,
        LanguageId::Go,
        LanguageId::Java,
        LanguageId::Sql,
        LanguageId::Css,
        LanguageId::Html,
        LanguageId::Markdown,
        LanguageId::JavaScript,
    ]));
    assert_eq!(parser.parse("a.py", "x = 1\n").unwrap().root_node().kind(), "module");
    assert_eq!(parser.parse("a.ts", "let x = 1;").unwrap().root_node().kind(), "program");
    assert_eq!(parser.parse("a.rs", "fn f() {}").unwrap().root_node().kind(), "source_file");
    assert_eq!(parser.parse("a.go", "package a\n").unwrap().root_node().kind(), "source_file");
    assert_eq!(parser.parse("A.java", "class A {}").unwrap().root_node().kind(), "program");
    assert_eq!(parser.parse("a.sql", "SELECT 1;").unwrap().root_node().kind(), "program");
    assert_eq!(parser.parse("a.css", "a { }").unwrap().root_node().kind(), "stylesheet");
    assert_eq!(parser.parse("a.html", "<p>x</p>").unwrap().root_node().kind(), "document");
    assert_eq!(parser.parse("a.md", "# x\n").unwrap().root_node().kind(), "document");
    assert_eq!(parser.parse("a.mjs", "let x = 1;").unwrap().root_node().kind(), "program");
    let (_, id) = parser.parse_with_language("dir.d/a.pyi", "x = 1\n").unwrap();
    assert_eq!(id, LanguageId::Python);
}
