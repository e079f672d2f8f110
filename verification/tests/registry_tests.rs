use codescope_mcp::language::{
    file_extension, language_for_extension, language_for_path, LanguageId,
};
use codescope_mcp::parser::{ParseError, TypeScriptParser};
use codescope_mcp::pipeline::{language_id_from_name, parse_language_id};
use codescope_mcp::registry::{LanguageQueries, LanguageRegistry, LanguageSupport, RegistryError};
use codescope_mcp::types::SymbolKind;

fn default_registry() -> LanguageRegistry {
    let ids = [
        LanguageId::TypeScript,
        LanguageId::TypeScriptReact,
        LanguageId::JavaScript,
        LanguageId::JavaScriptReact,
        LanguageId::Markdown,
        LanguageId::Html,
        LanguageId::Css,
        LanguageId::Python,
    ];
    let queries: Vec<LanguageQueries> = ids
        .iter()
        .map(|id| LanguageQueries { id: *id, definitions: String::new(), usages: String::new() })
        .collect();
    LanguageRegistry::new(&queries).unwrap()
}

#[test]
fn test_registry_creation() {
    let registry = default_registry();
    assert!(registry.get(LanguageId::TypeScript).is_some());
    assert!(registry.get(LanguageId::TypeScriptReact).is_some());
    assert!(registry.get(LanguageId::JavaScript).is_some());
    assert!(registry.get(LanguageId::JavaScriptReact).is_some());
    assert!(registry.get(LanguageId::Markdown).is_some());
    assert!(registry.get(LanguageId::Html).is_some());
    assert!(registry.get(LanguageId::Css).is_some());
    assert!(registry.get(LanguageId::Python).is_some());
}

#[test]
fn test_get_by_extension() {
    let registry = default_registry();

    let ts_lang = registry.get_by_extension("ts").unwrap();
    assert_eq!(ts_lang.id(), LanguageId::TypeScript);

    let tsx_lang = registry.get_by_extension("tsx").unwrap();
    assert_eq!(tsx_lang.id(), LanguageId::TypeScriptReact);

    let js_lang = registry.get_by_extension("js").unwrap();
    assert_eq!(js_lang.id(), LanguageId::JavaScript);

    let mjs_lang = registry.get_by_extension("mjs").unwrap();
    assert_eq!(mjs_lang.id(), LanguageId::JavaScript);

    let cjs_lang = registry.get_by_extension("cjs").unwrap();
    assert_eq!(cjs_lang.id(), LanguageId::JavaScript);

    let jsx_lang = registry.get_by_extension("jsx").unwrap();
    assert_eq!(jsx_lang.id(), LanguageId::JavaScriptReact);

    let md_lang = registry.get_by_extension("md").unwrap();
    assert_eq!(md_lang.id(), LanguageId::Markdown);

    let mdc_lang = registry.get_by_extension("mdc").unwrap();
    assert_eq!(mdc_lang.id(), LanguageId::Markdown);

    let html_lang = registry.get_by_extension("html").unwrap();
    assert_eq!(html_lang.id(), LanguageId::Html);

    let htm_lang = registry.get_by_extension("htm").unwrap();
    assert_eq!(htm_lang.id(), LanguageId::Html);

    let css_lang = registry.get_by_extension("css").unwrap();
    assert_eq!(css_lang.id(), LanguageId::Css);

    let py_lang = registry.get_by_extension("py").unwrap();
    assert_eq!(py_lang.id(), LanguageId::Python);

    let pyi_lang = registry.get_by_extension("pyi").unwrap();
    assert_eq!(pyi_lang.id(), LanguageId::Python);
}

#[test]
fn test_get_for_path() {
    let registry = default_registry();

    assert!(registry.get_for_path("src/index.ts").is_some());
    assert!(registry.get_for_path("src/App.tsx").is_some());
    assert!(registry.get_for_path("src/index.js").is_some());
    assert!(registry.get_for_path("src/App.jsx").is_some());
    assert!(registry.get_for_path("README.md").is_some());
    assert!(registry.get_for_path("index.html").is_some());
    assert!(registry.get_for_path("styles.css").is_some());
    assert!(registry.get_for_path("script.py").is_some());
    assert!(registry.get_for_path("script.rs").is_none());
}

#[test]
fn test_is_supported() {
    let registry = default_registry();

    assert!(registry.is_supported("test.ts"));
    assert!(registry.is_supported("test.tsx"));
    assert!(registry.is_supported("test.js"));
    assert!(registry.is_supported("test.mjs"));
    assert!(registry.is_supported("test.cjs"));
    assert!(registry.is_supported("test.jsx"));
    assert!(registry.is_supported("test.md"));
    assert!(registry.is_supported("test.mdc"));
    assert!(registry.is_supported("test.html"));
    assert!(registry.is_supported("test.htm"));
    assert!(registry.is_supported("test.css"));
    assert!(registry.is_supported("test.py"));
    assert!(registry.is_supported("test.pyi"));
    assert!(!registry.is_supported("test.rs"));
}

#[test]
fn registering_a_language_again_replaces_it() {
    let mut registry = LanguageRegistry::empty();
    assert!(registry.registered_languages().is_empty());
    registry.register(LanguageSupport::new(LanguageId::Rust, "", "").unwrap());
    registry.register(LanguageSupport::new(LanguageId::Go, "", "").unwrap());
    registry.register(
        LanguageSupport::new(LanguageId::Rust, "(function_item) @definition.function", "").unwrap(),
    );
    assert_eq!(registry.registered_languages(), vec![LanguageId::Rust, LanguageId::Go]);
    assert_eq!(registry.supported_extensions(), vec!["rs", "go"]);
    assert_eq!(registry.get(LanguageId::Rust).unwrap().definitions_query().pattern_count(), 1);
    assert_eq!(registry.get(LanguageId::Rust).unwrap().name(), "Rust");
    assert!(!registry.get(LanguageId::Rust).unwrap().uses_separate_docs());
    assert!(registry.get(LanguageId::Sql).is_none());
}

#[test]
fn a_query_that_does_not_compile_stops_the_registry() {
    let queries = vec![
        LanguageQueries { id: LanguageId::Css, definitions: String::new(), usages: String::new() },
        LanguageQueries {
            id: LanguageId::Python,
            definitions: "(no_such_node) @name".to_string(),
            usages: String::new(),
        },
    ];
    match LanguageRegistry::new(&queries) {
        Err(RegistryError::DefinitionsQuery { language, message }) => {
            assert_eq!(language, LanguageId::Python);
            assert!(message.contains("no_such_node"));
        }
        _ => panic!("expected the definitions query to be refused"),
    }
    let queries = vec![LanguageQueries {
        id: LanguageId::Java,
        definitions: String::new(),
        usages: "(".to_string(),
    }];
    match LanguageRegistry::new(&queries) {
        Err(e @ RegistryError::UsagesQuery { .. }) => assert_eq!(e.language(), LanguageId::Java),
        _ => panic!("expected the usages query to be refused"),
    }
    assert!(LanguageRegistry::new(&Vec::new()).is_ok());
}

#[test]
fn extension_is_what_follows_the_last_dot_of_the_file_name() {
    assert_eq!(file_extension("src/index.ts"), Some("ts".to_string()));
    assert_eq!(file_extension("a.b/c"), None);
    assert_eq!(file_extension("a/.gitignore"), None);
    assert_eq!(file_extension(".."), None);
    assert_eq!(file_extension("a/.."), None);
    assert_eq!(file_extension("x.tar.gz"), Some("gz".to_string()));
    assert_eq!(file_extension("x."), Some("".to_string()));
    assert_eq!(file_extension(""), None);
    assert_eq!(file_extension("a/.b.c"), Some("c".to_string()));
    assert_eq!(language_for_path("q/w.SQL"), None);
    assert_eq!(language_for_path("q/w.sql"), Some(LanguageId::Sql));
    assert_eq!(language_for_extension("java"), Some(LanguageId::Java));
    assert_eq!(language_for_extension("rs"), Some(LanguageId::Rust));
    assert_eq!(language_for_extension("go"), Some(LanguageId::Go));
    assert_eq!(language_for_extension(""), None);
}

#[test]
fn language_names_and_tables() {
    assert_eq!(LanguageId::default(), LanguageId::TypeScript);
    assert_eq!(LanguageId::JavaScriptReact.to_string(), "JavaScriptReact");
    assert_eq!(LanguageId::Sql.to_string(), "Sql");
    assert_eq!(LanguageId::JavaScript.file_extensions(), vec!["js", "mjs", "cjs"]);
    assert!(LanguageId::Sql.uses_separate_docs());
    assert!(!LanguageId::TypeScript.uses_separate_docs());
    let table = LanguageId::Java.definition_mappings();
    assert_eq!(table.len(), 7);
    assert_eq!(table[5].capture_name, "definition.field");
    assert_eq!(table[5].kind, SymbolKind::Variable);
    assert_eq!(LanguageId::TypeScript.definition_mappings().len(), 9);
    assert_eq!(LanguageId::Rust.definition_mappings()[10].kind, SymbolKind::Macro);
    assert_eq!(SymbolKind::CssKeyframes.to_string(), "CssKeyframes");
    assert_eq!(SymbolKind::View.to_string(), "View");
}

#[test]
fn language_filter_names() {
    assert_eq!(parse_language_id("TypeScript"), Some(LanguageId::TypeScript));
    assert_eq!(parse_language_id("ts"), Some(LanguageId::TypeScript));
    assert_eq!(parse_language_id("TSX"), Some(LanguageId::TypeScriptReact));
    assert_eq!(parse_language_id("typescriptreact"), Some(LanguageId::TypeScriptReact));
    assert_eq!(parse_language_id("Markdown"), Some(LanguageId::Markdown));
    assert_eq!(parse_language_id("MD"), Some(LanguageId::Markdown));
    // the Kelvin sign is an upper-case letter whose lower-case form is `k`
    assert_eq!(parse_language_id("MAR\u{212A}DOWN"), Some(LanguageId::Markdown));
    assert_eq!(parse_language_id("python"), None);
    assert_eq!(parse_language_id(""), None);
}

#[test]
fn errors_say_what_went_wrong() {
    match TypeScriptParser::new("(no_such_node) @name", "") {
        Err(e @ ParseError::InvalidQuery { .. }) => {
            assert!(e.message().starts_with("Failed to compile query: "));
            assert!(e.message().contains("no_such_node"));
        }
        _ => panic!("expected the query to be refused"),
    }
    assert!(matches!(TypeScriptParser::new("", "((("), Err(ParseError::InvalidQuery { .. })));
    assert_eq!(ParseError::ParseFailed.message(), "Failed to parse source code");
    assert_eq!(
        ParseError::LanguageRejected { message: "too old".to_string() }.message(),
        "Failed to set language: too old"
    );
    let unsupported = ParseError::UnsupportedFileType {
        path: "a.xyz".to_string(),
        supported: vec!["ts".to_string(), "tsx".to_string()],
    };
    assert_eq!(
        unsupported.message(),
        "Unsupported file type for path 'a.xyz'. Supported extensions: ts, tsx"
    );
    let none = ParseError::UnsupportedFileType { path: String::new(), supported: Vec::new() };
    assert_eq!(none.message(), "Unsupported file type for path ''. Supported extensions: ");
}

#[test]
fn lower_case_names_stand_for_languages() {
    assert_eq!(language_id_from_name("tsx"), Some(LanguageId::TypeScriptReact));
    assert_eq!(language_id_from_name("md"), Some(LanguageId::Markdown));
    assert_eq!(language_id_from_name("TS"), None);
    assert_eq!(language_id_from_name("javascript"), None);
}

#[test]
fn language_is_set_up_with_the_grammar_given() {
    let definitions = "(function_declaration name: (identifier) @name) @definition.function";
    let usages = "(identifier) @usage";
    let grammar = || -> tree_sitter::Language { tree_sitter_typescript::LANGUAGE_TYPESCRIPT.into() };

    let support =
        LanguageSupport::with_grammar(LanguageId::TypeScript, grammar(), definitions, usages).unwrap();
    assert_eq!(support.id(), LanguageId::TypeScript);
    assert_eq!(support.tree_sitter_language(), &grammar());
    assert_eq!(support.definitions_query().capture_names(), &["name", "definition.function"]);
    assert_eq!(support.usages_query().capture_names(), &["usage"]);

    // the query for definitions is compiled first
    match LanguageSupport::with_grammar(LanguageId::TypeScript, grammar(), "(((", "(((") {
        Err(e @ RegistryError::DefinitionsQuery { .. }) => assert_eq!(e.language(), LanguageId::TypeScript),
        _ => panic!("the query for definitions does not compile"),
    }
    match LanguageSupport::with_grammar(LanguageId::TypeScript, grammar(), definitions, "(((") {
        Err(e @ RegistryError::UsagesQuery { .. }) => assert_eq!(e.language(), LanguageId::TypeScript),
        _ => panic!("the query for usages does not compile"),
    }
    // a node kind of another grammar
    assert!(matches!(
        LanguageSupport::with_grammar(LanguageId::TypeScript, grammar(), "(create_table) @x", usages),
        Err(RegistryError::DefinitionsQuery { .. })
    ));
}

#[test]
fn typescript_parser_is_made_of_the_grammars_given() {
    let definitions = "(function_declaration name: (identifier) @name) @definition.function";
    let usages = "(identifier) @usage";
    let ts = || -> tree_sitter::Language { tree_sitter_typescript::LANGUAGE_TYPESCRIPT.into() };
    let tsx = || -> tree_sitter::Language { tree_sitter_typescript::LANGUAGE_TSX.into() };

    let mut parser = TypeScriptParser::with_grammars(ts(), tsx(), definitions, usages).unwrap();
    let tree = parser.parse("a.tsx", "const a = <b>c</b>;").unwrap();
    assert!(!tree.root_node().has_error());
    let tree = parser.parse("a.ts", "const a = <b>c;").unwrap();
    assert!(!tree.root_node().has_error());

    assert!(matches!(
        TypeScriptParser::with_grammars(ts(), tsx(), "(((", usages),
        Err(ParseError::InvalidQuery { .. })
    ));
    assert!(matches!(
        TypeScriptParser::with_grammars(ts(), tsx(), definitions, "((("),
        Err(ParseError::InvalidQuery { .. })
    ));
    // a node kind that only the second grammar has
    assert!(matches!(
        TypeScriptParser::with_grammars(ts(), tsx(), "(jsx_element) @definition.function", usages),
        Err(ParseError::InvalidQuery { .. })
    ));
}

#[test]
fn of_two_entries_for_one_language_the_later_counts() {
    let queries = vec![
        LanguageQueries {
            id: LanguageId::TypeScript,
            definitions: "(class_declaration name: (type_identifier) @name) @definition.class".to_string(),
            usages: "(identifier) @usage".to_string(),
        },
        LanguageQueries { id: LanguageId::Css, definitions: String::new(), usages: String::new() },
        LanguageQueries {
            id: LanguageId::TypeScript,
            definitions: "(function_declaration name: (identifier) @name) @definition.function".to_string(),
            usages: "(type_identifier) @usage".to_string(),
        },
    ];
    let registry = LanguageRegistry::new(&queries).unwrap();
    assert_eq!(registry.registered_languages(), vec![LanguageId::TypeScript, LanguageId::Css]);
    let support = registry.get(LanguageId::TypeScript).unwrap();
    assert_eq!(support.definitions_query().capture_names(), &["name", "definition.function"]);
    assert_eq!(support.usages_query().pattern_count(), 1);
    assert_eq!(support.usages_query().capture_names(), &["usage"]);
    let css = registry.get(LanguageId::Css).unwrap();
    assert_eq!(css.definitions_query().pattern_count(), 0);
}
