use codescope_mcp::definition::{
    collect_definitions, find_definitions_in_file, find_symbol_at_location, symbol_at_location,
};
use codescope_mcp::language::{kind_for, LanguageId};
use codescope_mcp::parser::TypeScriptParser;
use codescope_mcp::syntax::{CapturedNode, QueryMatch};
use codescope_mcp::types::SymbolKind;

const DEFINITIONS: &str = r#"
(function_declaration name: (identifier) @name) @definition.function
(class_declaration name: (type_identifier) @name) @definition.class
(method_definition name: (property_identifier) @name) @definition.method
(interface_declaration name: (type_identifier) @name) @definition.interface
(enum_declaration name: (identifier) @name) @definition.enum
(type_alias_declaration name: (type_identifier) @name) @definition.type_alias
(variable_declarator name: (identifier) @name value: (arrow_function)) @definition.arrow_function
"#;

const SAMPLE: &str = r#"interface User {
  id: number;
}

/**
 * Looks after users.
 */
class UserService {
  // Finds one user
  find(id: number): User | undefined {
    return undefined;
  }
}

// Processes a user
function processUser(user: User): void {
  console.log(user.id);
}

const createUser = (id: number): User => ({ id });

type Id = number;
enum Color { Red }
function bare() {}
"#;

fn parser() -> TypeScriptParser {
    TypeScriptParser::new(DEFINITIONS, "").expect("queries compile")
}

fn capture(name: &str, text: &str, start_line: usize, end_line: usize) -> CapturedNode {
    CapturedNode {
        capture: name.to_string(),
        is_property: false,
        text: Some(text.to_string()),
        start_line,
        start_column: 0,
        end_line,
        ancestors: Vec::new(),
    }
}

#[test]
fn interface_class_and_function_are_found_by_name() {
    let mut parser = parser();
    let definitions = find_definitions_in_file(&mut parser, "sample.ts", SAMPLE, "User", false).unwrap();
    assert_eq!(definitions.len(), 1);
    assert_eq!(definitions[0].name, "User");
    assert_eq!(definitions[0].node_kind.to_string(), "Interface");
    assert_eq!(definitions[0].node_kind, SymbolKind::Interface);
    assert_eq!((definitions[0].start_line, definitions[0].end_line), (1, 3));
    assert_eq!(definitions[0].code, "interface User {\n  id: number;\n}");
    assert_eq!(definitions[0].file_path, "sample.ts");
    assert_eq!(definitions[0].docs, None);

    let definitions =
        find_definitions_in_file(&mut parser, "sample.ts", SAMPLE, "UserService", false).unwrap();
    assert_eq!(definitions.len(), 1);
    assert_eq!(definitions[0].node_kind.to_string(), "Class");
    assert_eq!((definitions[0].start_line, definitions[0].end_line), (8, 13));

    let definitions =
        find_definitions_in_file(&mut parser, "sample.ts", SAMPLE, "processUser", false).unwrap();
    assert_eq!(definitions.len(), 1);
    assert_eq!(definitions[0].node_kind.to_string(), "Function");

    let definitions =
        find_definitions_in_file(&mut parser, "sample.ts", SAMPLE, "createUser", false).unwrap();
    assert_eq!(definitions.len(), 1);
    assert_eq!(definitions[0].node_kind, SymbolKind::ArrowFunction);
    assert_eq!(definitions[0].code, "createUser = (id: number): User => ({ id })");

    let definitions = find_definitions_in_file(&mut parser, "sample.ts", SAMPLE, "Id", false).unwrap();
    assert_eq!(definitions[0].node_kind, SymbolKind::TypeAlias);
    let definitions = find_definitions_in_file(&mut parser, "sample.ts", SAMPLE, "Color", false).unwrap();
    assert_eq!(definitions[0].node_kind, SymbolKind::Enum);
    let definitions = find_definitions_in_file(&mut parser, "sample.ts", SAMPLE, "find", false).unwrap();
    assert_eq!(definitions[0].node_kind, SymbolKind::Method);

    assert!(find_definitions_in_file(&mut parser, "sample.ts", SAMPLE, "Missing", false)
        .unwrap()
        .is_empty());
}

#[test]
fn documentation_is_the_comment_above_the_definition() {
    let mut parser = parser();
    let definitions =
        find_definitions_in_file(&mut parser, "sample.ts", SAMPLE, "UserService", true).unwrap();
    assert_eq!(definitions[0].docs, Some("/**\n * Looks after users.\n */".to_string()));

    let definitions =
        find_definitions_in_file(&mut parser, "sample.ts", SAMPLE, "processUser", true).unwrap();
    assert_eq!(definitions[0].docs, Some("// Processes a user".to_string()));

    let definitions = find_definitions_in_file(&mut parser, "sample.ts", SAMPLE, "find", true).unwrap();
    assert_eq!(definitions[0].docs, Some("  // Finds one user".to_string()));

    let definitions = find_definitions_in_file(&mut parser, "sample.ts", SAMPLE, "User", true).unwrap();
    assert_eq!(definitions[0].docs, None);
    let definitions = find_definitions_in_file(&mut parser, "sample.ts", SAMPLE, "bare", true).unwrap();
    assert_eq!(definitions[0].docs, None);
}

#[test]
fn smallest_enclosing_definition_is_found() {
    let mut parser = parser();
    // inside the method
    let found = find_symbol_at_location(&mut parser, "sample.ts", SAMPLE, 11).unwrap().unwrap();
    assert_eq!(found.name, "find");
    assert_eq!(found.node_kind, SymbolKind::Method);
    assert_eq!((found.start_line, found.end_line), (10, 12));
    assert_eq!(found.docs, None);
    // in the class, outside the method
    let found = find_symbol_at_location(&mut parser, "sample.ts", SAMPLE, 9).unwrap().unwrap();
    assert_eq!(found.name, "UserService");
    // line 0 stands for line 1
    let found = find_symbol_at_location(&mut parser, "sample.ts", SAMPLE, 0).unwrap().unwrap();
    assert_eq!(found.name, "User");
    // between definitions
    assert!(find_symbol_at_location(&mut parser, "sample.ts", SAMPLE, 4).unwrap().is_none());
    assert!(find_symbol_at_location(&mut parser, "sample.ts", SAMPLE, 1000).unwrap().is_none());
}

#[test]
fn last_name_and_last_known_capture_of_a_match_count() {
    let table = LanguageId::TypeScript.definition_mappings();
    let matches = vec![
        QueryMatch {
            captures: vec![
                capture("name", "first", 1, 1),
                capture("definition.function", "function first() {}", 1, 2),
                capture("other", "ignored", 5, 5),
                capture("definition.class", "class wanted {}", 3, 4),
                capture("name", "wanted", 3, 3),
            ],
        },
        QueryMatch { captures: vec![capture("name", "wanted", 7, 7)] },
        QueryMatch { captures: vec![capture("definition.method", "wanted() {}", 8, 8)] },
        QueryMatch {
            captures: vec![
                capture("definition.method", "wanted() {}", 9, 9),
                CapturedNode { text: None, ..capture("name", "", 9, 9) },
            ],
        },
    ];
    let found = collect_definitions("f.ts", "", "wanted", false, None, &table, &matches);
    assert_eq!(found.len(), 1);
    assert_eq!(found[0].node_kind, SymbolKind::Class);
    assert_eq!(found[0].code, "class wanted {}");
    assert_eq!((found[0].start_line, found[0].end_line), (3, 4));
    assert!(collect_definitions("f.ts", "", "first", false, None, &table, &matches).is_empty());
    // a name that cannot be read is the empty name
    let unnamed = collect_definitions("f.ts", "", "", false, None, &table, &matches);
    assert_eq!(unnamed.len(), 1);
    assert_eq!(unnamed[0].start_line, 9);

    assert_eq!(kind_for(&table, "definition.enum"), Some(SymbolKind::Enum));
    assert_eq!(kind_for(&table, "definition"), None);
    assert_eq!(kind_for(&LanguageId::Css.definition_mappings(), "definition.variable"), Some(SymbolKind::CssVariable));
}

#[test]
fn of_two_definitions_of_one_size_the_earlier_stays() {
    let table = LanguageId::TypeScript.definition_mappings();
    let one = |name: &str, from: usize, to: usize| QueryMatch {
        captures: vec![
            capture("name", name, from, from),
            capture("definition.function", "code", from, to),
        ],
    };
    let matches = vec![one("outer", 1, 10), one("a", 2, 4), one("b", 3, 5), one("c", 3, 3)];
    let at = |line: usize| symbol_at_location("f.ts", "", line, &table, &matches).map(|d| d.name);
    assert_eq!(at(1), Some("outer".to_string()));
    assert_eq!(at(2), Some("a".to_string()));
    assert_eq!(at(3), Some("c".to_string()));
    assert_eq!(at(4), Some("a".to_string()));
    assert_eq!(at(5), Some("b".to_string()));
    assert_eq!(at(6), Some("outer".to_string()));
    assert_eq!(at(11), None);
}
