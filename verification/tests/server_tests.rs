use codescope_mcp::server::{
    CodeAtLocationParams, CommentSearchParams, DefinitionParams, ImportsParams, MethodCallsParams,
    UsagesParams,
};

#[test]
fn requests_choose_their_collectors() {
    let definition = DefinitionParams {
        symbol: "User".to_string(),
        include_docs: None,
        exclude_dirs: None,
        language: None,
    };
    let collector = definition.collector();
    assert_eq!(collector.symbol, "User");
    assert!(!collector.include_docs);
    let with_docs = DefinitionParams { include_docs: Some(true), ..definition.clone() };
    assert!(with_docs.collector().include_docs);
    let without_docs = DefinitionParams { include_docs: Some(false), ..definition };
    assert!(!without_docs.collector().include_docs);

    let usages = UsagesParams {
        symbol: "now".to_string(),
        include_contexts: Some(true),
        exclude_dirs: None,
        language: None,
    };
    let collector = usages.collector();
    assert_eq!(collector.symbol, "now");
    assert!(collector.include_imports);
    assert_eq!(collector.max_contexts, 2);
    assert_eq!(collector.object_filter, None);
    assert_eq!(UsagesParams { include_contexts: None, ..usages.clone() }.collector().max_contexts, 0);
    assert_eq!(UsagesParams { include_contexts: Some(false), ..usages }.collector().max_contexts, 0);

    let calls = MethodCallsParams {
        method_name: "now".to_string(),
        object_name: Some("Date".to_string()),
        exclude_dirs: None,
        language: None,
    };
    let collector = calls.collector();
    assert_eq!(collector.method_name, "now");
    assert_eq!(collector.object_name, Some("Date".to_string()));

    let imports = ImportsParams { symbol: "useState".to_string(), exclude_dirs: None, language: None };
    assert_eq!(imports.collector().symbol, "useState");

    let comments = CommentSearchParams { text: "TODO".to_string(), exclude_dirs: None, language: None };
    assert_eq!(comments.collector().text, "TODO");

    let location = CodeAtLocationParams {
        file_path: "a.ts".to_string(),
        line: 5,
        context_before: None,
        context_after: Some(0),
    };
    assert_eq!(location.context(), (3, 0));
}
