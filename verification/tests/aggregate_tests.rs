use codescope_mcp::aggregate::{
    aggregate_statistics, statistics_fit, FileStatistics, StatsResponse, SymbolCount,
};
use codescope_mcp::language::LanguageId;
use codescope_mcp::types::SymbolKind;

fn file(
    path: &str,
    language_id: LanguageId,
    lines: (usize, usize, usize, usize),
    symbols: &[(SymbolKind, usize)],
) -> FileStatistics {
    FileStatistics {
        file_path: path.to_string(),
        language_id,
        total_lines: lines.0,
        code_lines: lines.1,
        blank_lines: lines.2,
        comment_lines: lines.3,
        symbol_counts: symbols.iter().map(|(kind, count)| SymbolCount { kind: *kind, count: *count }).collect(),
    }
}

// The share of a language in all code lines, in percent with one decimal.
fn percentage(response: &StatsResponse, row: usize) -> f64 {
    let code_lines = response.summary.code_lines;
    let percentage = if code_lines > 0 {
        (response.by_language[row].code_lines as f64 / code_lines as f64) * 100.0
    } else {
        0.0
    };
    (percentage * 10.0).round() / 10.0
}

// The symbols per file, with two decimals.
fn avg_symbols_per_file(response: &StatsResponse) -> f64 {
    if response.summary.total_files > 0 {
        (response.summary.total_symbols as f64 / response.summary.total_files as f64 * 100.0).round()
            / 100.0
    } else {
        0.0
    }
}

#[test]
fn test_aggregate_statistics() {
    let stats = vec![
        file(
            "foo.ts",
            LanguageId::TypeScript,
            (100, 80, 10, 10),
            &[(SymbolKind::Function, 5), (SymbolKind::Class, 2)],
        ),
        file(
            "bar.rs",
            LanguageId::Rust,
            (50, 40, 5, 5),
            &[(SymbolKind::Function, 3), (SymbolKind::Struct, 1)],
        ),
    ];

    let response = aggregate_statistics(stats);

    assert_eq!(response.summary.total_files, 2);
    assert_eq!(response.summary.total_lines, 150);
    assert_eq!(response.summary.code_lines, 120);
    assert_eq!(response.summary.blank_lines, 15);
    assert_eq!(response.summary.comment_lines, 15);
    assert_eq!(response.summary.total_symbols, 11);
    assert_eq!(response.summary.languages_count, 2);

    // Check language breakdown
    assert_eq!(response.by_language.len(), 2);
    assert_eq!(response.by_language[0].language, "TypeScript"); // TypeScript has more code
    assert_eq!(response.by_language[0].code_lines, 80);

    // Check symbol stats
    assert_eq!(response.symbols.get("Function"), Some(8));
    assert_eq!(response.symbols.get("Class"), Some(2));
    assert_eq!(response.symbols.get("Struct"), Some(1));
    assert!((avg_symbols_per_file(&response) - 5.5).abs() < 0.01);
}

#[test]
fn test_aggregate_statistics_single_file() {
    let stats = vec![file(
        "test.ts",
        LanguageId::TypeScript,
        (100, 80, 10, 10),
        &[(SymbolKind::Function, 5), (SymbolKind::Class, 2)],
    )];

    let response = aggregate_statistics(stats);

    assert_eq!(response.summary.total_files, 1);
    assert_eq!(response.summary.total_lines, 100);
    assert_eq!(response.summary.code_lines, 80);
    assert_eq!(response.summary.blank_lines, 10);
    assert_eq!(response.summary.comment_lines, 10);
    assert_eq!(response.summary.total_symbols, 7);
    assert_eq!(response.summary.languages_count, 1);

    assert_eq!(response.by_language.len(), 1);
    assert_eq!(response.by_language[0].language, "TypeScript");
    assert_eq!(response.by_language[0].file_count, 1);
    assert_eq!(percentage(&response, 0), 100.0);

    assert_eq!(response.symbols.get("Function"), Some(5));
    assert_eq!(response.symbols.get("Class"), Some(2));
}

#[test]
fn test_aggregate_statistics_multiple_languages() {
    let stats = vec![
        file("foo.ts", LanguageId::TypeScript, (100, 80, 10, 10), &[(SymbolKind::Function, 5)]),
        file("bar.ts", LanguageId::TypeScript, (50, 40, 5, 5), &[(SymbolKind::Function, 3)]),
        file(
            "lib.rs",
            LanguageId::Rust,
            (200, 150, 30, 20),
            &[(SymbolKind::Function, 10), (SymbolKind::Struct, 5)],
        ),
    ];

    let response = aggregate_statistics(stats);

    assert_eq!(response.summary.total_files, 3);
    assert_eq!(response.summary.total_lines, 350);
    assert_eq!(response.summary.code_lines, 270);
    assert_eq!(response.summary.blank_lines, 45);
    assert_eq!(response.summary.comment_lines, 35);
    assert_eq!(response.summary.total_symbols, 23);
    assert_eq!(response.summary.languages_count, 2);

    // Languages sorted by code lines (Rust: 150, TypeScript: 120)
    assert_eq!(response.by_language.len(), 2);
    assert_eq!(response.by_language[0].language, "Rust");
    assert_eq!(response.by_language[0].file_count, 1);
    assert_eq!(response.by_language[0].code_lines, 150);
    assert_eq!(response.by_language[1].language, "TypeScript");
    assert_eq!(response.by_language[1].file_count, 2);
    assert_eq!(response.by_language[1].code_lines, 120);
    assert_eq!(response.by_language[1].total_lines, 150);

    // Symbol aggregation
    assert_eq!(response.symbols.get("Function"), Some(18)); // 5+3+10
    assert_eq!(response.symbols.get("Struct"), Some(5));
    assert_eq!(response.symbols.get("Class"), None);
}

#[test]
fn test_aggregate_statistics_empty() {
    let stats: Vec<FileStatistics> = vec![];
    let response = aggregate_statistics(stats);

    assert_eq!(response.summary.total_files, 0);
    assert_eq!(response.summary.total_lines, 0);
    assert_eq!(response.summary.code_lines, 0);
    assert_eq!(response.summary.languages_count, 0);
    assert!(response.by_language.is_empty());
    assert!(response.symbols.by_kind.is_empty());
    assert_eq!(avg_symbols_per_file(&response), 0.0);
}

#[test]
fn test_percentage_calculation() {
    let stats = vec![
        file("a.ts", LanguageId::TypeScript, (100, 75, 15, 10), &[]),
        file("b.py", LanguageId::Python, (100, 25, 50, 25), &[]),
    ];

    let response = aggregate_statistics(stats);

    // Total code lines: 100
    // TypeScript: 75 -> 75%
    // Python: 25 -> 25%
    assert_eq!(response.by_language[0].language, "TypeScript");
    assert_eq!(percentage(&response, 0), 75.0);
    assert_eq!(response.by_language[1].language, "Python");
    assert_eq!(percentage(&response, 1), 25.0);
}

#[test]
fn test_avg_symbols_per_file() {
    let stats = vec![
        file("a.ts", LanguageId::TypeScript, (50, 40, 5, 5), &[(SymbolKind::Function, 4)]),
        file("b.ts", LanguageId::TypeScript, (50, 40, 5, 5), &[(SymbolKind::Function, 6)]),
    ];

    let response = aggregate_statistics(stats);

    // 10 symbols / 2 files = 5.0
    assert_eq!(avg_symbols_per_file(&response), 5.0);
}

#[test]
fn languages_with_the_same_code_lines_keep_their_declared_order() {
    let stats = vec![
        file("a.sql", LanguageId::Sql, (10, 5, 0, 5), &[(SymbolKind::Table, 0)]),
        file("a.go", LanguageId::Go, (10, 5, 5, 0), &[]),
        file("a.css", LanguageId::Css, (9, 9, 0, 0), &[(SymbolKind::CssVariable, 2), (SymbolKind::CssVariable, 3)]),
        file("a.md", LanguageId::Markdown, (3, 0, 3, 0), &[]),
        file("b.go", LanguageId::Go, (1, 0, 1, 0), &[(SymbolKind::Function, 1)]),
    ];
    assert!(statistics_fit(&stats));
    let response = aggregate_statistics(stats);
    let names: Vec<&str> = response.by_language.iter().map(|r| r.language.as_str()).collect();
    assert_eq!(names, vec!["Css", "Go", "Sql", "Markdown"]);
    assert_eq!(response.by_language[1].file_count, 2);
    assert_eq!(response.by_language[1].total_lines, 11);
    assert_eq!(response.summary.languages_count, 4);
    let kinds: Vec<(&str, usize)> =
        response.symbols.by_kind.iter().map(|k| (k.kind.as_str(), k.count)).collect();
    // kinds come in the order of their declaration; a kind that is mentioned
    // with a count of zero is listed all the same
    assert_eq!(kinds, vec![("Function", 1), ("CssVariable", 5), ("Table", 0)]);
    assert_eq!(response.summary.total_symbols, 6);
}

#[test]
fn sums_that_do_not_fit_are_told_apart() {
    let big = file("a.ts", LanguageId::TypeScript, (usize::MAX, 1, 0, 0), &[]);
    let one = file("b.ts", LanguageId::TypeScript, (1, 1, 0, 0), &[]);
    assert!(statistics_fit(&vec![big.clone()]));
    assert!(!statistics_fit(&vec![big, one.clone()]));
    let many = file("c.ts", LanguageId::TypeScript, (0, 0, 0, 0), &[(SymbolKind::Class, usize::MAX), (SymbolKind::Enum, 1)]);
    assert!(!statistics_fit(&vec![one.clone(), many]));
    assert!(statistics_fit(&vec![one, FileStatistics::default()]));
}
