use codescope_mcp::config::{decide_exclusion, CacheConfig, CodeScopeConfig};

#[test]
fn test_default_config() {
    let config = CodeScopeConfig::default_config();
    assert!(config.exclude_dirs.contains(&"dist".to_string()));
    assert!(config.exclude_dirs.contains(&"build".to_string()));
    assert!(config.enabled_languages.is_empty());
    assert!(config.cache.enabled);
}

#[test]
fn test_is_language_enabled() {
    // Empty enabled_languages = all enabled
    let config = CodeScopeConfig::default_config();
    assert!(config.is_language_enabled("ts"));
    assert!(config.is_language_enabled("tsx"));

    // Specific languages enabled
    let config = CodeScopeConfig {
        enabled_languages: vec!["typescript".to_string()],
        ..Default::default()
    };
    assert!(config.is_language_enabled("ts"));
    assert!(!config.is_language_enabled("tsx"));
}

#[test]
fn test_cache_config_defaults() {
    let cache = CacheConfig::default();
    assert!(cache.enabled);
    assert_eq!(cache.max_size, 1000);
    assert_eq!(cache.ttl_seconds, 300);
}

#[test]
fn test_should_exclude() {
    let config = CodeScopeConfig::default_config();

    // Should exclude dist directory
    assert!(config.should_exclude("/project/dist/index.js", None));

    // Should not exclude src directory
    assert!(!config.should_exclude("/project/src/index.ts", None));

    // Should exclude with additional excludes
    assert!(config.should_exclude("/project/test/sample.ts", Some(&vec!["test".to_string()])));
}

#[test]
fn test_exclude_patterns() {
    let config = CodeScopeConfig {
        exclude_patterns: vec!["**/*.test.ts".to_string(), "**/__mocks__/**".to_string()],
        ..Default::default()
    };

    // Should exclude test files
    assert!(config.should_exclude("/project/src/utils.test.ts", None));

    // Should exclude mock directories
    assert!(config.should_exclude("/project/src/__mocks__/api.ts", None));

    // Should not exclude regular files
    assert!(!config.should_exclude("/project/src/utils.ts", None));
}

#[test]
fn directories_are_excluded_only_as_whole_path_parts() {
    let config = CodeScopeConfig::default_config();
    assert!(!config.excluded_by_dirs("/project/distribution/a.ts", None));
    assert!(!config.excluded_by_dirs("dist/a.ts", None));
    assert!(config.excluded_by_dirs("C:\\project\\build\\a.ts", None));
    assert!(config.excluded_by_dirs("/p/.next/a.ts", None));
    assert!(config.excluded_by_dirs("/p/out/a.ts", None));
    assert!(config.excluded_by_dirs("/p/coverage/a.ts", None));
    assert!(!config.excluded_by_dirs("/p/out\\a.ts", None));
}

#[test]
fn a_pattern_that_does_not_compile_excludes_nothing() {
    let config = CodeScopeConfig {
        exclude_patterns: vec!["a**b".to_string(), "[".to_string(), "*.gen.ts".to_string()],
        ..Default::default()
    };
    assert_eq!(config.pattern_verdicts("x.gen.ts"), vec![None, None, Some(true)]);
    assert_eq!(config.pattern_verdicts("x.ts"), vec![None, None, Some(false)]);
    assert!(config.should_exclude("x.gen.ts", None));
    assert!(!config.should_exclude("x.ts", None));
}

#[test]
fn exclusion_is_decided_from_directories_and_verdicts() {
    assert!(decide_exclusion(true, &vec![]));
    assert!(!decide_exclusion(false, &vec![]));
    assert!(!decide_exclusion(false, &vec![None, Some(false)]));
    assert!(decide_exclusion(false, &vec![None, Some(false), Some(true)]));
}

#[test]
fn enabled_languages_are_matched_without_regard_to_case() {
    let config = CodeScopeConfig {
        enabled_languages: vec!["PY".to_string(), "TSX".to_string()],
        ..Default::default()
    };
    assert!(config.is_language_enabled("py"));
    assert!(config.is_language_enabled("Py"));
    assert!(config.is_language_enabled("tsx"));
    assert!(!config.is_language_enabled("ts"));
    assert!(!config.is_language_enabled("pyi"));
    let config = CodeScopeConfig {
        enabled_languages: vec!["TypeScript".to_string()],
        ..Default::default()
    };
    assert!(config.is_language_enabled("ts"));
    assert!(config.is_language_enabled("TYPESCRIPT"));
    assert!(!config.is_language_enabled("TS"));
    let defaults = CodeScopeConfig::default();
    assert!(defaults.exclude_dirs.is_empty());
    assert_eq!(defaults.max_results, None);
    assert_eq!(CodeScopeConfig::default_config().exclude_dirs, vec!["dist", "build", ".next", "out", "coverage"]);
}
