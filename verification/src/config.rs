//! Configuration of a search: what is left out, which languages are enabled,
//! and how the caches are set.

use crate::text::{chars_of, contains, eq_ignore_ascii_case, includes, same_ignoring_ascii_case, str_eq};
use vstd::prelude::*;

verus! {

/// Cache configuration.
#[derive(Debug, Clone)]
pub struct CacheConfig {
    /// Whether caching is enabled.
    pub enabled: bool,
    /// Maximum number of entries in the cache.
    pub max_size: usize,
    /// Time-to-live for cache entries in seconds.
    pub ttl_seconds: u64,
}

/// Caching is on unless the configuration says otherwise.
pub fn default_cache_enabled() -> (b: bool)
    ensures
        b,
{
    true
}

/// A cache holds a thousand entries unless the configuration says otherwise.
pub fn default_cache_max_size() -> (n: usize)
    ensures
        n == 1000,
{
    1000
}

/// A cache entry lives five minutes unless the configuration says otherwise.
pub fn default_cache_ttl() -> (seconds: u64)
    ensures
        seconds == 300,
{
    300
}

impl Default for CacheConfig {
    fn default() -> (config: Self)
        ensures
            config.enabled,
            config.max_size == 1000,
            config.ttl_seconds == 300,
    {
        CacheConfig {
            enabled: default_cache_enabled(),
            max_size: default_cache_max_size(),
            ttl_seconds: default_cache_ttl(),
        }
    }
}

/// Configuration of a search.
#[derive(Debug, Clone)]
pub struct CodeScopeConfig {
    /// Directories to exclude from search.
    pub exclude_dirs: Vec<String>,
    /// Glob patterns to exclude from search, such as `**/*.test.ts`.
    pub exclude_patterns: Vec<String>,
    /// Enabled languages; all registered languages where this is empty.
    pub enabled_languages: Vec<String>,
    /// Cache configuration.
    pub cache: CacheConfig,
    /// Maximum number of results to return, unlimited where none is given.
    pub max_results: Option<usize>,
}

impl Default for CodeScopeConfig {
    fn default() -> (config: Self)
        ensures
            config.exclude_dirs@.len() == 0,
            config.exclude_patterns@.len() == 0,
            config.enabled_languages@.len() == 0,
            config.cache.enabled,
            config.cache.max_size == 1000,
            config.cache.ttl_seconds == 300,
            config.max_results is None,
    {
        CodeScopeConfig {
            exclude_dirs: Vec::new(),
            exclude_patterns: Vec::new(),
            enabled_languages: Vec::new(),
            cache: CacheConfig::default(),
            max_results: None,
        }
    }
}

/// The directories that are excluded by default.
pub open spec fn default_exclude_dirs() -> Seq<Seq<char>> {
    seq!["dist"@, "build"@, ".next"@, "out"@, "coverage"@]
}

/// The characters of each string.
pub open spec fn texts(v: Seq<String>) -> Seq<Seq<char>> {
    v.map_values(|s: String| s@)
}

/// `path` runs through the directory `dir`: it holds `dir` between two
/// slashes or between two backslashes.
pub open spec fn in_dir(path: Seq<char>, dir: Seq<char>) -> bool {
    contains(path, seq!['/'] + dir + seq!['/']) || contains(path, seq!['\\'] + dir + seq!['\\'])
}

/// `path` runs through one of `dirs`.
pub open spec fn in_any_dir(path: Seq<char>, dirs: Seq<Seq<char>>) -> bool {
    exists|i: int| 0 <= i < dirs.len() && in_dir(path, #[trigger] dirs[i])
}

/// The directories of an optional list.
pub open spec fn optional_dirs(dirs: Option<&Vec<String>>) -> Seq<Seq<char>> {
    match dirs {
        Some(list) => texts(list@),
        None => seq![],
    }
}

/// One of the verdicts says that its pattern matches.
pub open spec fn any_match(verdicts: Seq<Option<bool>>) -> bool {
    exists|i: int| 0 <= i < verdicts.len() && #[trigger] verdicts[i] == Some(true)
}

/// `glob::Pattern::new` compiles a pattern and `Pattern::matches` holds a
/// text against it; nothing comes back where the pattern does not compile.
/// How a pattern treats path separators depends on the platform.
#[verifier::external_body]
fn glob_matches(pattern: &str, path: &str) -> (verdict: Option<bool>) {
    glob::Pattern::new(pattern).ok().map(|p| p.matches(path))
}

fn path_in_dir(path: &[char], dir: &str) -> (b: bool)
    ensures
        b == in_dir(path@, dir@),
{
    let name = chars_of(dir);
    let mut slashed: Vec<char> = vec!['/'];
    slashed.extend_from_slice(name.as_slice());
    slashed.push('/');
    assert(slashed@ =~= seq!['/'] + dir@ + seq!['/']);
    if includes(path, slashed.as_slice()) {
        return true;
    }
    let mut backslashed: Vec<char> = vec!['\\'];
    backslashed.extend_from_slice(name.as_slice());
    backslashed.push('\\');
    assert(backslashed@ =~= seq!['\\'] + dir@ + seq!['\\']);
    includes(path, backslashed.as_slice())
}

fn path_in_any_dir(path: &[char], dirs: &Vec<String>) -> (b: bool)
    ensures
        b == in_any_dir(path@, texts(dirs@)),
{
    let mut i: usize = 0;
    while i < dirs.len()
        invariant
            i <= dirs@.len(),
            forall|k: int| 0 <= k < i ==> !in_dir(path@, #[trigger] texts(dirs@)[k]),
        decreases dirs@.len() - i,
    {
        assert(texts(dirs@)[i as int] == dirs@[i as int]@);
        if path_in_dir(path, dirs[i].as_str()) {
            return true;
        }
        i += 1;
    }
    false
}

/// Decides on exclusion from what was found: a path is excluded where it
/// runs through an excluded directory, or where one of the patterns matches
/// it.
pub fn decide_exclusion(dir_hit: bool, verdicts: &Vec<Option<bool>>) -> (b: bool)
    ensures
        b == (dir_hit || any_match(verdicts@)),
{
    if dir_hit {
        return true;
    }
    let mut i: usize = 0;
    while i < verdicts.len()
        invariant
            i <= verdicts@.len(),
            forall|k: int| 0 <= k < i ==> #[trigger] verdicts@[k] != Some(true),
        decreases verdicts@.len() - i,
    {
        match verdicts[i] {
            Some(true) => {
                return true;
            },
            _ => {},
        }
        i += 1;
    }
    false
}

impl CodeScopeConfig {
    /// The default configuration: the usual build directories are excluded,
    /// all languages are enabled.
    pub fn default_config() -> (config: Self)
        ensures
            texts(config.exclude_dirs@) == default_exclude_dirs(),
            config.exclude_patterns@.len() == 0,
            config.enabled_languages@.len() == 0,
            config.cache.enabled,
            config.cache.max_size == 1000,
            config.cache.ttl_seconds == 300,
            config.max_results is None,
    {
        let exclude_dirs: Vec<String> = vec![
            "dist".to_owned(),
            "build".to_owned(),
            ".next".to_owned(),
            "out".to_owned(),
            "coverage".to_owned(),
        ];
        assert(texts(exclude_dirs@) =~= default_exclude_dirs());
        CodeScopeConfig {
            exclude_dirs,
            exclude_patterns: Vec::new(),
            enabled_languages: Vec::new(),
            cache: CacheConfig::default(),
            max_results: None,
        }
    }

    /// `path` runs through a directory that the configuration or the caller
    /// excludes.
    pub open spec fn dir_excluded(&self, path: Seq<char>, additional: Option<&Vec<String>>) -> bool {
        in_any_dir(path, texts(self.exclude_dirs@)) || in_any_dir(path, optional_dirs(additional))
    }

    /// Whether `path` runs through an excluded directory.
    pub fn excluded_by_dirs(&self, path: &str, additional_excludes: Option<&Vec<String>>) -> (b:
        bool)
        ensures
            b == self.dir_excluded(path@, additional_excludes),
    {
        let chars = chars_of(path);
        if path_in_any_dir(chars.as_slice(), &self.exclude_dirs) {
            return true;
        }
        match additional_excludes {
            Some(dirs) => path_in_any_dir(chars.as_slice(), dirs),
            None => false,
        }
    }

    /// The verdict of each exclusion pattern on `path`: whether it matches,
    /// and nothing for a pattern that does not compile.
    pub fn pattern_verdicts(&self, path: &str) -> (verdicts: Vec<Option<bool>>)
        ensures
            verdicts@.len() == self.exclude_patterns@.len(),
    {
        let mut verdicts: Vec<Option<bool>> = Vec::new();
        let mut i: usize = 0;
        while i < self.exclude_patterns.len()
            invariant
                i <= self.exclude_patterns@.len(),
                verdicts@.len() == i,
            decreases self.exclude_patterns@.len() - i,
        {
            verdicts.push(glob_matches(self.exclude_patterns[i].as_str(), path));
            i += 1;
        }
        verdicts
    }

    /// Whether `path` is left out of a search: it runs through an excluded
    /// directory, or one of the exclusion patterns matches it. A pattern that
    /// does not compile excludes nothing.
    pub fn should_exclude(&self, path: &str, additional_excludes: Option<&Vec<String>>) -> (b: bool)
        ensures
            self.dir_excluded(path@, additional_excludes) ==> b,
            self.exclude_patterns@.len() == 0 ==> b == self.dir_excluded(
                path@,
                additional_excludes,
            ),
    {
        let dir_hit = self.excluded_by_dirs(path, additional_excludes);
        if dir_hit {
            return true;
        }
        let verdicts = self.pattern_verdicts(path);
        decide_exclusion(dir_hit, &verdicts)
    }

    /// The entry `lang` of the list of enabled languages enables files with
    /// the extension `extension`: it is the extension, whatever the case of
    /// its letters, or it is `typescript` and the extension is `ts`.
    pub open spec fn entry_enables(lang: Seq<char>, extension: Seq<char>) -> bool {
        same_ignoring_ascii_case(lang, extension) || (same_ignoring_ascii_case(
            lang,
            "typescript"@,
        ) && extension == "ts"@) || (same_ignoring_ascii_case(lang, "tsx"@) && extension
            == "tsx"@)
    }

    /// Files with the extension `extension` are enabled: every extension is
    /// where no language is listed.
    pub open spec fn enables(&self, extension: Seq<char>) -> bool {
        self.enabled_languages@.len() == 0 || exists|i: int|
            0 <= i < self.enabled_languages@.len() && Self::entry_enables(
                (#[trigger] self.enabled_languages@[i])@,
                extension,
            )
    }

    /// Whether files with the extension `extension` are searched.
    pub fn is_language_enabled(&self, extension: &str) -> (b: bool)
        ensures
            b == self.enables(extension@),
    {
        if self.enabled_languages.len() == 0 {
            return true;
        }
        let ext = chars_of(extension);
        let typescript = chars_of("typescript");
        let tsx = chars_of("tsx");
        let mut i: usize = 0;
        while i < self.enabled_languages.len()
            invariant
                i <= self.enabled_languages@.len(),
                ext@ == extension@,
                typescript@ == "typescript"@,
                tsx@ == "tsx"@,
                forall|k: int|
                    0 <= k < i ==> !Self::entry_enables(
                        (#[trigger] self.enabled_languages@[k])@,
                        extension@,
                    ),
            decreases self.enabled_languages@.len() - i,
        {
            let lang = chars_of(self.enabled_languages[i].as_str());
            if eq_ignore_ascii_case(lang.as_slice(), ext.as_slice()) || (eq_ignore_ascii_case(
                lang.as_slice(),
                typescript.as_slice(),
            ) && str_eq(extension, "ts")) || (eq_ignore_ascii_case(lang.as_slice(), tsx.as_slice())
                && str_eq(extension, "tsx")) {
                return true;
            }
            i += 1;
        }
        false
    }
}

} // verus!
