//! Statistics of a whole search: the line counts of all files added up, per
//! language and in all, and the symbols counted by kind.

use crate::language::LanguageId;
use crate::types::SymbolKind;
use vstd::prelude::*;

verus! {

/// How many symbols of one kind a file holds.
#[derive(Debug, Clone, Copy)]
pub struct SymbolCount {
    pub kind: SymbolKind,
    pub count: usize,
}

/// Statistics of one file.
#[derive(Debug, Clone)]
pub struct FileStatistics {
    /// Path to the file.
    pub file_path: String,
    /// Language of the file.
    pub language_id: LanguageId,
    /// Number of lines in the file.
    pub total_lines: usize,
    /// Number of lines that hold code.
    pub code_lines: usize,
    /// Number of blank lines.
    pub blank_lines: usize,
    /// Number of comment lines.
    pub comment_lines: usize,
    /// The file's symbols, counted by kind.
    pub symbol_counts: Vec<SymbolCount>,
}

impl Default for FileStatistics {
    fn default() -> (s: Self)
        ensures
            s.file_path@.len() == 0,
            s.language_id == LanguageId::TypeScript,
            s.total_lines == 0,
            s.code_lines == 0,
            s.blank_lines == 0,
            s.comment_lines == 0,
            s.symbol_counts@.len() == 0,
    {
        FileStatistics {
            file_path: String::new(),
            language_id: LanguageId::TypeScript,
            total_lines: 0,
            code_lines: 0,
            blank_lines: 0,
            comment_lines: 0,
            symbol_counts: Vec::new(),
        }
    }
}

/// The totals of a search.
#[derive(Debug, Clone)]
pub struct StatsSummary {
    pub total_files: usize,
    pub total_lines: usize,
    pub code_lines: usize,
    pub blank_lines: usize,
    pub comment_lines: usize,
    pub total_symbols: usize,
    pub languages_count: usize,
}

/// The totals of one language.
#[derive(Debug, Clone)]
pub struct LanguageStats {
    pub language: String,
    pub file_count: usize,
    pub total_lines: usize,
    pub code_lines: usize,
}

/// Mathematical value of a `LanguageStats`.
pub struct LanguageStatsView {
    pub language: Seq<char>,
    pub file_count: nat,
    pub total_lines: nat,
    pub code_lines: nat,
}

impl View for LanguageStats {
    type V = LanguageStatsView;

    open spec fn view(&self) -> LanguageStatsView {
        LanguageStatsView {
            language: self.language@,
            file_count: self.file_count as nat,
            total_lines: self.total_lines as nat,
            code_lines: self.code_lines as nat,
        }
    }
}

/// The values of a sequence of rows.
pub open spec fn row_views(rows: Seq<LanguageStats>) -> Seq<LanguageStatsView> {
    rows.map_values(|r: LanguageStats| r@)
}

/// The number of symbols of one kind in all files.
#[derive(Debug, Clone)]
pub struct KindCount {
    pub kind: String,
    pub count: usize,
}

/// The values of a sequence of kind counts.
pub open spec fn kind_views(rows: Seq<KindCount>) -> Seq<(Seq<char>, nat)> {
    rows.map_values(|r: KindCount| (r.kind@, r.count as nat))
}

/// The symbols of a search, counted by kind.
#[derive(Debug, Clone)]
pub struct SymbolStats {
    pub by_kind: Vec<KindCount>,
}

impl SymbolStats {
    /// The count that the first of the rows from index `i` on gives for the
    /// kind named `kind`.
    pub open spec fn count_from(rows: Seq<KindCount>, kind: Seq<char>, i: int) -> Option<usize>
        decreases rows.len() - i,
    {
        if i < 0 || i >= rows.len() {
            None
        } else if rows[i].kind@ == kind {
            Some(rows[i].count)
        } else {
            Self::count_from(rows, kind, i + 1)
        }
    }

    /// The number of symbols of the kind named `kind`: the count of the
    /// first row of that kind, none where there is no such row.
    pub fn get(&self, kind: &str) -> (count: Option<usize>)
        ensures
            count == Self::count_from(self.by_kind@, kind@, 0),
    {
        let mut i: usize = 0;
        while i < self.by_kind.len()
            invariant
                i <= self.by_kind@.len(),
                Self::count_from(self.by_kind@, kind@, 0) == Self::count_from(
                    self.by_kind@,
                    kind@,
                    i as int,
                ),
            decreases self.by_kind@.len() - i,
        {
            if crate::text::str_eq(self.by_kind[i].kind.as_str(), kind) {
                return Some(self.by_kind[i].count);
            }
            i += 1;
        }
        None
    }
}

/// The statistics of a search.
#[derive(Debug, Clone)]
pub struct StatsResponse {
    pub summary: StatsSummary,
    pub by_language: Vec<LanguageStats>,
    pub symbols: SymbolStats,
}

/// What is added up over files.
pub enum Tally {
    Files,
    Total,
    Code,
    Blank,
    Comment,
}

/// What one file adds to a tally.
pub open spec fn tally_of(s: FileStatistics, t: Tally) -> nat {
    match t {
        Tally::Files => 1,
        Tally::Total => s.total_lines as nat,
        Tally::Code => s.code_lines as nat,
        Tally::Blank => s.blank_lines as nat,
        Tally::Comment => s.comment_lines as nat,
    }
}

/// The tally over the first `n` files, held to the files of one language
/// where one is given.
pub open spec fn tally(stats: Seq<FileStatistics>, n: int, lang: Option<LanguageId>, t: Tally) -> nat
    decreases n,
{
    if n <= 0 || n > stats.len() {
        0
    } else if lang is None || lang == Some(stats[n - 1].language_id) {
        tally(stats, n - 1, lang, t) + tally_of(stats[n - 1], t)
    } else {
        tally(stats, n - 1, lang, t)
    }
}

/// The symbols among the first `m` counts of a file, held to one kind where
/// one is given.
pub open spec fn symbols_in(counts: Seq<SymbolCount>, m: int, kind: Option<SymbolKind>) -> nat
    decreases m,
{
    if m <= 0 || m > counts.len() {
        0
    } else if kind is None || kind == Some(counts[m - 1].kind) {
        symbols_in(counts, m - 1, kind) + counts[m - 1].count as nat
    } else {
        symbols_in(counts, m - 1, kind)
    }
}

/// The symbols of the first `n` files, held to one kind where one is given.
pub open spec fn symbol_total(stats: Seq<FileStatistics>, n: int, kind: Option<SymbolKind>) -> nat
    decreases n,
{
    if n <= 0 || n > stats.len() {
        0
    } else {
        symbol_total(stats, n - 1, kind) + symbols_in(
            stats[n - 1].symbol_counts@,
            stats[n - 1].symbol_counts@.len() as int,
            kind,
        )
    }
}

/// One of the first `m` counts of a file is of this kind.
pub open spec fn mentions(counts: Seq<SymbolCount>, m: int, kind: SymbolKind) -> bool {
    exists|j: int| 0 <= j < m && j < counts.len() && (#[trigger] counts[j]).kind == kind
}

/// One of the first `n` files counts symbols of this kind.
pub open spec fn kind_present(stats: Seq<FileStatistics>, n: int, kind: SymbolKind) -> bool {
    exists|i: int|
        0 <= i < n && i < stats.len() && mentions(
            (#[trigger] stats[i]).symbol_counts@,
            stats[i].symbol_counts@.len() as int,
            kind,
        )
}

/// All languages, in the order of their declaration.
pub open spec fn all_languages() -> Seq<LanguageId> {
    seq![
        LanguageId::TypeScript,
        LanguageId::TypeScriptReact,
        LanguageId::JavaScript,
        LanguageId::JavaScriptReact,
        LanguageId::Markdown,
        LanguageId::Html,
        LanguageId::Css,
        LanguageId::Python,
        LanguageId::Rust,
        LanguageId::Go,
        LanguageId::Java,
        LanguageId::Sql,
    ]
}

/// All symbol kinds, in the order of their declaration.
pub open spec fn all_kinds() -> Seq<SymbolKind> {
    seq![
        SymbolKind::Function,
        SymbolKind::Class,
        SymbolKind::Method,
        SymbolKind::Interface,
        SymbolKind::Enum,
        SymbolKind::Variable,
        SymbolKind::ArrowFunction,
        SymbolKind::Constructor,
        SymbolKind::TypeAlias,
        SymbolKind::Heading1,
        SymbolKind::Heading2,
        SymbolKind::Heading3,
        SymbolKind::Heading4,
        SymbolKind::Heading5,
        SymbolKind::Heading6,
        SymbolKind::CodeBlock,
        SymbolKind::Link,
        SymbolKind::HtmlElement,
        SymbolKind::HtmlId,
        SymbolKind::HtmlClass,
        SymbolKind::CssClassSelector,
        SymbolKind::CssIdSelector,
        SymbolKind::CssVariable,
        SymbolKind::CssKeyframes,
        SymbolKind::Struct,
        SymbolKind::Trait,
        SymbolKind::Impl,
        SymbolKind::Module,
        SymbolKind::Const,
        SymbolKind::Static,
        SymbolKind::Macro,
        SymbolKind::Table,
        SymbolKind::View,
        SymbolKind::Procedure,
        SymbolKind::Index,
        SymbolKind::Trigger,
        SymbolKind::Column,
    ]
}

fn language_list() -> (list: Vec<LanguageId>)
    ensures
        list@ == all_languages(),
{
    vec![
        LanguageId::TypeScript,
        LanguageId::TypeScriptReact,
        LanguageId::JavaScript,
        LanguageId::JavaScriptReact,
        LanguageId::Markdown,
        LanguageId::Html,
        LanguageId::Css,
        LanguageId::Python,
        LanguageId::Rust,
        LanguageId::Go,
        LanguageId::Java,
        LanguageId::Sql,
    ]
}

fn kind_list() -> (list: Vec<SymbolKind>)
    ensures
        list@ == all_kinds(),
{
    vec![
        SymbolKind::Function,
        SymbolKind::Class,
        SymbolKind::Method,
        SymbolKind::Interface,
        SymbolKind::Enum,
        SymbolKind::Variable,
        SymbolKind::ArrowFunction,
        SymbolKind::Constructor,
        SymbolKind::TypeAlias,
        SymbolKind::Heading1,
        SymbolKind::Heading2,
        SymbolKind::Heading3,
        SymbolKind::Heading4,
        SymbolKind::Heading5,
        SymbolKind::Heading6,
        SymbolKind::CodeBlock,
        SymbolKind::Link,
        SymbolKind::HtmlElement,
        SymbolKind::HtmlId,
        SymbolKind::HtmlClass,
        SymbolKind::CssClassSelector,
        SymbolKind::CssIdSelector,
        SymbolKind::CssVariable,
        SymbolKind::CssKeyframes,
        SymbolKind::Struct,
        SymbolKind::Trait,
        SymbolKind::Impl,
        SymbolKind::Module,
        SymbolKind::Const,
        SymbolKind::Static,
        SymbolKind::Macro,
        SymbolKind::Table,
        SymbolKind::View,
        SymbolKind::Procedure,
        SymbolKind::Index,
        SymbolKind::Trigger,
        SymbolKind::Column,
    ]
}

/// The row of a language.
pub open spec fn language_row(stats: Seq<FileStatistics>, lang: LanguageId) -> LanguageStatsView {
    let n = stats.len() as int;
    LanguageStatsView {
        language: lang.name(),
        file_count: tally(stats, n, Some(lang), Tally::Files),
        total_lines: tally(stats, n, Some(lang), Tally::Total),
        code_lines: tally(stats, n, Some(lang), Tally::Code),
    }
}

/// Where `row` goes among `rows`: behind every row that has at least as many
/// code lines, in front of the first that has fewer.
pub open spec fn place_of(rows: Seq<LanguageStatsView>, row: LanguageStatsView) -> int
    decreases rows.len(),
{
    if rows.len() == 0 || rows[0].code_lines < row.code_lines {
        0
    } else {
        1 + place_of(rows.drop_first(), row)
    }
}

/// The rows of the first `k` languages of `langs` that have files, those
/// with more code lines first; of two with the same number, the one that
/// comes first in `langs`.
pub open spec fn language_rows(stats: Seq<FileStatistics>, langs: Seq<LanguageId>, k: int) -> Seq<
    LanguageStatsView,
>
    decreases k,
{
    if k <= 0 || k > langs.len() {
        seq![]
    } else {
        let rest = language_rows(stats, langs, k - 1);
        let row = language_row(stats, langs[k - 1]);
        if row.file_count > 0 {
            rest.insert(place_of(rest, row), row)
        } else {
            rest
        }
    }
}

/// The counts of the first `k` kinds of `kinds` that some file mentions, in
/// the order of `kinds`.
pub open spec fn kind_rows(stats: Seq<FileStatistics>, kinds: Seq<SymbolKind>, k: int) -> Seq<
    (Seq<char>, nat),
>
    decreases k,
{
    if k <= 0 || k > kinds.len() {
        seq![]
    } else {
        let rest = kind_rows(stats, kinds, k - 1);
        if kind_present(stats, stats.len() as int, kinds[k - 1]) {
            rest.push(
                (kinds[k - 1].name(), symbol_total(stats, stats.len() as int, Some(kinds[k - 1]))),
            )
        } else {
            rest
        }
    }
}

/// The rows are in the order of their code lines, the most first.
pub open spec fn descending(rows: Seq<LanguageStatsView>) -> bool {
    forall|i: int, j: int| 0 <= i < j < rows.len() ==> rows[i].code_lines >= rows[j].code_lines
}

/// The place of a row lies inside the rows, everything in front of it has
/// at least as many code lines, and what stands at it has fewer.
pub proof fn lemma_place_of(rows: Seq<LanguageStatsView>, row: LanguageStatsView)
    ensures
        0 <= place_of(rows, row) <= rows.len(),
        forall|i: int| 0 <= i < place_of(rows, row) ==> rows[i].code_lines >= row.code_lines,
        place_of(rows, row) < rows.len() ==> rows[place_of(rows, row)].code_lines < row.code_lines,
    decreases rows.len(),
{
    if rows.len() == 0 || rows[0].code_lines < row.code_lines {
    } else {
        lemma_place_of(rows.drop_first(), row);
        assert forall|i: int| 0 <= i < place_of(rows, row) implies rows[i].code_lines
            >= row.code_lines by {
            if i > 0 {
                assert(rows.drop_first()[i - 1] == rows[i]);
            }
        }
    }
}

/// The rows of the languages come out in descending order of code lines,
/// and there are no more rows than languages.
pub proof fn lemma_language_rows_descending(
    stats: Seq<FileStatistics>,
    langs: Seq<LanguageId>,
    k: int,
)
    requires
        0 <= k <= langs.len(),
    ensures
        descending(language_rows(stats, langs, k)),
        language_rows(stats, langs, k).len() <= k,
    decreases k,
{
    if k > 0 {
        lemma_language_rows_descending(stats, langs, k - 1);
        let rest = language_rows(stats, langs, k - 1);
        let row = language_row(stats, langs[k - 1]);
        if row.file_count > 0 {
            lemma_place_of(rest, row);
            let p = place_of(rest, row);
            let all = rest.insert(p, row);
            assert forall|i: int, j: int| 0 <= i < j < all.len() implies all[i].code_lines
                >= all[j].code_lines by {
                if j < p {
                    assert(all[i] == rest[i] && all[j] == rest[j]);
                } else if j == p {
                    assert(all[i] == rest[i]);
                } else if i < p {
                    assert(all[i] == rest[i] && all[j] == rest[j - 1]);
                    assert(rest[i].code_lines >= row.code_lines);
                    if p < j - 1 {
                        assert(rest[p].code_lines >= rest[j - 1].code_lines);
                    }
                } else if i == p {
                    assert(all[j] == rest[j - 1]);
                    if p < j - 1 {
                        assert(rest[p].code_lines >= rest[j - 1].code_lines);
                    }
                } else {
                    assert(all[i] == rest[i - 1] && all[j] == rest[j - 1]);
                }
            }
        }
    }
}

/// A tally over some of the files, or over the files of one language, is no
/// more than the tally over all files.
pub proof fn lemma_tally_bound(
    stats: Seq<FileStatistics>,
    n: int,
    lang: Option<LanguageId>,
    t: Tally,
)
    requires
        0 <= n <= stats.len(),
    ensures
        tally(stats, n, lang, t) <= tally(stats, n, None, t),
        tally(stats, n, None, t) <= tally(stats, stats.len() as int, None, t),
    decreases stats.len() - n,
{
    lemma_tally_part(stats, n, lang, t);
    if n < stats.len() {
        lemma_tally_bound(stats, n + 1, lang, t);
    }
}

proof fn lemma_tally_part(stats: Seq<FileStatistics>, n: int, lang: Option<LanguageId>, t: Tally)
    requires
        0 <= n <= stats.len(),
    ensures
        tally(stats, n, lang, t) <= tally(stats, n, None, t),
    decreases n,
{
    if n > 0 {
        lemma_tally_part(stats, n - 1, lang, t);
    }
}

/// The symbols of some of the files, or of one kind, are no more than the
/// symbols of all files.
pub proof fn lemma_symbol_bound(stats: Seq<FileStatistics>, n: int, kind: Option<SymbolKind>)
    requires
        0 <= n <= stats.len(),
    ensures
        symbol_total(stats, n, kind) <= symbol_total(stats, n, None),
        symbol_total(stats, n, None) <= symbol_total(stats, stats.len() as int, None),
    decreases stats.len() - n,
{
    lemma_symbol_part(stats, n, kind);
    if n < stats.len() {
        lemma_symbol_bound(stats, n + 1, kind);
    }
}

proof fn lemma_symbol_part(stats: Seq<FileStatistics>, n: int, kind: Option<SymbolKind>)
    requires
        0 <= n <= stats.len(),
    ensures
        symbol_total(stats, n, kind) <= symbol_total(stats, n, None),
    decreases n,
{
    if n > 0 {
        lemma_symbol_part(stats, n - 1, kind);
        let counts = stats[n - 1].symbol_counts@;
        lemma_symbols_in_part(counts, counts.len() as int, kind);
    }
}

proof fn lemma_symbols_in_part(counts: Seq<SymbolCount>, m: int, kind: Option<SymbolKind>)
    requires
        0 <= m <= counts.len(),
    ensures
        symbols_in(counts, m, kind) <= symbols_in(counts, m, None),
        symbols_in(counts, m, None) <= symbols_in(counts, counts.len() as int, None),
    decreases counts.len() - m,
{
    lemma_symbols_in_less(counts, m, kind);
    if m < counts.len() {
        lemma_symbols_in_part(counts, m + 1, kind);
    }
}

proof fn lemma_symbols_in_less(counts: Seq<SymbolCount>, m: int, kind: Option<SymbolKind>)
    requires
        0 <= m <= counts.len(),
    ensures
        symbols_in(counts, m, kind) <= symbols_in(counts, m, None),
    decreases m,
{
    if m > 0 {
        lemma_symbols_in_less(counts, m - 1, kind);
    }
}

/// The sums of the statistics fit the machine's integers.
pub open spec fn sums_fit(stats: Seq<FileStatistics>) -> bool {
    let n = stats.len() as int;
    &&& tally(stats, n, None, Tally::Total) <= usize::MAX
    &&& tally(stats, n, None, Tally::Code) <= usize::MAX
    &&& tally(stats, n, None, Tally::Blank) <= usize::MAX
    &&& tally(stats, n, None, Tally::Comment) <= usize::MAX
    &&& symbol_total(stats, n, None) <= usize::MAX
}

fn add_up(stats: &Vec<FileStatistics>, lang: Option<LanguageId>, t: Tally) -> (sum: usize)
    requires
        tally(stats@, stats@.len() as int, None, t) <= usize::MAX,
    ensures
        sum == tally(stats@, stats@.len() as int, lang, t),
{
    let mut sum: usize = 0;
    let mut i: usize = 0;
    while i < stats.len()
        invariant
            i <= stats@.len(),
            sum == tally(stats@, i as int, lang, t),
            tally(stats@, stats@.len() as int, None, t) <= usize::MAX,
        decreases stats@.len() - i,
    {
        proof {
            lemma_tally_bound(stats@, i + 1, lang, t);
        }
        let counted = match lang {
            Some(l) => stats[i].language_id == l,
            None => true,
        };
        if counted {
            let more = match t {
                Tally::Files => 1,
                Tally::Total => stats[i].total_lines,
                Tally::Code => stats[i].code_lines,
                Tally::Blank => stats[i].blank_lines,
                Tally::Comment => stats[i].comment_lines,
            };
            sum = sum + more;
        }
        i += 1;
    }
    sum
}

fn count_symbols(stats: &Vec<FileStatistics>, kind: Option<SymbolKind>) -> (r: (usize, bool))
    requires
        symbol_total(stats@, stats@.len() as int, None) <= usize::MAX,
    ensures
        r.0 == symbol_total(stats@, stats@.len() as int, kind),
        kind is Some ==> r.1 == kind_present(stats@, stats@.len() as int, kind->0),
{
    let mut sum: usize = 0;
    let mut present = false;
    let mut i: usize = 0;
    while i < stats.len()
        invariant
            i <= stats@.len(),
            sum == symbol_total(stats@, i as int, kind),
            kind is Some ==> present == kind_present(stats@, i as int, kind->0),
            symbol_total(stats@, stats@.len() as int, None) <= usize::MAX,
        decreases stats@.len() - i,
    {
        let counts = &stats[i].symbol_counts;
        let ghost before = sum;
        let ghost was_present = present;
        let mut j: usize = 0;
        let mut here: usize = 0;
        let mut mentioned = false;
        proof {
            lemma_symbol_bound(stats@, i + 1, kind);
        }
        while j < counts.len()
            invariant
                j <= counts@.len(),
                here == symbols_in(counts@, j as int, kind),
                kind is Some ==> mentioned == mentions(counts@, j as int, kind->0),
                symbols_in(counts@, counts@.len() as int, kind) <= usize::MAX,
            decreases counts@.len() - j,
        {
            proof {
                lemma_symbols_in_step(counts@, j + 1, kind);
            }
            let counted = match kind {
                Some(k) => counts[j].kind == k,
                None => true,
            };
            if counted {
                here = here + counts[j].count;
                mentioned = true;
            }
            j += 1;
        }
        sum = sum + here;
        if mentioned {
            present = true;
        }
        proof {
            if kind is Some {
                let k = kind->0;
                if mentioned {
                    assert(mentions(stats@[i as int].symbol_counts@, counts@.len() as int, k));
                }
                if kind_present(stats@, i + 1, k) && !was_present {
                    let w = choose|w: int|
                        0 <= w < i + 1 && w < stats@.len() && mentions(
                            (#[trigger] stats@[w]).symbol_counts@,
                            stats@[w].symbol_counts@.len() as int,
                            k,
                        );
                    assert(w == i);
                }
            }
        }
        i += 1;
    }
    (sum, present)
}

proof fn lemma_symbols_in_step(counts: Seq<SymbolCount>, m: int, kind: Option<SymbolKind>)
    requires
        0 <= m <= counts.len(),
    ensures
        symbols_in(counts, m, kind) <= symbols_in(counts, counts.len() as int, kind),
    decreases counts.len() - m,
{
    if m < counts.len() {
        lemma_symbols_in_step(counts, m + 1, kind);
    }
}

/// Whether the sums of these statistics fit the machine's integers, so that
/// they can be aggregated.
pub fn statistics_fit(file_stats: &Vec<FileStatistics>) -> (b: bool)
    ensures
        b == sums_fit(file_stats@),
{
    let mut total: usize = 0;
    let mut code: usize = 0;
    let mut blank: usize = 0;
    let mut comment: usize = 0;
    let mut symbols: usize = 0;
    let mut i: usize = 0;
    let ghost n = file_stats@.len() as int;
    while i < file_stats.len()
        invariant
            i <= file_stats@.len(),
            n == file_stats@.len(),
            total == tally(file_stats@, i as int, None, Tally::Total),
            code == tally(file_stats@, i as int, None, Tally::Code),
            blank == tally(file_stats@, i as int, None, Tally::Blank),
            comment == tally(file_stats@, i as int, None, Tally::Comment),
            symbols == symbol_total(file_stats@, i as int, None),
        decreases file_stats@.len() - i,
    {
        let s = &file_stats[i];
        proof {
            lemma_tally_bound(file_stats@, i + 1, None, Tally::Total);
            lemma_tally_bound(file_stats@, i + 1, None, Tally::Code);
            lemma_tally_bound(file_stats@, i + 1, None, Tally::Blank);
            lemma_tally_bound(file_stats@, i + 1, None, Tally::Comment);
            lemma_symbol_bound(file_stats@, i + 1, None);
        }
        let mut here: usize = 0;
        let mut j: usize = 0;
        while j < s.symbol_counts.len()
            invariant
                j <= s.symbol_counts@.len(),
                i < file_stats@.len(),
                s == file_stats@[i as int],
                here == symbols_in(s.symbol_counts@, j as int, None),
            decreases s.symbol_counts@.len() - j,
        {
            proof {
                lemma_symbols_in_step(s.symbol_counts@, j + 1, None);
            }
            if s.symbol_counts[j].count > usize::MAX - here {
                proof {
                    lemma_symbol_bound(file_stats@, i + 1, None);
                }
                return false;
            }
            here = here + s.symbol_counts[j].count;
            j += 1;
        }
        if s.total_lines > usize::MAX - total || s.code_lines > usize::MAX - code || s.blank_lines
            > usize::MAX - blank || s.comment_lines > usize::MAX - comment || here > usize::MAX
            - symbols {
            return false;
        }
        total = total + s.total_lines;
        code = code + s.code_lines;
        blank = blank + s.blank_lines;
        comment = comment + s.comment_lines;
        symbols = symbols + here;
        i += 1;
    }
    true
}

/// Adds the statistics of the files of a search up: the totals, the totals
/// of each language that has files, those with more code lines first, and
/// the number of symbols of each kind that a file mentions.
pub fn aggregate_statistics(file_stats: Vec<FileStatistics>) -> (response: StatsResponse)
    requires
        sums_fit(file_stats@),
    ensures
        ({
            let n = file_stats@.len() as int;
            &&& response.summary.total_files == n
            &&& response.summary.total_lines == tally(file_stats@, n, None, Tally::Total)
            &&& response.summary.code_lines == tally(file_stats@, n, None, Tally::Code)
            &&& response.summary.blank_lines == tally(file_stats@, n, None, Tally::Blank)
            &&& response.summary.comment_lines == tally(file_stats@, n, None, Tally::Comment)
            &&& response.summary.total_symbols == symbol_total(file_stats@, n, None)
            &&& response.summary.languages_count == response.by_language@.len()
            &&& row_views(response.by_language@) == language_rows(
                file_stats@,
                all_languages(),
                all_languages().len() as int,
            )
            &&& kind_views(response.symbols.by_kind@) == kind_rows(
                file_stats@,
                all_kinds(),
                all_kinds().len() as int,
            )
        }),
{
    let ghost stats = file_stats@;
    let ghost n = stats.len() as int;
    let total_files = file_stats.len();
    let total_lines = add_up(&file_stats, None, Tally::Total);
    let code_lines = add_up(&file_stats, None, Tally::Code);
    let blank_lines = add_up(&file_stats, None, Tally::Blank);
    let comment_lines = add_up(&file_stats, None, Tally::Comment);
    let (total_symbols, _) = count_symbols(&file_stats, None);

    let languages = language_list();
    let mut by_language: Vec<LanguageStats> = Vec::new();
    let mut k: usize = 0;
    assert(row_views(by_language@) =~= Seq::<LanguageStatsView>::empty());
    while k < languages.len()
        invariant
            k <= languages@.len(),
            languages@ == all_languages(),
            stats == file_stats@,
            n == stats.len(),
            n == total_files,
            sums_fit(stats),
            row_views(by_language@) == language_rows(stats, all_languages(), k as int),
        decreases languages@.len() - k,
    {
        let lang = languages[k];
        proof {
            lemma_tally_bound(stats, n, Some(lang), Tally::Files);
            lemma_tally_bound(stats, n, Some(lang), Tally::Total);
            lemma_tally_bound(stats, n, Some(lang), Tally::Code);
            lemma_files_bound(stats, n);
        }
        let file_count = add_up(&file_stats, Some(lang), Tally::Files);
        if file_count > 0 {
            let row = LanguageStats {
                language: lang.to_string(),
                file_count,
                total_lines: add_up(&file_stats, Some(lang), Tally::Total),
                code_lines: add_up(&file_stats, Some(lang), Tally::Code),
            };
            assert(row@ == language_row(stats, lang));
            let ghost rows = row_views(by_language@);
            let mut p: usize = 0;
            assert(rows.skip(0) =~= rows);
            while p < by_language.len() && by_language[p].code_lines >= row.code_lines
                invariant
                    p <= by_language@.len(),
                    rows == row_views(by_language@),
                    place_of(rows, row@) == p + place_of(rows.skip(p as int), row@),
                decreases by_language@.len() - p,
            {
                assert(rows.skip(p as int)[0] == rows[p as int]);
                assert(rows.skip(p as int).drop_first() =~= rows.skip(p + 1));
                p += 1;
            }
            proof {
                if p < by_language@.len() {
                    assert(rows.skip(p as int)[0] == rows[p as int]);
                } else {
                    assert(rows.skip(p as int).len() == 0);
                }
            }
            let ghost view = row@;
            by_language.insert(p, row);
            assert(row_views(by_language@) =~= rows.insert(p as int, view));
        }
        k += 1;
    }

    let kinds = kind_list();
    let mut by_kind: Vec<KindCount> = Vec::new();
    let mut k: usize = 0;
    assert(kind_views(by_kind@) =~= Seq::<(Seq<char>, nat)>::empty());
    while k < kinds.len()
        invariant
            k <= kinds@.len(),
            kinds@ == all_kinds(),
            stats == file_stats@,
            n == stats.len(),
            sums_fit(stats),
            kind_views(by_kind@) == kind_rows(stats, all_kinds(), k as int),
        decreases kinds@.len() - k,
    {
        let kind = kinds[k];
        let (count, present) = count_symbols(&file_stats, Some(kind));
        if present {
            let ghost before = kind_views(by_kind@);
            let row = KindCount { kind: kind.to_string(), count };
            by_kind.push(row);
            assert(kind_views(by_kind@) =~= before.push((kind.name(), count as nat)));
        }
        k += 1;
    }

    let languages_count = by_language.len();
    StatsResponse {
        summary: StatsSummary {
            total_files,
            total_lines,
            code_lines,
            blank_lines,
            comment_lines,
            total_symbols,
            languages_count,
        },
        by_language,
        symbols: SymbolStats { by_kind },
    }
}

proof fn lemma_files_bound(stats: Seq<FileStatistics>, n: int)
    requires
        0 <= n <= stats.len(),
    ensures
        tally(stats, n, None, Tally::Files) == n,
    decreases n,
{
    if n > 0 {
        lemma_files_bound(stats, n - 1);
    }
}

} // verus!
