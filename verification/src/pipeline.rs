//! The search pipeline: the collectors that turn one file into facts, the
//! choice of the files to read, and the merging of what each file gave.

use crate::cache::{share, CachedContent, CachedTree, ParserCache};
use crate::comment::{comments_in, find_comments_in_file, slash_prefix, Scan};
use crate::config::{texts, CodeScopeConfig};
use crate::definition::{
    collect_definitions, definitions_from, smallest_from, symbol_at_location, DefinitionSearch,
};
use crate::gather::{
    flatten_captures, flattened, gather_matches, gathered, Chains, ChainsView,
};
use crate::language::{path_language, LanguageId};
use crate::parser::{CachedParser, ParseError};
use crate::registry::LanguageRegistry;
use crate::sql_comment::{comments_from, extract_sql_comments};
use crate::syntax::CapturedNodeView;
use crate::text::str_eq;
use crate::types::{
    definition_views, match_views, usage_views, CommentMatch, SymbolDefinition,
    SymbolDefinitionView, SymbolUsage, SymbolUsageView, UsageKind,
};
use crate::usage::{collect_usages, search_of, usages_of, UsageSearch};
use std::sync::Arc;
use tree_sitter::Tree;
use vstd::prelude::*;

verus! {

/// The lower-case form of a text, as `str::to_lowercase` gives it.
pub uninterp spec fn lowercase_of(s: Seq<char>) -> Seq<char>;

/// `str::to_lowercase` gives the lower-case form of a text.
#[verifier::external_body]
fn to_lowercase(s: &str) -> (lower: String)
    ensures
        lower@ == lowercase_of(s@),
{
    s.to_lowercase()
}

/// The language that a lower-case name stands for in a language filter.
pub open spec fn named_language(lower: Seq<char>) -> Option<LanguageId> {
    if lower == "typescript"@ || lower == "ts"@ {
        Some(LanguageId::TypeScript)
    } else if lower == "typescriptreact"@ || lower == "tsx"@ {
        Some(LanguageId::TypeScriptReact)
    } else if lower == "markdown"@ || lower == "md"@ {
        Some(LanguageId::Markdown)
    } else {
        None
    }
}

/// The language that a name in lower case stands for.
pub fn language_id_from_name(lower: &str) -> (id: Option<LanguageId>)
    ensures
        id == named_language(lower@),
{
    if str_eq(lower, "typescript") || str_eq(lower, "ts") {
        Some(LanguageId::TypeScript)
    } else if str_eq(lower, "typescriptreact") || str_eq(lower, "tsx") {
        Some(LanguageId::TypeScriptReact)
    } else if str_eq(lower, "markdown") || str_eq(lower, "md") {
        Some(LanguageId::Markdown)
    } else {
        None
    }
}

/// The language that a name stands for, whatever the case of its letters.
pub fn parse_language_id(name: &str) -> (id: Option<LanguageId>)
    ensures
        id == named_language(lowercase_of(name@)),
{
    let lower = to_lowercase(name);
    language_id_from_name(lower.as_str())
}

/// The definitions of `symbol` that a file holds, given the matches of the
/// language's definitions query. In a language that keeps documentation in
/// statements of its own, the documentation comes from those of the matches
/// that are such statements.
pub open spec fn file_definitions(
    file: Seq<char>,
    source: Seq<char>,
    symbol: Seq<char>,
    include_docs: bool,
    id: LanguageId,
    matches: Seq<Seq<CapturedNodeView>>,
) -> Seq<SymbolDefinitionView> {
    definitions_from(
        DefinitionSearch {
            file,
            source,
            include_docs,
            separate_docs: if include_docs && id.separate_docs() {
                Some(comments_from(matches, matches.len() as int))
            } else {
                None
            },
            table: id.mapping_table(),
        },
        symbol,
        matches,
        0,
    )
}

/// The usages among `usages` that are of kind `kind`, in order.
pub open spec fn of_kind(usages: Seq<SymbolUsageView>, kind: UsageKind) -> Seq<SymbolUsageView>
    decreases usages.len(),
{
    if usages.len() == 0 {
        seq![]
    } else if usages.last().usage_kind == kind {
        of_kind(usages.drop_last(), kind).push(usages.last())
    } else {
        of_kind(usages.drop_last(), kind)
    }
}

/// What is kept is of the kind asked for, and is no more than there was.
pub proof fn lemma_of_kind(usages: Seq<SymbolUsageView>, kind: UsageKind)
    ensures
        of_kind(usages, kind).len() <= usages.len(),
        forall|i: int|
            0 <= i < of_kind(usages, kind).len() ==> (#[trigger] of_kind(usages, kind)[i]).usage_kind
                == kind && usages.contains(of_kind(usages, kind)[i]),
    decreases usages.len(),
{
    if usages.len() > 0 {
        lemma_of_kind(usages.drop_last(), kind);
        let rest = of_kind(usages.drop_last(), kind);
        assert forall|i: int| 0 <= i < of_kind(usages, kind).len() implies (#[trigger] of_kind(
            usages,
            kind,
        )[i]).usage_kind == kind && usages.contains(of_kind(usages, kind)[i]) by {
            if i < rest.len() {
                let j = choose|j: int| 0 <= j < usages.drop_last().len() && usages.drop_last()[j] == rest[i];
                assert(usages[j] == rest[i]);
            } else {
                assert(usages[usages.len() - 1] == usages.last());
            }
        }
    }
}

/// Keeps the usages of one kind.
pub fn keep_kind(usages: Vec<SymbolUsage>, kind: UsageKind) -> (kept: Vec<SymbolUsage>)
    ensures
        usage_views(kept@) == of_kind(usage_views(usages@), kind),
{
    let ghost all = usage_views(usages@);
    let mut kept: Vec<SymbolUsage> = Vec::new();
    assert(usage_views(kept@) =~= Seq::<SymbolUsageView>::empty());
    assert(all.take(0) =~= Seq::<SymbolUsageView>::empty());
    for usage in it: usages
        invariant
            all == usage_views(it.seq()),
            usage_views(kept@) == of_kind(all.take(it.index() as int), kind),
    {
        proof {
            let k = it.index() as int;
            assert(all.take(k + 1).drop_last() =~= all.take(k));
            assert(all.take(k + 1).last() == usage@);
        }
        let ghost before = usage_views(kept@);
        if usage.usage_kind == kind {
            let ghost v = usage@;
            kept.push(usage);
            assert(usage_views(kept@) =~= before.push(v));
        }
    }
    assert(all.take(all.len() as int) =~= all);
    kept
}

/// How a parse fails: with the supported extensions for a file of no
/// registered language, and with the parser's refusal of the grammar
/// otherwise.
pub open spec fn parse_failure(parser: CachedParser, path: Seq<char>, e: ParseError) -> bool {
    if parser.spec_registry().supports(path) {
        e is LanguageRejected
    } else {
        e.is_unsupported(path, parser.spec_registry())
    }
}

/// For which captured nodes of a definitions query the enclosing nodes are
/// read: for column definitions where documentation is asked for in a
/// language that keeps it in statements of its own.
pub open spec fn definition_chains(include_docs: bool, id: LanguageId) -> ChainsView {
    if include_docs && id.separate_docs() {
        ChainsView::Named { capture: "definition.column"@ }
    } else {
        ChainsView::Skip
    }
}

/// Turns one file into facts of one kind.
pub trait ResultCollector {
    /// The kind of fact that is collected.
    type Item;

    /// What `process_file` gives for the file at `path` with `content`,
    /// what it leaves in the cache of trees, and the language that it leaves
    /// the parser set to, when it is called with `parser` and a cache that
    /// holds `before`.
    spec fn outcome(
        &self,
        parser: CachedParser,
        before: Map<Seq<char>, CachedTree>,
        path: Seq<char>,
        content: CachedContent,
        r: Result<Vec<Self::Item>, ParseError>,
        after: Map<Seq<char>, CachedTree>,
        set_to: Option<LanguageId>,
    ) -> bool;

    /// Collects the facts of the file at `path`, whose content was read at
    /// the modification time that comes with it. Trees are looked up and
    /// stored in `cache`.
    fn process_file(
        &self,
        parser: &mut CachedParser,
        cache: &mut ParserCache,
        path: &str,
        content: &CachedContent,
    ) -> (r: Result<Vec<Self::Item>, ParseError>)
        requires
            old(cache).wf(),
            old(parser).wf(),
        ensures
            final(cache).wf(),
            final(parser).wf(),
            final(parser).spec_registry() == old(parser).spec_registry(),
            self.outcome(
                *old(parser),
                old(cache)@,
                path@,
                *content,
                r,
                final(cache)@,
                final(parser).inner().current(),
            ),
    ;
}

/// Collects the definitions of a symbol.
pub struct DefinitionCollector {
    pub symbol: String,
    pub include_docs: bool,
}

impl DefinitionCollector {
    /// The definitions of the symbol in the file at `path` with the text
    /// `source` and the syntax tree `tree`: what the language's definitions
    /// query finds there, turned into definitions.
    pub open spec fn found(
        &self,
        registry: LanguageRegistry,
        path: Seq<char>,
        source: Seq<char>,
        tree: Tree,
    ) -> Seq<SymbolDefinitionView> {
        let id = path_language(path)->0;
        file_definitions(
            path,
            source,
            self.symbol@,
            self.include_docs,
            id,
            gathered(
                registry.support(id).definitions(),
                &tree,
                source,
                definition_chains(self.include_docs, id),
            ),
        )
    }
}

impl ResultCollector for DefinitionCollector {
    type Item = SymbolDefinition;

    open spec fn outcome(
        &self,
        parser: CachedParser,
        before: Map<Seq<char>, CachedTree>,
        path: Seq<char>,
        content: CachedContent,
        r: Result<Vec<SymbolDefinition>, ParseError>,
        after: Map<Seq<char>, CachedTree>,
        set_to: Option<LanguageId>,
    ) -> bool {
        &&& after == parser.cache_served(before, path, content.content@, content.modified_time)
        &&& set_to == parser.set_after(before, path, content.modified_time)
        &&& match parser.tree_served(before, path, content.content@, content.modified_time) {
            Some(tree) => r is Ok && definition_views(r->Ok_0@) == self.found(
                parser.spec_registry(),
                path,
                content.content@,
                tree,
            ),
            None => r is Err && parse_failure(parser, path, r->Err_0),
        }
    }

    /// The definitions of the symbol in one file. Succeeds where the tree
    /// is cached or the file can be parsed; a file of no registered language
    /// is refused.
    fn process_file(
        &self,
        parser: &mut CachedParser,
        cache: &mut ParserCache,
        path: &str,
        content: &CachedContent,
    ) -> (r: Result<Vec<SymbolDefinition>, ParseError>) {
        let source = content.content.as_str();
        let (tree, id) = match parser.parse_with_language(
            cache,
            path,
            source,
            content.modified_time,
        ) {
            Ok(parsed) => parsed,
            Err(e) => {
                return Err(e);
            },
        };
        let language = match parser.registry().get(id) {
            Some(language) => language,
            None => {
                return Err(ParseError::ParseFailed);
            },
        };
        let separate = self.include_docs && language.uses_separate_docs();
        let chains = if separate {
            Chains::Named { capture: "definition.column".to_owned() }
        } else {
            Chains::Skip
        };
        let matches = gather_matches(language.definitions_query(), &tree, source, &chains);
        let table = language.definition_mappings();
        let definitions = if separate {
            let comments = extract_sql_comments(&matches);
            collect_definitions(
                path,
                source,
                self.symbol.as_str(),
                self.include_docs,
                Some(&comments),
                &table,
                &matches,
            )
        } else {
            collect_definitions(
                path,
                source,
                self.symbol.as_str(),
                self.include_docs,
                None,
                &table,
                &matches,
            )
        };
        Ok(definitions)
    }
}

/// Collects the usages of a symbol.
pub struct UsageCollector {
    pub symbol: String,
    pub include_imports: bool,
    pub max_contexts: usize,
    pub object_filter: Option<String>,
}

/// The nodes that the usages query of a language captures in a file, as
/// records, in the order of the matches. The enclosing nodes are read for the
/// nodes captured as `usage` whose text is the symbol.
pub open spec fn usage_sites(
    registry: LanguageRegistry,
    path: Seq<char>,
    source: Seq<char>,
    tree: Tree,
    symbol: Seq<char>,
) -> Seq<CapturedNodeView> {
    flattened(
        gathered(
            registry.support(path_language(path)->0).usages(),
            &tree,
            source,
            ChainsView::NamedWithText { capture: "usage"@, text: symbol },
        ),
    )
}

/// What a collector of usages gives and leaves: the usages of `search`
/// among the sites of the file, held to one kind where one is given.
pub open spec fn usage_outcome(
    search: UsageSearch,
    kind: Option<UsageKind>,
    parser: CachedParser,
    before: Map<Seq<char>, CachedTree>,
    path: Seq<char>,
    content: CachedContent,
    r: Result<Vec<SymbolUsage>, ParseError>,
    after: Map<Seq<char>, CachedTree>,
    set_to: Option<LanguageId>,
) -> bool {
    &&& after == parser.cache_served(before, path, content.content@, content.modified_time)
    &&& set_to == parser.set_after(before, path, content.modified_time)
    &&& match parser.tree_served(before, path, content.content@, content.modified_time) {
        Some(tree) => {
            let all = usages_of(
                search,
                usage_sites(parser.spec_registry(), path, content.content@, tree, search.symbol),
            );
            r is Ok && usage_views(r->Ok_0@) == match kind {
                Some(k) => of_kind(all, k),
                None => all,
            }
        },
        None => r is Err && parse_failure(parser, path, r->Err_0),
    }
}

impl UsageCollector {
    /// What the collector searches for in the file `file`.
    pub open spec fn search(&self, file: Seq<char>) -> UsageSearch {
        search_of(file, self.symbol@, self.include_imports, self.max_contexts, self.object_filter)
    }
}

impl ResultCollector for UsageCollector {
    type Item = SymbolUsage;

    open spec fn outcome(
        &self,
        parser: CachedParser,
        before: Map<Seq<char>, CachedTree>,
        path: Seq<char>,
        content: CachedContent,
        r: Result<Vec<SymbolUsage>, ParseError>,
        after: Map<Seq<char>, CachedTree>,
        set_to: Option<LanguageId>,
    ) -> bool {
        usage_outcome(self.search(path), None, parser, before, path, content, r, after, set_to)
    }

    /// The usages of the symbol in one file: the nodes that the language's
    /// usages query captured there, turned into usages. Succeeds where the
    /// tree is cached or the file can be parsed.
    fn process_file(
        &self,
        parser: &mut CachedParser,
        cache: &mut ParserCache,
        path: &str,
        content: &CachedContent,
    ) -> (r: Result<Vec<SymbolUsage>, ParseError>) {
        let source = content.content.as_str();
        let (tree, id) = match parser.parse_with_language(
            cache,
            path,
            source,
            content.modified_time,
        ) {
            Ok(parsed) => parsed,
            Err(e) => {
                return Err(e);
            },
        };
        let language = match parser.registry().get(id) {
            Some(language) => language,
            None => {
                return Err(ParseError::ParseFailed);
            },
        };
        let chains = Chains::NamedWithText {
            capture: "usage".to_owned(),
            text: self.symbol.clone(),
        };
        let matches = gather_matches(language.usages_query(), &tree, source, &chains);
        let sites = flatten_captures(matches);
        let usages = collect_usages(
            path,
            self.symbol.as_str(),
            self.include_imports,
            self.max_contexts,
            &self.object_filter,
            &sites,
        );
        Ok(usages)
    }
}

/// Collects the calls of a method, on any object or on one.
pub struct MethodCallCollector {
    pub method_name: String,
    pub object_name: Option<String>,
}

impl MethodCallCollector {
    /// The search for usages that finds the calls: imports are left out, no
    /// contexts are reported, and the object is the filter.
    pub open spec fn search(&self, file: Seq<char>) -> UsageSearch {
        search_of(file, self.method_name@, false, 0, self.object_name)
    }
}

impl ResultCollector for MethodCallCollector {
    type Item = SymbolUsage;

    open spec fn outcome(
        &self,
        parser: CachedParser,
        before: Map<Seq<char>, CachedTree>,
        path: Seq<char>,
        content: CachedContent,
        r: Result<Vec<SymbolUsage>, ParseError>,
        after: Map<Seq<char>, CachedTree>,
        set_to: Option<LanguageId>,
    ) -> bool {
        usage_outcome(
            self.search(path),
            Some(UsageKind::MethodCall),
            parser,
            before,
            path,
            content,
            r,
            after,
            set_to,
        )
    }

    /// The method calls in one file: the usages of the method's name that
    /// are classified as method calls.
    fn process_file(
        &self,
        parser: &mut CachedParser,
        cache: &mut ParserCache,
        path: &str,
        content: &CachedContent,
    ) -> (r: Result<Vec<SymbolUsage>, ParseError>) {
        let collector = UsageCollector {
            symbol: self.method_name.clone(),
            include_imports: false,
            max_contexts: 0,
            object_filter: self.object_name.clone(),
        };
        assert(collector.search(path@) == self.search(path@));
        match collector.process_file(parser, cache, path, content) {
            Ok(usages) => Ok(keep_kind(usages, UsageKind::MethodCall)),
            Err(e) => Err(e),
        }
    }
}

/// Collects the imports of a symbol.
pub struct ImportCollector {
    pub symbol: String,
}

impl ImportCollector {
    /// The search for usages that finds the imports: imports are included,
    /// no contexts are reported, no object is asked for.
    pub open spec fn search(&self, file: Seq<char>) -> UsageSearch {
        search_of(file, self.symbol@, true, 0, None)
    }
}

impl ResultCollector for ImportCollector {
    type Item = SymbolUsage;

    open spec fn outcome(
        &self,
        parser: CachedParser,
        before: Map<Seq<char>, CachedTree>,
        path: Seq<char>,
        content: CachedContent,
        r: Result<Vec<SymbolUsage>, ParseError>,
        after: Map<Seq<char>, CachedTree>,
        set_to: Option<LanguageId>,
    ) -> bool {
        usage_outcome(
            self.search(path),
            Some(UsageKind::Import),
            parser,
            before,
            path,
            content,
            r,
            after,
            set_to,
        )
    }

    /// The imports in one file: the usages of the symbol that stand inside
    /// an import.
    fn process_file(
        &self,
        parser: &mut CachedParser,
        cache: &mut ParserCache,
        path: &str,
        content: &CachedContent,
    ) -> (r: Result<Vec<SymbolUsage>, ParseError>) {
        let collector = UsageCollector {
            symbol: self.symbol.clone(),
            include_imports: true,
            max_contexts: 0,
            object_filter: None,
        };
        assert(collector.search(path@) == self.search(path@));
        match collector.process_file(parser, cache, path, content) {
            Ok(usages) => Ok(keep_kind(usages, UsageKind::Import)),
            Err(e) => Err(e),
        }
    }
}

/// Collects the comments that hold a text.
pub struct CommentCollector {
    pub text: String,
}

impl ResultCollector for CommentCollector {
    type Item = CommentMatch;

    open spec fn outcome(
        &self,
        parser: CachedParser,
        before: Map<Seq<char>, CachedTree>,
        path: Seq<char>,
        content: CachedContent,
        r: Result<Vec<CommentMatch>, ParseError>,
        after: Map<Seq<char>, CachedTree>,
        set_to: Option<LanguageId>,
    ) -> bool {
        &&& after == before
        &&& set_to == parser.inner().current()
        &&& r is Ok
        &&& match_views(r->Ok_0@) == comments_in(
            Scan { file: path, prefix: slash_prefix(), search: self.text@ },
            content.content@,
        )
    }

    /// The comments of one file that hold the text. The file is scanned as
    /// text; it is not parsed.
    fn process_file(
        &self,
        parser: &mut CachedParser,
        cache: &mut ParserCache,
        path: &str,
        content: &CachedContent,
    ) -> (r: Result<Vec<CommentMatch>, ParseError>) {
        Ok(find_comments_in_file(path, content.content.as_str(), self.text.as_str()))
    }
}

/// A file that was picked for a search, with its content where it could be
/// read.
pub struct LoadedFile {
    pub path: String,
    pub content: Option<CachedContent>,
}

/// What the files gave, one list after the other; a file that gave nothing
/// adds nothing.
pub open spec fn merged<T>(outcomes: Seq<Option<Seq<T>>>) -> Seq<T>
    decreases outcomes.len(),
{
    if outcomes.len() == 0 {
        seq![]
    } else {
        merged(outcomes.drop_last()) + match outcomes.last() {
            Some(items) => items,
            None => seq![],
        }
    }
}

/// The items of each list as a sequence.
pub open spec fn outcome_views<T>(outcomes: Seq<Option<Vec<T>>>) -> Seq<Option<Seq<T>>> {
    outcomes.map_values(
        |o: Option<Vec<T>>|
            match o {
                Some(items) => Some(items@),
                None => None,
            },
    )
}

/// Merges what each file gave into one list, in the order of the files. A
/// file that failed is given as `None`.
pub fn merge_results<T>(outcomes: Vec<Option<Vec<T>>>) -> (all: Vec<T>)
    ensures
        all@ == merged(outcome_views(outcomes@)),
{
    let ghost views = outcome_views(outcomes@);
    let mut all: Vec<T> = Vec::new();
    assert(views.take(0) =~= Seq::<Option<Seq<T>>>::empty());
    for outcome in it: outcomes
        invariant
            views == outcome_views(it.seq()),
            all@ == merged(views.take(it.index() as int)),
    {
        proof {
            let k = it.index() as int;
            assert(views.take(k + 1).drop_last() =~= views.take(k));
            assert(views.take(k + 1).last() == views[k]);
        }
        match outcome {
            Some(items) => {
                let mut items = items;
                all.append(&mut items);
            },
            None => {
                assert(all@ + Seq::<T>::empty() =~= all@);
            },
        }
    }
    assert(views.take(views.len() as int) =~= views);
    all
}

/// Merging is additive: what two runs of files gave, one after the other, is
/// what the first gave followed by what the second gave.
pub proof fn lemma_merged_concat<T>(a: Seq<Option<Seq<T>>>, b: Seq<Option<Seq<T>>>)
    ensures
        merged(a + b) == merged(a) + merged(b),
    decreases b.len(),
{
    if b.len() == 0 {
        assert(a + b =~= a);
        assert(merged(a) + Seq::<T>::empty() =~= merged(a));
    } else {
        lemma_merged_concat(a, b.drop_last());
        assert((a + b).drop_last() =~= a + b.drop_last());
        assert((a + b).last() == b.last());
        let tail = match b.last() {
            Some(items) => items,
            None => seq![],
        };
        assert((merged(a) + merged(b.drop_last())) + tail =~= merged(a) + (merged(b.drop_last())
            + tail));
    }
}

/// A file that fails takes nothing from the others: the result of a run is
/// the result of the same run without the failed file.
pub proof fn lemma_pipeline_isolation<T>(outcomes: Seq<Option<Seq<T>>>, failed: int)
    requires
        0 <= failed < outcomes.len(),
        outcomes[failed] is None,
    ensures
        merged(outcomes) == merged(outcomes.remove(failed)),
{
    let before = outcomes.take(failed);
    let after = outcomes.skip(failed + 1);
    let one: Seq<Option<Seq<T>>> = seq![outcomes[failed]];
    assert(outcomes =~= before + one + after);
    assert(outcomes.remove(failed) =~= before + after);
    lemma_merged_concat(before + one, after);
    lemma_merged_concat(before, one);
    lemma_merged_concat(before, after);
    assert(one.drop_last() =~= Seq::<Option<Seq<T>>>::empty());
    assert(merged(one.drop_last()) =~= Seq::<T>::empty());
    assert(merged(one) =~= Seq::<T>::empty());
    assert(merged(before) + Seq::<T>::empty() =~= merged(before));
}

/// What every file that succeeded gave is part of the result, whole and in
/// one piece.
pub proof fn lemma_pipeline_keeps<T>(outcomes: Seq<Option<Seq<T>>>, k: int)
    requires
        0 <= k < outcomes.len(),
        outcomes[k] is Some,
    ensures
        ({
            let start = merged(outcomes.take(k)).len() as int;
            let items = outcomes[k]->0;
            start + items.len() <= merged(outcomes).len() && merged(outcomes).subrange(
                start,
                start + items.len(),
            ) == items
        }),
{
    let before = outcomes.take(k);
    let after = outcomes.skip(k + 1);
    let one: Seq<Option<Seq<T>>> = seq![outcomes[k]];
    assert(outcomes =~= before + one + after);
    lemma_merged_concat(before + one, after);
    lemma_merged_concat(before, one);
    assert(one.drop_last() =~= Seq::<Option<Seq<T>>>::empty());
    assert(merged(one.drop_last()) =~= Seq::<T>::empty());
    assert(merged(one) =~= outcomes[k]->0);
    assert(merged(outcomes) =~= merged(before) + outcomes[k]->0 + merged(after));
    assert(merged(outcomes).subrange(
        merged(before).len() as int,
        merged(before).len() as int + (outcomes[k]->0).len(),
    ) =~= outcomes[k]->0);
}

/// `files` are some of `candidates`, in the order of `candidates`: `at` gives
/// the place of each among the candidates.
pub open spec fn chosen_at(files: Seq<Seq<char>>, candidates: Seq<Seq<char>>, at: Seq<int>) -> bool {
    &&& at.len() == files.len()
    &&& forall|i: int|
        0 <= i < at.len() ==> 0 <= #[trigger] at[i] < candidates.len() && candidates[at[i]]
            == files[i]
    &&& forall|i: int, j: int| 0 <= i < j < at.len() ==> at[i] < at[j]
}

/// Picks the files of a workspace that a search reads, and runs a collector
/// over them.
pub struct FilePipeline {
    registry: Arc<LanguageRegistry>,
    workspace_root: String,
    config: CodeScopeConfig,
    additional_excludes: Option<Vec<String>>,
    language_filter: Option<LanguageId>,
}

impl FilePipeline {
    /// The languages that the pipeline knows.
    pub closed spec fn spec_registry(&self) -> LanguageRegistry {
        *self.registry
    }

    /// The configuration of the search.
    pub closed spec fn spec_config(&self) -> CodeScopeConfig {
        self.config
    }

    /// The directories that the caller excludes beyond the configuration.
    pub closed spec fn excludes(&self) -> Option<Vec<String>> {
        self.additional_excludes
    }

    /// The one language that is searched, if the search is held to one.
    pub closed spec fn filter(&self) -> Option<LanguageId> {
        self.language_filter
    }

    /// The directory that is searched.
    pub closed spec fn root(&self) -> Seq<char> {
        self.workspace_root@
    }

    /// A pipeline over `workspace_root` without further exclusions and
    /// without a language filter.
    pub fn new(registry: Arc<LanguageRegistry>, workspace_root: String, config: CodeScopeConfig) -> (p:
        Self)
        ensures
            p.spec_registry() == *registry,
            p.root() == workspace_root@,
            p.spec_config() == config,
            p.excludes() is None,
            p.filter() is None,
    {
        FilePipeline {
            registry,
            workspace_root,
            config,
            additional_excludes: None,
            language_filter: None,
        }
    }

    /// The same pipeline with further directories to exclude.
    pub fn with_excludes(self, excludes: Option<Vec<String>>) -> (p: Self)
        ensures
            p.spec_registry() == self.spec_registry(),
            p.root() == self.root(),
            p.spec_config() == self.spec_config(),
            p.excludes() == excludes,
            p.filter() == self.filter(),
    {
        FilePipeline {
            registry: self.registry,
            workspace_root: self.workspace_root,
            config: self.config,
            additional_excludes: excludes,
            language_filter: self.language_filter,
        }
    }

    /// The same pipeline held to the language that `language` names. A name
    /// that stands for no language leaves every language in.
    pub fn with_language_filter(self, language: Option<String>) -> (p: Self)
        ensures
            p.spec_registry() == self.spec_registry(),
            p.root() == self.root(),
            p.spec_config() == self.spec_config(),
            p.excludes() == self.excludes(),
            p.filter() == match language {
                Some(name) => named_language(lowercase_of(name@)),
                None => None,
            },
    {
        let language_filter = match language {
            Some(name) => parse_language_id(name.as_str()),
            None => None,
        };
        FilePipeline {
            registry: self.registry,
            workspace_root: self.workspace_root,
            config: self.config,
            additional_excludes: self.additional_excludes,
            language_filter,
        }
    }

    /// The directory that is searched.
    pub fn workspace_root(&self) -> (root: &str)
        ensures
            root@ == self.root(),
    {
        self.workspace_root.as_str()
    }

    /// A file of a registered language passes the language filter unless
    /// the filter names another language.
    pub open spec fn passes_filter(&self, path: Seq<char>) -> bool {
        self.filter() is None || path_language(path) == self.filter()
    }

    /// Whether a file is read, given whether it is excluded: it is read
    /// where its language is registered, it is not excluded, and it passes
    /// the language filter.
    pub fn accepts_given(&self, path: &str, excluded: bool) -> (b: bool)
        ensures
            b == (self.spec_registry().supports(path@) && !excluded && self.passes_filter(path@)),
    {
        let language = match self.registry.get_for_path(path) {
            Some(language) => language,
            None => {
                return false;
            },
        };
        if excluded {
            return false;
        }
        match self.language_filter {
            Some(filter) => language.id() == filter,
            None => true,
        }
    }

    /// The directories that are excluded, as shared references.
    fn additional(&self) -> (dirs: Option<&Vec<String>>)
        ensures
            dirs == match self.excludes() {
                Some(list) => Some(&list),
                None => None,
            },
    {
        self.additional_excludes.as_ref()
    }

    /// `path` runs through an excluded directory.
    pub open spec fn dir_excluded(&self, path: Seq<char>) -> bool {
        self.spec_config().dir_excluded(
            path,
            match self.excludes() {
                Some(list) => Some(&list),
                None => None,
            },
        )
    }

    /// Whether the file at `path` is read by a search.
    pub fn accepts(&self, path: &str) -> (b: bool)
        ensures
            b ==> self.spec_registry().supports(path@) && !self.dir_excluded(path@)
                && self.passes_filter(path@),
            self.spec_config().exclude_patterns@.len() == 0 ==> b == (
            self.spec_registry().supports(path@) && !self.dir_excluded(path@) && self.passes_filter(
                path@,
            )),
    {
        let excluded = self.config.should_exclude(path, self.additional());
        self.accepts_given(path, excluded)
    }

    /// A file is read unless a pattern excludes it: its language is
    /// registered, it runs through no excluded directory, and it passes the
    /// language filter.
    pub open spec fn picks(&self, path: Seq<char>) -> bool {
        self.spec_registry().supports(path) && !self.dir_excluded(path) && self.passes_filter(path)
    }

    /// Those of the first `n` candidates that are read where no pattern
    /// excludes any, in their order.
    pub open spec fn picked(&self, candidates: Seq<Seq<char>>, n: int) -> Seq<Seq<char>>
        decreases n,
    {
        if n <= 0 || n > candidates.len() {
            seq![]
        } else if self.picks(candidates[n - 1]) {
            self.picked(candidates, n - 1).push(candidates[n - 1])
        } else {
            self.picked(candidates, n - 1)
        }
    }

    /// The files among `candidates` that a search reads, in their order.
    /// `candidates` are the files that a walk of the workspace found. Without
    /// exclusion patterns these are exactly the files that `picks` names;
    /// with patterns, some of those are left out.
    pub fn get_files(&self, candidates: &Vec<String>) -> (files: Vec<String>)
        ensures
            forall|i: int| 0 <= i < files@.len() ==> self.picks((#[trigger] files@[i])@),
            exists|at: Seq<int>| #[trigger] chosen_at(texts(files@), texts(candidates@), at),
            self.spec_config().exclude_patterns@.len() == 0 ==> texts(files@) == self.picked(
                texts(candidates@),
                candidates@.len() as int,
            ),
    {
        let mut files: Vec<String> = Vec::new();
        let ghost mut at: Seq<int> = Seq::empty();
        let ghost all = texts(candidates@);
        let mut k: usize = 0;
        assert(texts(files@) =~= Seq::<Seq<char>>::empty());
        assert(chosen_at(texts(files@), all.take(0), at));
        while k < candidates.len()
            invariant
                k <= candidates@.len(),
                all == texts(candidates@),
                forall|i: int| 0 <= i < files@.len() ==> self.picks((#[trigger] files@[i])@),
                chosen_at(texts(files@), all.take(k as int), at),
                self.spec_config().exclude_patterns@.len() == 0 ==> texts(files@) == self.picked(
                    all,
                    k as int,
                ),
            decreases candidates@.len() - k,
        {
            assert(all[k as int] == candidates@[k as int]@);
            let ghost before = texts(files@);
            let ghost at_before = at;
            if self.accepts(candidates[k].as_str()) {
                let path = candidates[k].clone();
                files.push(path);
                proof {
                    at = at.push(k as int);
                    assert(texts(files@) =~= before.push(all[k as int]));
                    assert forall|i: int| 0 <= i < at.len() implies 0 <= #[trigger] at[i] < k + 1
                        && all.take(k + 1)[at[i]] == texts(files@)[i] by {
                        if i < at_before.len() {
                            assert(at[i] == at_before[i]);
                            assert(all.take(k as int)[at_before[i]] == before[i]);
                        }
                    }
                    assert forall|i: int, j: int| 0 <= i < j < at.len() implies at[i] < at[j] by {
                        assert(at[i] == at_before[i]);
                        if j < at_before.len() {
                            assert(at[j] == at_before[j]);
                        }
                    }
                }
            } else {
                assert forall|i: int| 0 <= i < at.len() implies 0 <= #[trigger] at[i] < k + 1
                    && all.take(k + 1)[at[i]] == texts(files@)[i] by {
                    assert(all.take(k as int)[at[i]] == before[i]);
                }
            }
            k += 1;
        }
        assert(all.take(k as int) =~= all);
        files
    }

    /// Runs `collector` over `files`, each with a parser of its own, and
    /// merges what the files gave. A file that could not be read, or that the
    /// collector fails on, gives nothing and does not end the run.
    pub fn process<C: ResultCollector>(
        &self,
        collector: &C,
        cache: &mut ParserCache,
        files: &Vec<LoadedFile>,
    ) -> (items: Vec<C::Item>)
        requires
            old(cache).wf(),
        ensures
            final(cache).wf(),
            exists|caches: Seq<Map<Seq<char>, CachedTree>>, outcomes: Seq<Option<Seq<C::Item>>>|
                #[trigger] files_ran(*collector, self.spec_registry(), files@, caches, outcomes)
                    && caches[0] == old(cache)@ && caches[files@.len() as int] == final(cache)@
                    && items@ == merged(outcomes),
    {
        let mut outcomes: Vec<Option<Vec<C::Item>>> = Vec::new();
        let ghost mut caches: Seq<Map<Seq<char>, CachedTree>> = seq![cache@];
        let ghost registry = self.spec_registry();
        let mut k: usize = 0;
        while k < files.len()
            invariant
                k <= files@.len(),
                cache.wf(),
                registry == self.spec_registry(),
                outcomes@.len() == k,
                caches.len() == k + 1,
                caches[0] == old(cache)@,
                caches[k as int] == cache@,
                forall|i: int|
                    0 <= i < k ==> file_ran(
                        *collector,
                        registry,
                        files@[i],
                        caches[i],
                        #[trigger] outcome_views(outcomes@)[i],
                        caches[i + 1],
                    ),
            decreases files@.len() - k,
        {
            let ghost before = cache@;
            let ghost done = outcome_views(outcomes@);
            let ghost states = caches;
            let outcome = match &files[k].content {
                Some(content) => {
                    let mut parser = CachedParser::new(share(&self.registry));
                    let ghost fresh = parser;
                    let r = collector.process_file(&mut parser, cache, files[k].path.as_str(), content);
                    let ghost result = r;
                    let outcome = match r {
                        Ok(found) => Some(found),
                        Err(_) => None,
                    };
                    assert(collector.outcome(
                        fresh,
                        before,
                        files@[k as int].path@,
                        *content,
                        result,
                        cache@,
                        parser.inner().current(),
                    ));
                    outcome
                },
                None => None,
            };
            outcomes.push(outcome);
            proof {
                caches = states.push(cache@);
                let views = outcome_views(outcomes@);
                assert(views.take(k as int) =~= done);
                assert forall|i: int| 0 <= i < k + 1 implies file_ran(
                    *collector,
                    registry,
                    files@[i],
                    caches[i],
                    #[trigger] views[i],
                    caches[i + 1],
                ) by {
                    if i < k {
                        assert(views[i] == done[i]);
                        assert(caches[i] == states[i] && caches[i + 1] == states[i + 1]);
                    }
                }
            }
            k += 1;
        }
        let ghost views = outcome_views(outcomes@);
        assert(files_ran(*collector, registry, files@, caches, views));
        merge_results(outcomes)
    }
}

/// What the file gave in a run: nothing where it has no content, and
/// otherwise what the collector gave for it with a parser of its own that
/// has no grammar yet, nothing where the collector failed. `before` and
/// `after` are what the cache of trees held before and after the file.
pub open spec fn file_ran<C: ResultCollector>(
    collector: C,
    registry: LanguageRegistry,
    file: LoadedFile,
    before: Map<Seq<char>, CachedTree>,
    outcome: Option<Seq<C::Item>>,
    after: Map<Seq<char>, CachedTree>,
) -> bool {
    match file.content {
        None => outcome is None && after == before,
        Some(content) => exists|
            parser: CachedParser,
            r: Result<Vec<C::Item>, ParseError>,
            set_to: Option<LanguageId>,
        |
            parser.wf() && parser.spec_registry() == registry && parser.inner().current() is None
                && #[trigger] collector.outcome(
                parser,
                before,
                file.path@,
                content,
                r,
                after,
                set_to,
            ) && outcome == match r {
                Ok(items) => Some(items@),
                Err(_) => None,
            },
    }
}

/// The files were run one after the other: `caches` holds what the cache of
/// trees held before the first file, between each two files, and after the
/// last, and `outcomes` holds what each file gave.
pub open spec fn files_ran<C: ResultCollector>(
    collector: C,
    registry: LanguageRegistry,
    files: Seq<LoadedFile>,
    caches: Seq<Map<Seq<char>, CachedTree>>,
    outcomes: Seq<Option<Seq<C::Item>>>,
) -> bool {
    &&& caches.len() == files.len() + 1
    &&& outcomes.len() == files.len()
    &&& forall|i: int|
        0 <= i < files.len() ==> file_ran(
            collector,
            registry,
            files[i],
            caches[i],
            #[trigger] outcomes[i],
            caches[i + 1],
        )
}

/// Finds the smallest definition that encloses line number `line` (counted
/// from 1) of the file at `path`, whatever the file's language: the file is
/// parsed, or its tree taken from the cache, the language's definitions query
/// is run, and the smallest enclosing match is picked. Succeeds where the
/// tree is cached or the file can be parsed.
pub fn symbol_at_location_in_file(
    parser: &mut CachedParser,
    cache: &mut ParserCache,
    path: &str,
    content: &CachedContent,
    line: usize,
) -> (r: Result<Option<SymbolDefinition>, ParseError>)
    requires
        old(cache).wf(),
        old(parser).wf(),
    ensures
        final(cache).wf(),
        final(parser).wf(),
        final(parser).spec_registry() == old(parser).spec_registry(),
        final(parser).inner().current() == old(parser).set_after(
            old(cache)@,
            path@,
            content.modified_time,
        ),
        final(cache)@ == old(parser).cache_served(
            old(cache)@,
            path@,
            content.content@,
            content.modified_time,
        ),
        match old(parser).tree_served(old(cache)@, path@, content.content@, content.modified_time) {
            Some(tree) => r is Ok && crate::definition::opt_definition(r->Ok_0) == smallest_from(
                DefinitionSearch {
                    file: path@,
                    source: content.content@,
                    include_docs: false,
                    separate_docs: None,
                    table: path_language(path@)->0.mapping_table(),
                },
                gathered(
                    old(parser).spec_registry().support(path_language(path@)->0).definitions(),
                    &tree,
                    content.content@,
                    ChainsView::Skip,
                ),
                0,
                line as nat,
                None,
                usize::MAX as nat,
            ),
            None => r is Err && parse_failure(*old(parser), path@, r->Err_0),
        },
{
    let source = content.content.as_str();
    let (tree, id) = match parser.parse_with_language(cache, path, source, content.modified_time) {
        Ok(parsed) => parsed,
        Err(e) => {
            return Err(e);
        },
    };
    let language = match parser.registry().get(id) {
        Some(language) => language,
        None => {
            return Err(ParseError::ParseFailed);
        },
    };
    let matches = gather_matches(language.definitions_query(), &tree, source, &Chains::Skip);
    let table = language.definition_mappings();
    let best = symbol_at_location(path, source, line, &table, &matches);
    Ok(best)
}

} // verus!
