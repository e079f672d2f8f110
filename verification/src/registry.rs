//! The languages that a search can use: for each its grammar, its two
//! compiled queries and its table of captures and kinds.

use crate::language::{
    extension_language, language_for_extension, language_for_path, path_language, LanguageId,
    SymbolKindMapping,
};
use crate::treesitter::{
    compiled,
    css_grammar, go_grammar, html_grammar, java_grammar, javascript_grammar, markdown_grammar,
    python_grammar, query_error_text, rust_grammar, sql_grammar, tsx_grammar, typescript_grammar,
};
use tree_sitter::{Language, Query};
use vstd::prelude::*;

verus! {

/// Why a language could not be set up.
#[derive(Debug)]
pub enum RegistryError {
    /// The query for definitions did not compile.
    DefinitionsQuery { language: LanguageId, message: String },
    /// The query for usages did not compile.
    UsagesQuery { language: LanguageId, message: String },
}

impl RegistryError {
    /// The language whose query did not compile.
    pub fn language(&self) -> (id: LanguageId)
        ensures
            id == match *self {
                RegistryError::DefinitionsQuery { language, .. } => language,
                RegistryError::UsagesQuery { language, .. } => language,
            },
    {
        match self {
            RegistryError::DefinitionsQuery { language, .. } => *language,
            RegistryError::UsagesQuery { language, .. } => *language,
        }
    }
}

/// The grammar of a language.
fn grammar_for(id: LanguageId) -> (grammar: Language) {
    match id {
        LanguageId::TypeScript => typescript_grammar(),
        LanguageId::TypeScriptReact => tsx_grammar(),
        LanguageId::JavaScript => javascript_grammar(),
        LanguageId::JavaScriptReact => javascript_grammar(),
        LanguageId::Markdown => markdown_grammar(),
        LanguageId::Html => html_grammar(),
        LanguageId::Css => css_grammar(),
        LanguageId::Python => python_grammar(),
        LanguageId::Rust => rust_grammar(),
        LanguageId::Go => go_grammar(),
        LanguageId::Java => java_grammar(),
        LanguageId::Sql => sql_grammar(),
    }
}

/// What a search needs of one language.
pub struct LanguageSupport {
    id: LanguageId,
    language: Language,
    definitions_query: Query,
    usages_query: Query,
}

impl LanguageSupport {
    /// The language was set up from these two query texts: its queries are
    /// what the texts compile to against its grammar.
    pub open spec fn compiled_from(&self, definitions: Seq<char>, usages: Seq<char>) -> bool {
        &&& compiled(self.grammar(), definitions) == Some(self.definitions())
        &&& compiled(self.grammar(), usages) == Some(self.usages())
    }

    /// Sets a language up from the texts of its two queries, which are
    /// compiled against the language's grammar. Fails with the first of the
    /// two that does not compile.
    pub fn new(id: LanguageId, definitions_source: &str, usages_source: &str) -> (r: Result<
        Self,
        RegistryError,
    >)
        ensures
            match r {
                Ok(support) => support.spec_id() == id && support.compiled_from(
                    definitions_source@,
                    usages_source@,
                ),
                Err(e) => match e {
                    RegistryError::DefinitionsQuery { language, .. } => language == id,
                    RegistryError::UsagesQuery { language, .. } => language == id,
                },
            },
    {
        Self::with_grammar(id, grammar_for(id), definitions_source, usages_source)
    }

    /// Sets a language up with the grammar `language`: compiles the two
    /// query texts against it, the one for definitions first. Succeeds where
    /// both compile, and fails with the first that does not.
    pub fn with_grammar(
        id: LanguageId,
        language: Language,
        definitions_source: &str,
        usages_source: &str,
    ) -> (r: Result<Self, RegistryError>)
        ensures
            match r {
                Ok(support) => support.spec_id() == id && support.grammar() == language
                    && support.compiled_from(definitions_source@, usages_source@),
                Err(RegistryError::DefinitionsQuery { language: failed, .. }) => failed == id
                    && compiled(language, definitions_source@) is None,
                Err(RegistryError::UsagesQuery { language: failed, .. }) => failed == id
                    && compiled(language, definitions_source@) is Some && compiled(
                    language,
                    usages_source@,
                ) is None,
            },
    {
        let definitions_query = match Query::new(&language, definitions_source) {
            Ok(query) => query,
            Err(e) => {
                return Err(
                    RegistryError::DefinitionsQuery { language: id, message: query_error_text(&e) },
                );
            },
        };
        let usages_query = match Query::new(&language, usages_source) {
            Ok(query) => query,
            Err(e) => {
                return Err(
                    RegistryError::UsagesQuery { language: id, message: query_error_text(&e) },
                );
            },
        };
        Ok(LanguageSupport { id, language, definitions_query, usages_query })
    }

    /// The language that this is the support of.
    pub closed spec fn spec_id(&self) -> LanguageId {
        self.id
    }

    /// The language's identifier.
    #[verifier::when_used_as_spec(spec_id)]
    pub fn id(&self) -> (id: LanguageId)
        ensures
            id == self.spec_id(),
    {
        self.id
    }

    /// The language's name.
    pub fn name(&self) -> (name: String)
        ensures
            name@ == self.spec_id().name(),
    {
        self.id.to_string()
    }

    /// The file extensions of the language.
    pub fn file_extensions(&self) -> (exts: Vec<&'static str>)
        ensures
            exts@.len() == self.spec_id().extensions().len(),
            forall|i: int|
                0 <= i < exts@.len() ==> (#[trigger] exts@[i])@ == self.spec_id().extensions()[i],
    {
        self.id.file_extensions()
    }

    /// The grammar that the language was set up with.
    pub closed spec fn grammar(&self) -> Language {
        self.language
    }

    /// The query for definitions that was compiled for the language.
    pub closed spec fn definitions(&self) -> Query {
        self.definitions_query
    }

    /// The query for usages that was compiled for the language.
    pub closed spec fn usages(&self) -> Query {
        self.usages_query
    }

    /// The language's grammar.
    pub fn tree_sitter_language(&self) -> (language: &Language)
        ensures
            *language == self.grammar(),
    {
        &self.language
    }

    /// The query that finds definitions.
    pub fn definitions_query(&self) -> (query: &Query)
        ensures
            *query == self.definitions(),
    {
        &self.definitions_query
    }

    /// The query that finds usages.
    pub fn usages_query(&self) -> (query: &Query)
        ensures
            *query == self.usages(),
    {
        &self.usages_query
    }

    /// The table that says which kind of symbol a capture stands for.
    pub fn definition_mappings(&self) -> (table: Vec<SymbolKindMapping>)
        ensures
            crate::language::mapping_views(table@) == self.spec_id().mapping_table(),
    {
        self.id.definition_mappings()
    }

    /// Whether documentation stands in statements of its own.
    pub fn uses_separate_docs(&self) -> (b: bool)
        ensures
            b == self.spec_id().separate_docs(),
    {
        self.id.uses_separate_docs()
    }
}

/// The texts of a language's two queries.
#[derive(Debug, Clone)]
pub struct LanguageQueries {
    pub id: LanguageId,
    pub definitions: String,
    pub usages: String,
}

/// The languages that are set up, each once.
pub struct LanguageRegistry {
    languages: Vec<LanguageSupport>,
}

/// The languages of a list of supports, in order.
pub open spec fn ids_of(languages: Seq<LanguageSupport>) -> Seq<LanguageId> {
    languages.map_values(|l: LanguageSupport| l.spec_id())
}

/// The extensions of the languages in `ids`, in order.
pub open spec fn extensions_of(ids: Seq<LanguageId>) -> Seq<Seq<char>>
    decreases ids.len(),
{
    if ids.len() == 0 {
        seq![]
    } else {
        extensions_of(ids.drop_last()) + ids.last().extensions()
    }
}

/// The first place of `id` in `ids`, and the length of `ids` where it has
/// none.
pub open spec fn first_at(ids: Seq<LanguageId>, id: LanguageId) -> int
    decreases ids.len(),
{
    if ids.len() == 0 || ids[0] == id {
        0
    } else {
        1 + first_at(ids.drop_first(), id)
    }
}

proof fn lemma_first_at(ids: Seq<LanguageId>, id: LanguageId, k: int)
    requires
        0 <= k <= ids.len(),
        forall|j: int| 0 <= j < k ==> ids[j] != id,
        k < ids.len() ==> ids[k] == id,
    ensures
        first_at(ids, id) == k,
    decreases ids.len(),
{
    if ids.len() == 0 || k == 0 {
    } else {
        assert forall|j: int| 0 <= j < k - 1 implies ids.drop_first()[j] != id by {
            assert(ids.drop_first()[j] == ids[j + 1]);
        }
        if k < ids.len() {
            assert(ids.drop_first()[k - 1] == ids[k]);
        }
        lemma_first_at(ids.drop_first(), id, k - 1);
    }
}

impl LanguageRegistry {
    /// The support of a registered language.
    pub closed spec fn support(&self, id: LanguageId) -> LanguageSupport {
        self.languages@[first_at(self.ids(), id)]
    }

    /// The registered languages, in the order in which each was first
    /// registered.
    pub closed spec fn ids(&self) -> Seq<LanguageId> {
        ids_of(self.languages@)
    }

    /// No language is registered twice.
    pub closed spec fn wf(&self) -> bool {
        self.ids().no_duplicates()
    }

    /// A registry without languages.
    pub fn empty() -> (registry: Self)
        ensures
            registry.wf(),
            registry.ids() == Seq::<LanguageId>::empty(),
    {
        let registry = LanguageRegistry { languages: Vec::new() };
        assert(registry.ids() =~= Seq::<LanguageId>::empty());
        registry
    }

    /// The languages of the first `n` entries, each at the place where it
    /// comes first.
    pub open spec fn first_seen(queries: Seq<LanguageQueries>, n: int) -> Seq<LanguageId>
        decreases n,
    {
        if n <= 0 || n > queries.len() {
            seq![]
        } else {
            let rest = Self::first_seen(queries, n - 1);
            if rest.contains(queries[n - 1].id) {
                rest
            } else {
                rest.push(queries[n - 1].id)
            }
        }
    }

    /// The entry at index `k` is the last of the first `n` entries for its
    /// language.
    pub open spec fn is_last_for(queries: Seq<LanguageQueries>, k: int, n: int) -> bool {
        0 <= k < n <= queries.len() && forall|j: int| k < j < n ==> (#[trigger] queries[j]).id
            != queries[k].id
    }

    /// A registry of the languages whose queries are given, each set up
    /// from its two query texts; of two entries for one language the later
    /// counts. Fails with the first query that does not compile.
    pub fn new(queries: &Vec<LanguageQueries>) -> (r: Result<Self, RegistryError>)
        ensures
            match r {
                Ok(registry) => registry.wf() && registry.ids() == Self::first_seen(
                    queries@,
                    queries@.len() as int,
                ) && (forall|id: LanguageId|
                    registry.ids().contains(id) <==> exists|i: int|
                        0 <= i < queries@.len() && (#[trigger] queries@[i]).id == id) && (forall|
                    k: int,
                |
                    #[trigger] Self::is_last_for(queries@, k, queries@.len() as int)
                        ==> registry.support(queries@[k].id).spec_id() == queries@[k].id
                        && registry.support(queries@[k].id).compiled_from(
                        queries@[k].definitions@,
                        queries@[k].usages@,
                    )),
                Err(e) => exists|i: int|
                    0 <= i < queries@.len() && (#[trigger] queries@[i]).id == match e {
                        RegistryError::DefinitionsQuery { language, .. } => language,
                        RegistryError::UsagesQuery { language, .. } => language,
                    },
            },
            queries@.len() == 0 ==> r is Ok,
    {
        let mut registry = LanguageRegistry::empty();
        let mut i: usize = 0;
        while i < queries.len()
            invariant
                i <= queries@.len(),
                registry.wf(),
                registry.ids() == Self::first_seen(queries@, i as int),
                forall|id: LanguageId|
                    registry.ids().contains(id) <==> exists|k: int|
                        0 <= k < i && (#[trigger] queries@[k]).id == id,
                forall|k: int|
                    #[trigger] Self::is_last_for(queries@, k, i as int) ==> registry.support(
                        queries@[k].id,
                    ).spec_id() == queries@[k].id && registry.support(
                        queries@[k].id,
                    ).compiled_from(queries@[k].definitions@, queries@[k].usages@),
            decreases queries@.len() - i,
        {
            let entry = &queries[i];
            match LanguageSupport::new(entry.id, entry.definitions.as_str(), entry.usages.as_str()) {
                Ok(support) => {
                    let ghost before = registry.ids();
                    let ghost earlier = registry;
                    registry.register(support);
                    assert forall|k: int| #[trigger]
                        Self::is_last_for(queries@, k, i + 1) implies registry.support(
                        queries@[k].id,
                    ).spec_id() == queries@[k].id && registry.support(
                        queries@[k].id,
                    ).compiled_from(queries@[k].definitions@, queries@[k].usages@) by {
                        if k < i {
                            assert(queries@[i as int].id != queries@[k].id);
                            assert(Self::is_last_for(queries@, k, i as int));
                            assert(before.contains(queries@[k].id));
                        }
                    }
                    assert forall|id: LanguageId|
                        registry.ids().contains(id) <==> exists|k: int|
                            0 <= k < i + 1 && (#[trigger] queries@[k]).id == id by {
                        if registry.ids().contains(id) {
                            if id == entry.id {
                                assert(queries@[i as int].id == id);
                            } else {
                                assert(before.contains(id));
                            }
                        }
                        if exists|k: int| 0 <= k < i + 1 && (#[trigger] queries@[k]).id == id {
                            let k = choose|k: int|
                                0 <= k < i + 1 && (#[trigger] queries@[k]).id == id;
                            if k < i {
                                assert(before.contains(id));
                            }
                        }
                    }
                },
                Err(e) => {
                    assert(queries@[i as int].id == entry.id);
                    return Err(e);
                },
            }
            i += 1;
        }
        Ok(registry)
    }

    fn position(&self, id: LanguageId) -> (at: Option<usize>)
        ensures
            match at {
                Some(k) => k < self.languages@.len() && self.languages@[k as int].spec_id() == id
                    && k == first_at(self.ids(), id),
                None => !self.ids().contains(id),
            },
    {
        let mut k: usize = 0;
        while k < self.languages.len()
            invariant
                k <= self.languages@.len(),
                forall|j: int| 0 <= j < k ==> self.ids()[j] != id,
            decreases self.languages@.len() - k,
        {
            if self.languages[k].id() == id {
                proof {
                    assert(self.ids()[k as int] == self.languages@[k as int].spec_id());
                    lemma_first_at(self.ids(), id, k as int);
                }
                return Some(k);
            }
            assert(self.ids()[k as int] == self.languages@[k as int].spec_id());
            k += 1;
        }
        None
    }

    /// Registers a language, in place of an earlier registration of the same
    /// language if there is one.
    pub fn register(&mut self, language: LanguageSupport)
        requires
            old(self).wf(),
        ensures
            final(self).wf(),
            final(self).ids() == if old(self).ids().contains(language.spec_id()) {
                old(self).ids()
            } else {
                old(self).ids().push(language.spec_id())
            },
            forall|id: LanguageId|
                final(self).ids().contains(id) <==> (old(self).ids().contains(id) || id
                    == language.spec_id()),
            final(self).support(language.spec_id()) == language,
            forall|id: LanguageId|
                id != language.spec_id() && old(self).ids().contains(id) ==> final(self).support(id)
                    == old(self).support(id),
    {
        let ghost before = self.ids();
        let ghost id = language.spec_id();
        let ghost held = self.languages@;
        match self.position(language.id()) {
            Some(k) => {
                assert(before[k as int] == id);
                self.languages.set(k, language);
                assert(self.ids() =~= before);
                assert forall|other: LanguageId|
                    other != id && before.contains(other) implies self.support(other)
                    == old(self).support(other) by {
                    Self::lemma_place(before, other);
                    assert(first_at(before, other) != k);
                }
            },
            None => {
                self.languages.push(language);
                assert(self.ids() =~= before.push(id));
                assert forall|a: int, b: int|
                    0 <= a < b < self.ids().len() implies self.ids()[a] != self.ids()[b] by {
                    if b == before.len() {
                        assert(before.contains(before[a]));
                    }
                }
                assert forall|other: LanguageId| self.ids().contains(other) implies (
                before.contains(other) || other == id) by {
                    let j = choose|j: int| 0 <= j < self.ids().len() && self.ids()[j] == other;
                    if j < before.len() {
                        assert(before[j] == other);
                    }
                }
                assert(self.ids()[before.len() as int] == id);
                assert forall|other: LanguageId| before.contains(other) implies self.ids().contains(
                    other,
                ) by {
                    let j = choose|j: int| 0 <= j < before.len() && before[j] == other;
                    assert(self.ids()[j] == other);
                }
                proof {
                    lemma_first_at(self.ids(), id, before.len() as int);
                }
                assert forall|other: LanguageId|
                    other != id && before.contains(other) implies self.support(other)
                    == old(self).support(other) by {
                    Self::lemma_place(before, other);
                    let at = first_at(before, other);
                    assert forall|j: int| 0 <= j < at implies self.ids()[j] != other by {
                        assert(self.ids()[j] == before[j]);
                    }
                    assert(self.ids()[at] == before[at]);
                    lemma_first_at(self.ids(), other, at);
                }
            },
        }
    }

    /// The first place of a language that is in `ids` lies inside `ids` and
    /// holds that language, and no place before it does.
    proof fn lemma_place(ids: Seq<LanguageId>, id: LanguageId)
        requires
            ids.contains(id),
        ensures
            0 <= first_at(ids, id) < ids.len(),
            ids[first_at(ids, id)] == id,
            forall|j: int| 0 <= j < first_at(ids, id) ==> ids[j] != id,
        decreases ids.len(),
    {
        if ids.len() == 0 || ids[0] == id {
        } else {
            let rest = ids.drop_first();
            let j = choose|j: int| 0 <= j < ids.len() && ids[j] == id;
            assert(rest[j - 1] == id);
            Self::lemma_place(rest, id);
            assert forall|j: int| 0 <= j < first_at(ids, id) implies ids[j] != id by {
                if j > 0 {
                    assert(rest[j - 1] == ids[j]);
                }
            }
        }
    }

    /// The support of a language, if it is registered.
    pub fn get(&self, id: LanguageId) -> (found: Option<&LanguageSupport>)
        ensures
            found is Some <==> self.ids().contains(id),
            found is Some ==> found->0.spec_id() == id && *found->0 == self.support(id),
    {
        match self.position(id) {
            Some(k) => {
                assert(self.ids()[k as int] == id);
                Some(&self.languages[k])
            },
            None => None,
        }
    }

    /// The support of the language whose files carry the extension `extension`.
    pub fn get_by_extension(&self, extension: &str) -> (found: Option<&LanguageSupport>)
        ensures
            found is Some <==> (extension_language(extension@) is Some && self.ids().contains(
                extension_language(extension@)->0,
            )),
            found is Some ==> Some(found->0.spec_id()) == extension_language(extension@)
                && *found->0 == self.support(found->0.spec_id()),
    {
        match language_for_extension(extension) {
            Some(id) => self.get(id),
            None => None,
        }
    }

    /// Whether the language of the file at `path` is registered.
    pub open spec fn supports(&self, path: Seq<char>) -> bool {
        path_language(path) is Some && self.ids().contains(path_language(path)->0)
    }

    /// The support of the language of the file at `path`, by its extension.
    pub fn get_for_path(&self, path: &str) -> (found: Option<&LanguageSupport>)
        ensures
            found is Some <==> self.supports(path@),
            found is Some ==> Some(found->0.spec_id()) == path_language(path@) && *found->0
                == self.support(found->0.spec_id()),
    {
        match language_for_path(path) {
            Some(id) => self.get(id),
            None => None,
        }
    }

    /// Whether files like the one at `path` can be searched.
    pub fn is_supported(&self, path: &str) -> (b: bool)
        ensures
            b == self.supports(path@),
    {
        self.get_for_path(path).is_some()
    }

    /// The file extensions of all registered languages.
    pub fn supported_extensions(&self) -> (exts: Vec<&'static str>)
        ensures
            exts@.len() == extensions_of(self.ids()).len(),
            forall|i: int|
                0 <= i < exts@.len() ==> (#[trigger] exts@[i])@ == extensions_of(self.ids())[i],
    {
        let mut exts: Vec<&'static str> = Vec::new();
        let mut k: usize = 0;
        assert(self.ids().take(0) =~= Seq::<LanguageId>::empty());
        while k < self.languages.len()
            invariant
                k <= self.languages@.len(),
                exts@.len() == extensions_of(self.ids().take(k as int)).len(),
                forall|i: int|
                    0 <= i < exts@.len() ==> (#[trigger] exts@[i])@ == extensions_of(
                        self.ids().take(k as int),
                    )[i],
            decreases self.languages@.len() - k,
        {
            let mut more = self.languages[k].file_extensions();
            proof {
                let part = self.ids().take(k + 1);
                assert(part.drop_last() =~= self.ids().take(k as int));
                assert(part.last() == self.languages@[k as int].spec_id());
            }
            let ghost before = exts@;
            exts.append(&mut more);
            k += 1;
        }
        assert(self.ids().take(k as int) =~= self.ids());
        exts
    }

    /// The registered languages.
    pub fn registered_languages(&self) -> (ids: Vec<LanguageId>)
        ensures
            ids@ == self.ids(),
    {
        let mut ids: Vec<LanguageId> = Vec::new();
        let mut k: usize = 0;
        while k < self.languages.len()
            invariant
                k <= self.languages@.len(),
                ids@ == self.ids().take(k as int),
            decreases self.languages@.len() - k,
        {
            ids.push(self.languages[k].id());
            assert(self.ids().take(k + 1) =~= self.ids().take(k as int).push(
                self.languages@[k as int].spec_id(),
            ));
            k += 1;
        }
        assert(self.ids().take(k as int) =~= self.ids());
        ids
    }
}

} // verus!
