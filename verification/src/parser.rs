//! Parsers: one that picks the grammar by the file's extension, one that
//! keeps parsed trees in a cache, and one for TypeScript alone.

use crate::cache::{tree_hit, CachedTree, ModifiedTime, ParserCache};
use crate::language::{file_extension, path_language, LanguageId};
use crate::config::texts;
use crate::registry::{extensions_of, LanguageRegistry};
use crate::text::str_eq;
use crate::treesitter::{
    compiled, grammar_accepted, grammar_held, language_error_text, parse_text, query_error_text,
    tree_of, tsx_grammar, typescript_grammar,
};
use std::sync::Arc;
use tree_sitter::{Language, Parser, Query, Tree};
use vstd::prelude::*;
use vstd::string::StringExecFns;

verus! {

/// Why a file could not be parsed.
#[derive(Debug)]
pub enum ParseError {
    /// No registered language reads files with this path's extension.
    UnsupportedFileType { path: String, supported: Vec<String> },
    /// The parser refused the language's grammar.
    LanguageRejected { message: String },
    /// A query did not compile against the grammar.
    InvalidQuery { message: String },
    /// The parser gave no tree.
    ParseFailed,
}

/// The items of `items`, each after a comma and a space but the first.
pub open spec fn comma_separated(items: Seq<String>) -> Seq<char>
    decreases items.len(),
{
    if items.len() == 0 {
        seq![]
    } else if items.len() == 1 {
        items[0]@
    } else {
        comma_separated(items.drop_last()) + seq![',', ' '] + items.last()@
    }
}

impl ParseError {
    /// The error says that the file at `path` is of no language of
    /// `registry`, and names the extensions that the registry reads.
    pub open spec fn is_unsupported(self, path: Seq<char>, registry: LanguageRegistry) -> bool {
        match self {
            ParseError::UnsupportedFileType { path: p, supported } => p@ == path && texts(
                supported@,
            ) == extensions_of(registry.ids()),
            _ => false,
        }
    }

    /// What the error says.
    pub open spec fn text(self) -> Seq<char> {
        match self {
            ParseError::UnsupportedFileType { path, supported } => "Unsupported file type for path '"@
                + path@ + "'. Supported extensions: "@ + comma_separated(supported@),
            ParseError::LanguageRejected { message } => "Failed to set language: "@ + message@,
            ParseError::InvalidQuery { message } => "Failed to compile query: "@ + message@,
            ParseError::ParseFailed => "Failed to parse source code"@,
        }
    }

    /// The error as a message that names the path and the extensions that
    /// could have been parsed.
    pub fn message(&self) -> (s: String)
        ensures
            s@ == self.text(),
    {
        match self {
            ParseError::UnsupportedFileType { path, supported } => {
                let mut s = "Unsupported file type for path '".to_owned();
                s.append(path.as_str());
                s.append("'. Supported extensions: ");
                let ghost head = s@;
                let mut k: usize = 0;
                assert(supported@.take(0) =~= Seq::<String>::empty());
                assert(head + Seq::<char>::empty() =~= head);
                while k < supported.len()
                    invariant
                        k <= supported@.len(),
                        s@ == head + comma_separated(supported@.take(k as int)),
                    decreases supported@.len() - k,
                {
                    let ghost part = supported@.take(k + 1);
                    let ghost joined = comma_separated(supported@.take(k as int));
                    assert(part.drop_last() =~= supported@.take(k as int));
                    assert(part.last() == supported@[k as int]);
                    if k > 0 {
                        s.push(',');
                        s.push(' ');
                        assert(head + joined + seq![','] + seq![' '] =~= head + (joined + seq![
                            ',',
                            ' ',
                        ]));
                    }
                    s.append(supported[k].as_str());
                    assert(s@ =~= head + comma_separated(part));
                    k += 1;
                }
                assert(supported@.take(k as int) =~= supported@);
                s
            },
            ParseError::LanguageRejected { message } => {
                let mut s = "Failed to set language: ".to_owned();
                s.append(message.as_str());
                s
            },
            ParseError::InvalidQuery { message } => {
                let mut s = "Failed to compile query: ".to_owned();
                s.append(message.as_str());
                s
            },
            ParseError::ParseFailed => "Failed to parse source code".to_owned(),
        }
    }
}

/// The supported extensions as owned strings.
fn owned_extensions(registry: &LanguageRegistry) -> (exts: Vec<String>)
    ensures
        texts(exts@) == extensions_of(registry.ids()),
{
    let names = registry.supported_extensions();
    let mut exts: Vec<String> = Vec::new();
    let mut k: usize = 0;
    while k < names.len()
        invariant
            k <= names@.len(),
            exts@.len() == k,
            names@.len() == extensions_of(registry.ids()).len(),
            forall|i: int|
                0 <= i < names@.len() ==> (#[trigger] names@[i])@ == extensions_of(
                    registry.ids(),
                )[i],
            forall|i: int| 0 <= i < k ==> (#[trigger] exts@[i])@ == extensions_of(registry.ids())[i],
        decreases names@.len() - k,
    {
        exts.push(names[k].to_owned());
        k += 1;
    }
    assert(texts(exts@) =~= extensions_of(registry.ids()));
    exts
}

/// A parser that works with any registered language, picking the grammar
/// by the file's extension.
pub struct GenericParser {
    parser: Parser,
    registry: Arc<LanguageRegistry>,
    current_language: Option<LanguageId>,
}

impl GenericParser {
    /// The registry that the parser picks its grammars from.
    pub closed spec fn spec_registry(&self) -> LanguageRegistry {
        *self.registry
    }

    /// The language whose grammar the parser holds at present.
    pub closed spec fn current(&self) -> Option<LanguageId> {
        self.current_language
    }

    /// The parser holds the grammar of the language it is set to, and none
    /// where it is set to none.
    pub closed spec fn wf(&self) -> bool {
        grammar_held(self.parser) == match self.current_language {
            Some(id) => Some(self.spec_registry().support(id).grammar()),
            None => None,
        }
    }

    /// The grammar for the file at `path`: that of the language of its
    /// extension.
    pub open spec fn grammar_for(&self, path: Seq<char>) -> Language {
        self.spec_registry().support(path_language(path)->0).grammar()
    }

    /// The parser can parse the file at `path`: its language is registered,
    /// and the parser holds its grammar or takes it.
    pub open spec fn parses(&self, path: Seq<char>) -> bool {
        self.spec_registry().supports(path) && (self.current() == path_language(path)
            || grammar_accepted(self.grammar_for(path)))
    }

    /// A parser that has no grammar yet.
    pub fn new(registry: Arc<LanguageRegistry>) -> (parser: Self)
        ensures
            parser.wf(),
            parser.spec_registry() == *registry,
            parser.current() is None,
    {
        GenericParser { parser: Parser::new(), registry, current_language: None }
    }

    /// Gives the parser the grammar of the language of the file at `path`.
    fn set_language_for_file(&mut self, path: &str) -> (r: Result<LanguageId, ParseError>)
        requires
            old(self).wf(),
        ensures
            final(self).wf(),
            final(self).spec_registry() == old(self).spec_registry(),
            match r {
                Ok(id) => old(self).parses(path@) && Some(id) == path_language(path@)
                    && final(self).current() == Some(id),
                Err(e) => !old(self).parses(path@) && final(self).current() == old(self).current()
                    && if old(self).spec_registry().supports(path@) {
                    e is LanguageRejected
                } else {
                    e.is_unsupported(path@, old(self).spec_registry())
                },
            },
    {
        let language = match self.registry.get_for_path(path) {
            Some(language) => language,
            None => {
                return Err(
                    ParseError::UnsupportedFileType {
                        path: path.to_owned(),
                        supported: owned_extensions(&self.registry),
                    },
                );
            },
        };
        let lang_id = language.id();
        let same = match self.current_language {
            Some(current) => current == lang_id,
            None => false,
        };
        if !same {
            match self.parser.set_language(language.tree_sitter_language()) {
                Ok(()) => {},
                Err(e) => {
                    return Err(ParseError::LanguageRejected { message: language_error_text(&e) });
                },
            }
            self.current_language = Some(lang_id);
        }
        Ok(lang_id)
    }

    /// Parses `source_code` with the grammar of the file at `path`. Succeeds
    /// where the parser can parse the file, with the syntax tree of the text
    /// under the file's grammar.
    pub fn parse(&mut self, path: &str, source_code: &str) -> (r: Result<Tree, ParseError>)
        requires
            old(self).wf(),
        ensures
            final(self).wf(),
            final(self).spec_registry() == old(self).spec_registry(),
            match r {
                Ok(tree) => old(self).parses(path@) && tree == tree_of(
                    old(self).grammar_for(path@),
                    source_code@,
                ) && final(self).current() == path_language(path@),
                Err(e) => !old(self).parses(path@) && final(self).current() == old(self).current()
                    && if old(self).spec_registry().supports(path@) {
                    e is LanguageRejected
                } else {
                    e.is_unsupported(path@, old(self).spec_registry())
                },
            },
    {
        match self.set_language_for_file(path) {
            Ok(_) => {},
            Err(e) => {
                return Err(e);
            },
        }
        match parse_text(&mut self.parser, source_code) {
            Some(tree) => Ok(tree),
            None => Err(ParseError::ParseFailed),
        }
    }

    /// Parses `source_code` and says which language it was parsed as.
    pub fn parse_with_language(&mut self, path: &str, source_code: &str) -> (r: Result<
        (Tree, LanguageId),
        ParseError,
    >)
        requires
            old(self).wf(),
        ensures
            final(self).wf(),
            final(self).spec_registry() == old(self).spec_registry(),
            match r {
                Ok((tree, id)) => old(self).parses(path@) && tree == tree_of(
                    old(self).grammar_for(path@),
                    source_code@,
                ) && Some(id) == path_language(path@) && final(self).current() == Some(id),
                Err(e) => !old(self).parses(path@) && final(self).current() == old(self).current()
                    && if old(self).spec_registry().supports(path@) {
                    e is LanguageRejected
                } else {
                    e.is_unsupported(path@, old(self).spec_registry())
                },
            },
    {
        let id = match self.set_language_for_file(path) {
            Ok(id) => id,
            Err(e) => {
                return Err(e);
            },
        };
        match parse_text(&mut self.parser, source_code) {
            Some(tree) => Ok((tree, id)),
            None => Err(ParseError::ParseFailed),
        }
    }

    /// The query for definitions in the language of the file at `path`.
    pub fn definitions_query(&self, path: &str) -> (query: Option<&Query>)
        ensures
            query is Some <==> self.spec_registry().supports(path@),
            query is Some ==> *query->0 == self.spec_registry().support(
                path_language(path@)->0,
            ).definitions(),
    {
        match self.registry.get_for_path(path) {
            Some(language) => Some(language.definitions_query()),
            None => None,
        }
    }

    /// The query for usages in the language of the file at `path`.
    pub fn usages_query(&self, path: &str) -> (query: Option<&Query>)
        ensures
            query is Some <==> self.spec_registry().supports(path@),
            query is Some ==> *query->0 == self.spec_registry().support(
                path_language(path@)->0,
            ).usages(),
    {
        match self.registry.get_for_path(path) {
            Some(language) => Some(language.usages_query()),
            None => None,
        }
    }

    /// The table of captures and kinds of the language of the file at `path`.
    pub fn definition_mappings(&self, path: &str) -> (table: Option<
        Vec<crate::language::SymbolKindMapping>,
    >)
        ensures
            table is Some <==> self.spec_registry().supports(path@),
            table is Some ==> crate::language::mapping_views(table->0@) == path_language(
                path@,
            )->0.mapping_table(),
    {
        match self.registry.get_for_path(path) {
            Some(language) => Some(language.definition_mappings()),
            None => None,
        }
    }

    /// Whether files like the one at `path` can be parsed.
    pub fn is_supported(&self, path: &str) -> (b: bool)
        ensures
            b == self.spec_registry().supports(path@),
    {
        self.registry.is_supported(path)
    }

    /// The registry of languages.
    pub fn registry(&self) -> (registry: &Arc<LanguageRegistry>)
        ensures
            **registry == self.spec_registry(),
    {
        &self.registry
    }
}

/// A parser that looks into a cache of trees before it parses, and puts
/// what it parsed into the cache. The modification time comes from the
/// caller, who took it together with the content.
pub struct CachedParser {
    parser: GenericParser,
}

impl CachedParser {
    /// The registry that the parser picks its grammars from.
    pub closed spec fn spec_registry(&self) -> LanguageRegistry {
        self.parser.spec_registry()
    }

    /// The parser that parses what the cache does not hold.
    pub closed spec fn inner(&self) -> GenericParser {
        self.parser
    }

    /// The parser inside holds the grammar of the language it is set to.
    pub open spec fn wf(&self) -> bool {
        self.inner().wf() && self.inner().spec_registry() == self.spec_registry()
    }

    /// The tree that `parse` gives for the file at `path` with the text
    /// `source` read at `modified_time`: the cached tree where the cache holds
    /// one for that time, else the syntax tree of the text where the parser
    /// can parse the file, else none.
    pub open spec fn tree_parsed(
        &self,
        cache: Map<Seq<char>, CachedTree>,
        path: Seq<char>,
        source: Seq<char>,
        modified_time: ModifiedTime,
    ) -> Option<Tree> {
        match tree_hit(cache, path, modified_time) {
            Some(tree) => Some(tree),
            None => if self.inner().parses(path) {
                Some(tree_of(self.inner().grammar_for(path), source))
            } else {
                None
            },
        }
    }

    /// What `parse` leaves in the cache: everything on a hit; on a miss the
    /// fresh tree under the path where the file was parsed, and nothing under
    /// the path where it was not.
    pub open spec fn cache_parsed(
        &self,
        cache: Map<Seq<char>, CachedTree>,
        path: Seq<char>,
        source: Seq<char>,
        modified_time: ModifiedTime,
    ) -> Map<Seq<char>, CachedTree> {
        match tree_hit(cache, path, modified_time) {
            Some(tree) => cache,
            None => if self.inner().parses(path) {
                cache.insert(
                    path,
                    CachedTree {
                        tree: tree_of(self.inner().grammar_for(path), source),
                        modified_time,
                    },
                )
            } else {
                cache.remove(path)
            },
        }
    }

    /// The tree that `parse_with_language` gives: none for a file of no
    /// registered language, else what `parse` gives.
    pub open spec fn tree_served(
        &self,
        cache: Map<Seq<char>, CachedTree>,
        path: Seq<char>,
        source: Seq<char>,
        modified_time: ModifiedTime,
    ) -> Option<Tree> {
        if self.spec_registry().supports(path) {
            self.tree_parsed(cache, path, source, modified_time)
        } else {
            None
        }
    }

    /// What `parse_with_language` leaves in the cache: everything for a
    /// file of no registered language, else what `parse` leaves.
    pub open spec fn cache_served(
        &self,
        cache: Map<Seq<char>, CachedTree>,
        path: Seq<char>,
        source: Seq<char>,
        modified_time: ModifiedTime,
    ) -> Map<Seq<char>, CachedTree> {
        if self.spec_registry().supports(path) {
            self.cache_parsed(cache, path, source, modified_time)
        } else {
            cache
        }
    }

    /// The language that the parser is set to after `parse` or
    /// `parse_with_language`: that of the file where the file was parsed,
    /// and the one it was set to before where the tree came from the cache
    /// or the file was not parsed.
    pub open spec fn set_after(
        &self,
        cache: Map<Seq<char>, CachedTree>,
        path: Seq<char>,
        modified_time: ModifiedTime,
    ) -> Option<LanguageId> {
        if tree_hit(cache, path, modified_time) is None && self.inner().parses(path) {
            path_language(path)
        } else {
            self.inner().current()
        }
    }

    /// A parser over the languages of `registry`, without a grammar yet.
    pub fn new(registry: Arc<LanguageRegistry>) -> (parser: Self)
        ensures
            parser.wf(),
            parser.spec_registry() == *registry,
            parser.inner().current() is None,
    {
        CachedParser { parser: GenericParser::new(registry) }
    }

    /// The tree of the file at `path`, whose content `source_code` was read
    /// at modification time `modified_time`: from the cache where it holds
    /// the tree for that time, else parsed afresh and then cached.
    pub fn parse(
        &mut self,
        cache: &mut ParserCache,
        path: &str,
        source_code: &str,
        modified_time: ModifiedTime,
    ) -> (r: Result<Tree, ParseError>)
        requires
            old(self).wf(),
            old(cache).wf(),
        ensures
            final(self).wf(),
            final(cache).wf(),
            final(self).spec_registry() == old(self).spec_registry(),
            final(cache)@ == old(self).cache_parsed(
                old(cache)@,
                path@,
                source_code@,
                modified_time,
            ),
            final(self).inner().current() == old(self).set_after(old(cache)@, path@, modified_time),
            match r {
                Ok(tree) => old(self).tree_parsed(old(cache)@, path@, source_code@, modified_time)
                    == Some(tree),
                Err(e) => old(self).tree_parsed(old(cache)@, path@, source_code@, modified_time)
                    is None && if old(self).spec_registry().supports(path@) {
                    e is LanguageRejected
                } else {
                    e.is_unsupported(path@, old(self).spec_registry())
                },
            },
    {
        if let Some(cached_tree) = cache.get(path, modified_time) {
            return Ok(cached_tree);
        }
        let tree = match self.parser.parse(path, source_code) {
            Ok(tree) => tree,
            Err(e) => {
                return Err(e);
            },
        };
        cache.insert(path.to_owned(), tree.clone(), modified_time);
        assert(final(cache)@ =~= old(cache)@.insert(path@, CachedTree { tree, modified_time }));
        Ok(tree)
    }

    /// As `parse`, and says which language the file is in. Fails with
    /// `UnsupportedFileType`, before the cache is looked at, where no
    /// registered language reads the file.
    pub fn parse_with_language(
        &mut self,
        cache: &mut ParserCache,
        path: &str,
        source_code: &str,
        modified_time: ModifiedTime,
    ) -> (r: Result<(Tree, LanguageId), ParseError>)
        requires
            old(self).wf(),
            old(cache).wf(),
        ensures
            final(self).wf(),
            final(cache).wf(),
            final(self).spec_registry() == old(self).spec_registry(),
            final(cache)@ == old(self).cache_served(
                old(cache)@,
                path@,
                source_code@,
                modified_time,
            ),
            final(self).inner().current() == old(self).set_after(old(cache)@, path@, modified_time),
            match r {
                Ok((tree, id)) => old(self).tree_served(
                    old(cache)@,
                    path@,
                    source_code@,
                    modified_time,
                ) == Some(tree) && Some(id) == path_language(path@),
                Err(e) => old(self).tree_served(old(cache)@, path@, source_code@, modified_time)
                    is None && if old(self).spec_registry().supports(path@) {
                    e is LanguageRejected
                } else {
                    e.is_unsupported(path@, old(self).spec_registry())
                },
            },
    {
        let id = match self.parser.registry().get_for_path(path) {
            Some(language) => language.id(),
            None => {
                return Err(
                    ParseError::UnsupportedFileType {
                        path: path.to_owned(),
                        supported: owned_extensions(self.parser.registry()),
                    },
                );
            },
        };
        if let Some(cached_tree) = cache.get(path, modified_time) {
            return Ok((cached_tree, id));
        }
        let (tree, lang) = match self.parser.parse_with_language(path, source_code) {
            Ok(parsed) => parsed,
            Err(e) => {
                return Err(e);
            },
        };
        cache.insert(path.to_owned(), tree.clone(), modified_time);
        assert(final(cache)@ =~= old(cache)@.insert(path@, CachedTree { tree, modified_time }));
        Ok((tree, lang))
    }

    /// Whether files like the one at `path` can be parsed.
    pub fn is_supported(&self, path: &str) -> (b: bool)
        ensures
            b == self.spec_registry().supports(path@),
    {
        self.parser.is_supported(path)
    }

    /// The registry of languages.
    pub fn registry(&self) -> (registry: &Arc<LanguageRegistry>)
        ensures
            **registry == self.spec_registry(),
    {
        self.parser.registry()
    }
}

/// The two languages of the TypeScript parser.
#[derive(Debug, Clone, Copy, PartialEq, Eq, Structural)]
pub enum LanguageType {
    TypeScript,
    TypeScriptReact,
}

/// The language of a path for the TypeScript parser: TSX for the
/// extension `tsx`, TypeScript for every other path.
pub open spec fn language_type_of(path: Seq<char>) -> LanguageType {
    if crate::language::extension_of(path) == Some("tsx"@) {
        LanguageType::TypeScriptReact
    } else {
        LanguageType::TypeScript
    }
}

/// Once a file's modification time differs from the one its tree was
/// cached with, a parser that can parse the file gives the syntax tree of the
/// text it is handed, never the cached tree, and the cache then holds that
/// tree under the file's path in place of the old one: it holds no more trees
/// than before. Where the time is the same, the cached tree is given and the
/// cache stays as it is.
pub proof fn lemma_parse_follows_time(
    parser: CachedParser,
    cache: Map<Seq<char>, CachedTree>,
    path: Seq<char>,
    source: Seq<char>,
    asked_at: ModifiedTime,
)
    requires
        cache.contains_key(path),
        parser.inner().parses(path),
    ensures
        ({
            let fresh = tree_of(parser.inner().grammar_for(path), source);
            let after = parser.cache_parsed(cache, path, source, asked_at);
            &&& asked_at != cache[path].modified_time ==> parser.tree_parsed(
                cache,
                path,
                source,
                asked_at,
            ) == Some(fresh) && after == cache.insert(
                path,
                CachedTree { tree: fresh, modified_time: asked_at },
            ) && after.dom() == cache.dom()
            &&& asked_at == cache[path].modified_time ==> parser.tree_parsed(
                cache,
                path,
                source,
                asked_at,
            ) == Some(cache[path].tree) && after == cache
        }),
{
    let fresh = tree_of(parser.inner().grammar_for(path), source);
    assert(cache.insert(path, CachedTree { tree: fresh, modified_time: asked_at }).dom()
        =~= cache.dom());
}

/// A parser for TypeScript and TSX, with the two queries compiled for each.
pub struct TypeScriptParser {
    parser: Parser,
    ts_language: Language,
    tsx_language: Language,
    definitions_query_ts: Query,
    definitions_query_tsx: Query,
    usages_query_ts: Query,
    usages_query_tsx: Query,
    current_language: Option<LanguageType>,
}

impl TypeScriptParser {
    /// The language that the parser is set to.
    pub closed spec fn current(&self) -> Option<LanguageType> {
        self.current_language
    }

    /// The language whose queries are in use: TSX where the parser is set to
    /// it, TypeScript in every other state.
    pub open spec fn language_in_use(&self) -> LanguageType {
        if self.current() == Some(LanguageType::TypeScriptReact) {
            LanguageType::TypeScriptReact
        } else {
            LanguageType::TypeScript
        }
    }

    /// The two parsers hold the same grammars and the same compiled queries.
    pub open spec fn same_queries(&self, other: Self) -> bool {
        &&& self.grammar_of(LanguageType::TypeScript) == other.grammar_of(LanguageType::TypeScript)
        &&& self.grammar_of(LanguageType::TypeScriptReact) == other.grammar_of(
            LanguageType::TypeScriptReact,
        )
        &&& self.definitions_for(LanguageType::TypeScript) == other.definitions_for(
            LanguageType::TypeScript,
        )
        &&& self.definitions_for(LanguageType::TypeScriptReact) == other.definitions_for(
            LanguageType::TypeScriptReact,
        )
        &&& self.usages_for(LanguageType::TypeScript) == other.usages_for(LanguageType::TypeScript)
        &&& self.usages_for(LanguageType::TypeScriptReact) == other.usages_for(
            LanguageType::TypeScriptReact,
        )
    }

    /// The grammar of `language`.
    pub closed spec fn grammar_of(&self, language: LanguageType) -> Language {
        match language {
            LanguageType::TypeScriptReact => self.tsx_language,
            LanguageType::TypeScript => self.ts_language,
        }
    }

    /// The parser holds the grammar of the language it is set to, and none
    /// where it is set to none.
    pub closed spec fn wf(&self) -> bool {
        grammar_held(self.parser) == match self.current_language {
            Some(language) => Some(self.grammar_of(language)),
            None => None,
        }
    }

    /// The parser can parse the file at `path`: it holds the grammar of the
    /// file's language or takes it.
    pub open spec fn parses(&self, path: Seq<char>) -> bool {
        self.current() == Some(language_type_of(path)) || grammar_accepted(
            self.grammar_of(language_type_of(path)),
        )
    }

    /// The language that the parser is set to after it was asked to parse
    /// the file at `path`: that of the file where it can parse the file, and
    /// the one it was set to before where not.
    pub open spec fn set_after(&self, path: Seq<char>) -> Option<LanguageType> {
        if self.parses(path) {
            Some(language_type_of(path))
        } else {
            self.current()
        }
    }

    /// The syntax tree of `source` as the file at `path`.
    pub open spec fn tree_for(&self, path: Seq<char>, source: Seq<char>) -> Tree {
        tree_of(self.grammar_of(language_type_of(path)), source)
    }

    /// The parser's queries are what the two texts compile to against each
    /// of its grammars.
    pub open spec fn compiled_from(&self, definitions: Seq<char>, usages: Seq<char>) -> bool {
        &&& compiled(self.grammar_of(LanguageType::TypeScript), definitions) == Some(
            self.definitions_for(LanguageType::TypeScript),
        )
        &&& compiled(self.grammar_of(LanguageType::TypeScriptReact), definitions) == Some(
            self.definitions_for(LanguageType::TypeScriptReact),
        )
        &&& compiled(self.grammar_of(LanguageType::TypeScript), usages) == Some(
            self.usages_for(LanguageType::TypeScript),
        )
        &&& compiled(self.grammar_of(LanguageType::TypeScriptReact), usages) == Some(
            self.usages_for(LanguageType::TypeScriptReact),
        )
    }

    /// The query for definitions that was compiled for `language`.
    pub closed spec fn definitions_for(&self, language: LanguageType) -> Query {
        match language {
            LanguageType::TypeScriptReact => self.definitions_query_tsx,
            LanguageType::TypeScript => self.definitions_query_ts,
        }
    }

    /// The query for usages that was compiled for `language`.
    pub closed spec fn usages_for(&self, language: LanguageType) -> Query {
        match language {
            LanguageType::TypeScriptReact => self.usages_query_tsx,
            LanguageType::TypeScript => self.usages_query_ts,
        }
    }

    /// A parser set to TypeScript, with the queries compiled from their
    /// texts for both grammars.
    pub fn new(definitions_source: &str, usages_source: &str) -> (r: Result<Self, ParseError>)
        ensures
            match r {
                Ok(parser) => parser.wf() && parser.current() == Some(LanguageType::TypeScript)
                    && grammar_accepted(parser.grammar_of(LanguageType::TypeScript))
                    && parser.compiled_from(definitions_source@, usages_source@),
                Err(e) => e is LanguageRejected || e is InvalidQuery,
            },
    {
        Self::with_grammars(typescript_grammar(), tsx_grammar(), definitions_source, usages_source)
    }

    /// Both query texts compile against both grammars.
    pub open spec fn queries_compile(
        ts_language: Language,
        tsx_language: Language,
        definitions: Seq<char>,
        usages: Seq<char>,
    ) -> bool {
        &&& compiled(ts_language, definitions) is Some
        &&& compiled(tsx_language, definitions) is Some
        &&& compiled(ts_language, usages) is Some
        &&& compiled(tsx_language, usages) is Some
    }

    /// A parser for the two grammars given, set to the first, with the
    /// queries compiled from their texts for both. Succeeds where the texts
    /// compile against both grammars and a parser takes the first grammar;
    /// a text that does not compile is reported before a grammar that is
    /// not taken.
    pub fn with_grammars(
        ts_language: Language,
        tsx_language: Language,
        definitions_source: &str,
        usages_source: &str,
    ) -> (r: Result<Self, ParseError>)
        ensures
            match r {
                Ok(parser) => parser.wf() && parser.current() == Some(LanguageType::TypeScript)
                    && parser.grammar_of(LanguageType::TypeScript) == ts_language
                    && parser.grammar_of(LanguageType::TypeScriptReact) == tsx_language
                    && grammar_accepted(ts_language) && parser.compiled_from(
                    definitions_source@,
                    usages_source@,
                ),
                Err(e) => if Self::queries_compile(
                    ts_language,
                    tsx_language,
                    definitions_source@,
                    usages_source@,
                ) {
                    !grammar_accepted(ts_language) && e is LanguageRejected
                } else {
                    e is InvalidQuery
                },
            },
    {
        let mut parser = Parser::new();
        let definitions_query_ts = match Query::new(&ts_language, definitions_source) {
            Ok(q) => q,
            Err(e) => {
                return Err(ParseError::InvalidQuery { message: query_error_text(&e) });
            },
        };
        let definitions_query_tsx = match Query::new(&tsx_language, definitions_source) {
            Ok(q) => q,
            Err(e) => {
                return Err(ParseError::InvalidQuery { message: query_error_text(&e) });
            },
        };
        let usages_query_ts = match Query::new(&ts_language, usages_source) {
            Ok(q) => q,
            Err(e) => {
                return Err(ParseError::InvalidQuery { message: query_error_text(&e) });
            },
        };
        let usages_query_tsx = match Query::new(&tsx_language, usages_source) {
            Ok(q) => q,
            Err(e) => {
                return Err(ParseError::InvalidQuery { message: query_error_text(&e) });
            },
        };
        match parser.set_language(&ts_language) {
            Ok(()) => {},
            Err(e) => {
                return Err(ParseError::LanguageRejected { message: language_error_text(&e) });
            },
        }
        Ok(
            TypeScriptParser {
                parser,
                ts_language,
                tsx_language,
                definitions_query_ts,
                definitions_query_tsx,
                usages_query_ts,
                usages_query_tsx,
                current_language: Some(LanguageType::TypeScript),
            },
        )
    }

    /// The language of a file, by its extension.
    fn get_language_type(path: &str) -> (t: LanguageType)
        ensures
            t == language_type_of(path@),
    {
        match file_extension(path) {
            Some(ext) => if str_eq(ext.as_str(), "tsx") {
                LanguageType::TypeScriptReact
            } else {
                LanguageType::TypeScript
            },
            None => LanguageType::TypeScript,
        }
    }

    /// Sets the parser to the language of the file at `path`.
    fn set_language_for_file(&mut self, path: &str) -> (r: Result<(), ParseError>)
        requires
            old(self).wf(),
        ensures
            final(self).wf(),
            final(self).same_queries(*old(self)),
            match r {
                Ok(()) => old(self).parses(path@) && final(self).current() == Some(
                    language_type_of(path@),
                ),
                Err(e) => !old(self).parses(path@) && e is LanguageRejected
                    && final(self).current() == old(self).current(),
            },
    {
        let lang_type = Self::get_language_type(path);
        let same = match self.current_language {
            Some(current) => current == lang_type,
            None => false,
        };
        if !same {
            let outcome = match lang_type {
                LanguageType::TypeScript => self.parser.set_language(&self.ts_language),
                LanguageType::TypeScriptReact => self.parser.set_language(&self.tsx_language),
            };
            match outcome {
                Ok(()) => {},
                Err(e) => {
                    return Err(ParseError::LanguageRejected { message: language_error_text(&e) });
                },
            }
            self.current_language = Some(lang_type);
        }
        Ok(())
    }

    /// Parses `source_code` as the language of the file at `path`. Succeeds
    /// where the parser can parse the file, with the syntax tree of the text
    /// under the grammar of the file's language.
    pub fn parse(&mut self, path: &str, source_code: &str) -> (r: Result<Tree, ParseError>)
        requires
            old(self).wf(),
        ensures
            final(self).wf(),
            final(self).same_queries(*old(self)),
            match r {
                Ok(tree) => old(self).parses(path@) && tree == old(self).tree_for(
                    path@,
                    source_code@,
                ) && final(self).current() == Some(language_type_of(path@)),
                Err(e) => !old(self).parses(path@) && e is LanguageRejected
                    && final(self).current() == old(self).current(),
            },
    {
        match self.set_language_for_file(path) {
            Ok(()) => {},
            Err(e) => {
                return Err(e);
            },
        }
        match parse_text(&mut self.parser, source_code) {
            Some(tree) => Ok(tree),
            None => Err(ParseError::ParseFailed),
        }
    }

    /// The query for definitions in the language that the parser is set to.
    pub fn definitions_query(&self) -> (query: &Query)
        ensures
            *query == self.definitions_for(self.language_in_use()),
    {
        match self.current_language {
            Some(LanguageType::TypeScriptReact) => &self.definitions_query_tsx,
            _ => &self.definitions_query_ts,
        }
    }

    /// The query for usages in the language that the parser is set to.
    pub fn usages_query(&self) -> (query: &Query)
        ensures
            *query == self.usages_for(self.language_in_use()),
    {
        match self.current_language {
            Some(LanguageType::TypeScriptReact) => &self.usages_query_tsx,
            _ => &self.usages_query_ts,
        }
    }

    /// Whether the file at `path` is a TypeScript or TSX file.
    pub fn is_typescript_file(path: &str) -> (b: bool)
        ensures
            b == (crate::language::extension_of(path@) == Some("ts"@)
                || crate::language::extension_of(path@) == Some("tsx"@)),
    {
        match file_extension(path) {
            Some(ext) => str_eq(ext.as_str(), "ts") || str_eq(ext.as_str(), "tsx"),
            None => false,
        }
    }
}

} // verus!
