//! Definitions of a symbol: which matches of a definitions query define it,
//! and the documentation that belongs to each.

use crate::comment::{docs_before, extract_docs_before_line};
use crate::gather::{
    gather_matches, gathered, lemma_gathered_read, text_at, Chains, ChainsView,
};
use crate::language::{kind_for, kind_in, mapping_views, LanguageId, SymbolKindMapping};
use crate::parser::{language_type_of, ParseError, TypeScriptParser};
use crate::sql_comment::{
    dotted, find_parent_table_name, join_dotted, parent_table, SqlCommentMap,
};
use crate::syntax::{
    capture_views, match_list_views, text_or_empty, CapturedNode, CapturedNodeView, QueryMatch,
};
use crate::text::str_eq;
use crate::types::{
    definition_views, opt_text, SymbolDefinition, SymbolDefinitionView, SymbolKind,
};
use tree_sitter::{Query, Tree};
use vstd::prelude::*;

verus! {

/// The name that a match gives: the text of the last of its first `n`
/// captures that is named `name`, empty where that text cannot be read.
pub open spec fn match_name(captures: Seq<CapturedNodeView>, n: int) -> Option<Seq<char>>
    decreases n,
{
    if n <= 0 || n > captures.len() {
        None
    } else if captures[n - 1].capture == "name"@ {
        Some(text_or_empty(captures[n - 1].text))
    } else {
        match_name(captures, n - 1)
    }
}

/// The defining node of a match, with its kind: the last of its first `n`
/// captures, other than `name`, whose name the table knows.
pub open spec fn match_definition(
    table: Seq<(Seq<char>, SymbolKind)>,
    captures: Seq<CapturedNodeView>,
    n: int,
) -> Option<(CapturedNodeView, SymbolKind)>
    decreases n,
{
    if n <= 0 || n > captures.len() {
        None
    } else if captures[n - 1].capture != "name"@ && kind_in(table, captures[n - 1].capture)
        is Some {
        Some((captures[n - 1], kind_in(table, captures[n - 1].capture)->0))
    } else {
        match_definition(table, captures, n - 1)
    }
}

/// The line above which documentation is looked for, counted from 0.
pub open spec fn row_of(start_line: nat) -> nat {
    if start_line > 0 {
        (start_line - 1) as nat
    } else {
        0
    }
}

/// The key under which separate documentation of a definition is filed: a
/// column inside a table under `table.column`, anything else under its name.
pub open spec fn docs_key(node: CapturedNodeView, kind: SymbolKind, name: Seq<char>) -> Seq<char> {
    if kind == SymbolKind::Column {
        match parent_table(node.ancestors, 0) {
            Some(table) => dotted(table, name),
            None => name,
        }
    } else {
        name
    }
}

/// How a search for definitions is made.
pub struct DefinitionSearch {
    /// The file's name.
    pub file: Seq<char>,
    /// The file's text.
    pub source: Seq<char>,
    /// Whether documentation is attached.
    pub include_docs: bool,
    /// The documentation that stands in statements of its own, in a language
    /// that has such statements.
    pub separate_docs: Option<Map<Seq<char>, Seq<char>>>,
    /// The language's table of captures and kinds.
    pub table: Seq<(Seq<char>, SymbolKind)>,
}

/// The documentation of a definition: none unless asked for; in a language
/// with separate documentation what is filed under the definition's key,
/// else the comment directly above the definition.
pub open spec fn docs_of(
    q: DefinitionSearch,
    node: CapturedNodeView,
    kind: SymbolKind,
    name: Seq<char>,
) -> Option<Seq<char>> {
    if !q.include_docs {
        None
    } else {
        match q.separate_docs {
            Some(map) => {
                let key = docs_key(node, kind, name);
                if map.contains_key(key) {
                    Some(map[key])
                } else {
                    None
                }
            },
            None => docs_before(q.source, row_of(node.start_line)),
        }
    }
}

/// The definition that a match yields, when it has a name and a defining
/// node.
pub open spec fn definition_of(q: DefinitionSearch, captures: Seq<CapturedNodeView>) -> Option<
    SymbolDefinitionView,
> {
    let n = captures.len() as int;
    match (match_name(captures, n), match_definition(q.table, captures, n)) {
        (Some(name), Some((node, kind))) => Some(
            SymbolDefinitionView {
                file_path: q.file,
                start_line: node.start_line,
                end_line: node.end_line,
                node_kind: kind,
                code: text_or_empty(node.text),
                name,
                docs: docs_of(q, node, kind, name),
            },
        ),
        _ => None,
    }
}

/// The definitions of `symbol` among the matches from index `i` on.
pub open spec fn definitions_from(
    q: DefinitionSearch,
    symbol: Seq<char>,
    matches: Seq<Seq<CapturedNodeView>>,
    i: int,
) -> Seq<SymbolDefinitionView>
    decreases matches.len() - i,
{
    if i < 0 || i >= matches.len() {
        seq![]
    } else {
        match definition_of(q, matches[i]) {
            Some(d) => if d.name == symbol {
                seq![d] + definitions_from(q, symbol, matches, i + 1)
            } else {
                definitions_from(q, symbol, matches, i + 1)
            },
            None => definitions_from(q, symbol, matches, i + 1),
        }
    }
}

/// Every definition found is made from one captured node of one match: it
/// starts and ends on that node's lines and its code is that node's text. It
/// is named by the symbol and stands in the searched file.
pub proof fn lemma_definitions_from_records(
    q: DefinitionSearch,
    symbol: Seq<char>,
    matches: Seq<Seq<CapturedNodeView>>,
    i: int,
    k: int,
)
    requires
        0 <= i,
        0 <= k < definitions_from(q, symbol, matches, i).len(),
    ensures
        definitions_from(q, symbol, matches, i)[k].name == symbol,
        definitions_from(q, symbol, matches, i)[k].file_path == q.file,
        exists|m: int, c: int|
            i <= m < matches.len() && 0 <= c < matches[m].len() && made_from(
                definitions_from(q, symbol, matches, i)[k],
                #[trigger] matches[m][c],
            ),
    decreases matches.len() - i,
{
    let all = definitions_from(q, symbol, matches, i);
    let rest = definitions_from(q, symbol, matches, i + 1);
    match definition_of(q, matches[i]) {
        Some(d) => {
            if d.name == symbol {
                assert(all == seq![d] + rest);
                if k == 0 {
                    let n = matches[i].len() as int;
                    lemma_match_definition(q.table, matches[i], n);
                    let c = choose|c: int|
                        0 <= c < n && defining_node(q.table, matches[i], n) == Some(
                            #[trigger] matches[i][c],
                        );
                    assert(made_from(all[k], matches[i][c]));
                } else {
                    assert(all[k] == rest[k - 1]);
                    lemma_definitions_from_records(q, symbol, matches, i + 1, k - 1);
                }
            } else {
                lemma_definitions_from_records(q, symbol, matches, i + 1, k);
            }
        },
        None => {
            lemma_definitions_from_records(q, symbol, matches, i + 1, k);
        },
    }
}

/// The defining node of a match, without its kind.
pub open spec fn defining_node(
    table: Seq<(Seq<char>, SymbolKind)>,
    captures: Seq<CapturedNodeView>,
    n: int,
) -> Option<CapturedNodeView> {
    match match_definition(table, captures, n) {
        Some((node, _)) => Some(node),
        None => None,
    }
}

/// The defining node of a match is one of its captures.
proof fn lemma_match_definition(
    table: Seq<(Seq<char>, SymbolKind)>,
    captures: Seq<CapturedNodeView>,
    n: int,
)
    requires
        match_definition(table, captures, n) is Some,
    ensures
        exists|c: int|
            0 <= c < n && n <= captures.len() && defining_node(table, captures, n) == Some(
                #[trigger] captures[c],
            ),
    decreases n,
{
    if n <= 0 || n > captures.len() {
    } else if captures[n - 1].capture != "name"@ && kind_in(table, captures[n - 1].capture)
        is Some {
        assert(defining_node(table, captures, n) == Some(captures[n - 1]));
    } else {
        lemma_match_definition(table, captures, n - 1);
        let c = choose|c: int|
            0 <= c < n - 1 && defining_node(table, captures, n - 1) == Some(
                #[trigger] captures[c],
            );
        assert(defining_node(table, captures, n) == Some(captures[c]));
    }
}

/// The definition has the lines of the captured node, and the node's text
/// as its code.
pub open spec fn made_from(d: SymbolDefinitionView, node: CapturedNodeView) -> bool {
    &&& d.start_line == node.start_line
    &&& d.end_line == node.end_line
    &&& d.code == text_or_empty(node.text)
}

/// Lines are counted from 1 and code is cut from the text: every definition
/// made from what a query finds in a tree of `source` starts and ends on a
/// line of number 1 or more, and its code is a part of `source`, or empty
/// where the node does not lie inside `source`.
pub proof fn lemma_definition_lines(
    q: DefinitionSearch,
    symbol: Seq<char>,
    query: Query,
    tree: &Tree,
    source: Seq<char>,
    chains: ChainsView,
    k: int,
)
    requires
        0 <= k < definitions_from(q, symbol, gathered(query, tree, source, chains), 0).len(),
    ensures
        ({
            let d = definitions_from(q, symbol, gathered(query, tree, source, chains), 0)[k];
            &&& d.start_line >= 1
            &&& d.end_line >= 1
            &&& d.name == symbol
            &&& d.file_path == q.file
            &&& exists|start: int, end: int|
                d.code == text_or_empty(#[trigger] text_at(source, start, end))
        }),
{
    let matches = gathered(query, tree, source, chains);
    let d = definitions_from(q, symbol, matches, 0)[k];
    lemma_definitions_from_records(q, symbol, matches, 0, k);
    let (m, c) = choose|m: int, c: int|
        0 <= m < matches.len() && 0 <= c < matches[m].len() && made_from(
            d,
            #[trigger] matches[m][c],
        );
    lemma_gathered_read(query, tree, source, chains, m, c);
    let (start, end) = choose|start: int, end: int|
        matches[m][c].text == #[trigger] text_at(source, start, end);
    assert(d.code == text_or_empty(text_at(source, start, end)));
}

/// The search that these arguments describe.
pub open spec fn definition_search(
    file_path: Seq<char>,
    source: Seq<char>,
    include_docs: bool,
    separate_docs: Option<&SqlCommentMap>,
    table: Seq<SymbolKindMapping>,
) -> DefinitionSearch {
    DefinitionSearch {
        file: file_path,
        source,
        include_docs,
        separate_docs: match separate_docs {
            Some(m) => Some(m@),
            None => None,
        },
        table: mapping_views(table),
    }
}

fn find_name(captures: &Vec<CapturedNode>) -> (name: Option<String>)
    ensures
        opt_text(name) == match_name(capture_views(captures@), captures@.len() as int),
{
    let ghost all = capture_views(captures@);
    let mut i: usize = captures.len();
    while i > 0
        invariant
            i <= captures@.len(),
            all == capture_views(captures@),
            match_name(all, captures@.len() as int) == match_name(all, i as int),
        decreases i,
    {
        assert(all[i - 1] == captures@[i - 1]@);
        if str_eq(captures[i - 1].capture.as_str(), "name") {
            return match &captures[i - 1].text {
                Some(t) => Some(t.clone()),
                None => Some(String::new()),
            };
        }
        i -= 1;
    }
    None
}

fn find_definition(table: &Vec<SymbolKindMapping>, captures: &Vec<CapturedNode>) -> (found: Option<
    (usize, SymbolKind),
>)
    ensures
        match found {
            Some((k, kind)) => k < captures@.len() && match_definition(
                mapping_views(table@),
                capture_views(captures@),
                captures@.len() as int,
            ) == Some((captures@[k as int]@, kind)),
            None => match_definition(
                mapping_views(table@),
                capture_views(captures@),
                captures@.len() as int,
            ) is None,
        },
{
    let ghost all = capture_views(captures@);
    let ghost lines = mapping_views(table@);
    let mut i: usize = captures.len();
    while i > 0
        invariant
            i <= captures@.len(),
            all == capture_views(captures@),
            lines == mapping_views(table@),
            match_definition(lines, all, captures@.len() as int) == match_definition(
                lines,
                all,
                i as int,
            ),
        decreases i,
    {
        assert(all[i - 1] == captures@[i - 1]@);
        if !str_eq(captures[i - 1].capture.as_str(), "name") {
            match kind_for(table, captures[i - 1].capture.as_str()) {
                Some(kind) => {
                    return Some((i - 1, kind));
                },
                None => {},
            }
        }
        i -= 1;
    }
    None
}

fn docs_for(
    source: &str,
    include_docs: bool,
    separate_docs: Option<&SqlCommentMap>,
    node: &CapturedNode,
    kind: SymbolKind,
    name: &str,
) -> (docs: Option<String>)
    ensures
        forall|file: Seq<char>, table: Seq<SymbolKindMapping>|
            opt_text(docs) == docs_of(
                #[trigger] definition_search(file, source@, include_docs, separate_docs, table),
                node@,
                kind,
                name@,
            ),
{
    if !include_docs {
        return None;
    }
    match separate_docs {
        Some(map) => {
            let key = if kind == SymbolKind::Column {
                match find_parent_table_name(&node.ancestors) {
                    Some(table) => join_dotted(table.as_str(), name),
                    None => name.to_owned(),
                }
            } else {
                name.to_owned()
            };
            match map.get(key.as_str()) {
                Some(text) => Some(text.clone()),
                None => None,
            }
        },
        None => {
            let row: usize = if node.start_line > 0 {
                node.start_line - 1
            } else {
                0
            };
            extract_docs_before_line(source, row)
        },
    }
}

fn definition_in_match(
    file_path: &str,
    source: &str,
    include_docs: bool,
    separate_docs: Option<&SqlCommentMap>,
    table: &Vec<SymbolKindMapping>,
    captures: &Vec<CapturedNode>,
    only: Option<&str>,
) -> (d: Option<SymbolDefinition>)
    ensures
        ({
            let q = definition_search(file_path@, source@, include_docs, separate_docs, table@);
            match definition_of(q, capture_views(captures@)) {
                Some(v) => match only {
                    Some(wanted) => if v.name == wanted@ {
                        d is Some && d->0@ == v
                    } else {
                        d is None
                    },
                    None => d is Some && d->0@ == v,
                },
                None => d is None,
            }
        }),
{
    let name = find_name(captures);
    let found = find_definition(table, captures);
    match (name, found) {
        (Some(name_str), Some((k, symbol_kind))) => {
            let keep = match only {
                Some(wanted) => str_eq(name_str.as_str(), wanted),
                None => true,
            };
            if !keep {
                return None;
            }
            let node = &captures[k];
            let code = match &node.text {
                Some(t) => t.clone(),
                None => String::new(),
            };
            let docs = docs_for(
                source,
                include_docs,
                separate_docs,
                node,
                symbol_kind,
                name_str.as_str(),
            );
            Some(
                SymbolDefinition {
                    file_path: file_path.to_owned(),
                    start_line: node.start_line,
                    end_line: node.end_line,
                    node_kind: symbol_kind,
                    code,
                    name: name_str,
                    docs,
                },
            )
        },
        _ => None,
    }
}

/// Turns the matches of a definitions query in one file into the
/// definitions of `symbol`. With `include_docs`, each definition gets its
/// documentation: from `separate_docs` where the language keeps documentation
/// in statements of its own, else from the comment above the definition.
pub fn collect_definitions(
    file_path: &str,
    source: &str,
    symbol: &str,
    include_docs: bool,
    separate_docs: Option<&SqlCommentMap>,
    table: &Vec<SymbolKindMapping>,
    matches: &Vec<QueryMatch>,
) -> (definitions: Vec<SymbolDefinition>)
    ensures
        definition_views(definitions@) == definitions_from(
            definition_search(file_path@, source@, include_docs, separate_docs, table@),
            symbol@,
            match_list_views(matches@),
            0,
        ),
{
    let ghost q = definition_search(file_path@, source@, include_docs, separate_docs, table@);
    let ghost all = match_list_views(matches@);
    let ghost whole = definitions_from(q, symbol@, all, 0);
    let mut definitions: Vec<SymbolDefinition> = Vec::new();
    let mut i: usize = 0;
    assert(definition_views(definitions@) =~= Seq::<SymbolDefinitionView>::empty());
    assert(definition_views(definitions@) + whole =~= whole);
    while i < matches.len()
        invariant
            i <= matches@.len(),
            q == definition_search(file_path@, source@, include_docs, separate_docs, table@),
            all == match_list_views(matches@),
            definition_views(definitions@) + definitions_from(q, symbol@, all, i as int) == whole,
        decreases matches@.len() - i,
    {
        let ghost so_far = definition_views(definitions@);
        assert(all[i as int] == capture_views(matches@[i as int].captures@));
        match definition_in_match(
            file_path,
            source,
            include_docs,
            separate_docs,
            table,
            &matches[i].captures,
            Some(symbol),
        ) {
            Some(d) => {
                let ghost rest = definitions_from(q, symbol@, all, i + 1);
                let ghost v = d@;
                definitions.push(d);
                assert(definition_views(definitions@) =~= so_far + seq![v]);
                assert((so_far + seq![v]) + rest =~= so_far + (seq![v] + rest));
            },
            None => {},
        }
        i += 1;
    }
    assert(definition_views(definitions@) + Seq::<SymbolDefinitionView>::empty()
        =~= definition_views(definitions@));
    definitions
}

/// The line that is looked for, counted from 1: a request for line 0 means line 1.
pub open spec fn target_line(line: nat) -> nat {
    if line >= 1 {
        line
    } else {
        1
    }
}

/// The smallest definition that encloses the line among the matches from
/// index `i` on, where `best` of `best_size` lines more than one is the
/// smallest met so far. Of two of the same size the earlier one stays.
pub open spec fn smallest_from(
    q: DefinitionSearch,
    matches: Seq<Seq<CapturedNodeView>>,
    i: int,
    line: nat,
    best: Option<SymbolDefinitionView>,
    best_size: nat,
) -> Option<SymbolDefinitionView>
    decreases matches.len() - i,
{
    if i < 0 || i >= matches.len() {
        best
    } else {
        match definition_of(q, matches[i]) {
            Some(d) => if d.start_line <= target_line(line) <= d.end_line && d.end_line
                - d.start_line < best_size {
                smallest_from(q, matches, i + 1, line, Some(d), (d.end_line - d.start_line) as nat)
            } else {
                smallest_from(q, matches, i + 1, line, best, best_size)
            },
            None => smallest_from(q, matches, i + 1, line, best, best_size),
        }
    }
}

/// Finds the smallest definition that encloses line number `line` (counted
/// from 1), whatever its name, among the matches of a definitions query.
pub fn symbol_at_location(
    file_path: &str,
    source: &str,
    line: usize,
    table: &Vec<SymbolKindMapping>,
    matches: &Vec<QueryMatch>,
) -> (best: Option<SymbolDefinition>)
    ensures
        opt_definition(best) == smallest_from(
            definition_search(file_path@, source@, false, None, table@),
            match_list_views(matches@),
            0,
            line as nat,
            None,
            usize::MAX as nat,
        ),
{
    let ghost q = definition_search(file_path@, source@, false, None, table@);
    let ghost all = match_list_views(matches@);
    let target: usize = if line >= 1 {
        line
    } else {
        1
    };
    let mut best_symbol: Option<SymbolDefinition> = None;
    let mut best_size: usize = usize::MAX;
    let mut i: usize = 0;
    while i < matches.len()
        invariant
            i <= matches@.len(),
            all == match_list_views(matches@),
            target == target_line(line as nat),
            q == definition_search(file_path@, source@, false, None, table@),
            smallest_from(
                q,
                all,
                i as int,
                line as nat,
                opt_definition(best_symbol),
                best_size as nat,
            ) == smallest_from(q, all, 0, line as nat, None, usize::MAX as nat),
        decreases matches@.len() - i,
    {
        assert(all[i as int] == capture_views(matches@[i as int].captures@));
        match definition_in_match(file_path, source, false, None, table, &matches[i].captures, None) {
            Some(d) => {
                if target >= d.start_line && target <= d.end_line {
                    let size = d.end_line - d.start_line;
                    if size < best_size {
                        best_size = size;
                        best_symbol = Some(d);
                    }
                }
            },
            None => {},
        }
        i += 1;
    }
    best_symbol
}

/// The value of an optional definition.
pub open spec fn opt_definition(d: Option<SymbolDefinition>) -> Option<SymbolDefinitionView> {
    match d {
        Some(def) => Some(def@),
        None => None,
    }
}

/// The search for definitions in a TypeScript file.
pub open spec fn typescript_search(file: Seq<char>, source: Seq<char>, include_docs: bool) -> DefinitionSearch {
    DefinitionSearch {
        file,
        source,
        include_docs,
        separate_docs: None,
        table: LanguageId::TypeScript.mapping_table(),
    }
}

/// What the definitions query of the parser finds in the file at `path`
/// with the text `source`, as records.
pub open spec fn typescript_matches(parser: TypeScriptParser, path: Seq<char>, source: Seq<char>) -> Seq<
    Seq<CapturedNodeView>,
> {
    gathered(
        parser.definitions_for(language_type_of(path)),
        &parser.tree_for(path, source),
        source,
        ChainsView::Skip,
    )
}

/// Finds the definitions of `symbol_name` in a TypeScript or TSX file with
/// the content `source`: the file is parsed, the definitions query is run,
/// and its matches are turned into definitions. Succeeds where the parser can
/// parse the file.
pub fn find_definitions_in_file(
    parser: &mut TypeScriptParser,
    file_path: &str,
    source: &str,
    symbol_name: &str,
    include_docs: bool,
) -> (r: Result<Vec<SymbolDefinition>, ParseError>)
    requires
        old(parser).wf(),
    ensures
        final(parser).wf(),
        final(parser).same_queries(*old(parser)),
        final(parser).current() == old(parser).set_after(file_path@),
        match r {
            Ok(definitions) => old(parser).parses(file_path@) && definition_views(definitions@)
                == definitions_from(
                typescript_search(file_path@, source@, include_docs),
                symbol_name@,
                typescript_matches(*old(parser), file_path@, source@),
                0,
            ),
            Err(e) => !old(parser).parses(file_path@) && e is LanguageRejected,
        },
{
    let tree = match parser.parse(file_path, source) {
        Ok(tree) => tree,
        Err(e) => {
            return Err(e);
        },
    };
    let matches = gather_matches(parser.definitions_query(), &tree, source, &Chains::Skip);
    let table = LanguageId::TypeScript.definition_mappings();
    let definitions = collect_definitions(
        file_path,
        source,
        symbol_name,
        include_docs,
        None,
        &table,
        &matches,
    );
    Ok(definitions)
}

/// Finds the smallest definition that encloses line number `line` (counted
/// from 1) of a TypeScript or TSX file with the content `source`. Succeeds
/// where the parser can parse the file.
pub fn find_symbol_at_location(
    parser: &mut TypeScriptParser,
    file_path: &str,
    source: &str,
    line: usize,
) -> (r: Result<Option<SymbolDefinition>, ParseError>)
    requires
        old(parser).wf(),
    ensures
        final(parser).wf(),
        final(parser).same_queries(*old(parser)),
        final(parser).current() == old(parser).set_after(file_path@),
        match r {
            Ok(best) => old(parser).parses(file_path@) && opt_definition(best) == smallest_from(
                typescript_search(file_path@, source@, false),
                typescript_matches(*old(parser), file_path@, source@),
                0,
                line as nat,
                None,
                usize::MAX as nat,
            ),
            Err(e) => !old(parser).parses(file_path@) && e is LanguageRejected,
        },
{
    let tree = match parser.parse(file_path, source) {
        Ok(tree) => tree,
        Err(e) => {
            return Err(e);
        },
    };
    let matches = gather_matches(parser.definitions_query(), &tree, source, &Chains::Skip);
    let table = LanguageId::TypeScript.definition_mappings();
    let best = symbol_at_location(file_path, source, line, &table, &matches);
    Ok(best)
}

} // verus!
