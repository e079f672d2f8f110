//! Usages of a symbol: how each is classified, which are kept, and what is
//! reported of them.

use crate::context::{contexts_from, extract_contexts};
use crate::syntax::{
    ancestor_views, capture_views, text_or_empty, Ancestor, AncestorView, CapturedNode,
    CapturedNodeView,
};
use crate::gather::{
    flatten_captures, flattened, gather_matches, gathered, lemma_flattened_from,
    lemma_gathered_read, Chains, ChainsView,
};
use crate::parser::{language_type_of, ParseError, TypeScriptParser};
use crate::text::str_eq;
use crate::types::{opt_text, usage_views, SymbolUsage, SymbolUsageView, UsageKind};
use std::collections::HashSet;
use tree_sitter::{Query, Tree};
use vstd::prelude::*;
use vstd::string::StringExecFns;

verus! {

/// A node of this kind is part of an import.
pub open spec fn is_import_kind(kind: Seq<char>) -> bool {
    kind == "import_statement"@ || kind == "import_specifier"@ || kind == "import_clause"@
}

/// One of the enclosing nodes is part of an import.
pub open spec fn in_import(ancestors: Seq<AncestorView>) -> bool {
    exists|i: int| 0 <= i < ancestors.len() && is_import_kind(#[trigger] ancestors[i].kind)
}

/// A node of this kind is part of a type.
pub open spec fn is_type_kind(kind: Seq<char>) -> bool {
    kind == "type_annotation"@ || kind == "type_reference"@ || kind == "generic_type"@
}

/// One of the enclosing nodes is part of a type, however far up.
pub open spec fn in_type(ancestors: Seq<AncestorView>) -> bool {
    exists|i: int| 0 <= i < ancestors.len() && is_type_kind(#[trigger] ancestors[i].kind)
}

/// The node is the property of a member access that has an object: its
/// parent is a member expression whose `property` field is the node itself.
/// `is_property` says whether the node is what its parent has in that field.
pub open spec fn is_member_property(is_property: bool, ancestors: Seq<AncestorView>) -> bool {
    ancestors.len() >= 1 && ancestors[0].kind == "member_expression"@ && is_property
        && ancestors[0].has_object
}

/// The member access above the node is what a call calls: the grandparent is
/// a call expression whose `function` field is the member access.
pub open spec fn is_called(ancestors: Seq<AncestorView>) -> bool {
    ancestors.len() >= 2 && ancestors[1].kind == "call_expression"@ && ancestors[0].is_function
}

/// How a node is used, and on which object. The property of a member access
/// is a method call where the access is called, a property access otherwise,
/// and the object is the other side of the access. Any other node is a type
/// reference where a type encloses it, and a plain identifier where none
/// does. `is_property` says whether the node is what its parent has in the
/// field `property`.
pub open spec fn classify(is_property: bool, ancestors: Seq<AncestorView>) -> (
    UsageKind,
    Option<Seq<char>>,
) {
    if is_member_property(is_property, ancestors) {
        if is_called(ancestors) {
            (UsageKind::MethodCall, ancestors[0].object_text)
        } else {
            (UsageKind::PropertyAccess, ancestors[0].object_text)
        }
    } else if in_type(ancestors) {
        (UsageKind::TypeReference, None)
    } else {
        (UsageKind::Identifier, None)
    }
}

/// Whether a node with these enclosing nodes stands inside an import.
pub fn is_in_import_statement(ancestors: &Vec<Ancestor>) -> (b: bool)
    ensures
        b == in_import(ancestor_views(ancestors@)),
{
    let ghost chain = ancestor_views(ancestors@);
    let mut i: usize = 0;
    while i < ancestors.len()
        invariant
            i <= ancestors@.len(),
            chain == ancestor_views(ancestors@),
            forall|k: int| 0 <= k < i ==> !is_import_kind(#[trigger] chain[k].kind),
        decreases ancestors@.len() - i,
    {
        let kind = ancestors[i].kind.as_str();
        if str_eq(kind, "import_statement") || str_eq(kind, "import_specifier") || str_eq(
            kind,
            "import_clause",
        ) {
            assert(is_import_kind(chain[i as int].kind));
            return true;
        }
        i += 1;
    }
    false
}

fn is_in_type(ancestors: &Vec<Ancestor>) -> (b: bool)
    ensures
        b == in_type(ancestor_views(ancestors@)),
{
    let ghost chain = ancestor_views(ancestors@);
    let mut i: usize = 0;
    while i < ancestors.len()
        invariant
            i <= ancestors@.len(),
            chain == ancestor_views(ancestors@),
            forall|k: int| 0 <= k < i ==> !is_type_kind(#[trigger] chain[k].kind),
        decreases ancestors@.len() - i,
    {
        let kind = ancestors[i].kind.as_str();
        if str_eq(kind, "type_annotation") || str_eq(kind, "type_reference") || str_eq(
            kind,
            "generic_type",
        ) {
            assert(is_type_kind(chain[i as int].kind));
            return true;
        }
        i += 1;
    }
    false
}

/// Classifies the usage at a node and names the object it is used on.
/// `is_property` says whether the node is what its parent has in the field
/// `property`.
pub fn extract_member_access_info(is_property: bool, ancestors: &Vec<Ancestor>) -> (r: (
    UsageKind,
    Option<String>,
))
    ensures
        r.0 == classify(is_property, ancestor_views(ancestors@)).0,
        opt_text(r.1) == classify(is_property, ancestor_views(ancestors@)).1,
{
    let ghost chain = ancestor_views(ancestors@);
    if ancestors.len() >= 1 {
        let parent = &ancestors[0];
        assert(chain[0] == parent@);
        if str_eq(parent.kind.as_str(), "member_expression") && is_property && parent.has_object {
            let object_name = parent.object_text.clone();
            if ancestors.len() >= 2 {
                let grandparent = &ancestors[1];
                assert(chain[1] == grandparent@);
                if str_eq(grandparent.kind.as_str(), "call_expression") && parent.is_function {
                    return (UsageKind::MethodCall, object_name);
                }
            }
            return (UsageKind::PropertyAccess, object_name);
        }
    }
    if is_in_type(ancestors) {
        (UsageKind::TypeReference, None)
    } else {
        (UsageKind::Identifier, None)
    }
}

/// What a search for usages asks for.
pub struct UsageSearch {
    /// The file's name.
    pub file: Seq<char>,
    /// The symbol searched for.
    pub symbol: Seq<char>,
    /// Whether usages inside imports are reported.
    pub include_imports: bool,
    /// How many enclosing scopes are reported with each usage.
    pub max_contexts: nat,
    /// Where given, only usages on this object are reported.
    pub object_filter: Option<Seq<char>>,
}

/// `object.symbol` where there is an object, the bare symbol otherwise.
pub open spec fn qualified(object: Option<Seq<char>>, symbol: Seq<char>) -> Seq<char> {
    match object {
        Some(obj) => obj + seq!['.'] + symbol,
        None => symbol,
    }
}

/// A captured node is a candidate where it was captured as `usage` and its
/// text is the symbol.
pub open spec fn is_candidate(q: UsageSearch, site: CapturedNodeView) -> bool {
    site.capture == "usage"@ && text_or_empty(site.text) == q.symbol
}

/// The usage reported for a candidate, if it passes the filters. A node
/// inside an import is an `Import` without an object, and is dropped unless
/// imports are included. With an object filter, only usages on that very
/// object are kept.
pub open spec fn usage_at(q: UsageSearch, site: CapturedNodeView) -> Option<SymbolUsageView> {
    let import = in_import(site.ancestors);
    if import && !q.include_imports {
        None
    } else {
        let found: (UsageKind, Option<Seq<char>>) = if import {
            (UsageKind::Import, None)
        } else {
            classify(site.is_property, site.ancestors)
        };
        if q.object_filter is Some && found.1 != q.object_filter {
            None
        } else {
            Some(
                SymbolUsageView {
                    file_path: q.file,
                    line: site.start_line,
                    column: site.start_column,
                    qualified_name: qualified(found.1, q.symbol),
                    usage_kind: found.0,
                    object_name: found.1,
                    contexts: contexts_from(site.ancestors, 0, q.max_contexts),
                },
            )
        }
    }
}

/// The usages reported for the captured nodes from index `i` on, where the
/// places in `seen` were met before. Of several candidates at one line and
/// column only the first counts.
pub open spec fn usages_from(
    q: UsageSearch,
    sites: Seq<CapturedNodeView>,
    i: int,
    seen: Set<(nat, nat)>,
) -> Seq<SymbolUsageView>
    decreases sites.len() - i,
{
    if i < 0 || i >= sites.len() {
        seq![]
    } else {
        let site = sites[i];
        let place = (site.start_line, site.start_column);
        if !is_candidate(q, site) || seen.contains(place) {
            usages_from(q, sites, i + 1, seen)
        } else {
            let rest = usages_from(q, sites, i + 1, seen.insert(place));
            match usage_at(q, site) {
                Some(u) => seq![u] + rest,
                None => rest,
            }
        }
    }
}

/// The usages reported for `sites`.
pub open spec fn usages_of(q: UsageSearch, sites: Seq<CapturedNodeView>) -> Seq<SymbolUsageView> {
    usages_from(q, sites, 0, Set::empty())
}

/// No two reported usages stand at the same line and column, and none stands
/// at a place that was met before.
pub proof fn lemma_usages_distinct(
    q: UsageSearch,
    sites: Seq<CapturedNodeView>,
    i: int,
    seen: Set<(nat, nat)>,
)
    requires
        0 <= i,
    ensures
        forall|a: int|
            0 <= a < usages_from(q, sites, i, seen).len() ==> !seen.contains(
                (
                    (#[trigger] usages_from(q, sites, i, seen)[a]).line,
                    usages_from(q, sites, i, seen)[a].column,
                ),
            ),
        forall|a: int, b: int|
            0 <= a < b < usages_from(q, sites, i, seen).len() ==> ((#[trigger] usages_from(
                q,
                sites,
                i,
                seen,
            )[a]).line, usages_from(q, sites, i, seen)[a].column) != ((#[trigger] usages_from(
                q,
                sites,
                i,
                seen,
            )[b]).line, usages_from(q, sites, i, seen)[b].column),
    decreases sites.len() - i,
{
    if i >= sites.len() {
    } else {
        let site = sites[i];
        let place = (site.start_line, site.start_column);
        if !is_candidate(q, site) || seen.contains(place) {
            lemma_usages_distinct(q, sites, i + 1, seen);
        } else {
            let rest = usages_from(q, sites, i + 1, seen.insert(place));
            lemma_usages_distinct(q, sites, i + 1, seen.insert(place));
            let all = usages_from(q, sites, i, seen);
            match usage_at(q, site) {
                Some(u) => {
                    assert(all == seq![u] + rest);
                    assert(forall|a: int| 1 <= a < all.len() ==> all[a] == rest[a - 1]);
                    assert((u.line, u.column) == place);
                },
                None => {
                    assert(all == rest);
                },
            }
        }
    }
}

/// A search never reports two usages at the same line and column.
pub proof fn lemma_no_duplicate_usages(q: UsageSearch, sites: Seq<CapturedNodeView>)
    ensures
        forall|a: int, b: int|
            0 <= a < b < usages_of(q, sites).len() ==> ((#[trigger] usages_of(q, sites)[a]).line,
                usages_of(q, sites)[a].column) != ((#[trigger] usages_of(q, sites)[b]).line,
                usages_of(q, sites)[b].column),
{
    lemma_usages_distinct(q, sites, 0, Set::empty());
}

/// Every reported usage answers the search: it stands in the searched file,
/// its qualified name is made of its object and the symbol, it comes with no
/// more contexts than were asked for, it is no import unless imports are
/// included, and it is a usage on the object of the filter where there is one.
pub proof fn lemma_usages_answer_search(
    q: UsageSearch,
    sites: Seq<CapturedNodeView>,
    i: int,
    seen: Set<(nat, nat)>,
)
    requires
        0 <= i,
    ensures
        forall|a: int|
            0 <= a < usages_from(q, sites, i, seen).len() ==> {
                let u = #[trigger] usages_from(q, sites, i, seen)[a];
                &&& u.file_path == q.file
                &&& u.qualified_name == qualified(u.object_name, q.symbol)
                &&& u.contexts.len() <= q.max_contexts
                &&& (!q.include_imports ==> u.usage_kind != UsageKind::Import)
                &&& (u.usage_kind == UsageKind::Import ==> u.object_name is None)
                &&& (q.object_filter is Some ==> u.object_name == q.object_filter)
            },
    decreases sites.len() - i,
{
    if i >= sites.len() {
    } else {
        let site = sites[i];
        let place = (site.start_line, site.start_column);
        if !is_candidate(q, site) || seen.contains(place) {
            lemma_usages_answer_search(q, sites, i + 1, seen);
        } else {
            let rest = usages_from(q, sites, i + 1, seen.insert(place));
            lemma_usages_answer_search(q, sites, i + 1, seen.insert(place));
            let all = usages_from(q, sites, i, seen);
            match usage_at(q, site) {
                Some(u) => {
                    assert(all == seq![u] + rest);
                    assert(forall|a: int| 1 <= a < all.len() ==> all[a] == rest[a - 1]);
                    crate::context::lemma_context_bound(site.ancestors, 0, q.max_contexts);
                    lemma_classify_kinds(site.is_property, site.ancestors);
                },
                None => {
                    assert(all == rest);
                },
            }
        }
    }
}

/// Every reported usage is the usage of one of the captured nodes: a
/// candidate, at whose line and column the usage stands and from whose
/// enclosing nodes its contexts are read.
pub proof fn lemma_usages_from_sites(
    q: UsageSearch,
    sites: Seq<CapturedNodeView>,
    i: int,
    seen: Set<(nat, nat)>,
    k: int,
)
    requires
        0 <= i,
        0 <= k < usages_from(q, sites, i, seen).len(),
    ensures
        exists|s: int|
            i <= s < sites.len() && is_candidate(q, sites[s]) && #[trigger] usage_at(q, sites[s])
                == Some(usages_from(q, sites, i, seen)[k]),
    decreases sites.len() - i,
{
    let site = sites[i];
    let place = (site.start_line, site.start_column);
    if !is_candidate(q, site) || seen.contains(place) {
        lemma_usages_from_sites(q, sites, i + 1, seen, k);
    } else {
        let rest = usages_from(q, sites, i + 1, seen.insert(place));
        let all = usages_from(q, sites, i, seen);
        match usage_at(q, site) {
            Some(u) => {
                assert(all == seq![u] + rest);
                if k == 0 {
                    assert(usage_at(q, sites[i]) == Some(all[k]));
                } else {
                    assert(all[k] == rest[k - 1]);
                    lemma_usages_from_sites(q, sites, i + 1, seen.insert(place), k - 1);
                }
            },
            None => {
                lemma_usages_from_sites(q, sites, i + 1, seen.insert(place), k);
            },
        }
    }
}

/// Lines are counted from 1: every usage reported among what a query finds
/// in a tree stands on a line of number 1 or more, and so does each of its
/// contexts, from its first line to its last.
pub proof fn lemma_usage_lines(
    q: UsageSearch,
    query: Query,
    tree: &Tree,
    source: Seq<char>,
    chains: ChainsView,
    k: int,
)
    requires
        0 <= k < usages_of(q, flattened(gathered(query, tree, source, chains))).len(),
    ensures
        usages_of(q, flattened(gathered(query, tree, source, chains)))[k].line >= 1,
        forall|c: int|
            0 <= c < usages_of(q, flattened(gathered(query, tree, source, chains)))[k].contexts.len()
                ==> (#[trigger] usages_of(
                q,
                flattened(gathered(query, tree, source, chains)),
            )[k].contexts[c]).start_line >= 1 && usages_of(
                q,
                flattened(gathered(query, tree, source, chains)),
            )[k].contexts[c].end_line >= 1,
{
    let matches = gathered(query, tree, source, chains);
    let sites = flattened(matches);
    let u = usages_of(q, sites)[k];
    lemma_usages_from_sites(q, sites, 0, Set::empty(), k);
    let s = choose|s: int|
        0 <= s < sites.len() && is_candidate(q, sites[s]) && #[trigger] usage_at(q, sites[s])
            == Some(u);
    lemma_flattened_from(matches, s);
    let (i, j) = choose|i: int, j: int|
        0 <= i < matches.len() && 0 <= j < matches[i].len() && sites[s] == #[trigger] matches[i][j];
    lemma_gathered_read(query, tree, source, chains, i, j);
    assert forall|c: int| 0 <= c < u.contexts.len() implies (#[trigger] u.contexts[c]).start_line
        >= 1 && u.contexts[c].end_line >= 1 by {
        crate::context::lemma_context_lines(sites[s].ancestors, 0, q.max_contexts, c);
    }
}

/// A classification never gives `Import`, and only a member access names an
/// object.
pub proof fn lemma_classify_kinds(is_property: bool, ancestors: Seq<AncestorView>)
    ensures
        classify(is_property, ancestors).0 != UsageKind::Import,
        classify(is_property, ancestors).1 is Some ==> classify(is_property, ancestors).0
            == UsageKind::MethodCall || classify(is_property, ancestors).0
            == UsageKind::PropertyAccess,
{
}

/// The number under which a place is kept in the set of places met: the
/// line in its upper half, the column in its lower half.
pub open spec fn place_key(line: nat, column: nat) -> nat {
    line * 0x1_0000_0000_0000_0000 + column
}

/// Two places have the same number only where they are the same place.
pub proof fn lemma_place_key(a: (nat, nat), b: (nat, nat))
    requires
        a.1 < 0x1_0000_0000_0000_0000,
        b.1 < 0x1_0000_0000_0000_0000,
        place_key(a.0, a.1) == place_key(b.0, b.1),
    ensures
        a == b,
{
    let (x, y, u, v) = (a.0 as int, a.1 as int, b.0 as int, b.1 as int);
    assert(x * 0x1_0000_0000_0000_0000 + y == u * 0x1_0000_0000_0000_0000 + v && 0 <= y
        < 0x1_0000_0000_0000_0000 && 0 <= v < 0x1_0000_0000_0000_0000 ==> x == u && y == v)
        by (nonlinear_arith);
}

/// The number of a place.
fn key_of(line: usize, column: usize) -> (key: u128)
    ensures
        key == place_key(line as nat, column as nat),
{
    let upper: u128 = line as u128;
    let lower: u128 = column as u128;
    assert(upper * 0x1_0000_0000_0000_0000 + lower <= u128::MAX) by (nonlinear_arith)
        requires
            upper <= 0xffff_ffff_ffff_ffff,
            lower <= 0xffff_ffff_ffff_ffff,
    ;
    upper * 0x1_0000_0000_0000_0000u128 + lower
}

/// The places whose numbers are in `seen`.
pub open spec fn places(seen: Set<u128>) -> Set<(nat, nat)> {
    Set::new(
        |p: (nat, nat)|
            p.0 <= usize::MAX && p.1 <= usize::MAX && seen.contains(place_key(p.0, p.1) as u128),
    )
}

proof fn lemma_places_insert(seen: Set<u128>, line: usize, column: usize)
    ensures
        places(seen.insert(place_key(line as nat, column as nat) as u128)) == places(seen).insert(
            (line as nat, column as nat),
        ),
{
    let key = place_key(line as nat, column as nat) as u128;
    let after = places(seen.insert(key));
    let wanted = places(seen).insert((line as nat, column as nat));
    assert forall|p: (nat, nat)| after.contains(p) <==> wanted.contains(p) by {
        if p.0 <= usize::MAX && p.1 <= usize::MAX {
            lemma_key_fits(p.0, p.1);
            lemma_key_fits(line as nat, column as nat);
            if place_key(p.0, p.1) == place_key(line as nat, column as nat) {
                lemma_place_key(p, (line as nat, column as nat));
            }
        }
    }
    assert(after =~= wanted);
}

/// The number of a place that a machine can count fits in 128 bits.
proof fn lemma_key_fits(line: nat, column: nat)
    requires
        line <= usize::MAX,
        column <= usize::MAX,
    ensures
        place_key(line, column) <= u128::MAX,
{
    assert(line * 0x1_0000_0000_0000_0000 + column <= u128::MAX) by (nonlinear_arith)
        requires
            line <= 0xffff_ffff_ffff_ffff,
            column <= 0xffff_ffff_ffff_ffff,
    ;
}

/// `object.symbol` where there is an object, the bare symbol otherwise.
pub fn qualified_name(object: &Option<String>, symbol: &str) -> (name: String)
    ensures
        name@ == qualified(opt_text(*object), symbol@),
{
    match object {
        Some(obj) => {
            let mut name = obj.clone();
            name.push('.');
            name.append(symbol);
            name
        },
        None => symbol.to_owned(),
    }
}

/// The search that these arguments describe.
pub open spec fn search_of(
    file_path: Seq<char>,
    symbol: Seq<char>,
    include_imports: bool,
    max_contexts: usize,
    object_filter: Option<String>,
) -> UsageSearch {
    UsageSearch {
        file: file_path,
        symbol,
        include_imports,
        max_contexts: max_contexts as nat,
        object_filter: opt_text(object_filter),
    }
}

/// Turns the nodes that a usage query captured in one file into the usages
/// to report. `sites` holds the captured nodes in the order of the query's
/// matches.
pub fn collect_usages(
    file_path: &str,
    symbol: &str,
    include_imports: bool,
    max_contexts: usize,
    object_filter: &Option<String>,
    sites: &Vec<CapturedNode>,
) -> (usages: Vec<SymbolUsage>)
    ensures
        usage_views(usages@) == usages_of(
            search_of(file_path@, symbol@, include_imports, max_contexts, *object_filter),
            capture_views(sites@),
        ),
{
    let ghost q = search_of(file_path@, symbol@, include_imports, max_contexts, *object_filter);
    let ghost all = capture_views(sites@);
    let ghost whole = usages_of(q, all);
    let mut usages: Vec<SymbolUsage> = Vec::new();
    let mut seen: HashSet<u128> = HashSet::new();
    let mut i: usize = 0;
    assert(places(seen@) =~= Set::<(nat, nat)>::empty());
    assert(usage_views(usages@) =~= Seq::<SymbolUsageView>::empty());
    assert(usage_views(usages@) + whole =~= whole);
    while i < sites.len()
        invariant
            i <= sites@.len(),
            q == search_of(file_path@, symbol@, include_imports, max_contexts, *object_filter),
            all == capture_views(sites@),
            usage_views(usages@) + usages_from(q, all, i as int, places(seen@)) == whole,
        decreases sites@.len() - i,
    {
        let site = &sites[i];
        assert(all[i as int] == site@);
        let ghost so_far = usage_views(usages@);
        let ghost place = (site@.start_line, site@.start_column);
        let text_matches = match &site.text {
            Some(t) => str_eq(t.as_str(), symbol),
            None => str_eq("", symbol),
        };
        proof {
            reveal_strlit("");
            assert(""@ =~= Seq::<char>::empty());
        }
        if !str_eq(site.capture.as_str(), "usage") || !text_matches {
            i += 1;
            continue ;
        }
        let key = key_of(site.start_line, site.start_column);
        if seen.contains(&key) {
            i += 1;
            continue ;
        }
        proof {
            lemma_places_insert(seen@, site.start_line, site.start_column);
        }
        seen.insert(key);
        let is_import = is_in_import_statement(&site.ancestors);
        if !include_imports && is_import {
            i += 1;
            continue ;
        }
        let (usage_kind, object_name) = if is_import {
            (UsageKind::Import, None)
        } else {
            extract_member_access_info(site.is_property, &site.ancestors)
        };
        if let Some(filter) = object_filter {
            let keep = match &object_name {
                Some(obj) => *obj == *filter,
                None => false,
            };
            if !keep {
                i += 1;
                continue ;
            }
        }
        let contexts = extract_contexts(&site.ancestors, max_contexts);
        let qualified_name = qualified_name(&object_name, symbol);
        let usage = SymbolUsage {
            file_path: file_path.to_owned(),
            line: site.start_line,
            column: site.start_column,
            qualified_name,
            usage_kind,
            object_name,
            contexts,
        };
        assert(usage_at(q, site@) == Some(usage@));
        usages.push(usage);
        proof {
            let rest = usages_from(q, all, i + 1, places(seen@));
            assert(usage_views(usages@) =~= so_far + seq![usage@]);
            assert((so_far + seq![usage@]) + rest =~= so_far + (seq![usage@] + rest));
        }
        i += 1;
    }
    assert(usage_views(usages@) + Seq::<SymbolUsageView>::empty() =~= usage_views(usages@));
    usages
}

/// The search that these arguments describe.
pub open spec fn search_for(
    file_path: Seq<char>,
    symbol: Seq<char>,
    include_imports: bool,
    max_contexts: usize,
    object_filter: Option<&str>,
) -> UsageSearch {
    UsageSearch {
        file: file_path,
        symbol,
        include_imports,
        max_contexts: max_contexts as nat,
        object_filter: match object_filter {
            Some(f) => Some(f@),
            None => None,
        },
    }
}

/// The nodes that the usages query of the parser captures in the file at
/// `path` with the text `source`, as records, in the order of the matches.
/// The enclosing nodes are read for the nodes captured as `usage` whose text
/// is the symbol.
pub open spec fn typescript_sites(
    parser: TypeScriptParser,
    path: Seq<char>,
    source: Seq<char>,
    symbol: Seq<char>,
) -> Seq<CapturedNodeView> {
    flattened(
        gathered(
            parser.usages_for(language_type_of(path)),
            &parser.tree_for(path, source),
            source,
            ChainsView::NamedWithText { capture: "usage"@, text: symbol },
        ),
    )
}

/// Finds the usages of `symbol_name` in a TypeScript or TSX file with the
/// content `source`: the file is parsed, the usages query is run, and the
/// nodes it captured are turned into usages. Succeeds where the parser can
/// parse the file.
pub fn find_usages_in_file(
    parser: &mut TypeScriptParser,
    file_path: &str,
    source: &str,
    symbol_name: &str,
    include_imports: bool,
    max_contexts: usize,
    object_filter: Option<&str>,
) -> (r: Result<Vec<SymbolUsage>, ParseError>)
    requires
        old(parser).wf(),
    ensures
        final(parser).wf(),
        final(parser).same_queries(*old(parser)),
        final(parser).current() == old(parser).set_after(file_path@),
        match r {
            Ok(usages) => old(parser).parses(file_path@) && usage_views(usages@) == usages_of(
                search_for(file_path@, symbol_name@, include_imports, max_contexts, object_filter),
                typescript_sites(*old(parser), file_path@, source@, symbol_name@),
            ),
            Err(e) => !old(parser).parses(file_path@) && e is LanguageRejected,
        },
{
    let tree = match parser.parse(file_path, source) {
        Ok(tree) => tree,
        Err(e) => {
            return Err(e);
        },
    };
    let chains = Chains::NamedWithText {
        capture: "usage".to_owned(),
        text: symbol_name.to_owned(),
    };
    let matches = gather_matches(parser.usages_query(), &tree, source, &chains);
    let sites = flatten_captures(matches);
    let filter: Option<String> = match object_filter {
        Some(f) => Some(f.to_owned()),
        None => None,
    };
    let usages = collect_usages(
        file_path,
        symbol_name,
        include_imports,
        max_contexts,
        &filter,
        &sites,
    );
    Ok(usages)
}

} // verus!
