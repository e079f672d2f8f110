//! Reading a parsed tree: runs a query and puts down, as plain records, what
//! the searches need to know of the nodes it captured.

use crate::syntax::{
    ancestor_views, capture_views, child_views, leaf_views, match_list_views, Ancestor,
    AncestorView, CapturedNode, CapturedNodeView, ChildNode, ChildNodeView, LeafNode,
    LeafNodeView, QueryMatch,
};
use crate::text::{bytes_between, slice_text, str_eq};
use crate::treesitter::{
    capture_lists, captured, field_child, in_field, names_of, node_child, node_child_count,
    node_end, node_end_byte, node_field, node_kind, node_parent, node_start, node_start_byte,
    query_matches, stands_in_field,
};
use crate::types::opt_text;
use tree_sitter::{Node, Query, QueryCapture, QueryCursor, Tree};
use vstd::prelude::*;
use vstd::utf8::{decode_utf8, encode_utf8_decode_utf8};

verus! {

/// For which captured nodes the enclosing nodes are read.
pub enum Chains {
    /// For none.
    Skip,
    /// For the nodes captured under this name.
    Named { capture: String },
    /// For the nodes captured under this name whose text is this text.
    NamedWithText { capture: String, text: String },
}

/// Mathematical value of a `Chains`.
pub enum ChainsView {
    Skip,
    Named { capture: Seq<char> },
    NamedWithText { capture: Seq<char>, text: Seq<char> },
}

impl View for Chains {
    type V = ChainsView;

    open spec fn view(&self) -> ChainsView {
        match self {
            Chains::Skip => ChainsView::Skip,
            Chains::Named { capture } => ChainsView::Named { capture: capture@ },
            Chains::NamedWithText { capture, text } => ChainsView::NamedWithText {
                capture: capture@,
                text: text@,
            },
        }
    }
}

/// The line of a row: rows are counted from 0, lines from 1. The last row
/// that a machine can count is its own line.
pub open spec fn line_at(row: usize) -> nat {
    if row < usize::MAX {
        (row + 1) as nat
    } else {
        row as nat
    }
}

/// The line of a row.
fn line_of(row: usize) -> (line: usize)
    ensures
        line == line_at(row),
        line >= 1,
{
    if row < usize::MAX {
        row + 1
    } else {
        row
    }
}

/// The part of `source` between two byte offsets, where both fall between
/// characters and inside the text, and the first does not lie behind the
/// second.
pub open spec fn text_at(source: Seq<char>, start: int, end: int) -> Option<Seq<char>> {
    match bytes_between(source, start, end) {
        Some(bytes) => Some(decode_utf8(bytes)),
        None => None,
    }
}

/// The source text of a node: the part of `source` between the byte offsets
/// at which the node starts and ends.
pub open spec fn text_of(node: Node<'_>, source: Seq<char>) -> Option<Seq<char>> {
    text_at(source, node_start_byte(node) as int, node_end_byte(node) as int)
}

/// The source text of a node.
pub fn node_text(node: &Node<'_>, source: &str) -> (text: Option<String>)
    ensures
        opt_text(text) == text_of(*node, source@),
{
    let start = node.start_byte();
    let end = node.end_byte();
    match slice_text(source, start, end) {
        Some(t) => {
            proof {
                encode_utf8_decode_utf8(t@);
            }
            Some(t.to_owned())
        },
        None => None,
    }
}

/// The records of those of the first `n` children of `node` that exist,
/// each with its kind and text.
pub open spec fn leaves_upto(node: Node<'_>, source: Seq<char>, n: int) -> Seq<LeafNodeView>
    decreases n,
{
    if n <= 0 {
        seq![]
    } else {
        let rest = leaves_upto(node, source, n - 1);
        match node_child(node, (n - 1) as u32) {
            Some(child) => rest.push(
                LeafNodeView { kind: node_kind(child), text: text_of(child, source) },
            ),
            None => rest,
        }
    }
}

/// The records of the children of `node`.
pub open spec fn leaves_of(node: Node<'_>, source: Seq<char>) -> Seq<LeafNodeView> {
    leaves_upto(node, source, node_child_count(node) as int)
}

/// The children of `node`, each with its kind and text.
fn gather_leaves(node: &Node<'_>, source: &str) -> (leaves: Vec<LeafNode>)
    ensures
        leaf_views(leaves@) == leaves_of(*node, source@),
{
    let mut leaves: Vec<LeafNode> = Vec::new();
    let count = node.child_count();
    let mut i: u32 = 0;
    assert(leaf_views(leaves@) =~= leaves_upto(*node, source@, 0));
    while i < count
        invariant
            i <= count,
            leaf_views(leaves@) == leaves_upto(*node, source@, i as int),
        decreases count - i,
    {
        let ghost before = leaf_views(leaves@);
        if let Some(child) = node.child(i) {
            let leaf = LeafNode { kind: child.kind().to_owned(), text: node_text(&child, source) };
            leaves.push(leaf);
            assert(leaf_views(leaves@) =~= before.push(leaf@));
        }
        i += 1;
    }
    leaves
}

/// The records of those of the first `n` children of `node` that exist,
/// each with its kind and its own children.
pub open spec fn children_upto(node: Node<'_>, source: Seq<char>, n: int) -> Seq<ChildNodeView>
    decreases n,
{
    if n <= 0 {
        seq![]
    } else {
        let rest = children_upto(node, source, n - 1);
        match node_child(node, (n - 1) as u32) {
            Some(child) => rest.push(
                ChildNodeView { kind: node_kind(child), children: leaves_of(child, source) },
            ),
            None => rest,
        }
    }
}

/// The records of the children of `node`, each with its own children.
pub open spec fn children_of(node: Node<'_>, source: Seq<char>) -> Seq<ChildNodeView> {
    children_upto(node, source, node_child_count(node) as int)
}

/// The children of `node`, each with its kind and its own children.
fn gather_children(node: &Node<'_>, source: &str) -> (children: Vec<ChildNode>)
    ensures
        child_views(children@) == children_of(*node, source@),
{
    let mut children: Vec<ChildNode> = Vec::new();
    let count = node.child_count();
    let mut i: u32 = 0;
    assert(child_views(children@) =~= children_upto(*node, source@, 0));
    while i < count
        invariant
            i <= count,
            child_views(children@) == children_upto(*node, source@, i as int),
        decreases count - i,
    {
        let ghost before = child_views(children@);
        if let Some(child) = node.child(i) {
            let record = ChildNode {
                kind: child.kind().to_owned(),
                children: gather_leaves(&child, source),
            };
            children.push(record);
            assert(child_views(children@) =~= before.push(record@));
        }
        i += 1;
    }
    children
}

/// The text of the child of `node` in the field `field`, where there is
/// such a child and its text can be read.
pub open spec fn field_text(node: Node<'_>, field: Seq<char>, source: Seq<char>) -> Option<
    Seq<char>,
> {
    match node_field(node, field) {
        Some(child) => text_of(child, source),
        None => None,
    }
}

/// The record of an enclosing node: its kind, its lines, the texts of its
/// `name` and `object` fields, whether it is what its parent has in the field
/// `function`, and, of a `create_table` statement, its children.
pub open spec fn ancestor_of(node: Node<'_>, source: Seq<char>) -> AncestorView {
    AncestorView {
        kind: node_kind(node),
        start_line: line_at(node_start(node).row),
        end_line: line_at(node_end(node).row),
        name: field_text(node, "name"@, source),
        has_object: node_field(node, "object"@) is Some,
        object_text: field_text(node, "object"@, source),
        is_function: in_field(node, "function"@),
        children: if node_kind(node) == "create_table"@ {
            children_of(node, source)
        } else {
            seq![]
        },
    }
}

/// What is read of an enclosing node. The children are read of a
/// `create_table` statement only.
fn gather_ancestor(node: &Node<'_>, source: &str) -> (ancestor: Ancestor)
    ensures
        ancestor@ == ancestor_of(*node, source@),
{
    let kind = node.kind();
    let name = match field_child(node, "name") {
        Some(child) => node_text(&child, source),
        None => None,
    };
    let (has_object, object_text) = match field_child(node, "object") {
        Some(child) => (true, node_text(&child, source)),
        None => (false, None),
    };
    let is_function = stands_in_field(node, "function");
    let children = if str_eq(kind, "create_table") {
        gather_children(node, source)
    } else {
        Vec::new()
    };
    assert(!(kind@ == "create_table"@) ==> child_views(children@) =~= Seq::<
        ChildNodeView,
    >::empty());
    Ancestor {
        kind: kind.to_owned(),
        start_line: line_of(node.start_position().row),
        end_line: line_of(node.end_position().row),
        name,
        has_object,
        object_text,
        is_function,
        children,
    }
}

/// The records of the nodes from `next` upwards, each the parent of the one
/// before it, as far as `fuel` steps reach.
pub open spec fn chain_from(next: Option<Node<'_>>, source: Seq<char>, fuel: nat) -> Seq<
    AncestorView,
>
    decreases fuel,
{
    match next {
        Some(node) => if fuel > 0 {
            seq![ancestor_of(node, source)] + chain_from(
                node_parent(node),
                source,
                (fuel - 1) as nat,
            )
        } else {
            seq![]
        },
        None => seq![],
    }
}

/// The records of the nodes that enclose `node`, the parent first.
pub open spec fn chain_of(node: Node<'_>, source: Seq<char>) -> Seq<AncestorView> {
    chain_from(node_parent(node), source, usize::MAX as nat)
}

/// The nodes that enclose `node`, the parent first and the root last.
pub fn gather_ancestors(node: &Node<'_>, source: &str) -> (ancestors: Vec<Ancestor>)
    ensures
        ancestor_views(ancestors@) == chain_of(*node, source@),
{
    let mut ancestors: Vec<Ancestor> = Vec::new();
    let mut next = node.parent();
    let mut steps: usize = 0;
    let ghost whole = chain_of(*node, source@);
    assert(ancestor_views(ancestors@) =~= Seq::<AncestorView>::empty());
    assert(ancestor_views(ancestors@) + whole =~= whole);
    while steps < usize::MAX
        invariant_except_break
            ancestor_views(ancestors@) + chain_from(next, source@, (usize::MAX - steps) as nat)
                == whole,
        invariant
            steps <= usize::MAX,
        ensures
            ancestor_views(ancestors@) == whole,
        decreases usize::MAX - steps,
    {
        let ghost so_far = ancestor_views(ancestors@);
        match next {
            Some(parent) => {
                let record = gather_ancestor(&parent, source);
                let ghost rest = chain_from(
                    node_parent(parent),
                    source@,
                    (usize::MAX - steps - 1) as nat,
                );
                ancestors.push(record);
                assert(ancestor_views(ancestors@) =~= so_far + seq![record@]);
                assert((so_far + seq![record@]) + rest =~= so_far + (seq![record@] + rest));
                next = parent.parent();
            },
            None => {
                assert(so_far + Seq::<AncestorView>::empty() =~= so_far);
                break ;
            },
        }
        steps += 1;
    }
    proof {
        if steps == usize::MAX {
            assert(chain_from(next, source@, 0) =~= Seq::<AncestorView>::empty());
            assert(ancestor_views(ancestors@) + Seq::<AncestorView>::empty() =~= ancestor_views(
                ancestors@,
            ));
        }
    }
    ancestors
}

/// Whether the enclosing nodes of a node captured as `capture` with text
/// `text` are read under `chains`.
pub open spec fn wants_chain(chains: ChainsView, capture: Seq<char>, text: Option<Seq<char>>) -> bool {
    match chains {
        ChainsView::Skip => false,
        ChainsView::Named { capture: wanted } => capture == wanted,
        ChainsView::NamedWithText { capture: wanted, text: wanted_text } => capture == wanted
            && crate::syntax::text_or_empty(text) == wanted_text,
    }
}

fn chain_wanted(chains: &Chains, capture: &str, text: &Option<String>) -> (b: bool)
    ensures
        b == wants_chain(chains@, capture@, opt_text(*text)),
{
    match chains {
        Chains::Skip => false,
        Chains::Named { capture: wanted } => str_eq(capture, wanted.as_str()),
        Chains::NamedWithText { capture: wanted, text: wanted_text } => {
            proof {
                reveal_strlit("");
                assert(""@ =~= Seq::<char>::empty());
            }
            str_eq(capture, wanted.as_str()) && match text {
                Some(t) => str_eq(t.as_str(), wanted_text.as_str()),
                None => str_eq("", wanted_text.as_str()),
            }
        },
    }
}

/// The record of a node captured under the name `capture`: its text, where
/// it starts and ends, and, where `chains` asks for them, its enclosing nodes
/// and whether it is what its parent has in the field `property`.
pub open spec fn capture_of(
    capture: Seq<char>,
    node: Node<'_>,
    source: Seq<char>,
    chains: ChainsView,
) -> CapturedNodeView {
    CapturedNodeView {
        capture,
        is_property: wants_chain(chains, capture, text_of(node, source)) && in_field(
            node,
            "property"@,
        ),
        text: text_of(node, source),
        start_line: line_at(node_start(node).row),
        start_column: node_start(node).column as nat,
        end_line: line_at(node_end(node).row),
        ancestors: if wants_chain(chains, capture, text_of(node, source)) {
            chain_of(node, source)
        } else {
            seq![]
        },
    }
}

/// What is read of a captured node. Its enclosing nodes are read only where
/// `chains` asks for them; the record holds no ancestors otherwise.
pub fn gather_capture(capture: &str, node: &Node<'_>, source: &str, chains: &Chains) -> (captured:
    CapturedNode)
    ensures
        captured@ == capture_of(capture@, *node, source@, chains@),
{
    let text = node_text(node, source);
    let (is_property, ancestors) = if chain_wanted(chains, capture, &text) {
        (stands_in_field(node, "property"), gather_ancestors(node, source))
    } else {
        let none: Vec<Ancestor> = Vec::new();
        assert(ancestor_views(none@) =~= Seq::<AncestorView>::empty());
        (false, none)
    };
    let start = node.start_position();
    CapturedNode {
        capture: capture.to_owned(),
        is_property,
        text,
        start_line: line_of(start.row),
        start_column: start.column,
        end_line: line_of(node.end_position().row),
        ancestors,
    }
}

/// The records of those of the first `n` captures of a match whose index
/// names a capture, each under the name that its index gives.
pub open spec fn captures_upto(
    names: Seq<Seq<char>>,
    raw: Seq<QueryCapture<'_>>,
    source: Seq<char>,
    chains: ChainsView,
    n: int,
) -> Seq<CapturedNodeView>
    decreases n,
{
    if n <= 0 || n > raw.len() {
        seq![]
    } else {
        let rest = captures_upto(names, raw, source, chains, n - 1);
        if raw[n - 1].index < names.len() {
            rest.push(capture_of(names[raw[n - 1].index as int], raw[n - 1].node, source, chains))
        } else {
            rest
        }
    }
}

/// The records of the matches: for each match the records of its captures.
pub open spec fn records_of(
    names: Seq<Seq<char>>,
    raw: Seq<Seq<QueryCapture<'_>>>,
    source: Seq<char>,
    chains: ChainsView,
) -> Seq<Seq<CapturedNodeView>> {
    Seq::new(
        raw.len(),
        |i: int| captures_upto(names, raw[i], source, chains, raw[i].len() as int),
    )
}

/// What a query finds in a tree of `source`, as records: the matches in the
/// order in which they are found, each with the nodes it captured.
pub open spec fn gathered(query: Query, tree: &Tree, source: Seq<char>, chains: ChainsView) -> Seq<
    Seq<CapturedNodeView>,
> {
    records_of(names_of(query), captured(query, tree, source), source, chains)
}

/// Runs `query` over `tree` and hands out its matches, each with the nodes
/// it captured. `source` is the text that the tree was parsed from.
pub fn gather_matches(query: &Query, tree: &Tree, source: &str, chains: &Chains) -> (matches: Vec<
    QueryMatch,
>)
    ensures
        match_list_views(matches@) == gathered(*query, tree, source@, chains@),
{
    let names = query.capture_names();
    let mut cursor = QueryCursor::new();
    let raw = query_matches(&mut cursor, query, tree, source);
    let ghost lists = capture_lists(raw@);
    let ghost whole = gathered(*query, tree, source@, chains@);
    let ghost labels = names_of(*query);
    let mut matches: Vec<QueryMatch> = Vec::new();
    let mut i: usize = 0;
    assert(match_list_views(matches@) =~= whole.take(0));
    while i < raw.len()
        invariant
            i <= raw@.len(),
            lists == capture_lists(raw@),
            lists == captured(*query, tree, source@),
            labels == names_of(*query),
            names@.len() == labels.len(),
            forall|j: int| 0 <= j < names@.len() ==> (#[trigger] names@[j])@ == labels[j],
            whole == records_of(labels, lists, source@, chains@),
            match_list_views(matches@) == whole.take(i as int),
        decreases raw@.len() - i,
    {
        let mut captures: Vec<CapturedNode> = Vec::new();
        let mut k: usize = 0;
        let ghost one = lists[i as int];
        assert(one == raw@[i as int]@);
        assert(capture_views(captures@) =~= captures_upto(labels, one, source@, chains@, 0));
        while k < raw[i].len()
            invariant
                i < raw@.len(),
                one == raw@[i as int]@,
                k <= one.len(),
                labels == names_of(*query),
                names@.len() == labels.len(),
                forall|j: int| 0 <= j < names@.len() ==> (#[trigger] names@[j])@ == labels[j],
                capture_views(captures@) == captures_upto(
                    labels,
                    one,
                    source@,
                    chains@,
                    k as int,
                ),
            decreases one.len() - k,
        {
            let ghost before = capture_views(captures@);
            let index = raw[i][k].index as usize;
            if index < names.len() {
                let record = gather_capture(names[index], &raw[i][k].node, source, chains);
                captures.push(record);
                assert(capture_views(captures@) =~= before.push(record@));
            }
            k += 1;
        }
        let ghost so_far = match_list_views(matches@);
        let found = QueryMatch { captures };
        matches.push(found);
        assert(match_list_views(matches@) =~= so_far.push(found@));
        assert(whole.take(i + 1) =~= whole.take(i as int).push(whole[i as int]));
        i += 1;
    }
    assert(whole.take(i as int) =~= whole);
    matches
}

/// The captured nodes of all matches, one match after the other.
pub open spec fn flattened(matches: Seq<Seq<CapturedNodeView>>) -> Seq<CapturedNodeView>
    decreases matches.len(),
{
    if matches.len() == 0 {
        seq![]
    } else {
        flattened(matches.drop_last()) + matches.last()
    }
}

/// The captured nodes of all matches, in the order of the matches.
pub fn flatten_captures(matches: Vec<QueryMatch>) -> (captures: Vec<CapturedNode>)
    ensures
        capture_views(captures@) == flattened(match_list_views(matches@)),
{
    let ghost all = match_list_views(matches@);
    let mut captures: Vec<CapturedNode> = Vec::new();
    assert(capture_views(captures@) =~= Seq::<CapturedNodeView>::empty());
    assert(all.take(0) =~= Seq::<Seq<CapturedNodeView>>::empty());
    for found in it: matches
        invariant
            all == match_list_views(it.seq()),
            capture_views(captures@) == flattened(all.take(it.index() as int)),
    {
        proof {
            let k = it.index() as int;
            assert(all.take(k + 1).drop_last() =~= all.take(k));
            assert(all.take(k + 1).last() == found@);
        }
        let ghost before = capture_views(captures@);
        let ghost more = found@;
        let mut taken = found.captures;
        captures.append(&mut taken);
        assert(capture_views(captures@) =~= before + more);
    }
    assert(all.take(all.len() as int) =~= all);
    captures
}

/// The record was read from `source`, with lines counted from 1: the node and
/// every node that encloses it start and end on a line of number 1 or more,
/// and the node's text, where it has one, is a part of `source`.
pub open spec fn read_from(record: CapturedNodeView, source: Seq<char>) -> bool {
    &&& record.start_line >= 1
    &&& record.end_line >= 1
    &&& exists|start: int, end: int| record.text == #[trigger] text_at(source, start, end)
    &&& forall|k: int|
        0 <= k < record.ancestors.len() ==> (#[trigger] record.ancestors[k]).start_line >= 1
            && record.ancestors[k].end_line >= 1
}

/// Every record of a chain of enclosing nodes starts and ends on a line of
/// number 1 or more.
pub proof fn lemma_chain_lines(next: Option<Node<'_>>, source: Seq<char>, fuel: nat)
    ensures
        forall|k: int|
            0 <= k < chain_from(next, source, fuel).len() ==> (#[trigger] chain_from(
                next,
                source,
                fuel,
            )[k]).start_line >= 1 && chain_from(next, source, fuel)[k].end_line >= 1,
    decreases fuel,
{
    match next {
        Some(node) => {
            if fuel > 0 {
                lemma_chain_lines(node_parent(node), source, (fuel - 1) as nat);
            }
        },
        None => {},
    }
}

/// Every record of the captures of a match was read from the source.
pub proof fn lemma_captures_read(
    names: Seq<Seq<char>>,
    raw: Seq<QueryCapture<'_>>,
    source: Seq<char>,
    chains: ChainsView,
    n: int,
)
    ensures
        forall|j: int|
            0 <= j < captures_upto(names, raw, source, chains, n).len() ==> read_from(
                #[trigger] captures_upto(names, raw, source, chains, n)[j],
                source,
            ),
    decreases n,
{
    if n <= 0 || n > raw.len() {
    } else {
        lemma_captures_read(names, raw, source, chains, n - 1);
        if raw[n - 1].index < names.len() {
            let node = raw[n - 1].node;
            let record = capture_of(names[raw[n - 1].index as int], node, source, chains);
            lemma_chain_lines(node_parent(node), source, usize::MAX as nat);
            assert(record.text == text_at(
                source,
                node_start_byte(node) as int,
                node_end_byte(node) as int,
            ));
            assert(read_from(record, source));
        }
        let rest = captures_upto(names, raw, source, chains, n - 1);
        let all = captures_upto(names, raw, source, chains, n);
        assert forall|j: int| 0 <= j < all.len() implies read_from(#[trigger] all[j], source) by {
            if j < rest.len() {
                assert(all[j] == rest[j]);
            }
        }
    }
}

/// Lines are counted from 1, and texts are cut from the source: every record
/// of what a query finds starts and ends on a line of number 1 or more, as do
/// the nodes that enclose it, and its text is a part of the source.
pub proof fn lemma_gathered_read(
    query: Query,
    tree: &Tree,
    source: Seq<char>,
    chains: ChainsView,
    i: int,
    j: int,
)
    requires
        0 <= i < gathered(query, tree, source, chains).len(),
        0 <= j < gathered(query, tree, source, chains)[i].len(),
    ensures
        read_from(gathered(query, tree, source, chains)[i][j], source),
{
    let raw = captured(query, tree, source);
    lemma_captures_read(names_of(query), raw[i], source, chains, raw[i].len() as int);
}

/// Every captured node of the flattened matches stands in one of the
/// matches.
pub proof fn lemma_flattened_from(matches: Seq<Seq<CapturedNodeView>>, k: int)
    requires
        0 <= k < flattened(matches).len(),
    ensures
        exists|i: int, j: int|
            0 <= i < matches.len() && 0 <= j < matches[i].len() && flattened(matches)[k]
                == #[trigger] matches[i][j],
    decreases matches.len(),
{
    let front = flattened(matches.drop_last());
    if k < front.len() {
        lemma_flattened_from(matches.drop_last(), k);
        let (i, j) = choose|i: int, j: int|
            0 <= i < matches.drop_last().len() && 0 <= j < matches.drop_last()[i].len() && front[k]
                == #[trigger] matches.drop_last()[i][j];
        assert(flattened(matches)[k] == matches[i][j]);
    } else {
        let i = matches.len() - 1;
        let j = k - front.len();
        assert(flattened(matches)[k] == matches[i][j]);
    }
}

} // verus!
