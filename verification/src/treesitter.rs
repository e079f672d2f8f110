//! The types and functions of the `tree-sitter` crate that the library uses,
//! and the grammars of the languages. A tree and its nodes are opaque here.
//! What the crate's functions return has names, each a function of the
//! arguments alone: a text has one syntax tree under a grammar, and a query
//! finds the same matches in it every time. The names speak of a tree as the
//! syntax of a text, not of where it lies in memory: nothing is said of the
//! number that `Node::id` gives, which is an address, and nodes are compared
//! only where both are reached from one node. What is read from the nodes is
//! put into the records of `syntax`.

use tree_sitter::{
    Language, LanguageError, Node, Parser, Point, Query, QueryCapture, QueryCursor, QueryError, Tree,
};
use vstd::prelude::*;

verus! {

/// A parsed syntax tree.
#[verifier::external_type_specification]
#[verifier::external_body]
pub struct ExTree(Tree);

/// A node of a syntax tree.
#[verifier::external_type_specification]
#[verifier::external_body]
pub struct ExNode<'tree>(Node<'tree>);

/// A parser.
#[verifier::external_type_specification]
#[verifier::external_body]
pub struct ExParser(Parser);

/// A grammar.
#[verifier::external_type_specification]
#[verifier::external_body]
pub struct ExLanguage(Language);

/// A compiled query.
#[verifier::external_type_specification]
#[verifier::external_body]
pub struct ExQuery(Query);

/// The state of a running query.
#[verifier::external_type_specification]
#[verifier::external_body]
pub struct ExQueryCursor(QueryCursor);

/// Why a parser refused a grammar.
#[verifier::external_type_specification]
#[verifier::external_body]
pub struct ExLanguageError(LanguageError);

/// Why a query did not compile.
#[verifier::external_type_specification]
#[verifier::external_body]
pub struct ExQueryError(QueryError);

/// A position in a text: row and column, both counted from 0.
#[verifier::external_type_specification]
pub struct ExPoint(Point);

/// A node that a query captured, with the index of the capture's name.
#[verifier::external_type_specification]
pub struct ExQueryCapture<'tree>(QueryCapture<'tree>);

/// Whether a parser takes a grammar: its version is one that the library
/// reads, and it can be parsed with.
pub uninterp spec fn grammar_accepted(language: Language) -> bool;

/// The grammar that a parser holds. It speaks of a parser as `Parser::new`
/// makes it and `Parser::set_language` changes it: one that reads the whole
/// of a text, from scratch.
pub uninterp spec fn grammar_held(parser: Parser) -> Option<Language>;

/// The syntax tree of a text under a grammar.
pub uninterp spec fn tree_of(language: Language, source: Seq<char>) -> Tree;

/// The names of a query's captures, in the order of their indices.
pub uninterp spec fn names_of(query: Query) -> Seq<Seq<char>>;

/// What a query captures in a tree of a text: for each match, in the order
/// in which the matches are found, its captured nodes.
pub uninterp spec fn captured(query: Query, tree: &Tree, source: Seq<char>) -> Seq<
    Seq<QueryCapture<'_>>,
>;

/// The name that the grammar has for a node.
pub uninterp spec fn node_kind(node: Node<'_>) -> Seq<char>;

/// The byte offset at which a node starts.
pub uninterp spec fn node_start_byte(node: Node<'_>) -> usize;

/// The byte offset at which a node ends.
pub uninterp spec fn node_end_byte(node: Node<'_>) -> usize;

/// The row and column at which a node starts.
pub uninterp spec fn node_start(node: Node<'_>) -> Point;

/// The row and column at which a node ends.
pub uninterp spec fn node_end(node: Node<'_>) -> Point;

/// The node that encloses a node.
pub uninterp spec fn node_parent(node: Node<'_>) -> Option<Node<'_>>;

/// The number of a node's children.
pub uninterp spec fn node_child_count(node: Node<'_>) -> u32;

/// The child of a node at an index.
pub uninterp spec fn node_child(node: Node<'_>, i: u32) -> Option<Node<'_>>;

/// The first child of a node in the field of a name.
pub uninterp spec fn node_field(node: Node<'_>, field: Seq<char>) -> Option<Node<'_>>;

/// `Parser::new` makes a parser that has no grammar yet.
pub assume_specification[ Parser::new ]() -> (parser: Parser)
    ensures
        grammar_held(parser) is None,
;

/// `Parser::set_language` gives the parser a grammar where the grammar is
/// one that a parser takes, and leaves the parser as it is where not.
pub assume_specification[ Parser::set_language ](parser: &mut Parser, language: &Language) -> (r:
    Result<(), LanguageError>)
    ensures
        r is Ok <==> grammar_accepted(*language),
        grammar_held(*final(parser)) == if r is Ok {
            Some(*language)
        } else {
            grammar_held(*old(parser))
        },
;

/// `Parser::parse` parses a text from scratch under the grammar that the
/// parser holds; it gives no tree where the parser holds none. The parser
/// keeps its grammar.
#[verifier::external_body]
pub(crate) fn parse_text(parser: &mut Parser, source: &str) -> (tree: Option<Tree>)
    ensures
        grammar_held(*final(parser)) == grammar_held(*old(parser)),
        tree == match grammar_held(*old(parser)) {
            Some(language) => Some(tree_of(language, source@)),
            None => None,
        },
{
    parser.parse(source, None)
}

/// `Tree::clone` hands out another handle to the same tree: the copy shares
/// the nodes of the tree it was made from, and stands for the same tree.
pub assume_specification[ <Tree as Clone>::clone ](tree: &Tree) -> (copy: Tree)
    ensures
        copy == *tree,
;

/// `Node::kind` gives the name that the grammar has for the node.
pub assume_specification<'tree>[ Node::<'tree>::kind ](node: &Node<'tree>) -> (kind: &'tree str)
    ensures
        kind@ == node_kind(*node),
;

/// `Node::start_byte` gives the byte offset at which the node starts.
pub assume_specification<'tree>[ Node::<'tree>::start_byte ](node: &Node<'tree>) -> (byte: usize)
    ensures
        byte == node_start_byte(*node),
;

/// `Node::end_byte` gives the byte offset at which the node ends.
pub assume_specification<'tree>[ Node::<'tree>::end_byte ](node: &Node<'tree>) -> (byte: usize)
    ensures
        byte == node_end_byte(*node),
;

/// `Node::start_position` gives the row and column at which the node starts.
pub assume_specification<'tree>[ Node::<'tree>::start_position ](node: &Node<'tree>) -> (p: Point)
    ensures
        p == node_start(*node),
;

/// `Node::end_position` gives the row and column at which the node ends.
pub assume_specification<'tree>[ Node::<'tree>::end_position ](node: &Node<'tree>) -> (p: Point)
    ensures
        p == node_end(*node),
;

/// `Node::parent` gives the node that encloses the node, none for the root.
pub assume_specification<'tree>[ Node::<'tree>::parent ](node: &Node<'tree>) -> (parent: Option<
    Node<'tree>,
>)
    ensures
        parent == node_parent(*node),
;

/// `Node::child_count` gives the number of the node's children.
pub assume_specification<'tree>[ Node::<'tree>::child_count ](node: &Node<'tree>) -> (n: u32)
    ensures
        n == node_child_count(*node),
;

/// `Node::child` gives the child at an index, none beyond the last.
pub assume_specification<'tree>[ Node::<'tree>::child ](node: &Node<'tree>, i: u32) -> (child:
    Option<Node<'tree>>)
    ensures
        child == node_child(*node, i),
;

/// `Node::child_by_field_name` gives the first child in the field of that name.
#[verifier::external_body]
pub(crate) fn field_child<'tree>(node: &Node<'tree>, field: &str) -> (child: Option<Node<'tree>>)
    ensures
        child == node_field(*node, field@),
{
    node.child_by_field_name(field)
}

/// Whether `node` is the child that its parent has in the field `field`.
pub open spec fn in_field(node: Node<'_>, field: Seq<char>) -> bool {
    match node_parent(node) {
        Some(parent) => node_field(parent, field) == Some(node),
        None => false,
    }
}

/// `Node::parent`, `Node::child_by_field_name` and `Node::eq`: whether the
/// parent of the node has the node itself as its child in the field of that
/// name. `Node::eq` tells the nodes of one tree apart by their place in
/// memory, which says nothing of nodes of two trees: both nodes that are
/// compared here are reached from the one node given.
#[verifier::external_body]
pub(crate) fn stands_in_field(node: &Node<'_>, field: &str) -> (within: bool)
    ensures
        within == in_field(*node, field@),
{
    node.parent().and_then(|parent| parent.child_by_field_name(field)) == Some(*node)
}

/// The query that a text compiles to against a grammar, none where the text
/// is no query for that grammar.
pub uninterp spec fn compiled(language: Language, source: Seq<char>) -> Option<Query>;

/// `Query::new` compiles the text of a query against a grammar, or says
/// what is wrong with the text.
pub assume_specification[ Query::new ](language: &Language, source: &str) -> (r: Result<
    Query,
    QueryError,
>)
    ensures
        match r {
            Ok(query) => compiled(*language, source@) == Some(query),
            Err(_) => compiled(*language, source@) is None,
        },
;

/// `Query::capture_names` gives the names of the query's captures; the
/// index that comes with a captured node is an index into them.
pub assume_specification[ Query::capture_names ](query: &Query) -> (names: &[&str])
    ensures
        names@.len() == names_of(*query).len(),
        forall|i: int| 0 <= i < names@.len() ==> (#[trigger] names@[i])@ == names_of(*query)[i],
;

/// Whether a cursor runs a query over the whole tree, without a limit on
/// the matches: the state in which it is made.
pub uninterp spec fn runs_unbounded(cursor: QueryCursor) -> bool;

/// `QueryCursor::new` makes the state for running a query over a whole tree.
pub assume_specification[ QueryCursor::new ]() -> (cursor: QueryCursor)
    ensures
        runs_unbounded(cursor),
;

/// The bytes of `bytes` that a node spans, none where the node does not lie
/// inside them.
pub open spec fn span_of(bytes: Seq<u8>, node: Node<'_>) -> Seq<u8> {
    if node_start_byte(node) <= node_end_byte(node) <= bytes.len() {
        bytes.subrange(node_start_byte(node) as int, node_end_byte(node) as int)
    } else {
        seq![]
    }
}

/// The bytes of a text that a node spans, none where the node does not lie
/// inside the text.
pub fn node_bytes<'a>(bytes: &'a [u8], node: &Node<'_>) -> (part: &'a [u8])
    ensures
        part@ == span_of(bytes@, *node),
{
    let start = node.start_byte();
    let end = node.end_byte();
    if start <= end && end <= bytes.len() {
        vstd::slice::slice_subrange(bytes, start, end)
    } else {
        let none = vstd::slice::slice_subrange(bytes, 0, 0);
        assert(none@ =~= Seq::<u8>::empty());
        none
    }
}

/// The captured nodes of each match.
pub open spec fn capture_lists<'tree>(matches: Seq<Vec<QueryCapture<'tree>>>) -> Seq<
    Seq<QueryCapture<'tree>>,
> {
    matches.map_values(|m: Vec<QueryCapture<'tree>>| m@)
}

/// `QueryCursor::matches` runs a query over a tree; the wrapper hands out the
/// captures of each match, in the order of the matches. Where the query asks
/// for a node's text, it is given the bytes of `source` that the node spans,
/// and no bytes where the node does not lie inside `source`. The cursor
/// keeps its settings.
#[verifier::external_body]
pub(crate) fn query_matches<'tree>(
    cursor: &mut QueryCursor,
    query: &Query,
    tree: &'tree Tree,
    source: &str,
) -> (matches: Vec<Vec<QueryCapture<'tree>>>)
    requires
        runs_unbounded(*old(cursor)),
    ensures
        runs_unbounded(*final(cursor)),
        capture_lists(matches@) == captured(*query, tree, source@),
{
    let bytes = source.as_bytes();
    streaming_iterator::StreamingIterator::map_deref(
        cursor.matches(
            query,
            tree.root_node(),
            |node: Node| std::iter::once(node_bytes(bytes, &node)),
        ),
        |m| m.captures().to_vec(),
    ).collect()
}

/// The text in which a `QueryError` says what is wrong with a query.
#[verifier::external_body]
pub(crate) fn query_error_text(error: &QueryError) -> (text: String) {
    error.to_string()
}

/// The text in which a `LanguageError` says why a grammar was refused.
#[verifier::external_body]
pub(crate) fn language_error_text(error: &LanguageError) -> (text: String) {
    error.to_string()
}

/// The grammar of TypeScript.
#[verifier::external_body]
pub(crate) fn typescript_grammar() -> (grammar: Language) {
    tree_sitter_typescript::LANGUAGE_TYPESCRIPT.into()
}

/// The grammar of TypeScript with JSX.
#[verifier::external_body]
pub(crate) fn tsx_grammar() -> (grammar: Language) {
    tree_sitter_typescript::LANGUAGE_TSX.into()
}

/// The grammar of JavaScript, which also reads JSX.
#[verifier::external_body]
pub(crate) fn javascript_grammar() -> (grammar: Language) {
    tree_sitter_javascript::LANGUAGE.into()
}

/// The block grammar of Markdown.
#[verifier::external_body]
pub(crate) fn markdown_grammar() -> (grammar: Language) {
    tree_sitter_md::LANGUAGE.into()
}

/// The grammar of HTML.
#[verifier::external_body]
pub(crate) fn html_grammar() -> (grammar: Language) {
    tree_sitter_html::LANGUAGE.into()
}

/// The grammar of CSS.
#[verifier::external_body]
pub(crate) fn css_grammar() -> (grammar: Language) {
    tree_sitter_css::LANGUAGE.into()
}

/// The grammar of Python.
#[verifier::external_body]
pub(crate) fn python_grammar() -> (grammar: Language) {
    tree_sitter_python::LANGUAGE.into()
}

/// The grammar of Rust.
#[verifier::external_body]
pub(crate) fn rust_grammar() -> (grammar: Language) {
    tree_sitter_rust::LANGUAGE.into()
}

/// The grammar of Go.
#[verifier::external_body]
pub(crate) fn go_grammar() -> (grammar: Language) {
    tree_sitter_go::LANGUAGE.into()
}

/// The grammar of Java.
#[verifier::external_body]
pub(crate) fn java_grammar() -> (grammar: Language) {
    tree_sitter_java::LANGUAGE.into()
}

/// The grammar of SQL.
#[verifier::external_body]
pub(crate) fn sql_grammar() -> (grammar: Language) {
    tree_sitter_sequel::LANGUAGE.into()
}

} // verus!
