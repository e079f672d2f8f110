//! What the searches read from a syntax tree, as plain values.
//!
//! A parsed tree is walked once around each node that a query captured; what
//! is read there is put down in the records of this module, and every
//! decision is then taken on these records.

use crate::types::opt_text;
use vstd::prelude::*;

verus! {

/// A node two levels below an enclosing node.
#[derive(Debug, Clone)]
pub struct LeafNode {
    /// The node's kind.
    pub kind: String,
    /// The node's source text, where it can be read.
    pub text: Option<String>,
}

/// Mathematical value of a `LeafNode`.
pub struct LeafNodeView {
    pub kind: Seq<char>,
    pub text: Option<Seq<char>>,
}

impl View for LeafNode {
    type V = LeafNodeView;

    open spec fn view(&self) -> LeafNodeView {
        LeafNodeView { kind: self.kind@, text: opt_text(self.text) }
    }
}

/// The values of a sequence of leaves.
pub open spec fn leaf_views(v: Seq<LeafNode>) -> Seq<LeafNodeView> {
    v.map_values(|l: LeafNode| l@)
}

/// A child of an enclosing node, with its own children.
#[derive(Debug, Clone)]
pub struct ChildNode {
    /// The node's kind.
    pub kind: String,
    /// The node's children, in order.
    pub children: Vec<LeafNode>,
}

/// Mathematical value of a `ChildNode`.
pub struct ChildNodeView {
    pub kind: Seq<char>,
    pub children: Seq<LeafNodeView>,
}

impl View for ChildNode {
    type V = ChildNodeView;

    open spec fn view(&self) -> ChildNodeView {
        ChildNodeView { kind: self.kind@, children: leaf_views(self.children@) }
    }
}

/// The values of a sequence of children.
pub open spec fn child_views(v: Seq<ChildNode>) -> Seq<ChildNodeView> {
    v.map_values(|c: ChildNode| c@)
}

/// A node that encloses a captured node.
#[derive(Debug, Clone)]
pub struct Ancestor {
    /// The node's kind, as the grammar names it.
    pub kind: String,
    /// Line on which the node starts, counted from 1.
    pub start_line: usize,
    /// Line on which the node ends, counted from 1.
    pub end_line: usize,
    /// Text of the node's child in the field `name`, where it has one that can be read.
    pub name: Option<String>,
    /// Whether the node has a child in the field `object`.
    pub has_object: bool,
    /// Text of the child in the field `object`, where it can be read.
    pub object_text: Option<String>,
    /// Whether the node is the child that its parent has in the field
    /// `function`.
    pub is_function: bool,
    /// The node's children, where the node is a `create_table` statement;
    /// they are not read for any other node.
    pub children: Vec<ChildNode>,
}

/// Mathematical value of an `Ancestor`.
pub struct AncestorView {
    pub kind: Seq<char>,
    pub start_line: nat,
    pub end_line: nat,
    pub name: Option<Seq<char>>,
    pub has_object: bool,
    pub object_text: Option<Seq<char>>,
    pub is_function: bool,
    pub children: Seq<ChildNodeView>,
}

impl View for Ancestor {
    type V = AncestorView;

    open spec fn view(&self) -> AncestorView {
        AncestorView {
            kind: self.kind@,
            start_line: self.start_line as nat,
            end_line: self.end_line as nat,
            name: opt_text(self.name),
            has_object: self.has_object,
            object_text: opt_text(self.object_text),
            is_function: self.is_function,
            children: child_views(self.children@),
        }
    }
}

/// The values of a chain of ancestors.
pub open spec fn ancestor_views(v: Seq<Ancestor>) -> Seq<AncestorView> {
    v.map_values(|a: Ancestor| a@)
}

/// A node that a query captured, with the nodes that enclose it.
#[derive(Debug, Clone)]
pub struct CapturedNode {
    /// The name of the capture.
    pub capture: String,
    /// Whether the node is the child that its parent has in the field
    /// `property`. It is read together with the enclosing nodes, and is
    /// `false` where they are not read.
    pub is_property: bool,
    /// The node's source text, where it can be read.
    pub text: Option<String>,
    /// Line on which the node starts, counted from 1.
    pub start_line: usize,
    /// Byte offset in that line at which the node starts.
    pub start_column: usize,
    /// Line on which the node ends, counted from 1.
    pub end_line: usize,
    /// The enclosing nodes, the parent first and the root last.
    pub ancestors: Vec<Ancestor>,
}

/// Mathematical value of a `CapturedNode`.
pub struct CapturedNodeView {
    pub capture: Seq<char>,
    pub is_property: bool,
    pub text: Option<Seq<char>>,
    pub start_line: nat,
    pub start_column: nat,
    pub end_line: nat,
    pub ancestors: Seq<AncestorView>,
}

impl View for CapturedNode {
    type V = CapturedNodeView;

    open spec fn view(&self) -> CapturedNodeView {
        CapturedNodeView {
            capture: self.capture@,
            is_property: self.is_property,
            text: opt_text(self.text),
            start_line: self.start_line as nat,
            start_column: self.start_column as nat,
            end_line: self.end_line as nat,
            ancestors: ancestor_views(self.ancestors@),
        }
    }
}

/// The values of a sequence of captured nodes.
pub open spec fn capture_views(v: Seq<CapturedNode>) -> Seq<CapturedNodeView> {
    v.map_values(|c: CapturedNode| c@)
}

/// One match of a query: the nodes it captured, in the order of the match.
#[derive(Debug, Clone)]
pub struct QueryMatch {
    pub captures: Vec<CapturedNode>,
}

impl View for QueryMatch {
    type V = Seq<CapturedNodeView>;

    open spec fn view(&self) -> Seq<CapturedNodeView> {
        capture_views(self.captures@)
    }
}

/// The values of a sequence of matches.
pub open spec fn match_list_views(v: Seq<QueryMatch>) -> Seq<Seq<CapturedNodeView>> {
    v.map_values(|m: QueryMatch| m@)
}

/// The text of a node, empty where it cannot be read.
pub open spec fn text_or_empty(text: Option<Seq<char>>) -> Seq<char> {
    match text {
        Some(t) => t,
        None => seq![],
    }
}

} // verus!
