//! The scopes that enclose a usage: functions, methods, classes and the like,
//! read from the chain of nodes above it.

use crate::syntax::{ancestor_views, Ancestor, AncestorView};
use crate::text::str_eq;
use crate::types::{context_views, ContextKind, UsageContext, UsageContextView};
use vstd::prelude::*;

verus! {

/// The kind of scope that a node of kind `kind` opens, if it opens one. A
/// method whose name is `constructor` is a constructor.
pub open spec fn context_kind(kind: Seq<char>, name: Option<Seq<char>>) -> Option<ContextKind> {
    if kind == "arrow_function"@ {
        Some(ContextKind::ArrowFunction)
    } else if kind == "function_declaration"@ {
        Some(ContextKind::FunctionDeclaration)
    } else if kind == "method_definition"@ {
        if name == Some("constructor"@) {
            Some(ContextKind::Constructor)
        } else {
            Some(ContextKind::MethodDeclaration)
        }
    } else if kind == "class_declaration"@ {
        Some(ContextKind::ClassDeclaration)
    } else if kind == "interface_declaration"@ {
        Some(ContextKind::InterfaceDeclaration)
    } else if kind == "enum_declaration"@ {
        Some(ContextKind::EnumDeclaration)
    } else if kind == "program"@ {
        Some(ContextKind::SourceFile)
    } else {
        None
    }
}

/// The name of the scope that the ancestor at index `i` opens. Declarations
/// and methods are named by their own `name` field, an arrow function by the
/// variable it is bound to, the file has no name.
pub open spec fn context_name(ancestors: Seq<AncestorView>, i: int) -> Option<Seq<char>> {
    let kind = ancestors[i].kind;
    if kind == "function_declaration"@ || kind == "class_declaration"@ || kind
        == "interface_declaration"@ || kind == "enum_declaration"@ || kind
        == "method_definition"@ {
        ancestors[i].name
    } else if kind == "arrow_function"@ {
        if i + 1 < ancestors.len() && ancestors[i + 1].kind == "variable_declarator"@ {
            ancestors[i + 1].name
        } else {
            None
        }
    } else {
        None
    }
}

/// The scope that the ancestor at index `i` opens, if it opens one.
pub open spec fn context_at(ancestors: Seq<AncestorView>, i: int) -> Option<UsageContextView> {
    match context_kind(ancestors[i].kind, ancestors[i].name) {
        Some(kind) => Some(
            UsageContextView {
                kind,
                name: context_name(ancestors, i),
                start_line: ancestors[i].start_line,
                end_line: ancestors[i].end_line,
            },
        ),
        None => None,
    }
}

/// The first `max` scopes opened by the ancestors from index `i` on,
/// innermost first.
pub open spec fn contexts_from(ancestors: Seq<AncestorView>, i: int, max: nat) -> Seq<
    UsageContextView,
>
    decreases ancestors.len() - i,
{
    if max == 0 || i < 0 || i >= ancestors.len() {
        seq![]
    } else {
        match context_at(ancestors, i) {
            Some(c) => seq![c] + contexts_from(ancestors, i + 1, (max - 1) as nat),
            None => contexts_from(ancestors, i + 1, max),
        }
    }
}

/// Every context handed out is the scope that one of the ancestors opens: it
/// starts and ends on the lines on which that ancestor starts and ends.
pub proof fn lemma_context_lines(ancestors: Seq<AncestorView>, i: int, max: nat, k: int)
    requires
        0 <= i,
        0 <= k < contexts_from(ancestors, i, max).len(),
    ensures
        exists|j: int|
            i <= j < ancestors.len() && #[trigger] context_at(ancestors, j) == Some(
                contexts_from(ancestors, i, max)[k],
            ) && contexts_from(ancestors, i, max)[k].start_line == ancestors[j].start_line
                && contexts_from(ancestors, i, max)[k].end_line == ancestors[j].end_line,
    decreases ancestors.len() - i,
{
    let all = contexts_from(ancestors, i, max);
    match context_at(ancestors, i) {
        Some(c) => {
            let rest = contexts_from(ancestors, i + 1, (max - 1) as nat);
            assert(all == seq![c] + rest);
            if k == 0 {
                assert(context_at(ancestors, i) == Some(all[k]));
            } else {
                assert(all[k] == rest[k - 1]);
                lemma_context_lines(ancestors, i + 1, (max - 1) as nat, k - 1);
            }
        },
        None => {
            lemma_context_lines(ancestors, i + 1, max, k);
        },
    }
}

/// The number of ancestors from index `i` on that open a scope.
pub open spec fn scope_count(ancestors: Seq<AncestorView>, i: int) -> nat
    decreases ancestors.len() - i,
{
    if i < 0 || i >= ancestors.len() {
        0
    } else if context_at(ancestors, i) is Some {
        1 + scope_count(ancestors, i + 1)
    } else {
        scope_count(ancestors, i + 1)
    }
}

/// No more contexts are handed out than were asked for, and none are held
/// back: their number is the smaller of `max` and the number of enclosing
/// scopes. Asking for none gives none.
pub proof fn lemma_context_bound(ancestors: Seq<AncestorView>, i: int, max: nat)
    requires
        0 <= i,
    ensures
        contexts_from(ancestors, i, max).len() <= max,
        contexts_from(ancestors, i, max).len() == if scope_count(ancestors, i) <= max {
            scope_count(ancestors, i)
        } else {
            max
        },
        max == 0 ==> contexts_from(ancestors, i, max) == Seq::<UsageContextView>::empty(),
    decreases ancestors.len() - i,
{
    if max == 0 || i >= ancestors.len() {
    } else {
        match context_at(ancestors, i) {
            Some(c) => {
                lemma_context_bound(ancestors, i + 1, (max - 1) as nat);
            },
            None => {
                lemma_context_bound(ancestors, i + 1, max);
            },
        }
    }
}

/// The scope that one ancestor opens, if it opens one.
fn node_to_context(ancestors: &Vec<Ancestor>, i: usize) -> (c: Option<UsageContext>)
    requires
        i < ancestors@.len(),
    ensures
        match c {
            Some(ctx) => context_at(ancestor_views(ancestors@), i as int) == Some(ctx@),
            None => context_at(ancestor_views(ancestors@), i as int) is None,
        },
{
    let node = &ancestors[i];
    let kind = node.kind.as_str();
    let is_constructor = match &node.name {
        Some(n) => str_eq(n.as_str(), "constructor"),
        None => false,
    };
    let context_kind = if str_eq(kind, "arrow_function") {
        ContextKind::ArrowFunction
    } else if str_eq(kind, "function_declaration") {
        ContextKind::FunctionDeclaration
    } else if str_eq(kind, "method_definition") {
        if is_constructor {
            ContextKind::Constructor
        } else {
            ContextKind::MethodDeclaration
        }
    } else if str_eq(kind, "class_declaration") {
        ContextKind::ClassDeclaration
    } else if str_eq(kind, "interface_declaration") {
        ContextKind::InterfaceDeclaration
    } else if str_eq(kind, "enum_declaration") {
        ContextKind::EnumDeclaration
    } else if str_eq(kind, "program") {
        ContextKind::SourceFile
    } else {
        return None;
    };
    let name = extract_context_name(ancestors, i);
    Some(
        UsageContext {
            kind: context_kind,
            name,
            start_line: node.start_line,
            end_line: node.end_line,
        },
    )
}

/// The name of the scope that one ancestor opens.
fn extract_context_name(ancestors: &Vec<Ancestor>, i: usize) -> (name: Option<String>)
    requires
        i < ancestors@.len(),
    ensures
        crate::types::opt_text(name) == context_name(ancestor_views(ancestors@), i as int),
{
    let node = &ancestors[i];
    let kind = node.kind.as_str();
    if str_eq(kind, "function_declaration") || str_eq(kind, "class_declaration") || str_eq(
        kind,
        "interface_declaration",
    ) || str_eq(kind, "enum_declaration") || str_eq(kind, "method_definition") {
        node.name.clone()
    } else if str_eq(kind, "arrow_function") {
        if i < ancestors.len() - 1 && str_eq(
            ancestors[i + 1].kind.as_str(),
            "variable_declarator",
        ) {
            ancestors[i + 1].name.clone()
        } else {
            None
        }
    } else {
        None
    }
}

/// The scopes that enclose a node, innermost first, at most `max_contexts`
/// of them. `ancestors` is the chain of enclosing nodes, the parent first.
/// With `max_contexts` zero the chain is not looked at.
pub fn extract_contexts(ancestors: &Vec<Ancestor>, max_contexts: usize) -> (contexts: Vec<
    UsageContext,
>)
    ensures
        context_views(contexts@) == contexts_from(
            ancestor_views(ancestors@),
            0,
            max_contexts as nat,
        ),
        contexts@.len() <= max_contexts,
{
    let mut contexts: Vec<UsageContext> = Vec::new();
    if max_contexts == 0 {
        assert(context_views(contexts@) =~= Seq::<UsageContextView>::empty());
        return contexts;
    }
    let ghost chain = ancestor_views(ancestors@);
    let ghost whole = contexts_from(chain, 0, max_contexts as nat);
    let mut i: usize = 0;
    assert(context_views(contexts@) =~= Seq::<UsageContextView>::empty());
    assert(context_views(contexts@) + whole =~= whole);
    while i < ancestors.len()
        invariant_except_break
            contexts@.len() < max_contexts,
            context_views(contexts@) + contexts_from(
                chain,
                i as int,
                (max_contexts - contexts@.len()) as nat,
            ) == whole,
        invariant
            i <= ancestors@.len(),
            chain == ancestor_views(ancestors@),
            whole == contexts_from(chain, 0, max_contexts as nat),
            contexts@.len() <= max_contexts,
        ensures
            context_views(contexts@) == whole,
        decreases ancestors@.len() - i,
    {
        let ghost so_far = context_views(contexts@);
        let ghost left = (max_contexts - contexts@.len()) as nat;
        match node_to_context(ancestors, i) {
            Some(context) => {
                contexts.push(context);
                assert(context_views(contexts@) =~= so_far + seq![context@]);
                assert((so_far + seq![context@]) + contexts_from(chain, i + 1, (left - 1) as nat)
                    =~= so_far + (seq![context@] + contexts_from(
                    chain,
                    i + 1,
                    (left - 1) as nat,
                )));
                if contexts.len() >= max_contexts {
                    assert(contexts_from(chain, i + 1, 0) =~= Seq::<UsageContextView>::empty());
                    assert(context_views(contexts@) + Seq::<UsageContextView>::empty()
                        =~= context_views(contexts@));
                    break ;
                }
            },
            None => {},
        }
        i += 1;
    }
    proof {
        if i >= ancestors@.len() {
            assert(context_views(contexts@) + Seq::<UsageContextView>::empty() =~= context_views(
                contexts@,
            ));
        }
    }
    contexts
}

} // verus!
