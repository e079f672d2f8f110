//! What the tools of the server take and give, and the collector that each
//! request asks for.

use crate::pipeline::{
    CommentCollector, DefinitionCollector, ImportCollector, MethodCallCollector, UsageCollector,
};
use crate::types::{CommentMatch, SymbolDefinition, SymbolUsage};
use vstd::prelude::*;

verus! {

/// The number of contexts that come with a usage where contexts are asked for.
pub const CONTEXTS_ON_REQUEST: usize = 2;

/// The number of lines shown before and after a line where the request
/// does not say.
pub const DEFAULT_CONTEXT_LINES: usize = 3;

/// Parameters of the search for definitions.
#[derive(Debug, Clone)]
pub struct DefinitionParams {
    /// Symbol name to search for.
    pub symbol: String,
    /// Whether the comment above a definition is attached; not where absent.
    pub include_docs: Option<bool>,
    /// Directories to exclude from the search.
    pub exclude_dirs: Option<Vec<String>>,
    /// The one language to search.
    pub language: Option<String>,
}

impl DefinitionParams {
    /// The collector that the request asks for.
    pub fn collector(&self) -> (c: DefinitionCollector)
        ensures
            c.symbol@ == self.symbol@,
            c.include_docs == (self.include_docs == Some(true)),
    {
        DefinitionCollector {
            symbol: self.symbol.clone(),
            include_docs: match self.include_docs {
                Some(b) => b,
                None => false,
            },
        }
    }
}

/// Parameters of the search in comments.
#[derive(Debug, Clone)]
pub struct CommentSearchParams {
    /// Text to search for in comments.
    pub text: String,
    /// Directories to exclude from the search.
    pub exclude_dirs: Option<Vec<String>>,
    /// The one language to search.
    pub language: Option<String>,
}

impl CommentSearchParams {
    /// The collector that the request asks for.
    pub fn collector(&self) -> (c: CommentCollector)
        ensures
            c.text@ == self.text@,
    {
        CommentCollector { text: self.text.clone() }
    }
}

/// Response of the search in comments.
#[derive(Debug)]
pub struct CommentSearchResponse {
    /// The comments found.
    pub matches: Vec<CommentMatch>,
}

/// Response of the search for definitions.
#[derive(Debug)]
pub struct DefinitionResponse {
    /// The definitions found.
    pub definitions: Vec<SymbolDefinition>,
}

/// Parameters of the search for usages.
#[derive(Debug, Clone)]
pub struct UsagesParams {
    /// Symbol name to search for.
    pub symbol: String,
    /// Whether each usage comes with its two innermost contexts; not where absent.
    pub include_contexts: Option<bool>,
    /// Directories to exclude from the search.
    pub exclude_dirs: Option<Vec<String>>,
    /// The one language to search.
    pub language: Option<String>,
}

impl UsagesParams {
    /// The collector that the request asks for: imports are included, no
    /// object is asked for, and two contexts are reported on request.
    pub fn collector(&self) -> (c: UsageCollector)
        ensures
            c.symbol@ == self.symbol@,
            c.include_imports,
            c.max_contexts == if self.include_contexts == Some(true) {
                CONTEXTS_ON_REQUEST
            } else {
                0
            },
            c.object_filter is None,
    {
        UsageCollector {
            symbol: self.symbol.clone(),
            include_imports: true,
            max_contexts: match self.include_contexts {
                Some(true) => CONTEXTS_ON_REQUEST,
                _ => 0,
            },
            object_filter: None,
        }
    }
}

/// Response of the search for usages.
#[derive(Debug)]
pub struct UsagesResponse {
    /// The usages found.
    pub usages: Vec<SymbolUsage>,
}

/// Parameters of the search for method calls.
#[derive(Debug, Clone)]
pub struct MethodCallsParams {
    /// Method name to search for, such as `now`.
    pub method_name: String,
    /// The object that the method is called on, such as `Date`.
    pub object_name: Option<String>,
    /// Directories to exclude from the search.
    pub exclude_dirs: Option<Vec<String>>,
    /// The one language to search.
    pub language: Option<String>,
}

impl MethodCallsParams {
    /// The collector that the request asks for.
    pub fn collector(&self) -> (c: MethodCallCollector)
        ensures
            c.method_name@ == self.method_name@,
            crate::types::opt_text(c.object_name) == crate::types::opt_text(self.object_name),
    {
        MethodCallCollector {
            method_name: self.method_name.clone(),
            object_name: self.object_name.clone(),
        }
    }
}

/// Parameters of the search for imports.
#[derive(Debug, Clone)]
pub struct ImportsParams {
    /// Symbol name to search for.
    pub symbol: String,
    /// Directories to exclude from the search.
    pub exclude_dirs: Option<Vec<String>>,
    /// The one language to search.
    pub language: Option<String>,
}

impl ImportsParams {
    /// The collector that the request asks for.
    pub fn collector(&self) -> (c: ImportCollector)
        ensures
            c.symbol@ == self.symbol@,
    {
        ImportCollector { symbol: self.symbol.clone() }
    }
}

/// Parameters of the request for the code round a line.
#[derive(Debug, Clone)]
pub struct CodeAtLocationParams {
    /// File to read from.
    pub file_path: String,
    /// Line number, counted from 1.
    pub line: usize,
    /// Lines to show before the line; three where absent.
    pub context_before: Option<usize>,
    /// Lines to show after the line; three where absent.
    pub context_after: Option<usize>,
}

impl CodeAtLocationParams {
    /// The numbers of lines to show before and after the line.
    pub fn context(&self) -> (lines: (usize, usize))
        ensures
            lines.0 == match self.context_before {
                Some(n) => n,
                None => DEFAULT_CONTEXT_LINES,
            },
            lines.1 == match self.context_after {
                Some(n) => n,
                None => DEFAULT_CONTEXT_LINES,
            },
    {
        (
            match self.context_before {
                Some(n) => n,
                None => DEFAULT_CONTEXT_LINES,
            },
            match self.context_after {
                Some(n) => n,
                None => DEFAULT_CONTEXT_LINES,
            },
        )
    }
}

} // verus!
