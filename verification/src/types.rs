//! The facts that a search produces: definitions, usages and comment matches.

use vstd::prelude::*;

verus! {

/// What kind of thing a definition defines.
#[derive(Debug, Clone, Copy, PartialEq, Eq, Hash, Structural)]
pub enum SymbolKind {
    Function,
    Class,
    Method,
    Interface,
    Enum,
    Variable,
    ArrowFunction,
    Constructor,
    TypeAlias,
    Heading1,
    Heading2,
    Heading3,
    Heading4,
    Heading5,
    Heading6,
    CodeBlock,
    Link,
    HtmlElement,
    HtmlId,
    HtmlClass,
    CssClassSelector,
    CssIdSelector,
    CssVariable,
    CssKeyframes,
    Struct,
    Trait,
    Impl,
    Module,
    Const,
    Static,
    Macro,
    Table,
    View,
    Procedure,
    Index,
    Trigger,
    Column,
}

impl SymbolKind {
    /// The variant's name as text.
    pub open spec fn name(self) -> Seq<char> {
        match self {
            SymbolKind::Function => "Function"@,
            SymbolKind::Class => "Class"@,
            SymbolKind::Method => "Method"@,
            SymbolKind::Interface => "Interface"@,
            SymbolKind::Enum => "Enum"@,
            SymbolKind::Variable => "Variable"@,
            SymbolKind::ArrowFunction => "ArrowFunction"@,
            SymbolKind::Constructor => "Constructor"@,
            SymbolKind::TypeAlias => "TypeAlias"@,
            SymbolKind::Heading1 => "Heading1"@,
            SymbolKind::Heading2 => "Heading2"@,
            SymbolKind::Heading3 => "Heading3"@,
            SymbolKind::Heading4 => "Heading4"@,
            SymbolKind::Heading5 => "Heading5"@,
            SymbolKind::Heading6 => "Heading6"@,
            SymbolKind::CodeBlock => "CodeBlock"@,
            SymbolKind::Link => "Link"@,
            SymbolKind::HtmlElement => "HtmlElement"@,
            SymbolKind::HtmlId => "HtmlId"@,
            SymbolKind::HtmlClass => "HtmlClass"@,
            SymbolKind::CssClassSelector => "CssClassSelector"@,
            SymbolKind::CssIdSelector => "CssIdSelector"@,
            SymbolKind::CssVariable => "CssVariable"@,
            SymbolKind::CssKeyframes => "CssKeyframes"@,
            SymbolKind::Struct => "Struct"@,
            SymbolKind::Trait => "Trait"@,
            SymbolKind::Impl => "Impl"@,
            SymbolKind::Module => "Module"@,
            SymbolKind::Const => "Const"@,
            SymbolKind::Static => "Static"@,
            SymbolKind::Macro => "Macro"@,
            SymbolKind::Table => "Table"@,
            SymbolKind::View => "View"@,
            SymbolKind::Procedure => "Procedure"@,
            SymbolKind::Index => "Index"@,
            SymbolKind::Trigger => "Trigger"@,
            SymbolKind::Column => "Column"@,
        }
    }

    /// The variant's name, as it is shown to users.
    pub fn to_string(&self) -> (s: String)
        ensures
            s@ == self.name(),
    {
        match self {
            SymbolKind::Function => "Function".to_owned(),
            SymbolKind::Class => "Class".to_owned(),
            SymbolKind::Method => "Method".to_owned(),
            SymbolKind::Interface => "Interface".to_owned(),
            SymbolKind::Enum => "Enum".to_owned(),
            SymbolKind::Variable => "Variable".to_owned(),
            SymbolKind::ArrowFunction => "ArrowFunction".to_owned(),
            SymbolKind::Constructor => "Constructor".to_owned(),
            SymbolKind::TypeAlias => "TypeAlias".to_owned(),
            SymbolKind::Heading1 => "Heading1".to_owned(),
            SymbolKind::Heading2 => "Heading2".to_owned(),
            SymbolKind::Heading3 => "Heading3".to_owned(),
            SymbolKind::Heading4 => "Heading4".to_owned(),
            SymbolKind::Heading5 => "Heading5".to_owned(),
            SymbolKind::Heading6 => "Heading6".to_owned(),
            SymbolKind::CodeBlock => "CodeBlock".to_owned(),
            SymbolKind::Link => "Link".to_owned(),
            SymbolKind::HtmlElement => "HtmlElement".to_owned(),
            SymbolKind::HtmlId => "HtmlId".to_owned(),
            SymbolKind::HtmlClass => "HtmlClass".to_owned(),
            SymbolKind::CssClassSelector => "CssClassSelector".to_owned(),
            SymbolKind::CssIdSelector => "CssIdSelector".to_owned(),
            SymbolKind::CssVariable => "CssVariable".to_owned(),
            SymbolKind::CssKeyframes => "CssKeyframes".to_owned(),
            SymbolKind::Struct => "Struct".to_owned(),
            SymbolKind::Trait => "Trait".to_owned(),
            SymbolKind::Impl => "Impl".to_owned(),
            SymbolKind::Module => "Module".to_owned(),
            SymbolKind::Const => "Const".to_owned(),
            SymbolKind::Static => "Static".to_owned(),
            SymbolKind::Macro => "Macro".to_owned(),
            SymbolKind::Table => "Table".to_owned(),
            SymbolKind::View => "View".to_owned(),
            SymbolKind::Procedure => "Procedure".to_owned(),
            SymbolKind::Index => "Index".to_owned(),
            SymbolKind::Trigger => "Trigger".to_owned(),
            SymbolKind::Column => "Column".to_owned(),
        }
    }
}

/// One definition of a symbol.
#[derive(Debug, Clone)]
pub struct SymbolDefinition {
    /// File in which the symbol is defined.
    pub file_path: String,
    /// First line of the definition, counted from 1.
    pub start_line: usize,
    /// Last line of the definition, counted from 1, inclusive.
    pub end_line: usize,
    /// Kind of the symbol.
    pub node_kind: SymbolKind,
    /// The definition's source text.
    pub code: String,
    /// The symbol's name.
    pub name: String,
    /// Documentation attached to the definition, if it was asked for and found.
    pub docs: Option<String>,
}

/// Mathematical value of a `SymbolDefinition`.
pub struct SymbolDefinitionView {
    pub file_path: Seq<char>,
    pub start_line: nat,
    pub end_line: nat,
    pub node_kind: SymbolKind,
    pub code: Seq<char>,
    pub name: Seq<char>,
    pub docs: Option<Seq<char>>,
}

/// The characters of an optional string.
pub open spec fn opt_text(s: Option<String>) -> Option<Seq<char>> {
    match s {
        Some(t) => Some(t@),
        None => None,
    }
}

impl View for SymbolDefinition {
    type V = SymbolDefinitionView;

    open spec fn view(&self) -> SymbolDefinitionView {
        SymbolDefinitionView {
            file_path: self.file_path@,
            start_line: self.start_line as nat,
            end_line: self.end_line as nat,
            node_kind: self.node_kind,
            code: self.code@,
            name: self.name@,
            docs: opt_text(self.docs),
        }
    }
}

/// How a symbol is used at one place.
#[derive(Debug, Clone, Copy, PartialEq, Eq, Structural)]
pub enum UsageKind {
    /// A name on its own: `foo`.
    Identifier,
    /// The property of a member access: `obj.foo`.
    PropertyAccess,
    /// The callee of a call on an object: `obj.foo()`.
    MethodCall,
    /// A name inside a type: `let x: Foo`.
    TypeReference,
    /// A name inside an import: `import { foo }`.
    Import,
}

impl UsageKind {
    /// The variant's name as text.
    pub open spec fn name(self) -> Seq<char> {
        match self {
            UsageKind::Identifier => "Identifier"@,
            UsageKind::PropertyAccess => "PropertyAccess"@,
            UsageKind::MethodCall => "MethodCall"@,
            UsageKind::TypeReference => "TypeReference"@,
            UsageKind::Import => "Import"@,
        }
    }

    /// The variant's name, as it is shown to users.
    pub fn to_string(&self) -> (s: String)
        ensures
            s@ == self.name(),
    {
        match self {
            UsageKind::Identifier => "Identifier".to_owned(),
            UsageKind::PropertyAccess => "PropertyAccess".to_owned(),
            UsageKind::MethodCall => "MethodCall".to_owned(),
            UsageKind::TypeReference => "TypeReference".to_owned(),
            UsageKind::Import => "Import".to_owned(),
        }
    }
}

/// The kind of scope that encloses a usage.
#[derive(Debug, Clone, Copy, PartialEq, Eq, Structural)]
pub enum ContextKind {
    ArrowFunction,
    FunctionDeclaration,
    MethodDeclaration,
    Constructor,
    ClassDeclaration,
    InterfaceDeclaration,
    EnumDeclaration,
    SourceFile,
}

impl ContextKind {
    /// The variant's name as text.
    pub open spec fn name(self) -> Seq<char> {
        match self {
            ContextKind::ArrowFunction => "ArrowFunction"@,
            ContextKind::FunctionDeclaration => "FunctionDeclaration"@,
            ContextKind::MethodDeclaration => "MethodDeclaration"@,
            ContextKind::Constructor => "Constructor"@,
            ContextKind::ClassDeclaration => "ClassDeclaration"@,
            ContextKind::InterfaceDeclaration => "InterfaceDeclaration"@,
            ContextKind::EnumDeclaration => "EnumDeclaration"@,
            ContextKind::SourceFile => "SourceFile"@,
        }
    }

    /// The variant's name, as it is shown to users.
    pub fn to_string(&self) -> (s: String)
        ensures
            s@ == self.name(),
    {
        match self {
            ContextKind::ArrowFunction => "ArrowFunction".to_owned(),
            ContextKind::FunctionDeclaration => "FunctionDeclaration".to_owned(),
            ContextKind::MethodDeclaration => "MethodDeclaration".to_owned(),
            ContextKind::Constructor => "Constructor".to_owned(),
            ContextKind::ClassDeclaration => "ClassDeclaration".to_owned(),
            ContextKind::InterfaceDeclaration => "InterfaceDeclaration".to_owned(),
            ContextKind::EnumDeclaration => "EnumDeclaration".to_owned(),
            ContextKind::SourceFile => "SourceFile".to_owned(),
        }
    }
}

/// One scope that encloses a usage.
#[derive(Debug, Clone)]
pub struct UsageContext {
    /// Kind of the scope.
    pub kind: ContextKind,
    /// Name of the scope, where it has one.
    pub name: Option<String>,
    /// First line of the scope, counted from 1.
    pub start_line: usize,
    /// Last line of the scope, counted from 1.
    pub end_line: usize,
}

/// Mathematical value of a `UsageContext`.
pub struct UsageContextView {
    pub kind: ContextKind,
    pub name: Option<Seq<char>>,
    pub start_line: nat,
    pub end_line: nat,
}

impl View for UsageContext {
    type V = UsageContextView;

    open spec fn view(&self) -> UsageContextView {
        UsageContextView {
            kind: self.kind,
            name: opt_text(self.name),
            start_line: self.start_line as nat,
            end_line: self.end_line as nat,
        }
    }
}

/// The values of a sequence of contexts.
pub open spec fn context_views(v: Seq<UsageContext>) -> Seq<UsageContextView> {
    v.map_values(|c: UsageContext| c@)
}

/// One usage of a symbol.
#[derive(Debug, Clone)]
pub struct SymbolUsage {
    /// File in which the symbol is used.
    pub file_path: String,
    /// Line of the usage, counted from 1.
    pub line: usize,
    /// Column of the usage, counted from 0.
    pub column: usize,
    /// `object.symbol` for a member access, the bare symbol otherwise.
    pub qualified_name: String,
    /// How the symbol is used.
    pub usage_kind: UsageKind,
    /// The object of a member access.
    pub object_name: Option<String>,
    /// Enclosing scopes, innermost first.
    pub contexts: Vec<UsageContext>,
}

/// Mathematical value of a `SymbolUsage`.
pub struct SymbolUsageView {
    pub file_path: Seq<char>,
    pub line: nat,
    pub column: nat,
    pub qualified_name: Seq<char>,
    pub usage_kind: UsageKind,
    pub object_name: Option<Seq<char>>,
    pub contexts: Seq<UsageContextView>,
}

impl View for SymbolUsage {
    type V = SymbolUsageView;

    open spec fn view(&self) -> SymbolUsageView {
        SymbolUsageView {
            file_path: self.file_path@,
            line: self.line as nat,
            column: self.column as nat,
            qualified_name: self.qualified_name@,
            usage_kind: self.usage_kind,
            object_name: opt_text(self.object_name),
            contexts: context_views(self.contexts@),
        }
    }
}

/// The values of a sequence of usages.
pub open spec fn usage_views(v: Seq<SymbolUsage>) -> Seq<SymbolUsageView> {
    v.map_values(|u: SymbolUsage| u@)
}

/// The values of a sequence of definitions.
pub open spec fn definition_views(v: Seq<SymbolDefinition>) -> Seq<SymbolDefinitionView> {
    v.map_values(|d: SymbolDefinition| d@)
}

/// The form of a comment.
#[derive(Debug, Clone, Copy, PartialEq, Eq, Structural)]
pub enum CommentType {
    /// A comment that runs to the end of its line.
    SingleLine,
    /// A comment between `/*` and `*/`.
    Block,
}

impl CommentType {
    /// The variant's name as text.
    pub open spec fn name(self) -> Seq<char> {
        match self {
            CommentType::SingleLine => "SingleLine"@,
            CommentType::Block => "Block"@,
        }
    }

    /// The variant's name, as it is shown to users.
    pub fn to_string(&self) -> (s: String)
        ensures
            s@ == self.name(),
    {
        match self {
            CommentType::SingleLine => "SingleLine".to_owned(),
            CommentType::Block => "Block".to_owned(),
        }
    }
}

/// A comment that holds the text searched for.
#[derive(Debug, Clone)]
pub struct CommentMatch {
    /// File in which the comment stands.
    pub file_path: String,
    /// Line on which the comment starts, counted from 1.
    pub line: usize,
    /// Byte offset in that line at which the comment starts.
    pub column: usize,
    /// Form of the comment.
    pub comment_type: CommentType,
    /// The comment's text.
    pub content: String,
}

/// Mathematical value of a `CommentMatch`.
pub struct CommentMatchView {
    pub file_path: Seq<char>,
    pub line: nat,
    pub column: nat,
    pub comment_type: CommentType,
    pub content: Seq<char>,
}

impl View for CommentMatch {
    type V = CommentMatchView;

    open spec fn view(&self) -> CommentMatchView {
        CommentMatchView {
            file_path: self.file_path@,
            line: self.line as nat,
            column: self.column as nat,
            comment_type: self.comment_type,
            content: self.content@,
        }
    }
}

/// The values of a sequence of comment matches.
pub open spec fn match_views(v: Seq<CommentMatch>) -> Seq<CommentMatchView> {
    v.map_values(|m: CommentMatch| m@)
}

/// Some lines of a file.
#[derive(Debug, Clone)]
pub struct CodeSnippet {
    /// File the lines come from.
    pub file_path: String,
    /// First line shown, counted from 1.
    pub start_line: usize,
    /// Last line shown, counted from 1.
    pub end_line: usize,
    /// The lines, joined by newlines.
    pub code: String,
}

/// Mathematical value of a `CodeSnippet`.
pub struct CodeSnippetView {
    pub file_path: Seq<char>,
    pub start_line: nat,
    pub end_line: nat,
    pub code: Seq<char>,
}

impl View for CodeSnippet {
    type V = CodeSnippetView;

    open spec fn view(&self) -> CodeSnippetView {
        CodeSnippetView {
            file_path: self.file_path@,
            start_line: self.start_line as nat,
            end_line: self.end_line as nat,
            code: self.code@,
        }
    }
}

} // verus!
