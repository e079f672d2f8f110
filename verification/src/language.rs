//! The languages that can be searched: their names, file extensions and the
//! table that says which kind of symbol a query capture stands for.

use crate::text::{chars_of, string_of, str_eq};
use crate::types::SymbolKind;
use vstd::prelude::*;

verus! {

/// Identifies a language.
#[derive(Debug, Clone, Copy, PartialEq, Eq, Hash, Structural)]
pub enum LanguageId {
    TypeScript,
    TypeScriptReact,
    JavaScript,
    JavaScriptReact,
    Markdown,
    Html,
    Css,
    Python,
    Rust,
    Go,
    Java,
    Sql,
}

impl Default for LanguageId {
    fn default() -> (id: Self)
        ensures
            id == LanguageId::TypeScript,
    {
        LanguageId::TypeScript
    }
}

impl LanguageId {
    /// The language's name as text.
    pub open spec fn name(self) -> Seq<char> {
        match self {
            LanguageId::TypeScript => "TypeScript"@,
            LanguageId::TypeScriptReact => "TypeScriptReact"@,
            LanguageId::JavaScript => "JavaScript"@,
            LanguageId::JavaScriptReact => "JavaScriptReact"@,
            LanguageId::Markdown => "Markdown"@,
            LanguageId::Html => "Html"@,
            LanguageId::Css => "Css"@,
            LanguageId::Python => "Python"@,
            LanguageId::Rust => "Rust"@,
            LanguageId::Go => "Go"@,
            LanguageId::Java => "Java"@,
            LanguageId::Sql => "Sql"@,
        }
    }

    /// The language's name, as it is shown to users.
    pub fn to_string(&self) -> (s: String)
        ensures
            s@ == self.name(),
    {
        match self {
            LanguageId::TypeScript => "TypeScript".to_owned(),
            LanguageId::TypeScriptReact => "TypeScriptReact".to_owned(),
            LanguageId::JavaScript => "JavaScript".to_owned(),
            LanguageId::JavaScriptReact => "JavaScriptReact".to_owned(),
            LanguageId::Markdown => "Markdown".to_owned(),
            LanguageId::Html => "Html".to_owned(),
            LanguageId::Css => "Css".to_owned(),
            LanguageId::Python => "Python".to_owned(),
            LanguageId::Rust => "Rust".to_owned(),
            LanguageId::Go => "Go".to_owned(),
            LanguageId::Java => "Java".to_owned(),
            LanguageId::Sql => "Sql".to_owned(),
        }
    }

    /// The file extensions of the language, the usual one first.
    pub open spec fn extensions(self) -> Seq<Seq<char>> {
        match self {
            LanguageId::TypeScript => seq!["ts"@],
            LanguageId::TypeScriptReact => seq!["tsx"@],
            LanguageId::JavaScript => seq!["js"@, "mjs"@, "cjs"@],
            LanguageId::JavaScriptReact => seq!["jsx"@],
            LanguageId::Markdown => seq!["md"@, "mdc"@],
            LanguageId::Html => seq!["html"@, "htm"@],
            LanguageId::Css => seq!["css"@],
            LanguageId::Python => seq!["py"@, "pyi"@],
            LanguageId::Rust => seq!["rs"@],
            LanguageId::Go => seq!["go"@],
            LanguageId::Java => seq!["java"@],
            LanguageId::Sql => seq!["sql"@],
        }
    }

    /// The file extensions that files of this language carry.
    pub fn file_extensions(&self) -> (exts: Vec<&'static str>)
        ensures
            exts@.len() == self.extensions().len(),
            forall|i: int| 0 <= i < exts@.len() ==> (#[trigger] exts@[i])@ == self.extensions()[i],
    {
        match self {
            LanguageId::TypeScript => vec!["ts"],
            LanguageId::TypeScriptReact => vec!["tsx"],
            LanguageId::JavaScript => vec!["js", "mjs", "cjs"],
            LanguageId::JavaScriptReact => vec!["jsx"],
            LanguageId::Markdown => vec!["md", "mdc"],
            LanguageId::Html => vec!["html", "htm"],
            LanguageId::Css => vec!["css"],
            LanguageId::Python => vec!["py", "pyi"],
            LanguageId::Rust => vec!["rs"],
            LanguageId::Go => vec!["go"],
            LanguageId::Java => vec!["java"],
            LanguageId::Sql => vec!["sql"],
        }
    }

    /// Whether the language keeps documentation in statements of their own,
    /// apart from the definitions they document.
    pub open spec fn separate_docs(self) -> bool {
        self == LanguageId::Sql
    }

    /// Whether documentation is attached by separate statements rather than
    /// by comments above a definition.
    pub fn uses_separate_docs(&self) -> (b: bool)
        ensures
            b == self.separate_docs(),
    {
        match self {
            LanguageId::Sql => true,
            _ => false,
        }
    }

    /// The language's table of captures and symbol kinds.
    pub open spec fn mapping_table(self) -> Seq<(Seq<char>, SymbolKind)> {
        match self {
            LanguageId::TypeScript => seq![
                ("definition.function"@, SymbolKind::Function),
                ("definition.class"@, SymbolKind::Class),
                ("definition.method"@, SymbolKind::Method),
                ("definition.interface"@, SymbolKind::Interface),
                ("definition.enum"@, SymbolKind::Enum),
                ("definition.variable"@, SymbolKind::Variable),
                ("definition.arrow_function"@, SymbolKind::ArrowFunction),
                ("definition.constructor"@, SymbolKind::Constructor),
                ("definition.type_alias"@, SymbolKind::TypeAlias),
            ],
            LanguageId::TypeScriptReact => seq![
                ("definition.function"@, SymbolKind::Function),
                ("definition.class"@, SymbolKind::Class),
                ("definition.method"@, SymbolKind::Method),
                ("definition.interface"@, SymbolKind::Interface),
                ("definition.enum"@, SymbolKind::Enum),
                ("definition.variable"@, SymbolKind::Variable),
                ("definition.arrow_function"@, SymbolKind::ArrowFunction),
                ("definition.constructor"@, SymbolKind::Constructor),
                ("definition.type_alias"@, SymbolKind::TypeAlias),
            ],
            LanguageId::JavaScript => seq![
                ("definition.function"@, SymbolKind::Function),
                ("definition.class"@, SymbolKind::Class),
                ("definition.method"@, SymbolKind::Method),
                ("definition.variable"@, SymbolKind::Variable),
                ("definition.arrow_function"@, SymbolKind::ArrowFunction),
                ("definition.constructor"@, SymbolKind::Constructor),
            ],
            LanguageId::JavaScriptReact => seq![
                ("definition.function"@, SymbolKind::Function),
                ("definition.class"@, SymbolKind::Class),
                ("definition.method"@, SymbolKind::Method),
                ("definition.variable"@, SymbolKind::Variable),
                ("definition.arrow_function"@, SymbolKind::ArrowFunction),
                ("definition.constructor"@, SymbolKind::Constructor),
            ],
            LanguageId::Markdown => seq![
                ("definition.heading1"@, SymbolKind::Heading1),
                ("definition.heading2"@, SymbolKind::Heading2),
                ("definition.heading3"@, SymbolKind::Heading3),
                ("definition.heading4"@, SymbolKind::Heading4),
                ("definition.heading5"@, SymbolKind::Heading5),
                ("definition.heading6"@, SymbolKind::Heading6),
                ("definition.code_block"@, SymbolKind::CodeBlock),
                ("definition.link"@, SymbolKind::Link),
            ],
            LanguageId::Html => seq![
                ("definition.element"@, SymbolKind::HtmlElement),
                ("definition.id"@, SymbolKind::HtmlId),
                ("definition.class"@, SymbolKind::HtmlClass),
            ],
            LanguageId::Css => seq![
                ("definition.class_selector"@, SymbolKind::CssClassSelector),
                ("definition.id_selector"@, SymbolKind::CssIdSelector),
                ("definition.variable"@, SymbolKind::CssVariable),
                ("definition.keyframes"@, SymbolKind::CssKeyframes),
            ],
            LanguageId::Python => seq![
                ("definition.function"@, SymbolKind::Function),
                ("definition.class"@, SymbolKind::Class),
                ("definition.method"@, SymbolKind::Method),
                ("definition.constructor"@, SymbolKind::Constructor),
                ("definition.variable"@, SymbolKind::Variable),
            ],
            LanguageId::Rust => seq![
                ("definition.function"@, SymbolKind::Function),
                ("definition.struct"@, SymbolKind::Struct),
                ("definition.enum"@, SymbolKind::Enum),
                ("definition.trait"@, SymbolKind::Trait),
                ("definition.impl"@, SymbolKind::Impl),
                ("definition.method"@, SymbolKind::Method),
                ("definition.type_alias"@, SymbolKind::TypeAlias),
                ("definition.module"@, SymbolKind::Module),
                ("definition.const"@, SymbolKind::Const),
                ("definition.static"@, SymbolKind::Static),
                ("definition.macro"@, SymbolKind::Macro),
            ],
            LanguageId::Go => seq![
                ("definition.function"@, SymbolKind::Function),
                ("definition.method"@, SymbolKind::Method),
                ("definition.struct"@, SymbolKind::Struct),
                ("definition.interface"@, SymbolKind::Interface),
                ("definition.type_alias"@, SymbolKind::TypeAlias),
                ("definition.const"@, SymbolKind::Const),
                ("definition.variable"@, SymbolKind::Variable),
            ],
            LanguageId::Java => seq![
                ("definition.class"@, SymbolKind::Class),
                ("definition.interface"@, SymbolKind::Interface),
                ("definition.enum"@, SymbolKind::Enum),
                ("definition.method"@, SymbolKind::Method),
                ("definition.constructor"@, SymbolKind::Constructor),
                ("definition.field"@, SymbolKind::Variable),
                ("definition.annotation"@, SymbolKind::Interface),
            ],
            LanguageId::Sql => seq![
                ("definition.table"@, SymbolKind::Table),
                ("definition.view"@, SymbolKind::View),
                ("definition.function"@, SymbolKind::Function),
                ("definition.index"@, SymbolKind::Index),
                ("definition.trigger"@, SymbolKind::Trigger),
                ("definition.column"@, SymbolKind::Column),
            ],
        }
    }

    /// The language's table that maps the name of a query capture to the kind
    /// of symbol that the captured node defines.
    pub fn definition_mappings(&self) -> (table: Vec<SymbolKindMapping>)
        ensures
            mapping_views(table@) == self.mapping_table(),
    {
        let table = match self {
            LanguageId::TypeScript => vec![
                SymbolKindMapping { capture_name: "definition.function", kind: SymbolKind::Function },
                SymbolKindMapping { capture_name: "definition.class", kind: SymbolKind::Class },
                SymbolKindMapping { capture_name: "definition.method", kind: SymbolKind::Method },
                SymbolKindMapping { capture_name: "definition.interface", kind: SymbolKind::Interface },
                SymbolKindMapping { capture_name: "definition.enum", kind: SymbolKind::Enum },
                SymbolKindMapping { capture_name: "definition.variable", kind: SymbolKind::Variable },
                SymbolKindMapping { capture_name: "definition.arrow_function", kind: SymbolKind::ArrowFunction },
                SymbolKindMapping { capture_name: "definition.constructor", kind: SymbolKind::Constructor },
                SymbolKindMapping { capture_name: "definition.type_alias", kind: SymbolKind::TypeAlias },
            ],
            LanguageId::TypeScriptReact => vec![
                SymbolKindMapping { capture_name: "definition.function", kind: SymbolKind::Function },
                SymbolKindMapping { capture_name: "definition.class", kind: SymbolKind::Class },
                SymbolKindMapping { capture_name: "definition.method", kind: SymbolKind::Method },
                SymbolKindMapping { capture_name: "definition.interface", kind: SymbolKind::Interface },
                SymbolKindMapping { capture_name: "definition.enum", kind: SymbolKind::Enum },
                SymbolKindMapping { capture_name: "definition.variable", kind: SymbolKind::Variable },
                SymbolKindMapping { capture_name: "definition.arrow_function", kind: SymbolKind::ArrowFunction },
                SymbolKindMapping { capture_name: "definition.constructor", kind: SymbolKind::Constructor },
                SymbolKindMapping { capture_name: "definition.type_alias", kind: SymbolKind::TypeAlias },
            ],
            LanguageId::JavaScript => vec![
                SymbolKindMapping { capture_name: "definition.function", kind: SymbolKind::Function },
                SymbolKindMapping { capture_name: "definition.class", kind: SymbolKind::Class },
                SymbolKindMapping { capture_name: "definition.method", kind: SymbolKind::Method },
                SymbolKindMapping { capture_name: "definition.variable", kind: SymbolKind::Variable },
                SymbolKindMapping { capture_name: "definition.arrow_function", kind: SymbolKind::ArrowFunction },
                SymbolKindMapping { capture_name: "definition.constructor", kind: SymbolKind::Constructor },
            ],
            LanguageId::JavaScriptReact => vec![
                SymbolKindMapping { capture_name: "definition.function", kind: SymbolKind::Function },
                SymbolKindMapping { capture_name: "definition.class", kind: SymbolKind::Class },
                SymbolKindMapping { capture_name: "definition.method", kind: SymbolKind::Method },
                SymbolKindMapping { capture_name: "definition.variable", kind: SymbolKind::Variable },
                SymbolKindMapping { capture_name: "definition.arrow_function", kind: SymbolKind::ArrowFunction },
                SymbolKindMapping { capture_name: "definition.constructor", kind: SymbolKind::Constructor },
            ],
            LanguageId::Markdown => vec![
                SymbolKindMapping { capture_name: "definition.heading1", kind: SymbolKind::Heading1 },
                SymbolKindMapping { capture_name: "definition.heading2", kind: SymbolKind::Heading2 },
                SymbolKindMapping { capture_name: "definition.heading3", kind: SymbolKind::Heading3 },
                SymbolKindMapping { capture_name: "definition.heading4", kind: SymbolKind::Heading4 },
                SymbolKindMapping { capture_name: "definition.heading5", kind: SymbolKind::Heading5 },
                SymbolKindMapping { capture_name: "definition.heading6", kind: SymbolKind::Heading6 },
                SymbolKindMapping { capture_name: "definition.code_block", kind: SymbolKind::CodeBlock },
                SymbolKindMapping { capture_name: "definition.link", kind: SymbolKind::Link },
            ],
            LanguageId::Html => vec![
                SymbolKindMapping { capture_name: "definition.element", kind: SymbolKind::HtmlElement },
                SymbolKindMapping { capture_name: "definition.id", kind: SymbolKind::HtmlId },
                SymbolKindMapping { capture_name: "definition.class", kind: SymbolKind::HtmlClass },
            ],
            LanguageId::Css => vec![
                SymbolKindMapping { capture_name: "definition.class_selector", kind: SymbolKind::CssClassSelector },
                SymbolKindMapping { capture_name: "definition.id_selector", kind: SymbolKind::CssIdSelector },
                SymbolKindMapping { capture_name: "definition.variable", kind: SymbolKind::CssVariable },
                SymbolKindMapping { capture_name: "definition.keyframes", kind: SymbolKind::CssKeyframes },
            ],
            LanguageId::Python => vec![
                SymbolKindMapping { capture_name: "definition.function", kind: SymbolKind::Function },
                SymbolKindMapping { capture_name: "definition.class", kind: SymbolKind::Class },
                SymbolKindMapping { capture_name: "definition.method", kind: SymbolKind::Method },
                SymbolKindMapping { capture_name: "definition.constructor", kind: SymbolKind::Constructor },
                SymbolKindMapping { capture_name: "definition.variable", kind: SymbolKind::Variable },
            ],
            LanguageId::Rust => vec![
                SymbolKindMapping { capture_name: "definition.function", kind: SymbolKind::Function },
                SymbolKindMapping { capture_name: "definition.struct", kind: SymbolKind::Struct },
                SymbolKindMapping { capture_name: "definition.enum", kind: SymbolKind::Enum },
                SymbolKindMapping { capture_name: "definition.trait", kind: SymbolKind::Trait },
                SymbolKindMapping { capture_name: "definition.impl", kind: SymbolKind::Impl },
                SymbolKindMapping { capture_name: "definition.method", kind: SymbolKind::Method },
                SymbolKindMapping { capture_name: "definition.type_alias", kind: SymbolKind::TypeAlias },
                SymbolKindMapping { capture_name: "definition.module", kind: SymbolKind::Module },
                SymbolKindMapping { capture_name: "definition.const", kind: SymbolKind::Const },
                SymbolKindMapping { capture_name: "definition.static", kind: SymbolKind::Static },
                SymbolKindMapping { capture_name: "definition.macro", kind: SymbolKind::Macro },
            ],
            LanguageId::Go => vec![
                SymbolKindMapping { capture_name: "definition.function", kind: SymbolKind::Function },
                SymbolKindMapping { capture_name: "definition.method", kind: SymbolKind::Method },
                SymbolKindMapping { capture_name: "definition.struct", kind: SymbolKind::Struct },
                SymbolKindMapping { capture_name: "definition.interface", kind: SymbolKind::Interface },
                SymbolKindMapping { capture_name: "definition.type_alias", kind: SymbolKind::TypeAlias },
                SymbolKindMapping { capture_name: "definition.const", kind: SymbolKind::Const },
                SymbolKindMapping { capture_name: "definition.variable", kind: SymbolKind::Variable },
            ],
            LanguageId::Java => vec![
                SymbolKindMapping { capture_name: "definition.class", kind: SymbolKind::Class },
                SymbolKindMapping { capture_name: "definition.interface", kind: SymbolKind::Interface },
                SymbolKindMapping { capture_name: "definition.enum", kind: SymbolKind::Enum },
                SymbolKindMapping { capture_name: "definition.method", kind: SymbolKind::Method },
                SymbolKindMapping { capture_name: "definition.constructor", kind: SymbolKind::Constructor },
                SymbolKindMapping { capture_name: "definition.field", kind: SymbolKind::Variable },
                SymbolKindMapping { capture_name: "definition.annotation", kind: SymbolKind::Interface },
            ],
            LanguageId::Sql => vec![
                SymbolKindMapping { capture_name: "definition.table", kind: SymbolKind::Table },
                SymbolKindMapping { capture_name: "definition.view", kind: SymbolKind::View },
                SymbolKindMapping { capture_name: "definition.function", kind: SymbolKind::Function },
                SymbolKindMapping { capture_name: "definition.index", kind: SymbolKind::Index },
                SymbolKindMapping { capture_name: "definition.trigger", kind: SymbolKind::Trigger },
                SymbolKindMapping { capture_name: "definition.column", kind: SymbolKind::Column },
            ],
        };
        assert(mapping_views(table@) =~= self.mapping_table());
        table
    }
}

/// One line of a language's table: the name of a query capture, and the kind
/// of symbol that a node captured under that name defines.
#[derive(Debug, Clone)]
pub struct SymbolKindMapping {
    pub capture_name: &'static str,
    pub kind: SymbolKind,
}

/// The lines of a table as pairs of plain values.
pub open spec fn mapping_views(table: Seq<SymbolKindMapping>) -> Seq<(Seq<char>, SymbolKind)> {
    table.map_values(|m: SymbolKindMapping| (m.capture_name@, m.kind))
}

/// The kind that the first line for `capture` in `table` gives.
pub open spec fn kind_in(table: Seq<(Seq<char>, SymbolKind)>, capture: Seq<char>) -> Option<
    SymbolKind,
>
    decreases table.len(),
{
    if table.len() == 0 {
        None
    } else if table[0].0 == capture {
        Some(table[0].1)
    } else {
        kind_in(table.drop_first(), capture)
    }
}

/// Looks `capture` up in `table`.
pub fn kind_for(table: &Vec<SymbolKindMapping>, capture: &str) -> (kind: Option<SymbolKind>)
    ensures
        kind == kind_in(mapping_views(table@), capture@),
{
    let ghost whole = mapping_views(table@);
    let mut i: usize = 0;
    assert(whole.skip(0) =~= whole);
    while i < table.len()
        invariant
            i <= table.len(),
            whole == mapping_views(table@),
            kind_in(whole, capture@) == kind_in(whole.skip(i as int), capture@),
        decreases table.len() - i,
    {
        assert(whole.skip(i as int)[0] == whole[i as int]);
        assert(whole.skip(i as int).drop_first() =~= whole.skip(i + 1));
        if str_eq(table[i].capture_name, capture) {
            return Some(table[i].kind);
        }
        i += 1;
    }
    None
}

/// The language whose files carry the extension `ext`.
pub open spec fn extension_language(ext: Seq<char>) -> Option<LanguageId> {
    if ext == "ts"@ {
        Some(LanguageId::TypeScript)
    } else if ext == "tsx"@ {
        Some(LanguageId::TypeScriptReact)
    } else if ext == "js"@ || ext == "mjs"@ || ext == "cjs"@ {
        Some(LanguageId::JavaScript)
    } else if ext == "jsx"@ {
        Some(LanguageId::JavaScriptReact)
    } else if ext == "md"@ || ext == "mdc"@ {
        Some(LanguageId::Markdown)
    } else if ext == "html"@ || ext == "htm"@ {
        Some(LanguageId::Html)
    } else if ext == "css"@ {
        Some(LanguageId::Css)
    } else if ext == "py"@ || ext == "pyi"@ {
        Some(LanguageId::Python)
    } else if ext == "rs"@ {
        Some(LanguageId::Rust)
    } else if ext == "go"@ {
        Some(LanguageId::Go)
    } else if ext == "java"@ {
        Some(LanguageId::Java)
    } else if ext == "sql"@ {
        Some(LanguageId::Sql)
    } else {
        None
    }
}

/// The language of a file extension, written without its dot.
pub fn language_for_extension(ext: &str) -> (id: Option<LanguageId>)
    ensures
        id == extension_language(ext@),
{
    if str_eq(ext, "ts") {
        Some(LanguageId::TypeScript)
    } else if str_eq(ext, "tsx") {
        Some(LanguageId::TypeScriptReact)
    } else if str_eq(ext, "js") || str_eq(ext, "mjs") || str_eq(ext, "cjs") {
        Some(LanguageId::JavaScript)
    } else if str_eq(ext, "jsx") {
        Some(LanguageId::JavaScriptReact)
    } else if str_eq(ext, "md") || str_eq(ext, "mdc") {
        Some(LanguageId::Markdown)
    } else if str_eq(ext, "html") || str_eq(ext, "htm") {
        Some(LanguageId::Html)
    } else if str_eq(ext, "css") {
        Some(LanguageId::Css)
    } else if str_eq(ext, "py") || str_eq(ext, "pyi") {
        Some(LanguageId::Python)
    } else if str_eq(ext, "rs") {
        Some(LanguageId::Rust)
    } else if str_eq(ext, "go") {
        Some(LanguageId::Go)
    } else if str_eq(ext, "java") {
        Some(LanguageId::Java)
    } else if str_eq(ext, "sql") {
        Some(LanguageId::Sql)
    } else {
        None
    }
}

/// Index of the last `c` in `s`.
pub open spec fn last_index_of(s: Seq<char>, c: char) -> Option<int>
    decreases s.len(),
{
    if s.len() == 0 {
        None
    } else if s.last() == c {
        Some(s.len() - 1)
    } else {
        last_index_of(s.drop_last(), c)
    }
}

/// The file name in `path`: what follows its last `/`.
pub open spec fn file_name_of(path: Seq<char>) -> Seq<char> {
    match last_index_of(path, '/') {
        Some(i) => path.skip(i + 1),
        None => path,
    }
}

/// The extension of the file that `path` names: what follows the last dot
/// of the file name. A file name without a dot has none, and neither has one
/// whose only dot is its first character, nor the name `..`.
pub open spec fn extension_of(path: Seq<char>) -> Option<Seq<char>> {
    let name = file_name_of(path);
    match last_index_of(name, '.') {
        Some(i) => if i == 0 || name == seq!['.', '.'] {
            None
        } else {
            Some(name.skip(i + 1))
        },
        None => None,
    }
}

fn last_index(s: &[char], c: char) -> (r: Option<usize>)
    ensures
        match r {
            Some(i) => last_index_of(s@, c) == Some(i as int) && i < s@.len(),
            None => last_index_of(s@, c) is None,
        },
{
    let mut i: usize = s.len();
    assert(s@.take(i as int) =~= s@);
    while i > 0
        invariant
            i <= s.len(),
            last_index_of(s@, c) == last_index_of(s@.take(i as int), c),
        decreases i,
    {
        if s[i - 1] == c {
            return Some(i - 1);
        }
        assert(s@.take(i as int).drop_last() =~= s@.take(i - 1));
        i -= 1;
    }
    None
}

/// The extension of the file that `path` names.
pub fn file_extension(path: &str) -> (ext: Option<String>)
    ensures
        crate::types::opt_text(ext) == extension_of(path@),
{
    let chars = chars_of(path);
    let whole = chars.as_slice();
    let len = whole.len();
    let start: usize = match last_index(whole, '/') {
        Some(i) => i + 1,
        None => 0,
    };
    let name = vstd::slice::slice_subrange(whole, start, len);
    assert(name@ =~= file_name_of(path@));
    match last_index(name, '.') {
        Some(i) => {
            if i == 0 || (name.len() == 2 && name[0] == '.' && name[1] == '.') {
                assert(name@ == seq!['.', '.'] ==> name@.len() == 2);
                assert(name.len() == 2 && name[0] == '.' && name[1] == '.' ==> name@ =~= seq![
                    '.',
                    '.',
                ]);
                None
            } else {
                let ext = vstd::slice::slice_subrange(name, i + 1, name.len());
                assert(ext@ =~= name@.skip(i + 1));
                Some(string_of(ext))
            }
        },
        None => None,
    }
}

/// The language of the file that `path` names, by its extension.
pub open spec fn path_language(path: Seq<char>) -> Option<LanguageId> {
    match extension_of(path) {
        Some(ext) => extension_language(ext),
        None => None,
    }
}

/// The language of the file that `path` names.
pub fn language_for_path(path: &str) -> (id: Option<LanguageId>)
    ensures
        id == path_language(path@),
{
    match file_extension(path) {
        Some(ext) => language_for_extension(ext.as_str()),
        None => None,
    }
}

} // verus!
