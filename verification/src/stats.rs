//! Line statistics of a source text: how many of its lines are code, blank,
//! or comment.

use crate::comment::{block_close, block_open};
use crate::language::LanguageId;
use crate::text::{
    begins_with, chars_of, contains, cut, ends_with, finishes_with, includes, lines_of, ranges_within,
    split_lines, starts_with, trim_range, trimmed,
};
use vstd::prelude::*;

verus! {

/// What a line counts as.
#[derive(Debug, Clone, Copy, PartialEq, Eq, Structural)]
pub enum LineType {
    /// Nothing but white space.
    Blank,
    /// A single-line comment or part of a block comment.
    Comment,
    /// Anything else, also code that is followed by a comment.
    Code,
}

/// What a line counts as when the classifier arrives in a block comment
/// (`in_block`) or outside one, and whether it leaves the line inside a block
/// comment. A blank line changes nothing. Inside a block comment every other
/// line is comment, and the comment ends with a line that holds `*/`. Outside,
/// a line that starts with `/*` is comment and opens a block comment unless it
/// also holds `*/` and does not end with `/*`; a line that starts with the
/// prefix of single-line comments, or with `*` but not `*/`, is comment.
pub open spec fn classify_line(in_block: bool, line: Seq<char>, prefix: Seq<char>) -> (LineType, bool) {
    let t = trimmed(line);
    if t.len() == 0 {
        (LineType::Blank, in_block)
    } else if in_block {
        (LineType::Comment, !contains(t, block_close()))
    } else if starts_with(t, block_open()) {
        (LineType::Comment, !contains(t, block_close()) || ends_with(t, block_open()))
    } else if starts_with(t, prefix) {
        (LineType::Comment, false)
    } else if starts_with(t, seq!['*']) && !starts_with(t, block_close()) {
        (LineType::Comment, false)
    } else {
        (LineType::Code, false)
    }
}

/// Whether the classifier is inside a block comment after the first `n` lines.
pub open spec fn in_block_after(lines: Seq<Seq<char>>, n: int, prefix: Seq<char>) -> bool
    decreases n,
{
    if n <= 0 || n > lines.len() {
        false
    } else {
        classify_line(in_block_after(lines, n - 1, prefix), lines[n - 1], prefix).1
    }
}

/// What line `k` (counted from 0) counts as.
pub open spec fn line_type(lines: Seq<Seq<char>>, k: int, prefix: Seq<char>) -> LineType {
    classify_line(in_block_after(lines, k, prefix), lines[k], prefix).0
}

/// How many of the first `n` lines count as `ty`.
pub open spec fn count_type(lines: Seq<Seq<char>>, n: int, prefix: Seq<char>, ty: LineType) -> nat
    decreases n,
{
    if n <= 0 || n > lines.len() {
        0
    } else if line_type(lines, n - 1, prefix) == ty {
        count_type(lines, n - 1, prefix, ty) + 1
    } else {
        count_type(lines, n - 1, prefix, ty)
    }
}

/// Every line counts as exactly one of the three types.
pub proof fn lemma_counts_add_up(lines: Seq<Seq<char>>, n: int, prefix: Seq<char>)
    requires
        0 <= n <= lines.len(),
    ensures
        count_type(lines, n, prefix, LineType::Code) + count_type(
            lines,
            n,
            prefix,
            LineType::Blank,
        ) + count_type(lines, n, prefix, LineType::Comment) == n,
    decreases n,
{
    if n > 0 {
        lemma_counts_add_up(lines, n - 1, prefix);
    }
}

/// Classifies lines one after another, remembering whether a block comment
/// is open.
#[derive(Debug)]
pub struct LineClassifier {
    in_block_comment: bool,
}

impl LineClassifier {
    /// Whether a block comment is open.
    pub closed spec fn in_block(&self) -> bool {
        self.in_block_comment
    }

    /// A classifier outside any comment.
    pub fn new() -> (c: Self)
        ensures
            !c.in_block(),
    {
        LineClassifier { in_block_comment: false }
    }

    /// Classifies `line`, where single-line comments start with
    /// `single_line_prefix`.
    pub fn classify(&mut self, line: &[char], single_line_prefix: &[char]) -> (ty: LineType)
        ensures
            ty == classify_line(old(self).in_block(), line@, single_line_prefix@).0,
            final(self).in_block() == classify_line(
                old(self).in_block(),
                line@,
                single_line_prefix@,
            ).1,
    {
        let (a, b) = trim_range(line);
        let t = vstd::slice::slice_subrange(line, a, b);
        if t.len() == 0 {
            return LineType::Blank;
        }
        let open: Vec<char> = vec!['/', '*'];
        let close: Vec<char> = vec!['*', '/'];
        let star: Vec<char> = vec!['*'];
        assert(open@ =~= block_open());
        assert(close@ =~= block_close());
        assert(star@ =~= seq!['*']);
        if self.in_block_comment {
            if includes(t, close.as_slice()) {
                self.in_block_comment = false;
            }
            return LineType::Comment;
        }
        if begins_with(t, open.as_slice()) {
            if !includes(t, close.as_slice()) || finishes_with(t, open.as_slice()) {
                self.in_block_comment = true;
            }
            return LineType::Comment;
        }
        if begins_with(t, single_line_prefix) {
            return LineType::Comment;
        }
        if begins_with(t, star.as_slice()) && !begins_with(t, close.as_slice()) {
            return LineType::Comment;
        }
        LineType::Code
    }
}

/// The prefix of single-line comments in a language. HTML and Markdown have
/// none: they get a prefix that ordinary lines do not start with.
pub open spec fn comment_prefix(id: LanguageId) -> Seq<char> {
    match id {
        LanguageId::Python => "#"@,
        LanguageId::Sql => "--"@,
        LanguageId::Html => "<!--"@,
        LanguageId::Markdown => "<!---"@,
        _ => "//"@,
    }
}

/// The prefix of single-line comments in a language.
pub fn get_single_line_comment_prefix(language_id: LanguageId) -> (prefix: &'static str)
    ensures
        prefix@ == comment_prefix(language_id),
{
    match language_id {
        LanguageId::Python => "#",
        LanguageId::Sql => "--",
        LanguageId::TypeScript
        | LanguageId::TypeScriptReact
        | LanguageId::JavaScript
        | LanguageId::JavaScriptReact
        | LanguageId::Rust
        | LanguageId::Go
        | LanguageId::Java
        | LanguageId::Css => "//",
        LanguageId::Html => "<!--",
        LanguageId::Markdown => "<!---",
    }
}

/// Counts the lines of `source` by type. Returns the number of all lines,
/// of code lines, of blank lines and of comment lines, in that order.
pub fn count_lines(source: &str, language_id: LanguageId) -> (counts: (usize, usize, usize, usize))
    ensures
        ({
            let lines = lines_of(source@);
            let prefix = comment_prefix(language_id);
            let n = lines.len() as int;
            &&& counts.0 == lines.len()
            &&& counts.1 == count_type(lines, n, prefix, LineType::Code)
            &&& counts.2 == count_type(lines, n, prefix, LineType::Blank)
            &&& counts.3 == count_type(lines, n, prefix, LineType::Comment)
        }),
{
    let single_line_prefix = chars_of(get_single_line_comment_prefix(language_id));
    let chars = chars_of(source);
    let src = chars.as_slice();
    let ranges = split_lines(src);
    let ghost lines = lines_of(source@);
    let ghost prefix = comment_prefix(language_id);
    assert(cut(src@, ranges@).len() == ranges@.len());
    let mut classifier = LineClassifier::new();
    let mut total: usize = 0;
    let mut code: usize = 0;
    let mut blank: usize = 0;
    let mut comment: usize = 0;
    while total < ranges.len()
        invariant
            total <= ranges@.len(),
            src@ == source@,
            lines == lines_of(source@),
            prefix == comment_prefix(language_id),
            single_line_prefix@ == prefix,
            ranges_within(ranges@, src@.len() as int),
            cut(src@, ranges@) == lines,
            classifier.in_block() == in_block_after(lines, total as int, prefix),
            code == count_type(lines, total as int, prefix, LineType::Code),
            blank == count_type(lines, total as int, prefix, LineType::Blank),
            comment == count_type(lines, total as int, prefix, LineType::Comment),
        decreases ranges@.len() - total,
    {
        let (a, b) = ranges[total];
        assert(ranges@[total as int].0 <= ranges@[total as int].1 <= src@.len());
        let line = vstd::slice::slice_subrange(src, a, b);
        assert(line@ == lines[total as int]);
        proof {
            lemma_counts_add_up(lines, total as int, prefix);
        }
        match classifier.classify(line, single_line_prefix.as_slice()) {
            LineType::Blank => {
                blank += 1;
            },
            LineType::Comment => {
                comment += 1;
            },
            LineType::Code => {
                code += 1;
            },
        }
        total += 1;
    }
    (total, code, blank, comment)
}

} // verus!
