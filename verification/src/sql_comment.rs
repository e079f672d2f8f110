//! Documentation of SQL definitions, which stands in `COMMENT ON` statements
//! apart from the tables and columns that it documents.

use crate::syntax::{
    ancestor_views, child_views, leaf_views, match_list_views, Ancestor, AncestorView,
    CapturedNode, CapturedNodeView, ChildNode, ChildNodeView, LeafNode, LeafNodeView, QueryMatch,
};
use crate::text::{chars_of, str_eq, string_of, trim_range, trimmed};
use crate::types::opt_text;
use vstd::prelude::*;
use vstd::string::StringExecFns;

verus! {

/// `s` with every doubled single quote replaced by one single quote, read
/// from the left.
pub open spec fn unescaped(s: Seq<char>) -> Seq<char>
    decreases s.len(),
{
    if s.len() == 0 {
        seq![]
    } else if s.len() >= 2 && s[0] == '\'' && s[1] == '\'' {
        seq!['\''] + unescaped(s.skip(2))
    } else {
        seq![s[0]] + unescaped(s.skip(1))
    }
}

/// `t` without the single quotes that surround it, where it has both.
pub open spec fn unquoted(t: Seq<char>) -> Seq<char> {
    if t.len() >= 2 && t[0] == '\'' && t.last() == '\'' {
        t.subrange(1, t.len() - 1)
    } else {
        t
    }
}

/// The text that an SQL string literal stands for: white space round it and
/// the surrounding quotes are dropped, doubled quotes inside become single.
pub open spec fn cleaned_literal(text: Seq<char>) -> Seq<char> {
    unescaped(unquoted(trimmed(text)))
}

/// Cleans an SQL string literal: removes the surrounding quotes and resolves
/// doubled quotes.
pub fn clean_sql_literal(text: &str) -> (cleaned: String)
    ensures
        cleaned@ == cleaned_literal(text@),
{
    let chars = chars_of(text);
    let (a, b) = trim_range(chars.as_slice());
    let t = vstd::slice::slice_subrange(chars.as_slice(), a, b);
    let inner = if t.len() >= 2 && t[0] == '\'' && t[t.len() - 1] == '\'' {
        vstd::slice::slice_subrange(t, 1, t.len() - 1)
    } else {
        t
    };
    assert(inner@ == unquoted(trimmed(text@)));
    let mut out: Vec<char> = Vec::new();
    let mut i: usize = 0;
    assert(inner@.skip(0) =~= inner@);
    assert(out@ + unescaped(inner@) =~= unescaped(inner@));
    while i < inner.len()
        invariant
            i <= inner@.len(),
            out@ + unescaped(inner@.skip(i as int)) == unescaped(inner@),
        decreases inner@.len() - i,
    {
        let ghost rest = inner@.skip(i as int);
        let ghost before = out@;
        assert(rest[0] == inner@[i as int]);
        if inner[i] == '\'' && i + 1 < inner.len() && inner[i + 1] == '\'' {
            assert(rest[1] == inner@[i + 1]);
            assert(rest.skip(2) =~= inner@.skip(i + 2));
            out.push('\'');
            assert((before + seq!['\'']) + unescaped(inner@.skip(i + 2)) =~= before + (seq!['\'']
                + unescaped(inner@.skip(i + 2))));
            i += 2;
        } else {
            assert(rest.len() >= 2 ==> rest[1] == inner@[i + 1]);
            assert(rest.skip(1) =~= inner@.skip(i + 1));
            out.push(inner[i]);
            assert((before + seq![rest[0]]) + unescaped(inner@.skip(i + 1)) =~= before + (seq![
                rest[0],
            ] + unescaped(inner@.skip(i + 1))));
            i += 1;
        }
    }
    assert(out@ + Seq::<char>::empty() =~= out@);
    string_of(out.as_slice())
}

/// The documentation found in a file's `COMMENT ON` statements, by the name
/// of the table (`users`) or of the column (`users.email`) that each
/// documents.
#[derive(Debug, Clone)]
pub struct SqlCommentMap {
    entries: Vec<(String, String)>,
}

/// The map that the entries make, a later entry taking the place of an
/// earlier one under the same key.
pub open spec fn map_of(entries: Seq<(String, String)>) -> Map<Seq<char>, Seq<char>>
    decreases entries.len(),
{
    if entries.len() == 0 {
        Map::empty()
    } else {
        map_of(entries.drop_last()).insert(entries.last().0@, entries.last().1@)
    }
}

impl View for SqlCommentMap {
    type V = Map<Seq<char>, Seq<char>>;

    closed spec fn view(&self) -> Map<Seq<char>, Seq<char>> {
        map_of(self.entries@)
    }
}

impl SqlCommentMap {
    /// A map without entries.
    pub fn new() -> (m: Self)
        ensures
            m@ == Map::<Seq<char>, Seq<char>>::empty(),
    {
        SqlCommentMap { entries: Vec::new() }
    }

    /// Puts `text` under `key`, in place of what stood there.
    pub fn insert(&mut self, key: String, text: String)
        ensures
            final(self)@ == old(self)@.insert(key@, text@),
    {
        let ghost before = self.entries@;
        self.entries.push((key, text));
        assert(self.entries@.drop_last() =~= before);
    }

    /// The documentation that stands under `key`.
    pub fn get(&self, key: &str) -> (text: Option<&String>)
        ensures
            match text {
                Some(t) => self@.contains_key(key@) && self@[key@] == t@,
                None => !self@.contains_key(key@),
            },
    {
        let mut i: usize = self.entries.len();
        assert(self.entries@.take(i as int) =~= self.entries@);
        while i > 0
            invariant
                i <= self.entries@.len(),
                self@.contains_key(key@) == map_of(self.entries@.take(i as int)).contains_key(
                    key@,
                ),
                self@.contains_key(key@) ==> self@[key@] == map_of(self.entries@.take(i as int))[key@],
            decreases i,
        {
            let ghost part = self.entries@.take(i as int);
            assert(part.drop_last() =~= self.entries@.take(i - 1));
            assert(part.last() == self.entries@[i - 1]);
            if str_eq(self.entries[i - 1].0.as_str(), key) {
                return Some(&self.entries[i - 1].1);
            }
            i -= 1;
        }
        None
    }
}

/// The text of the last of the first `n` captures that is named `name`; none
/// where no capture has that name, or where that capture's text cannot be read.
pub open spec fn last_text(captures: Seq<CapturedNodeView>, name: Seq<char>, n: int) -> Option<
    Seq<char>,
>
    decreases n,
{
    if n <= 0 || n > captures.len() {
        None
    } else if captures[n - 1].capture == name {
        captures[n - 1].text
    } else {
        last_text(captures, name, n - 1)
    }
}

/// One of the captures is named `name`.
pub open spec fn has_capture(captures: Seq<CapturedNodeView>, name: Seq<char>) -> bool {
    exists|i: int| 0 <= i < captures.len() && (#[trigger] captures[i]).capture == name
}

/// `a`, a dot, and `b`.
pub open spec fn dotted(a: Seq<char>, b: Seq<char>) -> Seq<char> {
    a + seq!['.'] + b
}

/// The entry that one match of the query adds: a comment on a table is filed
/// under the table's name, a comment on a column under `table.column`, each
/// with its text cleaned. A match that lacks a part adds nothing.
pub open spec fn comment_entry(captures: Seq<CapturedNodeView>) -> Option<(Seq<char>, Seq<char>)> {
    let n = captures.len() as int;
    if has_capture(captures, "comment.table"@) {
        match (
            last_text(captures, "comment.table.name"@, n),
            last_text(captures, "comment.table.text"@, n),
        ) {
            (Some(name), Some(text)) => Some((name, cleaned_literal(text))),
            _ => None,
        }
    } else if has_capture(captures, "comment.column"@) {
        match (
            last_text(captures, "comment.column.table"@, n),
            last_text(captures, "comment.column.name"@, n),
            last_text(captures, "comment.column.text"@, n),
        ) {
            (Some(table), Some(column), Some(text)) => Some(
                (dotted(table, column), cleaned_literal(text)),
            ),
            _ => None,
        }
    } else {
        None
    }
}

/// The map that the first `n` matches make.
pub open spec fn comments_from(matches: Seq<Seq<CapturedNodeView>>, n: int) -> Map<
    Seq<char>,
    Seq<char>,
>
    decreases n,
{
    if n <= 0 || n > matches.len() {
        Map::empty()
    } else {
        match comment_entry(matches[n - 1]) {
            Some(entry) => comments_from(matches, n - 1).insert(entry.0, entry.1),
            None => comments_from(matches, n - 1),
        }
    }
}

fn find_last_text(captures: &Vec<CapturedNode>, name: &str) -> (text: Option<String>)
    ensures
        opt_text(text) == last_text(
            crate::syntax::capture_views(captures@),
            name@,
            captures@.len() as int,
        ),
{
    let ghost all = crate::syntax::capture_views(captures@);
    let mut i: usize = captures.len();
    while i > 0
        invariant
            i <= captures@.len(),
            all == crate::syntax::capture_views(captures@),
            last_text(all, name@, captures@.len() as int) == last_text(all, name@, i as int),
        decreases i,
    {
        assert(all[i - 1] == captures@[i - 1]@);
        if str_eq(captures[i - 1].capture.as_str(), name) {
            return captures[i - 1].text.clone();
        }
        i -= 1;
    }
    None
}

fn any_capture(captures: &Vec<CapturedNode>, name: &str) -> (b: bool)
    ensures
        b == has_capture(crate::syntax::capture_views(captures@), name@),
{
    let ghost all = crate::syntax::capture_views(captures@);
    let mut i: usize = 0;
    while i < captures.len()
        invariant
            i <= captures@.len(),
            all == crate::syntax::capture_views(captures@),
            forall|k: int| 0 <= k < i ==> (#[trigger] all[k]).capture != name@,
        decreases captures@.len() - i,
    {
        assert(all[i as int] == captures@[i as int]@);
        if str_eq(captures[i].capture.as_str(), name) {
            return true;
        }
        i += 1;
    }
    false
}

/// `a`, a dot, and `b`.
pub fn join_dotted(a: &str, b: &str) -> (r: String)
    ensures
        r@ == dotted(a@, b@),
{
    let mut r = a.to_owned();
    r.push('.');
    r.append(b);
    r
}

/// Builds the documentation map of a file from the matches of its query for
/// `COMMENT ON` statements.
pub fn extract_sql_comments(matches: &Vec<QueryMatch>) -> (comments: SqlCommentMap)
    ensures
        comments@ == comments_from(match_list_views(matches@), matches@.len() as int),
{
    let ghost all = match_list_views(matches@);
    let mut comment_map = SqlCommentMap::new();
    let mut i: usize = 0;
    while i < matches.len()
        invariant
            i <= matches@.len(),
            all == match_list_views(matches@),
            comment_map@ == comments_from(all, i as int),
        decreases matches@.len() - i,
    {
        let captures = &matches[i].captures;
        assert(all[i as int] == crate::syntax::capture_views(captures@));
        if any_capture(captures, "comment.table") {
            let table_name = find_last_text(captures, "comment.table.name");
            let comment_text = find_last_text(captures, "comment.table.text");
            match (table_name, comment_text) {
                (Some(name), Some(text)) => {
                    let cleaned = clean_sql_literal(text.as_str());
                    comment_map.insert(name, cleaned);
                },
                _ => {},
            }
        } else if any_capture(captures, "comment.column") {
            let table_name = find_last_text(captures, "comment.column.table");
            let column_name = find_last_text(captures, "comment.column.name");
            let comment_text = find_last_text(captures, "comment.column.text");
            match (table_name, column_name, comment_text) {
                (Some(table), Some(column), Some(text)) => {
                    let key = join_dotted(table.as_str(), column.as_str());
                    let cleaned = clean_sql_literal(text.as_str());
                    comment_map.insert(key, cleaned);
                },
                _ => {},
            }
        }
        i += 1;
    }
    comment_map
}

/// The text of the first leaf of kind `identifier` from index `j` on, where
/// there is such a leaf; the text itself may be unreadable.
pub open spec fn first_identifier(leaves: Seq<LeafNodeView>, j: int) -> Option<Option<Seq<char>>>
    decreases leaves.len() - j,
{
    if j < 0 || j >= leaves.len() {
        None
    } else if leaves[j].kind == "identifier"@ {
        Some(leaves[j].text)
    } else {
        first_identifier(leaves, j + 1)
    }
}

/// The table name that the children from index `i` on give: the first
/// identifier inside the first `object_reference` that holds one.
pub open spec fn table_name_in(children: Seq<ChildNodeView>, i: int) -> Option<Option<Seq<char>>>
    decreases children.len() - i,
{
    if i < 0 || i >= children.len() {
        None
    } else if children[i].kind == "object_reference"@ && first_identifier(children[i].children, 0)
        is Some {
        first_identifier(children[i].children, 0)
    } else {
        table_name_in(children, i + 1)
    }
}

/// The name of the table that encloses a node: the ancestors from index `i`
/// on are asked in turn, the innermost first, and the first `create_table`
/// statement that names a table decides, also where that name cannot be read.
pub open spec fn parent_table(ancestors: Seq<AncestorView>, i: int) -> Option<Seq<char>>
    decreases ancestors.len() - i,
{
    if i < 0 || i >= ancestors.len() {
        None
    } else if ancestors[i].kind == "create_table"@ && table_name_in(ancestors[i].children, 0)
        is Some {
        table_name_in(ancestors[i].children, 0)->0
    } else {
        parent_table(ancestors, i + 1)
    }
}

fn identifier_among(leaves: &Vec<LeafNode>) -> (r: Option<Option<String>>)
    ensures
        match r {
            Some(t) => first_identifier(leaf_views(leaves@), 0) == Some(opt_text(t)),
            None => first_identifier(leaf_views(leaves@), 0) is None,
        },
{
    let ghost all = leaf_views(leaves@);
    let mut j: usize = 0;
    while j < leaves.len()
        invariant
            j <= leaves@.len(),
            all == leaf_views(leaves@),
            first_identifier(all, 0) == first_identifier(all, j as int),
        decreases leaves@.len() - j,
    {
        assert(all[j as int] == leaves@[j as int]@);
        if str_eq(leaves[j].kind.as_str(), "identifier") {
            return Some(leaves[j].text.clone());
        }
        j += 1;
    }
    None
}

fn table_name_among(children: &Vec<ChildNode>) -> (r: Option<Option<String>>)
    ensures
        match r {
            Some(t) => table_name_in(child_views(children@), 0) == Some(opt_text(t)),
            None => table_name_in(child_views(children@), 0) is None,
        },
{
    let ghost all = child_views(children@);
    let mut i: usize = 0;
    while i < children.len()
        invariant
            i <= children@.len(),
            all == child_views(children@),
            table_name_in(all, 0) == table_name_in(all, i as int),
        decreases children@.len() - i,
    {
        assert(all[i as int] == children@[i as int]@);
        if str_eq(children[i].kind.as_str(), "object_reference") {
            match identifier_among(&children[i].children) {
                Some(t) => {
                    return Some(t);
                },
                None => {},
            }
        }
        i += 1;
    }
    None
}

/// Finds the name of the table in which a column is defined, from the nodes
/// that enclose the column's definition.
pub fn find_parent_table_name(ancestors: &Vec<Ancestor>) -> (name: Option<String>)
    ensures
        opt_text(name) == parent_table(ancestor_views(ancestors@), 0),
{
    let ghost chain = ancestor_views(ancestors@);
    let mut i: usize = 0;
    while i < ancestors.len()
        invariant
            i <= ancestors@.len(),
            chain == ancestor_views(ancestors@),
            parent_table(chain, 0) == parent_table(chain, i as int),
        decreases ancestors@.len() - i,
    {
        assert(chain[i as int] == ancestors@[i as int]@);
        if str_eq(ancestors[i].kind.as_str(), "create_table") {
            match table_name_among(&ancestors[i].children) {
                Some(t) => {
                    return t;
                },
                None => {},
            }
        }
        i += 1;
    }
    None
}

} // verus!
