//! The comment scanner: finds the comments of a source text that hold a given
//! text, line by line, carrying an open block comment from one line to the
//! next.

use crate::text::{
    begins_with, byte_len, chars_of, contains, cut, ends_with, find, finishes_with, first_match,
    includes, join_lines, lemma_first_match, lemma_utf8_len_grows, lemma_utf8_len_subrange,
    lines_of, matches_at,
    ranges_within, split_lines, starts_with, string_of, trim_range, trimmed, utf8_len,
    utf8_len_between,
};
use crate::types::{
    match_views, CodeSnippet, CodeSnippetView, CommentMatch, CommentMatchView, CommentType,
};
use vstd::prelude::*;

verus! {

/// The opening of a block comment.
pub open spec fn block_open() -> Seq<char> {
    seq!['/', '*']
}

/// The closing of a block comment.
pub open spec fn block_close() -> Seq<char> {
    seq!['*', '/']
}

/// What a scan is made with: the file's name, the prefix of a single-line
/// comment, and the text searched for.
pub struct Scan {
    pub file: Seq<char>,
    pub prefix: Seq<char>,
    pub search: Seq<char>,
}

/// What the scanner carries from one line to the next.
pub enum Carry {
    /// No comment is open.
    Normal,
    /// A block comment is open: where it started, and its text so far.
    InBlock { start_line: nat, start_col: nat, content: Seq<char> },
}

/// What one line yields: the matches found on it, and what is carried on.
pub struct LineScan {
    pub hits: Seq<CommentMatchView>,
    pub carry: Carry,
}

/// The match for a comment, if its text holds the text searched for.
pub open spec fn hit_if(
    cfg: Scan,
    line: nat,
    column: nat,
    comment_type: CommentType,
    content: Seq<char>,
) -> Seq<CommentMatchView> {
    if contains(content, cfg.search) {
        seq![CommentMatchView { file_path: cfg.file, line, column, comment_type, content }]
    } else {
        seq![]
    }
}

/// Scans `line` from `pos` on, outside any comment. Of a single-line prefix
/// and a block opening the one that comes first counts, the block opening
/// where both start at the same place. A single-line comment takes the rest
/// of the line. A block comment that closes on the line is followed by
/// more scanning; one that does not is carried on, with a newline added.
pub open spec fn scan_code(cfg: Scan, line: Seq<char>, pos: int, line_no: nat) -> LineScan
    decreases line.len() - pos,
{
    if pos < 0 || pos >= line.len() {
        LineScan { hits: seq![], carry: Carry::Normal }
    } else {
        let block = first_match(line, block_open(), pos);
        let single = first_match(line, cfg.prefix, pos);
        if single is Some && (block is None || single->0 < block->0) {
            let s = single->0;
            LineScan {
                hits: hit_if(
                    cfg,
                    line_no,
                    utf8_len(line.take(s)),
                    CommentType::SingleLine,
                    line.skip(s),
                ),
                carry: Carry::Normal,
            }
        } else if block is Some {
            let b = block->0;
            match first_match(line, block_close(), b + 2) {
                Some(e) => {
                    if pos < e + 2 <= line.len() {
                        let rest = scan_code(cfg, line, e + 2, line_no);
                        LineScan {
                            hits: hit_if(
                                cfg,
                                line_no,
                                utf8_len(line.take(b)),
                                CommentType::Block,
                                line.subrange(b, e + 2),
                            ) + rest.hits,
                            carry: rest.carry,
                        }
                    } else {
                        LineScan { hits: seq![], carry: Carry::Normal }
                    }
                },
                None => LineScan {
                    hits: seq![],
                    carry: Carry::InBlock {
                        start_line: line_no,
                        start_col: utf8_len(line.take(b)),
                        content: line.skip(b).push('\n'),
                    },
                },
            }
        } else {
            LineScan { hits: seq![], carry: Carry::Normal }
        }
    }
}

/// Scans `line` inside a block comment that started at `start_line` and
/// `start_col` and holds `content` so far. Where the comment closes on the
/// line, what follows the closing is scanned like any other text.
pub open spec fn scan_in_block(
    cfg: Scan,
    line: Seq<char>,
    line_no: nat,
    start_line: nat,
    start_col: nat,
    content: Seq<char>,
) -> LineScan {
    match first_match(line, block_close(), 0) {
        Some(e) => {
            let after = scan_code(cfg, line, e + 2, line_no);
            LineScan {
                hits: hit_if(
                    cfg,
                    start_line,
                    start_col,
                    CommentType::Block,
                    content + line.take(e + 2),
                ) + after.hits,
                carry: after.carry,
            }
        },
        None => LineScan {
            hits: seq![],
            carry: Carry::InBlock { start_line, start_col, content: content + line.push('\n') },
        },
    }
}

/// What line number `line_no` yields when the scanner arrives with `carry`.
pub open spec fn scan_line(cfg: Scan, carry: Carry, line: Seq<char>, line_no: nat) -> LineScan {
    match carry {
        Carry::Normal => scan_code(cfg, line, 0, line_no),
        Carry::InBlock { start_line, start_col, content } => scan_in_block(
            cfg,
            line,
            line_no,
            start_line,
            start_col,
            content,
        ),
    }
}

/// What is found at the end of the text: a block comment that never closed
/// is a comment all the same.
pub open spec fn scan_end(cfg: Scan, carry: Carry) -> Seq<CommentMatchView> {
    match carry {
        Carry::Normal => seq![],
        Carry::InBlock { start_line, start_col, content } => hit_if(
            cfg,
            start_line,
            start_col,
            CommentType::Block,
            content,
        ),
    }
}

/// The matches of the lines from number `i + 1` on, and of the end of the text.
pub open spec fn scan_lines(cfg: Scan, lines: Seq<Seq<char>>, i: int, carry: Carry) -> Seq<
    CommentMatchView,
>
    decreases lines.len() - i,
{
    if i < 0 || i >= lines.len() {
        scan_end(cfg, carry)
    } else {
        let step = scan_line(cfg, carry, lines[i], (i + 1) as nat);
        step.hits + scan_lines(cfg, lines, i + 1, step.carry)
    }
}

/// All comments of `source` that hold the text searched for, in the order in
/// which they start.
pub open spec fn comments_in(cfg: Scan, source: Seq<char>) -> Seq<CommentMatchView> {
    scan_lines(cfg, lines_of(source), 0, Carry::Normal)
}

/// Every match in `hits` stands in the scanned file and holds the text
/// searched for.
pub open spec fn all_hold(cfg: Scan, hits: Seq<CommentMatchView>) -> bool {
    forall|i: int|
        0 <= i < hits.len() ==> (#[trigger] hits[i]).file_path == cfg.file && contains(
            hits[i].content,
            cfg.search,
        )
}

proof fn lemma_all_hold_concat(cfg: Scan, a: Seq<CommentMatchView>, b: Seq<CommentMatchView>)
    requires
        all_hold(cfg, a),
        all_hold(cfg, b),
    ensures
        all_hold(cfg, a + b),
{
    assert forall|i: int| 0 <= i < (a + b).len() implies (#[trigger] (a + b)[i]).file_path
        == cfg.file && contains((a + b)[i].content, cfg.search) by {
        if i < a.len() {
            assert((a + b)[i] == a[i]);
        } else {
            assert((a + b)[i] == b[i - a.len()]);
        }
    }
}

proof fn lemma_scan_code_holds(cfg: Scan, line: Seq<char>, pos: int, line_no: nat)
    ensures
        all_hold(cfg, scan_code(cfg, line, pos, line_no).hits),
    decreases line.len() - pos,
{
    if pos < 0 || pos >= line.len() {
    } else {
        let block = first_match(line, block_open(), pos);
        let single = first_match(line, cfg.prefix, pos);
        if single is Some && (block is None || single->0 < block->0) {
        } else if block is Some {
            let b = block->0;
            match first_match(line, block_close(), b + 2) {
                Some(e) => {
                    if pos < e + 2 <= line.len() {
                        lemma_scan_code_holds(cfg, line, e + 2, line_no);
                        lemma_all_hold_concat(
                            cfg,
                            hit_if(
                                cfg,
                                line_no,
                                utf8_len(line.take(b)),
                                CommentType::Block,
                                line.subrange(b, e + 2),
                            ),
                            scan_code(cfg, line, e + 2, line_no).hits,
                        );
                    }
                },
                None => {},
            }
        }
    }
}

proof fn lemma_scan_line_holds(cfg: Scan, carry: Carry, line: Seq<char>, line_no: nat)
    ensures
        all_hold(cfg, scan_line(cfg, carry, line, line_no).hits),
{
    match carry {
        Carry::Normal => {
            lemma_scan_code_holds(cfg, line, 0, line_no);
        },
        Carry::InBlock { start_line, start_col, content } => {
            match first_match(line, block_close(), 0) {
                Some(e) => {
                    lemma_scan_code_holds(cfg, line, e + 2, line_no);
                    lemma_all_hold_concat(
                        cfg,
                        hit_if(
                            cfg,
                            start_line,
                            start_col,
                            CommentType::Block,
                            content + line.take(e + 2),
                        ),
                        scan_code(cfg, line, e + 2, line_no).hits,
                    );
                },
                None => {},
            }
        },
    }
}

proof fn lemma_scan_lines_hold(cfg: Scan, lines: Seq<Seq<char>>, i: int, carry: Carry)
    ensures
        all_hold(cfg, scan_lines(cfg, lines, i, carry)),
    decreases lines.len() - i,
{
    if i < 0 || i >= lines.len() {
    } else {
        let step = scan_line(cfg, carry, lines[i], (i + 1) as nat);
        lemma_scan_line_holds(cfg, carry, lines[i], (i + 1) as nat);
        lemma_scan_lines_hold(cfg, lines, i + 1, step.carry);
        lemma_all_hold_concat(cfg, step.hits, scan_lines(cfg, lines, i + 1, step.carry));
    }
}

/// Only comments that hold the text searched for are reported, each under
/// the name of the scanned file.
pub proof fn lemma_matches_hold_search(cfg: Scan, source: Seq<char>)
    ensures
        all_hold(cfg, comments_in(cfg, source)),
{
    lemma_scan_lines_hold(cfg, lines_of(source), 0, Carry::Normal);
}

/// The match is the comment that stands in `line` from `b` up to `e`: it is
/// reported at the line's number and at the byte column of `b`, and holds
/// the comment and nothing else of the line. A block comment goes from its
/// opening at `b` through its first closing, a single-line comment from its
/// prefix at `b` to the end of the line.
pub open spec fn comment_between(
    cfg: Scan,
    line: Seq<char>,
    line_no: nat,
    b: int,
    e: int,
    hit: CommentMatchView,
) -> bool {
    &&& 0 <= b <= e <= line.len()
    &&& hit.file_path == cfg.file
    &&& hit.line == line_no
    &&& hit.column == utf8_len(line.take(b))
    &&& hit.content == line.subrange(b, e)
    &&& contains(hit.content, cfg.search)
    &&& match hit.comment_type {
        CommentType::Block => matches_at(line, block_open(), b) && first_match(
            line,
            block_close(),
            b + 2,
        ) == Some(e - 2),
        CommentType::SingleLine => matches_at(line, cfg.prefix, b) && e == line.len(),
    }
}

/// The matches are comments of `line` that stand one behind the other from
/// `from` on: the match at index `k` goes from `starts[k]` up to `ends[k]`,
/// and none starts before the one before it has ended.
pub open spec fn in_turn(
    cfg: Scan,
    line: Seq<char>,
    line_no: nat,
    hits: Seq<CommentMatchView>,
    starts: Seq<int>,
    ends: Seq<int>,
    from: int,
) -> bool {
    &&& starts.len() == hits.len()
    &&& ends.len() == hits.len()
    &&& forall|k: int|
        0 <= k < hits.len() ==> from <= starts[k] && comment_between(
            cfg,
            line,
            line_no,
            starts[k],
            ends[k],
            #[trigger] hits[k],
        )
    &&& forall|j: int, k: int|
        0 <= j < k < hits.len() ==> (#[trigger] ends[j]) <= (#[trigger] starts[k])
}

/// Each comment of a line is reported by itself: the matches of a line
/// scanned from `pos` on are comments of the line that hold the text
/// searched for, each at the column where it starts and with its own text
/// only, one behind the other. The places of the comments are handed out.
pub proof fn lemma_comments_of_a_line(cfg: Scan, line: Seq<char>, pos: int, line_no: nat) -> (places:
    (Seq<int>, Seq<int>))
    requires
        0 <= pos,
    ensures
        in_turn(
            cfg,
            line,
            line_no,
            scan_code(cfg, line, pos, line_no).hits,
            places.0,
            places.1,
            pos,
        ),
    decreases line.len() - pos,
{
    let none: (Seq<int>, Seq<int>) = (seq![], seq![]);
    let block = first_match(line, block_open(), pos);
    let single = first_match(line, cfg.prefix, pos);
    lemma_first_match(line, block_open(), pos);
    lemma_first_match(line, cfg.prefix, pos);
    let hits = scan_code(cfg, line, pos, line_no).hits;
    if pos >= line.len() {
        none
    } else if single is Some && (block is None || single->0 < block->0) {
        let at = single->0;
        assert(line.skip(at) =~= line.subrange(at, line.len() as int));
        if contains(line.skip(at), cfg.search) {
            (seq![at], seq![line.len() as int])
        } else {
            none
        }
    } else if block is Some {
        let b = block->0;
        match first_match(line, block_close(), b + 2) {
            Some(e) => {
                lemma_first_match(line, block_close(), b + 2);
                if pos < e + 2 <= line.len() {
                    let rest = scan_code(cfg, line, e + 2, line_no).hits;
                    let behind = lemma_comments_of_a_line(cfg, line, e + 2, line_no);
                    if contains(line.subrange(b, e + 2), cfg.search) {
                        let starts = seq![b] + behind.0;
                        let ends = seq![e + 2] + behind.1;
                        assert(hits.len() == rest.len() + 1);
                        assert forall|k: int| 0 <= k < hits.len() implies pos <= starts[k]
                            && comment_between(
                            cfg,
                            line,
                            line_no,
                            starts[k],
                            ends[k],
                            #[trigger] hits[k],
                        ) by {
                            if k > 0 {
                                assert(hits[k] == rest[k - 1]);
                                assert(starts[k] == behind.0[k - 1]);
                                assert(ends[k] == behind.1[k - 1]);
                            }
                        }
                        assert forall|j: int, k: int| 0 <= j < k < hits.len() implies (
                        #[trigger] ends[j]) <= (#[trigger] starts[k]) by {
                            assert(starts[k] == behind.0[k - 1]);
                            assert(comment_between(
                                cfg,
                                line,
                                line_no,
                                behind.0[k - 1],
                                behind.1[k - 1],
                                rest[k - 1],
                            ));
                            if j > 0 {
                                assert(ends[j] == behind.1[j - 1]);
                            }
                        }
                        (starts, ends)
                    } else {
                        assert(hits =~= rest);
                        behind
                    }
                } else {
                    none
                }
            },
            None => none,
        }
    } else {
        none
    }
}

/// The first match starts before the second: on an earlier line, or on the
/// same line at an earlier column.
pub open spec fn starts_before(a: CommentMatchView, b: CommentMatchView) -> bool {
    a.line < b.line || (a.line == b.line && a.column < b.column)
}

/// Each match starts before the ones behind it.
pub open spec fn in_order(hits: Seq<CommentMatchView>) -> bool {
    forall|j: int, k: int| 0 <= j < k < hits.len() ==> starts_before(hits[j], hits[k])
}

/// The place before which nothing is reported any more once the scanner
/// carries `carry` into the line of number `line_no`: where the open block
/// comment started, and the start of the line where none is open.
pub open spec fn frontier(carry: Carry, line_no: nat) -> (nat, nat) {
    match carry {
        Carry::Normal => (line_no, 0),
        Carry::InBlock { start_line, start_col, .. } => (start_line, start_col),
    }
}

/// The match does not start before the place `at`.
pub open spec fn from_place(at: (nat, nat), hit: CommentMatchView) -> bool {
    at.0 < hit.line || (at.0 == hit.line && at.1 <= hit.column)
}

/// The matches of a line scanned from `pos` on stand on that line at
/// growing columns, none before the byte of `pos`; a block comment that is
/// left open starts on the line behind them all.
proof fn lemma_line_in_order(cfg: Scan, line: Seq<char>, pos: int, line_no: nat)
    requires
        0 <= pos,
    ensures
        ({
            let r = scan_code(cfg, line, pos, line_no);
            let from = utf8_len(line.take(pos));
            &&& in_order(r.hits)
            &&& forall|k: int|
                0 <= k < r.hits.len() ==> (#[trigger] r.hits[k]).line == line_no && from
                    <= r.hits[k].column
            &&& match r.carry {
                Carry::Normal => true,
                Carry::InBlock { start_line, start_col, .. } => start_line == line_no && from
                    <= start_col && forall|k: int|
                    0 <= k < r.hits.len() ==> (#[trigger] r.hits[k]).column < start_col,
            }
        }),
    decreases line.len() - pos,
{
    let block = first_match(line, block_open(), pos);
    let single = first_match(line, cfg.prefix, pos);
    lemma_first_match(line, block_open(), pos);
    lemma_first_match(line, cfg.prefix, pos);
    let r = scan_code(cfg, line, pos, line_no);
    if pos >= line.len() {
    } else if single is Some && (block is None || single->0 < block->0) {
        lemma_utf8_len_grows(line, pos, single->0);
    } else if block is Some {
        let b = block->0;
        lemma_utf8_len_grows(line, pos, b);
        match first_match(line, block_close(), b + 2) {
            Some(e) => {
                lemma_first_match(line, block_close(), b + 2);
                if pos < e + 2 <= line.len() {
                    let rest = scan_code(cfg, line, e + 2, line_no);
                    lemma_line_in_order(cfg, line, e + 2, line_no);
                    lemma_utf8_len_grows(line, b, e + 2);
                    let first = hit_if(
                        cfg,
                        line_no,
                        utf8_len(line.take(b)),
                        CommentType::Block,
                        line.subrange(b, e + 2),
                    );
                    assert(r.hits == first + rest.hits);
                    assert forall|k: int| 0 <= k < r.hits.len() implies (#[trigger] r.hits[k]).line
                        == line_no && utf8_len(line.take(pos)) <= r.hits[k].column && (k
                        >= first.len() ==> r.hits[k] == rest.hits[k - first.len()]) by {
                        if k >= first.len() {
                            assert(r.hits[k] == rest.hits[k - first.len()]);
                        }
                    }
                    assert forall|j: int, k: int| 0 <= j < k < r.hits.len() implies starts_before(
                        r.hits[j],
                        r.hits[k],
                    ) by {
                        assert(r.hits[k] == rest.hits[k - first.len()]);
                        if j >= first.len() {
                            assert(r.hits[j] == rest.hits[j - first.len()]);
                        }
                    }
                    match rest.carry {
                        Carry::Normal => {},
                        Carry::InBlock { start_line, start_col, .. } => {
                            assert forall|k: int| 0 <= k < r.hits.len() implies (
                            #[trigger] r.hits[k]).column < start_col by {
                                if k >= first.len() {
                                    assert(r.hits[k] == rest.hits[k - first.len()]);
                                }
                            }
                        },
                    }
                }
            },
            None => {},
        }
    }
}

/// The matches of the lines from number `i + 1` on come in the order in
/// which they start, and none starts before the frontier.
proof fn lemma_lines_in_order(cfg: Scan, lines: Seq<Seq<char>>, i: int, carry: Carry)
    requires
        0 <= i,
        carry matches Carry::InBlock { start_line, .. } ==> start_line <= i,
    ensures
        in_order(scan_lines(cfg, lines, i, carry)),
        forall|k: int|
            0 <= k < scan_lines(cfg, lines, i, carry).len() ==> from_place(
                frontier(carry, (i + 1) as nat),
                #[trigger] scan_lines(cfg, lines, i, carry)[k],
            ),
    decreases lines.len() - i, 1int,
{
    if i < lines.len() {
        lemma_lines_step(cfg, lines, i, carry);
    }
}

/// One step of `lemma_lines_in_order`, for a line that exists.
proof fn lemma_lines_step(cfg: Scan, lines: Seq<Seq<char>>, i: int, carry: Carry)
    requires
        0 <= i < lines.len(),
        carry matches Carry::InBlock { start_line, .. } ==> start_line <= i,
    ensures
        in_order(scan_lines(cfg, lines, i, carry)),
        forall|k: int|
            0 <= k < scan_lines(cfg, lines, i, carry).len() ==> from_place(
                frontier(carry, (i + 1) as nat),
                #[trigger] scan_lines(cfg, lines, i, carry)[k],
            ),
    decreases lines.len() - i, 0int,
{
    let line_no = (i + 1) as nat;
    let step = scan_line(cfg, carry, lines[i], line_no);
    let rest = scan_lines(cfg, lines, i + 1, step.carry);
    let all = scan_lines(cfg, lines, i, carry);
    assert(all == step.hits + rest);
    let next = frontier(step.carry, (i + 2) as nat);
    // the matches of this line: in order, from the frontier on, and before the next frontier
    match carry {
        Carry::Normal => {
            lemma_line_in_order(cfg, lines[i], 0, line_no);
            assert(lines[i].take(0) =~= Seq::<char>::empty());
        },
        Carry::InBlock { start_line, start_col, content } => {
            match first_match(lines[i], block_close(), 0) {
                Some(e) => {
                    lemma_first_match(lines[i], block_close(), 0);
                    lemma_line_in_order(cfg, lines[i], e + 2, line_no);
                    let after = scan_code(cfg, lines[i], e + 2, line_no);
                    let first = hit_if(
                        cfg,
                        start_line,
                        start_col,
                        CommentType::Block,
                        content + lines[i].take(e + 2),
                    );
                    assert(step.hits == first + after.hits);
                    assert forall|k: int| first.len() <= k < step.hits.len() implies step.hits[k]
                        == after.hits[k - first.len()] by {}
                },
                None => {},
            }
        },
    }
    assert(in_order(step.hits) && forall|k: int|
        0 <= k < step.hits.len() ==> from_place(frontier(carry, line_no), #[trigger] step.hits[k])
            && !from_place(next, step.hits[k])) by {
        match carry {
            Carry::Normal => {},
            Carry::InBlock { start_line, start_col, content } => {
                match first_match(lines[i], block_close(), 0) {
                    Some(e) => {
                        let after = scan_code(cfg, lines[i], e + 2, line_no);
                        let first = hit_if(
                            cfg,
                            start_line,
                            start_col,
                            CommentType::Block,
                            content + lines[i].take(e + 2),
                        );
                        assert forall|k: int| 0 <= k < step.hits.len() implies from_place(
                            frontier(carry, line_no),
                            #[trigger] step.hits[k],
                        ) && !from_place(next, step.hits[k]) by {
                            if k >= first.len() {
                                assert(step.hits[k] == after.hits[k - first.len()]);
                            }
                        }
                        assert forall|j: int, k: int|
                            0 <= j < k < step.hits.len() implies starts_before(
                            step.hits[j],
                            step.hits[k],
                        ) by {
                            assert(step.hits[k] == after.hits[k - first.len()]);
                            if j >= first.len() {
                                assert(step.hits[j] == after.hits[j - first.len()]);
                            }
                        }
                    },
                    None => {},
                }
            },
        }
    }
    lemma_lines_in_order(cfg, lines, i + 1, step.carry);
    assert forall|k: int| 0 <= k < all.len() implies from_place(
        frontier(carry, line_no),
        #[trigger] all[k],
    ) by {
        if k >= step.hits.len() {
            assert(all[k] == rest[k - step.hits.len()]);
            assert(from_place(next, rest[k - step.hits.len()]));
        }
    }
    assert forall|j: int, k: int| 0 <= j < k < all.len() implies starts_before(all[j], all[k]) by {
        if k >= step.hits.len() {
            assert(all[k] == rest[k - step.hits.len()]);
            assert(from_place(next, rest[k - step.hits.len()]));
            if j >= step.hits.len() {
                assert(all[j] == rest[j - step.hits.len()]);
            } else {
                assert(all[j] == step.hits[j]);
            }
        } else {
            assert(all[j] == step.hits[j] && all[k] == step.hits[k]);
        }
    }
}

/// The comments of a text are reported in the order in which they start: by
/// line, and on one line by column.
pub proof fn lemma_matches_in_order(cfg: Scan, source: Seq<char>)
    ensures
        in_order(comments_in(cfg, source)),
{
    lemma_lines_in_order(cfg, lines_of(source), 0, Carry::Normal);
}

/// A block comment that is still open at the end of the text is reported
/// with the text collected up to there, where that text holds the text
/// searched for.
pub proof fn lemma_open_block_is_reported(
    cfg: Scan,
    start_line: nat,
    start_col: nat,
    content: Seq<char>,
)
    requires
        contains(content, cfg.search),
    ensures
        scan_end(cfg, Carry::InBlock { start_line, start_col, content }) == seq![
            CommentMatchView {
                file_path: cfg.file,
                line: start_line,
                column: start_col,
                comment_type: CommentType::Block,
                content,
            },
        ],
{
}

/// State of the comment scanner.
pub enum ScanState {
    /// Not inside a block comment.
    Normal,
    /// Inside a block comment.
    InBlockComment { start_line: usize, start_col: usize, content: Vec<char> },
}

impl View for ScanState {
    type V = Carry;

    open spec fn view(&self) -> Carry {
        match self {
            ScanState::Normal => Carry::Normal,
            ScanState::InBlockComment { start_line, start_col, content } => Carry::InBlock {
                start_line: *start_line as nat,
                start_col: *start_col as nat,
                content: content@,
            },
        }
    }
}

/// Scanner for the comments of one source text.
struct CommentScanner {
    file_path: String,
    search_text: Vec<char>,
    single_line_prefix: Vec<char>,
    open: Vec<char>,
    close: Vec<char>,
    state: ScanState,
    matches: Vec<CommentMatch>,
}

impl CommentScanner {
    /// What the scanner was made with.
    spec fn cfg(&self) -> Scan {
        Scan {
            file: self.file_path@,
            prefix: self.single_line_prefix@,
            search: self.search_text@,
        }
    }

    /// What the scanner carries to the next line.
    spec fn carry(&self) -> Carry {
        self.state@
    }

    /// The matches found so far.
    spec fn found(&self) -> Seq<CommentMatchView> {
        match_views(self.matches@)
    }

    /// The scanner's two patterns are the block comment's delimiters.
    spec fn wf(&self) -> bool {
        self.open@ == block_open() && self.close@ == block_close()
    }

    /// A scanner that has seen nothing yet.
    fn new(file_path: &str, search_text: &str, single_line_prefix: &str) -> (s: Self)
        ensures
            s.wf(),
            s.cfg() == (Scan {
                file: file_path@,
                prefix: single_line_prefix@,
                search: search_text@,
            }),
            s.carry() == Carry::Normal,
            s.found() == Seq::<CommentMatchView>::empty(),
    {
        let s = CommentScanner {
            file_path: file_path.to_owned(),
            search_text: chars_of(search_text),
            single_line_prefix: chars_of(single_line_prefix),
            open: vec!['/', '*'],
            close: vec!['*', '/'],
            state: ScanState::Normal,
            matches: Vec::new(),
        };
        assert(s.found() =~= Seq::<CommentMatchView>::empty());
        s
    }

    /// Scans all of `source` and hands out the matches.
    fn scan(self, source: &[char]) -> (res: Vec<CommentMatch>)
        requires
            self.wf(),
            self.carry() == Carry::Normal,
            self.found() == Seq::<CommentMatchView>::empty(),
            utf8_len(source@) <= usize::MAX,
        ensures
            match_views(res@) == comments_in(self.cfg(), source@),
    {
        let mut scanner = self;
        let ranges = split_lines(source);
        let ghost lines = lines_of(source@);
        let ghost cfg = scanner.cfg();
        let mut i: usize = 0;
        assert(scanner.found() + scan_lines(cfg, lines, 0, scanner.carry()) =~= comments_in(
            cfg,
            source@,
        ));
        while i < ranges.len()
            invariant
                i <= ranges.len(),
                scanner.wf(),
                scanner.cfg() == cfg,
                lines == lines_of(source@),
                ranges_within(ranges@, source@.len() as int),
                cut(source@, ranges@) == lines,
                utf8_len(source@) <= usize::MAX,
                scanner.found() + scan_lines(cfg, lines, i as int, scanner.carry()) == comments_in(
                    cfg,
                    source@,
                ),
            decreases ranges.len() - i,
        {
            let (a, b) = ranges[i];
            assert(ranges@[i as int].0 <= ranges@[i as int].1 <= source@.len());
            let line = vstd::slice::slice_subrange(source, a, b);
            proof {
                assert(line@ == cut(source@, ranges@)[i as int]);
                lemma_utf8_len_subrange(source@, a as int, b as int);
            }
            let ghost before = scanner.found();
            let ghost step = scan_line(cfg, scanner.carry(), line@, (i + 1) as nat);
            scanner.process_line(line, i + 1);
            assert(before + (step.hits + scan_lines(cfg, lines, i + 1, step.carry)) =~= (before
                + step.hits) + scan_lines(cfg, lines, i + 1, step.carry));
            i += 1;
        }
        scanner.finalize();
        scanner.matches
    }

    /// Process a single line.
    fn process_line(&mut self, line: &[char], line_1indexed: usize)
        requires
            old(self).wf(),
            utf8_len(line@) <= usize::MAX,
        ensures
            final(self).wf(),
            final(self).cfg() == old(self).cfg(),
            final(self).carry() == scan_line(
                old(self).cfg(),
                old(self).carry(),
                line@,
                line_1indexed as nat,
            ).carry,
            final(self).found() == old(self).found() + scan_line(
                old(self).cfg(),
                old(self).carry(),
                line@,
                line_1indexed as nat,
            ).hits,
    {
        let mut state = ScanState::Normal;
        core::mem::swap(&mut self.state, &mut state);
        match state {
            ScanState::InBlockComment { start_line, start_col, content } => {
                self.process_block_comment_continuation(
                    line,
                    line_1indexed,
                    start_line,
                    start_col,
                    content,
                );
            },
            ScanState::Normal => {
                self.scan_for_comments(line, line_1indexed);
            },
        }
    }

    /// Continue a block comment that started on an earlier line.
    fn process_block_comment_continuation(
        &mut self,
        line: &[char],
        line_1indexed: usize,
        start_line: usize,
        start_col: usize,
        content: Vec<char>,
    )
        requires
            old(self).wf(),
            utf8_len(line@) <= usize::MAX,
        ensures
            final(self).wf(),
            final(self).cfg() == old(self).cfg(),
            final(self).carry() == scan_in_block(
                old(self).cfg(),
                line@,
                line_1indexed as nat,
                start_line as nat,
                start_col as nat,
                content@,
            ).carry,
            final(self).found() == old(self).found() + scan_in_block(
                old(self).cfg(),
                line@,
                line_1indexed as nat,
                start_line as nat,
                start_col as nat,
                content@,
            ).hits,
    {
        let ghost carried = content@;
        let mut content = content;
        let len = line.len();
        proof {
            lemma_first_match(line@, block_close(), 0);
            assert(block_close().len() == 2);
        }
        match find(line, self.close.as_slice(), 0) {
            Some(end_pos) => {
                let ghost before = self.found();
                let ghost cfg = self.cfg();
                assert(end_pos + 2 <= len);
                content.extend_from_slice(vstd::slice::slice_subrange(line, 0, end_pos + 2));
                assert(line@.subrange(0, end_pos + 2) =~= line@.take(end_pos + 2));
                let ghost hit = hit_if(
                    cfg,
                    start_line as nat,
                    start_col as nat,
                    CommentType::Block,
                    content@,
                );
                if includes(content.as_slice(), self.search_text.as_slice()) {
                    self.add_match(start_line, start_col, CommentType::Block, content.as_slice());
                }
                assert(self.found() =~= before + hit);
                let ghost after = scan_code(cfg, line@, end_pos + 2, line_1indexed as nat);
                self.check_remaining_after_block(line, line_1indexed, end_pos + 2);
                assert((before + hit) + after.hits =~= before + (hit + after.hits));
                assert(content@ == carried + line@.take(end_pos + 2));
            },
            None => {
                content.extend_from_slice(line);
                content.push('\n');
                assert(content@ =~= carried + line@.push('\n'));
                self.state = ScanState::InBlockComment { start_line, start_col, content };
                assert(self.found() =~= old(self).found() + Seq::<CommentMatchView>::empty());
            },
        }
    }

    /// Scan what follows the closing of a carried block comment on this
    /// line, like any other text.
    fn check_remaining_after_block(&mut self, line: &[char], line_1indexed: usize, from: usize)
        requires
            old(self).wf(),
            from <= line@.len(),
            utf8_len(line@) <= usize::MAX,
        ensures
            final(self).wf(),
            final(self).cfg() == old(self).cfg(),
            final(self).carry() == scan_code(
                old(self).cfg(),
                line@,
                from as int,
                line_1indexed as nat,
            ).carry,
            final(self).found() == old(self).found() + scan_code(
                old(self).cfg(),
                line@,
                from as int,
                line_1indexed as nat,
            ).hits,
    {
        self.state = ScanState::Normal;
        self.scan_from(line, line_1indexed, from);
    }

    /// Scan a line that starts outside any block comment.
    fn scan_for_comments(&mut self, line: &[char], line_1indexed: usize)
        requires
            old(self).wf(),
            old(self).carry() == Carry::Normal,
            utf8_len(line@) <= usize::MAX,
        ensures
            final(self).wf(),
            final(self).cfg() == old(self).cfg(),
            final(self).carry() == scan_code(old(self).cfg(), line@, 0, line_1indexed as nat).carry,
            final(self).found() == old(self).found() + scan_code(
                old(self).cfg(),
                line@,
                0,
                line_1indexed as nat,
            ).hits,
    {
        self.scan_from(line, line_1indexed, 0);
    }

    /// Scan a line from `from` on, outside any block comment.
    fn scan_from(&mut self, line: &[char], line_1indexed: usize, from: usize)
        requires
            old(self).wf(),
            old(self).carry() == Carry::Normal,
            from <= line@.len(),
            utf8_len(line@) <= usize::MAX,
        ensures
            final(self).wf(),
            final(self).cfg() == old(self).cfg(),
            final(self).carry() == scan_code(
                old(self).cfg(),
                line@,
                from as int,
                line_1indexed as nat,
            ).carry,
            final(self).found() == old(self).found() + scan_code(
                old(self).cfg(),
                line@,
                from as int,
                line_1indexed as nat,
            ).hits,
    {
        let ghost cfg = self.cfg();
        let ghost whole = scan_code(cfg, line@, from as int, line_1indexed as nat);
        let ghost before = self.found();
        let mut pos: usize = from;
        assert(before + Seq::<CommentMatchView>::empty() =~= before);
        assert(self.found() + whole.hits == before + whole.hits);
        loop
            invariant_except_break
                pos <= line.len(),
                self.carry() == Carry::Normal,
                scan_code(cfg, line@, pos as int, line_1indexed as nat).carry == whole.carry,
                self.found() + scan_code(cfg, line@, pos as int, line_1indexed as nat).hits
                    == before + whole.hits,
            invariant
                self.wf(),
                self.cfg() == cfg,
                utf8_len(line@) <= usize::MAX,
                whole == scan_code(cfg, line@, from as int, line_1indexed as nat),
            ensures
                self.carry() == whole.carry,
                self.found() == before + whole.hits,
            decreases line.len() - pos,
        {
            if pos >= line.len() {
                assert(self.found() + Seq::<CommentMatchView>::empty() =~= self.found());
                break ;
            }
            proof {
                lemma_first_match(line@, block_open(), pos as int);
                lemma_first_match(line@, cfg.prefix, pos as int);
            }
            let ghost here = scan_code(cfg, line@, pos as int, line_1indexed as nat);
            let ghost found_here = self.found();
            let block_start = find(line, self.open.as_slice(), pos);
            let single_start = find(line, self.single_line_prefix.as_slice(), pos);
            let single_first = match (block_start, single_start) {
                (Some(bs), Some(ss)) => ss < bs,
                (None, Some(_)) => true,
                _ => false,
            };
            if single_first {
                self.handle_single_line_comment(line, line_1indexed, single_start.unwrap());
                break ;
            } else if let Some(bs) = block_start {
                proof {
                    lemma_first_match(line@, block_close(), bs + 2);
                }
                match self.handle_block_comment_start(line, line_1indexed, bs) {
                    Some(new_pos) => {
                        let ghost hit = hit_if(
                            cfg,
                            line_1indexed as nat,
                            utf8_len(line@.take(bs as int)),
                            CommentType::Block,
                            line@.subrange(bs as int, new_pos as int),
                        );
                        let ghost rest = scan_code(cfg, line@, new_pos as int, line_1indexed as nat);
                        assert(here.hits == hit + rest.hits);
                        assert((found_here + hit) + rest.hits =~= found_here + (hit + rest.hits));
                        pos = new_pos;
                    },
                    None => {
                        assert(self.found() =~= found_here + Seq::<CommentMatchView>::empty());
                        break ;
                    },
                }
            } else {
                assert(self.found() =~= found_here + Seq::<CommentMatchView>::empty());
                break ;
            }
        }
    }

    /// A single-line comment starts at `start` and takes the rest of the line.
    fn handle_single_line_comment(&mut self, line: &[char], line_1indexed: usize, start: usize)
        requires
            old(self).wf(),
            start <= line@.len(),
            utf8_len(line@) <= usize::MAX,
        ensures
            final(self).wf(),
            final(self).cfg() == old(self).cfg(),
            final(self).carry() == old(self).carry(),
            final(self).found() == old(self).found() + hit_if(
                old(self).cfg(),
                line_1indexed as nat,
                utf8_len(line@.take(start as int)),
                CommentType::SingleLine,
                line@.skip(start as int),
            ),
    {
        let comment_content = vstd::slice::slice_subrange(line, start, line.len());
        assert(comment_content@ =~= line@.skip(start as int));
        if includes(comment_content, self.search_text.as_slice()) {
            proof {
                lemma_utf8_len_subrange(line@, 0, start as int);
                assert(line@.subrange(0, start as int) =~= line@.take(start as int));
            }
            let column = utf8_len_between(line, 0, start);
            self.add_match(line_1indexed, column, CommentType::SingleLine, comment_content);
        } else {
            assert(self.found() =~= old(self).found() + Seq::<CommentMatchView>::empty());
        }
    }

    /// A block comment starts at `block_start`. Returns the position after it
    /// if it closes on the same line.
    fn handle_block_comment_start(
        &mut self,
        line: &[char],
        line_1indexed: usize,
        block_start: usize,
    ) -> (next: Option<usize>)
        requires
            old(self).wf(),
            block_start + 2 <= line@.len(),
            utf8_len(line@) <= usize::MAX,
        ensures
            final(self).wf(),
            final(self).cfg() == old(self).cfg(),
            match first_match(line@, block_close(), block_start + 2) {
                Some(e) => next == Some((e + 2) as usize) && e + 2 <= line@.len()
                    && final(self).carry() == old(self).carry() && final(self).found() == old(self).found() + hit_if(
                    old(self).cfg(),
                    line_1indexed as nat,
                    utf8_len(line@.take(block_start as int)),
                    CommentType::Block,
                    line@.subrange(block_start as int, e + 2),
                ),
                None => next is None && final(self).found() == old(self).found() && final(self).carry() == (Carry::InBlock {
                    start_line: line_1indexed as nat,
                    start_col: utf8_len(line@.take(block_start as int)),
                    content: line@.skip(block_start as int).push('\n'),
                }),
            },
    {
        let len = line.len();
        proof {
            lemma_utf8_len_subrange(line@, 0, block_start as int);
            assert(line@.subrange(0, block_start as int) =~= line@.take(block_start as int));
            lemma_first_match(line@, block_close(), block_start + 2);
            assert(block_close().len() == 2);
        }
        let column = utf8_len_between(line, 0, block_start);
        match find(line, self.close.as_slice(), block_start + 2) {
            Some(end) => {
                assert(end + 2 <= len);
                let comment_content = vstd::slice::slice_subrange(line, block_start, end + 2);
                if includes(comment_content, self.search_text.as_slice()) {
                    self.add_match(line_1indexed, column, CommentType::Block, comment_content);
                } else {
                    assert(self.found() =~= old(self).found() + Seq::<CommentMatchView>::empty());
                }
                Some(end + 2)
            },
            None => {
                let mut content: Vec<char> = Vec::new();
                content.extend_from_slice(vstd::slice::slice_subrange(line, block_start, len));
                content.push('\n');
                assert(content@ =~= line@.skip(block_start as int).push('\n'));
                self.state = ScanState::InBlockComment {
                    start_line: line_1indexed,
                    start_col: column,
                    content,
                };
                None
            },
        }
    }

    /// Add a match to the results.
    fn add_match(&mut self, line: usize, column: usize, comment_type: CommentType, content: &[char])
        requires
            old(self).wf(),
        ensures
            final(self).wf(),
            final(self).cfg() == old(self).cfg(),
            final(self).carry() == old(self).carry(),
            final(self).found() == old(self).found().push(
                CommentMatchView {
                    file_path: old(self).cfg().file,
                    line: line as nat,
                    column: column as nat,
                    comment_type,
                    content: content@,
                },
            ),
    {
        let m = CommentMatch {
            file_path: self.file_path.clone(),
            line,
            column,
            comment_type,
            content: string_of(content),
        };
        self.matches.push(m);
        assert(self.found() =~= old(self).found().push(m@));
    }

    /// At the end of the text, a block comment that is still open is checked too.
    fn finalize(&mut self)
        requires
            old(self).wf(),
        ensures
            final(self).wf(),
            final(self).cfg() == old(self).cfg(),
            final(self).found() == old(self).found() + scan_end(old(self).cfg(), old(self).carry()),
    {
        let mut state = ScanState::Normal;
        core::mem::swap(&mut self.state, &mut state);
        match state {
            ScanState::InBlockComment { start_line, start_col, content } => {
                if includes(content.as_slice(), self.search_text.as_slice()) {
                    self.add_match(start_line, start_col, CommentType::Block, content.as_slice());
                } else {
                    assert(self.found() =~= old(self).found() + Seq::<CommentMatchView>::empty());
                }
            },
            ScanState::Normal => {
                assert(self.found() =~= old(self).found() + Seq::<CommentMatchView>::empty());
            },
        }
    }
}

/// The prefix of a single-line comment in the C family of languages.
pub open spec fn slash_prefix() -> Seq<char> {
    seq!['/', '/']
}

/// The prefix of a single-line comment in SQL.
pub open spec fn dash_prefix() -> Seq<char> {
    seq!['-', '-']
}

/// Finds the comments of `source` that hold `search_text`, with the given
/// prefix for single-line comments.
fn find_comments_with_prefix(
    file_path: &str,
    source: &str,
    search_text: &str,
    single_line_prefix: &str,
) -> (res: Vec<CommentMatch>)
    ensures
        match_views(res@) == comments_in(
            Scan { file: file_path@, prefix: single_line_prefix@, search: search_text@ },
            source@,
        ),
{
    let bytes = byte_len(source);
    let chars = chars_of(source);
    let scanner = CommentScanner::new(file_path, search_text, single_line_prefix);
    scanner.scan(chars.as_slice())
}

/// Finds the comments of `source` that hold `search_text`, where single-line
/// comments start with `//` and block comments stand between `/*` and `*/`.
/// `file_path` is the name under which the matches are reported.
pub fn find_comments_in_file(file_path: &str, source: &str, search_text: &str) -> (res: Vec<
    CommentMatch,
>)
    ensures
        match_views(res@) == comments_in(
            Scan { file: file_path@, prefix: slash_prefix(), search: search_text@ },
            source@,
        ),
{
    proof {
        reveal_strlit("//");
        assert("//"@ =~= slash_prefix());
    }
    find_comments_with_prefix(file_path, source, search_text, "//")
}

/// Finds the comments of `source` that hold `search_text`, where single-line
/// comments start with `--` and block comments stand between `/*` and `*/`.
pub fn find_comments_in_sql_file(file_path: &str, source: &str, search_text: &str) -> (res: Vec<
    CommentMatch,
>)
    ensures
        match_views(res@) == comments_in(
            Scan { file: file_path@, prefix: dash_prefix(), search: search_text@ },
            source@,
        ),
{
    proof {
        reveal_strlit("--");
        assert("--"@ =~= dash_prefix());
    }
    find_comments_with_prefix(file_path, source, search_text, "--")
}

/// The occurrences of `search` in `line` from `from` on, left to right, none
/// overlapping the one before it: each as a match on the whole line.
pub open spec fn occurrences(
    file: Seq<char>,
    line: Seq<char>,
    search: Seq<char>,
    from: int,
    line_no: nat,
) -> Seq<CommentMatchView>
    decreases line.len() - from,
{
    match first_match(line, search, from) {
        Some(p) => {
            if search.len() > 0 && from <= p && p + search.len() <= line.len() {
                seq![
                    CommentMatchView {
                        file_path: file,
                        line: line_no,
                        column: utf8_len(line.take(p)),
                        comment_type: CommentType::Block,
                        content: line,
                    },
                ] + occurrences(file, line, search, p + search.len(), line_no)
            } else {
                seq![]
            }
        },
        None => seq![],
    }
}

/// The occurrences of `search` in the lines from number `i + 1` on.
pub open spec fn occurrences_in_lines(
    file: Seq<char>,
    lines: Seq<Seq<char>>,
    search: Seq<char>,
    i: int,
) -> Seq<CommentMatchView>
    decreases lines.len() - i,
{
    if i < 0 || i >= lines.len() {
        seq![]
    } else {
        occurrences(file, lines[i], search, 0, (i + 1) as nat) + occurrences_in_lines(
            file,
            lines,
            search,
            i + 1,
        )
    }
}

/// Finds every occurrence of `search_text` in a text that has no comments of
/// its own, such as Markdown: each is reported as a block comment whose
/// content is the whole line.
pub fn find_text_in_markdown_file(file_path: &str, source: &str, search_text: &str) -> (res: Vec<
    CommentMatch,
>)
    requires
        search_text@.len() > 0,
    ensures
        match_views(res@) == occurrences_in_lines(
            file_path@,
            lines_of(source@),
            search_text@,
            0,
        ),
{
    let bytes = byte_len(source);
    let chars = chars_of(source);
    let search = chars_of(search_text);
    let src = chars.as_slice();
    let ranges = split_lines(src);
    let ghost lines = lines_of(source@);
    let ghost file = file_path@;
    let mut matches: Vec<CommentMatch> = Vec::new();
    let mut i: usize = 0;
    assert(match_views(matches@) =~= Seq::<CommentMatchView>::empty());
    assert(match_views(matches@) + occurrences_in_lines(file, lines, search@, 0)
        =~= occurrences_in_lines(file, lines, search@, 0));
    while i < ranges.len()
        invariant
            i <= ranges.len(),
            src@ == source@,
            search@ == search_text@,
            search@.len() > 0,
            file == file_path@,
            lines == lines_of(source@),
            ranges_within(ranges@, src@.len() as int),
            cut(src@, ranges@) == lines,
            utf8_len(src@) <= usize::MAX,
            match_views(matches@) + occurrences_in_lines(file, lines, search@, i as int)
                == occurrences_in_lines(file, lines, search@, 0),
        decreases ranges.len() - i,
    {
        let (a, b) = ranges[i];
        assert(ranges@[i as int].0 <= ranges@[i as int].1 <= src@.len());
        let line = vstd::slice::slice_subrange(src, a, b);
        let len = line.len();
        proof {
            assert(line@ == cut(src@, ranges@)[i as int]);
            lemma_utf8_len_subrange(src@, a as int, b as int);
        }
        let ghost before = match_views(matches@);
        let ghost in_line = occurrences(file, line@, search@, 0, (i + 1) as nat);
        let mut from: usize = 0;
        assert(before + Seq::<CommentMatchView>::empty() =~= before);
        loop
            invariant_except_break
                from <= len,
                match_views(matches@) + occurrences(file, line@, search@, from as int, (i + 1) as nat)
                    == before + in_line,
            invariant
                len == line@.len(),
                i < ranges.len(),
                search@.len() > 0,
                file == file_path@,
                utf8_len(line@) <= usize::MAX,
                in_line == occurrences(file, line@, search@, 0, (i + 1) as nat),
            ensures
                match_views(matches@) == before + in_line,
            decreases len - from,
        {
            proof {
                lemma_first_match(line@, search@, from as int);
            }
            let ghost so_far = match_views(matches@);
            match find(line, search.as_slice(), from) {
                Some(p) => {
                    proof {
                        lemma_utf8_len_subrange(line@, 0, p as int);
                        assert(line@.subrange(0, p as int) =~= line@.take(p as int));
                    }
                    let column = utf8_len_between(line, 0, p);
                    let m = CommentMatch {
                        file_path: file_path.to_owned(),
                        line: i + 1,
                        column,
                        comment_type: CommentType::Block,
                        content: string_of(line),
                    };
                    matches.push(m);
                    let ghost rest = occurrences(
                        file,
                        line@,
                        search@,
                        p + search@.len(),
                        (i + 1) as nat,
                    );
                    assert(match_views(matches@) =~= so_far + seq![m@]);
                    assert((so_far + seq![m@]) + rest =~= so_far + (seq![m@] + rest));
                    from = p + search.len();
                },
                None => {
                    assert(so_far + Seq::<CommentMatchView>::empty() =~= so_far);
                    break ;
                },
            }
        }
        assert(before + (in_line + occurrences_in_lines(file, lines, search@, i + 1)) =~= (before
            + in_line) + occurrences_in_lines(file, lines, search@, i + 1));
        i += 1;
    }
    assert(match_views(matches@) + Seq::<CommentMatchView>::empty() =~= match_views(matches@));
    matches
}

/// The lines `lo..hi` of a text, joined by newlines.
fn join_range(source: &[char], ranges: &Vec<(usize, usize)>, lo: usize, hi: usize) -> (out: Vec<
    char,
>)
    requires
        lo <= hi <= ranges@.len(),
        ranges_within(ranges@, source@.len() as int),
    ensures
        out@ == join_lines(cut(source@, ranges@).subrange(lo as int, hi as int)),
{
    let ghost lines = cut(source@, ranges@);
    let mut out: Vec<char> = Vec::new();
    let mut k: usize = lo;
    assert(lines.subrange(lo as int, lo as int) =~= Seq::<Seq<char>>::empty());
    while k < hi
        invariant
            lo <= k <= hi <= ranges@.len(),
            ranges_within(ranges@, source@.len() as int),
            lines == cut(source@, ranges@),
            out@ == join_lines(lines.subrange(lo as int, k as int)),
        decreases hi - k,
    {
        let (a, b) = ranges[k];
        assert(ranges@[k as int].0 <= ranges@[k as int].1 <= source@.len());
        let ghost joined = out@;
        if k > lo {
            out.push('\n');
        }
        out.extend_from_slice(vstd::slice::slice_subrange(source, a, b));
        proof {
            let part = lines.subrange(lo as int, k + 1);
            assert(part.drop_last() =~= lines.subrange(lo as int, k as int));
            assert(part.last() == source@.subrange(a as int, b as int));
            if k > lo {
                assert(out@ =~= joined + seq!['\n'] + part.last());
            } else {
                assert(joined =~= Seq::<char>::empty());
                assert(out@ =~= part[0]);
            }
        }
        k += 1;
    }
    out
}

/// The first and the line after the last of the lines shown round line
/// number `line` of a text of `total` lines, both counted from 0.
pub open spec fn snippet_bounds(total: nat, line: nat, before: nat, after: nat) -> (nat, nat) {
    let target: nat = if line >= 1 {
        (line - 1) as nat
    } else {
        0
    };
    let start: nat = if target >= before {
        (target - before) as nat
    } else {
        0
    };
    let end: nat = if target + after + 1 <= total {
        target + after + 1
    } else {
        total
    };
    (start, end)
}

/// The number of lines of `source`.
pub fn line_count(source: &str) -> (n: usize)
    ensures
        n == lines_of(source@).len(),
{
    let chars = chars_of(source);
    let ranges = split_lines(chars.as_slice());
    assert(cut(chars@, ranges@).len() == ranges@.len());
    ranges.len()
}

/// The lines of `source` round line number `line` (counted from 1):
/// `context_before` lines before it and `context_after` after it, as far as
/// the text has them. The line asked for must not lie so far behind the end of
/// the text that nothing is left to show.
pub fn get_code_at_location(
    file_path: &str,
    source: &str,
    line: usize,
    context_before: usize,
    context_after: usize,
) -> (res: CodeSnippet)
    requires
        line + context_after <= usize::MAX,
        snippet_bounds(
            lines_of(source@).len(),
            line as nat,
            context_before as nat,
            context_after as nat,
        ).0 <= snippet_bounds(
            lines_of(source@).len(),
            line as nat,
            context_before as nat,
            context_after as nat,
        ).1,
    ensures
        ({
            let lines = lines_of(source@);
            let bounds = snippet_bounds(
                lines.len(),
                line as nat,
                context_before as nat,
                context_after as nat,
            );
            res@ == (CodeSnippetView {
                file_path: file_path@,
                start_line: bounds.0 + 1,
                end_line: bounds.1,
                code: join_lines(lines.subrange(bounds.0 as int, bounds.1 as int)),
            })
        }),
{
    let chars = chars_of(source);
    let ranges = split_lines(chars.as_slice());
    let total_lines = ranges.len();
    assert(cut(chars@, ranges@).len() == ranges@.len());
    let target_idx: usize = if line >= 1 {
        line - 1
    } else {
        0
    };
    let start_idx: usize = if target_idx >= context_before {
        target_idx - context_before
    } else {
        0
    };
    let end_idx: usize = if context_after < total_lines && target_idx < total_lines
        - context_after {
        target_idx + context_after + 1
    } else {
        total_lines
    };
    let code = join_range(chars.as_slice(), &ranges, start_idx, end_idx);
    CodeSnippet {
        file_path: file_path.to_owned(),
        start_line: start_idx + 1,
        end_line: end_idx,
        code: string_of(code.as_slice()),
    }
}

/// A line that reads as part of a comment when met on its own: it starts
/// with `//`, or with `*` but not with `*/`.
pub open spec fn is_comment_line(t: Seq<char>) -> bool {
    starts_with(t, slash_prefix()) || (starts_with(t, seq!['*']) && !starts_with(
        t,
        block_close(),
    ))
}

/// The documentation lines met when walking up from line `i` (counted from
/// 0), in the order of the text. `in_block` says that the walk is inside a
/// block comment, which it entered at a line that ends with `*/` and leaves
/// at a line that holds `/*`, be it the same line. Outside a block comment,
/// comment lines are taken, blank lines are passed over as long as nothing
/// was taken (`any`), and any other line ends the walk.
pub open spec fn doc_lines(lines: Seq<Seq<char>>, i: int, in_block: bool, any: bool) -> Seq<
    Seq<char>,
>
    decreases i + 1,
{
    if i < 0 || i >= lines.len() {
        seq![]
    } else {
        let t = trimmed(lines[i]);
        if in_block {
            doc_lines(lines, i - 1, !contains(t, block_open()), true).push(lines[i])
        } else if ends_with(t, block_close()) {
            doc_lines(lines, i - 1, !contains(t, block_open()), true).push(lines[i])
        } else if is_comment_line(t) {
            doc_lines(lines, i - 1, false, true).push(lines[i])
        } else if t.len() == 0 && !any {
            doc_lines(lines, i - 1, false, false)
        } else {
            seq![]
        }
    }
}

/// The documentation that stands directly above line `start_line` (counted
/// from 0) of `source`: none for line 0, for a line beyond the end of the
/// text, and where no comment stands there.
pub open spec fn docs_before(source: Seq<char>, start_line: nat) -> Option<Seq<char>> {
    let lines = lines_of(source);
    if start_line == 0 || start_line > lines.len() {
        None
    } else {
        let found = doc_lines(lines, start_line - 1, false, false);
        if found.len() == 0 {
            None
        } else {
            Some(join_lines(found))
        }
    }
}

/// Extracts the documentation comment that stands directly above line
/// `start_line` of `source`, where lines are counted from 0.
pub fn extract_docs_before_line(source: &str, start_line: usize) -> (docs: Option<String>)
    ensures
        crate::types::opt_text(docs) == docs_before(source@, start_line as nat),
{
    if start_line == 0 {
        return None;
    }
    let chars = chars_of(source);
    let src = chars.as_slice();
    let ranges = split_lines(src);
    let ghost lines = lines_of(source@);
    assert(cut(src@, ranges@).len() == ranges@.len());
    if start_line > ranges.len() {
        return None;
    }
    let open: Vec<char> = vec!['/', '*'];
    let close: Vec<char> = vec!['*', '/'];
    let slashes: Vec<char> = vec!['/', '/'];
    let star: Vec<char> = vec!['*'];
    let ghost top = doc_lines(lines, start_line - 1, false, false);
    let mut in_block_comment = false;
    let mut hi: usize = start_line;
    let mut any = false;
    let mut i: usize = start_line;
    assert(lines.subrange(start_line as int, start_line as int) =~= Seq::<Seq<char>>::empty());
    assert(top + Seq::<Seq<char>>::empty() =~= top);
    while i > 0
        invariant_except_break
            top == doc_lines(lines, i - 1, in_block_comment, any) + lines.subrange(
                i as int,
                hi as int,
            ),
        invariant
            i <= hi <= start_line <= ranges@.len(),
            !any ==> i == hi,
            src@ == source@,
            lines == lines_of(source@),
            ranges_within(ranges@, src@.len() as int),
            cut(src@, ranges@) == lines,
            open@ == block_open(),
            close@ == block_close(),
            slashes@ == slash_prefix(),
            star@ == seq!['*'],
        ensures
            top == lines.subrange(i as int, hi as int),
        decreases i,
    {
        let (a, b) = ranges[i - 1];
        assert(ranges@[i - 1].0 <= ranges@[i - 1].1 <= src@.len());
        let line = vstd::slice::slice_subrange(src, a, b);
        assert(line@ == lines[i - 1]);
        let (ta, tb) = trim_range(line);
        let trimmed_line = vstd::slice::slice_subrange(line, ta, tb);
        let ghost above = doc_lines(lines, i - 2, false, true);
        let take = if in_block_comment {
            if includes(trimmed_line, open.as_slice()) {
                in_block_comment = false;
            }
            true
        } else if finishes_with(trimmed_line, close.as_slice()) {
            in_block_comment = !includes(trimmed_line, open.as_slice());
            true
        } else if begins_with(trimmed_line, slashes.as_slice()) || (begins_with(
            trimmed_line,
            star.as_slice(),
        ) && !begins_with(trimmed_line, close.as_slice())) {
            true
        } else if tb == ta && !any {
            hi = i - 1;
            i = i - 1;
            continue ;
        } else {
            assert(Seq::<Seq<char>>::empty() + lines.subrange(i as int, hi as int)
                =~= lines.subrange(i as int, hi as int));
            break ;
        };
        proof {
            let rest = doc_lines(lines, i - 2, in_block_comment, true);
            assert(rest.push(lines[i - 1]) + lines.subrange(i as int, hi as int) =~= rest
                + lines.subrange(i - 1, hi as int));
        }
        any = true;
        i = i - 1;
    }
    proof {
        if i == 0 {
            assert(doc_lines(lines, -1, in_block_comment, any) =~= Seq::<Seq<char>>::empty());
            assert(Seq::<Seq<char>>::empty() + lines.subrange(i as int, hi as int)
                =~= lines.subrange(i as int, hi as int));
        }
    }
    if i == hi {
        None
    } else {
        let joined = join_range(src, &ranges, i, hi);
        Some(string_of(joined.as_slice()))
    }
}

} // verus!
