//! Selection operations of edit plans, applied to the focused view.

use vstd::prelude::*;

use crate::buffer::InputMode;
use crate::editor::Editor;
use crate::search_ops::focus_at;
use crate::search_preview::view_set;
use crate::selection::{
    before, clamp_idx, expand_to_full_lines, filtered_selection, full_lines_range, kept_before, lemma_filtered_places,
    next_line_start_selection,
    point_at, rmax, rmin, select_char_after, select_char_before, select_to_next_line_start, Range, Selection,
};
use crate::text::{
    char_to_line, char_to_line_of, lemma_line_content_len_props, lemma_line_start_at, lemma_next_line_start_at,
    line_content_len,
    line_content_len_at, line_start, line_to_char,
};

verus! {

/// A selection step of an edit plan.
#[derive(Debug, Clone, Copy, PartialEq, Eq, Structural)]
pub enum SelectionOp {
    NoOp,
    /// Moves every head `count` chars left or right, keeping anchors.
    Extend { forward: bool, count: usize },
    ToLineStart,
    ToLineEnd,
    ExpandToFullLines,
    SelectCharBefore,
    SelectCharAfter,
    SelectToNextLineStart,
    PositionAfterCursor,
}

/// A per-range move.
#[derive(Debug, Clone, Copy, PartialEq, Eq, Structural)]
pub enum RangeMove {
    Extend { forward: bool, count: usize },
    LineStart,
    LineEnd,
    After,
}

/// In normal mode a cursor sits on a char: positions are clamped to the
/// last char (0 in an empty text).
pub open spec fn cell_clamp(p: int, len: int) -> int {
    if len == 0 {
        0
    } else if p < len {
        p
    } else {
        len - 1
    }
}

/// Start of the line holding position `p`.
pub open spec fn line_start_of(s: Seq<char>, p: int) -> int {
    line_start(s, char_to_line(s, clamp_idx(s, p)))
}

/// End of the content of the line holding position `p`.
pub open spec fn line_end_of(s: Seq<char>, p: int) -> int {
    line_start_of(s, p) + line_content_len(s, line_start_of(s, p))
}

/// A range after a move.
pub open spec fn moved_range(s: Seq<char>, r: Range, mv: RangeMove, normal: bool) -> Range {
    let len = s.len() as int;
    match mv {
        RangeMove::Extend { forward, count } => {
            let h = clamp_idx(s, r.head as int);
            let h2 = if forward {
                if h + count <= len { h + count } else { len }
            } else {
                if h >= count { h - count } else { 0 }
            };
            Range { anchor: r.anchor, head: (if normal { cell_clamp(h2, len) } else { h2 }) as usize }
        },
        RangeMove::LineStart => {
            let p = line_start_of(s, r.head as int);
            point_at(if normal { cell_clamp(p, len) } else { p })
        },
        RangeMove::LineEnd => {
            let p = line_end_of(s, r.head as int);
            point_at(if normal { cell_clamp(p, len) } else { p })
        },
        RangeMove::After => {
            let p = r.head + 1;
            point_at(if normal { cell_clamp(p, len) } else if p <= len { p } else { len })
        },
    }
}

/// Every range moved, primary index kept.
pub open spec fn moved_ranges(s: Seq<char>, rs: Seq<Range>, mv: RangeMove, normal: bool) -> Seq<Range> {
    Seq::new(rs.len(), |i: int| moved_range(s, rs[i], mv, normal))
}

fn cell_clamp_exec(p: usize, len: usize) -> (q: usize)
    ensures
        q == cell_clamp(p as int, len as int),
{
    if len == 0 {
        0
    } else if p < len {
        p
    } else {
        len - 1
    }
}

/// Moves one range.
pub fn move_range(text: &Vec<char>, r: Range, mv: RangeMove, normal: bool) -> (m: Range)
    ensures
        m == moved_range(text@, r, mv, normal),
{
    let len = text.len();
    match mv {
        RangeMove::Extend { forward, count } => {
            let h = if r.head <= len { r.head } else { len };
            let h2 = if forward {
                if count <= len - h { h + count } else { len }
            } else {
                if h >= count { h - count } else { 0 }
            };
            let head = if normal { cell_clamp_exec(h2, len) } else { h2 };
            Range { anchor: r.anchor, head }
        },
        RangeMove::LineStart => {
            let line = char_to_line_of(text, r.head);
            let p = line_to_char(text, line);
            let q = if normal { cell_clamp_exec(p, len) } else { p };
            Range { anchor: q, head: q }
        },
        RangeMove::LineEnd => {
            let line = char_to_line_of(text, r.head);
            let st = line_to_char(text, line);
            let p = st + line_content_len_at(text, st);
            let q = if normal { cell_clamp_exec(p, len) } else { p };
            Range { anchor: q, head: q }
        },
        RangeMove::After => {
            let q = if normal {
                if r.head < len { cell_clamp_exec(r.head + 1, len) } else { cell_clamp_exec(len, len) }
            } else if r.head < len {
                r.head + 1
            } else {
                len
            };
            Range { anchor: q, head: q }
        },
    }
}

/// Moves every range of a selection.
pub fn move_ranges(text: &Vec<char>, sel: &Selection, mv: RangeMove, normal: bool) -> (r: Selection)
    requires
        sel.wf(),
    ensures
        r.wf(),
        r.ranges@ == moved_ranges(text@, sel.ranges@, mv, normal),
        r.primary_index == sel.primary_index,
{
    let mut out: Vec<Range> = Vec::new();
    let mut i: usize = 0;
    while i < sel.ranges.len()
        invariant
            i <= sel.ranges@.len(),
            out@.len() == i,
            forall|k: int| 0 <= k < i ==> #[trigger] out@[k] == moved_range(text@, sel.ranges@[k], mv, normal),
        decreases sel.ranges@.len() - i,
    {
        out.push(move_range(text, sel.ranges[i], mv, normal));
        i = i + 1;
    }
    proof {
        assert(out@ =~= moved_ranges(text@, sel.ranges@, mv, normal));
    }
    Selection { ranges: out, primary_index: sel.primary_index }
}

/// The selection an operation produces from `sel` over text `s` (ranges and
/// primary index), or `None` when it leaves no target.
pub open spec fn selection_op_result(op: SelectionOp, s: Seq<char>, sel: Selection, normal: bool) -> Option<
    (Seq<Range>, int),
> {
    match op {
        SelectionOp::NoOp => Some((sel.ranges@, sel.primary_index as int)),
        SelectionOp::Extend { forward, count } => Some(
            (moved_ranges(s, sel.ranges@, RangeMove::Extend { forward, count }, normal), sel.primary_index as int),
        ),
        SelectionOp::ToLineStart => Some(
            (moved_ranges(s, sel.ranges@, RangeMove::LineStart, normal), sel.primary_index as int),
        ),
        SelectionOp::ToLineEnd => Some(
            (moved_ranges(s, sel.ranges@, RangeMove::LineEnd, normal), sel.primary_index as int),
        ),
        SelectionOp::ExpandToFullLines => if s.len() < usize::MAX {
            Some(
                (
                    Seq::new(sel.ranges@.len(), |i: int| full_lines_range(s, sel.ranges@[i])),
                    sel.primary_index as int,
                ),
            )
        } else {
            None
        },
        SelectionOp::SelectCharBefore => filtered_selection(
            Seq::new(sel.ranges@.len(), |i: int| sel.ranges@[i].head > 0),
            Seq::new(sel.ranges@.len(), |i: int| point_at(before(sel.ranges@[i].head))),
            sel.primary_index as int,
        ),
        SelectionOp::SelectCharAfter => filtered_selection(
            Seq::new(sel.ranges@.len(), |i: int| sel.ranges@[i].head < s.len()),
            Seq::new(sel.ranges@.len(), |i: int| point_at(sel.ranges@[i].head as int)),
            sel.primary_index as int,
        ),
        SelectionOp::SelectToNextLineStart => if s.len() < usize::MAX {
            match next_line_start_selection(s, sel.primary_spec().head as int) {
                Some((a, h)) => Some((seq![Range { anchor: a as usize, head: h as usize }], 0)),
                None => None,
            }
        } else {
            None
        },
        SelectionOp::PositionAfterCursor => Some(
            (moved_ranges(s, sel.ranges@, RangeMove::After, normal), sel.primary_index as int),
        ),
    }
}

impl Editor {
    /// Applies a selection operation to the focused view (positions snap to
    /// chars when the view is in Normal mode). Returns false, changing
    /// nothing, when the operation leaves no target.
    pub fn apply_selection_op(&mut self, op: SelectionOp) -> (r: bool)
        requires
            old(self).core.buffers.wf(),
            old(self).core.buffers.selections_wf(),
            old(self).core.buffers.has_view(old(self).core.buffers.focused),
        ensures
            final(self).core.buffers.wf(),
            final(self).core.undo_manager == old(self).core.undo_manager,
            final(self).windows == old(self).windows,
            final(self).focus == old(self).focus,
            op == SelectionOp::NoOp ==> r && final(self).core.buffers == old(self).core.buffers,
            forall|i: int, k: int|
                #[trigger] focus_at(old(self).core.buffers, i, k) && op != SelectionOp::NoOp ==> {
                    let b0 = old(self).core.buffers;
                    match selection_op_result(
                        op,
                        b0.docs@[k].text@,
                        b0.views@[i].selection,
                        b0.views@[i].mode == InputMode::Normal,
                    ) {
                        None => !r && final(self).core.buffers == b0,
                        Some(res) => r && view_set(
                            b0,
                            final(self).core.buffers,
                            b0.focused,
                            b0.views@[i].cursor,
                            res.0,
                            res.1 as usize,
                        ),
                    }
                },
    {
        if op == SelectionOp::NoOp {
            return true;
        }
        let (i, k) = match self.core.buffers.locate(self.core.buffers.focused) {
            Some(x) => x,
            None => {
                proof {
                    assert(false);
                }
                return false;
            },
        };
        proof {
            assert(self.core.buffers.views@[i as int].selection.wf());
        }
        let normal = self.core.buffers.views[i].mode == InputMode::Normal;
        let text = &self.core.buffers.docs[k].text;
        let sel = &self.core.buffers.views[i].selection;
        let result: Option<Selection> = match op {
            SelectionOp::NoOp => None,
            SelectionOp::Extend { forward, count } => Some(
                move_ranges(text, sel, RangeMove::Extend { forward, count }, normal),
            ),
            SelectionOp::ToLineStart => Some(move_ranges(text, sel, RangeMove::LineStart, normal)),
            SelectionOp::ToLineEnd => Some(move_ranges(text, sel, RangeMove::LineEnd, normal)),
            SelectionOp::ExpandToFullLines => {
                if text.len() < usize::MAX {
                    let s = expand_to_full_lines(text, sel);
                    proof {
                        assert(s.ranges@ =~= Seq::new(
                            sel.ranges@.len(),
                            |q: int| full_lines_range(text@, sel.ranges@[q]),
                        ));
                    }
                    Some(s)
                } else {
                    None
                }
            },
            SelectionOp::SelectCharBefore => select_char_before(sel),
            SelectionOp::SelectCharAfter => select_char_after(sel, text.len()),
            SelectionOp::SelectToNextLineStart => {
                if text.len() < usize::MAX {
                    select_to_next_line_start(text, sel)
                } else {
                    None
                }
            },
            SelectionOp::PositionAfterCursor => Some(move_ranges(text, sel, RangeMove::After, normal)),
        };
        match result {
            None => false,
            Some(s) => {
                let cursor = self.core.buffers.views[i].cursor;
                let f = self.core.buffers.focused;
                self.core.buffers.set_view_cursor_selection(f, cursor, s);
                true
            },
        }
    }
}


/// No range is kept exactly when no flag among the first `n` is set.
proof fn lemma_kept_none(keep: Seq<bool>, n: int)
    requires
        0 <= n <= keep.len(),
    ensures
        kept_before(keep, n) == 0 <==> forall|i: int| 0 <= i < n ==> !#[trigger] keep[i],
    decreases n,
{
    if n > 0 {
        lemma_kept_none(keep, n - 1);
    }
}

/// Selecting the char before every cursor succeeds exactly when some
/// range's head has a char before it, and selecting the char after every
/// cursor exactly when some head has a char after it; each of the new
/// ranges is a point (see `selection_op_result`).
pub proof fn law_char_select_succeeds_iff_some_target(s: Seq<char>, sel: Selection, normal: bool)
    ensures
        selection_op_result(SelectionOp::SelectCharBefore, s, sel, normal) is Some <==> exists|i: int|
            0 <= i < sel.ranges@.len() && #[trigger] sel.ranges@[i].head > 0,
        selection_op_result(SelectionOp::SelectCharAfter, s, sel, normal) is Some <==> exists|i: int|
            0 <= i < sel.ranges@.len() && #[trigger] sel.ranges@[i].head < s.len(),
{
    let n = sel.ranges@.len() as int;
    let kb = Seq::new(sel.ranges@.len(), |i: int| sel.ranges@[i].head > 0);
    let ka = Seq::new(sel.ranges@.len(), |i: int| sel.ranges@[i].head < s.len());
    lemma_kept_none(kb, n);
    lemma_kept_none(ka, n);
    if exists|i: int| 0 <= i < n && #[trigger] sel.ranges@[i].head > 0 {
        let i = choose|i: int| 0 <= i < n && #[trigger] sel.ranges@[i].head > 0;
        assert(kb[i]);
    }
    if exists|i: int| 0 <= i < n && #[trigger] sel.ranges@[i].head < s.len() {
        let i = choose|i: int| 0 <= i < n && #[trigger] sel.ranges@[i].head < s.len();
        assert(ka[i]);
    }
}


/// `q` starts the line holding `h`: it follows a line break (or is 0), and
/// no line break lies between it and `h`.
pub open spec fn starts_line_of(s: Seq<char>, h: int, q: int) -> bool {
    &&& 0 <= q <= h
    &&& q == 0 || s[q - 1] == '\n'
    &&& forall|i: int| q <= i < h ==> s[i] != '\n'
}

/// `q` ends the line holding `h`: it is the line break (or the end of the
/// text) that first follows `h`.
pub open spec fn ends_line_of(s: Seq<char>, h: int, q: int) -> bool {
    &&& h <= q <= s.len()
    &&& q == s.len() || s[q] == '\n'
    &&& forall|i: int| h <= i < q ==> s[i] != '\n'
}

proof fn lemma_line_start_move(s: Seq<char>, r: Range, normal: bool)
    requires
        s.len() <= usize::MAX,
    ensures
        ({
            let h = clamp_idx(s, r.head as int);
            let m = moved_range(s, r, RangeMove::LineStart, normal);
            &&& m.anchor == m.head
            &&& if normal && h == s.len() && s.len() > 0 && s[s.len() - 1] == '\n' {
                m.head == s.len() - 1
            } else {
                starts_line_of(s, h, m.head as int)
            }
        }),
{
    let h = clamp_idx(s, r.head as int);
    lemma_line_start_at(s, h);
}

proof fn lemma_line_end_move(s: Seq<char>, r: Range, normal: bool)
    requires
        s.len() <= usize::MAX,
    ensures
        ({
            let h = clamp_idx(s, r.head as int);
            let m = moved_range(s, r, RangeMove::LineEnd, normal);
            &&& m.anchor == m.head
            &&& if normal && s.len() > 0 && (forall|i: int| h <= i < s.len() ==> s[i] != '\n') {
                m.head == s.len() - 1
            } else {
                ends_line_of(s, h, m.head as int)
            }
        }),
{
    let h = clamp_idx(s, r.head as int);
    lemma_line_start_at(s, h);
    let ls = line_start_of(s, r.head as int);
    lemma_line_content_len_props(s, ls);
    let e = line_end_of(s, r.head as int);
    assert(e >= h) by {
        if e < h {
            assert(s[e] == '\n');
        }
    }
    if normal && s.len() > 0 && (forall|i: int| h <= i < s.len() ==> s[i] != '\n') {
        assert(e == s.len()) by {
            if e < s.len() {
                assert(s[e] == '\n');
            }
        }
    }
}

/// Moving to the line start puts a single cursor, per range, at the start
/// of the line holding the range's head: right after the last line break
/// before the head (or at 0), with no break in between. In Normal mode a
/// line start at the very end of the text (the empty line after a final
/// break) is pulled back onto the last char. The primary index is kept.
pub proof fn law_to_line_start(s: Seq<char>, sel: Selection, normal: bool)
    requires
        s.len() <= usize::MAX,
    ensures
        selection_op_result(SelectionOp::ToLineStart, s, sel, normal) matches Some((rs, p)) && rs.len()
            == sel.ranges@.len() && p == sel.primary_index && forall|i: int|
            0 <= i < rs.len() ==> {
                let h = clamp_idx(s, sel.ranges@[i].head as int);
                &&& (#[trigger] rs[i]).anchor == rs[i].head
                &&& if normal && h == s.len() && s.len() > 0 && s[s.len() - 1] == '\n' {
                    rs[i].head == s.len() - 1
                } else {
                    starts_line_of(s, h, rs[i].head as int)
                }
            },
{
    let rs = moved_ranges(s, sel.ranges@, RangeMove::LineStart, normal);
    assert forall|i: int| 0 <= i < rs.len() implies {
        let h = clamp_idx(s, sel.ranges@[i].head as int);
        &&& (#[trigger] rs[i]).anchor == rs[i].head
        &&& if normal && h == s.len() && s.len() > 0 && s[s.len() - 1] == '\n' {
            rs[i].head == s.len() - 1
        } else {
            starts_line_of(s, h, rs[i].head as int)
        }
    } by {
        lemma_line_start_move(s, sel.ranges@[i], normal);
    }
}

/// Moving to the line end puts a single cursor, per range, on the line
/// break that ends the line holding the range's head (or at the end of the
/// text on the last line). In Normal mode an end at the very end of a
/// non-empty text is pulled back onto the last char. The primary index is
/// kept.
pub proof fn law_to_line_end(s: Seq<char>, sel: Selection, normal: bool)
    requires
        s.len() <= usize::MAX,
    ensures
        selection_op_result(SelectionOp::ToLineEnd, s, sel, normal) matches Some((rs, p)) && rs.len()
            == sel.ranges@.len() && p == sel.primary_index && forall|i: int|
            0 <= i < rs.len() ==> {
                let h = clamp_idx(s, sel.ranges@[i].head as int);
                &&& (#[trigger] rs[i]).anchor == rs[i].head
                &&& if normal && s.len() > 0 && (forall|j: int| h <= j < s.len() ==> s[j] != '\n') {
                    rs[i].head == s.len() - 1
                } else {
                    ends_line_of(s, h, rs[i].head as int)
                }
            },
{
    let rs = moved_ranges(s, sel.ranges@, RangeMove::LineEnd, normal);
    assert forall|i: int| 0 <= i < rs.len() implies {
        let h = clamp_idx(s, sel.ranges@[i].head as int);
        &&& (#[trigger] rs[i]).anchor == rs[i].head
        &&& if normal && s.len() > 0 && (forall|j: int| h <= j < s.len() ==> s[j] != '\n') {
            rs[i].head == s.len() - 1
        } else {
            ends_line_of(s, h, rs[i].head as int)
        }
    } by {
        lemma_line_end_move(s, sel.ranges@[i], normal);
    }
}

/// Extending moves each range's head `count` chars forward or back from
/// where it is (a head past the end counts from the end), never past
/// either end of the text, and keeps its anchor; in Normal mode the head
/// stays on a char (the last one at the end, 0 in an empty text). The
/// primary index is kept.
pub proof fn law_extend(s: Seq<char>, sel: Selection, forward: bool, count: usize, normal: bool)
    requires
        s.len() <= usize::MAX,
    ensures
        selection_op_result(SelectionOp::Extend { forward, count }, s, sel, normal) matches Some((rs, p))
            && rs.len() == sel.ranges@.len() && p == sel.primary_index && forall|i: int|
            0 <= i < rs.len() ==> {
                let h = if sel.ranges@[i].head <= s.len() { sel.ranges@[i].head as int } else { s.len() as int };
                let target = if forward { h + count } else { h - count };
                let within = if target < 0 { 0 } else if target > s.len() { s.len() as int } else { target };
                &&& (#[trigger] rs[i]).anchor == sel.ranges@[i].anchor
                &&& !normal ==> rs[i].head == within
                &&& normal ==> rs[i].head == (if s.len() == 0 { 0 } else if within == s.len() { s.len() - 1 } else {
                    within
                })
            },
{
}

/// Putting the cursor after itself moves each range to a single cursor one
/// past its head, never past the end of the text; in Normal mode it stays
/// on a char (the last one, 0 in an empty text). The primary index is
/// kept.
pub proof fn law_position_after_cursor(s: Seq<char>, sel: Selection, normal: bool)
    requires
        s.len() <= usize::MAX,
    ensures
        selection_op_result(SelectionOp::PositionAfterCursor, s, sel, normal) matches Some((rs, p)) && rs.len()
            == sel.ranges@.len() && p == sel.primary_index && forall|i: int|
            0 <= i < rs.len() ==> {
                let next = sel.ranges@[i].head + 1;
                &&& (#[trigger] rs[i]).anchor == rs[i].head
                &&& !normal ==> rs[i].head == (if next <= s.len() { next } else { s.len() as int })
                &&& normal ==> rs[i].head == (if s.len() == 0 { 0 } else if next < s.len() { next } else {
                    s.len() - 1
                })
            },
{
}


/// Expanding to full lines makes each range run from the start of the line
/// holding its first end to just past the line break that ends the line
/// holding its last end (or to the end of the text on the last line),
/// anchor first. The primary index is kept.
pub proof fn law_expand_to_full_lines(s: Seq<char>, sel: Selection, normal: bool)
    requires
        s.len() < usize::MAX,
    ensures
        selection_op_result(SelectionOp::ExpandToFullLines, s, sel, normal) matches Some((rs, p)) && rs.len()
            == sel.ranges@.len() && p == sel.primary_index && forall|i: int|
            0 <= i < rs.len() ==> {
                let lo = clamp_idx(s, rmin(sel.ranges@[i]) as int);
                let hi = clamp_idx(s, rmax(sel.ranges@[i]) as int);
                let h = (#[trigger] rs[i]).head as int;
                &&& starts_line_of(s, lo, rs[i].anchor as int)
                &&& hi <= h <= s.len()
                &&& (h == s.len() && forall|j: int| hi <= j < s.len() ==> s[j] != '\n') || (hi < h && s[h - 1]
                    == '\n' && forall|j: int| hi <= j < h - 1 ==> s[j] != '\n')
            },
{
    let rs = Seq::new(sel.ranges@.len(), |i: int| full_lines_range(s, sel.ranges@[i]));
    assert forall|i: int| 0 <= i < rs.len() implies {
        let lo = clamp_idx(s, rmin(sel.ranges@[i]) as int);
        let hi = clamp_idx(s, rmax(sel.ranges@[i]) as int);
        let h = (#[trigger] rs[i]).head as int;
        &&& starts_line_of(s, lo, rs[i].anchor as int)
        &&& hi <= h <= s.len()
        &&& (h == s.len() && forall|j: int| hi <= j < s.len() ==> s[j] != '\n') || (hi < h && s[h - 1] == '\n'
            && forall|j: int| hi <= j < h - 1 ==> s[j] != '\n')
    } by {
        let lo = clamp_idx(s, rmin(sel.ranges@[i]) as int);
        let hi = clamp_idx(s, rmax(sel.ranges@[i]) as int);
        lemma_line_start_at(s, lo);
        lemma_next_line_start_at(s, hi);
    }
}

/// Selecting to the next line start selects the line break that ends the
/// primary head's line, as the only range; there is nothing to select
/// when the head is on the last line (no break at or after it).
pub proof fn law_select_to_next_line_start(s: Seq<char>, sel: Selection, normal: bool)
    requires
        s.len() < usize::MAX,
    ensures
        ({
            let h = clamp_idx(s, sel.primary_spec().head as int);
            let res = selection_op_result(SelectionOp::SelectToNextLineStart, s, sel, normal);
            &&& res is Some <==> exists|i: int| h <= i < s.len() && s[i] == '\n'
            &&& res matches Some((rs, p)) ==> p == 0 && rs.len() == 1 && rs[0].head == rs[0].anchor + 1 && h
                <= rs[0].anchor && s[rs[0].anchor as int] == '\n' && forall|j: int|
                h <= j < rs[0].anchor ==> s[j] != '\n'
        }),
{
    let h = clamp_idx(s, sel.primary_spec().head as int);
    lemma_next_line_start_at(s, h);
}


/// Selecting the char before each cursor keeps, in order, one range per
/// range whose head is past the text's start: a single cursor one char
/// before that head, placed after those kept for earlier ranges; ranges
/// at the start are dropped. The primary stays primary when kept.
pub proof fn law_select_char_before_ranges(s: Seq<char>, sel: Selection, normal: bool)
    ensures
        ({
            let keep = Seq::new(sel.ranges@.len(), |i: int| sel.ranges@[i].head > 0);
            selection_op_result(SelectionOp::SelectCharBefore, s, sel, normal) matches Some((rs, p)) ==> {
                &&& rs.len() == kept_before(keep, keep.len() as int)
                &&& forall|i: int|
                    0 <= i < sel.ranges@.len() && (#[trigger] sel.ranges@[i]).head > 0 ==> kept_before(keep, i) < rs.len()
                        && rs[kept_before(keep, i) as int] == (Range {
                        anchor: (sel.ranges@[i].head - 1) as usize,
                        head: (sel.ranges@[i].head - 1) as usize,
                    })
                &&& sel.primary_index < sel.ranges@.len() && sel.ranges@[sel.primary_index as int].head > 0 ==> p
                    == kept_before(keep, sel.primary_index as int)
            }
        }),
{
    let keep = Seq::new(sel.ranges@.len(), |i: int| sel.ranges@[i].head > 0);
    let mapped = Seq::new(sel.ranges@.len(), |i: int| point_at(before(sel.ranges@[i].head)));
    lemma_filtered_places(keep, mapped, sel.primary_index as int);
    assert forall|i: int|
        0 <= i < sel.ranges@.len() && (#[trigger] sel.ranges@[i]).head > 0 implies keep[i] by {}
}

/// Selecting the char after each cursor keeps, in order, one range per
/// range whose head is before the text's end: a single cursor at that
/// head, placed after those kept for earlier ranges; ranges at the end are
/// dropped. The primary stays primary when kept.
pub proof fn law_select_char_after_ranges(s: Seq<char>, sel: Selection, normal: bool)
    ensures
        ({
            let keep = Seq::new(sel.ranges@.len(), |i: int| sel.ranges@[i].head < s.len());
            selection_op_result(SelectionOp::SelectCharAfter, s, sel, normal) matches Some((rs, p)) ==> {
                &&& rs.len() == kept_before(keep, keep.len() as int)
                &&& forall|i: int|
                    0 <= i < sel.ranges@.len() && (#[trigger] sel.ranges@[i]).head < s.len() ==> kept_before(keep, i)
                        < rs.len() && rs[kept_before(keep, i) as int] == (Range {
                        anchor: sel.ranges@[i].head,
                        head: sel.ranges@[i].head,
                    })
                &&& sel.primary_index < sel.ranges@.len() && sel.ranges@[sel.primary_index as int].head < s.len()
                    ==> p == kept_before(keep, sel.primary_index as int)
            }
        }),
{
    let keep = Seq::new(sel.ranges@.len(), |i: int| sel.ranges@[i].head < s.len());
    let mapped = Seq::new(sel.ranges@.len(), |i: int| point_at(sel.ranges@[i].head as int));
    lemma_filtered_places(keep, mapped, sel.primary_index as int);
    assert forall|i: int|
        0 <= i < sel.ranges@.len() && (#[trigger] sel.ranges@[i]).head < s.len() implies keep[i] by {}
}

} // verus!
