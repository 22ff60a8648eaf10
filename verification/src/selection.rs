//! Ranges, selections and the selection operations applied before edits.

use vstd::prelude::*;

use crate::text::{char_to_line, char_to_line_of, line_count, line_start, line_to_char};

verus! {

/// A range between an anchor and a head (the cursor end). It covers the
/// chars from `from()` up to, but excluding, `to()`.
#[derive(Debug, Clone, Copy, PartialEq, Eq, Structural)]
pub struct Range {
    pub anchor: usize,
    pub head: usize,
}

pub open spec fn rmin(r: Range) -> usize {
    if r.anchor <= r.head { r.anchor } else { r.head }
}

pub open spec fn rmax(r: Range) -> usize {
    if r.anchor <= r.head { r.head } else { r.anchor }
}

impl Range {
    pub fn new(anchor: usize, head: usize) -> (r: Self)
        ensures
            r.anchor == anchor && r.head == head,
    {
        Range { anchor, head }
    }

    /// A range covering `[start, end)`, anchored at `start`.
    pub fn from_exclusive(start: usize, end: usize) -> (r: Self)
        ensures
            r.anchor == start && r.head == end,
    {
        Range { anchor: start, head: end }
    }

    pub fn point(pos: usize) -> (r: Self)
        ensures
            r.anchor == pos && r.head == pos,
    {
        Range { anchor: pos, head: pos }
    }

    pub fn from(&self) -> (p: usize)
        ensures
            p == rmin(*self),
    {
        if self.anchor <= self.head { self.anchor } else { self.head }
    }

    pub fn to(&self) -> (p: usize)
        ensures
            p == rmax(*self),
    {
        if self.anchor <= self.head { self.head } else { self.anchor }
    }

    pub fn is_empty(&self) -> (b: bool)
        ensures
            b == (self.anchor == self.head),
    {
        self.anchor == self.head
    }
}

/// One or more ranges, one of which is primary.
#[derive(Debug)]
pub struct Selection {
    pub ranges: Vec<Range>,
    pub primary_index: usize,
}

impl Selection {
    /// Well-formed: at least one range and a valid primary index.
    pub open spec fn wf(&self) -> bool {
        self.ranges@.len() > 0 && self.primary_index < self.ranges@.len()
    }

    pub open spec fn primary_spec(&self) -> Range {
        self.ranges@[self.primary_index as int]
    }

    pub fn single(anchor: usize, head: usize) -> (s: Self)
        ensures
            s.wf(),
            s.ranges@ == seq![Range { anchor, head }],
            s.primary_index == 0,
    {
        let mut ranges = Vec::new();
        ranges.push(Range { anchor, head });
        Selection { ranges, primary_index: 0 }
    }

    pub fn point(pos: usize) -> (s: Self)
        ensures
            s.wf(),
            s.ranges@ == seq![Range { anchor: pos, head: pos }],
            s.primary_index == 0,
    {
        Selection::single(pos, pos)
    }

    /// A selection of `ranges` with the given primary index.
    pub fn from_vec(ranges: Vec<Range>, primary_index: usize) -> (s: Self)
        requires
            ranges@.len() > 0,
            primary_index < ranges@.len(),
        ensures
            s.wf(),
            s.ranges@ == ranges@,
            s.primary_index == primary_index,
    {
        Selection { ranges, primary_index }
    }

    pub fn primary(&self) -> (r: Range)
        requires
            self.wf(),
        ensures
            r == self.primary_spec(),
    {
        self.ranges[self.primary_index]
    }

    pub fn primary_index(&self) -> (i: usize)
        ensures
            i == self.primary_index,
    {
        self.primary_index
    }

    /// Adds a range (the primary range is unchanged).
    pub fn push(&mut self, r: Range)
        requires
            old(self).wf(),
        ensures
            final(self).wf(),
            final(self).ranges@ == old(self).ranges@.push(r),
            final(self).primary_index == old(self).primary_index,
    {
        self.ranges.push(r);
    }

    pub fn duplicate(&self) -> (s: Self)
        ensures
            s.ranges@ == self.ranges@,
            s.primary_index == self.primary_index,
    {
        Selection { ranges: self.ranges.clone(), primary_index: self.primary_index }
    }
}

/// The empty range at `p`.
pub open spec fn point_at(p: int) -> Range {
    Range { anchor: p as usize, head: p as usize }
}

/// The position one before `h` (0 stays 0).
pub open spec fn before(h: usize) -> int {
    if h > 0 { h - 1 } else { 0 }
}

/// Points one char before each head, skipping heads at 0; the primary
/// follows its range when kept (index 0 otherwise).
pub open spec fn char_before_ranges(rs: Seq<Range>) -> Seq<Range>
    decreases rs.len(),
{
    if rs.len() == 0 {
        Seq::empty()
    } else {
        let rest = char_before_ranges(rs.drop_last());
        let r = rs.last();
        if r.head == 0 {
            rest
        } else {
            rest.push(Range { anchor: (r.head - 1) as usize, head: (r.head - 1) as usize })
        }
    }
}

/// Number of ranges before index `i` that the per-range filter keeps.
pub open spec fn kept_before(keep: Seq<bool>, i: int) -> nat
    decreases i,
{
    if i <= 0 {
        0
    } else {
        kept_before(keep, i - 1) + if keep[i - 1] { 1nat } else { 0nat }
    }
}

/// Result of a per-range operation that may drop ranges: the kept ranges and
/// the primary index, or `None` when nothing is left.
pub open spec fn filtered_selection(
    keep: Seq<bool>,
    mapped: Seq<Range>,
    primary: int,
) -> Option<(Seq<Range>, int)> {
    let kept = Seq::new(kept_before(keep, keep.len() as int), |k: int| mapped[pick_index(keep, k)]);
    if kept_before(keep, keep.len() as int) == 0 {
        None
    } else {
        Some(
            (
                kept,
                if 0 <= primary < keep.len() && keep[primary] {
                    kept_before(keep, primary) as int
                } else {
                    0
                },
            ),
        )
    }
}

/// Index of the `k`-th kept entry.
pub open spec fn pick_index(keep: Seq<bool>, k: int) -> int {
    choose|i: int| 0 <= i < keep.len() && keep[i] && kept_before(keep, i) == k
}

proof fn lemma_kept_before_mono(keep: Seq<bool>, i: int, j: int)
    requires
        0 <= i <= j <= keep.len(),
    ensures
        kept_before(keep, i) <= kept_before(keep, j),
    decreases j - i,
{
    if i < j {
        lemma_kept_before_mono(keep, i, j - 1);
    }
}

proof fn lemma_pick_index(keep: Seq<bool>, i: int)
    requires
        0 <= i < keep.len(),
        keep[i],
    ensures
        pick_index(keep, kept_before(keep, i) as int) == i,
{
    let k = kept_before(keep, i) as int;
    let c = pick_index(keep, k);
    assert(0 <= c < keep.len() && keep[c] && kept_before(keep, c) == k);
    if c < i {
        lemma_kept_before_mono(keep, c + 1, i);
    }
    if i < c {
        lemma_kept_before_mono(keep, i + 1, c);
    }
}

/// A filtered selection keeps every kept range, in order: kept range `i`
/// lands at the number of kept ranges before it.
pub proof fn lemma_filtered_places(keep: Seq<bool>, mapped: Seq<Range>, primary: int)
    requires
        keep.len() == mapped.len(),
    ensures
        forall|i: int|
            0 <= i < keep.len() && #[trigger] keep[i] ==> (filtered_selection(keep, mapped, primary) matches Some((rs, p))
                && kept_before(keep, i) < rs.len() && rs[kept_before(keep, i) as int] == mapped[i]),
{
    assert forall|i: int| 0 <= i < keep.len() && #[trigger] keep[i] implies (filtered_selection(keep, mapped, primary) matches Some((rs, p))
        && kept_before(keep, i) < rs.len() && rs[kept_before(keep, i) as int] == mapped[i]) by {
        lemma_pick_index(keep, i);
        lemma_kept_before_mono(keep, i + 1, keep.len() as int);
    }
}

/// Applies a per-range map that may drop ranges. `keep[i]` says whether range
/// `i` survives and `mapped[i]` is its replacement.
fn filter_ranges(keep: &Vec<bool>, mapped: &Vec<Range>, primary: usize) -> (r: Option<Selection>)
    requires
        keep@.len() == mapped@.len(),
    ensures
        match filtered_selection(keep@, mapped@, primary as int) {
            None => r is None,
            Some((rs, p)) => r matches Some(s) && s.wf() && s.ranges@ == rs && s.primary_index
                == p,
        },
{
    let mut out: Vec<Range> = Vec::new();
    let mut prim: usize = 0;
    let mut i: usize = 0;
    while i < keep.len()
        invariant
            i <= keep@.len() == mapped@.len(),
            out@.len() == kept_before(keep@, i as int),
            forall|k: int|
                0 <= k < out@.len() ==> #[trigger] out@[k] == mapped@[pick_index(keep@, k)],
            (primary < i && keep@[primary as int]) ==> prim == kept_before(
                keep@,
                primary as int,
            ),
            !(primary < i && keep@[primary as int]) ==> prim == 0,
        decreases keep@.len() - i,
    {
        if keep[i] {
            if i == primary {
                prim = out.len();
            }
            proof {
                lemma_pick_index(keep@, i as int);
            }
            out.push(mapped[i]);
        }
        i = i + 1;
    }
    if out.len() == 0 {
        return None;
    }
    proof {
        let rs = Seq::new(
            kept_before(keep@, keep@.len() as int),
            |k: int| mapped@[pick_index(keep@, k)],
        );
        assert(out@ =~= rs);
        if primary < keep@.len() && keep@[primary as int] {
            lemma_kept_before_mono(keep@, primary as int + 1, keep@.len() as int);
        }
    }
    Some(Selection { ranges: out, primary_index: prim })
}

/// Selects the char before each cursor (ranges at the document start are
/// dropped). `None` when no range remains, which skips the edit.
pub fn select_char_before(sel: &Selection) -> (r: Option<Selection>)
    requires
        sel.wf(),
    ensures
        match filtered_selection(
            Seq::new(sel.ranges@.len(), |i: int| sel.ranges@[i].head > 0),
            Seq::new(
                sel.ranges@.len(),
                |i: int|
                    point_at(before(sel.ranges@[i].head)),
            ),
            sel.primary_index as int,
        ) {
            None => r is None,
            Some((rs, p)) => r matches Some(s) && s.wf() && s.ranges@ == rs && s.primary_index
                == p,
        },
{
    let mut keep: Vec<bool> = Vec::new();
    let mut mapped: Vec<Range> = Vec::new();
    let mut i: usize = 0;
    while i < sel.ranges.len()
        invariant
            i <= sel.ranges@.len(),
            keep@.len() == i && mapped@.len() == i,
            forall|k: int| 0 <= k < i ==> #[trigger] keep@[k] == (sel.ranges@[k].head > 0),
            forall|k: int|
                0 <= k < i ==> #[trigger] mapped@[k] == point_at(before(sel.ranges@[k].head)),
        decreases sel.ranges@.len() - i,
    {
        let h = sel.ranges[i].head;
        keep.push(h > 0);
        let p = if h > 0 { h - 1 } else { 0 };
        mapped.push(Range { anchor: p, head: p });
        i = i + 1;
    }
    proof {
        assert(keep@ =~= Seq::new(sel.ranges@.len(), |i: int| sel.ranges@[i].head > 0));
        assert(mapped@ =~= Seq::new(
            sel.ranges@.len(),
            |i: int|
                point_at(before(sel.ranges@[i].head)),
        ));
    }
    filter_ranges(&keep, &mapped, sel.primary_index)
}

/// Selects the char at each cursor (ranges at the document end are dropped).
pub fn select_char_after(sel: &Selection, len: usize) -> (r: Option<Selection>)
    requires
        sel.wf(),
    ensures
        match filtered_selection(
            Seq::new(sel.ranges@.len(), |i: int| sel.ranges@[i].head < len),
            Seq::new(
                sel.ranges@.len(),
                |i: int| point_at(sel.ranges@[i].head as int),
            ),
            sel.primary_index as int,
        ) {
            None => r is None,
            Some((rs, p)) => r matches Some(s) && s.wf() && s.ranges@ == rs && s.primary_index
                == p,
        },
{
    let mut keep: Vec<bool> = Vec::new();
    let mut mapped: Vec<Range> = Vec::new();
    let mut i: usize = 0;
    while i < sel.ranges.len()
        invariant
            i <= sel.ranges@.len(),
            keep@.len() == i && mapped@.len() == i,
            forall|k: int| 0 <= k < i ==> #[trigger] keep@[k] == (sel.ranges@[k].head < len),
            forall|k: int|
                0 <= k < i ==> #[trigger] mapped@[k] == point_at(sel.ranges@[k].head as int),
        decreases sel.ranges@.len() - i,
    {
        let h = sel.ranges[i].head;
        keep.push(h < len);
        mapped.push(Range { anchor: h, head: h });
        i = i + 1;
    }
    proof {
        assert(keep@ =~= Seq::new(sel.ranges@.len(), |i: int| sel.ranges@[i].head < len));
        assert(mapped@ =~= Seq::new(
            sel.ranges@.len(),
            |i: int| point_at(sel.ranges@[i].head as int),
        ));
    }
    filter_ranges(&keep, &mapped, sel.primary_index)
}

/// A range widened to whole lines: from the start of its first line to the
/// start of the line after its last line (or the end of the text).
pub open spec fn full_lines_range(s: Seq<char>, r: Range) -> Range {
    let start_line = char_to_line(s, clamp_idx(s, rmin(r) as int));
    let end_line = char_to_line(s, clamp_idx(s, rmax(r) as int));
    Range {
        anchor: line_start(s, start_line) as usize,
        head: if end_line + 1 < line_count(s) {
            line_start(s, end_line + 1) as usize
        } else {
            s.len() as usize
        },
    }
}

/// An index clamped to the text length.
pub open spec fn clamp_idx(s: Seq<char>, i: int) -> int {
    if i <= s.len() { i } else { s.len() as int }
}

/// Expands every range to full lines, keeping the primary index.
pub fn expand_to_full_lines(text: &Vec<char>, sel: &Selection) -> (r: Selection)
    requires
        sel.wf(),
        text@.len() < usize::MAX,
    ensures
        r.wf(),
        r.primary_index == sel.primary_index,
        r.ranges@.len() == sel.ranges@.len(),
        forall|i: int|
            0 <= i < sel.ranges@.len() ==> #[trigger] r.ranges@[i] == full_lines_range(
                text@,
                sel.ranges@[i],
            ),
{
    let total = crate::text::len_lines(text);
    let mut out: Vec<Range> = Vec::new();
    let mut i: usize = 0;
    while i < sel.ranges.len()
        invariant
            i <= sel.ranges@.len(),
            total == line_count(text@),
            out@.len() == i,
            forall|k: int|
                0 <= k < i ==> #[trigger] out@[k] == full_lines_range(text@, sel.ranges@[k]),
        decreases sel.ranges@.len() - i,
    {
        let r = sel.ranges[i];
        let start_line = char_to_line_of(text, r.from());
        let end_line = char_to_line_of(text, r.to());
        let start = line_to_char(text, start_line);
        let end = if end_line < total - 1 {
            line_to_char(text, end_line + 1)
        } else {
            text.len()
        };
        out.push(Range { anchor: start, head: end });
        i = i + 1;
    }
    Selection { ranges: out, primary_index: sel.primary_index }
}

/// The range over the line break that ends the primary head's line, or
/// `None` when the head is on the last line.
pub open spec fn next_line_start_selection(s: Seq<char>, head: int) -> Option<(int, int)> {
    let line = char_to_line(s, clamp_idx(s, head));
    if line + 1 < line_count(s) {
        let e = line_start(s, line + 1) - 1;
        Some((e, e + 1))
    } else {
        None
    }
}

proof fn lemma_line_start_from_after(s: Seq<char>, p: int, k: nat)
    requires
        0 <= p < s.len(),
        k >= 1,
    ensures
        p + 1 <= crate::text::line_start_from(s, p, k) <= s.len(),
    decreases s.len() - p, k,
{
    if s[p] == '\n' {
        crate::text::lemma_line_start_from_range(s, p + 1, (k - 1) as nat);
    } else {
        crate::text::lemma_line_start_from_range(s, p + 1, k);
    }
}

/// Selects the line break at the end of the primary head's line.
pub fn select_to_next_line_start(text: &Vec<char>, sel: &Selection) -> (r: Option<Selection>)
    requires
        sel.wf(),
        text@.len() < usize::MAX,
    ensures
        match next_line_start_selection(text@, sel.primary_spec().head as int) {
            None => r is None,
            Some((a, h)) => r matches Some(s) && s.wf() && s.primary_index == 0 && s.ranges@
                == seq![Range { anchor: a as usize, head: h as usize }],
        },
{
    let head = sel.primary().head;
    let line = char_to_line_of(text, head);
    let total = crate::text::len_lines(text);
    if line < total - 1 {
        let next = line_to_char(text, line + 1);
        proof {
            crate::text::lemma_nl_count_le(text@);
            if text@.len() > 0 {
                lemma_line_start_from_after(text@, 0, (line + 1) as nat);
            }
        }
        let e = next - 1;
        Some(Selection::single(e, next))
    } else {
        None
    }
}

/// Moves every cursor one char right (clamped to the text length), keeping
/// the primary index.
pub fn position_after_cursor(sel: &Selection, len: usize) -> (r: Selection)
    requires
        sel.wf(),
    ensures
        r.wf(),
        r.primary_index == sel.primary_index,
        r.ranges@.len() == sel.ranges@.len(),
        forall|i: int|
            0 <= i < sel.ranges@.len() ==> #[trigger] r.ranges@[i] == point_at(
                if sel.ranges@[i].head + 1 <= len { sel.ranges@[i].head + 1 } else { len as int },
            ),
{
    let mut out: Vec<Range> = Vec::new();
    let mut i: usize = 0;
    while i < sel.ranges.len()
        invariant
            i <= sel.ranges@.len(),
            out@.len() == i,
            forall|k: int|
                0 <= k < i ==> #[trigger] out@[k] == point_at(
                    if sel.ranges@[k].head + 1 <= len { sel.ranges@[k].head + 1 } else { len as int },
                ),
        decreases sel.ranges@.len() - i,
    {
        let h = sel.ranges[i].head;
        let p = if h < len { h + 1 } else { len };
        out.push(Range::point(p));
        i = i + 1;
    }
    Selection { ranges: out, primary_index: sel.primary_index }
}

/// Cursor position restored by the "stay" post effect: the original cursor,
/// clamped to the last char of the text.
pub fn stay_position(original_cursor: usize, len: usize) -> (p: usize)
    ensures
        p == if original_cursor <= (if len > 0 { len - 1 } else { 0 }) {
            original_cursor as int
        } else {
            (if len > 0 { len - 1 } else { 0 })
        },
{
    let last = if len > 0 { len - 1 } else { 0 };
    if original_cursor <= last { original_cursor } else { last }
}

/// The ranges after a search hit (see `apply_search_hit`).
pub open spec fn hit_ranges(sel: Selection, hit: Range, add_selection: bool, extend: bool) -> Seq<Range> {
    if add_selection {
        sel.ranges@.push(Range { anchor: rmin(hit), head: rmax(hit) })
    } else if extend {
        seq![Range { anchor: sel.primary_spec().anchor, head: rmin(hit) }]
    } else {
        seq![Range { anchor: rmin(hit), head: rmax(hit) }]
    }
}

/// The primary index after a search hit.
pub open spec fn hit_primary(sel: Selection, add_selection: bool) -> usize {
    if add_selection { sel.primary_index } else { 0 }
}

/// Applies a search hit: the cursor moves to the match start; the match is
/// added as a range, or the primary range is extended from its anchor, or the
/// selection becomes the match.
pub fn apply_search_hit(sel: &Selection, hit: Range, add_selection: bool, extend: bool) -> (r: (
    usize,
    Selection,
))
    requires
        sel.wf(),
    ensures
        r.0 == rmin(hit),
        r.1.wf(),
        add_selection ==> r.1.ranges@ == sel.ranges@.push(Range { anchor: rmin(hit), head: rmax(hit) })
            && r.1.primary_index == sel.primary_index,
        !add_selection && extend ==> r.1.ranges@ == seq![
            Range { anchor: sel.primary_spec().anchor, head: rmin(hit) },
        ] && r.1.primary_index == 0,
        !add_selection && !extend ==> r.1.ranges@ == seq![
            Range { anchor: rmin(hit), head: rmax(hit) },
        ] && r.1.primary_index == 0,
        r.1.ranges@ == hit_ranges(*sel, hit, add_selection, extend),
        r.1.primary_index == hit_primary(*sel, add_selection),
{
    let start = hit.from();
    let end = hit.to();
    if add_selection {
        let mut s = sel.duplicate();
        s.push(Range::new(start, end));
        return (start, s);
    }
    if extend {
        let anchor = sel.primary().anchor;
        (start, Selection::single(anchor, start))
    } else {
        (start, Selection::single(start, end))
    }
}

/// Direction of a repeated search.
#[derive(Debug, Clone, Copy, PartialEq, Eq, Structural)]
pub enum SeqDirection {
    Next,
    Prev,
}

/// Repeats the last search in its direction, or the opposite one when
/// `flip` is set.
pub fn search_repeat_direction(reverse: bool, flip: bool) -> (d: SeqDirection)
    ensures
        d == if reverse != flip { SeqDirection::Prev } else { SeqDirection::Next },
{
    match (reverse, flip) {
        (false, false) => SeqDirection::Next,
        (false, true) => SeqDirection::Prev,
        (true, false) => SeqDirection::Prev,
        (true, true) => SeqDirection::Next,
    }
}

/// Gaps before each match, without the tail after the last one.
pub open spec fn split_gaps_prefix(from: int, matches: Seq<(usize, usize)>) -> Seq<(int, int)>
    decreases matches.len(),
{
    if matches.len() == 0 {
        Seq::empty()
    } else {
        let prev = split_gaps_prefix(from, matches.drop_last());
        let last_end = prefix_end(from, matches.drop_last());
        let start = from + matches.last().0;
        if start > last_end { prev.push((last_end, start)) } else { prev }
    }
}

/// End of the last match (absolute), or `from` when there is none.
pub open spec fn prefix_end(from: int, matches: Seq<(usize, usize)>) -> int {
    if matches.len() == 0 { from } else { from + matches.last().1 }
}

/// Gaps for a selection split: the prefix gaps plus the tail gap.
pub open spec fn split_ranges_spec(from: int, to: int, matches: Seq<(usize, usize)>) -> Seq<(int, int)> {
    let prefix = split_gaps_prefix(from, matches);
    let last_end = prefix_end(from, matches);
    if last_end < to { prefix.push((last_end, to)) } else { prefix }
}

/// Splits `[from, to)` at the matches, keeping the non-matching parts.
pub fn split_ranges(from: usize, to: usize, matches: &Vec<(usize, usize)>) -> (r: Vec<Range>)
    requires
        forall|i: int| 0 <= i < matches@.len() ==> from + #[trigger] matches@[i].1 <= usize::MAX
            && from + matches@[i].0 <= usize::MAX,
    ensures
        r@.len() == split_ranges_spec(from as int, to as int, matches@).len(),
        forall|i: int|
            0 <= i < r@.len() ==> #[trigger] r@[i].anchor == split_ranges_spec(
                from as int,
                to as int,
                matches@,
            )[i].0 && r@[i].head == split_ranges_spec(from as int, to as int, matches@)[i].1,
{
    let mut out: Vec<Range> = Vec::new();
    let mut last_end = from;
    let mut i: usize = 0;
    while i < matches.len()
        invariant
            i <= matches@.len(),
            forall|j: int| 0 <= j < matches@.len() ==> from + #[trigger] matches@[j].1 <= usize::MAX
                && from + matches@[j].0 <= usize::MAX,
            last_end == prefix_end(from as int, matches@.subrange(0, i as int)),
            out@.len() == split_gaps_prefix(from as int, matches@.subrange(0, i as int)).len(),
            forall|k: int|
                0 <= k < out@.len() ==> #[trigger] out@[k].anchor == split_gaps_prefix(
                    from as int,
                    matches@.subrange(0, i as int),
                )[k].0 && out@[k].head == split_gaps_prefix(
                    from as int,
                    matches@.subrange(0, i as int),
                )[k].1,
        decreases matches@.len() - i,
    {
        let (ms, me) = matches[i];
        let start = from + ms;
        let ghost prev = split_gaps_prefix(from as int, matches@.subrange(0, i as int));
        let ghost sub = matches@.subrange(0, i + 1);
        proof {
            assert(sub.drop_last() =~= matches@.subrange(0, i as int));
            assert(sub.last() == matches@[i as int]);
            assert(split_gaps_prefix(from as int, sub) == if start > last_end {
                prev.push((last_end as int, start as int))
            } else {
                prev
            });
        }
        if start > last_end {
            out.push(Range::from_exclusive(last_end, start));
        }
        last_end = from + me;
        i = i + 1;
        proof {
            assert(matches@.subrange(0, i as int) == sub);
        }
    }
    proof {
        assert(matches@.subrange(0, matches@.len() as int) =~= matches@);
    }
    if last_end < to {
        out.push(Range::from_exclusive(last_end, to));
    }
    out
}

/// Keeps the ranges whose match result differs from `invert`.
pub fn keep_matching_ranges(ranges: &Vec<Range>, matched: &Vec<bool>, invert: bool) -> (r: Vec<
    Range,
>)
    requires
        ranges@.len() == matched@.len(),
    ensures
        r@ == keep_matching_spec(ranges@, matched@, invert),
{
    let mut out: Vec<Range> = Vec::new();
    let mut i: usize = 0;
    while i < ranges.len()
        invariant
            i <= ranges@.len() == matched@.len(),
            out@ == keep_matching_spec(
                ranges@.subrange(0, i as int),
                matched@.subrange(0, i as int),
                invert,
            ),
        decreases ranges@.len() - i,
    {
        proof {
            assert(ranges@.subrange(0, i + 1).drop_last() =~= ranges@.subrange(0, i as int));
            assert(matched@.subrange(0, i + 1).drop_last() =~= matched@.subrange(0, i as int));
        }
        if matched[i] != invert {
            out.push(ranges[i]);
        }
        i = i + 1;
    }
    proof {
        assert(ranges@.subrange(0, ranges@.len() as int) =~= ranges@);
        assert(matched@.subrange(0, matched@.len() as int) =~= matched@);
    }
    out
}

/// The ranges kept by a match filter, in order.
pub open spec fn keep_matching_spec(ranges: Seq<Range>, matched: Seq<bool>, invert: bool) -> Seq<
    Range,
>
    decreases ranges.len(),
{
    if ranges.len() == 0 || matched.len() != ranges.len() {
        Seq::empty()
    } else {
        let prev = keep_matching_spec(ranges.drop_last(), matched.drop_last(), invert);
        if matched.last() != invert { prev.push(ranges.last()) } else { prev }
    }
}

} // verus!
