//! Live preview of an incremental search: as the prompt's input changes the
//! target view jumps to the nearest match, and goes back to where it was
//! when the input is cleared, fails to compile or stops matching.

use vstd::prelude::*;

use crate::buffer::{Buffer, BufferManager, InputMode};
use crate::chars::{char_whitespace, chars_of, is_whitespace, string_from_chars};
use crate::editor::Editor;
use crate::ids::ViewId;
use crate::search::{
    find_next, find_prev, find_next_spec, last_match_before, regex_compiles, regex_error_message, utf8_len,
    byte_offset, char_utf8_width, SearchRegex,
};
use crate::selection::{Range, Selection};
use crate::text::slice_of;

verus! {

/// Documents longer than this are searched in a window around the origin.
pub const FULL_SCAN_PREVIEW_MAX: usize = 500_000;

/// Width of the search window in chars.
pub const PREVIEW_WINDOW_CHARS: usize = 200_000;

/// The input without its trailing newlines.
pub open spec fn trim_newlines(s: Seq<char>) -> Seq<char>
    decreases s.len(),
{
    if s.len() > 0 && s.last() == '\n' {
        trim_newlines(s.drop_last())
    } else {
        s
    }
}

/// Every char is whitespace (true of the empty input).
pub open spec fn blank(s: Seq<char>) -> bool {
    forall|i: int| 0 <= i < s.len() ==> char_whitespace(#[trigger] s[i])
}

/// The preview match for `text`: within the whole text when it is short,
/// else within a window before (reverse) or after the origin.
pub open spec fn preview_find_spec(pattern: Seq<char>, text: Seq<char>, reverse: bool, origin: int) -> Option<
    (int, int),
> {
    let len = text.len() as int;
    if len <= FULL_SCAN_PREVIEW_MAX {
        if reverse {
            last_match_before(pattern, text, 0, origin, None)
        } else {
            find_next_spec(pattern, text, origin + 1)
        }
    } else if reverse {
        let end = if origin < len { origin } else { len };
        let start = if end > PREVIEW_WINDOW_CHARS { end - PREVIEW_WINDOW_CHARS } else { 0 };
        match last_match_before(pattern, text.subrange(start, end), 0, end - start, None) {
            Some(m) => Some((m.0 + start, m.1 + start)),
            None => None,
        }
    } else {
        let start = if origin + 1 < len { origin + 1 } else { len };
        let end = if start + PREVIEW_WINDOW_CHARS < len { start + PREVIEW_WINDOW_CHARS } else { len };
        match find_next_spec(pattern, text.subrange(start, end), 0) {
            Some(m) => Some((m.0 + start, m.1 + start)),
            None => None,
        }
    }
}

/// Length of the UTF-8 encoding of `text`, when it fits in a `usize`.
pub fn utf8_len_checked(text: &Vec<char>) -> (r: Option<usize>)
    ensures
        r is Some <==> utf8_len(text@) <= usize::MAX,
        r matches Some(n) ==> n == utf8_len(text@),
{
    let mut acc: usize = 0;
    let mut k: usize = 0;
    while k < text.len()
        invariant
            k <= text@.len(),
            acc == byte_offset(text@, k as int),
        decreases text@.len() - k,
    {
        let w = char_utf8_width(text[k]);
        if acc > usize::MAX - w {
            proof {
                crate::search::lemma_byte_offset_monotone(text@, k + 1, text@.len() as int);
            }
            return None;
        }
        acc = acc + w;
        k = k + 1;
    }
    Some(acc)
}

/// The preview match for `text` (see `preview_find_spec`); none when the
/// text's encoding does not fit in memory.
pub fn preview_find(text: &Vec<char>, sr: &SearchRegex, reverse: bool, origin: usize) -> (r: Option<(usize, usize)>)
    requires
        origin < usize::MAX,
    ensures
        utf8_len(text@) <= usize::MAX ==> (r is None <==> preview_find_spec(sr.pattern_spec(), text@, reverse, origin as int) is None),
        r matches Some(m) ==> preview_find_spec(sr.pattern_spec(), text@, reverse, origin as int) == Some(
            (m.0 as int, m.1 as int),
        ) && m.0 <= m.1 <= text@.len(),
{
    if utf8_len_checked(text).is_none() {
        return None;
    }
    let len = text.len();
    if len <= FULL_SCAN_PREVIEW_MAX {
        if reverse {
            find_prev(text, sr, origin)
        } else {
            find_next(text, sr, origin + 1)
        }
    } else if reverse {
        let end = if origin < len { origin } else { len };
        let start = if end > PREVIEW_WINDOW_CHARS { end - PREVIEW_WINDOW_CHARS } else { 0 };
        let window = slice_of(text, start, end);
        proof {
            crate::search::lemma_utf8_len_subrange(text@, start as int, end as int);
        }
        match find_prev(&window, sr, end - start) {
            Some(m) => Some((m.0 + start, m.1 + start)),
            None => None,
        }
    } else {
        let start = if origin + 1 < len { origin + 1 } else { len };
        let end = if start < len - PREVIEW_WINDOW_CHARS { start + PREVIEW_WINDOW_CHARS } else { len };
        let window = slice_of(text, start, end);
        proof {
            crate::search::lemma_utf8_len_subrange(text@, start as int, end as int);
        }
        match find_next(&window, sr, 0) {
            Some(m) => Some((m.0 + start, m.1 + start)),
            None => None,
        }
    }
}

/// The state of an open search prompt: the view it searches, the direction,
/// where that view was when the prompt opened, the last input seen, the
/// previewed match, the last regex error shown and the compiled pattern.
#[derive(Debug)]
pub struct SearchPreview {
    pub target: ViewId,
    pub reverse: bool,
    pub origin_cursor: usize,
    pub origin_selection: Selection,
    pub last_input: String,
    pub last_preview: Option<(usize, usize)>,
    pub last_error: Option<String>,
    pub cached: Option<SearchRegex>,
}

/// What the frame has to do after a preview update.
#[derive(Debug)]
pub struct PreviewUpdate {
    pub needs_redraw: bool,
    /// A regex error to show.
    pub notify: Option<String>,
    /// Scroll the target view so its cursor is visible.
    pub reveal: bool,
}

impl SearchPreview {
    /// A prompt searching `target` from the given origin.
    pub fn new(target: ViewId, reverse: bool, origin_cursor: usize, origin_selection: Selection) -> (p: Self)
        ensures
            p.target == target,
            p.reverse == reverse,
            p.origin_cursor == origin_cursor,
            p.origin_selection == origin_selection,
            p.last_input@.len() == 0,
            p.last_preview is None,
            p.last_error is None,
            p.cached is None,
    {
        SearchPreview {
            target,
            reverse,
            origin_cursor,
            origin_selection,
            last_input: String::new(),
            last_preview: None,
            last_error: None,
            cached: None,
        }
    }
}

/// The input with its trailing newlines removed.
pub fn trim_trailing_newlines(raw: &String) -> (r: String)
    ensures
        r@ == trim_newlines(raw@),
{
    let mut v = chars_of(raw.as_str());
    while v.len() > 0 && v[v.len() - 1] == '\n'
        invariant
            trim_newlines(v@) == trim_newlines(raw@),
        decreases v@.len(),
    {
        v.pop();
    }
    string_from_chars(v.as_slice())
}

/// Whether every char of `s` is whitespace.
pub fn is_blank(s: &String) -> (b: bool)
    ensures
        b == blank(s@),
{
    let v = chars_of(s.as_str());
    let mut i: usize = 0;
    while i < v.len()
        invariant
            v@ == s@,
            i <= v@.len(),
            forall|k: int| 0 <= k < i ==> char_whitespace(#[trigger] v@[k]),
        decreases v@.len() - i,
    {
        if !is_whitespace(v[i]) {
            return false;
        }
        i = i + 1;
    }
    true
}

/// `b1` is `b0` with the view `id` (if any) at `cursor` with the given
/// selection.
pub open spec fn view_set(
    b0: BufferManager,
    b1: BufferManager,
    id: ViewId,
    cursor: usize,
    ranges: Seq<Range>,
    primary: usize,
) -> bool {
    &&& b1.docs == b0.docs
    &&& b1.focused == b0.focused
    &&& b1.next_view == b0.next_view
    &&& b1.next_doc == b0.next_doc
    &&& b1.views@.len() == b0.views@.len()
    &&& forall|m: int|
        0 <= m < b0.views@.len() && b0.views@[m].id != id ==> #[trigger] b1.views@[m] == b0.views@[m]
    &&& forall|m: int|
        0 <= m < b0.views@.len() && b0.views@[m].id == id ==> {
            &&& (#[trigger] b1.views@[m]).id == id
            &&& b1.views@[m].doc == b0.views@[m].doc
            &&& b1.views@[m].cursor == cursor
            &&& b1.views@[m].selection.ranges@ == ranges
            &&& b1.views@[m].selection.primary_index == primary
            &&& b1.views@[m].scroll_line == b0.views@[m].scroll_line
            &&& b1.views@[m].scroll_segment == b0.views@[m].scroll_segment
            &&& b1.views@[m].readonly_override == b0.views@[m].readonly_override
            &&& b1.views@[m].mode == b0.views@[m].mode
            &&& b1.views@[m].last_search == b0.views@[m].last_search
        }
}

impl BufferManager {
    /// Puts view `id` (if it exists) at `cursor` with selection `sel`.
    pub fn set_view_cursor_selection(&mut self, id: ViewId, cursor: usize, sel: Selection)
        requires
            old(self).wf(),
        ensures
            final(self).wf(),
            view_set(*old(self), *final(self), id, cursor, sel.ranges@, sel.primary_index),
    {
        match self.index_of(id) {
            None => {},
            Some(i) => {
                self.views[i].cursor = cursor;
                self.views[i].selection = sel;
                proof {
                    let o = *old(self);
                    assert forall|m: int| 0 <= m < o.views@.len() && o.views@[m].id == id implies m == i by {
                        if m < i {
                            assert(o.views@[m].id != o.views@[i as int].id);
                        } else if i < m {
                            assert(o.views@[i as int].id != o.views@[m].id);
                        }
                    }
                    assert forall|a: int, c: int| 0 <= a < c < self.views@.len() implies self.views@[a].id
                        != self.views@[c].id by {
                        assert(o.views@[a].id != o.views@[c].id);
                    }
                    assert forall|a: int| 0 <= a < self.views@.len() implies #[trigger] self.views@[a].id.0
                        < self.next_view by {
                        assert(o.views@[a].id.0 < o.next_view);
                    }
                    assert forall|a: int| 0 <= a < self.views@.len() implies self.has_doc(
                        #[trigger] self.views@[a].doc,
                    ) by {
                        assert(o.has_doc(o.views@[a].doc));
                    }
                }
            },
        }
    }
}

/// `b1` is `b0` with view `id` (if it exists) in input mode `mode`.
pub open spec fn mode_set(b0: BufferManager, b1: BufferManager, id: ViewId, mode: InputMode) -> bool {
    &&& b1.docs == b0.docs
    &&& b1.focused == b0.focused
    &&& b1.next_view == b0.next_view
    &&& b1.next_doc == b0.next_doc
    &&& b1.views@.len() == b0.views@.len()
    &&& forall|m: int|
        0 <= m < b0.views@.len() && b0.views@[m].id != id ==> #[trigger] b1.views@[m] == b0.views@[m]
    &&& forall|m: int|
        0 <= m < b0.views@.len() && b0.views@[m].id == id ==> #[trigger] b1.views@[m] == (Buffer {
            mode,
            ..b0.views@[m]
        })
}

/// `b1` is `b0` with `search` recorded as the last search of view `id` (if
/// it exists).
pub open spec fn last_search_set(b0: BufferManager, b1: BufferManager, id: ViewId, search: Option<(String, bool)>) -> bool {
    &&& b1.docs == b0.docs
    &&& b1.focused == b0.focused
    &&& b1.next_view == b0.next_view
    &&& b1.next_doc == b0.next_doc
    &&& b1.views@.len() == b0.views@.len()
    &&& forall|m: int|
        0 <= m < b0.views@.len() && b0.views@[m].id != id ==> #[trigger] b1.views@[m] == b0.views@[m]
    &&& forall|m: int|
        0 <= m < b0.views@.len() && b0.views@[m].id == id ==> #[trigger] b1.views@[m] == (Buffer {
            last_search: search,
            ..b0.views@[m]
        })
}

impl BufferManager {
    /// Puts view `id` (if it exists) in input mode `mode`.
    pub fn set_view_mode(&mut self, id: ViewId, mode: InputMode)
        requires
            old(self).wf(),
        ensures
            final(self).wf(),
            mode_set(*old(self), *final(self), id, mode),
    {
        match self.index_of(id) {
            None => {},
            Some(i) => {
                self.views[i].mode = mode;
                proof {
                    let o = *old(self);
                    assert forall|m: int| 0 <= m < o.views@.len() && o.views@[m].id == id implies m == i by {
                        if m < i {
                            assert(o.views@[m].id != o.views@[i as int].id);
                        } else if i < m {
                            assert(o.views@[i as int].id != o.views@[m].id);
                        }
                    }
                    assert forall|a: int, c: int| 0 <= a < c < self.views@.len() implies self.views@[a].id
                        != self.views@[c].id by {
                        assert(o.views@[a].id != o.views@[c].id);
                    }
                    assert forall|a: int| 0 <= a < self.views@.len() implies #[trigger] self.views@[a].id.0
                        < self.next_view by {
                        assert(o.views@[a].id.0 < o.next_view);
                    }
                    assert forall|a: int| 0 <= a < self.views@.len() implies self.has_doc(
                        #[trigger] self.views@[a].doc,
                    ) by {
                        assert(o.has_doc(o.views@[a].doc));
                    }
                }
            },
        }
    }

    /// Records `search` as the last search of view `id` (if it exists).
    pub fn set_view_last_search(&mut self, id: ViewId, search: Option<(String, bool)>)
        requires
            old(self).wf(),
        ensures
            final(self).wf(),
            last_search_set(*old(self), *final(self), id, search),
    {
        match self.index_of(id) {
            None => {},
            Some(i) => {
                self.views[i].last_search = search;
                proof {
                    let o = *old(self);
                    assert forall|m: int| 0 <= m < o.views@.len() && o.views@[m].id == id implies m == i by {
                        if m < i {
                            assert(o.views@[m].id != o.views@[i as int].id);
                        } else if i < m {
                            assert(o.views@[i as int].id != o.views@[m].id);
                        }
                    }
                    assert forall|a: int, c: int| 0 <= a < c < self.views@.len() implies self.views@[a].id
                        != self.views@[c].id by {
                        assert(o.views@[a].id != o.views@[c].id);
                    }
                    assert forall|a: int| 0 <= a < self.views@.len() implies #[trigger] self.views@[a].id.0
                        < self.next_view by {
                        assert(o.views@[a].id.0 < o.next_view);
                    }
                    assert forall|a: int| 0 <= a < self.views@.len() implies self.has_doc(
                        #[trigger] self.views@[a].doc,
                    ) by {
                        assert(o.has_doc(o.views@[a].doc));
                    }
                }
            },
        }
    }
}

/// The preview match in the document of view `target` (none when the view
/// does not exist or the text's encoding does not fit in memory).
pub open spec fn preview_match_ok(b: BufferManager, target: ViewId, pattern: Seq<char>, reverse: bool, origin: usize, r: Option<(usize, usize)>) -> bool {
    &&& !b.has_view(target) ==> r is None
    &&& forall|k: int|
        0 <= k < b.docs@.len() && b.has_view(target) && #[trigger] b.docs@[k].id == b.view(target).doc ==> {
            &&& utf8_len(b.docs@[k].text@) <= usize::MAX ==> (r is None <==> preview_find_spec(
                pattern,
                b.docs@[k].text@,
                reverse,
                origin as int,
            ) is None)
            &&& r matches Some(m) ==> preview_find_spec(pattern, b.docs@[k].text@, reverse, origin as int)
                == Some((m.0 as int, m.1 as int))
        }
}

impl BufferManager {
    /// The preview match in the document of view `target`.
    pub fn preview_match(&self, target: ViewId, sr: &SearchRegex, reverse: bool, origin: usize) -> (r: Option<(usize, usize)>)
        requires
            self.wf(),
            origin < usize::MAX,
        ensures
            preview_match_ok(*self, target, sr.pattern_spec(), reverse, origin, r),
    {
        match self.index_of(target) {
            None => None,
            Some(i) => {
                proof {
                    self.lemma_view_at(i as int);
                    assert(self.has_doc(self.views@[i as int].doc));
                }
                match self.doc_index_of(self.views[i].doc) {
                    None => {
                        proof {
                            assert(false);
                        }
                        None
                    },
                    Some(k) => {
                        proof {
                            assert forall|k2: int|
                                0 <= k2 < self.docs@.len() && self.docs@[k2].id == self.views@[i as int].doc implies k2
                                == k by {
                                if k2 < k {
                                    assert(self.docs@[k2].id != self.docs@[k as int].id);
                                } else if k < k2 {
                                    assert(self.docs@[k as int].id != self.docs@[k2].id);
                                }
                            }
                        }
                        preview_find(&self.docs[k].text, sr, reverse, origin)
                    },
                }
            },
        }
    }
}

/// The preview state with no previewed match.
pub open spec fn without_preview(rt: SearchPreview) -> SearchPreview {
    SearchPreview { last_preview: None, ..rt }
}

/// No redraw, no notification, no reveal.
pub open spec fn quiet(u: PreviewUpdate) -> bool {
    !u.needs_redraw && u.notify is None && !u.reveal
}

impl Editor {
    /// Updates the preview of search prompt `rt` for the prompt's current
    /// text `raw` (trailing newlines ignored). An unchanged input does
    /// nothing. A blank input puts the target view back at its origin and
    /// forgets the pattern. A pattern that does not compile puts the view
    /// back and reports its error once. Otherwise the view jumps to the
    /// preview match, or goes back to its origin when the match is lost.
    pub fn update_search_prompt_preview(&mut self, rt: &mut SearchPreview, raw: &String) -> (u: PreviewUpdate)
        requires
            old(self).core.buffers.wf(),
            old(rt).origin_cursor < usize::MAX,
        ensures
            final(self).core.buffers.wf(),
            final(self).core.undo_manager == old(self).core.undo_manager,
            final(self).core.workspace == old(self).core.workspace,
            final(self).windows == old(self).windows,
            final(self).focus == old(self).focus,
            final(rt).target == old(rt).target,
            final(rt).reverse == old(rt).reverse,
            final(rt).origin_cursor == old(rt).origin_cursor,
            final(rt).origin_selection == old(rt).origin_selection,
            trim_newlines(raw@) == old(rt).last_input@ ==> quiet(u) && final(self).core.buffers
                == old(self).core.buffers && final(rt).last_preview == old(rt).last_preview
                && final(rt).last_error == old(rt).last_error && final(rt).cached == old(rt).cached,
            trim_newlines(raw@) != old(rt).last_input@ ==> final(rt).last_input@ == trim_newlines(raw@),
            trim_newlines(raw@) != old(rt).last_input@ && blank(trim_newlines(raw@)) ==> {
                &&& u.needs_redraw && u.notify is None && !u.reveal
                &&& view_set(
                    old(self).core.buffers,
                    final(self).core.buffers,
                    old(rt).target,
                    old(rt).origin_cursor,
                    old(rt).origin_selection.ranges@,
                    old(rt).origin_selection.primary_index,
                )
                &&& final(rt).last_preview is None
                &&& final(rt).last_error is None
                &&& final(rt).cached is None
            },
            trim_newlines(raw@) != old(rt).last_input@ && !blank(trim_newlines(raw@)) ==> {
                let hit = old(rt).cached matches Some(c) && c.pattern_spec() == trim_newlines(raw@);
                &&& (hit || regex_compiles(trim_newlines(raw@))) ==> (final(rt).cached matches Some(c)
                    && c.pattern_spec() == trim_newlines(raw@))
                &&& !hit && !regex_compiles(trim_newlines(raw@)) ==> {
                    &&& u.needs_redraw
                    &&& final(rt).cached == old(rt).cached
                    &&& (u.notify is Some <==> !(old(rt).last_error matches Some(e) && e@ == regex_error_message(
                        trim_newlines(raw@),
                    )))
                    &&& u.notify matches Some(m) ==> m@ == regex_error_message(trim_newlines(raw@))
                    &&& u.notify matches Some(m) ==> final(rt).last_error == Some(m) && old(rt).last_error != Some(m)
                        && !u.reveal && final(rt).last_preview is None && view_set(
                        old(self).core.buffers,
                        final(self).core.buffers,
                        old(rt).target,
                        old(rt).origin_cursor,
                        old(rt).origin_selection.ranges@,
                        old(rt).origin_selection.primary_index,
                    )
                    &&& u.notify is None ==> old(rt).last_error is Some && final(rt).last_error == old(rt).last_error
                    &&& u.notify is None && old(rt).cached is None ==> !u.reveal && final(rt).last_preview is None
                        && view_set(
                        old(self).core.buffers,
                        final(self).core.buffers,
                        old(rt).target,
                        old(rt).origin_cursor,
                        old(rt).origin_selection.ranges@,
                        old(rt).origin_selection.primary_index,
                    )
                    &&& u.notify is None && old(rt).cached is Some ==> exists|b: BufferManager|
                        view_set(
                            old(self).core.buffers,
                            b,
                            old(rt).target,
                            old(rt).origin_cursor,
                            old(rt).origin_selection.ranges@,
                            old(rt).origin_selection.primary_index,
                        ) && #[trigger] preview_post(
                            b,
                            final(self).core.buffers,
                            without_preview(*old(rt)),
                            *final(rt),
                            old(rt).cached->0.pattern_spec(),
                            u,
                            true,
                        )
                }
                &&& (hit || regex_compiles(trim_newlines(raw@))) ==> preview_post(
                    old(self).core.buffers,
                    final(self).core.buffers,
                    *old(rt),
                    *final(rt),
                    trim_newlines(raw@),
                    u,
                    false,
                )
            },
    {
        let input = trim_trailing_newlines(raw);
        if input == rt.last_input {
            return PreviewUpdate { needs_redraw: false, notify: None, reveal: false };
        }
        rt.last_input = input.clone();
        if is_blank(&input) {
            let sel = rt.origin_selection.duplicate();
            self.core.buffers.set_view_cursor_selection(rt.target, rt.origin_cursor, sel);
            rt.last_preview = None;
            rt.last_error = None;
            rt.cached = None;
            return PreviewUpdate { needs_redraw: true, notify: None, reveal: false };
        }
        let mut needs_redraw = false;
        let ghost mut reset_buffers = self.core.buffers;
        let hit = match &rt.cached {
            Some(c) => *c.pattern() == input,
            None => false,
        };
        if !hit {
            match SearchRegex::compile(&input) {
                Ok(sr) => {
                    rt.cached = Some(sr);
                },
                Err(msg) => {
                    let is_new = match &rt.last_error {
                        Some(e) => *e != msg,
                        None => true,
                    };
                    let sel = rt.origin_selection.duplicate();
                    self.core.buffers.set_view_cursor_selection(rt.target, rt.origin_cursor, sel);
                    rt.last_preview = None;
                    proof {
                        reset_buffers = self.core.buffers;
                    }
                    needs_redraw = true;
                    if is_new {
                        rt.last_error = Some(msg.clone());
                        return PreviewUpdate { needs_redraw: true, notify: Some(msg), reveal: false };
                    }
                },
            }
        }
        let found = match &rt.cached {
            None => {
                return PreviewUpdate { needs_redraw, notify: None, reveal: false };
            },
            Some(sr) => self.core.buffers.preview_match(rt.target, sr, rt.reverse, rt.origin_cursor),
        };
        let ghost rt_mid = *rt;
        let u = self.apply_preview_match(rt, found, needs_redraw);
        proof {
            if !hit && !regex_compiles(input@) {
                let spec_rt = without_preview(*old(rt));
                let r = choose|r: Option<(usize, usize)>|
                    #[trigger] preview_match_ok(reset_buffers, rt_mid.target, rt_mid.cached->0.pattern_spec(), rt_mid.reverse, rt_mid.origin_cursor, r)
                    && match r {
                        Some(m) => if rt_mid.last_preview != Some(m) {
                            &&& view_set(reset_buffers, self.core.buffers, rt_mid.target, m.0, seq![Range { anchor: m.0, head: m.1 }], 0)
                            &&& rt.last_preview == Some(m)
                            &&& u.needs_redraw && u.reveal && u.notify is None
                        } else {
                            &&& self.core.buffers == reset_buffers
                            &&& rt.last_preview == rt_mid.last_preview
                            &&& u.needs_redraw == needs_redraw && !u.reveal && u.notify is None
                        },
                        None => if rt_mid.last_preview is Some {
                            &&& view_set(reset_buffers, self.core.buffers, rt_mid.target, rt_mid.origin_cursor,
                                rt_mid.origin_selection.ranges@, rt_mid.origin_selection.primary_index)
                            &&& rt.last_preview is None
                            &&& u.needs_redraw && !u.reveal && u.notify is None
                        } else {
                            &&& self.core.buffers == reset_buffers
                            &&& rt.last_preview is None
                            &&& u.needs_redraw == needs_redraw && !u.reveal && u.notify is None
                        },
                    };
                assert(preview_match_ok(reset_buffers, spec_rt.target, old(rt).cached->0.pattern_spec(), spec_rt.reverse, spec_rt.origin_cursor, r));
                assert(preview_post(reset_buffers, self.core.buffers, spec_rt, *rt, old(rt).cached->0.pattern_spec(), u, true));
            }
        }
        u
    }

    /// Moves the target view to the found match, or back to its origin when
    /// the match is lost; `redraw` carries a redraw already needed.
    fn apply_preview_match(&mut self, rt: &mut SearchPreview, found: Option<(usize, usize)>, redraw: bool) -> (u: PreviewUpdate)
        requires
            old(self).core.buffers.wf(),
            old(rt).cached is Some,
            preview_match_ok(
                old(self).core.buffers,
                old(rt).target,
                old(rt).cached->0.pattern_spec(),
                old(rt).reverse,
                old(rt).origin_cursor,
                found,
            ),
        ensures
            final(self).core.buffers.wf(),
            final(self).core.undo_manager == old(self).core.undo_manager,
            final(self).core.workspace == old(self).core.workspace,
            final(self).windows == old(self).windows,
            final(self).focus == old(self).focus,
            final(rt).target == old(rt).target,
            final(rt).reverse == old(rt).reverse,
            final(rt).origin_cursor == old(rt).origin_cursor,
            final(rt).origin_selection == old(rt).origin_selection,
            final(rt).last_input == old(rt).last_input,
            final(rt).last_error == old(rt).last_error,
            final(rt).cached == old(rt).cached,
            preview_post(
                old(self).core.buffers,
                final(self).core.buffers,
                *old(rt),
                *final(rt),
                old(rt).cached->0.pattern_spec(),
                u,
                redraw,
            ),
    {
        match found {
            Some(m) => {
                let same = match rt.last_preview {
                    Some(p) => p.0 == m.0 && p.1 == m.1,
                    None => false,
                };
                if !same {
                    let sel = Selection::single(m.0, m.1);
                    self.core.buffers.set_view_cursor_selection(rt.target, m.0, sel);
                    rt.last_preview = Some(m);
                    PreviewUpdate { needs_redraw: true, notify: None, reveal: true }
                } else {
                    PreviewUpdate { needs_redraw: redraw, notify: None, reveal: false }
                }
            },
            None => {
                if rt.last_preview.is_some() {
                    let sel = rt.origin_selection.duplicate();
                    self.core.buffers.set_view_cursor_selection(rt.target, rt.origin_cursor, sel);
                    rt.last_preview = None;
                    PreviewUpdate { needs_redraw: true, notify: None, reveal: false }
                } else {
                    PreviewUpdate { needs_redraw: redraw, notify: None, reveal: false }
                }
            },
        }
    }
}

/// The effect of a search with `pattern` on the target view and the
/// preview state: a new match moves the view there and asks for a reveal;
/// losing the match puts the view back at its origin; otherwise nothing
/// moves and a redraw is asked only if `redraw` already was.
pub open spec fn preview_post(
    b0: BufferManager,
    b1: BufferManager,
    rt0: SearchPreview,
    rt1: SearchPreview,
    pattern: Seq<char>,
    u: PreviewUpdate,
    redraw: bool,
) -> bool {
    exists|r: Option<(usize, usize)>|
        #[trigger] preview_match_ok(b0, rt0.target, pattern, rt0.reverse, rt0.origin_cursor, r) && match r {
            Some(m) => if rt0.last_preview != Some(m) {
                &&& view_set(b0, b1, rt0.target, m.0, seq![Range { anchor: m.0, head: m.1 }], 0)
                &&& rt1.last_preview == Some(m)
                &&& u.needs_redraw && u.reveal && u.notify is None
            } else {
                &&& b1 == b0
                &&& rt1.last_preview == rt0.last_preview
                &&& u.needs_redraw == redraw && !u.reveal && u.notify is None
            },
            None => if rt0.last_preview is Some {
                &&& view_set(
                    b0,
                    b1,
                    rt0.target,
                    rt0.origin_cursor,
                    rt0.origin_selection.ranges@,
                    rt0.origin_selection.primary_index,
                )
                &&& rt1.last_preview is None
                &&& u.needs_redraw && !u.reveal && u.notify is None
            } else {
                &&& b1 == b0
                &&& rt1.last_preview is None
                &&& u.needs_redraw == redraw && !u.reveal && u.notify is None
            },
        }
}

} // verus!
