//! The prompt overlay: a one-line input in a sticky floating window, used to
//! search the focused view or to name the target of a rename.

use vstd::prelude::*;

use crate::buffer::{Buffer, BufferManager, InputMode};
use crate::editor::{Editor, FloatingWindow};
use crate::focus::FocusTarget;
use crate::ids::{DocumentId, ViewId, WindowId};
use crate::search_preview::SearchPreview;
use crate::selection::{Range, Selection};
use crate::strings::owned;
use crate::chars::chars_of;
use crate::text::{slice_of, word_at, word_at_cursor};
use crate::chars::{char_whitespace, is_whitespace, string_from_chars};
use crate::nu_ctx::{trim_end, trim_end_chars};
use crate::search::{find_next, find_next_spec, find_prev, last_match_before, regex_compiles, regex_error_message, utf8_len, SearchRegex};
use crate::search_preview::utf8_len_checked;

verus! {

/// What a prompt's input is for.
#[derive(Debug, Clone, Copy, PartialEq, Eq, Structural)]
pub enum PromptKind {
    /// The new name for the symbol at `position` in `target_buffer`.
    Rename { target_buffer: ViewId, position: usize },
    /// A pattern searched in `target_buffer`.
    Search { target_buffer: ViewId, reverse: bool },
}

/// An open prompt: its window, its input view and its purpose.
#[derive(Debug, Clone, Copy, PartialEq, Eq, Structural)]
pub struct Prompt {
    pub window_id: WindowId,
    pub buffer_id: ViewId,
    pub kind: PromptKind,
}

/// The open prompt with, for searches, the live-preview state.
#[derive(Debug)]
pub struct PromptState {
    pub prompt: Prompt,
    pub search: Option<SearchPreview>,
}

/// The view a prompt works on.
pub open spec fn prompt_target(k: PromptKind) -> ViewId {
    match k {
        PromptKind::Rename { target_buffer, .. } => target_buffer,
        PromptKind::Search { target_buffer, .. } => target_buffer,
    }
}

impl BufferManager {
    /// Removes a document no view refers to.
    pub fn remove_document(&mut self, id: DocumentId)
        requires
            old(self).wf(),
            forall|i: int| 0 <= i < old(self).views@.len() ==> #[trigger] old(self).views@[i].doc != id,
        ensures
            final(self).wf(),
            !final(self).has_doc(id),
            forall|d: DocumentId| d != id ==> (final(self).has_doc(d) <==> old(self).has_doc(d)),
            forall|d: DocumentId| d != id && old(self).has_doc(d) ==> final(self).doc_spec(d) == old(self).doc_spec(d),
            final(self).views == old(self).views,
            final(self).focused == old(self).focused,
            final(self).next_view == old(self).next_view,
            final(self).next_doc == old(self).next_doc,
    {
        match self.doc_index_of(id) {
            None => {},
            Some(k) => {
                let ghost o = old(self).docs@;
                let _ = self.docs.remove(k);
                proof {
                    assert forall|a: int| 0 <= a < o.len() && o[a].id == id implies a == k by {
                        if a < k {
                            assert(o[a].id != o[k as int].id);
                        } else if k < a {
                            assert(o[k as int].id != o[a].id);
                        }
                    }
                    assert forall|a: int, b: int| 0 <= a < b < self.docs@.len() implies self.docs@[a].id
                        != self.docs@[b].id by {
                        let a2 = if a < k { a } else { a + 1 };
                        let b2 = if b < k { b } else { b + 1 };
                        assert(o[a2].id != o[b2].id);
                    }
                    assert forall|a: int| 0 <= a < self.docs@.len() implies #[trigger] self.docs@[a].id.0
                        < self.next_doc by {
                        let a2 = if a < k { a } else { a + 1 };
                        assert(o[a2].id.0 < self.next_doc);
                    }
                    assert forall|d: DocumentId| d != id implies (self.has_doc(d) <==> old(self).has_doc(d)) by {
                        if old(self).has_doc(d) {
                            let c = choose|c: int| 0 <= c < o.len() && o[c].id == d;
                            if c < k {
                                assert(self.docs@[c].id == d);
                            } else {
                                assert(c != k);
                                assert(self.docs@[c - 1].id == d);
                            }
                        }
                        if self.has_doc(d) {
                            let c = choose|c: int| 0 <= c < self.docs@.len() && self.docs@[c].id == d;
                            let c2 = if c < k { c } else { c + 1 };
                            assert(o[c2].id == d);
                        }
                    }
                    assert forall|d: DocumentId| d != id && old(self).has_doc(d) implies self.doc_spec(d)
                        == old(self).doc_spec(d) by {
                        let c = choose|c: int| 0 <= c < o.len() && o[c].id == d;
                        let n = choose|n: int| 0 <= n < self.docs@.len() && self.docs@[n].id == d;
                        let n2 = if n < k { n } else { n + 1 };
                        assert(o[n2].id == d);
                        if c != n2 {
                            if c < n2 {
                                assert(o[c].id != o[n2].id);
                            } else {
                                assert(o[n2].id != o[c].id);
                            }
                        }
                    }
                    assert forall|a: int| 0 <= a < self.views@.len() implies self.has_doc(
                        #[trigger] self.views@[a].doc,
                    ) by {
                        assert(old(self).has_doc(old(self).views@[a].doc));
                        assert(old(self).views@[a].doc != id);
                    }
                    if self.has_doc(id) {
                        let c = choose|c: int| 0 <= c < self.docs@.len() && self.docs@[c].id == id;
                        let c2 = if c < k { c } else { c + 1 };
                        assert(o[c2].id == id);
                    }
                }
            },
        }
    }

    /// Removes a view, and its document when no other view shows it.
    pub fn remove_buffer(&mut self, id: ViewId)
        requires
            old(self).wf(),
        ensures
            final(self).wf(),
            final(self).views@ == old(self).views@.filter(|b: crate::buffer::Buffer| b.id != id),
            !final(self).has_view(id),
            forall|v: ViewId| v != id ==> (final(self).has_view(v) <==> old(self).has_view(v)),
            forall|v: ViewId| v != id && old(self).has_view(v) ==> final(self).view(v) == old(self).view(v),
            forall|d: DocumentId|
                final(self).has_doc(d) <==> (old(self).has_doc(d) && (d != old(self).view(id).doc
                    || !old(self).has_view(id) || exists|i: int|
                    0 <= i < final(self).views@.len() && final(self).views@[i].doc == d)),
            forall|d: DocumentId| final(self).has_doc(d) ==> final(self).doc_spec(d) == old(self).doc_spec(d),
            final(self).focused == old(self).focused,
            final(self).next_view == old(self).next_view,
            final(self).next_doc == old(self).next_doc,
    {
        match self.remove_buffer_raw(id) {
            None => {},
            Some(b) => {
                if self.any_buffer_for_doc(b.doc).is_none() {
                    proof {
                        assert forall|i: int| 0 <= i < self.views@.len() implies #[trigger] self.views@[i].doc
                            != b.doc by {
                            if self.views@[i].doc == b.doc {
                                assert(exists|j: int| 0 <= j < self.views@.len() && self.views@[j].doc == b.doc);
                            }
                        }
                    }
                    self.remove_document(b.doc);
                }
            },
        }
    }
}

/// `e1` is `e0` with a prompt window opened: a new view (the next view id)
/// on a new pathless document holding `text`, with the cursor after the text
/// and the whole text selected, shown in a new dismiss-on-blur floating
/// window (the next window id) that has focus and is sticky.
pub open spec fn prompt_window_opened(e0: Editor, e1: Editor, text: Seq<char>) -> bool {
    let p = ViewId(e0.core.buffers.next_view);
    let w = WindowId(e0.windows.next_window);
    let b0 = e0.core.buffers;
    let b1 = e1.core.buffers;
    &&& e1.windows.base == e0.windows.base
    &&& e1.windows.floating@ == e0.windows.floating@.push(FloatingWindow { id: w, buffer: p, dismiss_on_blur: true })
    &&& e1.windows.next_window == e0.windows.next_window + 1
    &&& b1.views@.len() == b0.views@.len() + 1
    &&& b1.views@.drop_last() == b0.views@
    &&& b1.views@.last().id == p
    &&& b1.views@.last().doc == DocumentId(b0.next_doc)
    &&& b1.views@.last().cursor == text.len()
    &&& b1.views@.last().selection.ranges@ == seq![Range { anchor: 0, head: text.len() as usize }]
    &&& b1.views@.last().selection.primary_index == 0
    &&& b1.views@.last().mode == InputMode::Insert
    &&& b1.docs@.drop_last() == b0.docs@
    &&& b1.docs@.last().id == DocumentId(b0.next_doc)
    &&& b1.docs@.last().text@ == text
    &&& b1.docs@.last().path is None
    &&& b1.focused == b0.focused
    &&& b1.next_view == b0.next_view + 1
    &&& b1.next_doc == b0.next_doc + 1
    &&& e1.core.workspace == e0.core.workspace
    &&& e1.core.undo_manager == e0.core.undo_manager
    &&& e1.focus == (FocusTarget::Buffer { window: w, buffer: p })
    &&& e1.focus_epoch == e0.focus_epoch
    &&& e1.frame.sticky_views@ == e0.frame.sticky_views@.push(p)
    &&& e1.frame.needs_redraw
    &&& e1.frame.pending_quit == e0.frame.pending_quit
    &&& e1.panels == e0.panels
    &&& e1.focused_panel == e0.focused_panel
    &&& e1.overlay_open == e0.overlay_open
    &&& e1.loads == e0.loads
    &&& e1.viewport == e0.viewport
}

/// Whether a prompt may open: none is open, the terminal size is known and
/// the focused view exists.
pub open spec fn prompt_can_open(e: Editor) -> bool {
    &&& e.prompt is None
    &&& e.viewport.width is Some
    &&& e.viewport.height is Some
    &&& e.core.buffers.has_view(e.focused_view_spec())
}


/// Where a closing search prompt puts its target view back: its origin,
/// when asked to and the prompt has one.
pub open spec fn origin_state(st: PromptState, restore_origin: bool) -> Option<(usize, Seq<Range>, usize)> {
    if restore_origin && st.prompt.kind is Search && st.search is Some {
        Some(
            (
                st.search->0.origin_cursor,
                st.search->0.origin_selection.ranges@,
                st.search->0.origin_selection.primary_index,
            ),
        )
    } else {
        None
    }
}

/// `e1` is `e0` with its prompt (if any) closed: the prompt's view and
/// window are gone, it is no longer sticky, and, when its target is a live
/// view of the base layout, focus is on the target, other views are
/// untouched, and the target is back in Normal mode and ends at `place`
/// (or as it was).
pub open spec fn prompt_closed(e0: Editor, e1: Editor, place: Option<(usize, Seq<Range>, usize)>) -> bool {
    prompt_closed_recording(e0, e1, place, None)
}

/// The last search a view keeps: `record` when given, else `last`.
pub open spec fn kept_search(last: Option<(String, bool)>, record: Option<(String, bool)>) -> Option<(String, bool)> {
    if record is Some { record } else { last }
}

/// `prompt_closed`, with `record`, when given, kept as the target view's
/// last search.
pub open spec fn prompt_closed_recording(
    e0: Editor,
    e1: Editor,
    place: Option<(usize, Seq<Range>, usize)>,
    record: Option<(String, bool)>,
) -> bool {
    &&& e1.wf()
    &&& e1.prompt is None
    &&& e0.prompt is None ==> e1 == e0
    &&& e0.prompt is Some ==> {
        let st = e0.prompt->0;
        let pid = st.prompt.buffer_id;
        let target = prompt_target(st.prompt.kind);
        let live = target != pid && e0.core.buffers.has_view(target) && e0.windows.base.layout@.contains(target);
        &&& e0.core.buffers.has_view(pid) ==> !e1.core.buffers.has_view(pid)
        &&& forall|i: int| 0 <= i < e1.windows.floating@.len()
            ==> #[trigger] e1.windows.floating@[i].id != st.prompt.window_id
        &&& !e1.frame.sticky_views@.contains(pid)
        &&& e1.frame.needs_redraw
        &&& live ==> e1.focus == (FocusTarget::Buffer { window: e0.windows.base.id, buffer: target })
        &&& live ==> forall|v: ViewId|
            v != pid && v != target && #[trigger] e0.core.buffers.has_view(v) ==> e1.core.buffers.has_view(v)
                && e1.core.buffers.view(v) == e0.core.buffers.view(v)
        &&& live ==> e1.core.buffers.has_view(target)
        &&& live ==> e1.core.buffers.view(target).mode == InputMode::Normal
        &&& live ==> e1.core.buffers.view(target).last_search == kept_search(
            e0.core.buffers.view(target).last_search,
            record,
        )
        &&& live && place is Some ==> forall|m: int|
            0 <= m < e1.core.buffers.views@.len() && #[trigger] e1.core.buffers.views@[m].id == target
                ==> e1.core.buffers.views@[m].cursor == place.unwrap().0
                && e1.core.buffers.views@[m].selection.ranges@ == place.unwrap().1
                && e1.core.buffers.views@[m].selection.primary_index == place.unwrap().2
        &&& live && place is None ==> e1.core.buffers.view(target) == (Buffer {
            mode: InputMode::Normal,
            last_search: kept_search(e0.core.buffers.view(target).last_search, record),
            ..e0.core.buffers.view(target)
        })
    }
}


/// `s` without leading whitespace.
pub open spec fn trim_start_ws(s: Seq<char>) -> Seq<char>
    decreases s.len(),
{
    if s.len() > 0 && char_whitespace(s[0]) {
        trim_start_ws(s.drop_first())
    } else {
        s
    }
}

/// `s` without trailing whitespace.
pub open spec fn trim_end_ws(s: Seq<char>) -> Seq<char>
    decreases s.len(),
{
    if s.len() > 0 && char_whitespace(s.last()) {
        trim_end_ws(s.drop_last())
    } else {
        s
    }
}

/// What a prompt submits: its text without trailing newlines, then without
/// surrounding whitespace.
pub open spec fn submitted(raw: Seq<char>) -> Seq<char> {
    trim_end_ws(trim_start_ws(trim_end(raw, '\n')))
}

/// The text of view `pid`'s document (empty when the view is gone).
pub open spec fn prompt_text(e: Editor, pid: ViewId) -> Seq<char> {
    if e.core.buffers.has_view(pid) {
        e.core.buffers.doc_spec(e.core.buffers.view(pid).doc).text@
    } else {
        Seq::empty()
    }
}

/// The match a confirmed search selects: the last one starting before the
/// origin (reverse), else the first one starting after it; none when the
/// text's encoding does not fit in memory.
pub open spec fn prompt_search_spec(pattern: Seq<char>, text: Seq<char>, reverse: bool, origin: int) -> Option<(int, int)> {
    if utf8_len(text) > usize::MAX {
        None
    } else if reverse {
        last_match_before(pattern, text, 0, origin, None)
    } else {
        find_next_spec(pattern, text, origin + 1)
    }
}

/// `v` without surrounding whitespace.
pub fn trim_whitespace(v: &Vec<char>) -> (r: Vec<char>)
    ensures
        r@ == trim_end_ws(trim_start_ws(v@)),
{
    let n = v.len();
    let mut i: usize = 0;
    proof {
        assert(v@.subrange(0, n as int) =~= v@);
    }
    while i < n && is_whitespace(v[i])
        invariant
            i <= n == v@.len(),
            trim_start_ws(v@.subrange(i as int, n as int)) == trim_start_ws(v@),
        decreases n - i,
    {
        proof {
            assert(v@.subrange(i as int, n as int).drop_first() =~= v@.subrange(i + 1, n as int));
        }
        i = i + 1;
    }
    proof {
        assert(v@.subrange(0, n as int) =~= v@);
    }
    let mut j: usize = n;
    while j > i && is_whitespace(v[j - 1])
        invariant
            i <= j <= n == v@.len(),
            trim_start_ws(v@) == v@.subrange(i as int, n as int),
            trim_end_ws(v@.subrange(i as int, j as int)) == trim_end_ws(trim_start_ws(v@)),
        decreases j,
    {
        proof {
            assert(v@.subrange(i as int, j as int).drop_last() =~= v@.subrange(i as int, j - 1));
        }
        j = j - 1;
    }
    slice_of(v, i, j)
}

/// What confirming a prompt led to.
#[derive(Debug)]
pub enum PromptOutcome {
    /// No prompt was open.
    NotOpen,
    /// The input was empty; the prompt closed (a search going back to its
    /// origin).
    Cancelled,
    /// Rename the symbol at `position` of `target_buffer` to `new_name`.
    Rename { target_buffer: ViewId, position: usize, new_name: String },
    /// The match is selected; `pattern` is the last search.
    Found { pattern: String, reverse: bool },
    /// Nothing matched; `pattern` is the last search.
    NotFound { pattern: String, reverse: bool },
    /// The pattern does not compile; the regex crate's message.
    RegexError(String),
}

/// Whether two char lists are equal.
pub fn same_chars(a: &Vec<char>, b: &Vec<char>) -> (r: bool)
    ensures
        r == (a@ == b@),
{
    if a.len() != b.len() {
        return false;
    }
    let mut i: usize = 0;
    while i < a.len()
        invariant
            i <= a@.len() == b@.len(),
            forall|j: int| 0 <= j < i ==> a@[j] == b@[j],
        decreases a@.len() - i,
    {
        if a[i] != b[i] {
            return false;
        }
        i = i + 1;
    }
    proof {
        assert(a@ =~= b@);
    }
    true
}

/// The open prompt still holds `expected` (up to trailing newlines): the
/// user has not edited it.
pub open spec fn prompt_untouched(e: Editor, expected: Seq<char>) -> bool {
    &&& e.prompt is Some
    &&& e.core.buffers.has_view(e.prompt->0.prompt.buffer_id)
    &&& trim_end(prompt_text(e, e.prompt->0.prompt.buffer_id), '\n') == expected
}

/// `e1` is `e0` with a search prompt opened on its focused view (see
/// `prompt_window_opened`), remembering where that view's cursor and
/// selection were.
pub open spec fn search_prompt_opened(e0: Editor, e1: Editor, reverse: bool) -> bool {
        let target = e0.focused_view_spec();
        let tv = e0.core.buffers.view(target);
        &&& prompt_window_opened(e0, e1, Seq::empty())
        &&& e1.focus_valid()
        &&& e1.prompt is Some
        &&& e1.prompt->0.prompt == (Prompt {
            window_id: WindowId(e0.windows.next_window),
            buffer_id: ViewId(e0.core.buffers.next_view),
            kind: PromptKind::Search { target_buffer: target, reverse },
        })
        &&& e1.prompt->0.search is Some
        &&& {
            let rt = e1.prompt->0.search->0;
            &&& rt.target == target
            &&& rt.reverse == reverse
            &&& rt.origin_cursor == tv.cursor
            &&& rt.origin_selection.ranges@ == tv.selection.ranges@
            &&& rt.origin_selection.primary_index == tv.selection.primary_index
            &&& rt.last_input@.len() == 0
            &&& rt.last_preview is None
            &&& rt.last_error is None
            &&& rt.cached is None
        }
    }

impl Editor {
    /// Whether a prompt is open.
    pub fn prompt_is_open(&self) -> (b: bool)
        ensures
            b == self.prompt is Some,
    {
        self.prompt.is_some()
    }

    /// Opens the prompt window holding `text` (see `prompt_window_opened`)
    /// and returns its window and view.
    fn open_prompt_window(&mut self, text: Vec<char>) -> (r: (WindowId, ViewId))
        requires
            old(self).wf(),
            old(self).core.buffers.next_view < u64::MAX,
            old(self).core.buffers.next_doc < u64::MAX,
            old(self).windows.next_window < u64::MAX,
        ensures
            final(self).wf(),
            prompt_window_opened(*old(self), *final(self), text@),
            r.0 == WindowId(old(self).windows.next_window),
            r.1 == ViewId(old(self).core.buffers.next_view),
            final(self).prompt == old(self).prompt,
            final(self).focus_valid(),
    {
        let end = text.len();
        let p = self.core.buffers.open_document(text, None);
        let ghost mid = self.core.buffers;
        self.core.buffers.set_view_cursor_selection(p, end, Selection::single(0, end));
        proof {
            let n = mid.views@.len() - 1;
            assert(mid.views@[n].id == p);
            assert forall|m: int| 0 <= m < mid.views@.len() && mid.views@[m].id == p implies m == n by {
                if m < n {
                    assert(mid.views@[m].id != mid.views@[n].id);
                }
            }
            assert(self.core.buffers.views@.drop_last() =~= mid.views@.drop_last());
            assert(self.core.buffers.has_view(p)) by {
                assert(self.core.buffers.views@[n].id == p);
            }
        }
        let ghost placed = self.core.buffers;
        self.core.buffers.set_view_mode(p, InputMode::Insert);
        proof {
            let n = placed.views@.len() - 1;
            assert(placed.views@[n].id == p);
            assert forall|m: int| 0 <= m < n implies placed.views@[m].id != p by {
                assert(placed.views@[m].id != placed.views@[n].id);
            }
            assert(self.core.buffers.views@[n] == (Buffer { mode: InputMode::Insert, ..placed.views@[n] }));
            assert(self.core.buffers.views@.drop_last() =~= placed.views@.drop_last());
            assert(self.core.buffers.has_view(p)) by {
                assert(self.core.buffers.views@[n].id == p);
            }
        }
        let w = self.windows.create_floating(p, true);
        self.frame.sticky_views.push(p);
        self.focus = FocusTarget::Buffer { window: w, buffer: p };
        self.frame.needs_redraw = true;
        proof {
            assert(self.windows.floating@[self.windows.floating@.len() - 1].id == w);
        }
        (w, p)
    }

    /// Opens a search prompt on the focused view (`reverse` searches
    /// backwards from the cursor). Refused while a prompt is open, before
    /// the terminal size is known, or when the focused view is gone.
    pub fn open_search_prompt(&mut self, reverse: bool) -> (opened: bool)
        requires
            old(self).wf(),
            old(self).core.buffers.next_view < u64::MAX,
            old(self).core.buffers.next_doc < u64::MAX,
            old(self).windows.next_window < u64::MAX,
        ensures
            final(self).wf(),
            opened == prompt_can_open(*old(self)),
            !opened ==> *final(self) == *old(self),
            opened ==> search_prompt_opened(*old(self), *final(self), reverse),
    {
        if self.prompt.is_some() || self.viewport.width.is_none() || self.viewport.height.is_none() {
            return false;
        }
        let target = self.focused_view();
        let (origin_cursor, origin_selection) = match self.core.buffers.get_buffer(target) {
            None => {
                return false;
            },
            Some(b) => (b.cursor, b.selection.duplicate()),
        };
        let (w, p) = self.open_prompt_window(Vec::new());
        self.prompt = Some(
            PromptState {
                prompt: Prompt { window_id: w, buffer_id: p, kind: PromptKind::Search { target_buffer: target, reverse } },
                search: Some(SearchPreview::new(target, reverse, origin_cursor, origin_selection)),
            },
        );
        true
    }

    /// Opens a rename prompt on the focused view, holding the word at its
    /// cursor (selected). `rename_supported` is the language server's answer
    /// for that view. Refused as a search prompt is, and, with the warning
    /// to show, when renaming is not supported.
    pub fn open_rename_prompt(&mut self, rename_supported: bool) -> (r: (bool, Option<String>))
        requires
            old(self).wf(),
            old(self).core.buffers.next_view < u64::MAX,
            old(self).core.buffers.next_doc < u64::MAX,
            old(self).windows.next_window < u64::MAX,
        ensures
            final(self).wf(),
            r.0 == (prompt_can_open(*old(self)) && rename_supported),
            r.1 is Some <==> (prompt_can_open(*old(self)) && !rename_supported),
            r.1 matches Some(m) ==> m@ == "Rename not supported for this buffer"@,
            !r.0 ==> *final(self) == *old(self),
            r.0 ==> {
                let target = old(self).focused_view_spec();
                let tv = old(self).core.buffers.view(target);
                let text = old(self).core.buffers.doc_spec(tv.doc).text@;
                &&& prompt_window_opened(*old(self), *final(self), word_at(text, tv.cursor as int))
                &&& final(self).focus_valid()
                &&& final(self).prompt is Some
                &&& final(self).prompt->0.prompt == (Prompt {
                    window_id: WindowId(old(self).windows.next_window),
                    buffer_id: ViewId(old(self).core.buffers.next_view),
                    kind: PromptKind::Rename { target_buffer: target, position: tv.cursor },
                })
                &&& final(self).prompt->0.search is None
            },
    {
        if self.prompt.is_some() || self.viewport.width.is_none() || self.viewport.height.is_none() {
            return (false, None);
        }
        let target = self.focused_view();
        let (cursor, word) = match self.core.buffers.get_buffer(target) {
            None => {
                return (false, None);
            },
            Some(b) => {
                proof {
                    let i = choose|i: int|
                        0 <= i < self.core.buffers.views@.len() && self.core.buffers.views@[i].id == target;
                    self.core.buffers.lemma_view_at(i);
                    assert(self.core.buffers.has_doc(self.core.buffers.views@[i].doc));
                }
                match self.core.buffers.get_document(b.doc) {
                    None => {
                        return (false, None);
                    },
                    Some(d) => (b.cursor, word_at_cursor(&d.text, b.cursor)),
                }
            },
        };
        if !rename_supported {
            proof {
                reveal_strlit("Rename not supported for this buffer");
            }
            return (false, Some(owned("Rename not supported for this buffer")));
        }
        let (w, p) = self.open_prompt_window(chars_of(word.as_str()));
        self.prompt = Some(
            PromptState {
                prompt: Prompt { window_id: w, buffer_id: p, kind: PromptKind::Rename { target_buffer: target, position: cursor } },
                search: None,
            },
        );
        (true, None)
    }

    /// Closes the open prompt, if any: its window and view go, focus returns
    /// to the view the prompt worked on, and with `restore_origin` a search
    /// prompt puts that view back where the search started.
    pub fn close_prompt(&mut self, restore_origin: bool)
        requires
            old(self).wf(),
            old(self).core.buffers.next_view < u64::MAX,
            old(self).core.buffers.next_doc < u64::MAX,
        ensures
            prompt_closed(*old(self), *final(self), origin_state(old(self).prompt->0, restore_origin)),
    {
        self.close_prompt_at(restore_origin, None, None)
    }

    /// Closes the prompt as `close_prompt` does; `place`, when given, is where
    /// the target view ends up instead.
    #[verifier::rlimit(60)]
    fn close_prompt_at(
        &mut self,
        restore_origin: bool,
        place: Option<(usize, Selection)>,
        record: Option<(String, bool)>,
    )
        requires
            old(self).wf(),
            old(self).core.buffers.next_view < u64::MAX,
            old(self).core.buffers.next_doc < u64::MAX,
        ensures
            prompt_closed_recording(
                *old(self),
                *final(self),
                match place {
                    Some(pl) => Some((pl.0, pl.1.ranges@, pl.1.primary_index)),
                    None => origin_state(old(self).prompt->0, restore_origin),
                },
                record,
            ),
    {
        if self.prompt.is_none() {
            return;
        }
        let ghost g = *self;
        let mut taken: Option<PromptState> = None;
        std::mem::swap(&mut taken, &mut self.prompt);
        let st = match taken {
            Some(st) => st,
            None => {
                return;
            },
        };
        let pid = st.prompt.buffer_id;
        let (target, is_search) = match st.prompt.kind {
            PromptKind::Rename { target_buffer, .. } => (target_buffer, false),
            PromptKind::Search { target_buffer, .. } => (target_buffer, true),
        };
        let restore = match place {
            Some(pl) => Some(pl),
            None => match st.search {
                Some(rt) => {
                    if restore_origin && is_search {
                        Some((rt.origin_cursor, rt.origin_selection))
                    } else {
                        None
                    }
                },
                None => None,
            },
        };
        self.close_floating_window(st.prompt.window_id);
        self.core.buffers.remove_buffer(pid);
        let ghost mid = *self;
        proof {
            let fl = mid.windows.floating@;
            assert forall|i: int| 0 <= i < fl.len() implies #[trigger] fl[i].id != st.prompt.window_id by {
                let o = g.windows.floating@;
                if fl[i].id == st.prompt.window_id {
                    let k = choose|k: int| 0 <= k < o.len() && o[k].id == st.prompt.window_id
                        && fl == o.remove(k);
                    let i2 = if i < k { i } else { i + 1 };
                    assert(o[i2] == fl[i]);
                    if i2 < k {
                        assert(o[i2].id != o[k].id);
                    } else {
                        assert(o[k].id != o[i2].id);
                    }
                }
            }
            if g.core.buffers.has_view(pid) {
                let i = choose|i: int| 0 <= i < g.core.buffers.views@.len() && g.core.buffers.views@[i].id == pid;
                assert(pid.0 < g.core.buffers.next_view);
            }
        }
        proof {
            let live = target != pid && g.core.buffers.has_view(target) && g.windows.base.layout@.contains(target);
            if live {
                let t = FocusTarget::Buffer { window: mid.windows.base.id, buffer: target };
                assert(mid.windows.holds(mid.windows.base.id, target));
                assert(mid.normalize_spec(t) == Some(t));
            }
        }
        self.focus_view(target);
        crate::focus::remove_view_all(&mut self.frame.sticky_views, pid);
        let ghost after_focus = self.core.buffers;
        proof {
            let fl = self.windows.floating@;
            assert forall|i: int| 0 <= i < fl.len() implies #[trigger] fl[i].id != st.prompt.window_id by {
                assert(fl.contains(fl[i]));
                let j = choose|j: int| 0 <= j < mid.windows.floating@.len() && mid.windows.floating@[j] == fl[i];
                assert(mid.windows.floating@[j].id != st.prompt.window_id);
            }
        }
        match restore {
            Some((c, sel)) => {
                self.core.buffers.set_view_cursor_selection(target, c, sel);
            },
            None => {},
        }
        self.prompt = None;
        self.frame.needs_redraw = true;
        proof {
            if g.core.buffers.has_view(pid) {
                assert(pid.0 < g.core.buffers.next_view);
                assert(!after_focus.has_view(pid)) by {
                    if after_focus.has_view(pid) {
                        assert(mid.core.buffers.has_view(pid) || pid == ViewId(mid.core.buffers.next_view));
                    }
                }
                if self.core.buffers.has_view(pid) {
                    let m = choose|m: int|
                        0 <= m < self.core.buffers.views@.len() && self.core.buffers.views@[m].id == pid;
                    assert(after_focus.views@[m].id == pid);
                }
            }
        }
        proof {
            let live = target != pid && g.core.buffers.has_view(target) && g.windows.base.layout@.contains(target);
            if live {
                assert(after_focus == mid.core.buffers);
                if restore is Some {
                    let b0 = after_focus;
                    let b1 = self.core.buffers;
                    assert forall|v: ViewId|
                        v != pid && v != target && #[trigger] g.core.buffers.has_view(v) implies
                        b1.has_view(v) && b1.view(v) == g.core.buffers.view(v) by {
                        let k = choose|k: int| 0 <= k < b0.views@.len() && b0.views@[k].id == v;
                        b0.lemma_view_at(k);
                        assert(b1.views@[k] == b0.views@[k]);
                        b1.lemma_view_at(k);
                    }
                    let k = choose|k: int| 0 <= k < b0.views@.len() && b0.views@[k].id == target;
                    assert(b1.views@[k].id == target);
                }
            }
        }
        let ghost placed = self.core.buffers;
        proof {
            let live = target != pid && g.core.buffers.has_view(target) && g.windows.base.layout@.contains(target);
            if live {
                assert(placed.has_view(target));
                assert forall|v: ViewId|
                    v != pid && v != target && #[trigger] g.core.buffers.has_view(v) implies placed.has_view(v)
                        && placed.view(v) == g.core.buffers.view(v) by {}
                if restore is None {
                    assert(placed.view(target) == g.core.buffers.view(target));
                }
            }
        }
        self.core.buffers.finish_prompt_target(target, record);
        proof {
            lemma_target_finished(placed, self.core.buffers, target, record);
        }
    }

    /// Confirms the open prompt with its text (see `submitted`) and closes
    /// it. A rename hands back the new name; a search selects the match
    /// (see `prompt_search_spec`) or goes back to its origin.
    pub fn execute_prompt(&mut self) -> (r: PromptOutcome)
        requires
            old(self).wf(),
            old(self).core.buffers.next_view < u64::MAX,
            old(self).core.buffers.next_doc < u64::MAX,
            old(self).prompt is Some && old(self).prompt->0.prompt.kind is Search ==> old(self).core.buffers.has_view(
                prompt_target(old(self).prompt->0.prompt.kind),
            ),
        ensures
            old(self).prompt is None ==> r is NotOpen && *final(self) == *old(self),
            old(self).prompt is Some ==> {
                let st = old(self).prompt->0;
                let input = submitted(prompt_text(*old(self), st.prompt.buffer_id));
                match st.prompt.kind {
                    PromptKind::Rename { target_buffer, position } => {
                        &&& prompt_closed(*old(self), *final(self), None)
                        &&& input.len() == 0 ==> r is Cancelled
                        &&& input.len() > 0 ==> (r matches PromptOutcome::Rename { target_buffer: t, position: p, new_name }
                            && t == target_buffer && p == position && new_name@ == input)
                    },
                    PromptKind::Search { target_buffer, reverse } => {
                        let origin = if st.search is Some { st.search->0.origin_cursor } else { 0 };
                        let tv = old(self).core.buffers.view(target_buffer);
                        let text = old(self).core.buffers.doc_spec(tv.doc).text@;
                        let found = prompt_search_spec(input, text, reverse, origin as int);
                        let back = origin_state(st, true);
                        &&& input.len() == 0 ==> r is Cancelled && prompt_closed(*old(self), *final(self), back)
                        &&& input.len() > 0 && !regex_compiles(input) ==> (r matches PromptOutcome::RegexError(m) && m@
                            == regex_error_message(input)) && prompt_closed(
                            *old(self),
                            *final(self),
                            back,
                        )
                        &&& input.len() > 0 && regex_compiles(input) && found is None ==> (r matches PromptOutcome::NotFound {
                            pattern,
                            reverse: rv,
                        } && pattern@ == input && rv == reverse && prompt_closed_recording(
                            *old(self),
                            *final(self),
                            back,
                            Some((pattern, reverse)),
                        ))
                        &&& input.len() > 0 && regex_compiles(input) && found is Some ==> (r matches PromptOutcome::Found {
                            pattern,
                            reverse: rv,
                        } && pattern@ == input && rv == reverse && prompt_closed_recording(
                            *old(self),
                            *final(self),
                            Some(
                                (
                                    found.unwrap().0 as usize,
                                    seq![Range { anchor: found.unwrap().0 as usize, head: found.unwrap().1 as usize }],
                                    0usize,
                                ),
                            ),
                            Some((pattern, reverse)),
                        ))
                    },
                }
            },
    {
        let (prompt, origin) = match &self.prompt {
            None => {
                return PromptOutcome::NotOpen;
            },
            Some(st) => (st.prompt, match &st.search {
                Some(rt) => rt.origin_cursor,
                None => 0,
            }),
        };
        let mut raw: Vec<char> = match self.core.buffers.get_buffer(prompt.buffer_id) {
            None => Vec::new(),
            Some(b) => {
                proof {
                    let i = choose|i: int|
                        0 <= i < self.core.buffers.views@.len() && self.core.buffers.views@[i].id == prompt.buffer_id;
                    self.core.buffers.lemma_view_at(i);
                }
                match self.core.buffers.get_document(b.doc) {
                    Some(d) => slice_of(&d.text, 0, d.text.len()),
                    None => Vec::new(),
                }
            },
        };
        proof {
            if self.core.buffers.has_view(prompt.buffer_id) {
                let b = self.core.buffers.view(prompt.buffer_id);
                assert(raw@ =~= prompt_text(*self, prompt.buffer_id));
            }
        }
        trim_end_chars(&mut raw, '\n');
        let input = trim_whitespace(&raw);
        match prompt.kind {
            PromptKind::Rename { target_buffer, position } => {
                self.close_prompt_at(false, None, None);
                if input.len() == 0 {
                    PromptOutcome::Cancelled
                } else {
                    PromptOutcome::Rename { target_buffer, position, new_name: string_from_chars(input.as_slice()) }
                }
            },
            PromptKind::Search { target_buffer, reverse } => {
                if input.len() == 0 {
                    self.close_prompt_at(true, None, None);
                    return PromptOutcome::Cancelled;
                }
                let pattern = string_from_chars(input.as_slice());
                let sr = match SearchRegex::compile(&pattern) {
                    Ok(sr) => sr,
                    Err(msg) => {
                        self.close_prompt_at(true, None, None);
                        return PromptOutcome::RegexError(msg);
                    },
                };
                let found = match self.core.buffers.get_buffer(target_buffer) {
                    None => None,
                    Some(b) => {
                        proof {
                            let i = choose|i: int|
                                0 <= i < self.core.buffers.views@.len() && self.core.buffers.views@[i].id == target_buffer;
                            self.core.buffers.lemma_view_at(i);
                            assert(self.core.buffers.has_doc(self.core.buffers.views@[i].doc));
                        }
                        match self.core.buffers.get_document(b.doc) {
                            None => None,
                            Some(d) => {
                                if utf8_len_checked(&d.text).is_none() {
                                    None
                                } else if reverse {
                                    find_prev(&d.text, &sr, origin)
                                } else if origin < d.text.len() {
                                    find_next(&d.text, &sr, origin + 1)
                                } else {
                                    None
                                }
                            },
                        }
                    },
                };
                match found {
                    Some((a, b)) => {
                        self.close_prompt_at(false, Some((a, Selection::single(a, b))), Some((pattern.clone(), reverse)));
                        PromptOutcome::Found { pattern, reverse }
                    },
                    None => {
                        self.close_prompt_at(true, None, Some((pattern.clone(), reverse)));
                        PromptOutcome::NotFound { pattern, reverse }
                    },
                }
            },
        }
    }

    /// Applies the language server's answer to a prepare-rename request
    /// (its range already in chars): the placeholder replaces the prompt's
    /// text, selected with the cursor after it, unless the user changed the
    /// prompt from `expected_prompt`; the range becomes the selection of the
    /// view a rename prompt works on (its cursor stays).
    pub fn apply_prepare_rename_response(
        &mut self,
        placeholder: Option<Vec<char>>,
        range: Option<(usize, usize)>,
        expected_prompt: &Vec<char>,
    )
        requires
            old(self).wf(),
        ensures
            final(self).wf(),
            final(self).prompt == old(self).prompt,
            final(self).windows == old(self).windows,
            final(self).focus == old(self).focus,
            final(self).frame.needs_redraw,
            final(self).core.buffers.views@.len() == old(self).core.buffers.views@.len(),
            final(self).core.buffers.docs@.len() == old(self).core.buffers.docs@.len(),
            ({
                let b0 = old(self).core.buffers;
                let b1 = final(self).core.buffers;
                let fill = placeholder is Some && prompt_untouched(*old(self), expected_prompt@);
                let pid = old(self).prompt->0.prompt.buffer_id;
                let mark = range is Some && old(self).prompt is Some && old(self).prompt->0.prompt.kind is Rename;
                let target = prompt_target(old(self).prompt->0.prompt.kind);
                &&& forall|m: int|
                    0 <= m < b0.views@.len() && !(fill && b0.views@[m].id == pid) && !(mark && b0.views@[m].id == target)
                        ==> #[trigger] b1.views@[m] == b0.views@[m]
                &&& fill && !(mark && target == pid) ==> b1.has_view(pid) && b1.view(pid).cursor == placeholder->0@.len() && b1.view(pid).selection.ranges@
                    == seq![Range { anchor: 0, head: placeholder->0@.len() as usize }] && b1.doc_spec(b1.view(pid).doc).text@
                    == placeholder->0@
                &&& fill ==> forall|m: int|
                    0 <= m < b0.docs@.len() && b0.docs@[m].id != b0.view(pid).doc ==> #[trigger] b1.docs@[m] == b0.docs@[m]
                &&& !fill ==> b1.docs == b0.docs
                &&& mark && !(fill && target == pid) ==> forall|m: int|
                    0 <= m < b0.views@.len() && #[trigger] b0.views@[m].id == target ==> b1.views@[m].cursor
                        == b0.views@[m].cursor && b1.views@[m].selection.ranges@ == seq![
                        Range { anchor: range.unwrap().0, head: range.unwrap().1 },
                    ]
            }),
    {
        let ghost g = *self;
        if let Some(ph) = placeholder {
            let pid = match &self.prompt {
                Some(st) => Some(st.prompt.buffer_id),
                None => None,
            };
            if let Some(pid) = pid {
                if let Some((pi, pk)) = self.core.buffers.locate(pid) {
                    let mut cur = slice_of(&self.core.buffers.docs[pk].text, 0, self.core.buffers.docs[pk].text.len());
                    proof {
                        let b = self.core.buffers;
                        b.lemma_doc_at(pk as int);
                        assert(cur@ =~= b.docs@[pk as int].text@);
                        assert(cur@ == prompt_text(*self, pid));
                    }
                    trim_end_chars(&mut cur, '\n');
                    if same_chars(&cur, expected_prompt) {
                        let end = ph.len();
                        let ghost before = self.core.buffers;
                        self.core.buffers.replace_doc_text(pk, ph, false);
                        self.core.buffers.set_view_cursor_selection(pid, end, Selection::single(0, end));
                        proof {
                            let b = self.core.buffers;
                            assert(b.views@[pi as int].id == pid);
                            b.lemma_view_at(pi as int);
                            b.lemma_doc_at(pk as int);
                            assert(b.docs@[pk as int].id == b.views@[pi as int].doc);
                            before.lemma_view_at(pi as int);
                        }
                    }
                }
            }
        }
        let ghost after_fill = self.core.buffers;
        if let Some((a, b)) = range {
            let target = match &self.prompt {
                Some(st) => match st.prompt.kind {
                    PromptKind::Rename { target_buffer, .. } => Some(target_buffer),
                    PromptKind::Search { .. } => None,
                },
                None => None,
            };
            if let Some(t) = target {
                if let Some((ti, _)) = self.core.buffers.locate(t) {
                    let c = self.core.buffers.views[ti].cursor;
                    self.core.buffers.set_view_cursor_selection(t, c, Selection::single(a, b));
                }
            }
        }
        self.frame.needs_redraw = true;
        proof {
            let fill = placeholder is Some && prompt_untouched(g, expected_prompt@);
            let pid = g.prompt->0.prompt.buffer_id;
            let mark = range is Some && g.prompt is Some && g.prompt->0.prompt.kind is Rename;
            let target = prompt_target(g.prompt->0.prompt.kind);
            if fill && !(mark && target == pid) {
                let m = choose|m: int| 0 <= m < after_fill.views@.len() && after_fill.views@[m].id == pid;
                after_fill.lemma_view_at(m);
                assert(self.core.buffers.views@[m] == after_fill.views@[m]);
                self.core.buffers.lemma_view_at(m);
            }
        }
    }
}

/// Cancelling a search prompt (closing it with the origin restored) puts
/// the view it searched back where it was when the prompt opened, provided
/// that view is in the base layout.
pub proof fn law_cancelled_search_restores_view(e0: Editor, e1: Editor, e2: Editor, reverse: bool)
    requires
        e0.wf(),
        prompt_can_open(e0),
        e0.windows.base.layout@.contains(e0.focused_view_spec()),
        search_prompt_opened(e0, e1, reverse),
        prompt_closed(e1, e2, origin_state(e1.prompt->0, true)),
    ensures
        forall|m: int|
            0 <= m < e2.core.buffers.views@.len() && #[trigger] e2.core.buffers.views@[m].id == e0.focused_view_spec()
                ==> e2.core.buffers.views@[m].cursor == e0.core.buffers.view(e0.focused_view_spec()).cursor
                && e2.core.buffers.views@[m].selection.ranges@ == e0.core.buffers.view(
                e0.focused_view_spec(),
            ).selection.ranges@ && e2.core.buffers.views@[m].selection.primary_index == e0.core.buffers.view(
                e0.focused_view_spec(),
            ).selection.primary_index,
{
    let t = e0.focused_view_spec();
    let b0 = e0.core.buffers;
    let b1 = e1.core.buffers;
    let k = choose|k: int| 0 <= k < b0.views@.len() && b0.views@[k].id == t;
    assert(b1.views@.drop_last()[k] == b0.views@[k]);
    assert(b1.views@[k] == b1.views@.drop_last()[k]);
    assert(b1.has_view(t));
    assert(t.0 < b0.next_view);
    assert(t != ViewId(b0.next_view));
}


/// `b1` is `b0` with view `target` back in Normal mode and keeping
/// `record`, when given, as its last search; all else is unchanged.
pub open spec fn target_finished(b0: BufferManager, b1: BufferManager, target: ViewId, record: Option<(String, bool)>) -> bool {
    &&& b1.docs == b0.docs
    &&& b1.focused == b0.focused
    &&& b1.next_view == b0.next_view
    &&& b1.next_doc == b0.next_doc
    &&& b1.views@.len() == b0.views@.len()
    &&& forall|k: int|
        0 <= k < b0.views@.len() && b0.views@[k].id != target ==> #[trigger] b1.views@[k] == b0.views@[k]
    &&& forall|k: int|
        0 <= k < b0.views@.len() && b0.views@[k].id == target ==> #[trigger] b1.views@[k] == (Buffer {
            mode: InputMode::Normal,
            last_search: kept_search(b0.views@[k].last_search, record),
            ..b0.views@[k]
        })
}

proof fn lemma_target_finished(b0: BufferManager, b1: BufferManager, target: ViewId, record: Option<(String, bool)>)
    requires
        b0.wf(),
        target_finished(b0, b1, target, record),
    ensures
        forall|v: ViewId| #[trigger] b1.has_view(v) == b0.has_view(v),
        forall|v: ViewId| v != target && #[trigger] b0.has_view(v) ==> b1.view(v) == b0.view(v),
        b0.has_view(target) ==> b1.view(target) == (Buffer {
            mode: InputMode::Normal,
            last_search: kept_search(b0.view(target).last_search, record),
            ..b0.view(target)
        }),
        forall|m: int|
            0 <= m < b1.views@.len() && #[trigger] b1.views@[m].id == target ==> b1.views@[m].cursor == b0.views@[m].cursor
                && b1.views@[m].selection == b0.views@[m].selection && b0.views@[m].id == target,
{
    assert forall|v: ViewId| #[trigger] b1.has_view(v) == b0.has_view(v) by {
        if b0.has_view(v) {
            let k = choose|k: int| 0 <= k < b0.views@.len() && b0.views@[k].id == v;
            assert(b1.views@[k].id == v);
        }
        if b1.has_view(v) {
            let k = choose|k: int| 0 <= k < b1.views@.len() && b1.views@[k].id == v;
            assert(b0.views@[k].id == v);
        }
    }
    assert(b1.wf()) by {
        assert forall|a: int, c: int| 0 <= a < c < b1.views@.len() implies b1.views@[a].id != b1.views@[c].id by {
            assert(b0.views@[a].id != b0.views@[c].id);
        }
        assert forall|a: int| 0 <= a < b1.views@.len() implies #[trigger] b1.views@[a].id.0 < b1.next_view by {
            assert(b0.views@[a].id.0 < b0.next_view);
        }
        assert forall|a: int| 0 <= a < b1.views@.len() implies b1.has_doc(#[trigger] b1.views@[a].doc) by {
            assert(b0.has_doc(b0.views@[a].doc));
        }
    }
    assert forall|v: ViewId| v != target && #[trigger] b0.has_view(v) implies b1.view(v) == b0.view(v) by {
        let k = choose|k: int| 0 <= k < b0.views@.len() && b0.views@[k].id == v;
        b0.lemma_view_at(k);
        b1.lemma_view_at(k);
    }
    if b0.has_view(target) {
        let k = choose|k: int| 0 <= k < b0.views@.len() && b0.views@[k].id == target;
        b0.lemma_view_at(k);
        b1.lemma_view_at(k);
    }
    assert forall|m: int| 0 <= m < b1.views@.len() && #[trigger] b1.views@[m].id == target implies b1.views@[m].cursor
        == b0.views@[m].cursor && b1.views@[m].selection == b0.views@[m].selection && b0.views@[m].id == target by {
        if b0.views@[m].id != target {
            assert(b1.views@[m] == b0.views@[m]);
        }
    }
}

impl BufferManager {
    /// Puts view `target` (if it exists) back in Normal mode, keeping
    /// `record`, when given, as its last search.
    pub fn finish_prompt_target(&mut self, target: ViewId, record: Option<(String, bool)>)
        requires
            old(self).wf(),
        ensures
            final(self).wf(),
            target_finished(*old(self), *final(self), target, record),
    {
        match self.index_of(target) {
            None => {},
            Some(i) => {
                self.views[i].mode = InputMode::Normal;
                match record {
                    Some(rc) => {
                        self.views[i].last_search = Some(rc);
                    },
                    None => {},
                }
                proof {
                    let o = *old(self);
                    assert forall|m: int| 0 <= m < o.views@.len() && o.views@[m].id == target implies m == i by {
                        if m < i {
                            assert(o.views@[m].id != o.views@[i as int].id);
                        } else if i < m {
                            assert(o.views@[i as int].id != o.views@[m].id);
                        }
                    }
                    assert forall|a: int, c: int| 0 <= a < c < self.views@.len() implies self.views@[a].id
                        != self.views@[c].id by {
                        assert(o.views@[a].id != o.views@[c].id);
                    }
                    assert forall|a: int| 0 <= a < self.views@.len() implies #[trigger] self.views@[a].id.0
                        < self.next_view by {
                        assert(o.views@[a].id.0 < o.next_view);
                    }
                    assert forall|a: int| 0 <= a < self.views@.len() implies self.has_doc(
                        #[trigger] self.views@[a].doc,
                    ) by {
                        assert(o.has_doc(o.views@[a].doc));
                    }
                }
            },
        }
    }
}

} // verus!
