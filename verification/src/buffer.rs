//! Documents, buffers (views onto documents) and the buffer manager.

use vstd::prelude::*;

use crate::ids::{DocumentId, ViewId};
use crate::selection::{Range, Selection};

verus! {

/// Text content shared by every view of it.
#[derive(Debug)]
pub struct Document {
    pub id: DocumentId,
    pub text: Vec<char>,
    pub path: Option<String>,
    pub readonly: bool,
    pub modified: bool,
}

/// A view onto a document with its own cursor, selection and scroll state.
#[derive(Debug)]
pub struct Buffer {
    pub id: ViewId,
    pub doc: DocumentId,
    pub cursor: usize,
    pub selection: Selection,
    pub scroll_line: usize,
    pub scroll_segment: usize,
    /// Read-only override set by document sync; `None` leaves the
    /// document's own flag in charge.
    pub readonly_override: Option<bool>,
    /// The view's input mode.
    pub mode: InputMode,
    /// The last search run in this view: its pattern and whether it went
    /// backwards.
    pub last_search: Option<(String, bool)>,
}

/// Modal input state of a view.
#[derive(Debug, Clone, Copy, PartialEq, Eq, Structural)]
pub enum InputMode {
    Normal,
    Insert,
}

/// View state captured for undo/redo: cursor, selection and scroll.
#[derive(Debug)]
pub struct ViewSnapshot {
    pub cursor: usize,
    pub selection: Selection,
    pub scroll_line: usize,
    pub scroll_segment: usize,
}

/// The observable state of a view: cursor, selection and scroll.
#[verifier::ext_equal]
pub struct ViewState {
    pub cursor: usize,
    pub ranges: Seq<Range>,
    pub primary: usize,
    pub scroll_line: usize,
    pub scroll_segment: usize,
}

pub open spec fn buffer_state(b: Buffer) -> ViewState {
    ViewState {
        cursor: b.cursor,
        ranges: b.selection.ranges@,
        primary: b.selection.primary_index,
        scroll_line: b.scroll_line,
        scroll_segment: b.scroll_segment,
    }
}

pub open spec fn snapshot_state(s: ViewSnapshot) -> ViewState {
    ViewState {
        cursor: s.cursor,
        ranges: s.selection.ranges@,
        primary: s.selection.primary_index,
        scroll_line: s.scroll_line,
        scroll_segment: s.scroll_segment,
    }
}

/// A view state whose cursor and range ends are clamped to `len`.
pub open spec fn clamp_state(s: ViewState, len: usize) -> ViewState {
    ViewState {
        cursor: clamp_pos(s.cursor, len),
        ranges: s.ranges.map_values(|r: Range| clamp_range(r, len)),
        primary: s.primary,
        scroll_line: s.scroll_line,
        scroll_segment: s.scroll_segment,
    }
}

/// The state has a valid selection and lies within a text of length `len`.
pub open spec fn state_valid(s: ViewState, len: usize) -> bool {
    &&& s.ranges.len() > 0
    &&& s.primary < s.ranges.len()
    &&& s.cursor <= len
    &&& forall|i: int| 0 <= i < s.ranges.len() ==> #[trigger] s.ranges[i].anchor <= len && s.ranges[i].head <= len
}

/// Clamping a state that already lies within the text changes nothing.
pub proof fn lemma_clamp_valid(s: ViewState, len: usize)
    requires
        state_valid(s, len),
    ensures
        clamp_state(s, len) == s,
{
    assert(clamp_state(s, len).ranges =~= s.ranges);
    assert(clamp_state(s, len) =~= s);
}

/// A snapshot taken of a view and restored later gives back the view's
/// state exactly, whatever view-only changes came in between, as long as
/// the state still lies within the text; if the text shrank, the restored
/// state is the snapshot clamped into it, and lies within it.
pub proof fn law_restore_undoes_view_change(b0: Buffer, snap: ViewSnapshot, b2: Buffer, len: usize)
    requires
        b0.selection.wf(),
        snapshot_state(snap) == buffer_state(b0),
        buffer_state(b2) == clamp_state(snapshot_state(snap), len),
    ensures
        view_valid(b0, len) ==> buffer_state(b2) == buffer_state(b0),
        state_valid(buffer_state(b2), len),
{
    if view_valid(b0, len) {
        lemma_clamp_valid(buffer_state(b0), len);
    }
}

/// A position clamped to a text length.
pub open spec fn clamp_pos(p: usize, len: usize) -> usize {
    if p <= len { p } else { len }
}

/// A range whose ends are clamped to a text length.
pub open spec fn clamp_range(r: Range, len: usize) -> Range {
    Range { anchor: clamp_pos(r.anchor, len), head: clamp_pos(r.head, len) }
}

/// View state lies within a text of length `len`.
pub open spec fn view_valid(b: Buffer, len: usize) -> bool {
    &&& b.selection.wf()
    &&& b.cursor <= len
    &&& forall|i: int|
        0 <= i < b.selection.ranges@.len() ==> #[trigger] b.selection.ranges@[i].anchor <= len
            && b.selection.ranges@[i].head <= len
}

impl Buffer {
    /// A snapshot of this buffer's view state.
    pub fn snapshot_view(&self) -> (s: ViewSnapshot)
        ensures
            s.cursor == self.cursor,
            s.selection.ranges@ == self.selection.ranges@,
            s.selection.primary_index == self.selection.primary_index,
            s.scroll_line == self.scroll_line,
            s.scroll_segment == self.scroll_segment,
    {
        ViewSnapshot {
            cursor: self.cursor,
            selection: self.selection.duplicate(),
            scroll_line: self.scroll_line,
            scroll_segment: self.scroll_segment,
        }
    }

    /// Restores view state from a snapshot, then clamps the cursor and every
    /// range end to the length of the document text.
    pub fn restore_view(&mut self, snapshot: &ViewSnapshot, text_len: usize)
        requires
            snapshot.selection.wf(),
        ensures
            final(self).id == old(self).id,
            final(self).doc == old(self).doc,
            final(self).cursor == clamp_pos(snapshot.cursor, text_len),
            final(self).selection.primary_index == snapshot.selection.primary_index,
            final(self).selection.ranges@.len() == snapshot.selection.ranges@.len(),
            forall|i: int|
                0 <= i < snapshot.selection.ranges@.len() ==> #[trigger] final(self).selection.ranges@[i] == clamp_range(snapshot.selection.ranges@[i], text_len),
            final(self).scroll_line == snapshot.scroll_line,
            final(self).scroll_segment == snapshot.scroll_segment,
            view_valid(*final(self), text_len),
            buffer_state(*final(self)) == clamp_state(snapshot_state(*snapshot), text_len),
    {
        self.cursor = snapshot.cursor;
        self.selection = snapshot.selection.duplicate();
        self.scroll_line = snapshot.scroll_line;
        self.scroll_segment = snapshot.scroll_segment;
        self.ensure_valid_selection(text_len);
        proof {
            assert(buffer_state(*self).ranges =~= clamp_state(snapshot_state(*snapshot), text_len).ranges);
            assert(buffer_state(*self) =~= clamp_state(snapshot_state(*snapshot), text_len));
        }
    }

    /// Clamps the cursor and every range end to `len`.
    pub fn ensure_valid_selection(&mut self, len: usize)
        requires
            old(self).selection.wf(),
        ensures
            final(self).id == old(self).id,
            final(self).doc == old(self).doc,
            final(self).cursor == clamp_pos(old(self).cursor, len),
            final(self).selection.primary_index == old(self).selection.primary_index,
            final(self).selection.ranges@.len() == old(self).selection.ranges@.len(),
            forall|i: int|
                0 <= i < old(self).selection.ranges@.len() ==> #[trigger] final(self).selection.ranges@[i] == clamp_range(old(self).selection.ranges@[i], len),
            final(self).scroll_line == old(self).scroll_line,
            final(self).scroll_segment == old(self).scroll_segment,
            view_valid(*final(self), len),
            buffer_state(*final(self)) == clamp_state(buffer_state(*old(self)), len),
    {
        if self.cursor > len {
            self.cursor = len;
        }
        let mut out: Vec<Range> = Vec::new();
        let mut i: usize = 0;
        while i < self.selection.ranges.len()
            invariant
                i <= self.selection.ranges@.len(),
                self.selection == old(self).selection,
                out@.len() == i,
                forall|k: int|
                    0 <= k < i ==> #[trigger] out@[k] == clamp_range(
                        self.selection.ranges@[k],
                        len,
                    ),
            decreases self.selection.ranges@.len() - i,
        {
            let r = self.selection.ranges[i];
            let a = if r.anchor <= len { r.anchor } else { len };
            let h = if r.head <= len { r.head } else { len };
            out.push(Range { anchor: a, head: h });
            i = i + 1;
        }
        self.selection.ranges = out;
        proof {
            assert(buffer_state(*self).ranges =~= clamp_state(buffer_state(*old(self)), len).ranges);
            assert(buffer_state(*self) =~= clamp_state(buffer_state(*old(self)), len));
        }
    }

    /// Moves the cursor and selection to a single point.
    pub fn set_cursor_and_selection(&mut self, pos: usize)
        ensures
            final(self).id == old(self).id,
            final(self).doc == old(self).doc,
            final(self).cursor == pos,
            final(self).selection.wf(),
            final(self).selection.ranges@ == seq![Range { anchor: pos, head: pos }],
            final(self).scroll_line == old(self).scroll_line,
            final(self).scroll_segment == old(self).scroll_segment,
    {
        self.cursor = pos;
        self.selection = Selection::point(pos);
    }

    /// A new view onto the same document with the same view state.
    pub fn clone_for_split(&self, id: ViewId) -> (b: Buffer)
        ensures
            b.id == id,
            b.doc == self.doc,
            b.cursor == self.cursor,
            b.selection.ranges@ == self.selection.ranges@,
            b.selection.primary_index == self.selection.primary_index,
            b.scroll_line == self.scroll_line,
            b.scroll_segment == self.scroll_segment,
            b.readonly_override == self.readonly_override,
            b.mode == self.mode,
            b.last_search == self.last_search,
    {
        Buffer {
            id,
            doc: self.doc,
            cursor: self.cursor,
            selection: self.selection.duplicate(),
            scroll_line: self.scroll_line,
            scroll_segment: self.scroll_segment,
            readonly_override: self.readonly_override,
            mode: self.mode,
            last_search: copy_last_search(&self.last_search),
        }
    }
}

/// A copy of a recorded search.
fn copy_last_search(s: &Option<(String, bool)>) -> (r: Option<(String, bool)>)
    ensures
        r == *s,
{
    match s {
        Some((p, rev)) => Some((p.clone(), *rev)),
        None => None,
    }
}

/// Ids of a sequence of views.
pub open spec fn view_ids(vs: Seq<Buffer>) -> Seq<ViewId> {
    Seq::new(vs.len(), |i: int| vs[i].id)
}

/// Buffer and document storage with the focused view and id allocation.
#[derive(Debug)]
pub struct BufferManager {
    pub docs: Vec<Document>,
    pub views: Vec<Buffer>,
    pub focused: ViewId,
    pub next_view: u64,
    pub next_doc: u64,
}

impl BufferManager {
    /// Ids are unique, every view's document exists, and fresh ids are above
    /// every id in use.
    pub open spec fn wf(&self) -> bool {
        &&& forall|i: int, j: int|
            0 <= i < j < self.views@.len() ==> self.views@[i].id != self.views@[j].id
        &&& forall|i: int, j: int|
            0 <= i < j < self.docs@.len() ==> self.docs@[i].id != self.docs@[j].id
        &&& forall|i: int| 0 <= i < self.views@.len() ==> #[trigger] self.views@[i].id.0 < self.next_view
        &&& forall|i: int| 0 <= i < self.docs@.len() ==> #[trigger] self.docs@[i].id.0 < self.next_doc
        &&& forall|i: int|
            0 <= i < self.views@.len() ==> self.has_doc(#[trigger] self.views@[i].doc)
    }

    pub open spec fn has_view(&self, id: ViewId) -> bool {
        exists|i: int| 0 <= i < self.views@.len() && self.views@[i].id == id
    }

    pub open spec fn has_doc(&self, id: DocumentId) -> bool {
        exists|i: int| 0 <= i < self.docs@.len() && self.docs@[i].id == id
    }

    /// The view with this id (meaningful when it exists).
    pub open spec fn view(&self, id: ViewId) -> Buffer {
        self.views@[choose|i: int| 0 <= i < self.views@.len() && self.views@[i].id == id]
    }

    /// The document with this id (meaningful when it exists).
    pub open spec fn doc_spec(&self, id: DocumentId) -> Document {
        self.docs@[choose|i: int| 0 <= i < self.docs@.len() && self.docs@[i].id == id]
    }

    /// A manager holding one document and one focused view of it.
    pub fn new(text: Vec<char>, path: Option<String>) -> (m: Self)
        ensures
            m.wf(),
            m.views@.len() == 1,
            m.docs@.len() == 1,
            m.focused == ViewId(1),
            m.views@[0].id == ViewId(1),
            m.views@[0].doc == DocumentId(1),
            m.docs@[0].id == DocumentId(1),
            m.docs@[0].text@ == text@,
            m.docs@[0].path == path,
            !m.docs@[0].readonly && !m.docs@[0].modified,
            m.views@[0].cursor == 0,
            m.views@[0].selection.ranges@ == seq![Range { anchor: 0, head: 0 }],
            m.views@[0].selection.primary_index == 0,
            m.views@[0].scroll_line == 0 && m.views@[0].scroll_segment == 0,
            m.views@[0].readonly_override is None,
            m.views@[0].mode == InputMode::Normal,
            m.views@[0].last_search is None,
            m.next_view == 2 && m.next_doc == 2,
    {
        let mut docs = Vec::new();
        docs.push(
            Document { id: DocumentId(1), text, path, readonly: false, modified: false },
        );
        let mut views = Vec::new();
        views.push(
            Buffer {
                id: ViewId(1),
                doc: DocumentId(1),
                cursor: 0,
                selection: Selection::point(0),
                scroll_line: 0,
                scroll_segment: 0,
                readonly_override: None,
                mode: InputMode::Normal,
                last_search: None,
            },
        );
        let m = BufferManager { docs, views, focused: ViewId(1), next_view: 2, next_doc: 2 };
        proof {
            assert(m.docs@[0].id == m.views@[0].doc);
            assert(m.has_doc(m.views@[0].doc));
        }
        m
    }

    /// Position of the view with this id.
    pub fn index_of(&self, id: ViewId) -> (r: Option<usize>)
        ensures
            r is None <==> !self.has_view(id),
            r matches Some(i) ==> i < self.views@.len() && self.views@[i as int].id == id,
    {
        let mut i: usize = 0;
        while i < self.views.len()
            invariant
                i <= self.views@.len(),
                forall|k: int| 0 <= k < i ==> self.views@[k].id != id,
            decreases self.views@.len() - i,
        {
            if self.views[i].id == id {
                return Some(i);
            }
            i = i + 1;
        }
        None
    }

    /// Position of the document with this id.
    pub fn doc_index_of(&self, id: DocumentId) -> (r: Option<usize>)
        ensures
            r is None <==> !self.has_doc(id),
            r matches Some(i) ==> i < self.docs@.len() && self.docs@[i as int].id == id,
    {
        let mut i: usize = 0;
        while i < self.docs.len()
            invariant
                i <= self.docs@.len(),
                forall|k: int| 0 <= k < i ==> self.docs@[k].id != id,
            decreases self.docs@.len() - i,
        {
            if self.docs[i].id == id {
                return Some(i);
            }
            i = i + 1;
        }
        None
    }

    /// The buffer with this id, if any.
    pub fn get_buffer(&self, id: ViewId) -> (r: Option<&Buffer>)
        requires
            self.wf(),
        ensures
            r is Some <==> self.has_view(id),
            r matches Some(b) ==> *b == self.view(id),
    {
        match self.index_of(id) {
            Some(i) => {
                proof {
                    self.lemma_view_at(i as int);
                }
                Some(&self.views[i])
            },
            None => None,
        }
    }

    /// The view at position `i` is the one `view` names by its id.
    pub proof fn lemma_view_at(&self, i: int)
        requires
            self.wf(),
            0 <= i < self.views@.len(),
        ensures
            self.view(self.views@[i].id) == self.views@[i],
    {
        let id = self.views@[i].id;
        let c = choose|k: int| 0 <= k < self.views@.len() && self.views@[k].id == id;
        assert(0 <= c < self.views@.len() && self.views@[c].id == id);
        if c != i {
            if c < i {
                assert(self.views@[c].id != self.views@[i].id);
            } else {
                assert(self.views@[i].id != self.views@[c].id);
            }
        }
    }

    /// The document at position `i` is the one `doc_spec` names by its id.
    pub proof fn lemma_doc_at(&self, i: int)
        requires
            self.wf(),
            0 <= i < self.docs@.len(),
        ensures
            self.doc_spec(self.docs@[i].id) == self.docs@[i],
    {
        let id = self.docs@[i].id;
        let c = choose|k: int| 0 <= k < self.docs@.len() && self.docs@[k].id == id;
        assert(0 <= c < self.docs@.len() && self.docs@[c].id == id);
        if c != i {
            if c < i {
                assert(self.docs@[c].id != self.docs@[i].id);
            } else {
                assert(self.docs@[i].id != self.docs@[c].id);
            }
        }
    }

    /// The document with this id, if any.
    pub fn get_document(&self, id: DocumentId) -> (r: Option<&Document>)
        requires
            self.wf(),
        ensures
            r is Some <==> self.has_doc(id),
            r matches Some(d) ==> *d == self.doc_spec(id),
    {
        match self.doc_index_of(id) {
            Some(i) => {
                proof {
                    self.lemma_doc_at(i as int);
                }
                Some(&self.docs[i])
            },
            None => None,
        }
    }

    /// Ids of all buffers, in storage order.
    pub fn buffer_ids(&self) -> (r: Vec<ViewId>)
        ensures
            r@ == view_ids(self.views@),
    {
        let mut r: Vec<ViewId> = Vec::new();
        let mut i: usize = 0;
        while i < self.views.len()
            invariant
                i <= self.views@.len(),
                r@ == view_ids(self.views@).subrange(0, i as int),
            decreases self.views@.len() - i,
        {
            r.push(self.views[i].id);
            i = i + 1;
            proof {
                assert(r@ =~= view_ids(self.views@).subrange(0, i as int));
            }
        }
        proof {
            assert(view_ids(self.views@).subrange(0, self.views@.len() as int) =~= view_ids(
                self.views@,
            ));
        }
        r
    }

    pub fn buffer_count(&self) -> (n: usize)
        ensures
            n == self.views@.len(),
    {
        self.views.len()
    }

    /// The focused view id.
    pub fn focused_view(&self) -> (v: ViewId)
        ensures
            v == self.focused,
    {
        self.focused
    }

    pub fn set_focused_view(&mut self, id: ViewId)
        ensures
            final(self).focused == id,
            final(self).views == old(self).views,
            final(self).docs == old(self).docs,
            final(self).next_view == old(self).next_view,
            final(self).next_doc == old(self).next_doc,
    {
        self.focused = id;
    }

    /// Some view of the document, if any exists.
    pub fn any_buffer_for_doc(&self, doc: DocumentId) -> (r: Option<ViewId>)
        ensures
            r is None <==> !(exists|i: int| 0 <= i < self.views@.len() && self.views@[i].doc == doc),
            r matches Some(v) ==> exists|i: int|
                0 <= i < self.views@.len() && self.views@[i].doc == doc && self.views@[i].id == v,
    {
        let mut i: usize = 0;
        while i < self.views.len()
            invariant
                i <= self.views@.len(),
                forall|k: int| 0 <= k < i ==> self.views@[k].doc != doc,
            decreases self.views@.len() - i,
        {
            if self.views[i].doc == doc {
                return Some(self.views[i].id);
            }
            i = i + 1;
        }
        None
    }

    /// Creates an empty, pathless document with one view and returns the view.
    pub fn create_scratch(&mut self) -> (id: ViewId)
        requires
            old(self).wf(),
            old(self).next_view < u64::MAX,
            old(self).next_doc < u64::MAX,
        ensures
            final(self).wf(),
            id == ViewId(old(self).next_view),
            !old(self).has_view(id),
            final(self).views@.len() == old(self).views@.len() + 1,
            final(self).views@.drop_last() == old(self).views@,
            final(self).views@.last().id == id,
            final(self).views@.last().doc == DocumentId(old(self).next_doc),
            final(self).docs@.drop_last() == old(self).docs@,
            final(self).docs@.last().id == DocumentId(old(self).next_doc),
            final(self).docs@.last().text@.len() == 0,
            final(self).focused == old(self).focused,
            final(self).next_view == old(self).next_view + 1,
            final(self).next_doc == old(self).next_doc + 1,
    {
        self.open_document(Vec::new(), None)
    }

    /// Adds a document holding `text` (from `path`, if any) with one view
    /// and returns the view.
    pub fn open_document(&mut self, text: Vec<char>, path: Option<String>) -> (id: ViewId)
        requires
            old(self).wf(),
            old(self).next_view < u64::MAX,
            old(self).next_doc < u64::MAX,
        ensures
            final(self).wf(),
            id == ViewId(old(self).next_view),
            !old(self).has_view(id),
            final(self).views@.len() == old(self).views@.len() + 1,
            final(self).views@.drop_last() == old(self).views@,
            final(self).views@.last().id == id,
            final(self).views@.last().doc == DocumentId(old(self).next_doc),
            final(self).docs@.drop_last() == old(self).docs@,
            final(self).docs@.last().id == DocumentId(old(self).next_doc),
            final(self).docs@.last().text@ == text@,
            final(self).docs@.last().path == path,
            !final(self).docs@.last().readonly && !final(self).docs@.last().modified,
            final(self).focused == old(self).focused,
            final(self).next_view == old(self).next_view + 1,
            final(self).next_doc == old(self).next_doc + 1,
    {
        let vid = ViewId(self.next_view);
        let did = DocumentId(self.next_doc);
        self.docs.push(
            Document { id: did, text, path, readonly: false, modified: false },
        );
        self.views.push(
            Buffer {
                id: vid,
                doc: did,
                cursor: 0,
                selection: Selection::point(0),
                scroll_line: 0,
                scroll_segment: 0,
                readonly_override: None,
                mode: InputMode::Normal,
                last_search: None,
            },
        );
        self.next_view = self.next_view + 1;
        self.next_doc = self.next_doc + 1;
        proof {
            assert(self.views@.drop_last() =~= old(self).views@);
            assert(self.docs@.drop_last() =~= old(self).docs@);
            assert(forall|i: int| 0 <= i < old(self).views@.len() ==> self.views@[i] == old(self).views@[i]);
            assert(forall|i: int| 0 <= i < old(self).docs@.len() ==> self.docs@[i] == old(self).docs@[i]);
            assert(forall|i: int| 0 <= i < old(self).views@.len() ==> #[trigger] self.views@[i].id.0 < vid.0);
            assert(forall|i: int| 0 <= i < old(self).docs@.len() ==> #[trigger] self.docs@[i].id.0 < did.0);
            assert forall|i: int, j: int| 0 <= i < j < self.docs@.len() implies self.docs@[i].id
                != self.docs@[j].id by {
                if j == old(self).docs@.len() {
                    assert(self.docs@[i].id.0 < did.0);
                } else {
                    assert(old(self).docs@[i].id != old(self).docs@[j].id);
                }
            }
            assert forall|i: int, j: int| 0 <= i < j < self.views@.len() implies self.views@[i].id
                != self.views@[j].id by {
                if j == old(self).views@.len() {
                    assert(self.views@[i].id.0 < vid.0);
                } else {
                    assert(old(self).views@[i].id != old(self).views@[j].id);
                }
            }
            assert forall|i: int| 0 <= i < self.views@.len() implies self.has_doc(
                #[trigger] self.views@[i].doc,
            ) by {
                if i < old(self).views@.len() {
                    let j = choose|j: int|
                        0 <= j < old(self).docs@.len() && old(self).docs@[j].id == old(self).views@[i].doc;
                    assert(self.docs@[j].id == self.views@[i].doc);
                } else {
                    assert(self.docs@[old(self).docs@.len() as int].id == did);
                }
            }
            if old(self).has_view(vid) {
                let j = choose|j: int| 0 <= j < old(self).views@.len() && old(self).views@[j].id == vid;
                assert(old(self).views@[j].id.0 < old(self).next_view);
            }
        }
        vid
    }

    /// Adds a new view onto the document of `source`, copying its view state,
    /// and returns the new view's id. `None` when `source` does not exist.
    pub fn clone_buffer_for_split(&mut self, source: ViewId) -> (r: Option<ViewId>)
        requires
            old(self).wf(),
            old(self).next_view < u64::MAX,
        ensures
            final(self).wf(),
            r is None <==> !old(self).has_view(source),
            r is None ==> final(self).views@ == old(self).views@ && final(self).next_view == old(self).next_view,
            r matches Some(id) ==> id == ViewId(old(self).next_view) && final(self).views@.len() == old(self).views@.len()
                + 1 && final(self).views@.drop_last() == old(self).views@ && final(self).views@.last().id == id && final(self).views@.last().doc
                == old(self).view(source).doc && final(self).views@.last().cursor == old(self).view(source).cursor
                && final(self).next_view == old(self).next_view + 1,
            final(self).docs == old(self).docs,
            final(self).focused == old(self).focused,
            final(self).next_doc == old(self).next_doc,
    {
        match self.index_of(source) {
            None => None,
            Some(i) => {
                proof {
                    self.lemma_view_at(i as int);
                }
                let vid = ViewId(self.next_view);
                let b = self.views[i].clone_for_split(vid);
                self.views.push(b);
                self.next_view = self.next_view + 1;
                proof {
                    assert(self.views@.drop_last() =~= old(self).views@);
                    assert(forall|k: int| 0 <= k < old(self).views@.len() ==> self.views@[k] == old(self).views@[k]);
                    assert(forall|k: int| 0 <= k < old(self).views@.len() ==> #[trigger] self.views@[k].id.0 < vid.0);
                    assert forall|a: int, c: int| 0 <= a < c < self.views@.len() implies self.views@[a].id
                        != self.views@[c].id by {
                        if c == old(self).views@.len() {
                            assert(self.views@[a].id.0 < vid.0);
                        } else {
                            assert(old(self).views@[a].id != old(self).views@[c].id);
                        }
                    }
                    assert(self.has_doc(self.views@[i as int].doc));
                    assert forall|k: int| 0 <= k < self.views@.len() implies self.has_doc(
                        #[trigger] self.views@[k].doc,
                    ) by {
                        if k < old(self).views@.len() {
                            assert(old(self).has_doc(old(self).views@[k].doc));
                        }
                    }
                }
                Some(vid)
            },
        }
    }

    /// Removes a view and returns it; its document stays.
    pub fn remove_buffer_raw(&mut self, id: ViewId) -> (r: Option<Buffer>)
        requires
            old(self).wf(),
        ensures
            final(self).wf(),
            r is None <==> !old(self).has_view(id),
            r is None ==> final(self).views == old(self).views,
            r matches Some(b) ==> b == old(self).view(id) && !final(self).has_view(id),
            forall|v: ViewId| v != id ==> (final(self).has_view(v) <==> old(self).has_view(v)),
            forall|v: ViewId| v != id && old(self).has_view(v) ==> final(self).view(v) == old(self).view(v),
            final(self).views@ == old(self).views@.filter(|b: Buffer| b.id != id),
            final(self).docs == old(self).docs,
            final(self).focused == old(self).focused,
            final(self).next_view == old(self).next_view,
            final(self).next_doc == old(self).next_doc,
    {
        match self.index_of(id) {
            None => {
                proof {
                    self.lemma_filter_absent(id);
                }
                None
            },
            Some(i) => {
                proof {
                    self.lemma_view_at(i as int);
                    self.lemma_filter_remove(i as int);
                }
                let b = self.views.remove(i);
                proof {
                    let o = old(self).views@;
                    assert(self.views@ =~= o.subrange(0, i as int) + o.subrange(i + 1, o.len() as int));
                    assert forall|v: ViewId| v != id implies (self.has_view(v) <==> old(self).has_view(v)) by {
                        if old(self).has_view(v) {
                            let k = choose|k: int| 0 <= k < o.len() && o[k].id == v;
                            if k < i {
                                assert(self.views@[k].id == v);
                            } else {
                                assert(k != i);
                                assert(self.views@[k - 1].id == v);
                            }
                        }
                        if self.has_view(v) {
                            let k = choose|k: int| 0 <= k < self.views@.len() && self.views@[k].id == v;
                            if k < i {
                                assert(o[k].id == v);
                            } else {
                                assert(o[k + 1].id == v);
                            }
                        }
                    }
                    assert forall|v: ViewId| v != id && old(self).has_view(v) implies self.view(v)
                        == old(self).view(v) by {
                        let k = choose|k: int| 0 <= k < self.views@.len() && self.views@[k].id == v;
                        assert(0 <= k < self.views@.len() && self.views@[k].id == v);
                        self.lemma_view_at(k);
                        if k < i {
                            old(self).lemma_view_at(k);
                        } else {
                            old(self).lemma_view_at(k + 1);
                        }
                    }
                    if self.has_view(id) {
                        let k = choose|k: int| 0 <= k < self.views@.len() && self.views@[k].id == id;
                        if k < i {
                            assert(o[k].id == id && o[i as int].id == id);
                        } else {
                            assert(o[k + 1].id == id && o[i as int].id == id);
                        }
                    }
                }
                Some(b)
            },
        }
    }

    proof fn lemma_filter_absent(&self, id: ViewId)
        requires
            !self.has_view(id),
        ensures
            self.views@.filter(|b: Buffer| b.id != id) == self.views@,
        decreases self.views@.len(),
    {
        let pred = |b: Buffer| b.id != id;
        lemma_filter_all(self.views@, pred);
    }

    proof fn lemma_filter_remove(&self, i: int)
        requires
            self.wf(),
            0 <= i < self.views@.len(),
        ensures
            self.views@.filter(|b: Buffer| b.id != self.views@[i].id) == self.views@.subrange(0, i)
                + self.views@.subrange(i + 1, self.views@.len() as int),
    {
        let id = self.views@[i].id;
        let pred = |b: Buffer| b.id != id;
        lemma_filter_one(self.views@, pred, i);
    }
}

/// Filtering with a predicate true everywhere keeps the sequence.
pub proof fn lemma_filter_all<A>(s: Seq<A>, pred: spec_fn(A) -> bool)
    requires
        forall|i: int| 0 <= i < s.len() ==> pred(s[i]),
    ensures
        s.filter(pred) == s,
    decreases s.len(),
{
    reveal(Seq::filter);
    if s.len() > 0 {
        lemma_filter_all(s.drop_last(), pred);
        assert(s.drop_last().push(s.last()) =~= s);
    } else {
        assert(s =~= Seq::<A>::empty());
    }
}

/// Filtering out exactly one position removes that element.
pub proof fn lemma_filter_one<A>(s: Seq<A>, pred: spec_fn(A) -> bool, i: int)
    requires
        0 <= i < s.len(),
        !pred(s[i]),
        forall|j: int| 0 <= j < s.len() && j != i ==> pred(s[j]),
    ensures
        s.filter(pred) == s.subrange(0, i) + s.subrange(i + 1, s.len() as int),
    decreases s.len(),
{
    reveal(Seq::filter);
    if i == s.len() - 1 {
        lemma_filter_all(s.drop_last(), pred);
        assert(s.drop_last() =~= s.subrange(0, i));
        assert(s.subrange(i + 1, s.len() as int) =~= Seq::<A>::empty());
        assert(s.subrange(0, i) + s.subrange(i + 1, s.len() as int) =~= s.subrange(0, i));
    } else {
        lemma_filter_one(s.drop_last(), pred, i);
        let d = s.drop_last();
        assert(d.subrange(0, i) =~= s.subrange(0, i));
        assert(d.subrange(i + 1, d.len() as int).push(s.last()) =~= s.subrange(i + 1, s.len() as int));
        assert((s.subrange(0, i) + d.subrange(i + 1, d.len() as int)).push(s.last()) =~= s.subrange(0, i)
            + s.subrange(i + 1, s.len() as int));
    }
}

} // verus!
