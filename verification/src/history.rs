//! Editor-level undo/redo: document text plus the view state of every view
//! of the edited document, so that undo and redo restore the exact editing
//! context.

use vstd::prelude::*;

use crate::buffer::{
    buffer_state, clamp_pos, clamp_range, clamp_state, lemma_clamp_valid, snapshot_state,
    state_valid, Buffer, BufferManager, ViewSnapshot, ViewState,
};
use crate::editor::Editor;
use crate::editor_core::EditorCore;
use crate::ids::{DocumentId, ViewId};
use crate::selection::{Range, Selection};

verus! {

/// The replacement of the chars in `[start, end)` by `replacement`.
#[derive(Debug)]
pub struct TextChange {
    pub start: usize,
    pub end: usize,
    pub replacement: Vec<char>,
}

/// How an edit is recorded in the undo history.
#[derive(Debug, Clone, Copy, PartialEq, Eq, Structural)]
pub enum UndoPolicy {
    /// Start a new undo group.
    Record,
    /// Extend the open group of consecutive merged edits, or start one.
    MergeWithCurrentGroup,
    /// Leave the history untouched.
    NoUndo,
}

/// The text after the change.
pub open spec fn changed_text(t: Seq<char>, c: TextChange) -> Seq<char> {
    t.subrange(0, c.start as int) + c.replacement@ + t.subrange(c.end as int, t.len() as int)
}

/// The change lies within a text of length `len` and the result fits in
/// memory.
pub open spec fn change_fits(len: nat, c: TextChange) -> bool {
    &&& c.start <= c.end <= len
    &&& len - (c.end - c.start) + c.replacement@.len() <= usize::MAX
}

/// Where a position ends up after the change: positions up to the start
/// stay, positions inside the replaced span move to its start, positions
/// after it shift by the change in length.
pub open spec fn map_pos(p: usize, c: TextChange) -> usize {
    if p <= c.start {
        p
    } else if p < c.end {
        c.start
    } else {
        (p - (c.end - c.start) + c.replacement@.len()) as usize
    }
}

pub open spec fn map_range(r: Range, c: TextChange) -> Range {
    Range { anchor: map_pos(r.anchor, c), head: map_pos(r.head, c) }
}

/// A view state carried through the change (after clamping it to the old
/// text).
pub open spec fn map_state(s: ViewState, c: TextChange, len: usize) -> ViewState {
    ViewState {
        cursor: map_pos(clamp_pos(s.cursor, len), c),
        ranges: s.ranges.map_values(|r: Range| map_range(clamp_range(r, len), c)),
        primary: s.primary,
        scroll_line: s.scroll_line,
        scroll_segment: s.scroll_segment,
    }
}

/// The state of the edited view when the edit brings its own selection: the
/// cursor goes to the primary head, clamped to the new text.
pub open spec fn selected_state(b: Buffer, sel: Selection, len: usize) -> ViewState {
    clamp_state(
        ViewState {
            cursor: sel.primary_spec().head,
            ranges: sel.ranges@,
            primary: sel.primary_index,
            scroll_line: b.scroll_line,
            scroll_segment: b.scroll_segment,
        },
        len,
    )
}

/// A view's state after an edit of document `d` made through view `target`.
pub open spec fn edited_state(
    b: Buffer,
    d: DocumentId,
    target: ViewId,
    c: TextChange,
    sel: Option<Selection>,
    old_len: usize,
    new_len: usize,
) -> ViewState {
    if b.doc != d {
        buffer_state(b)
    } else if b.id == target && sel is Some {
        selected_state(b, sel->0, new_len)
    } else {
        map_state(buffer_state(b), c, old_len)
    }
}

/// The new text as a vector.
pub fn apply_change_text(t: &Vec<char>, c: &TextChange) -> (r: Vec<char>)
    requires
        change_fits(t@.len(), *c),
    ensures
        r@ == changed_text(t@, *c),
{
    let mut r: Vec<char> = Vec::new();
    let mut i: usize = 0;
    while i < c.start
        invariant
            i <= c.start <= c.end <= t@.len(),
            r@ == t@.subrange(0, i as int),
        decreases c.start - i,
    {
        r.push(t[i]);
        i = i + 1;
        proof {
            assert(r@ =~= t@.subrange(0, i as int));
        }
    }
    let mut k: usize = 0;
    while k < c.replacement.len()
        invariant
            k <= c.replacement@.len(),
            r@ == t@.subrange(0, c.start as int) + c.replacement@.subrange(0, k as int),
        decreases c.replacement@.len() - k,
    {
        r.push(c.replacement[k]);
        k = k + 1;
        proof {
            assert(r@ =~= t@.subrange(0, c.start as int) + c.replacement@.subrange(0, k as int));
        }
    }
    let mut j: usize = c.end;
    while j < t.len()
        invariant
            c.start <= c.end <= j <= t@.len(),
            r@ == t@.subrange(0, c.start as int) + c.replacement@ + t@.subrange(
                c.end as int,
                j as int,
            ),
        decreases t@.len() - j,
    {
        proof {
            assert(c.replacement@.subrange(0, c.replacement@.len() as int) =~= c.replacement@);
        }
        r.push(t[j]);
        j = j + 1;
        proof {
            assert(r@ =~= t@.subrange(0, c.start as int) + c.replacement@ + t@.subrange(
                c.end as int,
                j as int,
            ));
        }
    }
    proof {
        assert(c.replacement@.subrange(0, c.replacement@.len() as int) =~= c.replacement@);
        assert(r@ =~= changed_text(t@, *c));
    }
    r
}

/// `map_pos` of a position clamped to the old text; the result lies within
/// the new text.
pub fn map_position(p: usize, c: &TextChange, len: usize) -> (q: usize)
    requires
        change_fits(len as nat, *c),
    ensures
        q == map_pos(clamp_pos(p, len), *c),
        q <= len - (c.end - c.start) + c.replacement@.len(),
{
    let p = if p <= len { p } else { len };
    if p <= c.start {
        p
    } else if p < c.end {
        c.start
    } else {
        p - (c.end - c.start) + c.replacement.len()
    }
}

impl Buffer {
    /// Carries this view's cursor and selection through a change of a text
    /// of length `len`.
    pub fn map_through(&mut self, c: &TextChange, len: usize)
        requires
            change_fits(len as nat, *c),
        ensures
            final(self).id == old(self).id,
            final(self).doc == old(self).doc,
            buffer_state(*final(self)) == map_state(buffer_state(*old(self)), *c, len),
    {
        self.cursor = map_position(self.cursor, c, len);
        let mut out: Vec<Range> = Vec::new();
        let mut i: usize = 0;
        while i < self.selection.ranges.len()
            invariant
                i <= self.selection.ranges@.len(),
                self.selection == old(self).selection,
                change_fits(len as nat, *c),
                out@ == self.selection.ranges@.subrange(0, i as int).map_values(
                    |r: Range| map_range(clamp_range(r, len), *c),
                ),
            decreases self.selection.ranges@.len() - i,
        {
            let r = self.selection.ranges[i];
            let a = map_position(r.anchor, c, len);
            let h = map_position(r.head, c, len);
            out.push(Range { anchor: a, head: h });
            i = i + 1;
            proof {
                assert(out@ =~= self.selection.ranges@.subrange(0, i as int).map_values(
                    |r: Range| map_range(clamp_range(r, len), *c),
                ));
            }
        }
        proof {
            assert(self.selection.ranges@.subrange(0, i as int) =~= self.selection.ranges@);
        }
        self.selection.ranges = out;
        proof {
            assert(buffer_state(*self) =~= map_state(buffer_state(*old(self)), *c, len));
        }
    }

    /// Gives this view the selection an edit brought, clamped to the new
    /// text of length `len`; the cursor goes to the primary head.
    pub fn take_edit_selection(&mut self, sel: &Selection, len: usize)
        requires
            sel.wf(),
        ensures
            final(self).id == old(self).id,
            final(self).doc == old(self).doc,
            buffer_state(*final(self)) == selected_state(*old(self), *sel, len),
            final(self).selection.wf(),
    {
        self.cursor = sel.primary().head;
        self.selection = sel.duplicate();
        self.ensure_valid_selection(len);
        proof {
            assert(buffer_state(*self) =~= selected_state(*old(self), *sel, len));
        }
    }
}

/// One undo step: the document text and the view state of its views, as
/// they were before the grouped edits.
#[derive(Debug)]
pub struct EditorUndoGroup {
    pub doc: DocumentId,
    pub text: Vec<char>,
    pub view_snapshots: Vec<(ViewId, ViewSnapshot)>,
}

/// The (view, state) pairs a group holds.
pub open spec fn group_states(g: EditorUndoGroup) -> Seq<(ViewId, ViewState)> {
    g.view_snapshots@.map_values(|p: (ViewId, ViewSnapshot)| (p.0, snapshot_state(p.1)))
}

/// Every snapshot of the group has a well-formed selection.
pub open spec fn group_wf(g: EditorUndoGroup) -> bool {
    forall|i: int|
        0 <= i < g.view_snapshots@.len() ==> (#[trigger] g.view_snapshots@[i]).1.selection.wf()
}

impl EditorUndoGroup {
    /// Whether the group holds a snapshot of this view.
    pub fn has_snapshot(&self, id: ViewId) -> (b: bool)
        ensures
            b == exists|i: int| 0 <= i < self.view_snapshots@.len() && self.view_snapshots@[i].0 == id,
    {
        let mut i: usize = 0;
        while i < self.view_snapshots.len()
            invariant
                i <= self.view_snapshots@.len(),
                forall|k: int| 0 <= k < i ==> self.view_snapshots@[k].0 != id,
            decreases self.view_snapshots@.len() - i,
        {
            if self.view_snapshots[i].0 == id {
                return true;
            }
            i = i + 1;
        }
        false
    }

    /// Number of view snapshots in the group.
    pub fn snapshot_count(&self) -> (n: usize)
        ensures
            n == self.view_snapshots@.len(),
    {
        self.view_snapshots.len()
    }
}

/// Both stacks and the merge flag are unchanged.
pub open spec fn same_history(u0: UndoManager, u1: UndoManager) -> bool {
    &&& u1.undo_groups() == u0.undo_groups()
    &&& u1.redo_groups() == u0.redo_groups()
    &&& u1.merge_is_open() == u0.merge_is_open()
}

/// `u1` is `u0` with one more undo group: document `d`, its text `text` and
/// its views' states `states`.
pub open spec fn pushed_group(
    u0: UndoManager,
    u1: UndoManager,
    d: DocumentId,
    text: Seq<char>,
    states: Seq<(ViewId, ViewState)>,
) -> bool {
    &&& u1.undo_groups().len() == u0.undo_groups().len() + 1
    &&& u1.undo_groups().drop_last() == u0.undo_groups()
    &&& u1.undo_groups().last().doc == d
    &&& u1.undo_groups().last().text@ == text
    &&& group_states(u1.undo_groups().last()) == states
}

/// The history after an edit of document `d` (text `text` and view states
/// `states` before it) recorded under `policy`. A new group clears the redo
/// stack; a merged edit extends the open group when it edits the same
/// document; `NoUndo` changes nothing.
pub open spec fn history_post(
    u0: UndoManager,
    u1: UndoManager,
    d: DocumentId,
    text: Seq<char>,
    states: Seq<(ViewId, ViewState)>,
    policy: UndoPolicy,
) -> bool {
    match policy {
        UndoPolicy::NoUndo => same_history(u0, u1),
        UndoPolicy::Record => {
            &&& pushed_group(u0, u1, d, text, states)
            &&& u1.redo_groups().len() == 0
            &&& !u1.merge_is_open()
        },
        UndoPolicy::MergeWithCurrentGroup => {
            if u0.merge_is_open() && u0.undo_groups().len() > 0 && u0.undo_groups().last().doc == d {
                same_history(u0, u1)
            } else {
                &&& pushed_group(u0, u1, d, text, states)
                &&& u1.redo_groups().len() == 0
                &&& u1.merge_is_open()
            }
        },
    }
}

/// Undo and redo stacks, plus whether the newest undo group still accepts
/// merged edits.
#[derive(Debug)]
pub struct UndoManager {
    undo_stack: Vec<EditorUndoGroup>,
    redo_stack: Vec<EditorUndoGroup>,
    merge_open: bool,
}

impl UndoManager {
    #[verifier::type_invariant]
    spec fn inv(self) -> bool {
        &&& forall|i: int| 0 <= i < self.undo_stack@.len() ==> group_wf(#[trigger] self.undo_stack@[i])
        &&& forall|i: int| 0 <= i < self.redo_stack@.len() ==> group_wf(#[trigger] self.redo_stack@[i])
    }

    pub closed spec fn undo_groups(self) -> Seq<EditorUndoGroup> {
        self.undo_stack@
    }

    pub closed spec fn redo_groups(self) -> Seq<EditorUndoGroup> {
        self.redo_stack@
    }

    /// Whether the next merged edit extends the newest undo group.
    pub closed spec fn merge_is_open(self) -> bool {
        self.merge_open
    }

    pub fn new() -> (u: Self)
        ensures
            u.undo_groups().len() == 0,
            u.redo_groups().len() == 0,
            !u.merge_is_open(),
    {
        UndoManager { undo_stack: Vec::new(), redo_stack: Vec::new(), merge_open: false }
    }

    pub fn undo_len(&self) -> (n: usize)
        ensures
            n == self.undo_groups().len(),
    {
        self.undo_stack.len()
    }

    pub fn redo_len(&self) -> (n: usize)
        ensures
            n == self.redo_groups().len(),
    {
        self.redo_stack.len()
    }

    pub fn can_undo(&self) -> (b: bool)
        ensures
            b == (self.undo_groups().len() > 0),
    {
        self.undo_stack.len() > 0
    }

    pub fn can_redo(&self) -> (b: bool)
        ensures
            b == (self.redo_groups().len() > 0),
    {
        self.redo_stack.len() > 0
    }

    /// Records an edit of document `d` whose text before it was `text` and
    /// whose views' states were `snaps`, as `policy` says.
    pub fn record_edit(
        &mut self,
        d: DocumentId,
        text: Vec<char>,
        snaps: Vec<(ViewId, ViewSnapshot)>,
        policy: UndoPolicy,
    )
        requires
            forall|j: int| 0 <= j < snaps@.len() ==> (#[trigger] snaps@[j]).1.selection.wf(),
        ensures
            history_post(*old(self), *final(self), d, text@, snapshot_states(snaps@), policy),
    {
        proof {
            use_type_invariant(&*self);
        }
        let continues = self.merge_open && self.undo_stack.len() > 0
            && self.undo_stack[self.undo_stack.len() - 1].doc == d;
        let open_after = match policy {
            UndoPolicy::NoUndo => {
                return ;
            },
            UndoPolicy::MergeWithCurrentGroup => {
                if continues {
                    return ;
                }
                true
            },
            UndoPolicy::Record => false,
        };
        let ghost snaps_v = snaps@;
        let mut st: Vec<EditorUndoGroup> = Vec::new();
        std::mem::swap(&mut st, &mut self.undo_stack);
        st.push(EditorUndoGroup { doc: d, text, view_snapshots: snaps });
        proof {
            assert(st@.drop_last() =~= old(self).undo_stack@);
            assert(group_states(st@.last()) =~= snapshot_states(snaps_v));
        }
        self.undo_stack = st;
        self.redo_stack = Vec::new();
        self.merge_open = open_after;
    }

    /// Takes the newest undo group off its stack and closes merging.
    fn pop_undo(&mut self) -> (g: EditorUndoGroup)
        requires
            old(self).undo_groups().len() > 0,
        ensures
            g == old(self).undo_groups().last(),
            group_wf(g),
            final(self).undo_groups() == old(self).undo_groups().drop_last(),
            final(self).redo_groups() == old(self).redo_groups(),
            !final(self).merge_is_open(),
    {
        proof {
            use_type_invariant(&*self);
        }
        let mut st: Vec<EditorUndoGroup> = Vec::new();
        std::mem::swap(&mut st, &mut self.undo_stack);
        let g = st.pop().unwrap();
        self.undo_stack = st;
        self.merge_open = false;
        g
    }

    /// Takes the newest redo group off its stack and closes merging.
    fn pop_redo(&mut self) -> (g: EditorUndoGroup)
        requires
            old(self).redo_groups().len() > 0,
        ensures
            g == old(self).redo_groups().last(),
            group_wf(g),
            final(self).redo_groups() == old(self).redo_groups().drop_last(),
            final(self).undo_groups() == old(self).undo_groups(),
            !final(self).merge_is_open(),
    {
        proof {
            use_type_invariant(&*self);
        }
        let mut st: Vec<EditorUndoGroup> = Vec::new();
        std::mem::swap(&mut st, &mut self.redo_stack);
        let g = st.pop().unwrap();
        self.redo_stack = st;
        self.merge_open = false;
        g
    }

    fn push_redo(&mut self, g: EditorUndoGroup)
        requires
            group_wf(g),
        ensures
            final(self).redo_groups() == old(self).redo_groups().push(g),
            final(self).undo_groups() == old(self).undo_groups(),
            final(self).merge_is_open() == old(self).merge_is_open(),
    {
        proof {
            use_type_invariant(&*self);
        }
        let mut st: Vec<EditorUndoGroup> = Vec::new();
        std::mem::swap(&mut st, &mut self.redo_stack);
        st.push(g);
        self.redo_stack = st;
    }

    fn push_undo(&mut self, g: EditorUndoGroup)
        requires
            group_wf(g),
        ensures
            final(self).undo_groups() == old(self).undo_groups().push(g),
            final(self).redo_groups() == old(self).redo_groups(),
            final(self).merge_is_open() == old(self).merge_is_open(),
    {
        proof {
            use_type_invariant(&*self);
        }
        let mut st: Vec<EditorUndoGroup> = Vec::new();
        std::mem::swap(&mut st, &mut self.undo_stack);
        st.push(g);
        self.undo_stack = st;
    }

    /// The newest redo group, if any.
    pub fn last_redo_group(&self) -> (g: Option<&EditorUndoGroup>)
        ensures
            g is None <==> self.redo_groups().len() == 0,
            g matches Some(x) ==> *x == self.redo_groups().last(),
    {
        if self.redo_stack.len() == 0 {
            None
        } else {
            Some(&self.redo_stack[self.redo_stack.len() - 1])
        }
    }

    /// The newest undo group, if any.
    pub fn last_undo_group(&self) -> (g: Option<&EditorUndoGroup>)
        ensures
            g is None <==> self.undo_groups().len() == 0,
            g matches Some(x) ==> *x == self.undo_groups().last(),
    {
        if self.undo_stack.len() == 0 {
            None
        } else {
            Some(&self.undo_stack[self.undo_stack.len() - 1])
        }
    }
}

/// The (view, state) pairs of the views of document `d`, in storage order.
pub open spec fn collect_states(views: Seq<Buffer>, d: DocumentId) -> Seq<(ViewId, ViewState)>
    decreases views.len(),
{
    if views.len() == 0 {
        Seq::empty()
    } else {
        let rest = collect_states(views.drop_last(), d);
        if views.last().doc == d {
            rest.push((views.last().id, buffer_state(views.last())))
        } else {
            rest
        }
    }
}

/// The state recorded for a view, if any (the last entry wins).
pub open spec fn lookup_state(s: Seq<(ViewId, ViewState)>, id: ViewId) -> Option<ViewState>
    decreases s.len(),
{
    if s.len() == 0 {
        None
    } else if s.last().0 == id {
        Some(s.last().1)
    } else {
        lookup_state(s.drop_last(), id)
    }
}

/// A view's state after snapshots are restored: its recorded state if it
/// has one, else its own; either way clamped to its document's length.
pub open spec fn restored_state(b: Buffer, snaps: Seq<(ViewId, ViewState)>, len: usize) -> ViewState {
    match lookup_state(snaps, b.id) {
        Some(s) => clamp_state(s, len),
        None => clamp_state(buffer_state(b), len),
    }
}

/// Looking a view up among the collected states of document `d` finds its
/// own state exactly when it belongs to `d` (view ids being distinct).
pub proof fn lemma_lookup_collected(views: Seq<Buffer>, d: DocumentId, i: int)
    requires
        0 <= i < views.len(),
        forall|a: int, b: int| 0 <= a < b < views.len() ==> views[a].id != views[b].id,
    ensures
        lookup_state(collect_states(views, d), views[i].id) == if views[i].doc == d {
            Some(buffer_state(views[i]))
        } else {
            None::<ViewState>
        },
    decreases views.len(),
{
    let n = views.len();
    let rest = views.drop_last();
    let cr = collect_states(rest, d);
    let x = (views.last().id, buffer_state(views.last()));
    assert(cr.push(x).drop_last() =~= cr);
    assert(cr.push(x).last() == x);
    if i == n - 1 {
        assert forall|a: int| 0 <= a < rest.len() implies rest[a].id != views[i].id by {
            assert(views[a].id != views[n - 1].id);
        }
        lemma_lookup_absent(rest, d, views[i].id);
    } else {
        assert(rest[i] == views[i]);
        lemma_lookup_collected(rest, d, i);
        assert(views[i].id != views[n - 1].id);
    }
}

/// No collected state is found for an id no view has.
pub proof fn lemma_lookup_absent(views: Seq<Buffer>, d: DocumentId, id: ViewId)
    requires
        forall|a: int| 0 <= a < views.len() ==> views[a].id != id,
    ensures
        lookup_state(collect_states(views, d), id) is None,
    decreases views.len(),
{
    if views.len() > 0 {
        let rest = views.drop_last();
        lemma_lookup_absent(rest, d, id);
        let cr = collect_states(rest, d);
        assert(views.last().id != id);
        if views.last().doc == d {
            let x = (views.last().id, buffer_state(views.last()));
            assert(cr.push(x).drop_last() =~= cr);
            assert(cr.push(x).last() == x);
        }
    }
}

impl BufferManager {
    /// Every view's selection is well formed.
    pub open spec fn selections_wf(&self) -> bool {
        forall|i: int| 0 <= i < self.views@.len() ==> (#[trigger] self.views@[i]).selection.wf()
    }

    /// Every view's state lies within its document's text.
    pub open spec fn views_valid(&self) -> bool {
        forall|i: int, k: int|
            0 <= i < self.views@.len() && 0 <= k < self.docs@.len() && #[trigger] self.docs@[k].id
                == #[trigger] self.views@[i].doc ==> state_valid(
                buffer_state(self.views@[i]),
                self.docs@[k].text.len(),
            )
    }

    /// Snapshots of the view state of every view of document `d`.
    pub fn collect_view_snapshots(&self, d: DocumentId) -> (r: Vec<(ViewId, ViewSnapshot)>)
        requires
            self.selections_wf(),
        ensures
            r@.map_values(|p: (ViewId, ViewSnapshot)| (p.0, snapshot_state(p.1))) == collect_states(
                self.views@,
                d,
            ),
            forall|i: int| 0 <= i < r@.len() ==> (#[trigger] r@[i]).1.selection.wf(),
    {
        let mut r: Vec<(ViewId, ViewSnapshot)> = Vec::new();
        let mut i: usize = 0;
        while i < self.views.len()
            invariant
                i <= self.views@.len(),
                self.selections_wf(),
                r@.map_values(|p: (ViewId, ViewSnapshot)| (p.0, snapshot_state(p.1))) == collect_states(
                    self.views@.subrange(0, i as int),
                    d,
                ),
                forall|k: int| 0 <= k < r@.len() ==> (#[trigger] r@[k]).1.selection.wf(),
            decreases self.views@.len() - i,
        {
            proof {
                assert(self.views@.subrange(0, i + 1).drop_last() =~= self.views@.subrange(0, i as int));
            }
            if self.views[i].doc == d {
                let snap = self.views[i].snapshot_view();
                proof {
                    assert(self.views@[i as int].selection.wf());
                }
                r.push((self.views[i].id, snap));
                proof {
                    assert(r@.map_values(|p: (ViewId, ViewSnapshot)| (p.0, snapshot_state(p.1))) =~= collect_states(
                        self.views@.subrange(0, i + 1),
                        d,
                    ));
                }
            }
            i = i + 1;
        }
        proof {
            assert(self.views@.subrange(0, i as int) =~= self.views@);
        }
        r
    }
}

/// The (view, state) pairs of a snapshot list.
pub open spec fn snapshot_states(s: Seq<(ViewId, ViewSnapshot)>) -> Seq<(ViewId, ViewState)> {
    s.map_values(|p: (ViewId, ViewSnapshot)| (p.0, snapshot_state(p.1)))
}

/// Position of the last snapshot of this view.
pub fn find_snapshot(snaps: &Vec<(ViewId, ViewSnapshot)>, id: ViewId) -> (r: Option<usize>)
    ensures
        r is None ==> lookup_state(snapshot_states(snaps@), id) is None,
        r matches Some(j) ==> j < snaps@.len() && lookup_state(snapshot_states(snaps@), id) == Some(
            snapshot_state(snaps@[j as int].1),
        ),
{
    let mut n: usize = snaps.len();
    proof {
        assert(snaps@.subrange(0, n as int) =~= snaps@);
    }
    while n > 0
        invariant
            n <= snaps@.len(),
            lookup_state(snapshot_states(snaps@), id) == lookup_state(
                snapshot_states(snaps@.subrange(0, n as int)),
                id,
            ),
        decreases n,
    {
        let ghost sub = snapshot_states(snaps@.subrange(0, n as int));
        proof {
            assert(sub.drop_last() =~= snapshot_states(snaps@.subrange(0, n - 1)));
        }
        if snaps[n - 1].0 == id {
            return Some(n - 1);
        }
        n = n - 1;
    }
    None
}

impl BufferManager {
    /// Restores the recorded state of every view that has a snapshot and
    /// clamps every view to its document's text.
    pub fn restore_view_snapshots(&mut self, snaps: &Vec<(ViewId, ViewSnapshot)>)
        requires
            old(self).wf(),
            old(self).selections_wf(),
            forall|j: int| 0 <= j < snaps@.len() ==> (#[trigger] snaps@[j]).1.selection.wf(),
        ensures
            final(self).wf(),
            final(self).selections_wf(),
            final(self).docs == old(self).docs,
            final(self).focused == old(self).focused,
            final(self).next_view == old(self).next_view,
            final(self).next_doc == old(self).next_doc,
            final(self).views@.len() == old(self).views@.len(),
            forall|i: int|
                0 <= i < old(self).views@.len() ==> (#[trigger] final(self).views@[i]).id == old(self).views@[i].id
                    && final(self).views@[i].doc == old(self).views@[i].doc,
            forall|i: int, k: int|
                0 <= i < old(self).views@.len() && 0 <= k < old(self).docs@.len()
                    && #[trigger] old(self).docs@[k].id == #[trigger] old(self).views@[i].doc
                    ==> buffer_state(final(self).views@[i]) == restored_state(
                    old(self).views@[i],
                    snapshot_states(snaps@),
                    old(self).docs@[k].text.len(),
                ),
    {
        let mut i: usize = 0;
        while i < self.views.len()
            invariant
                i <= self.views@.len(),
                self.views@.len() == old(self).views@.len(),
                self.docs == old(self).docs,
                self.focused == old(self).focused,
                self.next_view == old(self).next_view,
                self.next_doc == old(self).next_doc,
                old(self).wf(),
                old(self).selections_wf(),
                forall|j: int| 0 <= j < snaps@.len() ==> (#[trigger] snaps@[j]).1.selection.wf(),
                forall|m: int| i <= m < self.views@.len() ==> self.views@[m] == old(self).views@[m],
                forall|m: int|
                    0 <= m < self.views@.len() ==> (#[trigger] self.views@[m]).id == old(self).views@[m].id
                        && self.views@[m].doc == old(self).views@[m].doc && self.views@[m].selection.wf(),
                forall|m: int, k: int|
                    0 <= m < i && 0 <= k < old(self).docs@.len() && #[trigger] old(self).docs@[k].id
                        == #[trigger] old(self).views@[m].doc ==> buffer_state(self.views@[m]) == restored_state(
                        old(self).views@[m],
                        snapshot_states(snaps@),
                        old(self).docs@[k].text.len(),
                    ),
            decreases self.views@.len() - i,
        {
            let d = self.views[i].doc;
            let id = self.views[i].id;
            proof {
                assert(old(self).has_doc(old(self).views@[i as int].doc));
            }
            let k = match self.doc_index_of(d) {
                Some(k) => k,
                None => {
                    proof {
                        assert(false);
                    }
                    0
                },
            };
            let len = self.docs[k].text.len();
            match find_snapshot(snaps, id) {
                Some(j) => {
                    self.views[i].restore_view(&snaps[j].1, len);
                },
                None => {
                    self.views[i].ensure_valid_selection(len);
                },
            }
            proof {
                assert forall|k2: int|
                    0 <= k2 < old(self).docs@.len() && #[trigger] old(self).docs@[k2].id == old(self).views@[i as int].doc implies k2 == k by {
                    if k2 != k {
                        if k2 < k {
                            assert(old(self).docs@[k2].id != old(self).docs@[k as int].id);
                        } else {
                            assert(old(self).docs@[k as int].id != old(self).docs@[k2].id);
                        }
                    }
                }
            }
            i = i + 1;
        }
        proof {
            assert forall|a: int, b: int| 0 <= a < b < self.views@.len() implies self.views@[a].id
                != self.views@[b].id by {
                assert(old(self).views@[a].id != old(self).views@[b].id);
            }
            assert forall|a: int| 0 <= a < self.views@.len() implies #[trigger] self.views@[a].id.0
                < self.next_view by {
                assert(old(self).views@[a].id.0 < old(self).next_view);
            }
            assert forall|a: int| 0 <= a < self.views@.len() implies self.has_doc(
                #[trigger] self.views@[a].doc,
            ) by {
                assert(old(self).has_doc(old(self).views@[a].doc));
            }
        }
    }
}

impl BufferManager {
    /// Carries every view of document `d` through a change of its text (of
    /// length `old_len`, then `new_len`); view `target` takes `sel` instead
    /// when it is given.
    pub fn apply_change_to_views(
        &mut self,
        d: DocumentId,
        target: ViewId,
        c: &TextChange,
        sel: &Option<Selection>,
        old_len: usize,
        new_len: usize,
    )
        requires
            old(self).wf(),
            old(self).selections_wf(),
            change_fits(old_len as nat, *c),
            new_len == old_len - (c.end - c.start) + c.replacement@.len(),
            sel matches Some(s) ==> s.wf(),
        ensures
            final(self).wf(),
            final(self).selections_wf(),
            final(self).docs == old(self).docs,
            final(self).focused == old(self).focused,
            final(self).next_view == old(self).next_view,
            final(self).next_doc == old(self).next_doc,
            final(self).views@.len() == old(self).views@.len(),
            forall|i: int|
                0 <= i < old(self).views@.len() ==> (#[trigger] final(self).views@[i]).id == old(self).views@[i].id
                    && final(self).views@[i].doc == old(self).views@[i].doc && buffer_state(final(self).views@[i])
                    == edited_state(old(self).views@[i], d, target, *c, *sel, old_len, new_len),
    {
        let mut i: usize = 0;
        while i < self.views.len()
            invariant
                i <= self.views@.len(),
                self.views@.len() == old(self).views@.len(),
                self.docs == old(self).docs,
                self.focused == old(self).focused,
                self.next_view == old(self).next_view,
                self.next_doc == old(self).next_doc,
                old(self).wf(),
                old(self).selections_wf(),
                change_fits(old_len as nat, *c),
                new_len == old_len - (c.end - c.start) + c.replacement@.len(),
                sel matches Some(s) ==> s.wf(),
                forall|m: int| i <= m < self.views@.len() ==> self.views@[m] == old(self).views@[m],
                forall|m: int|
                    0 <= m < self.views@.len() ==> (#[trigger] self.views@[m]).id == old(self).views@[m].id
                        && self.views@[m].doc == old(self).views@[m].doc && self.views@[m].selection.wf(),
                forall|m: int|
                    0 <= m < i ==> buffer_state(#[trigger] self.views@[m]) == edited_state(
                        old(self).views@[m],
                        d,
                        target,
                        *c,
                        *sel,
                        old_len,
                        new_len,
                    ),
            decreases self.views@.len() - i,
        {
            if self.views[i].doc == d {
                if self.views[i].id == target && sel.is_some() {
                    match sel {
                        Some(s) => {
                            self.views[i].take_edit_selection(s, new_len);
                        },
                        None => {},
                    }
                } else {
                    self.views[i].map_through(c, old_len);
                }
            }
            i = i + 1;
        }
        proof {
            assert forall|a: int, b: int| 0 <= a < b < self.views@.len() implies self.views@[a].id
                != self.views@[b].id by {
                assert(old(self).views@[a].id != old(self).views@[b].id);
            }
            assert forall|a: int| 0 <= a < self.views@.len() implies #[trigger] self.views@[a].id.0
                < self.next_view by {
                assert(old(self).views@[a].id.0 < old(self).next_view);
            }
            assert forall|a: int| 0 <= a < self.views@.len() implies self.has_doc(
                #[trigger] self.views@[a].doc,
            ) by {
                assert(old(self).has_doc(old(self).views@[a].doc));
            }
        }
    }
}

impl BufferManager {
    /// Replaces the text of the document at position `k` and returns the old
    /// text; `mark_modified` sets its modified flag.
    pub fn replace_doc_text(&mut self, k: usize, text: Vec<char>, mark_modified: bool) -> (old_text: Vec<char>)
        requires
            k < old(self).docs@.len(),
        ensures
            old_text@ == old(self).docs@[k as int].text@,
            doc_replaced(
                *old(self),
                *final(self),
                k as int,
                text@,
                mark_modified || old(self).docs@[k as int].modified,
            ),
            final(self).views == old(self).views,
            final(self).focused == old(self).focused,
            final(self).next_view == old(self).next_view,
            final(self).next_doc == old(self).next_doc,
            old(self).wf() ==> final(self).wf(),
    {
        let mut t = text;
        std::mem::swap(&mut self.docs[k].text, &mut t);
        if mark_modified {
            self.docs[k].modified = true;
        }
        proof {
            if old(self).wf() {
                assert forall|a: int, b: int| 0 <= a < b < self.docs@.len() implies self.docs@[a].id
                    != self.docs@[b].id by {
                    assert(old(self).docs@[a].id != old(self).docs@[b].id);
                }
                assert forall|a: int| 0 <= a < self.docs@.len() implies #[trigger] self.docs@[a].id.0
                    < self.next_doc by {
                    assert(old(self).docs@[a].id.0 < old(self).next_doc);
                }
                assert forall|a: int| 0 <= a < self.views@.len() implies self.has_doc(
                    #[trigger] self.views@[a].doc,
                ) by {
                    assert(old(self).has_doc(old(self).views@[a].doc));
                    let j = choose|j: int|
                        0 <= j < old(self).docs@.len() && old(self).docs@[j].id == old(self).views@[a].doc;
                    assert(self.docs@[j].id == self.views@[a].doc);
                }
            }
        }
        t
    }
}

/// The documents of `b1` are those of `b0` but for position `k`, which has
/// text `text` and modified flag `modified`.
pub open spec fn doc_replaced(
    b0: BufferManager,
    b1: BufferManager,
    k: int,
    text: Seq<char>,
    modified: bool,
) -> bool {
    &&& b1.docs@.len() == b0.docs@.len()
    &&& forall|m: int| 0 <= m < b0.docs@.len() && m != k ==> #[trigger] b1.docs@[m] == b0.docs@[m]
    &&& b1.docs@[k].id == b0.docs@[k].id
    &&& b1.docs@[k].text@ == text
    &&& b1.docs@[k].path == b0.docs@[k].path
    &&& b1.docs@[k].readonly == b0.docs@[k].readonly
    &&& b1.docs@[k].modified == modified
}

/// The views of `b1` are those of `b0` carried through the edit.
pub open spec fn views_edited(
    b0: BufferManager,
    b1: BufferManager,
    d: DocumentId,
    target: ViewId,
    c: TextChange,
    sel: Option<Selection>,
    old_len: usize,
    new_len: usize,
) -> bool {
    &&& b1.views@.len() == b0.views@.len()
    &&& forall|i: int|
        0 <= i < b0.views@.len() ==> (#[trigger] b1.views@[i]).id == b0.views@[i].id && b1.views@[i].doc
            == b0.views@[i].doc && buffer_state(b1.views@[i]) == edited_state(
            b0.views@[i],
            d,
            target,
            c,
            sel,
            old_len,
            new_len,
        )
}

/// The views of `b1` are those of `b0` with `snaps` restored, clamped to the
/// documents of `b1`.
pub open spec fn views_restored(b0: BufferManager, b1: BufferManager, snaps: Seq<(ViewId, ViewState)>) -> bool {
    &&& b1.views@.len() == b0.views@.len()
    &&& forall|i: int|
        0 <= i < b0.views@.len() ==> (#[trigger] b1.views@[i]).id == b0.views@[i].id && b1.views@[i].doc
            == b0.views@[i].doc
    &&& forall|i: int, k: int|
        0 <= i < b0.views@.len() && 0 <= k < b1.docs@.len() && #[trigger] b1.docs@[k].id
            == #[trigger] b0.views@[i].doc ==> buffer_state(b1.views@[i]) == restored_state(
            b0.views@[i],
            snaps,
            b1.docs@[k].text.len(),
        )
}

/// Nothing observable changed.
pub open spec fn core_unchanged(c0: EditorCore, c1: EditorCore) -> bool {
    &&& c1.buffers == c0.buffers
    &&& same_history(c0.undo_manager, c1.undo_manager)
    &&& c1.workspace == c0.workspace
}

/// Focus and id allocation are unchanged.
pub open spec fn same_frame(b0: BufferManager, b1: BufferManager) -> bool {
    &&& b1.focused == b0.focused
    &&& b1.next_view == b0.next_view
    &&& b1.next_doc == b0.next_doc
}

/// The length of the text after the change.
pub open spec fn changed_len(len: usize, c: TextChange) -> usize {
    (len - (c.end - c.start) + c.replacement@.len()) as usize
}

/// The result of an edit through view `view` when its document sits at
/// position `k`: refused (and nothing changes) exactly when the document is
/// read-only; otherwise the text changes, every view of the document is
/// carried through, and the history records the edit as `policy` says.
pub open spec fn edit_post_at(
    c0: EditorCore,
    c1: EditorCore,
    view: ViewId,
    c: TextChange,
    sel: Option<Selection>,
    policy: UndoPolicy,
    r: bool,
    k: int,
) -> bool {
    let doc = c0.buffers.docs@[k];
    let d = doc.id;
    &&& r == !doc.readonly
    &&& !r ==> core_unchanged(c0, c1)
    &&& r ==> {
        &&& doc_replaced(c0.buffers, c1.buffers, k, changed_text(doc.text@, c), true)
        &&& views_edited(c0.buffers, c1.buffers, d, view, c, sel, doc.text.len(), changed_len(doc.text.len(), c))
        &&& same_frame(c0.buffers, c1.buffers)
        &&& history_post(c0.undo_manager, c1.undo_manager, d, doc.text@, collect_states(c0.buffers.views@, d), policy)
        &&& c1.workspace == c0.workspace
    }
}

/// The result of an edit through view `view` (see `edit_post_at`).
pub open spec fn edit_post(
    c0: EditorCore,
    c1: EditorCore,
    view: ViewId,
    c: TextChange,
    sel: Option<Selection>,
    policy: UndoPolicy,
    r: bool,
) -> bool {
    forall|k: int|
        0 <= k < c0.buffers.docs@.len() && #[trigger] c0.buffers.docs@[k].id == c0.buffers.view(view).doc
            ==> edit_post_at(c0, c1, view, c, sel, policy, r, k)
}

/// Moving group `g` back into the buffers, its document sitting at position
/// `k`: refused exactly when the document is read-only; otherwise the text
/// becomes the group's and the group's view states are restored.
pub open spec fn transfer_post_at(c0: EditorCore, c1: EditorCore, g: EditorUndoGroup, k: int, r: bool) -> bool {
    let doc = c0.buffers.docs@[k];
    &&& r == !doc.readonly
    &&& !r ==> core_unchanged(c0, c1)
    &&& r ==> {
        &&& doc_replaced(c0.buffers, c1.buffers, k, g.text@, doc.modified)
        &&& views_restored(c0.buffers, c1.buffers, group_states(g))
        &&& same_frame(c0.buffers, c1.buffers)
        &&& c1.workspace == c0.workspace
    }
}

/// The result of undo: with no group, or no document for the newest group,
/// nothing happens; else the group is applied (see `transfer_post_at`), and
/// on success it leaves the undo stack while the state it replaced becomes
/// the newest redo group and merging closes.
pub open spec fn undo_post(c0: EditorCore, c1: EditorCore, r: bool) -> bool {
    let u0 = c0.undo_manager;
    let u1 = c1.undo_manager;
    if u0.undo_groups().len() == 0 || !c0.buffers.has_doc(u0.undo_groups().last().doc) {
        !r && core_unchanged(c0, c1)
    } else {
        let g = u0.undo_groups().last();
        forall|k: int|
            0 <= k < c0.buffers.docs@.len() && #[trigger] c0.buffers.docs@[k].id == g.doc ==> {
                &&& transfer_post_at(c0, c1, g, k, r)
                &&& r ==> {
                    &&& u1.undo_groups() == u0.undo_groups().drop_last()
                    &&& u1.redo_groups().len() == u0.redo_groups().len() + 1
                    &&& u1.redo_groups().drop_last() == u0.redo_groups()
                    &&& u1.redo_groups().last().doc == g.doc
                    &&& u1.redo_groups().last().text@ == c0.buffers.docs@[k].text@
                    &&& group_states(u1.redo_groups().last()) == collect_states(c0.buffers.views@, g.doc)
                    &&& !u1.merge_is_open()
                }
            }
    }
}

/// The result of redo: the mirror image of `undo_post`.
pub open spec fn redo_post(c0: EditorCore, c1: EditorCore, r: bool) -> bool {
    let u0 = c0.undo_manager;
    let u1 = c1.undo_manager;
    if u0.redo_groups().len() == 0 || !c0.buffers.has_doc(u0.redo_groups().last().doc) {
        !r && core_unchanged(c0, c1)
    } else {
        let g = u0.redo_groups().last();
        forall|k: int|
            0 <= k < c0.buffers.docs@.len() && #[trigger] c0.buffers.docs@[k].id == g.doc ==> {
                &&& transfer_post_at(c0, c1, g, k, r)
                &&& r ==> {
                    &&& u1.redo_groups() == u0.redo_groups().drop_last()
                    &&& u1.undo_groups().len() == u0.undo_groups().len() + 1
                    &&& u1.undo_groups().drop_last() == u0.undo_groups()
                    &&& u1.undo_groups().last().doc == g.doc
                    &&& u1.undo_groups().last().text@ == c0.buffers.docs@[k].text@
                    &&& group_states(u1.undo_groups().last()) == collect_states(c0.buffers.views@, g.doc)
                    &&& !u1.merge_is_open()
                }
            }
    }
}

/// Positions of documents with the same id coincide.
proof fn lemma_doc_unique(b: BufferManager, k: int, k2: int)
    requires
        b.wf(),
        0 <= k < b.docs@.len(),
        0 <= k2 < b.docs@.len(),
        b.docs@[k].id == b.docs@[k2].id,
    ensures
        k == k2,
{
    if k < k2 {
        assert(b.docs@[k].id != b.docs@[k2].id);
    } else if k2 < k {
        assert(b.docs@[k2].id != b.docs@[k].id);
    }
}

impl EditorCore {
    /// Applies `change` to the document of `view`. View `view` takes
    /// `new_selection` when given; every other view of the document is
    /// carried through the change. Refused when the document is read-only.
    pub fn apply_edit(
        &mut self,
        view: ViewId,
        change: &TextChange,
        new_selection: Option<Selection>,
        policy: UndoPolicy,
    ) -> (r: bool)
        requires
            old(self).buffers.wf(),
            old(self).buffers.selections_wf(),
            old(self).buffers.has_view(view),
            forall|k: int|
                0 <= k < old(self).buffers.docs@.len() && #[trigger] old(self).buffers.docs@[k].id == old(self).buffers.view(view).doc ==> change_fits(old(self).buffers.docs@[k].text@.len(), *change),
            new_selection matches Some(s) ==> s.wf(),
        ensures
            final(self).buffers.wf(),
            final(self).buffers.selections_wf(),
            edit_post(*old(self), *final(self), view, *change, new_selection, policy, r),
    {
        let i = match self.buffers.index_of(view) {
            Some(i) => i,
            None => {
                proof {
                    assert(false);
                }
                return false;
            },
        };
        proof {
            self.buffers.lemma_view_at(i as int);
            assert(self.buffers.has_doc(self.buffers.views@[i as int].doc));
        }
        let d = self.buffers.views[i].doc;
        let k = match self.buffers.doc_index_of(d) {
            Some(k) => k,
            None => {
                proof {
                    assert(false);
                }
                return false;
            },
        };
        proof {
            assert forall|k2: int|
                0 <= k2 < self.buffers.docs@.len() && #[trigger] self.buffers.docs@[k2].id == d implies k2
                == k by {
                lemma_doc_unique(self.buffers, k as int, k2);
            }
        }
        if self.buffers.docs[k].readonly {
            return false;
        }
        let old_len = self.buffers.docs[k].text.len();
        let snaps = self.buffers.collect_view_snapshots(d);
        let new_text = apply_change_text(&self.buffers.docs[k].text, change);
        let new_len = new_text.len();
        let old_text = self.buffers.replace_doc_text(k, new_text, true);
        let ghost mid = self.buffers;
        self.buffers.apply_change_to_views(d, view, change, &new_selection, old_len, new_len);
        proof {
            assert(self.buffers.docs == mid.docs);
        }
        self.undo_manager.record_edit(d, old_text, snaps, policy);
        true
    }

    /// Undoes the newest undo group: its document gets the group's text back
    /// and every view the group recorded gets its state back.
    pub fn undo(&mut self) -> (r: bool)
        requires
            old(self).buffers.wf(),
            old(self).buffers.selections_wf(),
        ensures
            final(self).buffers.wf(),
            final(self).buffers.selections_wf(),
            undo_post(*old(self), *final(self), r),
    {
        let d = match self.undo_manager.last_undo_group() {
            None => {
                return false;
            },
            Some(g) => g.doc,
        };
        let k = match self.buffers.doc_index_of(d) {
            None => {
                return false;
            },
            Some(k) => k,
        };
        proof {
            assert forall|k2: int|
                0 <= k2 < self.buffers.docs@.len() && #[trigger] self.buffers.docs@[k2].id == d implies k2
                == k by {
                lemma_doc_unique(self.buffers, k as int, k2);
            }
        }
        if self.buffers.docs[k].readonly {
            return false;
        }
        let current = self.buffers.collect_view_snapshots(d);
        let g = self.undo_manager.pop_undo();
        let ghost gv = g;
        let EditorUndoGroup { doc: _, text, view_snapshots } = g;
        let modified = self.buffers.docs[k].modified;
        let old_text = self.buffers.replace_doc_text(k, text, false);
        self.buffers.restore_view_snapshots(&view_snapshots);
        proof {
            assert(snapshot_states(view_snapshots@) == group_states(gv));
        }
        let ghost cur_v = current@;
        let back = EditorUndoGroup { doc: d, text: old_text, view_snapshots: current };
        proof {
            assert(group_states(back) =~= snapshot_states(cur_v));
        }
        let ghost um = self.undo_manager;
        self.undo_manager.push_redo(back);
        proof {
            assert(self.undo_manager.redo_groups().drop_last() =~= um.redo_groups());
            assert(views_restored(old(self).buffers, self.buffers, group_states(gv)));
            assert(doc_replaced(old(self).buffers, self.buffers, k as int, gv.text@, old(self).buffers.docs@[k as int].modified));
            assert(transfer_post_at(*old(self), *self, gv, k as int, true));
            assert(undo_post(*old(self), *self, true));
        }
        true
    }

    /// Redoes the newest redo group, the mirror image of `undo`.
    pub fn redo(&mut self) -> (r: bool)
        requires
            old(self).buffers.wf(),
            old(self).buffers.selections_wf(),
        ensures
            final(self).buffers.wf(),
            final(self).buffers.selections_wf(),
            redo_post(*old(self), *final(self), r),
    {
        let d = match self.undo_manager.last_redo_group() {
            None => {
                return false;
            },
            Some(g) => g.doc,
        };
        let k = match self.buffers.doc_index_of(d) {
            None => {
                return false;
            },
            Some(k) => k,
        };
        proof {
            assert forall|k2: int|
                0 <= k2 < self.buffers.docs@.len() && #[trigger] self.buffers.docs@[k2].id == d implies k2
                == k by {
                lemma_doc_unique(self.buffers, k as int, k2);
            }
        }
        if self.buffers.docs[k].readonly {
            return false;
        }
        let current = self.buffers.collect_view_snapshots(d);
        let g = self.undo_manager.pop_redo();
        let ghost gv = g;
        let EditorUndoGroup { doc: _, text, view_snapshots } = g;
        let old_text = self.buffers.replace_doc_text(k, text, false);
        self.buffers.restore_view_snapshots(&view_snapshots);
        proof {
            assert(snapshot_states(view_snapshots@) == group_states(gv));
        }
        let ghost cur_v = current@;
        let back = EditorUndoGroup { doc: d, text: old_text, view_snapshots: current };
        proof {
            assert(group_states(back) =~= snapshot_states(cur_v));
        }
        let ghost um = self.undo_manager;
        self.undo_manager.push_undo(back);
        proof {
            assert(self.undo_manager.undo_groups().drop_last() =~= um.undo_groups());
            assert(views_restored(old(self).buffers, self.buffers, group_states(gv)));
            assert(transfer_post_at(*old(self), *self, gv, k as int, true));
            assert(redo_post(*old(self), *self, true));
        }
        true
    }
}

/// Undoing an edit recorded as its own group gives back the text of every
/// document and the state of every view, provided every view lay within its
/// document's text before the edit.
pub proof fn law_undo_reverts_recorded_edit(
    c0: EditorCore,
    c1: EditorCore,
    c2: EditorCore,
    view: ViewId,
    c: TextChange,
    sel: Option<Selection>,
    r: bool,
)
    requires
        c0.buffers.wf(),
        c0.buffers.views_valid(),
        c0.buffers.has_view(view),
        edit_post(c0, c1, view, c, sel, UndoPolicy::Record, true),
        undo_post(c1, c2, r),
    ensures
        r,
        c2.buffers.docs@.len() == c0.buffers.docs@.len(),
        forall|k: int|
            0 <= k < c0.buffers.docs@.len() ==> (#[trigger] c2.buffers.docs@[k]).id == c0.buffers.docs@[k].id
                && c2.buffers.docs@[k].text@ == c0.buffers.docs@[k].text@,
        c2.buffers.views@.len() == c0.buffers.views@.len(),
        forall|i: int|
            0 <= i < c0.buffers.views@.len() ==> (#[trigger] c2.buffers.views@[i]).id == c0.buffers.views@[i].id
                && buffer_state(c2.buffers.views@[i]) == buffer_state(c0.buffers.views@[i]),
{
    let b0 = c0.buffers;
    let d = b0.view(view).doc;
    let iv = choose|i: int| 0 <= i < b0.views@.len() && b0.views@[i].id == view;
    b0.lemma_view_at(iv);
    assert(b0.has_doc(b0.views@[iv].doc));
    let k0 = choose|k: int| 0 <= k < b0.docs@.len() && b0.docs@[k].id == d;
    assert(edit_post_at(c0, c1, view, c, sel, UndoPolicy::Record, true, k0));
    let g = c1.undo_manager.undo_groups().last();
    assert(c1.buffers.docs@[k0].id == d);
    assert(c1.buffers.has_doc(g.doc));
    assert(transfer_post_at(c1, c2, g, k0, r));
    assert(r);
    let b1 = c1.buffers;
    let b2 = c2.buffers;
    assert forall|k: int| 0 <= k < b0.docs@.len() implies (#[trigger] b2.docs@[k]).id == b0.docs@[k].id
        && b2.docs@[k].text@ == b0.docs@[k].text@ by {
        if k != k0 {
            assert(b1.docs@[k] == b0.docs@[k]);
            assert(b2.docs@[k] == b1.docs@[k]);
        }
    }
    assert forall|i: int| 0 <= i < b0.views@.len() implies (#[trigger] b2.views@[i]).id == b0.views@[i].id
        && buffer_state(b2.views@[i]) == buffer_state(b0.views@[i]) by {
        assert(b1.views@[i].id == b0.views@[i].id && b1.views@[i].doc == b0.views@[i].doc);
        assert(b0.has_doc(b0.views@[i].doc));
        let m = choose|m: int| 0 <= m < b0.docs@.len() && b0.docs@[m].id == b0.views@[i].doc;
        assert(b2.docs@[m].id == b0.docs@[m].id);
        assert(b2.docs@[m].id == b1.views@[i].doc);
        lemma_lookup_collected(b0.views@, d, i);
        assert(state_valid(buffer_state(b0.views@[i]), b0.docs@[m].text.len()));
        if b0.views@[i].doc == d {
            lemma_doc_unique(b0, m, k0);
            lemma_clamp_valid(buffer_state(b0.views@[i]), b0.docs@[m].text.len());
        } else {
            assert(m != k0);
            assert(b1.docs@[m] == b0.docs@[m]);
            lemma_clamp_valid(buffer_state(b0.views@[i]), b0.docs@[m].text.len());
        }
    }
}

/// Undo groups a run of edits with these policies opens, starting with no
/// merge group open: one per recorded edit, and one per run of consecutive
/// merged edits.
pub open spec fn groups_opened(ps: Seq<UndoPolicy>) -> nat
    decreases ps.len(),
{
    if ps.len() == 0 {
        0
    } else {
        let prev = groups_opened(ps.drop_last());
        match ps.last() {
            UndoPolicy::Record => prev + 1,
            UndoPolicy::MergeWithCurrentGroup => if ps.len() >= 2 && ps[ps.len() - 2]
                == UndoPolicy::MergeWithCurrentGroup {
                prev
            } else {
                prev + 1
            },
            UndoPolicy::NoUndo => prev,
        }
    }
}

/// One successful edit through `view` on document `d`, as far as the count
/// of undo groups goes.
proof fn lemma_edit_group_step(
    c0: EditorCore,
    c1: EditorCore,
    view: ViewId,
    c: TextChange,
    sel: Option<Selection>,
    p: UndoPolicy,
    d: DocumentId,
)
    requires
        c0.buffers.wf(),
        c1.buffers.wf(),
        c0.buffers.has_view(view),
        c0.buffers.view(view).doc == d,
        edit_post(c0, c1, view, c, sel, p, true),
        p != UndoPolicy::NoUndo,
    ensures
        c1.buffers.has_view(view),
        c1.buffers.view(view).doc == d,
        c1.undo_manager.undo_groups().len() > 0,
        c1.undo_manager.undo_groups().last().doc == d,
        c1.undo_manager.merge_is_open() == (p == UndoPolicy::MergeWithCurrentGroup),
        c1.undo_manager.undo_groups().len() == c0.undo_manager.undo_groups().len() + (if p
            == UndoPolicy::MergeWithCurrentGroup && c0.undo_manager.merge_is_open()
            && c0.undo_manager.undo_groups().len() > 0 && c0.undo_manager.undo_groups().last().doc == d {
            0int
        } else {
            1int
        }),
{
    let i = choose|i: int| 0 <= i < c0.buffers.views@.len() && c0.buffers.views@[i].id == view;
    c0.buffers.lemma_view_at(i);
    assert(c0.buffers.has_doc(c0.buffers.views@[i].doc));
    let k = choose|k: int| 0 <= k < c0.buffers.docs@.len() && c0.buffers.docs@[k].id == d;
    assert(edit_post_at(c0, c1, view, c, sel, p, true, k));
    assert(c1.buffers.views@[i].id == view);
    c1.buffers.lemma_view_at(i);
}

/// Counting undo groups over a run of successful edits through one view,
/// each recorded or merged, starting with no merge group open: the run
/// adds one undo group per recorded edit and one per run of consecutive
/// merged edits (see `groups_opened`).
pub proof fn law_undo_group_count(
    cores: Seq<EditorCore>,
    view: ViewId,
    changes: Seq<TextChange>,
    sels: Seq<Option<Selection>>,
    ps: Seq<UndoPolicy>,
)
    requires
        cores.len() == ps.len() + 1,
        changes.len() == ps.len(),
        sels.len() == ps.len(),
        forall|i: int| 0 <= i < cores.len() ==> (#[trigger] cores[i]).buffers.wf(),
        cores[0].buffers.has_view(view),
        !cores[0].undo_manager.merge_is_open(),
        forall|i: int| 0 <= i < ps.len() ==> #[trigger] ps[i] != UndoPolicy::NoUndo,
        forall|i: int|
            0 <= i < ps.len() ==> edit_post(#[trigger] cores[i], cores[i + 1], view, changes[i], sels[i], ps[i], true),
    ensures
        cores.last().undo_manager.undo_groups().len() == cores[0].undo_manager.undo_groups().len() + groups_opened(ps),
{
    let d = cores[0].buffers.view(view).doc;
    lemma_group_count_upto(cores, view, changes, sels, ps, ps.len() as int, d);
    assert(ps.subrange(0, ps.len() as int) =~= ps);
}

proof fn lemma_group_count_upto(
    cores: Seq<EditorCore>,
    view: ViewId,
    changes: Seq<TextChange>,
    sels: Seq<Option<Selection>>,
    ps: Seq<UndoPolicy>,
    n: int,
    d: DocumentId,
)
    requires
        0 <= n <= ps.len(),
        cores.len() == ps.len() + 1,
        changes.len() == ps.len(),
        sels.len() == ps.len(),
        forall|i: int| 0 <= i < cores.len() ==> (#[trigger] cores[i]).buffers.wf(),
        cores[0].buffers.has_view(view),
        cores[0].buffers.view(view).doc == d,
        !cores[0].undo_manager.merge_is_open(),
        forall|i: int| 0 <= i < ps.len() ==> #[trigger] ps[i] != UndoPolicy::NoUndo,
        forall|i: int|
            0 <= i < ps.len() ==> edit_post(#[trigger] cores[i], cores[i + 1], view, changes[i], sels[i], ps[i], true),
    ensures
        cores[n].buffers.has_view(view),
        cores[n].buffers.view(view).doc == d,
        cores[n].undo_manager.undo_groups().len() == cores[0].undo_manager.undo_groups().len() + groups_opened(
            ps.subrange(0, n),
        ),
        cores[n].undo_manager.merge_is_open() == (n > 0 && ps[n - 1] == UndoPolicy::MergeWithCurrentGroup),
        n > 0 ==> cores[n].undo_manager.undo_groups().len() > 0 && cores[n].undo_manager.undo_groups().last().doc
            == d,
    decreases n,
{
    if n > 0 {
        lemma_group_count_upto(cores, view, changes, sels, ps, n - 1, d);
        let m = n - 1;
        assert(cores[m].buffers.wf());
        assert(cores[m + 1].buffers.wf());
        assert(ps[m] != UndoPolicy::NoUndo);
        assert(edit_post(cores[m], cores[m + 1], view, changes[m], sels[m], ps[m], true));
        lemma_edit_group_step(cores[m], cores[m + 1], view, changes[m], sels[m], ps[m], d);
        let sub = ps.subrange(0, n);
        assert(sub.drop_last() =~= ps.subrange(0, m));
        assert(sub.last() == ps[m]);
        if n >= 2 {
            assert(sub[sub.len() - 2] == ps[n - 2]);
        }
    } else {
        assert(ps.subrange(0, 0) =~= Seq::<UndoPolicy>::empty());
    }
}

/// Counting undo groups: a recorded edit adds one undo group and empties
/// the redo stack; the undo after it succeeds and moves that one group to
/// the redo stack; the redo after that succeeds and moves it back.
pub proof fn law_undo_group_counts(
    c0: EditorCore,
    c1: EditorCore,
    c2: EditorCore,
    c3: EditorCore,
    view: ViewId,
    c: TextChange,
    sel: Option<Selection>,
    r2: bool,
    r3: bool,
)
    requires
        c0.buffers.wf(),
        c0.buffers.views_valid(),
        c0.buffers.has_view(view),
        edit_post(c0, c1, view, c, sel, UndoPolicy::Record, true),
        c1.buffers.wf(),
        c1.buffers.views_valid(),
        undo_post(c1, c2, r2),
        redo_post(c2, c3, r3),
    ensures
        c1.undo_manager.undo_groups().len() == c0.undo_manager.undo_groups().len() + 1,
        c1.undo_manager.redo_groups().len() == 0,
        r2,
        c2.undo_manager.undo_groups().len() == c0.undo_manager.undo_groups().len(),
        c2.undo_manager.redo_groups().len() == 1,
        r3,
        c3.undo_manager.undo_groups().len() == c1.undo_manager.undo_groups().len(),
        c3.undo_manager.redo_groups().len() == 0,
{
    law_undo_reverts_recorded_edit(c0, c1, c2, view, c, sel, r2);
    law_redo_reverts_undo(c1, c2, c3, r3);
    let kv = choose|i: int| 0 <= i < c0.buffers.views@.len() && c0.buffers.views@[i].id == view;
    c0.buffers.lemma_view_at(kv);
    assert(c0.buffers.has_doc(c0.buffers.views@[kv].doc));
    let k = choose|k: int| 0 <= k < c0.buffers.docs@.len() && c0.buffers.docs@[k].id == c0.buffers.view(view).doc;
    assert(edit_post_at(c0, c1, view, c, sel, UndoPolicy::Record, true, k));
    let g = c1.undo_manager.undo_groups().last();
    let k1 = choose|k1: int| 0 <= k1 < c1.buffers.docs@.len() && c1.buffers.docs@[k1].id == g.doc;
    let g2 = c2.undo_manager.redo_groups().last();
    let k2 = choose|k2: int| 0 <= k2 < c2.buffers.docs@.len() && c2.buffers.docs@[k2].id == g2.doc;
}

/// Redoing right after a successful undo gives back the text of every
/// document and the state of every view of the undone document, provided
/// every view lay within its document's text before the undo.
pub proof fn law_redo_reverts_undo(c1: EditorCore, c2: EditorCore, c3: EditorCore, r: bool)
    requires
        c1.buffers.wf(),
        c1.buffers.views_valid(),
        undo_post(c1, c2, true),
        redo_post(c2, c3, r),
    ensures
        r,
        c3.buffers.docs@.len() == c1.buffers.docs@.len(),
        forall|k: int|
            0 <= k < c1.buffers.docs@.len() ==> (#[trigger] c3.buffers.docs@[k]).id == c1.buffers.docs@[k].id
                && c3.buffers.docs@[k].text@ == c1.buffers.docs@[k].text@,
        c3.buffers.views@.len() == c1.buffers.views@.len(),
        forall|i: int|
            0 <= i < c1.buffers.views@.len() ==> (#[trigger] c3.buffers.views@[i]).id == c1.buffers.views@[i].id,
        forall|i: int|
            0 <= i < c1.buffers.views@.len() && c1.buffers.views@[i].doc == c1.undo_manager.undo_groups().last().doc
                ==> buffer_state(#[trigger] c3.buffers.views@[i]) == buffer_state(c1.buffers.views@[i]),
{
    let b1 = c1.buffers;
    let g = c1.undo_manager.undo_groups().last();
    let d = g.doc;
    let k0 = choose|k: int| 0 <= k < b1.docs@.len() && b1.docs@[k].id == d;
    assert(transfer_post_at(c1, c2, g, k0, true));
    let b2 = c2.buffers;
    let b3 = c3.buffers;
    let rg = c2.undo_manager.redo_groups().last();
    assert(b2.docs@[k0].id == d);
    assert(b2.has_doc(rg.doc));
    assert(transfer_post_at(c2, c3, rg, k0, r));
    assert(r);
    assert forall|k: int| 0 <= k < b1.docs@.len() implies (#[trigger] b3.docs@[k]).id == b1.docs@[k].id
        && b3.docs@[k].text@ == b1.docs@[k].text@ by {
        if k != k0 {
            assert(b2.docs@[k] == b1.docs@[k]);
            assert(b3.docs@[k] == b2.docs@[k]);
        }
    }
    assert forall|i: int| 0 <= i < b1.views@.len() && b1.views@[i].doc == d implies buffer_state(
        #[trigger] b3.views@[i],
    ) == buffer_state(b1.views@[i]) by {
        assert(b2.views@[i].id == b1.views@[i].id && b2.views@[i].doc == b1.views@[i].doc);
        assert(b3.docs@[k0].id == b2.views@[i].doc);
        lemma_lookup_collected(b1.views@, d, i);
        assert(state_valid(buffer_state(b1.views@[i]), b1.docs@[k0].text.len()));
        lemma_clamp_valid(buffer_state(b1.views@[i]), b1.docs@[k0].text.len());
    }
}

impl Editor {
    /// Applies `change` through view `view` (see `EditorCore::apply_edit`).
    pub fn apply_edit(
        &mut self,
        view: ViewId,
        change: &TextChange,
        new_selection: Option<Selection>,
        policy: UndoPolicy,
    ) -> (r: bool)
        requires
            old(self).core.buffers.wf(),
            old(self).core.buffers.selections_wf(),
            old(self).core.buffers.has_view(view),
            forall|k: int|
                0 <= k < old(self).core.buffers.docs@.len() && #[trigger] old(self).core.buffers.docs@[k].id
                    == old(self).core.buffers.view(view).doc ==> change_fits(
                    old(self).core.buffers.docs@[k].text@.len(),
                    *change,
                ),
            new_selection matches Some(s) ==> s.wf(),
        ensures
            final(self).core.buffers.wf(),
            final(self).core.buffers.selections_wf(),
            edit_post(old(self).core, final(self).core, view, *change, new_selection, policy, r),
            final(self).windows == old(self).windows,
            final(self).focus == old(self).focus,
    {
        self.core.apply_edit(view, change, new_selection, policy)
    }

    /// Undoes the last change, restoring view state for all affected buffers.
    pub fn undo(&mut self) -> (r: bool)
        requires
            old(self).core.buffers.wf(),
            old(self).core.buffers.selections_wf(),
        ensures
            final(self).core.buffers.wf(),
            final(self).core.buffers.selections_wf(),
            undo_post(old(self).core, final(self).core, r),
            final(self).windows == old(self).windows,
            final(self).focus == old(self).focus,
    {
        self.core.undo()
    }

    /// Redoes the last undone change, restoring view state for all affected
    /// buffers.
    pub fn redo(&mut self) -> (r: bool)
        requires
            old(self).core.buffers.wf(),
            old(self).core.buffers.selections_wf(),
        ensures
            final(self).core.buffers.wf(),
            final(self).core.buffers.selections_wf(),
            redo_post(old(self).core, final(self).core, r),
            final(self).windows == old(self).windows,
            final(self).focus == old(self).focus,
    {
        self.core.redo()
    }
}


/// The documents of `b1` are those of `b0`, with the same texts.
pub open spec fn same_texts(b0: BufferManager, b1: BufferManager) -> bool {
    &&& b1.docs@.len() == b0.docs@.len()
    &&& forall|m: int|
        0 <= m < b0.docs@.len() ==> (#[trigger] b1.docs@[m]).id == b0.docs@[m].id && b1.docs@[m].text@
            == b0.docs@[m].text@
}

/// The document and text of each group.
pub open spec fn group_keys(gs: Seq<EditorUndoGroup>) -> Seq<(DocumentId, Seq<char>)> {
    gs.map_values(|g: EditorUndoGroup| (g.doc, g.text@))
}

/// `c1` follows `c0` by a successful undo (see `undo_post`).
#[verifier::opaque]
pub open spec fn undone(c0: EditorCore, c1: EditorCore) -> bool {
    undo_post(c0, c1, true)
}

/// `c1` follows `c0` by a successful redo (see `redo_post`).
#[verifier::opaque]
pub open spec fn redone(c0: EditorCore, c1: EditorCore) -> bool {
    redo_post(c0, c1, true)
}

/// Undo, repeated: any number `n` of successful undos followed by as many
/// successful redos gives every document back the text it had before
/// the undos.
pub proof fn law_undo_redo_round_trip(cs: Seq<EditorCore>, n: nat)
    requires
        cs.len() == 2 * n + 1,
        forall|i: int| 0 <= i < cs.len() ==> (#[trigger] cs[i]).buffers.wf(),
        forall|i: int| 0 <= i < n ==> #[trigger] undone(cs[i], cs[i + 1]),
        forall|i: int| n <= i < 2 * n ==> #[trigger] redone(cs[i], cs[i + 1]),
    ensures
        same_texts(cs[0].buffers, cs[2 * n as int].buffers),
{
    lemma_round_trip_upto(cs, n, n);
    assert((n + n) as int == 2 * n as int);
}

proof fn lemma_round_trip_upto(cs: Seq<EditorCore>, n: nat, j: nat)
    requires
        j <= n,
        cs.len() == 2 * n + 1,
        forall|i: int| 0 <= i < cs.len() ==> (#[trigger] cs[i]).buffers.wf(),
        forall|i: int| 0 <= i < n ==> #[trigger] undone(cs[i], cs[i + 1]),
        forall|i: int| n <= i < 2 * n ==> #[trigger] redone(cs[i], cs[i + 1]),
    ensures
        same_texts(cs[n - j].buffers, cs[(n + j) as int].buffers),
        group_keys(cs[(n + j) as int].undo_manager.undo_groups()) == group_keys(cs[n - j].undo_manager.undo_groups()),
        cs[(n + j) as int].undo_manager.redo_groups() == cs[n - j].undo_manager.redo_groups(),
    decreases j,
{
    if j == 0 {
        let b = cs[n as int].buffers;
        assert(same_texts(b, b));
    } else {
        lemma_round_trip_upto(cs, n, (j - 1) as nat);
        let a = n - j;
        let e = (n + j) as int;
        assert(cs[a].buffers.wf());
        assert(cs[a + 1].buffers.wf());
        assert(cs[e - 1].buffers.wf());
        assert(cs[e].buffers.wf());
        assert(undone(cs[a], cs[a + 1]));
        let r = e - 1;
        assert(redone(cs[r], cs[r + 1]));
        assert(r + 1 == e);
        lemma_round_trip_step(cs[a], cs[a + 1], cs[e - 1], cs[e]);
    }
}

/// One redo reverting the undo it mirrors, as far as texts and stacks go.
proof fn lemma_round_trip_step(c0: EditorCore, c1: EditorCore, e0: EditorCore, e1: EditorCore)
    requires
        c0.buffers.wf(),
        c1.buffers.wf(),
        e0.buffers.wf(),
        e1.buffers.wf(),
        undone(c0, c1),
        redone(e0, e1),
        same_texts(c1.buffers, e0.buffers),
        group_keys(e0.undo_manager.undo_groups()) == group_keys(c1.undo_manager.undo_groups()),
        e0.undo_manager.redo_groups() == c1.undo_manager.redo_groups(),
    ensures
        same_texts(c0.buffers, e1.buffers),
        group_keys(e1.undo_manager.undo_groups()) == group_keys(c0.undo_manager.undo_groups()),
        e1.undo_manager.redo_groups() == c0.undo_manager.redo_groups(),
{
    reveal(undone);
    reveal(redone);
    let g = c0.undo_manager.undo_groups().last();
    let kk = choose|k: int| 0 <= k < c0.buffers.docs@.len() && c0.buffers.docs@[k].id == g.doc;
    assert(transfer_post_at(c0, c1, g, kk, true));
    let h = e0.undo_manager.redo_groups().last();
    assert(h.doc == g.doc);
    assert(e0.buffers.docs@[kk].id == c1.buffers.docs@[kk].id);
    assert(e0.buffers.docs@[kk].id == g.doc);
    assert(transfer_post_at(e0, e1, h, kk, true));
    assert forall|m: int| 0 <= m < c0.buffers.docs@.len() implies (#[trigger] e1.buffers.docs@[m]).id
        == c0.buffers.docs@[m].id && e1.buffers.docs@[m].text@ == c0.buffers.docs@[m].text@ by {
        if m != kk {
            assert(e1.buffers.docs@[m] == e0.buffers.docs@[m]);
            assert(c1.buffers.docs@[m] == c0.buffers.docs@[m]);
            assert(e0.buffers.docs@[m].id == c1.buffers.docs@[m].id);
        }
    }
    let u0 = c0.undo_manager.undo_groups();
    let u1 = c1.undo_manager.undo_groups();
    let w0 = e0.undo_manager.undo_groups();
    let w1 = e1.undo_manager.undo_groups();
    assert(u0.len() > 0);
    assert(u1 == u0.drop_last());
    assert(w1.drop_last() == w0);
    assert(w1.len() == w0.len() + 1);
    assert(group_keys(w0).len() == w0.len());
    assert(group_keys(u1).len() == u1.len());
    assert(w1.len() == u0.len());
    assert(group_keys(w1) =~= group_keys(u0)) by {
        assert forall|q: int| 0 <= q < w1.len() implies #[trigger] group_keys(w1)[q] == group_keys(u0)[q] by {
            if q < w1.len() - 1 {
                assert(w1[q] == w0[q]);
                assert(group_keys(w0)[q] == group_keys(u1)[q]);
                assert(u1[q] == u0[q]);
            } else {
                assert(q == u0.len() - 1);
                assert(u0[q] == g);
                assert(w1[q] == w1.last());
                assert(e0.buffers.docs@[kk].text@ == c1.buffers.docs@[kk].text@);
            }
        }
    }
    assert(e1.undo_manager.redo_groups() =~= c0.undo_manager.redo_groups());
}

} // verus!
