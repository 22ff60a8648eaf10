//! Splitting and closing views of the base window. The layout is kept as
//! the order of its views; a split puts the new view right after the one it
//! was split from, and a closed view hands focus to its neighbour.

use vstd::prelude::*;

use crate::editor::Editor;
use crate::focus::{layout_index, lemma_first_index, other_than, position_of, remove_view_all, target_eq, FocusEffect, FocusTarget};
use crate::ids::{DocumentId, ViewId};

verus! {

/// How the new view is placed next to the current one.
#[derive(Debug, Clone, Copy, PartialEq, Eq, Structural)]
pub enum SplitDirection {
    /// The new view below.
    Horizontal,
    /// The new view to the right.
    Vertical,
}

/// Why a split was refused.
#[derive(Debug, Clone, Copy, PartialEq, Eq, Structural)]
pub enum SplitError {
    /// The focused view is not in the base layout.
    ViewNotFound,
    /// The focused view's area is too small to split.
    AreaTooSmall,
}

/// What closing a view asks the host to do.
#[derive(Debug)]
pub struct ViewClosed {
    /// Focus notifications, in order.
    pub focus_effects: Vec<FocusEffect>,
    /// The closed view's document when no view shows it any more.
    pub orphaned_doc: Option<DocumentId>,
}

/// The view that takes over when `view` (at position `j` of `layout`)
/// closes: the one before it, or the one after it when it is first.
pub open spec fn close_successor(layout: Seq<ViewId>, j: int) -> ViewId {
    if j > 0 {
        layout[j - 1]
    } else {
        layout[1]
    }
}

/// `e1` is `e0` after splitting its focused view (`r` the result): refused
/// without change when the view is not in the base layout or gone
/// (`ViewNotFound`) or the area does not fit (`AreaTooSmall`); else the new
/// view (the next view id, on the same document at the same cursor) sits
/// right after the split one and has focus.
pub open spec fn split_post(e0: Editor, e1: Editor, area_fits: bool, r: Result<ViewId, SplitError>) -> bool {
    let cur = e0.focused_view_spec();
    let layout = e0.windows.base.layout@;
    let found = layout.contains(cur) && e0.core.buffers.has_view(cur);
    &&& e1.wf()
    &&& r is Ok <==> found && area_fits
    &&& r matches Err(e) ==> e1 == e0 && (e == SplitError::ViewNotFound <==> !found)
    &&& r matches Ok(id) ==> {
        &&& id == ViewId(e0.core.buffers.next_view)
        &&& e1.windows.base.layout@ == layout.insert(layout_index(layout, cur).unwrap() + 1, id)
        &&& e1.windows.base.id == e0.windows.base.id
        &&& e1.core.buffers.has_view(id)
        &&& forall|v: ViewId| #[trigger] e0.core.buffers.has_view(v) ==> e1.core.buffers.has_view(v)
        &&& e1.core.buffers.view(id).doc == e0.core.buffers.view(cur).doc
        &&& e1.core.buffers.view(id).cursor == e0.core.buffers.view(cur).cursor
        &&& e1.focus == (FocusTarget::Buffer { window: e0.windows.base.id, buffer: id })
    }
}

/// Every view of the base layout is a live buffer, and none occurs twice.
pub open spec fn layout_sound(e: Editor) -> bool {
    let layout = e.windows.base.layout@;
    &&& forall|i: int| 0 <= i < layout.len() ==> e.core.buffers.has_view(#[trigger] layout[i])
    &&& forall|i: int, j: int| 0 <= i < j < layout.len() ==> layout[i] != layout[j]
}

/// The focus target exists as it is: its window shows its buffer, its
/// overlay buffer is live, or its panel is present.
pub open spec fn focus_in_place(e: Editor) -> bool {
    match e.focus {
        FocusTarget::Buffer { window, buffer } => e.windows.has_window(window) && e.core.buffers.has_view(buffer)
            && e.windows.holds(window, buffer),
        FocusTarget::Overlay { buffer } => e.core.buffers.has_view(buffer),
        FocusTarget::Panel(p) => e.has_panel(p),
    }
}

/// `e1` is `e0` after closing `view` (`r` the result; see `close_view`).
pub open spec fn close_view_post(e0: Editor, e1: Editor, view: ViewId, r: Option<ViewClosed>) -> bool {
    let layout = e0.windows.base.layout@;
    let rest = layout.filter(other_than(view));
    let succ = close_successor(layout, layout_index(layout, view).unwrap());
    let live = succ != view && e0.core.buffers.has_view(succ);
    let moved = live && (e0.focused_view_spec() == view || !rest.contains(e0.focused_view_spec()));
    &&& e1.wf()
    &&& r is Some <==> (layout.contains(view) && layout.len() > 1)
    &&& r is None ==> e1 == e0
    &&& r is Some ==> {
        &&& e1.windows.base.layout@ == rest
        &&& e1.frame.needs_redraw
        &&& e0.core.buffers.has_view(view) ==> !e1.core.buffers.has_view(view)
        &&& live ==> e1.core.buffers.has_view(succ)
        &&& moved ==> e1.focus == (FocusTarget::Buffer { window: e0.windows.base.id, buffer: succ })
        &&& (e0.focused_view_spec() != view && rest.contains(e0.focused_view_spec()) && focus_in_place(e0))
            ==> e1.focus == e0.focus
        &&& layout_sound(e0) ==> live && (moved ==> e1.focus_valid())
        &&& moved ==> (r->0.orphaned_doc matches Some(d) ==> d == e0.core.buffers.view(view).doc && forall|i: int|
            0 <= i < e1.core.buffers.views@.len() ==> #[trigger] e1.core.buffers.views@[i].doc != d)
    }
}

impl Editor {
    fn split_with_clone(&mut self, area_fits: bool) -> (r: Result<ViewId, SplitError>)
        requires
            old(self).wf(),
            old(self).core.buffers.next_view < u64::MAX - 1,
            old(self).core.buffers.next_doc < u64::MAX,
        ensures
            split_post(*old(self), *final(self), area_fits, r),
    {
        let cur = self.focused_view();
        let j = match position_of(&self.windows.base.layout, cur) {
            Some(j) => j,
            None => {
                return Err(SplitError::ViewNotFound);
            },
        };
        if self.core.buffers.get_buffer(cur).is_none() {
            return Err(SplitError::ViewNotFound);
        }
        if !area_fits {
            return Err(SplitError::AreaTooSmall);
        }
        let ghost g = *self;
        let id = match self.core.buffers.clone_buffer_for_split(cur) {
            Some(id) => id,
            None => {
                proof {
                    assert(false);
                }
                return Err(SplitError::ViewNotFound);
            },
        };
        proof {
            assert(j < self.windows.base.layout.len());
        }
        self.windows.base.layout.insert(j + 1, id);
        proof {
            let b = self.core.buffers;
            let n = b.views@.len() - 1;
            assert(b.views@[n].id == id);
            assert(b.has_view(id));
            b.lemma_view_at(n);
            assert(self.windows.base.layout@[j + 1] == id);
            assert(self.windows.holds(self.windows.base.id, id));
            let t = FocusTarget::Buffer { window: self.windows.base.id, buffer: id };
            assert(self.normalize_spec(t) == Some(t));
            assert(layout_index(g.windows.base.layout@, cur) == Some(j as int));
        }
        let ghost before_focus = *self;
        self.focus_buffer(id);
        proof {
            let t = FocusTarget::Buffer { window: before_focus.windows.base.id, buffer: id };
            assert(before_focus.effective_target(t) == t);
            assert(!crate::focus::is_explicit(crate::focus::FocusReason::Click) == false);
        }
        Ok(id)
    }

    /// Splits the focused view: a copy of it opens below and takes focus.
    /// Refused when the view is not in the base layout or (`area_fits`
    /// false) its area is too small.
    pub fn split_horizontal_with_clone(&mut self, area_fits: bool) -> (r: Result<ViewId, SplitError>)
        requires
            old(self).wf(),
            old(self).core.buffers.next_view < u64::MAX - 1,
            old(self).core.buffers.next_doc < u64::MAX,
        ensures
            split_post(*old(self), *final(self), area_fits, r),
    {
        self.split_with_clone(area_fits)
    }

    /// Splits the focused view: a copy of it opens to the right and takes
    /// focus. Refused as `split_horizontal_with_clone` is.
    pub fn split_vertical_with_clone(&mut self, area_fits: bool) -> (r: Result<ViewId, SplitError>)
        requires
            old(self).wf(),
            old(self).core.buffers.next_view < u64::MAX - 1,
            old(self).core.buffers.next_doc < u64::MAX,
        ensures
            split_post(*old(self), *final(self), area_fits, r),
    {
        self.split_with_clone(area_fits)
    }

    /// Closes a view of the base window; refused (`None`) for a view not in
    /// the layout or the last one. When focus was on the view, or is on a
    /// view no longer in the layout, it moves to the closed view's
    /// neighbour (see `close_successor`). The view is removed, its document
    /// reported when no view shows it any more, and focus is repaired.
    #[verifier::rlimit(40)]
    pub fn close_view(&mut self, view: ViewId) -> (r: Option<ViewClosed>)
        requires
            old(self).wf(),
            old(self).core.buffers.next_view < u64::MAX - 1,
            old(self).core.buffers.next_doc < u64::MAX - 1,
        ensures
            close_view_post(*old(self), *final(self), view, r),
    {
        let j = match position_of(&self.windows.base.layout, view) {
            Some(j) => j,
            None => {
                return None;
            },
        };
        if self.windows.base.layout.len() <= 1 {
            return None;
        }
        let ghost g = *self;
        let succ = if j > 0 { self.windows.base.layout[j - 1] } else { self.windows.base.layout[1] };
        let focused = self.focused_view();
        let was_focused = focused == view;
        remove_view_all(&mut self.windows.base.layout, view);
        let ghost pred = other_than(view);
        let still_valid = crate::focus::contains_view(&self.windows.base.layout, focused) && focused != view;
        let mut focus_effects: Vec<FocusEffect> = Vec::new();
        let ghost live = succ != view && g.core.buffers.has_view(succ);
        proof {
            let k = if j > 0 { j - 1 } else { 1 };
            assert(g.windows.base.layout@[k as int] == succ);
            if succ != view {
                g.windows.base.layout@.lemma_filter_contains(pred, k as int);
                assert(self.windows.base.layout@.contains(succ));
            }
            if live {
                let t = FocusTarget::Buffer { window: self.windows.base.id, buffer: succ };
                assert(self.windows.holds(self.windows.base.id, succ));
                assert(self.normalize_spec(t) == Some(t));
            }
        }
        if was_focused || !still_valid {
            let ghost before_focus = *self;
            let (changed, mut e) = self.focus_buffer(succ);
            proof {
                if live {
                    let t = FocusTarget::Buffer { window: before_focus.windows.base.id, buffer: succ };
                    assert(!changed ==> target_eq(t, before_focus.focus));
                    assert(self.focus == t);
                }
            }
            focus_effects.append(&mut e);
        }
        let orphaned_doc = self.finalize_buffer_removal(view);
        proof {
            if live {
                let bp = |b: crate::buffer::Buffer| b.id != view;
                let i = choose|i: int| 0 <= i < g.core.buffers.views@.len() && g.core.buffers.views@[i].id == succ;
                g.core.buffers.views@.lemma_filter_contains(bp, i);
                let m = choose|m: int| 0 <= m < self.core.buffers.views@.len() && self.core.buffers.views@[m] == g.core.buffers.views@[i];
                assert(self.core.buffers.views@[m].id == succ);
                assert(self.core.buffers.has_view(succ));
                if was_focused || !still_valid {
                    let t = FocusTarget::Buffer { window: self.windows.base.id, buffer: succ };
                    assert(self.focus == t);
                    assert(self.normalize_spec(t) == Some(t));
                }
            }
        }
        let ghost pre_repair = *self;
        proof {
            if !(was_focused || !still_valid) && focus_in_place(g) {
                let bp = |b: crate::buffer::Buffer| b.id != view;
                let fb = g.focused_view_spec();
                assert(fb != view);
                match g.focus {
                    FocusTarget::Panel(p) => {
                        assert(g.has_panel(p));
                        assert(self.has_panel(p));
                    },
                    _ => {
                        assert(g.core.buffers.has_view(fb));
                        let i = choose|i: int| 0 <= i < g.core.buffers.views@.len() && g.core.buffers.views@[i].id == fb;
                        g.core.buffers.views@.lemma_filter_contains(bp, i);
                        let m = choose|m: int| 0 <= m < self.core.buffers.views@.len() && self.core.buffers.views@[m] == g.core.buffers.views@[i];
                        assert(self.core.buffers.views@[m].id == fb);
                        assert(self.core.buffers.has_view(fb));
                    },
                }
                assert(self.focus == g.focus);
                assert(self.windows.floating == g.windows.floating);
                assert(self.windows.base.id == g.windows.base.id);
                match g.focus {
                    FocusTarget::Buffer { window, buffer } => {
                        assert(self.windows.has_window(window));
                        if window == g.windows.base.id {
                            assert(self.windows.base.layout@.contains(buffer));
                        }
                        assert(self.windows.holds(window, buffer));
                    },
                    _ => {},
                }
                assert(self.normalize_spec(self.focus) == Some(self.focus));
            }
            if g.core.buffers.has_view(view) {
                let i = choose|i: int| 0 <= i < g.core.buffers.views@.len() && g.core.buffers.views@[i].id == view;
                assert(view.0 < g.core.buffers.next_view);
            }
        }
        let mut e2 = self.repair_invariants();
        proof {
            if g.core.buffers.has_view(view) && self.core.buffers.has_view(view) {
                assert(pre_repair.core.buffers.has_view(view) || view == ViewId(pre_repair.core.buffers.next_view));
            }
        }
        focus_effects.append(&mut e2);
        self.frame.needs_redraw = true;
        Some(ViewClosed { focus_effects, orphaned_doc })
    }

    /// Closes a buffer's view (see `close_view`).
    pub fn close_buffer(&mut self, id: ViewId) -> (r: Option<ViewClosed>)
        requires
            old(self).wf(),
            old(self).core.buffers.next_view < u64::MAX - 1,
            old(self).core.buffers.next_doc < u64::MAX - 1,
        ensures
            close_view_post(*old(self), *final(self), id, r),
    {
        self.close_view(id)
    }

    /// Closes the focused view (see `close_view`).
    pub fn close_current_view(&mut self) -> (r: Option<ViewClosed>)
        requires
            old(self).wf(),
            old(self).core.buffers.next_view < u64::MAX - 1,
            old(self).core.buffers.next_doc < u64::MAX - 1,
        ensures
            close_view_post(*old(self), *final(self), old(self).focused_view_spec(), r),
    {
        let v = self.focused_view();
        self.close_view(v)
    }
}

/// Closing the focused view of a sound layout (live views, none twice)
/// hands focus, in the base window, to the closed view's neighbour: the
/// view before it, or the view after it when it was first. In the new
/// layout that neighbour sits just before the gap the closed view left (or
/// first, when the closed view was first).
pub proof fn law_close_hands_focus_to_neighbour(e0: Editor, e1: Editor, view: ViewId, r: Option<ViewClosed>)
    requires
        close_view_post(e0, e1, view, r),
        r is Some,
        layout_sound(e0),
        e0.focused_view_spec() == view,
    ensures
        ({
            let layout = e0.windows.base.layout@;
            let j = layout_index(layout, view).unwrap();
            let nb = if j > 0 { layout[j - 1] } else { layout[1] };
            &&& 0 <= j < layout.len()
            &&& layout[j] == view
            &&& e1.focus == (FocusTarget::Buffer { window: e0.windows.base.id, buffer: nb })
            &&& nb != view
            &&& e1.windows.base.layout@.len() == layout.len() - 1
            &&& nb == e1.windows.base.layout@[if j > 0 { j - 1 } else { 0 }]
        }),
{
    let layout = e0.windows.base.layout@;
    lemma_first_index(layout, view);
    let j = layout_index(layout, view).unwrap();
    assert forall|k: int| 0 <= k < layout.len() && k != j implies layout[k] != view by {
        if k < j {
            assert(layout[k] != layout[j]);
        } else {
            assert(layout[j] != layout[k]);
        }
    }
    lemma_filter_remove_at(layout, j, view);
}

/// Filtering out a view a list does not hold keeps the list.
proof fn lemma_filter_absent(s: Seq<ViewId>, v: ViewId)
    requires
        !s.contains(v),
    ensures
        s.filter(other_than(v)) == s,
    decreases s.len(),
{
    reveal(Seq::filter);
    if s.len() > 0 {
        assert(!s.drop_last().contains(v)) by {
            if s.drop_last().contains(v) {
                let k = choose|k: int| 0 <= k < s.drop_last().len() && s.drop_last()[k] == v;
                assert(s[k] == v);
            }
        }
        lemma_filter_absent(s.drop_last(), v);
        assert(s.last() != v) by {
            assert(s[s.len() - 1] == s.last());
        }
        assert(s.drop_last().push(s.last()) =~= s);
    }
}

/// Filtering out a view held once, at `i`, removes just that position.
proof fn lemma_filter_remove_at(t: Seq<ViewId>, i: int, v: ViewId)
    requires
        0 <= i < t.len(),
        t[i] == v,
        forall|k: int| 0 <= k < t.len() && k != i ==> t[k] != v,
    ensures
        t.filter(other_than(v)) == t.remove(i),
    decreases t.len(),
{
    reveal(Seq::filter);
    let d = t.drop_last();
    if i == t.len() - 1 {
        assert(!d.contains(v)) by {
            if d.contains(v) {
                let k = choose|k: int| 0 <= k < d.len() && d[k] == v;
                assert(t[k] == v);
            }
        }
        lemma_filter_absent(d, v);
        assert(d =~= t.remove(i));
    } else {
        lemma_filter_remove_at(d, i, v);
        assert(t.last() != v) by {
            assert(t[t.len() - 1] == t.last());
        }
        assert(d.remove(i).push(t.last()) =~= t.remove(i));
    }
}

/// Inserting a view a list does not hold and filtering it out again gives
/// the list back.
proof fn lemma_filter_inserted(s: Seq<ViewId>, i: int, v: ViewId)
    requires
        !s.contains(v),
        0 <= i <= s.len(),
    ensures
        s.insert(i, v).filter(other_than(v)) == s,
{
    let t = s.insert(i, v);
    assert forall|k: int| 0 <= k < t.len() && k != i implies t[k] != v by {
        if k < i {
            assert(t[k] == s[k]);
        } else {
            assert(t[k] == s[k - 1]);
        }
    }
    lemma_filter_remove_at(t, i, v);
    assert(t.remove(i) =~= s);
}

/// Where a view inserted right after the first occurrence of another sits.
proof fn lemma_inserted_after(l0: Seq<ViewId>, cur: ViewId, id: ViewId)
    requires
        l0.contains(cur),
        !l0.contains(id),
    ensures
        ({
            let j = layout_index(l0, cur).unwrap();
            let l1 = l0.insert(j + 1, id);
            &&& 0 <= j < l0.len()
            &&& l1.contains(id)
            &&& l1.len() > 1
            &&& layout_index(l1, id) == Some(j + 1)
            &&& close_successor(l1, j + 1) == cur
            &&& cur != id
        }),
{
    lemma_first_index(l0, cur);
    let j = layout_index(l0, cur).unwrap();
    let l1 = l0.insert(j + 1, id);
    assert(0 <= j < l0.len() && l0[j] == cur);
    assert(l1[j + 1] == id);
    assert(l1[j] == cur);
    assert forall|k: int| 0 <= k < j + 1 implies l1[k] != id by {
        assert(l1[k] == l0[k]);
    }
    assert(l1.contains(id));
    let c = choose|c: int| 0 <= c < l1.len() && l1[c] == id && forall|k: int| 0 <= k < c ==> l1[k] != id;
    if c < j + 1 {
        assert(l1[c] != id);
    } else if c > j + 1 {
        assert(l1[j + 1] != id);
    }
}

/// A successful split puts the new view, a fresh id that was not in the
/// layout, directly after the first occurrence of the view it was split
/// from: every view before and at that place stays where it was, every one
/// after it moves one place on. The new view shows the same document at
/// the same cursor and has focus in the base window.
pub proof fn law_split_places_view_after_current(e0: Editor, e1: Editor, area_fits: bool, id: ViewId)
    requires
        split_post(e0, e1, area_fits, Ok(id)),
        !e0.windows.base.layout@.contains(id),
    ensures
        ({
            let cur = e0.focused_view_spec();
            let l0 = e0.windows.base.layout@;
            let l1 = e1.windows.base.layout@;
            let j = layout_index(l0, cur).unwrap();
            &&& 0 <= j < l0.len()
            &&& l0[j] == cur
            &&& forall|k: int| 0 <= k < j ==> l0[k] != cur
            &&& l1.len() == l0.len() + 1
            &&& forall|k: int| 0 <= k <= j ==> l1[k] == l0[k]
            &&& l1[j + 1] == id
            &&& forall|k: int| j < k < l0.len() ==> l1[k + 1] == l0[k]
            &&& id != cur
            &&& e1.core.buffers.view(id).doc == e0.core.buffers.view(cur).doc
            &&& e1.core.buffers.view(id).cursor == e0.core.buffers.view(cur).cursor
            &&& e1.focus == (FocusTarget::Buffer { window: e0.windows.base.id, buffer: id })
        }),
{
    let cur = e0.focused_view_spec();
    let l0 = e0.windows.base.layout@;
    lemma_inserted_after(l0, cur, id);
    lemma_first_index(l0, cur);
}

/// Closing the view a split has just made gives back the layout from
/// before the split, with focus on the view that was split.
pub proof fn law_close_undoes_split(
    e0: Editor,
    e1: Editor,
    e2: Editor,
    id: ViewId,
    r: Option<ViewClosed>,
)
    requires
        split_post(e0, e1, true, Ok(id)),
        !e0.windows.base.layout@.contains(id),
        close_view_post(e1, e2, id, r),
    ensures
        r is Some,
        e2.windows.base.layout@ == e0.windows.base.layout@,
        e2.focus == (FocusTarget::Buffer { window: e0.windows.base.id, buffer: e0.focused_view_spec() }),
{
    let cur = e0.focused_view_spec();
    let l0 = e0.windows.base.layout@;
    lemma_inserted_after(l0, cur, id);
    lemma_filter_inserted(l0, layout_index(l0, cur).unwrap() + 1, id);
    assert(e1.core.buffers.has_view(cur));
    assert(e1.focused_view_spec() == id);
}

} // verus!
