use vstd::prelude::*;

verus! {

/// Reason for a focus change (for hooks and debugging).
#[derive(Debug, Clone, Copy, PartialEq, Eq, Structural)]
pub enum FocusReason {
    /// User clicked on target.
    Click,
    /// User used keybinding (e.g., Ctrl+P for command palette).
    Keybinding,
    /// Programmatic focus (e.g., opening a new window).
    Programmatic,
    /// Mouse hover (if focus-follows-mouse enabled).
    Hover,
}

/// Focus epoch counter, incremented whenever focus or structure changes.
///
/// Used by async tasks to detect if their target view is still valid.
#[derive(Debug, Clone, Copy, PartialEq, Eq, Structural)]
pub struct FocusEpoch(pub u64);

/// The epoch that follows `e` (wrapping at the top of the counter range).
pub open spec fn next_epoch(e: u64) -> u64 {
    if e == u64::MAX { 0 } else { (e + 1) as u64 }
}

impl FocusEpoch {
    pub fn initial() -> (r: Self)
        ensures
            r.0 == 0,
    {
        FocusEpoch(0)
    }

    pub fn increment(&mut self)
        ensures
            final(self).0 == next_epoch(old(self).0),
    {
        self.0 = self.0.wrapping_add(1);
    }
}

} // verus!

verus! {

/// Identifies what has keyboard focus.
#[derive(Debug)]
pub enum FocusTarget {
    Buffer { window: crate::ids::WindowId, buffer: crate::ids::ViewId },
    Overlay { buffer: crate::ids::ViewId },
    Panel(String),
}

/// Two focus targets denote the same target (panel names compared by text).
pub open spec fn target_eq(a: FocusTarget, b: FocusTarget) -> bool {
    match (a, b) {
        (
            FocusTarget::Buffer { window: w1, buffer: b1 },
            FocusTarget::Buffer { window: w2, buffer: b2 },
        ) => w1 == w2 && b1 == b2,
        (FocusTarget::Overlay { buffer: b1 }, FocusTarget::Overlay { buffer: b2 }) => b1 == b2,
        (FocusTarget::Panel(p1), FocusTarget::Panel(p2)) => p1@ == p2@,
        _ => false,
    }
}

impl FocusTarget {
    /// A copy of this target.
    pub fn duplicate(&self) -> (t: Self)
        ensures
            t == *self,
    {
        match self {
            FocusTarget::Buffer { window, buffer } => FocusTarget::Buffer {
                window: *window,
                buffer: *buffer,
            },
            FocusTarget::Overlay { buffer } => FocusTarget::Overlay { buffer: *buffer },
            FocusTarget::Panel(p) => FocusTarget::Panel(p.clone()),
        }
    }

    /// Whether two targets denote the same target.
    pub fn same_as(&self, other: &FocusTarget) -> (b: bool)
        ensures
            b == target_eq(*self, *other),
    {
        match (self, other) {
            (
                FocusTarget::Buffer { window: w1, buffer: b1 },
                FocusTarget::Buffer { window: w2, buffer: b2 },
            ) => *w1 == *w2 && *b1 == *b2,
            (FocusTarget::Overlay { buffer: b1 }, FocusTarget::Overlay { buffer: b2 }) => *b1 == *b2,
            (FocusTarget::Panel(p1), FocusTarget::Panel(p2)) => *p1 == *p2,
            _ => false,
        }
    }
}

/// A lease on a view, letting async operations detect that their view was
/// closed or repurposed.
#[derive(Debug, Clone, Copy, PartialEq, Eq, Structural)]
pub struct ViewLease {
    /// Preferred view to apply the operation to.
    pub preferred_view: crate::ids::ViewId,
    /// Document the operation applies to.
    pub doc: crate::ids::DocumentId,
    /// Epoch at which the lease was acquired.
    pub epoch: FocusEpoch,
}

/// Notifications a focus change asks the host to deliver.
#[derive(Debug)]
pub enum FocusEffect {
    /// A scratch buffer was created because no buffer was left to focus.
    ScratchCreated(crate::ids::ViewId),
    /// Overlay layers are told the focus moved.
    OverlayFocusChanged { from: FocusTarget, to: FocusTarget },
    /// The focused view changed (view-focus hook).
    ViewFocusChanged { view: crate::ids::ViewId, prev: crate::ids::ViewId },
    /// A window gained or lost focus (window-focus hook).
    WindowFocusChanged { window: crate::ids::WindowId, focused: bool },
    /// A dismiss-on-blur floating window was closed.
    FloatingWindowClosed(crate::ids::WindowId),
    /// The open interaction overlay is closed because focus left it.
    InteractionClosed,
}

} // verus!

verus! {

/// First view of `layout` that still exists as a buffer.
pub open spec fn first_live(layout: Seq<crate::ids::ViewId>, bm: crate::buffer::BufferManager) -> Option<
    crate::ids::ViewId,
>
    decreases layout.len(),
{
    if layout.len() == 0 {
        None
    } else if bm.has_view(layout[0]) {
        Some(layout[0])
    } else {
        first_live(layout.drop_first(), bm)
    }
}

/// The first live view of a layout is live and in the layout.
pub proof fn lemma_first_live(layout: Seq<crate::ids::ViewId>, bm: crate::buffer::BufferManager)
    ensures
        first_live(layout, bm) matches Some(v) ==> bm.has_view(v) && layout.contains(v),
    decreases layout.len(),
{
    if layout.len() > 0 && !bm.has_view(layout[0]) {
        lemma_first_live(layout.drop_first(), bm);
        if let Some(v) = first_live(layout.drop_first(), bm) {
            let k = choose|k: int| 0 <= k < layout.drop_first().len() && layout.drop_first()[k] == v;
            assert(layout[k + 1] == v);
        }
    } else if layout.len() > 0 {
        assert(layout[0] == layout[0]);
    }
}

impl crate::editor::Editor {
    /// The view focus refers to: the buffer of a buffer or overlay target, or
    /// the base window's buffer while a panel has focus.
    pub open spec fn focused_view_spec(&self) -> crate::ids::ViewId {
        match self.focus {
            FocusTarget::Buffer { buffer, .. } => buffer,
            FocusTarget::Overlay { buffer } => buffer,
            FocusTarget::Panel(_) => self.windows.base.focused_buffer,
        }
    }

    pub open spec fn has_panel(&self, p: String) -> bool {
        exists|i: int| 0 <= i < self.panels@.len() && self.panels@[i]@ == p@
    }

    /// Fallback focus: the base window's buffer if it is live and in the base
    /// layout, else the first live buffer of the layout, else any buffer.
    pub open spec fn fallback_spec(&self) -> Option<FocusTarget> {
        let base = self.windows.base.id;
        let bf = self.windows.base.focused_buffer;
        if self.core.buffers.has_view(bf) && self.windows.holds(base, bf) {
            Some(FocusTarget::Buffer { window: base, buffer: bf })
        } else if first_live(self.windows.base.layout@, self.core.buffers) is Some {
            Some(
                FocusTarget::Buffer {
                    window: base,
                    buffer: first_live(self.windows.base.layout@, self.core.buffers)->0,
                },
            )
        } else if self.core.buffers.views@.len() > 0 {
            Some(FocusTarget::Buffer { window: base, buffer: self.core.buffers.views@[0].id })
        } else {
            None
        }
    }

    /// A target is kept when it is valid (window exists and shows the live
    /// buffer; overlay buffer live; panel present), else replaced by the
    /// fallback.
    pub open spec fn normalize_spec(&self, t: FocusTarget) -> Option<FocusTarget> {
        match t {
            FocusTarget::Buffer { window, buffer } => if self.windows.has_window(window)
                && self.core.buffers.has_view(buffer) && self.windows.holds(window, buffer) {
                Some(t)
            } else {
                self.fallback_spec()
            },
            FocusTarget::Overlay { buffer } => if self.core.buffers.has_view(buffer) {
                Some(t)
            } else {
                self.fallback_spec()
            },
            FocusTarget::Panel(p) => if self.has_panel(p) {
                Some(t)
            } else {
                self.fallback_spec()
            },
        }
    }

    /// The focused view.
    pub fn focused_view(&self) -> (v: crate::ids::ViewId)
        ensures
            v == self.focused_view_spec(),
    {
        match &self.focus {
            FocusTarget::Buffer { buffer, .. } => *buffer,
            FocusTarget::Overlay { buffer } => *buffer,
            FocusTarget::Panel(_) => self.windows.base.focused_buffer,
        }
    }

    /// Whether a window shows a view (base: in its layout; floating: its view).
    pub fn window_contains_view(&self, window: crate::ids::WindowId, view: crate::ids::ViewId) -> (b:
        bool)
        ensures
            b == self.windows.holds(window, view),
    {
        if window == self.windows.base.id {
            return contains_view(&self.windows.base.layout, view);
        }
        let mut i: usize = 0;
        while i < self.windows.floating.len()
            invariant
                i <= self.windows.floating@.len(),
                window != self.windows.base.id,
                forall|k: int|
                    0 <= k < i ==> !(self.windows.floating@[k].id == window
                        && self.windows.floating@[k].buffer == view),
            decreases self.windows.floating@.len() - i,
        {
            if self.windows.floating[i].id == window && self.windows.floating[i].buffer == view {
                return true;
            }
            i = i + 1;
        }
        false
    }

    fn has_window(&self, window: crate::ids::WindowId) -> (b: bool)
        ensures
            b == self.windows.has_window(window),
    {
        if window == self.windows.base.id {
            return true;
        }
        let mut i: usize = 0;
        while i < self.windows.floating.len()
            invariant
                i <= self.windows.floating@.len(),
                window != self.windows.base.id,
                forall|k: int| 0 <= k < i ==> self.windows.floating@[k].id != window,
            decreases self.windows.floating@.len() - i,
        {
            if self.windows.floating[i].id == window {
                return true;
            }
            i = i + 1;
        }
        false
    }

    fn panel_exists(&self, p: &String) -> (b: bool)
        ensures
            b == self.has_panel(*p),
    {
        let mut i: usize = 0;
        while i < self.panels.len()
            invariant
                i <= self.panels@.len(),
                forall|k: int| 0 <= k < i ==> self.panels@[k]@ != p@,
            decreases self.panels@.len() - i,
        {
            if self.panels[i] == *p {
                return true;
            }
            i = i + 1;
        }
        false
    }

    /// The first live buffer of the base layout.
    pub fn first_live_buffer_in_layout(&self) -> (r: Option<crate::ids::ViewId>)
        requires
            self.core.buffers.wf(),
        ensures
            r == first_live(self.windows.base.layout@, self.core.buffers),
    {
        let mut i: usize = 0;
        proof {
            assert(self.windows.base.layout@.subrange(0, self.windows.base.layout@.len() as int) =~= self.windows.base.layout@);
        }
        while i < self.windows.base.layout.len()
            invariant
                self.core.buffers.wf(),
                i <= self.windows.base.layout@.len(),
                first_live(self.windows.base.layout@.subrange(i as int, self.windows.base.layout@.len() as int), self.core.buffers)
                    == first_live(self.windows.base.layout@, self.core.buffers),
            decreases self.windows.base.layout@.len() - i,
        {
            let v = self.windows.base.layout[i];
            let ghost rest = self.windows.base.layout@.subrange(i as int, self.windows.base.layout@.len() as int);
            proof {
                assert(rest[0] == v);
                assert(rest.drop_first() =~= self.windows.base.layout@.subrange(i + 1, self.windows.base.layout@.len() as int));
            }
            if self.core.buffers.index_of(v).is_some() {
                return Some(v);
            }
            i = i + 1;
        }
        proof {
            assert(self.windows.base.layout@.subrange(i as int, self.windows.base.layout@.len() as int) =~= Seq::<crate::ids::ViewId>::empty());
        }
        None
    }

    /// A valid fallback focus target, or `None` when no buffer exists.
    pub fn fallback_buffer_focus(&self) -> (r: Option<FocusTarget>)
        requires
            self.core.buffers.wf(),
        ensures
            r == self.fallback_spec(),
    {
        let base = self.windows.base.id;
        let bf = self.windows.base.focused_buffer;
        if self.core.buffers.index_of(bf).is_some() && self.window_contains_view(base, bf) {
            return Some(FocusTarget::Buffer { window: base, buffer: bf });
        }
        if let Some(v) = self.first_live_buffer_in_layout() {
            return Some(FocusTarget::Buffer { window: base, buffer: v });
        }
        if self.core.buffers.views.len() > 0 {
            return Some(FocusTarget::Buffer { window: base, buffer: self.core.buffers.views[0].id });
        }
        None
    }

    /// Normalizes a focus target (see `normalize_spec`).
    pub fn normalize_target(&self, target: FocusTarget) -> (r: Option<FocusTarget>)
        requires
            self.core.buffers.wf(),
        ensures
            r == self.normalize_spec(target),
    {
        match target {
            FocusTarget::Buffer { window, buffer } => {
                if !self.has_window(window) || self.core.buffers.index_of(buffer).is_none()
                    || !self.window_contains_view(window, buffer) {
                    return self.fallback_buffer_focus();
                }
                Some(FocusTarget::Buffer { window, buffer })
            },
            FocusTarget::Overlay { buffer } => {
                if self.core.buffers.index_of(buffer).is_some() {
                    Some(FocusTarget::Overlay { buffer })
                } else {
                    self.fallback_buffer_focus()
                }
            },
            FocusTarget::Panel(p) => {
                if self.panel_exists(&p) {
                    Some(FocusTarget::Panel(p))
                } else {
                    self.fallback_buffer_focus()
                }
            },
        }
    }
}

/// Whether the list holds the view.
pub fn contains_view(views: &Vec<crate::ids::ViewId>, v: crate::ids::ViewId) -> (b: bool)
    ensures
        b == views@.contains(v),
{
    let mut i: usize = 0;
    while i < views.len()
        invariant
            i <= views@.len(),
            forall|k: int| 0 <= k < i ==> views@[k] != v,
        decreases views@.len() - i,
    {
        if views[i] == v {
            proof {
                assert(views@[i as int] == v);
            }
            return true;
        }
        i = i + 1;
    }
    false
}

} // verus!

verus! {

/// Clicks and keybindings are explicit; they override sticky focus.
pub open spec fn is_explicit(reason: FocusReason) -> bool {
    reason == FocusReason::Click || reason == FocusReason::Keybinding
}

/// The window a target belongs to, for buffer targets.
pub open spec fn target_window(t: FocusTarget) -> Option<crate::ids::WindowId> {
    match t {
        FocusTarget::Buffer { window, .. } => Some(window),
        _ => None,
    }
}

/// Whether window `w` is a floating window that closes when it loses focus.
pub open spec fn dismisses_on_blur(wm: crate::editor::WindowManager, w: crate::ids::WindowId) -> bool {
    exists|i: int| 0 <= i < wm.floating@.len() && wm.floating@[i].id == w && wm.floating@[i].dismiss_on_blur
}

/// Whether leaving target `t` closes its window: it is a floating window
/// that closes on blur.
pub open spec fn blur_closes(wm: crate::editor::WindowManager, t: FocusTarget) -> bool {
    match target_window(t) {
        Some(w) => dismisses_on_blur(wm, w),
        None => false,
    }
}

/// The effects of a window-level focus change from window `from` to window
/// `to` (either may be none): nothing when they are the same; else the old
/// window loses focus, the new one gains it, and the old one is closed when
/// `close_old`.
pub open spec fn window_focus_effects(
    from: Option<crate::ids::WindowId>,
    to: Option<crate::ids::WindowId>,
    close_old: bool,
) -> Seq<FocusEffect> {
    if from == to {
        Seq::empty()
    } else {
        (match from {
            Some(w) => seq![FocusEffect::WindowFocusChanged { window: w, focused: false }],
            None => Seq::empty(),
        }) + (match to {
            Some(w) => seq![FocusEffect::WindowFocusChanged { window: w, focused: true }],
            None => Seq::empty(),
        }) + (match from {
            Some(w) => if close_old { seq![FocusEffect::FloatingWindowClosed(w)] } else { Seq::empty() },
            None => Seq::empty(),
        })
    }
}

impl crate::editor::Editor {
    /// Focus validity: a buffer target's window exists and its buffer is
    /// live (and in the layout for the base window); an overlay's buffer is
    /// live.
    pub open spec fn focus_valid(&self) -> bool {
        match self.focus {
            FocusTarget::Buffer { window, buffer } => self.windows.has_window(window)
                && self.core.buffers.has_view(buffer) && (window == self.windows.base.id
                ==> self.windows.holds(window, buffer)),
            FocusTarget::Overlay { buffer } => self.core.buffers.has_view(buffer),
            FocusTarget::Panel(_) => true,
        }
    }

    /// A normalized target is valid in the state it was normalized in.
    pub proof fn lemma_normalized_valid(&self, t: FocusTarget)
        ensures
            first_live(self.windows.base.layout@, self.core.buffers) is Some ==> (self.normalize_spec(t) matches Some(n)
                ==> self.target_valid(n)),
    {
        let bf = self.windows.base.focused_buffer;
        let base = self.windows.base.id;
        if first_live(self.windows.base.layout@, self.core.buffers) is Some {
            lemma_first_live(self.windows.base.layout@, self.core.buffers);
        }
        if self.core.buffers.views@.len() > 0 {
            assert(self.core.buffers.has_view(self.core.buffers.views@[0].id));
        }
    }

    /// Whether a target would be valid focus in this state.
    pub open spec fn target_valid(&self, t: FocusTarget) -> bool {
        match t {
            FocusTarget::Buffer { window, buffer } => self.windows.has_window(window)
                && self.core.buffers.has_view(buffer) && (window == self.windows.base.id
                ==> self.windows.holds(window, buffer)),
            FocusTarget::Overlay { buffer } => self.core.buffers.has_view(buffer),
            FocusTarget::Panel(_) => true,
        }
    }

    /// The target focus moves to: the normalized request, or a fresh scratch
    /// buffer in the base window when no buffer exists.
    pub open spec fn effective_target(&self, requested: FocusTarget) -> FocusTarget {
        match self.normalize_spec(requested) {
            Some(t) => t,
            None => FocusTarget::Buffer {
                window: self.windows.base.id,
                buffer: crate::ids::ViewId(self.core.buffers.next_view),
            },
        }
    }

    /// Whether normalization replaced the requested target.
    pub open spec fn did_normalize(&self, requested: FocusTarget) -> bool {
        match self.normalize_spec(requested) {
            Some(t) => !target_eq(t, requested),
            None => true,
        }
    }

    /// Sticky focus: an implicit change to a valid buffer target does not
    /// steal focus from a sticky view.
    pub open spec fn sticky_blocks(&self, requested: FocusTarget, reason: FocusReason) -> bool {
        &&& !is_explicit(reason)
        &&& !self.did_normalize(requested)
        &&& match self.effective_target(requested) {
            FocusTarget::Buffer { buffer, .. } => self.frame.sticky_views@.contains(
                self.focused_view_spec(),
            ) && buffer != self.focused_view_spec(),
            _ => false,
        }
    }

    /// Whether `set_focus` moves focus.
    pub open spec fn focus_changes(&self, requested: FocusTarget, reason: FocusReason) -> bool {
        !target_eq(self.effective_target(requested), self.focus) && !self.sticky_blocks(
            requested,
            reason,
        )
    }

    /// Closes a floating window; returns whether one was removed.
    pub fn close_floating_window(&mut self, window: crate::ids::WindowId) -> (closed: bool)
        requires
            old(self).windows.wf(),
        ensures
            final(self).windows.wf(),
            final(self).windows.base == old(self).windows.base,
            closed <==> exists|i: int|
                0 <= i < old(self).windows.floating@.len() && old(self).windows.floating@[i].id == window,
            !closed ==> final(self).windows == old(self).windows,
            closed ==> exists|i: int|
                0 <= i < old(self).windows.floating@.len() && old(self).windows.floating@[i].id == window
                    && final(self).windows.floating@ == old(self).windows.floating@.remove(i),
            final(self).core == old(self).core,
            final(self).focus == old(self).focus,
            final(self).focus_epoch == old(self).focus_epoch,
            final(self).frame == old(self).frame,
            final(self).panels == old(self).panels,
            final(self).overlay_open == old(self).overlay_open,
            final(self).focused_panel == old(self).focused_panel,
    {
        let mut i: usize = 0;
        while i < self.windows.floating.len()
            invariant
                i <= self.windows.floating@.len(),
                *self == *old(self),
                old(self).windows.wf(),
                forall|k: int| 0 <= k < i ==> self.windows.floating@[k].id != window,
            decreases self.windows.floating@.len() - i,
        {
            if self.windows.floating[i].id == window {
                let _ = self.windows.floating.remove(i);
                proof {
                    let o = old(self).windows.floating@;
                    assert forall|a: int, b: int| 0 <= a < b < self.windows.floating@.len() implies
                        self.windows.floating@[a].id != self.windows.floating@[b].id by {
                        let a2 = if a < i { a } else { a + 1 };
                        let b2 = if b < i { b } else { b + 1 };
                        assert(a2 < b2);
                        assert(self.windows.floating@[a] == o[a2]);
                        assert(self.windows.floating@[b] == o[b2]);
                        assert(old(self).windows.wf());
                        assert(o[a2].id != o[b2].id);
                    }
                    assert forall|a: int| 0 <= a < self.windows.floating@.len() implies
                        #[trigger] self.windows.floating@[a].id != self.windows.base.id by {
                        let a2 = if a < i { a } else { a + 1 };
                        assert(self.windows.floating@[a] == o[a2]);
                        assert(o[a2].id != self.windows.base.id);
                    }
                }
                return true;
            }
            i = i + 1;
        }
        false
    }

    fn floating_dismisses_on_blur(&self, window: crate::ids::WindowId) -> (b: bool)
        ensures
            b == exists|i: int|
                0 <= i < self.windows.floating@.len() && self.windows.floating@[i].id == window
                    && self.windows.floating@[i].dismiss_on_blur,
    {
        let mut i: usize = 0;
        while i < self.windows.floating.len()
            invariant
                i <= self.windows.floating@.len(),
                forall|k: int|
                    0 <= k < i ==> !(self.windows.floating@[k].id == window
                        && self.windows.floating@[k].dismiss_on_blur),
            decreases self.windows.floating@.len() - i,
        {
            if self.windows.floating[i].id == window && self.windows.floating[i].dismiss_on_blur {
                return true;
            }
            i = i + 1;
        }
        false
    }

    /// Window-level focus change: hooks for the window that lost and the one
    /// that gained focus, and closing a dismiss-on-blur floating window that
    /// lost focus.
    pub fn handle_window_focus_change(&mut self, old_focus: &FocusTarget, new_focus: &FocusTarget) -> (effects:
        Vec<FocusEffect>)
        requires
            old(self).windows.wf(),
        ensures
            final(self).windows.wf(),
            final(self).windows.base == old(self).windows.base,
            forall|f: crate::editor::FloatingWindow|
                final(self).windows.floating@.contains(f) ==> old(self).windows.floating@.contains(f),
            target_window(*new_focus) matches Some(w) ==> (old(self).windows.has_window(w) ==> final(self).windows.has_window(w)),
            target_window(*new_focus) == target_window(*old_focus) ==> final(self).windows == old(self).windows,
            effects@ == window_focus_effects(
                target_window(*old_focus),
                target_window(*new_focus),
                blur_closes(old(self).windows, *old_focus),
            ),
            blur_closes(old(self).windows, *old_focus) && target_window(*new_focus) != target_window(*old_focus)
                ==> exists|i: int|
                0 <= i < old(self).windows.floating@.len() && Some(old(self).windows.floating@[i].id)
                    == target_window(*old_focus) && final(self).windows.floating@
                    == old(self).windows.floating@.remove(i),
            !blur_closes(old(self).windows, *old_focus) ==> final(self).windows == old(self).windows,
            final(self).core == old(self).core,
            final(self).focus == old(self).focus,
            final(self).focus_epoch == old(self).focus_epoch,
            final(self).frame == old(self).frame,
            final(self).panels == old(self).panels,
            final(self).overlay_open == old(self).overlay_open,
            final(self).focused_panel == old(self).focused_panel,
    {
        let old_window = match old_focus {
            FocusTarget::Buffer { window, .. } => Some(*window),
            _ => None,
        };
        let new_window = match new_focus {
            FocusTarget::Buffer { window, .. } => Some(*window),
            _ => None,
        };
        let mut effects: Vec<FocusEffect> = Vec::new();
        if old_window != new_window {
            if let Some(w) = old_window {
                effects.push(FocusEffect::WindowFocusChanged { window: w, focused: false });
            }
            if let Some(w) = new_window {
                effects.push(FocusEffect::WindowFocusChanged { window: w, focused: true });
            }
            if let Some(w) = old_window {
                if self.floating_dismisses_on_blur(w) {
                    let ghost before = self.windows.floating@;
                    self.close_floating_window(w);
                    proof {
                        let k = choose|k: int| 0 <= k < before.len() && before[k].id == w
                            && self.windows.floating@ == before.remove(k);
                        assert forall|f: crate::editor::FloatingWindow| self.windows.floating@.contains(f)
                            implies before.contains(f) by {
                            let j = choose|j: int| 0 <= j < self.windows.floating@.len() && self.windows.floating@[j] == f;
                            if j < k {
                                assert(before[j] == f);
                            } else {
                                assert(before[j + 1] == f);
                            }
                        }
                        if let Some(nw) = new_window {
                            if old(self).windows.has_window(nw) && nw != self.windows.base.id && nw != w {
                                let m = choose|m: int| 0 <= m < before.len() && before[m].id == nw;
                                if m < k {
                                    assert(self.windows.floating@[m].id == nw);
                                } else {
                                    assert(m != k);
                                    assert(self.windows.floating@[m - 1].id == nw);
                                }
                            }
                        }
                    }
                    effects.push(FocusEffect::FloatingWindowClosed(w));
                }
            }
        }
        effects
    }
}

} // verus!

verus! {

/// Holds of every view but `v`.
pub open spec fn other_than(v: crate::ids::ViewId) -> spec_fn(crate::ids::ViewId) -> bool {
    |x: crate::ids::ViewId| x != v
}

/// Removes every occurrence of a view from a list.
pub fn remove_view_all(views: &mut Vec<crate::ids::ViewId>, v: crate::ids::ViewId)
    ensures
        final(views)@ == old(views)@.filter(other_than(v)),
        !final(views)@.contains(v),
{
    let ghost orig = views@;
    let mut out: Vec<crate::ids::ViewId> = Vec::new();
    let mut i: usize = 0;
    let ghost pred = other_than(v);
    while i < views.len()
        invariant
            i <= views@.len(),
            views@ == orig,
            out@ == orig.subrange(0, i as int).filter(pred),
            pred == other_than(v),
            !out@.contains(v),
        decreases views@.len() - i,
    {
        proof {
            assert(orig.subrange(0, i + 1).drop_last() =~= orig.subrange(0, i as int));
            reveal_with_fuel(Seq::filter, 1);
        }
        let x = views[i];
        if x != v {
            out.push(x);
        }
        proof {
            if out@.contains(v) {
                let k = choose|k: int| 0 <= k < out@.len() && out@[k] == v;
                if k < out@.len() - 1 {
                    assert(out@.drop_last()[k] == v);
                }
            }
        }
        i = i + 1;
    }
    proof {
        assert(orig.subrange(0, orig.len() as int) =~= orig);
    }
    *views = out;
}

impl crate::editor::Editor {
    /// Unified focus transition: normalizes the target (creating a scratch
    /// buffer when no buffer exists), honours sticky views for implicit
    /// changes, updates focus, the base window's buffer and the epoch, and
    /// reports the notifications to deliver. Returns whether focus changed.
    pub fn set_focus(&mut self, requested: FocusTarget, reason: FocusReason) -> (r: (bool, Vec<FocusEffect>))
        requires
            old(self).wf(),
            old(self).core.buffers.next_view < u64::MAX,
            old(self).core.buffers.next_doc < u64::MAX,
        ensures
            final(self).wf(),
            r.0 == old(self).focus_changes(requested, reason),
            r.0 ==> final(self).focus == old(self).effective_target(requested),
            r.0 ==> final(self).focus_epoch.0 == next_epoch(old(self).focus_epoch.0),
            r.0 ==> final(self).frame.needs_redraw,
            !r.0 ==> final(self).focus == old(self).focus && final(self).focus_epoch == old(self).focus_epoch,
            r.0 ==> (old(self).effective_target(requested) matches FocusTarget::Buffer { window, buffer }
                ==> (window == old(self).windows.base.id ==> final(self).windows.base.focused_buffer == buffer)),
            final(self).windows.base.layout == old(self).windows.base.layout,
            final(self).windows.base.id == old(self).windows.base.id,
            old(self).normalize_spec(requested) is Some ==> final(self).core == old(self).core,
            old(self).normalize_spec(requested) is None ==> final(self).core.buffers.has_view(
                crate::ids::ViewId(old(self).core.buffers.next_view),
            ) && final(self).windows.base.focused_buffer == crate::ids::ViewId(old(self).core.buffers.next_view),
            forall|v: crate::ids::ViewId| old(self).core.buffers.has_view(v) ==> final(self).core.buffers.has_view(v),
            forall|v: crate::ids::ViewId|
                #[trigger] final(self).core.buffers.has_view(v) ==> old(self).core.buffers.has_view(v) || v
                    == crate::ids::ViewId(old(self).core.buffers.next_view),
            forall|f: crate::editor::FloatingWindow|
                final(self).windows.floating@.contains(f) ==> old(self).windows.floating@.contains(f),
            final(self).core.buffers.next_view <= old(self).core.buffers.next_view + 1,
            final(self).core.buffers.next_doc <= old(self).core.buffers.next_doc + 1,
            first_live(old(self).windows.base.layout@, old(self).core.buffers) is Some && (r.0 || old(self).focus_valid())
                ==> final(self).focus_valid(),
    {
        let ghost g = *self;
        proof {
            g.lemma_normalized_valid(requested);
        }
        let normalized = self.normalize_target(requested.duplicate());
        let did_normalize = match &normalized {
            Some(t) => !t.same_as(&requested),
            None => true,
        };
        let mut effects: Vec<FocusEffect> = Vec::new();
        let effective = match normalized {
            Some(t) => t,
            None => {
                let s = self.core.buffers.create_scratch();
                proof {
                    let b = self.core.buffers;
                    assert forall|v: crate::ids::ViewId| #[trigger] b.has_view(v) implies g.core.buffers.has_view(v)
                        || v == s by {
                        let i = choose|i: int| 0 <= i < b.views@.len() && b.views@[i].id == v;
                        if i < b.views@.len() - 1 {
                            assert(b.views@.drop_last()[i] == b.views@[i]);
                        }
                    }
                }
                self.windows.base.focused_buffer = s;
                effects.push(FocusEffect::ScratchCreated(s));
                FocusTarget::Buffer { window: self.windows.base.id, buffer: s }
            },
        };
        assert(effective == g.effective_target(requested));
        if effective.same_as(&self.focus) {
            return (false, effects);
        }
        let old_focus = self.focus.duplicate();
        let old_view = self.focused_view();
        let explicit = match reason {
            FocusReason::Click | FocusReason::Keybinding => true,
            _ => false,
        };
        if !explicit && !did_normalize {
            if let FocusTarget::Buffer { buffer, .. } = &effective {
                if contains_view(&self.frame.sticky_views, old_view) && *buffer != old_view {
                    return (false, effects);
                }
            }
        }
        assert(g.focus_changes(requested, reason));
        self.focus = effective.duplicate();
        effects.push(FocusEffect::OverlayFocusChanged { from: old_focus.duplicate(), to: effective.duplicate() });
        if let FocusTarget::Buffer { window, buffer } = &effective {
            if *window == self.windows.base.id {
                self.windows.base.focused_buffer = *buffer;
            }
        }
        self.focus_epoch.increment();
        self.frame.needs_redraw = true;
        if explicit {
            if let FocusTarget::Buffer { buffer, .. } = &effective {
                if *buffer != old_view {
                    remove_view_all(&mut self.frame.sticky_views, old_view);
                }
            }
        }
        let new_view = self.focused_view();
        if new_view != old_view {
            effects.push(FocusEffect::ViewFocusChanged { view: new_view, prev: old_view });
        }
        let ghost mid = *self;
        let mut window_effects = self.handle_window_focus_change(&old_focus, &effective);
        proof {
            if let FocusTarget::Buffer { window, buffer } = effective {
                if g.normalize_spec(requested) is Some {
                    assert(mid.windows.has_window(window));
                    assert(self.windows.has_window(window));
                }
            }
        }
        effects.append(&mut window_effects);
        let leaving_overlay = match (&old_focus, &effective) {
            (FocusTarget::Overlay { .. }, FocusTarget::Overlay { .. }) => false,
            (FocusTarget::Overlay { .. }, _) => true,
            _ => false,
        };
        let hover = match reason {
            FocusReason::Hover => true,
            _ => false,
        };
        if self.overlay_open && leaving_overlay && !hover {
            self.overlay_open = false;
            effects.push(FocusEffect::InteractionClosed);
        }
        (true, effects)
    }
}

} // verus!

verus! {

impl crate::editor::Editor {
    /// Focuses a view of the base window explicitly (click or keybinding).
    pub fn focus_view(&mut self, view: crate::ids::ViewId) -> (r: (bool, Vec<FocusEffect>))
        requires
            old(self).wf(),
            old(self).core.buffers.next_view < u64::MAX,
            old(self).core.buffers.next_doc < u64::MAX,
        ensures
            final(self).wf(),
            r.0 == old(self).focus_changes(
                FocusTarget::Buffer { window: old(self).windows.base.id, buffer: view },
                FocusReason::Click,
            ),
            r.0 ==> final(self).focus == old(self).effective_target(
                FocusTarget::Buffer { window: old(self).windows.base.id, buffer: view },
            ),
            !r.0 ==> final(self).focus == old(self).focus,
            old(self).normalize_spec(FocusTarget::Buffer { window: old(self).windows.base.id, buffer: view }) is Some
                ==> final(self).core == old(self).core,
            forall|v: crate::ids::ViewId|
                #[trigger] final(self).core.buffers.has_view(v) ==> old(self).core.buffers.has_view(v) || v
                    == crate::ids::ViewId(old(self).core.buffers.next_view),
            forall|f: crate::editor::FloatingWindow|
                final(self).windows.floating@.contains(f) ==> old(self).windows.floating@.contains(f),
            final(self).windows.base.layout == old(self).windows.base.layout,
            final(self).windows.base.id == old(self).windows.base.id,
            final(self).core.buffers.next_view <= old(self).core.buffers.next_view + 1,
            final(self).core.buffers.next_doc <= old(self).core.buffers.next_doc + 1,
    {
        let target = FocusTarget::Buffer { window: self.windows.base.id, buffer: view };
        self.set_focus(target, FocusReason::Click)
    }

    /// Focuses a view implicitly (mouse hover); sticky views keep focus.
    pub fn focus_view_implicit(&mut self, view: crate::ids::ViewId) -> (r: (bool, Vec<FocusEffect>))
        requires
            old(self).wf(),
            old(self).core.buffers.next_view < u64::MAX,
            old(self).core.buffers.next_doc < u64::MAX,
        ensures
            final(self).wf(),
            r.0 == old(self).focus_changes(
                FocusTarget::Buffer { window: old(self).windows.base.id, buffer: view },
                FocusReason::Hover,
            ),
            r.0 ==> final(self).focus == old(self).effective_target(
                FocusTarget::Buffer { window: old(self).windows.base.id, buffer: view },
            ),
            !r.0 ==> final(self).focus == old(self).focus,
    {
        let target = FocusTarget::Buffer { window: self.windows.base.id, buffer: view };
        self.set_focus(target, FocusReason::Hover)
    }

    /// Focuses a buffer by id (explicitly).
    pub fn focus_buffer(&mut self, id: crate::ids::ViewId) -> (r: (bool, Vec<FocusEffect>))
        requires
            old(self).wf(),
            old(self).core.buffers.next_view < u64::MAX,
            old(self).core.buffers.next_doc < u64::MAX,
        ensures
            final(self).wf(),
            r.0 == old(self).focus_changes(
                FocusTarget::Buffer { window: old(self).windows.base.id, buffer: id },
                FocusReason::Click,
            ),
            r.0 ==> final(self).focus == old(self).effective_target(
                FocusTarget::Buffer { window: old(self).windows.base.id, buffer: id },
            ),
            !r.0 ==> final(self).focus == old(self).focus,
            old(self).normalize_spec(FocusTarget::Buffer { window: old(self).windows.base.id, buffer: id }) is Some
                ==> final(self).core == old(self).core,
            final(self).windows.base.layout == old(self).windows.base.layout,
            final(self).windows.base.id == old(self).windows.base.id,
            final(self).core.buffers.next_view <= old(self).core.buffers.next_view + 1,
            final(self).core.buffers.next_doc <= old(self).core.buffers.next_doc + 1,
    {
        self.focus_view(id)
    }

    /// Focuses a view in a window: explicit focus acts as a click, otherwise
    /// it is programmatic.
    pub fn focus_buffer_in_window(
        &mut self,
        window_id: crate::ids::WindowId,
        view: crate::ids::ViewId,
        explicit: bool,
    ) -> (r: (bool, Vec<FocusEffect>))
        requires
            old(self).wf(),
            old(self).core.buffers.next_view < u64::MAX,
            old(self).core.buffers.next_doc < u64::MAX,
        ensures
            final(self).wf(),
            r.0 == old(self).focus_changes(
                FocusTarget::Buffer { window: window_id, buffer: view },
                if explicit { FocusReason::Click } else { FocusReason::Programmatic },
            ),
            r.0 ==> final(self).focus == old(self).effective_target(
                FocusTarget::Buffer { window: window_id, buffer: view },
            ),
            !r.0 ==> final(self).focus == old(self).focus,
    {
        let target = FocusTarget::Buffer { window: window_id, buffer: view };
        let reason = if explicit { FocusReason::Click } else { FocusReason::Programmatic };
        self.set_focus(target, reason)
    }

    /// Follows the UI's focused panel: focus moves to it, or back to the base
    /// window's buffer when the UI has no focused panel but focus is on one.
    pub fn sync_focus_from_ui(&mut self) -> (r: Option<(bool, Vec<FocusEffect>)>)
        requires
            old(self).wf(),
            old(self).core.buffers.next_view < u64::MAX,
            old(self).core.buffers.next_doc < u64::MAX,
        ensures
            final(self).wf(),
            old(self).focused_panel matches Some(p) ==> (r matches Some((b, _)) && b
                == old(self).focus_changes(FocusTarget::Panel(p), FocusReason::Programmatic)),
            (old(self).focused_panel is None && old(self).focus is Panel) ==> (r matches Some((b, _)) && b
                == old(self).focus_changes(
                FocusTarget::Buffer {
                    window: old(self).windows.base.id,
                    buffer: old(self).windows.base.focused_buffer,
                },
                FocusReason::Programmatic,
            )),
            (old(self).focused_panel is None && !(old(self).focus is Panel)) ==> (r is None && *final(self) == *old(self)),
    {
        match &self.focused_panel {
            Some(p) => {
                let target = FocusTarget::Panel(p.clone());
                Some(self.set_focus(target, FocusReason::Programmatic))
            },
            None => {
                let on_panel = match &self.focus {
                    FocusTarget::Panel(_) => true,
                    _ => false,
                };
                if on_panel {
                    let target = FocusTarget::Buffer {
                        window: self.windows.base.id,
                        buffer: self.windows.base.focused_buffer,
                    };
                    Some(self.set_focus(target, FocusReason::Programmatic))
                } else {
                    None
                }
            },
        }
    }

    /// Repairs focus after structural changes: an invalid focus is moved to
    /// its normalized target (or a scratch buffer) unless a sticky view keeps
    /// it, and the base window's buffer follows a valid base-window focus.
    pub fn repair_invariants(&mut self) -> (effects: Vec<FocusEffect>)
        requires
            old(self).wf(),
            old(self).core.buffers.next_view < u64::MAX,
            old(self).core.buffers.next_doc < u64::MAX,
        ensures
            final(self).wf(),
            final(self).focus == old(self).focus || final(self).focus == old(self).effective_target(old(self).focus),
            (old(self).normalize_spec(old(self).focus) matches Some(n) && target_eq(n, old(self).focus))
                ==> final(self).focus == old(self).focus && final(self).core == old(self).core,
            (old(self).normalize_spec(old(self).focus) matches Some(n) && target_eq(n, old(self).focus))
                ==> (old(self).focus matches FocusTarget::Buffer { window, buffer } ==> (window
                == old(self).windows.base.id ==> final(self).windows.base.focused_buffer == buffer)),
            final(self).windows.base.layout == old(self).windows.base.layout,
            final(self).windows.base.id == old(self).windows.base.id,
            forall|v: crate::ids::ViewId| old(self).core.buffers.has_view(v) ==> final(self).core.buffers.has_view(v),
            forall|v: crate::ids::ViewId|
                #[trigger] final(self).core.buffers.has_view(v) ==> old(self).core.buffers.has_view(v) || v
                    == crate::ids::ViewId(old(self).core.buffers.next_view),
            final(self).core.buffers.next_view <= old(self).core.buffers.next_view + 1,
            final(self).core.buffers.next_doc <= old(self).core.buffers.next_doc + 1,
    {
        let current = self.focus.duplicate();
        proof {
            self.lemma_normalize_idempotent(current);
        }
        let normalized = self.normalize_target(current.duplicate());
        match normalized {
            None => {
                let (_, e) = self.set_focus(current, FocusReason::Programmatic);
                e
            },
            Some(eff) => {
                if !eff.same_as(&current) {
                    let (_, e) = self.set_focus(eff, FocusReason::Programmatic);
                    return e;
                }
                if let FocusTarget::Buffer { window, buffer } = eff {
                    if window == self.windows.base.id && self.windows.base.focused_buffer != buffer {
                        self.windows.base.focused_buffer = buffer;
                        self.focus_epoch.increment();
                    }
                }
                Vec::new()
            },
        }
    }

    /// Normalizing a normalized target keeps it.
    pub proof fn lemma_normalize_idempotent(&self, t: FocusTarget)
        ensures
            self.normalize_spec(t) matches Some(n) ==> self.normalize_spec(n) == Some(n),
    {
        if first_live(self.windows.base.layout@, self.core.buffers) is Some {
            lemma_first_live(self.windows.base.layout@, self.core.buffers);
        }
        if self.core.buffers.views@.len() > 0 {
            assert(self.core.buffers.has_view(self.core.buffers.views@[0].id));
        }
    }
}

/// The view a leased operation goes to: the preferred view while it still
/// shows the leased document, else some view of that document.
pub open spec fn lease_target_ok(bm: crate::buffer::BufferManager, lease: ViewLease, r: Option<crate::ids::ViewId>) -> bool {
    if bm.has_view(lease.preferred_view) && bm.view(lease.preferred_view).doc == lease.doc {
        r == Some(lease.preferred_view)
    } else {
        &&& r is None <==> !(exists|i: int| 0 <= i < bm.views@.len() && bm.views@[i].doc == lease.doc)
        &&& r matches Some(v) ==> exists|i: int|
            0 <= i < bm.views@.len() && bm.views@[i].doc == lease.doc && bm.views@[i].id == v
    }
}

/// Position of `v` in the layout (its first occurrence), if any.
pub open spec fn layout_index(layout: Seq<crate::ids::ViewId>, v: crate::ids::ViewId) -> Option<int> {
    if layout.contains(v) {
        Some(choose|i: int| 0 <= i < layout.len() && layout[i] == v && forall|j: int| 0 <= j < i ==> layout[j] != v)
    } else {
        None
    }
}

/// A view a layout holds has a first position in it.
pub proof fn lemma_first_index(layout: Seq<crate::ids::ViewId>, v: crate::ids::ViewId)
    requires
        layout.contains(v),
    ensures
        exists|i: int| 0 <= i < layout.len() && layout[i] == v && forall|j: int| 0 <= j < i ==> layout[j] != v,
    decreases layout.len(),
{
    if layout[0] == v {
        assert(0 <= 0 < layout.len() && layout[0] == v && forall|j: int| 0 <= j < 0 ==> layout[j] != v);
    } else {
        let rest = layout.drop_first();
        let k = choose|k: int| 0 <= k < layout.len() && layout[k] == v;
        assert(rest[k - 1] == v);
        lemma_first_index(rest, v);
        let i = choose|i: int| 0 <= i < rest.len() && rest[i] == v && forall|j: int| 0 <= j < i ==> rest[j] != v;
        assert(layout[i + 1] == v);
        assert forall|j: int| 0 <= j < i + 1 implies layout[j] != v by {
            if j > 0 {
                assert(layout[j] == rest[j - 1]);
            }
        }
    }
}

/// The view after `v` in the layout, cycling; the first view when `v` is
/// not in it; `v` itself when the layout is empty.
pub open spec fn next_in_layout(layout: Seq<crate::ids::ViewId>, v: crate::ids::ViewId) -> crate::ids::ViewId {
    if layout.len() == 0 {
        v
    } else {
        match layout_index(layout, v) {
            Some(i) => layout[(i + 1) % (layout.len() as int)],
            None => layout[0],
        }
    }
}

/// The view before `v` in the layout, cycling; the last view when `v` is
/// not in it; `v` itself when the layout is empty.
pub open spec fn prev_in_layout(layout: Seq<crate::ids::ViewId>, v: crate::ids::ViewId) -> crate::ids::ViewId {
    if layout.len() == 0 {
        v
    } else {
        match layout_index(layout, v) {
            Some(i) => layout[(i + layout.len() - 1) % (layout.len() as int)],
            None => layout[layout.len() - 1],
        }
    }
}

/// Position of the first occurrence of `v` in the list.
pub fn position_of(views: &Vec<crate::ids::ViewId>, v: crate::ids::ViewId) -> (r: Option<usize>)
    ensures
        r is None <==> layout_index(views@, v) is None,
        r matches Some(i) ==> layout_index(views@, v) == Some(i as int) && i < views@.len(),
{
    let mut i: usize = 0;
    while i < views.len()
        invariant
            i <= views@.len(),
            forall|k: int| 0 <= k < i ==> views@[k] != v,
        decreases views@.len() - i,
    {
        if views[i] == v {
            proof {
                assert(views@[i as int] == v);
                assert(views@.contains(v));
                let c = choose|c: int| 0 <= c < views@.len() && views@[c] == v && forall|j: int| 0 <= j < c ==> views@[j] != v;
                assert(0 <= c < views@.len() && views@[c] == v && forall|j: int| 0 <= j < c ==> views@[j] != v);
                if c < i {
                    assert(views@[c] != v);
                } else if c > i {
                    assert(views@[i as int] != v);
                }
            }
            return Some(i);
        }
        i = i + 1;
    }
    proof {
        if views@.contains(v) {
            let k = choose|k: int| 0 <= k < views@.len() && views@[k] == v;
            assert(views@[k] != v);
        }
    }
    None
}

impl crate::editor::Editor {
    /// The lease `lease_focused_view` hands out: the focused buffer or
    /// overlay view, its document and the focus epoch, when that view exists.
    pub open spec fn lease_spec(&self) -> Option<ViewLease> {
        match self.focus {
            FocusTarget::Buffer { buffer, .. } => if self.core.buffers.has_view(buffer) {
                Some(ViewLease { preferred_view: buffer, doc: self.core.buffers.view(buffer).doc, epoch: self.focus_epoch })
            } else {
                None
            },
            FocusTarget::Overlay { buffer } => if self.core.buffers.has_view(buffer) {
                Some(ViewLease { preferred_view: buffer, doc: self.core.buffers.view(buffer).doc, epoch: self.focus_epoch })
            } else {
                None
            },
            FocusTarget::Panel(_) => None,
        }
    }

    /// A lease on the focused view, to resolve after an async operation.
    pub fn lease_focused_view(&self) -> (r: Option<ViewLease>)
        requires
            self.core.buffers.wf(),
        ensures
            r == self.lease_spec(),
    {
        let v = match &self.focus {
            FocusTarget::Buffer { buffer, .. } => *buffer,
            FocusTarget::Overlay { buffer } => *buffer,
            FocusTarget::Panel(_) => {
                return None;
            },
        };
        match self.core.buffers.get_buffer(v) {
            Some(b) => Some(ViewLease { preferred_view: v, doc: b.doc, epoch: self.focus_epoch }),
            None => None,
        }
    }

    /// The view a lease resolves to (see `lease_target_ok`).
    pub fn resolve_lease(&self, lease: &ViewLease) -> (r: Option<crate::ids::ViewId>)
        requires
            self.core.buffers.wf(),
        ensures
            lease_target_ok(self.core.buffers, *lease, r),
    {
        match self.core.buffers.get_buffer(lease.preferred_view) {
            Some(b) => {
                if b.doc == lease.doc {
                    return Some(lease.preferred_view);
                }
            },
            None => {},
        }
        self.core.buffers.any_buffer_for_doc(lease.doc)
    }

    /// The focus invariants: the focus is valid, the base window's return
    /// view exists, and some buffer exists.
    pub open spec fn invariants_hold(&self) -> bool {
        &&& self.focus_valid()
        &&& self.core.buffers.has_view(self.windows.base.focused_buffer)
        &&& self.core.buffers.views@.len() > 0
    }

    /// Whether the focus invariants hold.
    pub fn check_invariants(&self) -> (b: bool)
        requires
            self.core.buffers.wf(),
        ensures
            b == self.invariants_hold(),
    {
        let focus_ok = match &self.focus {
            FocusTarget::Buffer { window, buffer } => {
                self.has_window(*window) && self.core.buffers.get_buffer(*buffer).is_some() && (*window
                    != self.windows.base.id || self.window_contains_view(*window, *buffer))
            },
            FocusTarget::Overlay { buffer } => self.core.buffers.get_buffer(*buffer).is_some(),
            FocusTarget::Panel(_) => true,
        };
        focus_ok && self.core.buffers.get_buffer(self.windows.base.focused_buffer).is_some()
            && self.core.buffers.buffer_count() > 0
    }

    /// Focuses the next view of the base layout (see `next_in_layout`).
    pub fn focus_next_view(&mut self) -> (r: (bool, Vec<FocusEffect>))
        requires
            old(self).wf(),
            old(self).core.buffers.next_view < u64::MAX,
            old(self).core.buffers.next_doc < u64::MAX,
        ensures
            final(self).wf(),
            r.0 == old(self).focus_changes(
                FocusTarget::Buffer {
                    window: old(self).windows.base.id,
                    buffer: next_in_layout(old(self).windows.base.layout@, old(self).focused_view_spec()),
                },
                FocusReason::Click,
            ),
            r.0 ==> final(self).focus == old(self).effective_target(
                FocusTarget::Buffer {
                    window: old(self).windows.base.id,
                    buffer: next_in_layout(old(self).windows.base.layout@, old(self).focused_view_spec()),
                },
            ),
            !r.0 ==> final(self).focus == old(self).focus,
    {
        let cur = self.focused_view();
        let layout = &self.windows.base.layout;
        let n = layout.len();
        let next = if n == 0 {
            cur
        } else {
            match position_of(layout, cur) {
                Some(i) => layout[(i + 1) % n],
                None => layout[0],
            }
        };
        self.focus_view(next)
    }

    /// Focuses the previous view of the base layout (see `prev_in_layout`).
    pub fn focus_prev_view(&mut self) -> (r: (bool, Vec<FocusEffect>))
        requires
            old(self).wf(),
            old(self).core.buffers.next_view < u64::MAX,
            old(self).core.buffers.next_doc < u64::MAX,
        ensures
            final(self).wf(),
            r.0 == old(self).focus_changes(
                FocusTarget::Buffer {
                    window: old(self).windows.base.id,
                    buffer: prev_in_layout(old(self).windows.base.layout@, old(self).focused_view_spec()),
                },
                FocusReason::Click,
            ),
            r.0 ==> final(self).focus == old(self).effective_target(
                FocusTarget::Buffer {
                    window: old(self).windows.base.id,
                    buffer: prev_in_layout(old(self).windows.base.layout@, old(self).focused_view_spec()),
                },
            ),
            !r.0 ==> final(self).focus == old(self).focus,
    {
        let cur = self.focused_view();
        let layout = &self.windows.base.layout;
        let n = layout.len();
        let prev = if n == 0 {
            cur
        } else {
            match position_of(layout, cur) {
                Some(i) => {
                    let j = if i == 0 {
                        n - 1
                    } else {
                        i - 1
                    };
                    proof {
                        if i == 0 {
                            assert((i + n - 1) % (n as int) == n - 1) by (nonlinear_arith)
                                requires
                                    i == 0,
                                    n > 0,
                            ;
                        } else {
                            assert((i + n - 1) % (n as int) == i - 1) by (nonlinear_arith)
                                requires
                                    0 < i < n,
                            ;
                        }
                    }
                    layout[j]
                },
                None => layout[n - 1],
            }
        };
        self.focus_view(prev)
    }

    /// Focuses the next text buffer of the base layout; every view is a
    /// text buffer, so this is `focus_next_view`.
    pub fn focus_next_buffer(&mut self) -> (r: (bool, Vec<FocusEffect>))
        requires
            old(self).wf(),
            old(self).core.buffers.next_view < u64::MAX,
            old(self).core.buffers.next_doc < u64::MAX,
        ensures
            final(self).wf(),
            r.0 == old(self).focus_changes(
                FocusTarget::Buffer {
                    window: old(self).windows.base.id,
                    buffer: next_in_layout(old(self).windows.base.layout@, old(self).focused_view_spec()),
                },
                FocusReason::Click,
            ),
            r.0 ==> final(self).focus == old(self).effective_target(
                FocusTarget::Buffer {
                    window: old(self).windows.base.id,
                    buffer: next_in_layout(old(self).windows.base.layout@, old(self).focused_view_spec()),
                },
            ),
            !r.0 ==> final(self).focus == old(self).focus,
    {
        self.focus_next_view()
    }

    /// Focuses the previous text buffer of the base layout (see
    /// `focus_prev_view`).
    pub fn focus_prev_buffer(&mut self) -> (r: (bool, Vec<FocusEffect>))
        requires
            old(self).wf(),
            old(self).core.buffers.next_view < u64::MAX,
            old(self).core.buffers.next_doc < u64::MAX,
        ensures
            final(self).wf(),
            r.0 == old(self).focus_changes(
                FocusTarget::Buffer {
                    window: old(self).windows.base.id,
                    buffer: prev_in_layout(old(self).windows.base.layout@, old(self).focused_view_spec()),
                },
                FocusReason::Click,
            ),
            r.0 ==> final(self).focus == old(self).effective_target(
                FocusTarget::Buffer {
                    window: old(self).windows.base.id,
                    buffer: prev_in_layout(old(self).windows.base.layout@, old(self).focused_view_spec()),
                },
            ),
            !r.0 ==> final(self).focus == old(self).focus,
    {
        self.focus_prev_view()
    }
}

/// A lease taken on the focused view resolves to that view while nothing
/// changed.
pub proof fn law_fresh_lease_resolves(e: crate::editor::Editor, r: Option<crate::ids::ViewId>)
    requires
        e.lease_spec() is Some,
        lease_target_ok(e.core.buffers, e.lease_spec()->0, r),
    ensures
        r == Some(e.lease_spec()->0.preferred_view),
{
}

impl crate::editor::Editor {
    /// Removes view `id`; returns its document when no view of it is left
    /// (its document-level state is then to be released).
    pub fn finalize_buffer_removal(&mut self, id: crate::ids::ViewId) -> (orphan: Option<crate::ids::DocumentId>)
        requires
            old(self).core.buffers.wf(),
        ensures
            final(self).core.buffers.wf(),
            final(self).core.buffers.views@ == old(self).core.buffers.views@.filter(|b: crate::buffer::Buffer| b.id != id),
            final(self).core.buffers.docs == old(self).core.buffers.docs,
            final(self).core.buffers.focused == old(self).core.buffers.focused,
            final(self).core.buffers.next_view == old(self).core.buffers.next_view,
            final(self).core.buffers.next_doc == old(self).core.buffers.next_doc,
            !final(self).core.buffers.has_view(id),
            final(self).windows == old(self).windows,
            final(self).focus == old(self).focus,
            final(self).panels == old(self).panels,
            !old(self).core.buffers.has_view(id) ==> orphan is None,
            old(self).core.buffers.has_view(id) ==> (orphan is Some <==> !(exists|i: int|
                0 <= i < final(self).core.buffers.views@.len() && final(self).core.buffers.views@[i].doc
                    == old(self).core.buffers.view(id).doc)),
            orphan matches Some(d) ==> d == old(self).core.buffers.view(id).doc,
    {
        match self.core.buffers.remove_buffer_raw(id) {
            None => None,
            Some(b) => {
                if self.core.buffers.any_buffer_for_doc(b.doc).is_some() {
                    None
                } else {
                    Some(b.doc)
                }
            },
        }
    }
}

} // verus!
