//! The editor workspace: core state, windows, focus and per-frame flags.

use vstd::prelude::*;

use crate::buffer::BufferManager;
use crate::editor_core::{EditorCore, Workspace};
use crate::file_load::FileLoads;
use crate::focus::{FocusEpoch, FocusTarget};
use crate::history::UndoManager;
use crate::ids::{DocumentId, ViewId, WindowId};
use crate::selection::Range;
use crate::prompt::PromptState;
use crate::surface::Viewport;

verus! {

/// The base window: the split layout of text views.
#[derive(Debug)]
pub struct BaseWindow {
    pub id: WindowId,
    /// Views in the base layout, in layout order.
    pub layout: Vec<ViewId>,
    /// The view the base window returns focus to.
    pub focused_buffer: ViewId,
}

/// A floating window showing one view.
#[derive(Debug)]
pub struct FloatingWindow {
    pub id: WindowId,
    pub buffer: ViewId,
    /// Closed when it loses focus.
    pub dismiss_on_blur: bool,
}

/// The base window and the floating windows above it.
#[derive(Debug)]
pub struct WindowManager {
    pub base: BaseWindow,
    pub floating: Vec<FloatingWindow>,
    /// Id of the next floating window; above every id in use.
    pub next_window: u64,
}

impl WindowManager {
    pub open spec fn has_window(&self, w: WindowId) -> bool {
        w == self.base.id || exists|i: int| 0 <= i < self.floating@.len() && self.floating@[i].id == w
    }

    /// The window shows the view: base windows through their layout, floating
    /// windows through their single view.
    pub open spec fn holds(&self, w: WindowId, v: ViewId) -> bool {
        if w == self.base.id {
            self.base.layout@.contains(v)
        } else {
            exists|i: int|
                0 <= i < self.floating@.len() && self.floating@[i].id == w && self.floating@[i].buffer == v
        }
    }

    /// Floating window ids are distinct from each other and from the base id,
    /// and below the next id.
    pub open spec fn wf(&self) -> bool {
        &&& forall|i: int| 0 <= i < self.floating@.len() ==> #[trigger] self.floating@[i].id != self.base.id
        &&& forall|i: int, j: int|
            0 <= i < j < self.floating@.len() ==> self.floating@[i].id != self.floating@[j].id
        &&& self.base.id.0 < self.next_window
        &&& forall|i: int| 0 <= i < self.floating@.len() ==> #[trigger] self.floating@[i].id.0 < self.next_window
    }

    /// Adds a floating window showing `buffer` and returns its id.
    pub fn create_floating(&mut self, buffer: ViewId, dismiss_on_blur: bool) -> (w: WindowId)
        requires
            old(self).wf(),
            old(self).next_window < u64::MAX,
        ensures
            final(self).wf(),
            w == WindowId(old(self).next_window),
            !old(self).has_window(w),
            final(self).base == old(self).base,
            final(self).floating@ == old(self).floating@.push(FloatingWindow { id: w, buffer, dismiss_on_blur }),
            final(self).next_window == old(self).next_window + 1,
    {
        let w = WindowId(self.next_window);
        self.floating.push(FloatingWindow { id: w, buffer, dismiss_on_blur });
        self.next_window = self.next_window + 1;
        proof {
            let o = old(self).floating@;
            assert(forall|i: int| 0 <= i < o.len() ==> self.floating@[i] == o[i]);
            assert forall|i: int, j: int| 0 <= i < j < self.floating@.len() implies self.floating@[i].id
                != self.floating@[j].id by {
                if j == o.len() {
                    assert(o[i].id.0 < w.0);
                } else {
                    assert(o[i].id != o[j].id);
                }
            }
            if old(self).has_window(w) {
                if w != old(self).base.id {
                    let k = choose|k: int| 0 <= k < o.len() && o[k].id == w;
                    assert(o[k].id.0 < w.0);
                }
            }
        }
        w
    }


    pub fn base_id(&self) -> (w: WindowId)
        ensures
            w == self.base.id,
    {
        self.base.id
    }
}

/// Per-frame runtime flags.
#[derive(Debug)]
pub struct FrameState {
    pub needs_redraw: bool,
    /// Views that keep focus against implicit focus changes.
    pub sticky_views: Vec<ViewId>,
    pub pending_quit: bool,
}

/// The editor workspace.
#[derive(Debug)]
pub struct Editor {
    pub core: EditorCore,
    pub windows: WindowManager,
    pub focus: FocusTarget,
    pub focus_epoch: FocusEpoch,
    pub frame: FrameState,
    /// Panels the UI currently has.
    pub panels: Vec<String>,
    /// The panel the UI reports as focused.
    pub focused_panel: Option<String>,
    /// Whether a modal interaction overlay is open.
    pub overlay_open: bool,
    /// Background file loads in flight.
    pub loads: FileLoads,
    /// Terminal size.
    pub viewport: Viewport,
    /// The open prompt, if any.
    pub prompt: Option<PromptState>,
}

impl Editor {
    /// Structural well-formedness of buffers and windows.
    pub open spec fn wf(&self) -> bool {
        &&& self.core.buffers.wf()
        &&& self.windows.wf()
    }

    /// An editor showing `text` (optionally from `path`) in view 1 of the
    /// base window, which has focus.
    pub fn from_content(text: Vec<char>, path: Option<String>) -> (e: Self)
        ensures
            e.wf(),
            e.core.buffers.views@.len() == 1,
            e.core.buffers.views@[0].id == ViewId(1),
            e.core.buffers.docs@.len() == 1,
            e.core.buffers.docs@[0].id == DocumentId(1),
            e.core.buffers.docs@[0].text@ == text@,
            e.core.buffers.docs@[0].path == path,
            !e.core.buffers.docs@[0].readonly && !e.core.buffers.docs@[0].modified,
            e.core.buffers.views@[0].doc == DocumentId(1),
            e.core.buffers.views@[0].cursor == 0,
            e.core.buffers.views@[0].selection.ranges@ == seq![Range { anchor: 0, head: 0 }],
            e.core.buffers.views@[0].selection.primary_index == 0,
            e.core.buffers.views@[0].scroll_line == 0 && e.core.buffers.views@[0].scroll_segment == 0,
            e.core.buffers.views@[0].readonly_override is None,
            e.core.buffers.focused == ViewId(1),
            e.core.buffers.next_view == 2 && e.core.buffers.next_doc == 2,
            e.core.undo_manager.undo_groups().len() == 0,
            e.core.undo_manager.redo_groups().len() == 0,
            e.windows.base.layout@ == seq![ViewId(1)],
            e.windows.base.focused_buffer == ViewId(1),
            e.windows.floating@.len() == 0,
            e.focus == (FocusTarget::Buffer { window: e.windows.base.id, buffer: ViewId(1) }),
            e.focus_epoch.0 == 0,
            !e.frame.pending_quit,
            e.panels@.len() == 0,
            e.focused_panel is None,
            !e.overlay_open,
            e.loads.pending() == Map::<Seq<char>, u64>::empty(),
            e.loads.next_token_spec() == 0,
            e.loads.deferred_goto_spec() is None,
            e.viewport.width is None && e.viewport.height is None && e.viewport.doc_area is None,
            e.prompt is None,
    {
        let buffers = BufferManager::new(text, path);
        let core = EditorCore::new(buffers, Workspace::new(), UndoManager::new());
        let mut layout = Vec::new();
        layout.push(ViewId(1));
        let base = BaseWindow { id: WindowId(0), layout, focused_buffer: ViewId(1) };
        Editor {
            core,
            windows: WindowManager { base, floating: Vec::new(), next_window: 1 },
            focus: FocusTarget::Buffer { window: WindowId(0), buffer: ViewId(1) },
            focus_epoch: FocusEpoch::initial(),
            frame: FrameState { needs_redraw: false, sticky_views: Vec::new(), pending_quit: false },
            panels: Vec::new(),
            focused_panel: None,
            overlay_open: false,
            loads: FileLoads::new(),
            viewport: Viewport { width: None, height: None, doc_area: None },
            prompt: None,
        }
    }

    /// A scratch editor: one empty, pathless buffer.
    pub fn new_scratch() -> (e: Self)
        ensures
            e.wf(),
            e.core.buffers.views@.len() == 1,
            e.core.buffers.views@[0].id == ViewId(1),
            e.core.buffers.docs@[0].text@.len() == 0,
            e.core.buffers.docs@[0].path is None,
            e.windows.base.layout@ == seq![ViewId(1)],
            e.windows.base.focused_buffer == ViewId(1),
            e.windows.floating@.len() == 0,
            e.focus == (FocusTarget::Buffer { window: e.windows.base.id, buffer: ViewId(1) }),
            e.focus_epoch.0 == 0,
    {
        Editor::from_content(Vec::new(), None)
    }

    /// Records the terminal size after a resize and asks for a redraw.
    pub fn handle_window_resize(&mut self, width: u16, height: u16)
        ensures
            final(self).viewport.width == Some(width),
            final(self).viewport.height == Some(height),
            final(self).viewport.doc_area == old(self).viewport.doc_area,
            final(self).frame.needs_redraw,
            final(self).frame.sticky_views == old(self).frame.sticky_views,
            final(self).frame.pending_quit == old(self).frame.pending_quit,
            final(self).core == old(self).core,
            final(self).windows == old(self).windows,
            final(self).focus == old(self).focus,
            final(self).prompt == old(self).prompt,
    {
        self.viewport.width = Some(width);
        self.viewport.height = Some(height);
        self.frame.needs_redraw = true;
    }

    /// Requests the editor to quit after the current event loop iteration.
    pub fn request_quit(&mut self)
        ensures
            final(self).frame.pending_quit,
            final(self).core == old(self).core,
            final(self).focus == old(self).focus,
    {
        self.frame.pending_quit = true;
    }

    /// Consumes and returns the pending quit request.
    pub fn take_quit_request(&mut self) -> (b: bool)
        ensures
            b == old(self).frame.pending_quit,
            !final(self).frame.pending_quit,
            final(self).core == old(self).core,
            final(self).focus == old(self).focus,
            final(self).frame.sticky_views == old(self).frame.sticky_views,
    {
        if self.frame.pending_quit {
            self.frame.pending_quit = false;
            true
        } else {
            false
        }
    }
}

} // verus!
