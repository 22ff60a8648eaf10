//! Core editing state: buffers, workspace session state and undo history.

use vstd::prelude::*;

use crate::buffer::{Buffer, BufferManager};
use crate::history::UndoManager;
use crate::ids::ViewId;

verus! {

/// Session state persisting across buffer switches.
#[derive(Debug)]
pub struct Workspace {
    /// Named registers (yank buffers).
    pub registers: Vec<(char, String)>,
    /// Key/value state scripts keep between invocations.
    pub nu_state: Vec<(String, String)>,
}

impl Workspace {
    pub fn new() -> (w: Self)
        ensures
            w.registers@.len() == 0,
            w.nu_state@.len() == 0,
    {
        Workspace { registers: Vec::new(), nu_state: Vec::new() }
    }
}

/// Core editing state: buffers, workspace and undo history.
#[derive(Debug)]
pub struct EditorCore {
    pub buffers: BufferManager,
    pub workspace: Workspace,
    pub undo_manager: UndoManager,
}

impl EditorCore {
    /// Creates a new core with the given components.
    pub fn new(buffers: BufferManager, workspace: Workspace, undo_manager: UndoManager) -> (c: Self)
        ensures
            c.buffers == buffers,
            c.workspace == workspace,
            c.undo_manager == undo_manager,
    {
        EditorCore { buffers, workspace, undo_manager }
    }

    /// The focused view.
    pub fn focused_view(&self) -> (v: ViewId)
        ensures
            v == self.buffers.focused,
    {
        self.buffers.focused_view()
    }

    /// The focused buffer (it must exist).
    pub fn buffer(&self) -> (b: &Buffer)
        requires
            self.buffers.wf(),
            self.buffers.has_view(self.buffers.focused),
        ensures
            *b == self.buffers.view(self.buffers.focused),
            b.id == self.buffers.focused,
    {
        match self.buffers.index_of(self.buffers.focused) {
            Some(i) => {
                proof {
                    self.buffers.lemma_view_at(i as int);
                }
                &self.buffers.views[i]
            },
            None => {
                proof {
                    assert(false);
                }
                &self.buffers.views[0]
            },
        }
    }

    /// The focused buffer, mutably (it must exist). Changes to it may not
    /// change its id or its document.
    pub fn buffer_mut(&mut self) -> (b: &mut Buffer)
        requires
            old(self).buffers.wf(),
            old(self).buffers.has_view(old(self).buffers.focused),
        ensures
            *b == old(self).buffers.view(old(self).buffers.focused),
            final(b).id == b.id && final(b).doc == b.doc ==> final(self).buffers.wf(),
            final(self).buffers.focused == old(self).buffers.focused,
            final(self).buffers.docs == old(self).buffers.docs,
            final(self).buffers.next_view == old(self).buffers.next_view,
            final(self).buffers.next_doc == old(self).buffers.next_doc,
            final(self).buffers.views@.len() == old(self).buffers.views@.len(),
            exists|i: int|
                0 <= i < old(self).buffers.views@.len() && old(self).buffers.views@[i].id == old(self).buffers.focused
                    && final(self).buffers.views@ == old(self).buffers.views@.update(i, *final(b)),
            final(self).workspace == old(self).workspace,
            final(self).undo_manager == old(self).undo_manager,
    {
        let f = self.buffers.focused;
        match self.buffers.index_of(f) {
            Some(i) => {
                proof {
                    self.buffers.lemma_view_at(i as int);
                }
                &mut self.buffers.views[i]
            },
            None => {
                proof {
                    assert(false);
                }
                &mut self.buffers.views[0]
            },
        }
    }

    /// The buffer with this id, if any.
    pub fn get_buffer(&self, id: ViewId) -> (r: Option<&Buffer>)
        requires
            self.buffers.wf(),
        ensures
            r is Some <==> self.buffers.has_view(id),
            r matches Some(b) ==> *b == self.buffers.view(id),
    {
        self.buffers.get_buffer(id)
    }

    /// The buffer with this id, mutably, if any.
    pub fn get_buffer_mut(&mut self, id: ViewId) -> (r: Option<&mut Buffer>)
        requires
            old(self).buffers.wf(),
        ensures
            r is Some <==> old(self).buffers.has_view(id),
            r is None ==> *final(self) == *old(self),
            r matches Some(b) ==> *b == old(self).buffers.view(id) && exists|i: int|
                0 <= i < old(self).buffers.views@.len() && old(self).buffers.views@[i].id == id
                    && final(self).buffers.views@ == old(self).buffers.views@.update(i, *final(b)),
            r matches Some(b) ==> (final(b).id == b.id && final(b).doc == b.doc ==> final(self).buffers.wf()),
            final(self).buffers.focused == old(self).buffers.focused,
            final(self).buffers.docs == old(self).buffers.docs,
            final(self).buffers.next_view == old(self).buffers.next_view,
            final(self).buffers.next_doc == old(self).buffers.next_doc,
            final(self).workspace == old(self).workspace,
            final(self).undo_manager == old(self).undo_manager,
    {
        match self.buffers.index_of(id) {
            Some(i) => {
                proof {
                    self.buffers.lemma_view_at(i as int);
                }
                Some(&mut self.buffers.views[i])
            },
            None => None,
        }
    }
}

} // verus!
