//! Navigating the focused view to a file location. The focused view keeps
//! its id: it is rebound to the file's document, taken from another view
//! that shows it or loaded from disk.

use vstd::prelude::*;

use crate::buffer::{Buffer, BufferManager, Document};
use crate::editor::Editor;
use crate::file_load::moved_to;
use crate::focus::next_epoch;
use crate::ids::{DocumentId, ViewId};
use crate::search_ops::focus_at;
use crate::selection::Selection;
use crate::surface::Location;
use crate::text::goto_target;

verus! {

/// Why navigation could not proceed.
#[derive(Debug, Clone, Copy, PartialEq, Eq, Structural)]
pub enum GotoError {
    /// No view shows the file and its text was not given: load it first.
    NeedsLoad,
}

impl BufferManager {
    /// Adds a document no view shows yet and returns its id.
    pub fn add_document(&mut self, text: Vec<char>, path: Option<String>, readonly: bool) -> (d: DocumentId)
        requires
            old(self).wf(),
            old(self).next_doc < u64::MAX,
        ensures
            final(self).wf(),
            d == DocumentId(old(self).next_doc),
            !old(self).has_doc(d),
            final(self).docs@ == old(self).docs@.push(Document { id: d, text, path, readonly, modified: false }),
            final(self).views == old(self).views,
            final(self).focused == old(self).focused,
            final(self).next_view == old(self).next_view,
            final(self).next_doc == old(self).next_doc + 1,
    {
        let d = DocumentId(self.next_doc);
        self.docs.push(Document { id: d, text, path, readonly, modified: false });
        self.next_doc = self.next_doc + 1;
        proof {
            let o = old(self).docs@;
            assert(forall|a: int| 0 <= a < o.len() ==> self.docs@[a] == o[a]);
            assert forall|a: int, c: int| 0 <= a < c < self.docs@.len() implies self.docs@[a].id != self.docs@[c].id by {
                if c == o.len() {
                    assert(o[a].id.0 < d.0);
                } else {
                    assert(o[a].id != o[c].id);
                }
            }
            assert forall|a: int| 0 <= a < self.views@.len() implies self.has_doc(#[trigger] self.views@[a].doc) by {
                assert(old(self).has_doc(old(self).views@[a].doc));
                let j = choose|j: int| 0 <= j < o.len() && o[j].id == old(self).views@[a].doc;
                assert(self.docs@[j].id == self.views@[a].doc);
            }
            if old(self).has_doc(d) {
                let j = choose|j: int| 0 <= j < o.len() && o[j].id == d;
                assert(o[j].id.0 < old(self).next_doc);
            }
        }
        d
    }

    /// Replaces the view at position `i` by `b`, which keeps its id and
    /// shows an existing document.
    fn replace_view_at(&mut self, i: usize, b: Buffer)
        requires
            old(self).wf(),
            i < old(self).views@.len(),
            b.id == old(self).views@[i as int].id,
            old(self).has_doc(b.doc),
        ensures
            final(self).wf(),
            final(self).views@ == old(self).views@.update(i as int, b),
            final(self).docs == old(self).docs,
            final(self).focused == old(self).focused,
            final(self).next_view == old(self).next_view,
            final(self).next_doc == old(self).next_doc,
    {
        self.views.set(i, b);
        proof {
            let o = *old(self);
            assert forall|a: int, c: int| 0 <= a < c < self.views@.len() implies self.views@[a].id != self.views@[c].id by {
                assert(o.views@[a].id != o.views@[c].id);
            }
            assert forall|a: int| 0 <= a < self.views@.len() implies #[trigger] self.views@[a].id.0 < self.next_view by {
                assert(o.views@[a].id.0 < o.next_view);
            }
            assert forall|a: int| 0 <= a < self.views@.len() implies self.has_doc(#[trigger] self.views@[a].doc) by {
                if a != i {
                    assert(o.has_doc(o.views@[a].doc));
                }
            }
        }
    }
}

/// The document view `i` of `b` ends up on when navigating to `path`:
/// its own when it has that path; else the first view's that has it; else
/// a new one.
pub open spec fn goto_doc(b: BufferManager, i: int, path: Seq<char>) -> DocumentId {
    if b.view_has_path(i, path) {
        b.views@[i].doc
    } else if exists|j: int| 0 <= j < b.views@.len() && b.view_has_path(j, path) {
        b.views@[first_with_path(b, path)].doc
    } else {
        DocumentId(b.next_doc)
    }
}

/// Position of the first view whose document has `path`.
pub open spec fn first_with_path(b: BufferManager, path: Seq<char>) -> int {
    choose|j: int| 0 <= j < b.views@.len() && b.view_has_path(j, path) && forall|j2: int| 0 <= j2 < j ==> !b.view_has_path(j2, path)
}

/// A view has a path exactly when its document (by id) does.
proof fn lemma_view_path_doc(b: BufferManager, i: int, p: Seq<char>)
    requires
        b.wf(),
        0 <= i < b.views@.len(),
    ensures
        b.view_has_path(i, p) <==> (b.has_doc(b.views@[i].doc) && (b.doc_spec(b.views@[i].doc).path matches Some(q)
            && q@ == p)),
{
    let d = b.views@[i].doc;
    if b.has_doc(d) {
        let k = choose|k: int| 0 <= k < b.docs@.len() && b.docs@[k].id == d;
        b.lemma_doc_at(k);
    }
    if b.view_has_path(i, p) {
        let k = choose|k: int|
            0 <= k < b.docs@.len() && (#[trigger] b.docs@[k]).id == b.views@[i].doc && (b.docs@[k].path matches Some(
                q,
            ) && q@ == p);
        b.lemma_doc_at(k);
    }
}

/// Documents present in both managers with the same entry at some index
/// are named alike by `doc_spec`.
proof fn lemma_doc_spec_same(b0: BufferManager, b1: BufferManager, e: DocumentId, c0: int, c1: int)
    requires
        b0.wf(),
        b1.wf(),
        0 <= c0 < b0.docs@.len(),
        0 <= c1 < b1.docs@.len(),
        b0.docs@[c0].id == e,
        b1.docs@[c1] == b0.docs@[c0],
    ensures
        b1.has_doc(e),
        b1.doc_spec(e) == b0.doc_spec(e),
{
    b0.lemma_doc_at(c0);
    b1.lemma_doc_at(c1);
}

impl Editor {
    /// Drops document `doc` when no view shows it any more; returns whether
    /// it was dropped.
    pub fn finalize_document_if_orphaned(&mut self, doc: DocumentId) -> (removed: bool)
        requires
            old(self).core.buffers.wf(),
        ensures
            final(self).core.buffers.wf(),
            removed <==> !(exists|i: int| 0 <= i < old(self).core.buffers.views@.len() && old(self).core.buffers.views@[i].doc == doc),
            removed ==> !final(self).core.buffers.has_doc(doc),
            !removed ==> final(self).core.buffers == old(self).core.buffers,
            forall|e: DocumentId| e != doc ==> (final(self).core.buffers.has_doc(e) <==> old(self).core.buffers.has_doc(e)),
            forall|e: DocumentId|
                e != doc && old(self).core.buffers.has_doc(e) ==> final(self).core.buffers.doc_spec(e)
                    == old(self).core.buffers.doc_spec(e),
            final(self).core.buffers.views == old(self).core.buffers.views,
            final(self).core.buffers.focused == old(self).core.buffers.focused,
            final(self).core.buffers.next_view == old(self).core.buffers.next_view,
            final(self).core.buffers.next_doc == old(self).core.buffers.next_doc,
            final(self).core.undo_manager == old(self).core.undo_manager,
            final(self).core.workspace == old(self).core.workspace,
            final(self).windows == old(self).windows,
            final(self).focus == old(self).focus,
            final(self).focus_epoch == old(self).focus_epoch,
            final(self).frame == old(self).frame,
            final(self).prompt == old(self).prompt,
            final(self).loads == old(self).loads,
    {
        if self.core.buffers.any_buffer_for_doc(doc).is_some() {
            return false;
        }
        proof {
            let b = self.core.buffers;
            assert forall|m: int| 0 <= m < b.views@.len() implies #[trigger] b.views@[m].doc != doc by {
                if b.views@[m].doc == doc {
                    assert(exists|j: int| 0 <= j < b.views@.len() && b.views@[j].doc == doc);
                }
            }
        }
        self.core.buffers.remove_document(doc);
        true
    }

    /// Navigates the focused view to `location`: the view (its id unchanged)
    /// is rebound to the file's document unless it shows it already, taken
    /// from the first view showing it, else made from `loaded` (the file's
    /// text and whether it is read-only); a document no view shows any more
    /// is dropped. Then the cursor goes to the line and column (see
    /// `goto_line_col`). Without a view of the file and without `loaded`,
    /// nothing changes and the file has to be loaded first.
    #[verifier::rlimit(100)]
    pub fn goto_location(&mut self, location: &Location, loaded: Option<(Vec<char>, bool)>) -> (r: Result<ViewId, GotoError>)
        requires
            old(self).core.buffers.wf(),
            old(self).core.buffers.has_view(old(self).core.buffers.focused),
            old(self).core.buffers.next_doc < u64::MAX,
        ensures
            forall|i: int, k: int| #[trigger] focus_at(old(self).core.buffers, i, k) ==> {
                let b0 = old(self).core.buffers;
                let b1 = final(self).core.buffers;
                let p = location.path@;
                let already = b0.view_has_path(i, p);
                let elsewhere = exists|j: int| 0 <= j < b0.views@.len() && b0.view_has_path(j, p);
                let d = goto_doc(b0, i, p);
                &&& r is Err <==> !elsewhere && loaded is None
                &&& r is Err ==> *final(self) == *old(self)
                &&& r is Ok ==> {
                    &&& r == Ok::<ViewId, GotoError>(b0.focused)
                    &&& b1.wf()
                    &&& b1.focused == b0.focused
                    &&& b1.views@.len() == b0.views@.len()
                    &&& b1.views@[i].id == b0.focused
                    &&& b1.views@[i].doc == d
                    &&& b1.view_has_path(i, p)
                    &&& b1.views@[i].cursor == goto_target(b1.doc_spec(d).text@, location.line as nat, location.column as nat) as usize
                    &&& forall|m: int| 0 <= m < b0.views@.len() && m != i ==> #[trigger] b1.views@[m] == b0.views@[m]
                    &&& forall|e: DocumentId| e != b0.views@[i].doc && b0.has_doc(e) ==> b1.has_doc(e) && b1.doc_spec(e) == b0.doc_spec(e)
                    &&& !elsewhere ==> b1.doc_spec(d).text@ == loaded.unwrap().0@ && b1.doc_spec(d).readonly == loaded.unwrap().1
                        && !b1.doc_spec(d).modified
                    &&& !already && (forall|m: int| 0 <= m < b0.views@.len() && m != i ==> #[trigger] b0.views@[m].doc != b0.views@[i].doc)
                        ==> !b1.has_doc(b0.views@[i].doc)
                    &&& already ==> final(self).focus_epoch == old(self).focus_epoch
                    &&& !already ==> final(self).focus_epoch.0 == next_epoch(old(self).focus_epoch.0)
                    &&& final(self).frame.needs_redraw
                    &&& final(self).windows == old(self).windows
                    &&& final(self).focus == old(self).focus
                }
            },
    {
        let f = self.core.buffers.focused;
        let (i, k) = match self.core.buffers.locate(f) {
            Some(x) => x,
            None => {
                proof {
                    assert(false);
                }
                return Err(GotoError::NeedsLoad);
            },
        };
        let ghost b0 = self.core.buffers;
        proof {
            assert forall|i2: int, k2: int| #[trigger] focus_at(b0, i2, k2) implies i2 == i && k2 == k by {
                if i2 != i {
                    if i2 < i {
                        assert(b0.views@[i2].id != b0.views@[i as int].id);
                    } else {
                        assert(b0.views@[i as int].id != b0.views@[i2].id);
                    }
                }
            }
        }
        let already = match &self.core.buffers.docs[k].path {
            Some(q) => *q == location.path,
            None => false,
        };
        proof {
            if already {
                assert(b0.view_has_path(i as int, location.path@));
            } else {
                assert(!b0.view_has_path(i as int, location.path@));
            }
        }
        if !already {
            let old_doc = self.core.buffers.views[i].doc;
            let found = self.core.buffers.find_index_by_path(&location.path);
            proof {
                if let Some(si) = found {
                    let c = first_with_path(b0, location.path@);
                    assert(b0.view_has_path(si as int, location.path@));
                    assert(0 <= c < b0.views@.len() && b0.view_has_path(c, location.path@) && forall|j2: int|
                        0 <= j2 < c ==> !b0.view_has_path(j2, location.path@));
                    if c < si {
                    } else if si < c {
                    }
                    assert(c == si);
                    lemma_view_path_doc(b0, si as int, location.path@);
                    lemma_view_path_doc(b0, i as int, location.path@);
                }
            }
            let replacement = match found {
                Some(si) => {
                    proof {
                        assert(b0.has_doc(b0.views@[si as int].doc));
                    }
                    self.core.buffers.views[si].clone_for_split(f)
                },
                None => match loaded {
                    Some((text, readonly)) => {
                        let d = self.core.buffers.add_document(text, Some(location.path.clone()), readonly);
                        proof {
                            let b = self.core.buffers;
                            assert(b.docs@[b.docs@.len() - 1].id == d);
                            b.lemma_doc_at(b.docs@.len() - 1);
                            assert forall|e: DocumentId| e != old_doc && b0.has_doc(e) implies b.has_doc(e) && b.doc_spec(e)
                                == b0.doc_spec(e) by {
                                let c = choose|c: int| 0 <= c < b0.docs@.len() && b0.docs@[c].id == e;
                                assert(b.docs@[c] == b0.docs@[c]);
                                lemma_doc_spec_same(b0, b, e, c, c);
                            }
                            if b0.has_doc(d) {
                                let c = choose|c: int| 0 <= c < b0.docs@.len() && b0.docs@[c].id == d;
                                assert(b0.docs@[c].id.0 < b0.next_doc);
                            }
                        }
                        Buffer {
                            id: f,
                            doc: d,
                            cursor: 0,
                            selection: Selection::point(0),
                            scroll_line: 0,
                            scroll_segment: 0,
                            readonly_override: None,
                            mode: crate::buffer::InputMode::Normal,
                            last_search: None,
                        }
                    },
                    None => {
                        return Err(GotoError::NeedsLoad);
                    },
                },
            };
            let ghost pre_replace = self.core.buffers;
            self.core.buffers.replace_view_at(i, replacement);
            let ghost replaced = self.core.buffers;
            proof {
                assert(replaced.views@[i as int].id == f);
            }
            self.finalize_document_if_orphaned(old_doc);
            proof {
                let b = self.core.buffers;
                let p = location.path@;
                let d = goto_doc(b0, i as int, p);
                assert(b.views@[i as int].doc == d);
                assert(b.views@[i as int].id == f);
                assert forall|e: DocumentId| e != old_doc && b0.has_doc(e) implies b.has_doc(e) && b.doc_spec(e)
                    == b0.doc_spec(e) by {
                    if found is Some {
                        let c = choose|c: int| 0 <= c < b0.docs@.len() && b0.docs@[c].id == e;
                        assert(pre_replace.docs@[c] == b0.docs@[c]);
                        lemma_doc_spec_same(b0, pre_replace, e, c, c);
                    }
                    assert(replaced.has_doc(e) && replaced.doc_spec(e) == b0.doc_spec(e));
                }
                if found is Some {
                    assert(d != old_doc);
                } else {
                    assert(d != old_doc) by {
                        assert(b0.has_doc(old_doc));
                        let c = choose|c: int| 0 <= c < b0.docs@.len() && b0.docs@[c].id == old_doc;
                        assert(b0.docs@[c].id.0 < b0.next_doc);
                    }
                    assert(replaced.has_doc(d));
                }
                lemma_view_path_doc(b, i as int, p);
            }
            self.focus_epoch.increment();
            self.frame.needs_redraw = true;
        }
        let ghost mid = self.core.buffers;
        proof {
            assert(mid.views@[i as int].id == mid.focused);
            assert(mid.has_doc(mid.views@[i as int].doc));
        }
        self.goto_line_col(location.line, location.column);
        proof {
            let d = mid.views@[i as int].doc;
            let k2 = choose|k2: int| 0 <= k2 < mid.docs@.len() && mid.docs@[k2].id == d;
            mid.lemma_doc_at(k2);
            assert(moved_to(
                mid.views@[i as int],
                self.core.buffers.views@[i as int],
                goto_target(mid.docs@[k2].text@, location.line as nat, location.column as nat) as usize,
            ));
            lemma_view_path_doc(mid, i as int, location.path@);
            lemma_view_path_doc(self.core.buffers, i as int, location.path@);
        }
        self.frame.needs_redraw = true;
        Ok(f)
    }
}

} // verus!
