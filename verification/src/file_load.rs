//! Background file loads: token-gated application of loaded content.
//!
//! Each path being loaded has one pending token; a load result is applied
//! only while its token is still the pending one for its path, and it never
//! replaces the text of a buffer the user modified meanwhile.

use vstd::prelude::*;

use crate::buffer::{Buffer, BufferManager, Document};
use crate::editor::Editor;
use crate::ids::{DocumentId, ViewId};
use crate::selection::Range;
use crate::text::{goto_target, line_col_to_char};

verus! {

/// Path/token pairs, later pairs overriding earlier ones.
pub open spec fn entries_map(s: Seq<(String, u64)>) -> Map<Seq<char>, u64>
    decreases s.len(),
{
    if s.len() == 0 {
        Map::empty()
    } else {
        entries_map(s.drop_last()).insert(s.last().0@, s.last().1)
    }
}

/// Pending background loads by path, the next load token, and a goto
/// position to apply once a load lands.
#[derive(Debug)]
pub struct FileLoads {
    entries: Vec<(String, u64)>,
    next_token: u64,
    deferred_goto: Option<(usize, usize)>,
}

impl FileLoads {
    /// The pending token of each path being loaded.
    pub closed spec fn pending(&self) -> Map<Seq<char>, u64> {
        entries_map(self.entries@)
    }

    pub closed spec fn next_token_spec(&self) -> u64 {
        self.next_token
    }

    pub closed spec fn deferred_goto_spec(&self) -> Option<(usize, usize)> {
        self.deferred_goto
    }

    pub fn new() -> (f: Self)
        ensures
            f.pending() == Map::<Seq<char>, u64>::empty(),
            f.next_token_spec() == 0,
            f.deferred_goto_spec() is None,
    {
        FileLoads { entries: Vec::new(), next_token: 0, deferred_goto: None }
    }

    /// The pending token for `path`, if any.
    pub fn get(&self, path: &String) -> (r: Option<u64>)
        ensures
            r is None <==> !self.pending().contains_key(path@),
            r matches Some(t) ==> self.pending()[path@] == t,
    {
        let mut n: usize = self.entries.len();
        proof {
            assert(self.entries@.subrange(0, n as int) =~= self.entries@);
        }
        while n > 0
            invariant
                n <= self.entries@.len(),
                forall|m: int|
                    n <= m < self.entries@.len() ==> (#[trigger] self.entries@[m]).0@ != path@,
                entries_map(self.entries@).contains_key(path@) == entries_map(
                    self.entries@.subrange(0, n as int),
                ).contains_key(path@),
                entries_map(self.entries@.subrange(0, n as int)).contains_key(path@) ==> entries_map(
                    self.entries@,
                )[path@] == entries_map(self.entries@.subrange(0, n as int))[path@],
            decreases n,
        {
            let ghost sub = self.entries@.subrange(0, n as int);
            proof {
                assert(sub.drop_last() =~= self.entries@.subrange(0, n - 1));
            }
            if self.entries[n - 1].0 == *path {
                return Some(self.entries[n - 1].1);
            }
            n = n - 1;
        }
        None
    }

    /// Whether a load of `path` is pending.
    pub fn contains(&self, path: &String) -> (b: bool)
        ensures
            b == self.pending().contains_key(path@),
    {
        self.get(path).is_some()
    }

    /// Whether any load is pending.
    pub fn is_empty(&self) -> (b: bool)
        ensures
            b == (self.pending().dom() == Set::<Seq<char>>::empty()),
    {
        proof {
            lemma_entries_map_empty(self.entries@);
        }
        self.entries.len() == 0
    }

    /// Forgets the pending load of `path`.
    pub fn remove(&mut self, path: &String)
        ensures
            final(self).pending() == old(self).pending().remove(path@),
            final(self).next_token_spec() == old(self).next_token_spec(),
            final(self).deferred_goto_spec() == old(self).deferred_goto_spec(),
    {
        let mut out: Vec<(String, u64)> = Vec::new();
        let mut j: usize = 0;
        while j < self.entries.len()
            invariant
                j <= self.entries@.len(),
                self.entries == old(self).entries,
                entries_map(out@) == entries_map(self.entries@.subrange(0, j as int)).remove(path@),
            decreases self.entries@.len() - j,
        {
            let ghost pre = self.entries@.subrange(0, j as int);
            proof {
                assert(self.entries@.subrange(0, j + 1).drop_last() =~= pre);
            }
            if self.entries[j].0 != *path {
                let key = self.entries[j].0.clone();
                let ghost out0 = out@;
                out.push((key, self.entries[j].1));
                proof {
                    assert(out@.drop_last() =~= out0);
                    assert(entries_map(out@) == entries_map(out0).insert(self.entries@[j as int].0@, self.entries@[j as int].1));
                    assert(entries_map(out@) =~= entries_map(self.entries@.subrange(0, j + 1)).remove(
                        path@,
                    ));
                }
            } else {
                proof {
                    assert(entries_map(out@) =~= entries_map(self.entries@.subrange(0, j + 1)).remove(
                        path@,
                    ));
                }
            }
            j = j + 1;
        }
        proof {
            assert(self.entries@.subrange(0, j as int) =~= self.entries@);
        }
        self.entries = out;
    }

    /// Makes `token` the pending token of `path`.
    pub fn insert(&mut self, path: String, token: u64)
        ensures
            final(self).pending() == old(self).pending().insert(path@, token),
            final(self).next_token_spec() == old(self).next_token_spec(),
            final(self).deferred_goto_spec() == old(self).deferred_goto_spec(),
    {
        self.remove(&path);
        let ghost before = self.entries@;
        self.entries.push((path, token));
        proof {
            assert(self.entries@.drop_last() =~= before);
            assert(self.pending() =~= old(self).pending().insert(path@, token));
        }
    }

    /// Allocates the next load token and makes it the pending token of
    /// `path`.
    pub fn begin_load(&mut self, path: String) -> (token: u64)
        requires
            old(self).next_token_spec() < u64::MAX,
        ensures
            token == old(self).next_token_spec(),
            final(self).next_token_spec() == old(self).next_token_spec() + 1,
            final(self).pending() == old(self).pending().insert(path@, token),
            final(self).deferred_goto_spec() == old(self).deferred_goto_spec(),
    {
        let token = self.next_token;
        self.next_token = self.next_token + 1;
        self.insert(path, token);
        token
    }

    pub fn set_deferred_goto(&mut self, line: usize, column: usize)
        ensures
            final(self).deferred_goto_spec() == Some((line, column)),
            final(self).pending() == old(self).pending(),
            final(self).next_token_spec() == old(self).next_token_spec(),
    {
        self.deferred_goto = Some((line, column));
    }

    /// The deferred goto position, if any.
    pub fn deferred_goto(&self) -> (g: Option<(usize, usize)>)
        ensures
            g == self.deferred_goto_spec(),
    {
        self.deferred_goto
    }

    /// Takes the deferred goto position, leaving none.
    pub fn take_deferred_goto(&mut self) -> (g: Option<(usize, usize)>)
        ensures
            g == old(self).deferred_goto_spec(),
            final(self).deferred_goto_spec() is None,
            final(self).pending() == old(self).pending(),
            final(self).next_token_spec() == old(self).next_token_spec(),
    {
        let g = self.deferred_goto;
        self.deferred_goto = None;
        g
    }
}

/// A map built from no pairs is empty, and from some pairs is not.
pub proof fn lemma_entries_map_empty(s: Seq<(String, u64)>)
    ensures
        (entries_map(s).dom() == Set::<Seq<char>>::empty()) <==> s.len() == 0,
    decreases s.len(),
{
    if s.len() == 0 {
        assert(entries_map(s).dom() =~= Set::<Seq<char>>::empty());
    } else {
        assert(entries_map(s).dom().contains(s.last().0@));
    }
}

/// What became of a loaded file.
#[derive(Debug, Clone, Copy, PartialEq, Eq, Structural)]
pub enum LoadOutcome {
    /// The token is not the pending one for the path: ignored.
    Stale,
    /// No buffer shows the path.
    NoBuffer,
    /// The buffer was modified while loading; its text was kept.
    KeptUserEdits,
    /// The loaded text replaced the buffer's.
    Applied,
}

impl BufferManager {
    /// The document of view `i` has path `p`.
    pub open spec fn view_has_path(&self, i: int, p: Seq<char>) -> bool {
        exists|k: int|
            0 <= k < self.docs@.len() && (#[trigger] self.docs@[k]).id == self.views@[i].doc
                && (self.docs@[k].path matches Some(q) && q@ == p)
    }

    /// Position of the first view whose document has path `path`.
    pub fn find_index_by_path(&self, path: &String) -> (r: Option<usize>)
        requires
            self.wf(),
        ensures
            r is None <==> forall|i: int| 0 <= i < self.views@.len() ==> !self.view_has_path(i, path@),
            r matches Some(i) ==> i < self.views@.len() && self.view_has_path(i as int, path@) && forall|j: int|
                0 <= j < i ==> !self.view_has_path(j, path@),
    {
        let mut i: usize = 0;
        while i < self.views.len()
            invariant
                self.wf(),
                i <= self.views@.len(),
                forall|j: int| 0 <= j < i ==> !self.view_has_path(j, path@),
            decreases self.views@.len() - i,
        {
            proof {
                assert(self.has_doc(self.views@[i as int].doc));
            }
            let k = match self.doc_index_of(self.views[i].doc) {
                Some(k) => k,
                None => {
                    proof {
                        assert(false);
                    }
                    0
                },
            };
            let hit = match &self.docs[k].path {
                Some(q) => *q == *path,
                None => false,
            };
            proof {
                assert forall|k2: int|
                    0 <= k2 < self.docs@.len() && self.docs@[k2].id == self.views@[i as int].doc implies k2
                    == k by {
                    if k2 < k {
                        assert(self.docs@[k2].id != self.docs@[k as int].id);
                    } else if k < k2 {
                        assert(self.docs@[k as int].id != self.docs@[k2].id);
                    }
                }
            }
            if hit {
                proof {
                    assert(self.docs@[k as int].id == self.views@[i as int].doc);
                    assert(self.docs@[k as int].path matches Some(q) && q@ == path@);
                    assert(self.view_has_path(i as int, path@));
                }
                return Some(i);
            }
            i = i + 1;
        }
        None
    }

    /// The first view whose document has path `path`.
    pub fn find_by_path(&self, path: &String) -> (r: Option<ViewId>)
        requires
            self.wf(),
        ensures
            r is None <==> forall|i: int| 0 <= i < self.views@.len() ==> !self.view_has_path(i, path@),
            r matches Some(v) ==> exists|i: int|
                0 <= i < self.views@.len() && self.views@[i].id == v && self.view_has_path(i, path@) && forall|j: int|
                    0 <= j < i ==> !self.view_has_path(j, path@),
    {
        match self.find_index_by_path(path) {
            Some(i) => Some(self.views[i].id),
            None => None,
        }
    }
}

impl Editor {
    /// Moves the focused view's cursor and selection to `line`/`column`
    /// (zero-based), clamped to the last line and to the line's content.
    pub fn goto_line_col(&mut self, line: usize, column: usize)
        requires
            old(self).core.buffers.wf(),
            old(self).core.buffers.has_view(old(self).core.buffers.focused),
        ensures
            final(self).core.buffers.wf(),
            final(self).core.buffers.docs == old(self).core.buffers.docs,
            final(self).core.buffers.focused == old(self).core.buffers.focused,
            final(self).core.buffers.next_view == old(self).core.buffers.next_view,
            final(self).core.buffers.next_doc == old(self).core.buffers.next_doc,
            final(self).core.buffers.views@.len() == old(self).core.buffers.views@.len(),
            forall|i: int|
                0 <= i < old(self).core.buffers.views@.len() && old(self).core.buffers.views@[i].id
                    != old(self).core.buffers.focused ==> #[trigger] final(self).core.buffers.views@[i]
                    == old(self).core.buffers.views@[i],
            forall|i: int, k: int|
                0 <= i < old(self).core.buffers.views@.len() && 0 <= k < old(self).core.buffers.docs@.len()
                    && #[trigger] old(self).core.buffers.views@[i].id == old(self).core.buffers.focused
                    && #[trigger] old(self).core.buffers.docs@[k].id == old(self).core.buffers.views@[i].doc
                    ==> moved_to(
                    old(self).core.buffers.views@[i],
                    final(self).core.buffers.views@[i],
                    goto_target(old(self).core.buffers.docs@[k].text@, line as nat, column as nat) as usize,
                ),
            final(self).core.undo_manager == old(self).core.undo_manager,
            final(self).core.workspace == old(self).core.workspace,
            final(self).loads == old(self).loads,
            final(self).windows == old(self).windows,
            final(self).focus == old(self).focus,
            final(self).focus_epoch == old(self).focus_epoch,
            final(self).frame == old(self).frame,
    {
        let f = self.core.buffers.focused;
        let i = match self.core.buffers.index_of(f) {
            Some(i) => i,
            None => {
                proof {
                    assert(false);
                }
                return ;
            },
        };
        proof {
            assert(self.core.buffers.has_doc(self.core.buffers.views@[i as int].doc));
        }
        let k = match self.core.buffers.doc_index_of(self.core.buffers.views[i].doc) {
            Some(k) => k,
            None => {
                proof {
                    assert(false);
                }
                return ;
            },
        };
        let pos = line_col_to_char(&self.core.buffers.docs[k].text, line, column);
        proof {
            let b = self.core.buffers;
            assert forall|k2: int|
                0 <= k2 < b.docs@.len() && b.docs@[k2].id == b.views@[i as int].doc implies k2 == k by {
                if k2 < k {
                    assert(b.docs@[k2].id != b.docs@[k as int].id);
                } else if k < k2 {
                    assert(b.docs@[k as int].id != b.docs@[k2].id);
                }
            }
            assert forall|i2: int|
                0 <= i2 < b.views@.len() && b.views@[i2].id == f implies i2 == i by {
                if i2 < i {
                    assert(b.views@[i2].id != b.views@[i as int].id);
                } else if i < i2 {
                    assert(b.views@[i as int].id != b.views@[i2].id);
                }
            }
        }
        self.core.buffers.views[i].set_cursor_and_selection(pos);
        proof {
            let o = old(self).core.buffers;
            let b = self.core.buffers;
            assert forall|a: int, c: int| 0 <= a < c < b.views@.len() implies b.views@[a].id
                != b.views@[c].id by {
                assert(o.views@[a].id != o.views@[c].id);
            }
            assert forall|a: int| 0 <= a < b.views@.len() implies #[trigger] b.views@[a].id.0
                < b.next_view by {
                assert(o.views@[a].id.0 < o.next_view);
            }
            assert forall|a: int| 0 <= a < b.views@.len() implies b.has_doc(#[trigger] b.views@[a].doc) by {
                assert(o.has_doc(o.views@[a].doc));
            }
        }
    }
}

/// `b1` is `b0` with its cursor at `pos` and a point selection there.
pub open spec fn moved_to(b0: Buffer, b1: Buffer, pos: usize) -> bool {
    &&& b1.id == b0.id
    &&& b1.doc == b0.doc
    &&& b1.cursor == pos
    &&& b1.selection.wf()
    &&& b1.selection.ranges@ == seq![Range { anchor: pos, head: pos }]
    &&& b1.scroll_line == b0.scroll_line
    &&& b1.scroll_segment == b0.scroll_segment
}

impl BufferManager {
    /// Marks document `doc` (if it exists) read-only, as for a file that
    /// cannot be written.
    pub fn set_doc_readonly(&mut self, doc: DocumentId)
        requires
            old(self).wf(),
        ensures
            final(self).wf(),
            final(self).views == old(self).views,
            final(self).focused == old(self).focused,
            final(self).next_view == old(self).next_view,
            final(self).next_doc == old(self).next_doc,
            final(self).docs@.len() == old(self).docs@.len(),
            forall|k: int|
                0 <= k < old(self).docs@.len() && (#[trigger] old(self).docs@[k]).id == doc ==> final(self).docs@[k]
                    == (Document { readonly: true, ..old(self).docs@[k] }),
            forall|k: int|
                0 <= k < old(self).docs@.len() && (#[trigger] old(self).docs@[k]).id != doc ==> final(self).docs@[k]
                    == old(self).docs@[k],
    {
        match self.doc_index_of(doc) {
            None => {},
            Some(k) => {
                self.docs[k].readonly = true;
                proof {
                    let o = *old(self);
                    assert forall|m: int| 0 <= m < o.docs@.len() && o.docs@[m].id == doc implies m == k by {
                        if m < k {
                            assert(o.docs@[m].id != o.docs@[k as int].id);
                        } else if k < m {
                            assert(o.docs@[k as int].id != o.docs@[m].id);
                        }
                    }
                    assert forall|a: int, b: int| 0 <= a < b < self.docs@.len() implies self.docs@[a].id
                        != self.docs@[b].id by {
                        assert(o.docs@[a].id != o.docs@[b].id);
                    }
                    assert forall|a: int| 0 <= a < self.docs@.len() implies #[trigger] self.docs@[a].id.0
                        < self.next_doc by {
                        assert(o.docs@[a].id.0 < o.next_doc);
                    }
                    assert forall|a: int| 0 <= a < self.views@.len() implies self.has_doc(
                        #[trigger] self.views@[a].doc,
                    ) by {
                        assert(o.has_doc(o.views@[a].doc));
                        let j = choose|j: int| 0 <= j < o.docs@.len() && o.docs@[j].id == o.views@[a].doc;
                        assert(self.docs@[j].id == self.views@[a].doc);
                    }
                }
            },
        }
    }
}

impl BufferManager {
    /// Puts loaded text into the document at position `k`: read-only when
    /// the file is (it stays so if it already was) and unmodified.
    pub fn load_into_doc(&mut self, k: usize, text: Vec<char>, readonly: bool)
        requires
            k < old(self).docs@.len(),
        ensures
            doc_loaded(*old(self), *final(self), k as int, text@, readonly),
            final(self).views == old(self).views,
            final(self).focused == old(self).focused,
            final(self).next_view == old(self).next_view,
            final(self).next_doc == old(self).next_doc,
            old(self).wf() ==> final(self).wf(),
    {
        self.docs[k].text = text;
        if readonly {
            self.docs[k].readonly = true;
        }
        self.docs[k].modified = false;
        proof {
            if old(self).wf() {
                assert forall|a: int, b: int| 0 <= a < b < self.docs@.len() implies self.docs@[a].id
                    != self.docs@[b].id by {
                    assert(old(self).docs@[a].id != old(self).docs@[b].id);
                }
                assert forall|a: int| 0 <= a < self.docs@.len() implies #[trigger] self.docs@[a].id.0
                    < self.next_doc by {
                    assert(old(self).docs@[a].id.0 < old(self).next_doc);
                }
                assert forall|a: int| 0 <= a < self.views@.len() implies self.has_doc(
                    #[trigger] self.views@[a].doc,
                ) by {
                    assert(old(self).has_doc(old(self).views@[a].doc));
                    let j = choose|j: int|
                        0 <= j < old(self).docs@.len() && old(self).docs@[j].id == old(self).views@[a].doc;
                    assert(self.docs@[j].id == self.views@[a].doc);
                }
            }
        }
    }

    /// Moves the cursor of the view at position `i` to the start with a
    /// point selection there.
    pub fn reset_view_cursor(&mut self, i: usize)
        requires
            i < old(self).views@.len(),
        ensures
            final(self).views@.len() == old(self).views@.len(),
            moved_to(old(self).views@[i as int], final(self).views@[i as int], 0),
            forall|m: int|
                0 <= m < old(self).views@.len() && m != i ==> #[trigger] final(self).views@[m]
                    == old(self).views@[m],
            final(self).docs == old(self).docs,
            final(self).focused == old(self).focused,
            final(self).next_view == old(self).next_view,
            final(self).next_doc == old(self).next_doc,
            old(self).wf() ==> final(self).wf(),
    {
        self.views[i].set_cursor_and_selection(0);
        proof {
            if old(self).wf() {
                let o = *old(self);
                assert forall|a: int, c: int| 0 <= a < c < self.views@.len() implies self.views@[a].id
                    != self.views@[c].id by {
                    assert(o.views@[a].id != o.views@[c].id);
                }
                assert forall|a: int| 0 <= a < self.views@.len() implies #[trigger] self.views@[a].id.0
                    < self.next_view by {
                    assert(o.views@[a].id.0 < o.next_view);
                }
                assert forall|a: int| 0 <= a < self.views@.len() implies self.has_doc(
                    #[trigger] self.views@[a].doc,
                ) by {
                    assert(o.has_doc(o.views@[a].doc));
                }
            }
        }
    }
}

/// The documents of `b1` are those of `b0` but for position `k`, which holds
/// the loaded `text`, is unmodified, and is read-only when the file is or
/// the document already was.
pub open spec fn doc_loaded(b0: BufferManager, b1: BufferManager, k: int, text: Seq<char>, readonly: bool) -> bool {
    &&& b1.docs@.len() == b0.docs@.len()
    &&& forall|m: int| 0 <= m < b0.docs@.len() && m != k ==> #[trigger] b1.docs@[m] == b0.docs@[m]
    &&& b1.docs@[k].id == b0.docs@[k].id
    &&& b1.docs@[k].text@ == text
    &&& b1.docs@[k].path == b0.docs@[k].path
    &&& b1.docs@[k].readonly == (readonly || b0.docs@[k].readonly)
    &&& !b1.docs@[k].modified
}

/// A load for `path` with `token` is the pending one.
pub open spec fn load_is_current(loads: FileLoads, path: Seq<char>, token: u64) -> bool {
    loads.pending().contains_key(path) && loads.pending()[path] == token
}

/// The views after a load landed in view `i`: view `i` moves to the start;
/// then, when a goto was deferred, the focused view moves to that line and
/// column of its (new) text; other views stay.
pub open spec fn views_after_load(
    b0: BufferManager,
    b1: BufferManager,
    i: int,
    goto: Option<(usize, usize)>,
) -> bool {
    &&& b1.views@.len() == b0.views@.len()
    &&& forall|m: int|
        0 <= m < b0.views@.len() && m != i && !(goto is Some && b0.views@[m].id == b0.focused)
            ==> #[trigger] b1.views@[m] == b0.views@[m]
    &&& !(goto is Some && b0.views@[i].id == b0.focused) ==> moved_to(b0.views@[i], b1.views@[i], 0)
    &&& forall|m: int, k: int|
        0 <= m < b0.views@.len() && 0 <= k < b1.docs@.len() && goto is Some && b0.views@[m].id == b0.focused
            && #[trigger] b1.docs@[k].id == #[trigger] b0.views@[m].doc ==> moved_to(
            b0.views@[m],
            b1.views@[m],
            goto_target(b1.docs@[k].text@, goto.unwrap().0 as nat, goto.unwrap().1 as nat) as usize,
        )
}

/// The result of a current load landing in view `i` whose document sits at
/// position `k`.
pub open spec fn load_post_at(
    e0: Editor,
    e1: Editor,
    i: int,
    k: int,
    text: Seq<char>,
    readonly: bool,
    r: LoadOutcome,
) -> bool {
    &&& (r == LoadOutcome::KeptUserEdits) == e0.core.buffers.docs@[k].modified
    &&& r == LoadOutcome::KeptUserEdits ==> e1.core.buffers == e0.core.buffers
        && e1.loads.deferred_goto_spec() == e0.loads.deferred_goto_spec()
    &&& r == LoadOutcome::Applied ==> {
        &&& doc_loaded(e0.core.buffers, e1.core.buffers, k, text, readonly)
        &&& views_after_load(e0.core.buffers, e1.core.buffers, i, e0.loads.deferred_goto_spec())
        &&& e1.loads.deferred_goto_spec() is None
    }
}

impl Editor {
    /// Applies a loaded file: ignored unless `token` is the pending token
    /// for `path`; otherwise the pending load is cleared, and the text
    /// replaces that of the first buffer showing `path` unless that buffer
    /// was modified meanwhile. A deferred goto is applied after the text.
    pub fn apply_loaded_file(&mut self, path: &String, text: Vec<char>, readonly: bool, token: u64) -> (r:
        LoadOutcome)
        requires
            old(self).core.buffers.wf(),
            old(self).loads.deferred_goto_spec() is Some ==> old(self).core.buffers.has_view(
                old(self).core.buffers.focused,
            ),
        ensures
            final(self).core.buffers.wf(),
            final(self).core.buffers.focused == old(self).core.buffers.focused,
            final(self).core.buffers.next_view == old(self).core.buffers.next_view,
            final(self).core.buffers.next_doc == old(self).core.buffers.next_doc,
            final(self).core.undo_manager == old(self).core.undo_manager,
            final(self).core.workspace == old(self).core.workspace,
            final(self).windows == old(self).windows,
            final(self).focus == old(self).focus,
            final(self).loads.next_token_spec() == old(self).loads.next_token_spec(),
            (r == LoadOutcome::Stale) == !load_is_current(old(self).loads, path@, token),
            r == LoadOutcome::Stale ==> final(self).core.buffers == old(self).core.buffers && final(self).loads == old(self).loads,
            r != LoadOutcome::Stale ==> final(self).loads.pending() == old(self).loads.pending().remove(path@),
            r != LoadOutcome::Stale ==> ((r == LoadOutcome::NoBuffer) <==> forall|i: int|
                0 <= i < old(self).core.buffers.views@.len() ==> !old(self).core.buffers.view_has_path(
                    i,
                    path@,
                )),
            r == LoadOutcome::NoBuffer ==> final(self).core.buffers == old(self).core.buffers && final(self).loads.deferred_goto_spec() == old(self).loads.deferred_goto_spec(),
            forall|i: int, k: int|
                r != LoadOutcome::Stale && 0 <= i < old(self).core.buffers.views@.len() && 0 <= k
                    < old(self).core.buffers.docs@.len() && old(self).core.buffers.view_has_path(i, path@)
                    && (forall|j: int| 0 <= j < i ==> !old(self).core.buffers.view_has_path(j, path@))
                    && #[trigger] old(self).core.buffers.docs@[k].id == #[trigger] old(self).core.buffers.views@[i].doc ==> load_post_at(*old(self), *final(self), i, k, text@, readonly, r),
    {
        let current = match self.loads.get(path) {
            Some(t) => t == token,
            None => false,
        };
        if !current {
            return LoadOutcome::Stale;
        }
        self.loads.remove(path);
        let i = match self.core.buffers.find_index_by_path(path) {
            None => {
                return LoadOutcome::NoBuffer;
            },
            Some(i) => i,
        };
        proof {
            assert(self.core.buffers.has_doc(self.core.buffers.views@[i as int].doc));
        }
        let k = match self.core.buffers.doc_index_of(self.core.buffers.views[i].doc) {
            Some(k) => k,
            None => {
                proof {
                    assert(false);
                }
                return LoadOutcome::NoBuffer;
            },
        };
        proof {
            let b = self.core.buffers;
            assert forall|k2: int|
                0 <= k2 < b.docs@.len() && b.docs@[k2].id == b.views@[i as int].doc implies k2 == k by {
                if k2 < k {
                    assert(b.docs@[k2].id != b.docs@[k as int].id);
                } else if k < k2 {
                    assert(b.docs@[k as int].id != b.docs@[k2].id);
                }
            }
            assert forall|i2: int|
                0 <= i2 < b.views@.len() && b.view_has_path(i2, path@) && (forall|j: int|
                    0 <= j < i2 ==> !b.view_has_path(j, path@)) implies i2 == i by {
                if i2 < i {
                } else if i < i2 {
                    assert(!b.view_has_path(i as int, path@));
                }
            }
        }
        if self.core.buffers.docs[k].modified {
            return LoadOutcome::KeptUserEdits;
        }
        self.core.buffers.load_into_doc(k, text, readonly);
        self.core.buffers.reset_view_cursor(i);
        match self.loads.take_deferred_goto() {
            Some(g) => {
                let (line, column) = g;
                proof {
                    let o = old(self).core.buffers;
                    let j = choose|j: int| 0 <= j < o.views@.len() && o.views@[j].id == o.focused;
                    assert(self.core.buffers.views@[j].id == o.focused);
                }
                self.goto_line_col(line, column);
            },
            None => {},
        }
        LoadOutcome::Applied
    }

    /// Clears the pending load of `path` when `token` is its pending token
    /// (a failed load); returns whether it did.
    pub fn notify_load_error(&mut self, path: &String, token: u64) -> (cleared: bool)
        ensures
            cleared == load_is_current(old(self).loads, path@, token),
            cleared ==> final(self).loads.pending() == old(self).loads.pending().remove(path@),
            !cleared ==> final(self).loads.pending() == old(self).loads.pending(),
            final(self).loads.next_token_spec() == old(self).loads.next_token_spec(),
            final(self).loads.deferred_goto_spec() == old(self).loads.deferred_goto_spec(),
            final(self).core == old(self).core,
            final(self).windows == old(self).windows,
            final(self).focus == old(self).focus,
    {
        let current = match self.loads.get(path) {
            Some(t) => t == token,
            None => false,
        };
        if current {
            self.loads.remove(path);
        }
        current
    }

    /// Whether `path` has a pending background load.
    pub fn is_loading_file(&self, path: &String) -> (b: bool)
        ensures
            b == self.loads.pending().contains_key(path@),
    {
        self.loads.contains(path)
    }

    /// Whether any file is being loaded in the background.
    pub fn has_pending_file_loads(&self) -> (b: bool)
        ensures
            b == (self.loads.pending().dom() != Set::<Seq<char>>::empty()),
    {
        !self.loads.is_empty()
    }

    /// Sets a position to go to once the file finishes loading.
    pub fn set_deferred_goto(&mut self, line: usize, column: usize)
        ensures
            final(self).loads.deferred_goto_spec() == Some((line, column)),
            final(self).loads.pending() == old(self).loads.pending(),
            final(self).core == old(self).core,
    {
        self.loads.set_deferred_goto(line, column);
    }

    /// An editor for `path` whose text is still to be loaded: an empty
    /// buffer for the path, and the first load token pending for it.
    pub fn new_with_path(path: String) -> (e: Self)
        ensures
            e.wf(),
            e.core.buffers.docs@[0].text@.len() == 0,
            e.core.buffers.docs@[0].path == Some(path),
            e.loads.pending() == Map::<Seq<char>, u64>::empty().insert(path@, 0),
            e.loads.next_token_spec() == 1,
    {
        let key = path.clone();
        let mut e = Editor::from_content(Vec::new(), Some(path));
        let _token = e.loads.begin_load(key);
        e
    }
}

} // verus!
