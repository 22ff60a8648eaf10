//! Search commands on the focused view: next/previous match, and selecting,
//! splitting or filtering the selection by a pattern.

use vstd::prelude::*;

use crate::buffer::{buffer_state, state_valid, BufferManager};
use crate::editor::Editor;
use crate::ids::ViewId;
use crate::search::{
    all_matches, find_all, find_next, find_next_spec, find_prev, last_match_before, regex_compiles, regex_error_message,
    regex_escape, regex_escape_spec, regex_is_match, text_matches, utf8_len, SearchRegex,
};
use crate::chars::string_from_chars;
use crate::search_preview::{last_search_set, utf8_len_checked, view_set};
use crate::selection::{
    apply_search_hit, hit_primary, hit_ranges, keep_matching_ranges, keep_matching_spec, rmax, rmin,
    split_ranges, split_ranges_spec, Range, Selection,
};
use crate::text::slice_of;

verus! {

/// What a search for the next or previous match did.
#[derive(Debug)]
pub enum SearchOutcome {
    /// The cursor moved to the match.
    Moved,
    NotFound,
    /// There is no search pattern.
    NoPattern,
    RegexError(String),
}

/// What selecting, splitting or filtering by a pattern did.
#[derive(Debug)]
pub enum SelectOutcome {
    /// The selection was replaced by this many ranges.
    Applied(usize),
    /// The primary range is empty.
    NoSelection,
    NoMatches,
    /// Nothing would be left selected.
    NothingLeft,
    RegexError(String),
}

impl BufferManager {
    /// Positions of view `id` and of its document.
    pub fn locate(&self, id: ViewId) -> (r: Option<(usize, usize)>)
        requires
            self.wf(),
        ensures
            r is None <==> !self.has_view(id),
            r matches Some(p) ==> p.0 < self.views@.len() && self.views@[p.0 as int].id == id && p.1
                < self.docs@.len() && self.docs@[p.1 as int].id == self.views@[p.0 as int].doc
                && self.view(id) == self.views@[p.0 as int] && (forall|k: int|
                0 <= k < self.docs@.len() && self.docs@[k].id == self.views@[p.0 as int].doc ==> k
                == p.1),
    {
        match self.index_of(id) {
            None => None,
            Some(i) => {
                proof {
                    self.lemma_view_at(i as int);
                    assert(self.has_doc(self.views@[i as int].doc));
                }
                match self.doc_index_of(self.views[i].doc) {
                    None => {
                        proof {
                            assert(false);
                        }
                        None
                    },
                    Some(k) => {
                        proof {
                            assert forall|k2: int|
                                0 <= k2 < self.docs@.len() && self.docs@[k2].id == self.views@[i as int].doc implies k2
                                == k by {
                                if k2 < k {
                                    assert(self.docs@[k2].id != self.docs@[k as int].id);
                                } else if k < k2 {
                                    assert(self.docs@[k as int].id != self.docs@[k2].id);
                                }
                            }
                        }
                        Some((i, k))
                    },
                }
            },
        }
    }
}

/// The focused view sits at position `i` and its document at `k`.
pub open spec fn focus_at(b: BufferManager, i: int, k: int) -> bool {
    &&& 0 <= i < b.views@.len()
    &&& 0 <= k < b.docs@.len()
    &&& b.views@[i].id == b.focused
    &&& b.docs@[k].id == b.views@[i].doc
}

/// The effect of a next/previous search that found `found` from the focused
/// view at position `i`.
pub open spec fn search_effect(
    b0: BufferManager,
    b1: BufferManager,
    i: int,
    found: Option<(int, int)>,
    add_selection: bool,
    extend: bool,
    r: SearchOutcome,
) -> bool {
    match found {
        None => r is NotFound && b1 == b0,
        Some(m) => {
            let hit = Range { anchor: m.0 as usize, head: m.1 as usize };
            let sel = b0.views@[i].selection;
            &&& r is Moved
            &&& view_set(
                b0,
                b1,
                b0.focused,
                rmin(hit),
                hit_ranges(sel, hit, add_selection, extend),
                hit_primary(sel, add_selection),
            )
        },
    }
}

/// The pattern of the focused view's last search (none when the view is
/// gone or has not searched).
pub open spec fn focused_last_search(b: BufferManager) -> Option<Seq<char>> {
    if b.has_view(b.focused) {
        match b.view(b.focused).last_search {
            Some(ls) => Some(ls.0@),
            None => None,
        }
    } else {
        None
    }
}

/// `b1` is `b0` after searching forward with `pattern` (none when there is no
/// search pattern), with outcome `r`.
pub open spec fn search_next_post(b0: BufferManager, b1: BufferManager, pattern: Option<Seq<char>>, add_selection: bool, extend: bool, r: SearchOutcome) -> bool {
    &&& pattern is None ==> r is NoPattern && b1 == b0
    &&& (pattern is Some && !regex_compiles(pattern->0)) ==> (r matches SearchOutcome::RegexError(m) && m@
        == regex_error_message(pattern->0)) && b1 == b0
    &&& forall|i: int, k: int|
        pattern is Some && regex_compiles(pattern->0) && #[trigger] focus_at(b0, i, k)
            && utf8_len(b0.docs@[k].text@) <= usize::MAX ==> search_effect(
            b0,
            b1,
            i,
            find_next_spec(
                pattern->0,
                b0.docs@[k].text@,
                if b0.views@[i].cursor < usize::MAX {
                    b0.views@[i].cursor + 1
                } else {
                    usize::MAX as int
                },
            ),
            add_selection,
            extend,
            r,
        )
}

/// `b1` is `b0` after searching backward with `pattern` (none when there is no
/// search pattern), with outcome `r`.
pub open spec fn search_prev_post(b0: BufferManager, b1: BufferManager, pattern: Option<Seq<char>>, add_selection: bool, extend: bool, r: SearchOutcome) -> bool {
    &&& pattern is None ==> r is NoPattern && b1 == b0
    &&& (pattern is Some && !regex_compiles(pattern->0)) ==> (r matches SearchOutcome::RegexError(m) && m@
        == regex_error_message(pattern->0)) && b1 == b0
    &&& forall|i: int, k: int|
        pattern is Some && regex_compiles(pattern->0) && #[trigger] focus_at(b0, i, k)
            && utf8_len(b0.docs@[k].text@) <= usize::MAX ==> search_effect(
            b0,
            b1,
            i,
            last_match_before(
                pattern->0,
                b0.docs@[k].text@,
                0,
                if b0.views@[i].cursor > 0 {
                    b0.views@[i].cursor - 1
                } else {
                    0
                },
                None,
            ),
            add_selection,
            extend,
            r,
        )
}

impl Editor {
    /// Searches forward from just after the cursor of the focused view.
    pub fn search_next(&mut self, pattern: Option<&String>, add_selection: bool, extend: bool) -> (r: SearchOutcome)
        requires
            old(self).core.buffers.wf(),
            old(self).core.buffers.selections_wf(),
            old(self).core.buffers.has_view(old(self).core.buffers.focused),
        ensures
            final(self).core.buffers.wf(),
            final(self).core.undo_manager == old(self).core.undo_manager,
            final(self).windows == old(self).windows,
            final(self).focus == old(self).focus,
            search_next_post(
                old(self).core.buffers,
                final(self).core.buffers,
                match pattern {
                    Some(p) => Some(p@),
                    None => None,
                },
                add_selection,
                extend,
                r,
            ),
    {
        let p = match pattern {
            None => {
                return SearchOutcome::NoPattern;
            },
            Some(p) => p,
        };
        let (i, k) = match self.core.buffers.locate(self.core.buffers.focused) {
            Some(x) => x,
            None => {
                proof {
                    assert(false);
                }
                return SearchOutcome::NotFound;
            },
        };
        let sr = match SearchRegex::compile(p) {
            Ok(sr) => sr,
            Err(msg) => {
                return SearchOutcome::RegexError(msg);
            },
        };
        let cursor = self.core.buffers.views[i].cursor;
        let from = if cursor < usize::MAX { cursor + 1 } else { usize::MAX };
        self.finish_search(i, k, &sr, from, false, add_selection, extend)
    }

    /// Searches backward from just before the cursor of the focused view.
    pub fn search_prev(&mut self, pattern: Option<&String>, add_selection: bool, extend: bool) -> (r: SearchOutcome)
        requires
            old(self).core.buffers.wf(),
            old(self).core.buffers.selections_wf(),
            old(self).core.buffers.has_view(old(self).core.buffers.focused),
        ensures
            final(self).core.buffers.wf(),
            final(self).core.undo_manager == old(self).core.undo_manager,
            final(self).windows == old(self).windows,
            final(self).focus == old(self).focus,
            search_prev_post(
                old(self).core.buffers,
                final(self).core.buffers,
                match pattern {
                    Some(p) => Some(p@),
                    None => None,
                },
                add_selection,
                extend,
                r,
            ),
    {
        let p = match pattern {
            None => {
                return SearchOutcome::NoPattern;
            },
            Some(p) => p,
        };
        let (i, k) = match self.core.buffers.locate(self.core.buffers.focused) {
            Some(x) => x,
            None => {
                proof {
                    assert(false);
                }
                return SearchOutcome::NotFound;
            },
        };
        let sr = match SearchRegex::compile(p) {
            Ok(sr) => sr,
            Err(msg) => {
                return SearchOutcome::RegexError(msg);
            },
        };
        let cursor = self.core.buffers.views[i].cursor;
        let from = if cursor > 0 { cursor - 1 } else { 0 };
        self.finish_search(i, k, &sr, from, true, add_selection, extend)
    }

    /// The pattern of the focused view's last search, if any.
    fn focused_last_pattern(&self) -> (p: Option<String>)
        requires
            self.core.buffers.wf(),
        ensures
            p matches Some(s) ==> focused_last_search(self.core.buffers) == Some(s@),
            p is None ==> focused_last_search(self.core.buffers) is None,
    {
        match self.core.buffers.get_buffer(self.core.buffers.focused) {
            None => None,
            Some(b) => match &b.last_search {
                Some((pat, _)) => Some(pat.clone()),
                None => None,
            },
        }
    }

    /// Repeats the focused view's last search forwards, from just after its
    /// cursor (see `search_next`); no pattern when it has not searched.
    pub fn do_search_next(&mut self, add_selection: bool, extend: bool) -> (r: SearchOutcome)
        requires
            old(self).core.buffers.wf(),
            old(self).core.buffers.selections_wf(),
            old(self).core.buffers.has_view(old(self).core.buffers.focused),
        ensures
            final(self).core.buffers.wf(),
            final(self).core.undo_manager == old(self).core.undo_manager,
            final(self).windows == old(self).windows,
            final(self).focus == old(self).focus,
            search_next_post(
                old(self).core.buffers,
                final(self).core.buffers,
                focused_last_search(old(self).core.buffers),
                add_selection,
                extend,
                r,
            ),
    {
        let p = self.focused_last_pattern();
        match &p {
            Some(pat) => self.search_next(Some(pat), add_selection, extend),
            None => self.search_next(None, add_selection, extend),
        }
    }

    /// Repeats the focused view's last search backwards, from just before
    /// its cursor (see `search_prev`); no pattern when it has not searched.
    pub fn do_search_prev(&mut self, add_selection: bool, extend: bool) -> (r: SearchOutcome)
        requires
            old(self).core.buffers.wf(),
            old(self).core.buffers.selections_wf(),
            old(self).core.buffers.has_view(old(self).core.buffers.focused),
        ensures
            final(self).core.buffers.wf(),
            final(self).core.undo_manager == old(self).core.undo_manager,
            final(self).windows == old(self).windows,
            final(self).focus == old(self).focus,
            search_prev_post(
                old(self).core.buffers,
                final(self).core.buffers,
                focused_last_search(old(self).core.buffers),
                add_selection,
                extend,
                r,
            ),
    {
        let p = self.focused_last_pattern();
        match &p {
            Some(pat) => self.search_prev(Some(pat), add_selection, extend),
            None => self.search_prev(None, add_selection, extend),
        }
    }

    /// Finds the match from `from` in the focused view's text (forward or
    /// backward) and moves there.
    fn finish_search(
        &mut self,
        i: usize,
        k: usize,
        sr: &SearchRegex,
        from: usize,
        backward: bool,
        add_selection: bool,
        extend: bool,
    ) -> (r: SearchOutcome)
        requires
            old(self).core.buffers.wf(),
            old(self).core.buffers.selections_wf(),
            focus_at(old(self).core.buffers, i as int, k as int),
        ensures
            final(self).core.buffers.wf(),
            final(self).core.undo_manager == old(self).core.undo_manager,
            final(self).windows == old(self).windows,
            final(self).focus == old(self).focus,
            utf8_len(old(self).core.buffers.docs@[k as int].text@) <= usize::MAX ==> search_effect(
                old(self).core.buffers,
                final(self).core.buffers,
                i as int,
                if backward {
                    last_match_before(sr.pattern_spec(), old(self).core.buffers.docs@[k as int].text@, 0, from as int, None)
                } else {
                    find_next_spec(sr.pattern_spec(), old(self).core.buffers.docs@[k as int].text@, from as int)
                },
                add_selection,
                extend,
                r,
            ),
    {
        if utf8_len_checked(&self.core.buffers.docs[k].text).is_none() {
            return SearchOutcome::NotFound;
        }
        let found = if backward {
            find_prev(&self.core.buffers.docs[k].text, sr, from)
        } else {
            find_next(&self.core.buffers.docs[k].text, sr, from)
        };
        match found {
            None => SearchOutcome::NotFound,
            Some(m) => {
                let hit = Range { anchor: m.0, head: m.1 };
                proof {
                    assert(self.core.buffers.views@[i as int].selection.wf());
                }
                let (c, sel) = apply_search_hit(&self.core.buffers.views[i].selection, hit, add_selection, extend);
                let f = self.core.buffers.focused;
                self.core.buffers.set_view_cursor_selection(f, c, sel);
                SearchOutcome::Moved
            },
        }
    }
}

/// What searching for the selected text found: the literal pattern made of
/// it (the new last search), the text itself, and the search outcome.
#[derive(Debug)]
pub struct SelectionAsSearch {
    pub pattern: String,
    pub text: String,
    pub outcome: SearchOutcome,
}

/// `b1` is `b0` after searching the focused view for its selected text,
/// taken literally (see `use_selection_as_search`), with outcome `r`.
pub open spec fn selection_search_post(b0: BufferManager, b1: BufferManager, r: Option<SelectionAsSearch>) -> bool {
    forall|i: int, k: int| #[trigger] focus_at(b0, i, k) ==> {
        let prim = b0.views@[i].selection.primary_spec();
        let s = b0.docs@[k].text@;
        let text = s.subrange(rmin(prim) as int, rmax(prim) as int);
        let pat = regex_escape_spec(text);
        let found = find_next_spec(pat, s, rmax(prim) as int);
        &&& r is None <==> rmin(prim) == rmax(prim)
        &&& r is None ==> b1 == b0
        &&& r matches Some(x) ==> {
            &&& x.text@ == text
            &&& x.pattern@ == pat
            &&& !regex_compiles(pat) ==> (x.outcome matches SearchOutcome::RegexError(m) && m@ == regex_error_message(
                pat,
            )) && b1 == b0
            &&& regex_compiles(pat) && utf8_len(s) > usize::MAX ==> x.outcome is NotFound && b1 == b0
            &&& regex_compiles(pat) && utf8_len(s) <= usize::MAX && found is None ==> x.outcome is NotFound
                && b1 == b0
            &&& regex_compiles(pat) && utf8_len(s) <= usize::MAX && found is Some ==> x.outcome is Moved
                && view_set(
                b0,
                b1,
                b0.focused,
                b0.views@[i].cursor,
                seq![Range { anchor: found.unwrap().0 as usize, head: found.unwrap().1 as usize }],
                0,
            )
        }
    }
}

impl Editor {
    /// Searches the focused view for its selected text, taken literally
    /// (see `regex_escape_spec`), from the end of the primary range: a match
    /// becomes the selection (the cursor stays), and the pattern becomes the
    /// view's last (forward) search. `None`, changing nothing, when the
    /// primary range is empty.
    pub fn use_selection_as_search(&mut self) -> (r: Option<SelectionAsSearch>)
        requires
            old(self).core.buffers.wf(),
            old(self).core.buffers.selections_wf(),
            old(self).core.buffers.has_view(old(self).core.buffers.focused),
            forall|i: int, k: int| #[trigger] focus_at(old(self).core.buffers, i, k) ==> rmax(
                old(self).core.buffers.views@[i].selection.primary_spec(),
            ) <= old(self).core.buffers.docs@[k].text@.len(),
        ensures
            final(self).core.buffers.wf(),
            final(self).core.undo_manager == old(self).core.undo_manager,
            final(self).windows == old(self).windows,
            final(self).focus == old(self).focus,
            r is None ==> selection_search_post(old(self).core.buffers, final(self).core.buffers, r),
            r matches Some(x) ==> exists|bm: BufferManager|
                selection_search_post(old(self).core.buffers, bm, r) && #[trigger] last_search_set(
                    bm,
                    final(self).core.buffers,
                    old(self).core.buffers.focused,
                    Some((x.pattern, false)),
                ),
    {
        let ghost b0 = self.core.buffers;
        let r = self.select_as_search();
        match &r {
            Some(x) => {
                let ghost bm = self.core.buffers;
                let f = self.core.buffers.focused;
                self.core.buffers.set_view_last_search(f, Some((x.pattern.clone(), false)));
                proof {
                    assert(selection_search_post(b0, bm, r));
                    let i0 = choose|i0: int| 0 <= i0 < b0.views@.len() && b0.views@[i0].id == b0.focused;
                    assert(b0.has_doc(b0.views@[i0].doc));
                    let k0 = choose|k0: int| 0 <= k0 < b0.docs@.len() && b0.docs@[k0].id == b0.views@[i0].doc;
                    assert(focus_at(b0, i0, k0));
                    assert(bm.focused == b0.focused);
                    assert(last_search_set(bm, self.core.buffers, b0.focused, Some((x.pattern, false))));
                }
            },
            None => {},
        }
        r
    }

    /// The search of `use_selection_as_search`, without recording it.
    fn select_as_search(&mut self) -> (r: Option<SelectionAsSearch>)
        requires
            old(self).core.buffers.wf(),
            old(self).core.buffers.selections_wf(),
            old(self).core.buffers.has_view(old(self).core.buffers.focused),
            forall|i: int, k: int| #[trigger] focus_at(old(self).core.buffers, i, k) ==> rmax(
                old(self).core.buffers.views@[i].selection.primary_spec(),
            ) <= old(self).core.buffers.docs@[k].text@.len(),
        ensures
            final(self).core.buffers.wf(),
            final(self).core.undo_manager == old(self).core.undo_manager,
            final(self).windows == old(self).windows,
            final(self).focus == old(self).focus,
            selection_search_post(old(self).core.buffers, final(self).core.buffers, r),
    {
        let (i, k) = match self.core.buffers.locate(self.core.buffers.focused) {
            Some(x) => x,
            None => {
                proof {
                    assert(false);
                }
                return None;
            },
        };
        proof {
            let b = self.core.buffers;
            assert forall|i2: int, k2: int| #[trigger] focus_at(b, i2, k2) implies i2 == i && k2 == k by {
                if i2 != i {
                    if i2 < i {
                        assert(b.views@[i2].id != b.views@[i as int].id);
                    } else {
                        assert(b.views@[i as int].id != b.views@[i2].id);
                    }
                }
            }
            assert(focus_at(b, i as int, k as int));
            assert(b.views@[i as int].selection.wf());
        }
        let prim = self.core.buffers.views[i].selection.primary();
        let from = prim.from();
        let to = prim.to();
        if from >= to {
            return None;
        }
        let chars = slice_of(&self.core.buffers.docs[k].text, from, to);
        let text = string_from_chars(chars.as_slice());
        let pattern = regex_escape(text.as_str());
        let sr = match SearchRegex::compile(&pattern) {
            Ok(sr) => sr,
            Err(msg) => {
                return Some(SelectionAsSearch { pattern, text, outcome: SearchOutcome::RegexError(msg) });
            },
        };
        if utf8_len_checked(&self.core.buffers.docs[k].text).is_none() {
            return Some(SelectionAsSearch { pattern, text, outcome: SearchOutcome::NotFound });
        }
        match find_next(&self.core.buffers.docs[k].text, &sr, to) {
            None => Some(SelectionAsSearch { pattern, text, outcome: SearchOutcome::NotFound }),
            Some((a, b)) => {
                let cursor = self.core.buffers.views[i].cursor;
                let f = self.core.buffers.focused;
                self.core.buffers.set_view_cursor_selection(f, cursor, Selection::single(a, b));
                Some(SelectionAsSearch { pattern, text, outcome: SearchOutcome::Moved })
            },
        }
    }
}

/// The ranges selecting each match of a slice starting at `from`.
pub open spec fn shifted_ranges(from: int, ms: Seq<(int, int)>) -> Seq<Range> {
    Seq::new(ms.len(), |j: int| Range { anchor: (from + ms[j].0) as usize, head: (from + ms[j].1) as usize })
}

/// The ranges of a list of gaps.
pub open spec fn gap_ranges(gaps: Seq<(int, int)>) -> Seq<Range> {
    Seq::new(gaps.len(), |j: int| Range { anchor: gaps[j].0 as usize, head: gaps[j].1 as usize })
}

/// Whether the pattern matches the text of each range.
pub open spec fn match_flags(pattern: Seq<char>, text: Seq<char>, ranges: Seq<Range>) -> Seq<bool> {
    Seq::new(
        ranges.len(),
        |j: int| regex_is_match(pattern, text.subrange(rmin(ranges[j]) as int, rmax(ranges[j]) as int)),
    )
}

/// The matches of `pattern` within the focused view's primary range.
pub open spec fn primary_matches(b: BufferManager, i: int, k: int, pattern: Seq<char>) -> Seq<(int, int)> {
    let prim = b.views@[i].selection.primary_spec();
    all_matches(pattern, b.docs@[k].text@.subrange(rmin(prim) as int, rmax(prim) as int), 0)
}

impl Editor {
    /// The focused view's primary range as `(from, to)`, with the positions
    /// of the view and of its document.
    fn focused_primary(&self) -> (r: (usize, usize, usize, usize))
        requires
            self.core.buffers.wf(),
            self.core.buffers.selections_wf(),
            self.core.buffers.has_view(self.core.buffers.focused),
        ensures
            focus_at(self.core.buffers, r.2 as int, r.3 as int),
            r.0 == rmin(self.core.buffers.views@[r.2 as int].selection.primary_spec()),
            r.1 == rmax(self.core.buffers.views@[r.2 as int].selection.primary_spec()),
    {
        let (i, k) = match self.core.buffers.locate(self.core.buffers.focused) {
            Some(x) => x,
            None => {
                proof {
                    assert(false);
                }
                (0, 0)
            },
        };
        proof {
            assert(self.core.buffers.views@[i as int].selection.wf());
        }
        let prim = self.core.buffers.views[i].selection.primary();
        (prim.from(), prim.to(), i, k)
    }

    /// Replaces the primary range of the focused view by a range on each
    /// match of `pattern` inside it.
    pub fn select_regex(&mut self, pattern: &String) -> (r: SelectOutcome)
        requires
            old(self).core.buffers.wf(),
            old(self).core.buffers.selections_wf(),
            old(self).core.buffers.views_valid(),
            old(self).core.buffers.has_view(old(self).core.buffers.focused),
        ensures
            final(self).core.buffers.wf(),
            final(self).core.undo_manager == old(self).core.undo_manager,
            final(self).windows == old(self).windows,
            final(self).focus == old(self).focus,
            forall|i: int, k: int|
                #[trigger] focus_at(old(self).core.buffers, i, k) ==> {
                    let b0 = old(self).core.buffers;
                    let prim = b0.views@[i].selection.primary_spec();
                    let ms = primary_matches(b0, i, k, pattern@);
                    &&& rmin(prim) >= rmax(prim) ==> r is NoSelection && final(self).core.buffers == b0
                    &&& rmin(prim) < rmax(prim) && !regex_compiles(pattern@) ==> (r matches SelectOutcome::RegexError(
                        m,
                    ) && m@ == regex_error_message(pattern@))
                        && final(self).core.buffers == b0
                    &&& rmin(prim) < rmax(prim) && regex_compiles(pattern@) && utf8_len(b0.docs@[k].text@)
                        <= usize::MAX ==> if ms.len() == 0 {
                        r is NoMatches && final(self).core.buffers == b0
                    } else {
                        r == SelectOutcome::Applied(ms.len() as usize) && view_set(
                            b0,
                            final(self).core.buffers,
                            b0.focused,
                            b0.views@[i].cursor,
                            shifted_ranges(rmin(prim) as int, ms),
                            0,
                        )
                    }
                },
    {
        let (from, to, i, k) = self.focused_primary();
        if from >= to {
            return SelectOutcome::NoSelection;
        }
        let sr = match SearchRegex::compile(pattern) {
            Ok(sr) => sr,
            Err(msg) => {
                return SelectOutcome::RegexError(msg);
            },
        };
        if utf8_len_checked(&self.core.buffers.docs[k].text).is_none() {
            return SelectOutcome::NoMatches;
        }
        proof {
            let b = self.core.buffers;
            assert(state_valid(buffer_state(b.views@[i as int]), b.docs@[k as int].text.len()));
            let sel = b.views@[i as int].selection;
            assert(sel.ranges@[sel.primary_index as int] == sel.primary_spec());
            crate::search::lemma_utf8_len_subrange(b.docs@[k as int].text@, from as int, to as int);
        }
        let window = slice_of(&self.core.buffers.docs[k].text, from, to);
        let ms = find_all(&window, &sr);
        if ms.len() == 0 {
            return SelectOutcome::NoMatches;
        }
        let mut ranges: Vec<Range> = Vec::new();
        let mut j: usize = 0;
        while j < ms.len()
            invariant
                j <= ms@.len(),
                from <= to,
                window@.len() == to - from,
                forall|q: int| 0 <= q < ms@.len() ==> (#[trigger] ms@[q]).0 <= ms@[q].1 <= window@.len(),
                ranges@.len() == j,
                forall|q: int|
                    0 <= q < j ==> #[trigger] ranges@[q] == (Range {
                        anchor: (from + ms@[q].0) as usize,
                        head: (from + ms@[q].1) as usize,
                    }),
            decreases ms@.len() - j,
        {
            ranges.push(Range { anchor: from + ms[j].0, head: from + ms[j].1 });
            j = j + 1;
        }
        let count = ranges.len();
        let ghost rs = ranges@;
        let sel = Selection::from_vec(ranges, 0);
        let cursor = self.core.buffers.views[i].cursor;
        let f = self.core.buffers.focused;
        self.core.buffers.set_view_cursor_selection(f, cursor, sel);
        proof {
            let all = all_matches(sr.pattern_spec(), window@, 0);
            assert(rs =~= shifted_ranges(from as int, all));
        }
        SelectOutcome::Applied(count)
    }
}

/// Match spans as plain `usize` pairs.
pub open spec fn as_usize_pairs(ms: Seq<(int, int)>) -> Seq<(usize, usize)> {
    Seq::new(ms.len(), |j: int| (ms[j].0 as usize, ms[j].1 as usize))
}

impl Editor {
    /// Splits the primary range of the focused view at the matches of
    /// `pattern`, keeping the parts between them.
    pub fn split_regex(&mut self, pattern: &String) -> (r: SelectOutcome)
        requires
            old(self).core.buffers.wf(),
            old(self).core.buffers.selections_wf(),
            old(self).core.buffers.views_valid(),
            old(self).core.buffers.has_view(old(self).core.buffers.focused),
        ensures
            final(self).core.buffers.wf(),
            final(self).core.undo_manager == old(self).core.undo_manager,
            final(self).windows == old(self).windows,
            final(self).focus == old(self).focus,
            forall|i: int, k: int|
                #[trigger] focus_at(old(self).core.buffers, i, k) ==> {
                    let b0 = old(self).core.buffers;
                    let prim = b0.views@[i].selection.primary_spec();
                    let ms = primary_matches(b0, i, k, pattern@);
                    let gaps = split_ranges_spec(rmin(prim) as int, rmax(prim) as int, as_usize_pairs(ms));
                    &&& rmin(prim) >= rmax(prim) ==> r is NoSelection && final(self).core.buffers == b0
                    &&& rmin(prim) < rmax(prim) && !regex_compiles(pattern@) ==> (r matches SelectOutcome::RegexError(
                        m,
                    ) && m@ == regex_error_message(pattern@))
                        && final(self).core.buffers == b0
                    &&& rmin(prim) < rmax(prim) && regex_compiles(pattern@) && utf8_len(b0.docs@[k].text@)
                        <= usize::MAX ==> if ms.len() == 0 {
                        r is NoMatches && final(self).core.buffers == b0
                    } else if gaps.len() == 0 {
                        r is NothingLeft && final(self).core.buffers == b0
                    } else {
                        r == SelectOutcome::Applied(gaps.len() as usize) && view_set(
                            b0,
                            final(self).core.buffers,
                            b0.focused,
                            b0.views@[i].cursor,
                            gap_ranges(gaps),
                            0,
                        )
                    }
                },
    {
        let (from, to, i, k) = self.focused_primary();
        if from >= to {
            return SelectOutcome::NoSelection;
        }
        let sr = match SearchRegex::compile(pattern) {
            Ok(sr) => sr,
            Err(msg) => {
                return SelectOutcome::RegexError(msg);
            },
        };
        if utf8_len_checked(&self.core.buffers.docs[k].text).is_none() {
            return SelectOutcome::NoMatches;
        }
        proof {
            let b = self.core.buffers;
            assert(state_valid(buffer_state(b.views@[i as int]), b.docs@[k as int].text.len()));
            let sel = b.views@[i as int].selection;
            assert(sel.ranges@[sel.primary_index as int] == sel.primary_spec());
            crate::search::lemma_utf8_len_subrange(b.docs@[k as int].text@, from as int, to as int);
        }
        let window = slice_of(&self.core.buffers.docs[k].text, from, to);
        let ms = find_all(&window, &sr);
        if ms.len() == 0 {
            return SelectOutcome::NoMatches;
        }
        proof {
            let all = all_matches(sr.pattern_spec(), window@, 0);
            assert(ms@ =~= as_usize_pairs(all));
        }
        let gaps = split_ranges(from, to, &ms);
        proof {
            let sp = split_ranges_spec(from as int, to as int, ms@);
            assert forall|j: int| 0 <= j < gaps@.len() implies #[trigger] gaps@[j] == gap_ranges(sp)[j] by {
                let a = gaps@[j].anchor;
                assert(a == sp[j].0);
                assert(gaps@[j].head == sp[j].1);
                assert(gap_ranges(sp)[j] == (Range { anchor: sp[j].0 as usize, head: sp[j].1 as usize }));
            }
            assert(gaps@ =~= gap_ranges(sp));
        }
        if gaps.len() == 0 {
            return SelectOutcome::NothingLeft;
        }
        let count = gaps.len();
        let ghost gs = gaps@;
        let sel = Selection::from_vec(gaps, 0);
        let cursor = self.core.buffers.views[i].cursor;
        let f = self.core.buffers.focused;
        self.core.buffers.set_view_cursor_selection(f, cursor, sel);
        proof {
            assert(gs =~= gap_ranges(split_ranges_spec(from as int, to as int, ms@)));
        }
        SelectOutcome::Applied(count)
    }

    /// Keeps the ranges of the focused view whose text matches `pattern`
    /// (or, with `invert`, does not).
    pub fn keep_matching(&mut self, pattern: &String, invert: bool) -> (r: SelectOutcome)
        requires
            old(self).core.buffers.wf(),
            old(self).core.buffers.selections_wf(),
            old(self).core.buffers.views_valid(),
            old(self).core.buffers.has_view(old(self).core.buffers.focused),
        ensures
            final(self).core.buffers.wf(),
            final(self).core.undo_manager == old(self).core.undo_manager,
            final(self).windows == old(self).windows,
            final(self).focus == old(self).focus,
            !regex_compiles(pattern@) ==> (r matches SelectOutcome::RegexError(m) && m@ == regex_error_message(
                pattern@,
            )) && final(self).core.buffers == old(self).core.buffers,
            forall|i: int, k: int|
                #[trigger] focus_at(old(self).core.buffers, i, k) && regex_compiles(pattern@) ==> {
                    let b0 = old(self).core.buffers;
                    let ranges = b0.views@[i].selection.ranges@;
                    let kept = keep_matching_spec(ranges, match_flags(pattern@, b0.docs@[k].text@, ranges), invert);
                    if kept.len() == 0 {
                        r is NothingLeft && final(self).core.buffers == b0
                    } else {
                        r == SelectOutcome::Applied(kept.len() as usize) && view_set(
                            b0,
                            final(self).core.buffers,
                            b0.focused,
                            b0.views@[i].cursor,
                            kept,
                            0,
                        )
                    }
                },
    {
        let sr = match SearchRegex::compile(pattern) {
            Ok(sr) => sr,
            Err(msg) => {
                return SelectOutcome::RegexError(msg);
            },
        };
        let (i, k) = match self.core.buffers.locate(self.core.buffers.focused) {
            Some(x) => x,
            None => {
                proof {
                    assert(false);
                }
                return SelectOutcome::NothingLeft;
            },
        };
        proof {
            let b = self.core.buffers;
            assert(state_valid(buffer_state(b.views@[i as int]), b.docs@[k as int].text.len()));
        }
        let ranges = &self.core.buffers.views[i].selection.ranges;
        let text = &self.core.buffers.docs[k].text;
        let mut flags: Vec<bool> = Vec::new();
        let mut j: usize = 0;
        while j < ranges.len()
            invariant
                j <= ranges@.len(),
                flags@.len() == j,
                forall|q: int| 0 <= q < ranges@.len() ==> (#[trigger] ranges@[q]).anchor <= text@.len()
                    && ranges@[q].head <= text@.len(),
                forall|q: int|
                    0 <= q < j ==> #[trigger] flags@[q] == regex_is_match(
                        sr.pattern_spec(),
                        text@.subrange(rmin(ranges@[q]) as int, rmax(ranges@[q]) as int),
                    ),
            decreases ranges@.len() - j,
        {
            let rg = ranges[j];
            let window = slice_of(text, rg.from(), rg.to());
            flags.push(text_matches(&window, &sr));
            j = j + 1;
        }
        proof {
            assert(flags@ =~= match_flags(sr.pattern_spec(), text@, ranges@));
        }
        let kept = keep_matching_ranges(ranges, &flags, invert);
        if kept.len() == 0 {
            return SelectOutcome::NothingLeft;
        }
        let count = kept.len();
        let sel = Selection::from_vec(kept, 0);
        let cursor = self.core.buffers.views[i].cursor;
        let f = self.core.buffers.focused;
        self.core.buffers.set_view_cursor_selection(f, cursor, sel);
        SelectOutcome::Applied(count)
    }
}

} // verus!
