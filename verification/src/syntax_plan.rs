//! Planning of background syntax work: how hot each document is and which
//! byte range of it is on screen.

use vstd::prelude::*;

use crate::buffer::{Buffer, BufferManager};
use crate::editor::Editor;
use crate::focus::contains_view;
use crate::ids::{DocumentId, ViewId};
use crate::search::{byte_offset, char_to_byte, utf8_len};
use crate::search_preview::utf8_len_checked;

verus! {

/// How urgently a document's syntax is wanted.
#[derive(Debug, Clone, Copy, PartialEq, Eq, Structural)]
pub enum SyntaxHotness {
    /// Shown in some view.
    Visible,
    /// Recently visible.
    Warm,
    Cold,
}

pub open spec fn hotness_rank(h: SyntaxHotness) -> int {
    match h {
        SyntaxHotness::Visible => 2,
        SyntaxHotness::Warm => 1,
        SyntaxHotness::Cold => 0,
    }
}

/// The hotness recorded for a document when one more of its views reports
/// `incoming`: a visible view makes it visible, a warm one lifts a cold
/// record to warm, anything else keeps the record.
pub open spec fn combine_spec(incoming: SyntaxHotness, current: SyntaxHotness) -> SyntaxHotness {
    match (incoming, current) {
        (SyntaxHotness::Visible, _) => SyntaxHotness::Visible,
        (SyntaxHotness::Warm, SyntaxHotness::Cold) => SyntaxHotness::Warm,
        _ => current,
    }
}

pub fn combine_hotness(incoming: SyntaxHotness, current: SyntaxHotness) -> (h: SyntaxHotness)
    ensures
        h == combine_spec(incoming, current),
{
    match (incoming, current) {
        (SyntaxHotness::Visible, _) => SyntaxHotness::Visible,
        (SyntaxHotness::Warm, SyntaxHotness::Cold) => SyntaxHotness::Warm,
        _ => current,
    }
}

/// Combining keeps the hotter of the two.
pub proof fn law_combine_is_max(incoming: SyntaxHotness, current: SyntaxHotness)
    ensures
        hotness_rank(combine_spec(incoming, current)) == if hotness_rank(incoming) >= hotness_rank(current) {
            hotness_rank(incoming)
        } else {
            hotness_rank(current)
        },
{
}

/// The hotness of a view: visible views are visible, others warm when their
/// document is warm, else cold.
pub fn view_hotness(visible: bool, doc_warm: bool) -> (h: SyntaxHotness)
    ensures
        h == if visible {
            SyntaxHotness::Visible
        } else if doc_warm {
            SyntaxHotness::Warm
        } else {
            SyntaxHotness::Cold
        },
{
    if visible {
        SyntaxHotness::Visible
    } else if doc_warm {
        SyntaxHotness::Warm
    } else {
        SyntaxHotness::Cold
    }
}

/// Position of the record for document `d`, if any.
pub open spec fn record_index<T>(recs: Seq<(DocumentId, T)>, d: DocumentId) -> Option<int> {
    if exists|i: int| 0 <= i < recs.len() && recs[i].0 == d {
        Some(choose|i: int| 0 <= i < recs.len() && recs[i].0 == d)
    } else {
        None
    }
}

/// Records `h` for document `d`: combined into its record, or appended.
pub fn note_hotness(recs: &mut Vec<(DocumentId, SyntaxHotness)>, d: DocumentId, h: SyntaxHotness)
    requires
        forall|i: int, j: int| 0 <= i < j < old(recs)@.len() ==> old(recs)@[i].0 != old(recs)@[j].0,
    ensures
        forall|i: int, j: int| 0 <= i < j < final(recs)@.len() ==> final(recs)@[i].0 != final(recs)@[j].0,
        match record_index(old(recs)@, d) {
            Some(i) => final(recs)@ == old(recs)@.update(i, (d, combine_spec(h, old(recs)@[i].1))),
            None => final(recs)@ == old(recs)@.push((d, h)),
        },
{
    let mut i: usize = 0;
    while i < recs.len()
        invariant
            i <= recs@.len(),
            recs@ == old(recs)@,
            forall|a: int, b: int| 0 <= a < b < recs@.len() ==> recs@[a].0 != recs@[b].0,
            forall|k: int| 0 <= k < i ==> recs@[k].0 != d,
        decreases recs@.len() - i,
    {
        if recs[i].0 == d {
            let cur = recs[i].1;
            proof {
                let c = choose|c: int| 0 <= c < recs@.len() && recs@[c].0 == d;
                if c != i {
                    if c < i {
                        assert(recs@[c].0 != d);
                    } else {
                        assert(recs@[i as int].0 != recs@[c].0);
                    }
                }
            }
            recs.set(i, (d, combine_hotness(h, cur)));
            proof {
                assert forall|a: int, b: int| 0 <= a < b < recs@.len() implies recs@[a].0 != recs@[b].0 by {
                    assert(old(recs)@[a].0 != old(recs)@[b].0);
                }
            }
            return ;
        }
        i = i + 1;
    }
    recs.push((d, h));
    proof {
        assert forall|a: int, b: int| 0 <= a < b < recs@.len() implies recs@[a].0 != recs@[b].0 by {
            if b == old(recs)@.len() {
                assert(old(recs)@[a].0 != d);
            }
        }
    }
}

/// The visible byte span of a view whose screen shows chars `start_char`
/// to `end_char` (clamped to the text, in order): at least one byte when
/// the text has any, at most `span_cap` bytes.
pub open spec fn viewport_spec(s: Seq<char>, start_char: usize, end_char: usize, span_cap: u32) -> (u32, u32) {
    let max = s.len() as int;
    let a = if start_char <= max { start_char as int } else { max };
    let b = if end_char <= max { end_char as int } else { max };
    let lo = if b < a { b } else { a };
    let hi = if b < a { a } else { b };
    let len_bytes = utf8_len(s) as u32;
    let sb = byte_offset(s, lo) as u32;
    let eb0 = byte_offset(s, hi) as u32;
    let eb = if eb0 == sb && sb < len_bytes { (sb + 1) as u32 } else { eb0 };
    let end = if eb < len_bytes { eb } else { len_bytes };
    let capped = if sb + span_cap <= u32::MAX { (sb + span_cap) as u32 } else { u32::MAX };
    (sb, if end < capped { end } else { capped })
}

/// The visible byte span (see `viewport_spec`).
pub fn viewport_bytes(text: &Vec<char>, start_char: usize, end_char: usize, span_cap: u32) -> (r: (u32, u32))
    requires
        utf8_len(text@) <= usize::MAX,
    ensures
        r == viewport_spec(text@, start_char, end_char, span_cap),
{
    let max = text.len();
    let a = if start_char <= max { start_char } else { max };
    let b = if end_char <= max { end_char } else { max };
    let (lo, hi) = if b < a { (b, a) } else { (a, b) };
    let len_bytes = char_to_byte(text, max) as u32;
    let sb = char_to_byte(text, lo) as u32;
    let eb0 = char_to_byte(text, hi) as u32;
    let eb = if eb0 == sb && sb < len_bytes { sb + 1 } else { eb0 };
    let end = if eb < len_bytes { eb } else { len_bytes };
    let capped = sb.saturating_add(span_cap);
    (sb, if end < capped { end } else { capped })
}

/// The union hull of two spans of one document.
pub fn merge_viewports(a: (u32, u32), b: (u32, u32)) -> (r: (u32, u32))
    ensures
        r.0 == if a.0 <= b.0 { a.0 } else { b.0 },
        r.1 == if a.1 >= b.1 { a.1 } else { b.1 },
{
    (if a.0 <= b.0 { a.0 } else { b.0 }, if a.1 >= b.1 { a.1 } else { b.1 })
}

/// Whether a document needs a syntax pass: pending, dirty or completed work,
/// or visible; cold documents whose parsing is disabled while hidden are
/// skipped.
pub fn needs_syntax_pass(in_workset: bool, hotness: SyntaxHotness, hidden_parse_disabled: bool) -> (b: bool)
    ensures
        b == ((in_workset || hotness == SyntaxHotness::Visible) && !(hotness == SyntaxHotness::Cold
            && hidden_parse_disabled)),
{
    (in_workset || hotness == SyntaxHotness::Visible) && !(hotness == SyntaxHotness::Cold
        && hidden_parse_disabled)
}

/// Some view of `views` shows document `d` and is visible.
pub open spec fn shown_visible(views: Seq<Buffer>, d: DocumentId, visible: Seq<ViewId>) -> bool {
    exists|k: int| 0 <= k < views.len() && views[k].doc == d && visible.contains(#[trigger] views[k].id)
}

/// Some view of `views` shows document `d`.
pub open spec fn shown(views: Seq<Buffer>, d: DocumentId) -> bool {
    exists|k: int| 0 <= k < views.len() && #[trigger] views[k].doc == d
}

/// A document's hotness over its views: visible when one of them is,
/// else warm when the document is, else cold.
pub open spec fn doc_hotness_spec(
    views: Seq<Buffer>,
    d: DocumentId,
    visible: Seq<ViewId>,
    warm: Seq<DocumentId>,
) -> SyntaxHotness {
    if shown_visible(views, d, visible) {
        SyntaxHotness::Visible
    } else if warm.contains(d) {
        SyntaxHotness::Warm
    } else {
        SyntaxHotness::Cold
    }
}

/// The records hold one entry per document shown by `views`, with its
/// hotness over those views.
pub open spec fn hotness_records_ok(
    recs: Seq<(DocumentId, SyntaxHotness)>,
    views: Seq<Buffer>,
    visible: Seq<ViewId>,
    warm: Seq<DocumentId>,
) -> bool {
    &&& forall|i: int, j: int| 0 <= i < j < recs.len() ==> recs[i].0 != recs[j].0
    &&& forall|i: int| 0 <= i < recs.len() ==> #[trigger] recs[i].1 == doc_hotness_spec(views, recs[i].0, visible, warm)
    &&& forall|i: int| 0 <= i < recs.len() ==> shown(views, #[trigger] recs[i].0)
    &&& forall|k: int| 0 <= k < views.len() ==> exists|i: int| 0 <= i < recs.len() && recs[i].0 == #[trigger] views[k].doc
}

/// Whether a document id is in the list.
pub fn contains_doc(docs: &Vec<DocumentId>, d: DocumentId) -> (b: bool)
    ensures
        b == docs@.contains(d),
{
    let mut i: usize = 0;
    while i < docs.len()
        invariant
            i <= docs@.len(),
            forall|k: int| 0 <= k < i ==> docs@[k] != d,
        decreases docs@.len() - i,
    {
        if docs[i] == d {
            proof {
                assert(docs@[i as int] == d);
            }
            return true;
        }
        i = i + 1;
    }
    false
}

impl Editor {
    /// The syntax hotness of every document with a view: views listed in
    /// `visible` make their document visible; other documents are warm when
    /// `warm` lists them, else cold.
    pub fn plan_doc_hotness(&self, visible: &Vec<ViewId>, warm: &Vec<DocumentId>) -> (recs: Vec<(DocumentId, SyntaxHotness)>)
        ensures
            hotness_records_ok(recs@, self.core.buffers.views@, visible@, warm@),
    {
        let views = &self.core.buffers.views;
        let mut recs: Vec<(DocumentId, SyntaxHotness)> = Vec::new();
        let mut i: usize = 0;
        while i < views.len()
            invariant
                i <= views@.len(),
                views@ == self.core.buffers.views@,
                hotness_records_ok(recs@, views@.subrange(0, i as int), visible@, warm@),
            decreases views@.len() - i,
        {
            let v = &views[i];
            let d = v.doc;
            let is_visible = contains_view(visible, v.id);
            let h = view_hotness(is_visible, contains_doc(warm, d));
            let ghost old_recs = recs@;
            let ghost pre = views@.subrange(0, i as int);
            let ghost post = views@.subrange(0, i + 1);
            note_hotness(&mut recs, d, h);
            proof {
                assert(post.drop_last() =~= pre);
                assert(post[i as int] == views@[i as int]);
                assert forall|e: DocumentId| e != d implies shown_visible(post, e, visible@) == shown_visible(pre, e, visible@)
                    && shown(post, e) == shown(pre, e) by {
                    if shown_visible(post, e, visible@) {
                        let k = choose|k: int| 0 <= k < post.len() && post[k].doc == e && visible@.contains(#[trigger] post[k].id);
                        assert(k < i);
                        assert(pre[k] == post[k]);
                    }
                    if shown_visible(pre, e, visible@) {
                        let k = choose|k: int| 0 <= k < pre.len() && pre[k].doc == e && visible@.contains(#[trigger] pre[k].id);
                        assert(post[k] == pre[k]);
                    }
                    if shown(post, e) {
                        let k = choose|k: int| 0 <= k < post.len() && #[trigger] post[k].doc == e;
                        assert(pre[k] == post[k]);
                    }
                    if shown(pre, e) {
                        let k = choose|k: int| 0 <= k < pre.len() && #[trigger] pre[k].doc == e;
                        assert(post[k] == pre[k]);
                    }
                }
                assert(shown(post, d)) by {
                    assert(post[i as int].doc == d);
                }
                if is_visible {
                    assert(shown_visible(post, d, visible@)) by {
                        assert(visible@.contains(post[i as int].id));
                    }
                } else {
                    assert(shown_visible(post, d, visible@) == shown_visible(pre, d, visible@)) by {
                        if shown_visible(post, d, visible@) {
                            let k = choose|k: int| 0 <= k < post.len() && post[k].doc == d && visible@.contains(#[trigger] post[k].id);
                            assert(k != i);
                            assert(pre[k] == post[k]);
                        }
                        if shown_visible(pre, d, visible@) {
                            let k = choose|k: int| 0 <= k < pre.len() && pre[k].doc == d && visible@.contains(#[trigger] pre[k].id);
                            assert(post[k] == pre[k]);
                        }
                    }
                }
                match record_index(old_recs, d) {
                    Some(r) => {
                        assert(old_recs[r].0 == d);
                        assert(shown(pre, d));
                        assert forall|a: int| 0 <= a < recs@.len() implies #[trigger] recs@[a].1 == doc_hotness_spec(
                            post,
                            recs@[a].0,
                            visible@,
                            warm@,
                        ) by {
                            if a != r {
                                assert(recs@[a] == old_recs[a]);
                                assert(old_recs[a].0 != old_recs[r].0 || a == r);
                            }
                        }
                        assert forall|a: int| 0 <= a < recs@.len() implies shown(post, #[trigger] recs@[a].0) by {
                            if a != r {
                                assert(recs@[a] == old_recs[a]);
                            }
                        }
                        assert forall|k: int| 0 <= k < post.len() implies exists|a: int|
                            0 <= a < recs@.len() && recs@[a].0 == #[trigger] post[k].doc by {
                            if k < i {
                                assert(pre[k] == post[k]);
                                let a = choose|a: int| 0 <= a < old_recs.len() && old_recs[a].0 == #[trigger] pre[k].doc;
                                assert(recs@[a].0 == old_recs[a].0);
                            } else {
                                assert(recs@[r].0 == d);
                            }
                        }
                    },
                    None => {
                        assert(!shown(pre, d)) by {
                            if shown(pre, d) {
                                let k = choose|k: int| 0 <= k < pre.len() && #[trigger] pre[k].doc == d;
                                let a = choose|a: int| 0 <= a < old_recs.len() && old_recs[a].0 == #[trigger] pre[k].doc;
                                assert(exists|a2: int| 0 <= a2 < old_recs.len() && old_recs[a2].0 == d);
                            }
                        }
                        assert(!shown_visible(pre, d, visible@)) by {
                            if shown_visible(pre, d, visible@) {
                                let k = choose|k: int| 0 <= k < pre.len() && pre[k].doc == d && visible@.contains(#[trigger] pre[k].id);
                                assert(shown(pre, d)) by {
                                    assert(pre[k].doc == d);
                                }
                            }
                        }
                        assert forall|a: int| 0 <= a < recs@.len() implies #[trigger] recs@[a].1 == doc_hotness_spec(
                            post,
                            recs@[a].0,
                            visible@,
                            warm@,
                        ) by {
                            if a < old_recs.len() {
                                assert(recs@[a] == old_recs[a]);
                                assert(old_recs[a].0 != d) by {
                                    if old_recs[a].0 == d {
                                        assert(exists|a2: int| 0 <= a2 < old_recs.len() && old_recs[a2].0 == d);
                                    }
                                }
                            }
                        }
                        assert forall|a: int| 0 <= a < recs@.len() implies shown(post, #[trigger] recs@[a].0) by {
                            if a < old_recs.len() {
                                assert(recs@[a] == old_recs[a]);
                                assert(old_recs[a].0 != d) by {
                                    if old_recs[a].0 == d {
                                        assert(exists|a2: int| 0 <= a2 < old_recs.len() && old_recs[a2].0 == d);
                                    }
                                }
                            }
                        }
                        assert forall|k: int| 0 <= k < post.len() implies exists|a: int|
                            0 <= a < recs@.len() && recs@[a].0 == #[trigger] post[k].doc by {
                            if k < i {
                                assert(pre[k] == post[k]);
                                let a = choose|a: int| 0 <= a < old_recs.len() && old_recs[a].0 == #[trigger] pre[k].doc;
                                assert(recs@[a] == old_recs[a]);
                            } else {
                                assert(recs@[old_recs.len() as int].0 == d);
                            }
                        }
                    },
                }
            }
            i = i + 1;
        }
        proof {
            assert(views@.subrange(0, views@.len() as int) =~= views@);
        }
        recs
    }
}

/// A visible view's screen extent: the chars at its first and last screen
/// rows, and the byte cap for its document's span.
#[derive(Debug, Clone, Copy, PartialEq, Eq, Structural)]
pub struct ScreenSpan {
    pub view: ViewId,
    pub start_char: usize,
    pub end_char: usize,
    pub span_cap: u32,
}

/// The document and byte span a screen extent covers (none when the view
/// is gone or its text's encoding does not fit in memory).
pub open spec fn span_viewport(b: BufferManager, e: ScreenSpan) -> Option<(DocumentId, (u32, u32))> {
    if b.has_view(e.view) {
        let d = b.view(e.view).doc;
        let t = b.doc_spec(d).text@;
        if utf8_len(t) <= usize::MAX {
            Some((d, viewport_spec(t, e.start_char, e.end_char, e.span_cap)))
        } else {
            None
        }
    } else {
        None
    }
}

/// The hull of two spans.
pub open spec fn hull(a: (u32, u32), b: (u32, u32)) -> (u32, u32) {
    (if a.0 <= b.0 { a.0 } else { b.0 }, if a.1 >= b.1 { a.1 } else { b.1 })
}

/// The hull of the spans of all extents over document `d`, if any.
pub open spec fn merged_viewport(b: BufferManager, spans: Seq<ScreenSpan>, d: DocumentId) -> Option<(u32, u32)>
    decreases spans.len(),
{
    if spans.len() == 0 {
        None
    } else {
        let prev = merged_viewport(b, spans.drop_last(), d);
        match span_viewport(b, spans.last()) {
            Some(x) => if x.0 == d {
                match prev {
                    Some(p) => Some(hull(p, x.1)),
                    None => Some(x.1),
                }
            } else {
                prev
            },
            None => prev,
        }
    }
}

/// One record per document some extent covers, holding the hull of its
/// spans.
pub open spec fn viewport_records_ok(recs: Seq<(DocumentId, (u32, u32))>, b: BufferManager, spans: Seq<ScreenSpan>) -> bool {
    &&& forall|i: int, j: int| 0 <= i < j < recs.len() ==> recs[i].0 != recs[j].0
    &&& forall|i: int| 0 <= i < recs.len() ==> merged_viewport(b, spans, #[trigger] recs[i].0) == Some(recs[i].1)
    &&& forall|d: DocumentId| #[trigger] merged_viewport(b, spans, d) is Some ==> exists|i: int|
        0 <= i < recs.len() && recs[i].0 == d
}

/// Widens the record of document `d` by `vp`, or adds one.
pub fn note_viewport(recs: &mut Vec<(DocumentId, (u32, u32))>, d: DocumentId, vp: (u32, u32))
    requires
        forall|i: int, j: int| 0 <= i < j < old(recs)@.len() ==> old(recs)@[i].0 != old(recs)@[j].0,
    ensures
        forall|i: int, j: int| 0 <= i < j < final(recs)@.len() ==> final(recs)@[i].0 != final(recs)@[j].0,
        match record_index(old(recs)@, d) {
            Some(i) => final(recs)@ == old(recs)@.update(i, (d, hull(old(recs)@[i].1, vp))),
            None => final(recs)@ == old(recs)@.push((d, vp)),
        },
{
    let mut i: usize = 0;
    while i < recs.len()
        invariant
            i <= recs@.len(),
            recs@ == old(recs)@,
            forall|a: int, b: int| 0 <= a < b < recs@.len() ==> recs@[a].0 != recs@[b].0,
            forall|k: int| 0 <= k < i ==> recs@[k].0 != d,
        decreases recs@.len() - i,
    {
        if recs[i].0 == d {
            let cur = recs[i].1;
            proof {
                let c = choose|c: int| 0 <= c < recs@.len() && recs@[c].0 == d;
                if c != i {
                    if c < i {
                        assert(recs@[c].0 != d);
                    } else {
                        assert(recs@[i as int].0 != recs@[c].0);
                    }
                }
            }
            recs.set(i, (d, merge_viewports(cur, vp)));
            proof {
                assert forall|a: int, b: int| 0 <= a < b < recs@.len() implies recs@[a].0 != recs@[b].0 by {
                    assert(old(recs)@[a].0 != old(recs)@[b].0);
                }
            }
            return ;
        }
        i = i + 1;
    }
    recs.push((d, vp));
    proof {
        assert forall|a: int, b: int| 0 <= a < b < recs@.len() implies recs@[a].0 != recs@[b].0 by {
            if b == old(recs)@.len() {
                assert(old(recs)@[a].0 != d);
            }
        }
    }
}

impl Editor {
    /// The visible byte span of each document shown on screen: the hull of
    /// the spans of the extents over it (see `span_viewport`).
    pub fn plan_doc_viewports(&self, spans: &Vec<ScreenSpan>) -> (recs: Vec<(DocumentId, (u32, u32))>)
        requires
            self.core.buffers.wf(),
        ensures
            viewport_records_ok(recs@, self.core.buffers, spans@),
    {
        let b = &self.core.buffers;
        let mut recs: Vec<(DocumentId, (u32, u32))> = Vec::new();
        let mut i: usize = 0;
        while i < spans.len()
            invariant
                i <= spans@.len(),
                b.wf(),
                viewport_records_ok(recs@, *b, spans@.subrange(0, i as int)),
            decreases spans@.len() - i,
        {
            let e = spans[i];
            let ghost pre = spans@.subrange(0, i as int);
            let ghost post = spans@.subrange(0, i + 1);
            let ghost old_recs = recs@;
            proof {
                assert(post.drop_last() =~= pre);
                assert(post.last() == e);
            }
            let x: Option<(DocumentId, (u32, u32))> = match b.get_buffer(e.view) {
                None => None,
                Some(bv) => {
                    proof {
                        let k = choose|k: int| 0 <= k < b.views@.len() && b.views@[k].id == e.view;
                        b.lemma_view_at(k);
                        assert(b.has_doc(b.views@[k].doc));
                    }
                    match b.get_document(bv.doc) {
                        None => None,
                        Some(doc) => {
                            if utf8_len_checked(&doc.text).is_some() {
                                Some((bv.doc, viewport_bytes(&doc.text, e.start_char, e.end_char, e.span_cap)))
                            } else {
                                None
                            }
                        },
                    }
                },
            };
            assert(x == span_viewport(*b, e));
            match x {
                None => {},
                Some((d, vp)) => {
                    note_viewport(&mut recs, d, vp);
                    proof {
                        match record_index(old_recs, d) {
                            Some(r) => {
                                assert(old_recs[r].0 == d);
                                assert(merged_viewport(*b, pre, d) == Some(old_recs[r].1));
                                assert forall|a: int| 0 <= a < recs@.len() implies merged_viewport(
                                    *b,
                                    post,
                                    #[trigger] recs@[a].0,
                                ) == Some(recs@[a].1) by {
                                    if a != r {
                                        assert(recs@[a] == old_recs[a]);
                                        assert(old_recs[a].0 != old_recs[r].0);
                                    }
                                }
                                assert forall|g: DocumentId| #[trigger] merged_viewport(*b, post, g) is Some implies exists|a: int|
                                    0 <= a < recs@.len() && recs@[a].0 == g by {
                                    if g == d {
                                        assert(recs@[r].0 == d);
                                    } else {
                                        assert(merged_viewport(*b, pre, g) is Some);
                                        let a = choose|a: int| 0 <= a < old_recs.len() && old_recs[a].0 == g;
                                        assert(recs@[a].0 == old_recs[a].0);
                                    }
                                }
                            },
                            None => {
                                assert(merged_viewport(*b, pre, d) is None) by {
                                    if merged_viewport(*b, pre, d) is Some {
                                        let a = choose|a: int| 0 <= a < old_recs.len() && old_recs[a].0 == d;
                                        assert(exists|a2: int| 0 <= a2 < old_recs.len() && old_recs[a2].0 == d);
                                    }
                                }
                                assert forall|a: int| 0 <= a < recs@.len() implies merged_viewport(
                                    *b,
                                    post,
                                    #[trigger] recs@[a].0,
                                ) == Some(recs@[a].1) by {
                                    if a < old_recs.len() {
                                        assert(recs@[a] == old_recs[a]);
                                        assert(old_recs[a].0 != d) by {
                                            if old_recs[a].0 == d {
                                                assert(exists|a2: int| 0 <= a2 < old_recs.len() && old_recs[a2].0 == d);
                                            }
                                        }
                                    }
                                }
                                assert forall|g: DocumentId| #[trigger] merged_viewport(*b, post, g) is Some implies exists|a: int|
                                    0 <= a < recs@.len() && recs@[a].0 == g by {
                                    if g == d {
                                        assert(recs@[old_recs.len() as int].0 == d);
                                    } else {
                                        assert(merged_viewport(*b, pre, g) is Some);
                                        let a = choose|a: int| 0 <= a < old_recs.len() && old_recs[a].0 == g;
                                        assert(recs@[a] == old_recs[a]);
                                    }
                                }
                            },
                        }
                    }
                },
            }
            proof {
                if x is None {
                    assert forall|g: DocumentId| merged_viewport(*b, post, g) == merged_viewport(*b, pre, g) by {}
                }
            }
            i = i + 1;
        }
        proof {
            assert(spans@.subrange(0, spans@.len() as int) =~= spans@);
        }
        recs
    }
}

} // verus!
