//! The context handed to Nu scripts: where the cursor and selection are,
//! what the buffer is, a bounded snapshot of the text around them, and the
//! script state.

use vstd::prelude::*;

use crate::buffer::{BufferManager, InputMode};
use crate::chars::chars_of;
use crate::invocation::NuCtxEvent;
use crate::prompt::same_chars;
use crate::editor::Editor;
use crate::ids::ViewId;
use crate::search::{byte_offset, char_utf8_width};
use crate::selection::{rmax, rmin};
use crate::strings::copy_strings;
use crate::text::{line_col, line_col_of, line_count, line_start, line_to_char, len_lines};

verus! {

#[derive(Debug, Clone, Copy, PartialEq, Eq, Structural)]
pub struct NuCtxPosition {
    pub line: usize,
    pub col: usize,
}

#[derive(Debug, Clone, Copy, PartialEq, Eq, Structural)]
pub struct NuCtxSelection {
    /// The primary range is not a point.
    pub active: bool,
    pub start: NuCtxPosition,
    pub end: NuCtxPosition,
}

#[derive(Debug)]
pub struct NuCtxBuffer {
    pub path: Option<String>,
    /// The buffer's language, as the host detected it.
    pub file_type: Option<String>,
    pub readonly: bool,
    pub modified: bool,
}

/// Text around the cursor, each part cut to a byte budget.
#[derive(Debug)]
pub struct NuCtxText {
    /// The cursor's line without its line ending.
    pub line: Option<String>,
    pub line_truncated: bool,
    /// The primary selection's text, when it is not a point.
    pub selection: Option<String>,
    pub selection_truncated: bool,
}

#[derive(Debug)]
pub struct NuCtx {
    pub kind: String,
    pub function: String,
    pub args: Vec<String>,
    /// The focused view's input mode.
    pub mode: InputMode,
    pub view: ViewId,
    pub cursor: NuCtxPosition,
    pub selection: NuCtxSelection,
    pub buffer: NuCtxBuffer,
    pub text: NuCtxText,
    /// The hook event; only a hook call carries one.
    pub event: Option<NuCtxEvent>,
    pub state: Vec<(String, String)>,
}

/// Number of leading chars of `s` whose encoding fits in `max` bytes,
/// counting on from `k`.
pub open spec fn fit_from(s: Seq<char>, k: int, max: nat) -> int
    decreases s.len() - k,
{
    if 0 <= k < s.len() && byte_offset(s, k + 1) <= max {
        fit_from(s, k + 1, max)
    } else {
        k
    }
}

/// The longest prefix of `s` that fits in `max` bytes, and whether chars
/// were cut.
pub open spec fn clamp_bytes(s: Seq<char>, max: nat) -> (Seq<char>, bool) {
    let k = fit_from(s, 0, max);
    (s.subrange(0, k), k < s.len())
}

/// `s` without trailing `c`s.
pub open spec fn trim_end(s: Seq<char>, c: char) -> Seq<char>
    decreases s.len(),
{
    if s.len() > 0 && s.last() == c {
        trim_end(s.drop_last(), c)
    } else {
        s
    }
}

/// The chars of line `line`, with its line break.
pub open spec fn line_with_break(s: Seq<char>, line: nat) -> Seq<char> {
    let start = line_start(s, line);
    let end = if line + 1 < line_count(s) { line_start(s, line + 1) } else { s.len() as int };
    s.subrange(start, end)
}

proof fn lemma_fit_from_range(s: Seq<char>, k: int, max: nat)
    requires
        0 <= k <= s.len(),
    ensures
        k <= fit_from(s, k, max) <= s.len(),
    decreases s.len() - k,
{
    if k < s.len() && byte_offset(s, k + 1) <= max {
        lemma_fit_from_range(s, k + 1, max);
    }
}

/// The prefix of `s` that fits in `max` bytes (see `clamp_bytes`).
pub fn clamp_to_bytes(s: &Vec<char>, max: usize) -> (r: (Vec<char>, bool))
    ensures
        r.0@ == clamp_bytes(s@, max as nat).0,
        r.1 == clamp_bytes(s@, max as nat).1,
{
    let mut out: Vec<char> = Vec::new();
    let mut used: usize = 0;
    let mut k: usize = 0;
    proof {
        lemma_fit_from_range(s@, 0, max as nat);
    }
    while k < s.len()
        invariant
            k <= s@.len(),
            used == byte_offset(s@, k as int),
            used <= max,
            out@ == s@.subrange(0, k as int),
            fit_from(s@, 0, max as nat) == fit_from(s@, k as int, max as nat),
        ensures
            k <= s@.len(),
            out@ == s@.subrange(0, k as int),
            fit_from(s@, 0, max as nat) == k,
        decreases s@.len() - k,
    {
        let w = char_utf8_width(s[k]);
        if w > max - used {
            break;
        }
        used = used + w;
        out.push(s[k]);
        k = k + 1;
        proof {
            assert(out@ =~= s@.subrange(0, k as int));
        }
    }
    (out, k < s.len())
}

/// `v` without trailing `c`s.
pub fn trim_end_chars(v: &mut Vec<char>, c: char)
    ensures
        final(v)@ == trim_end(old(v)@, c),
{
    while v.len() > 0 && v[v.len() - 1] == c
        invariant
            trim_end(v@, c) == trim_end(old(v)@, c),
        decreases v@.len(),
    {
        v.pop();
    }
}

/// The line snapshot: the line with its break, cut to the budget, then
/// without trailing `\n` and `\r`.
pub open spec fn line_snapshot(s: Seq<char>, line: nat, max: nat) -> (Seq<char>, bool) {
    let c = clamp_bytes(line_with_break(s, line), max);
    (trim_end(trim_end(c.0, '\n'), '\r'), c.1)
}

/// The text of the line holding char index `idx` (clamped), as a line
/// snapshot.
pub fn line_text(text: &Vec<char>, line: usize, max: usize) -> (r: (Vec<char>, bool))
    requires
        text@.len() < usize::MAX,
        line < line_count(text@),
    ensures
        r.0@ == line_snapshot(text@, line as nat, max as nat).0,
        r.1 == line_snapshot(text@, line as nat, max as nat).1,
{
    let total = len_lines(text);
    let start = line_to_char(text, line);
    let end = if line + 1 < total { line_to_char(text, line + 1) } else { text.len() };
    proof {
        crate::text::lemma_line_start_from_range(text@, 0, line as nat);
        crate::text::lemma_line_start_from_range(text@, 0, (line + 1) as nat);
        crate::text::lemma_line_start_monotone(text@, line as nat);
    }
    let raw = crate::text::slice_of(text, start, end);
    let (mut cut, truncated) = clamp_to_bytes(&raw, max);
    trim_end_chars(&mut cut, '\n');
    trim_end_chars(&mut cut, '\r');
    (cut, truncated)
}

/// A copy of key/value pairs.
pub fn copy_pairs(v: &Vec<(String, String)>) -> (r: Vec<(String, String)>)
    ensures
        r@ == v@,
{
    let mut r: Vec<(String, String)> = Vec::new();
    let mut i: usize = 0;
    while i < v.len()
        invariant
            i <= v@.len(),
            r@ == v@.subrange(0, i as int),
        decreases v@.len() - i,
    {
        let (a, b) = &v[i];
        r.push((a.clone(), b.clone()));
        i = i + 1;
        proof {
            assert(r@ =~= v@.subrange(0, i as int));
        }
    }
    proof {
        assert(v@.subrange(0, v@.len() as int) =~= v@);
    }
    r
}

/// A position as reported to scripts.
pub open spec fn ctx_pos(s: Seq<char>, idx: int) -> NuCtxPosition {
    NuCtxPosition { line: line_col_of(s, idx).0 as usize, col: line_col_of(s, idx).1 as usize }
}

/// The context fields that depend on the focused view (at position `i`)
/// and its document (at position `k`).
pub open spec fn ctx_matches_view(c: NuCtx, b: BufferManager, i: int, k: int, include_text: bool, max: nat) -> bool {
    let view = b.views@[i];
    let doc = b.docs@[k];
    let s = doc.text@;
    let prim = view.selection.primary_spec();
    let active = prim.anchor != prim.head;
    &&& c.mode == view.mode
    &&& c.cursor == ctx_pos(s, view.cursor as int)
    &&& c.selection == (NuCtxSelection {
        active,
        start: ctx_pos(s, rmin(prim) as int),
        end: ctx_pos(s, rmax(prim) as int),
    })
    &&& c.buffer.path == doc.path
    &&& c.buffer.readonly == doc.readonly
    &&& c.buffer.modified == doc.modified
    &&& if include_text && s.len() < usize::MAX {
        let ls = line_snapshot(s, line_col_of(s, view.cursor as int).0, max);
        let lo = if rmin(prim) <= s.len() { rmin(prim) as int } else { s.len() as int };
        let hi = if rmax(prim) <= s.len() { rmax(prim) as int } else { s.len() as int };
        let ss = clamp_bytes(s.subrange(lo, hi), max);
        &&& c.text.line matches Some(l) && l@ == ls.0
        &&& c.text.line_truncated == ls.1
        &&& if active {
            c.text.selection matches Some(t) && t@ == ss.0 && c.text.selection_truncated == ss.1
        } else {
            c.text.selection is None && !c.text.selection_truncated
        }
    } else {
        c.text.line is None && !c.text.line_truncated && c.text.selection is None && !c.text.selection_truncated
    }
}

impl Editor {
    /// The context for a Nu call of `function` (`kind` is "macro" or
    /// "hook"), on the focused view; text snapshots are cut to `max_bytes`.
    /// `file_type` is the buffer's language; `event`, the hook's event, is
    /// carried only when `kind` is "hook".
    pub fn build_nu_ctx(
        &self,
        kind: &String,
        function: &String,
        args: &Vec<String>,
        include_text: bool,
        max_bytes: usize,
        file_type: Option<String>,
        event: Option<NuCtxEvent>,
    ) -> (c: NuCtx)
        requires
            self.core.buffers.wf(),
            self.core.buffers.selections_wf(),
            self.core.buffers.has_view(self.focused_view_spec()),
        ensures
            c.kind@ == kind@,
            c.function@ == function@,
            c.args@ == args@,
            c.view == self.focused_view_spec(),
            c.buffer.file_type == file_type,
            c.event == (if kind@ == "hook"@ { event } else { None }),
            c.state@ == self.core.workspace.nu_state@,
            forall|i: int, k: int|
                0 <= i < self.core.buffers.views@.len() && 0 <= k < self.core.buffers.docs@.len()
                    && #[trigger] self.core.buffers.views@[i].id == self.focused_view_spec()
                    && #[trigger] self.core.buffers.docs@[k].id == self.core.buffers.views@[i].doc
                    ==> ctx_matches_view(c, self.core.buffers, i, k, include_text, max_bytes as nat),
    {
        let fv = self.focused_view();
        let (i, k) = match self.core.buffers.locate(fv) {
            Some(x) => x,
            None => {
                proof {
                    assert(false);
                }
                (0, 0)
            },
        };
        proof {
            let b = self.core.buffers;
            assert forall|i2: int| 0 <= i2 < b.views@.len() && b.views@[i2].id == fv implies i2 == i by {
                if i2 < i {
                    assert(b.views@[i2].id != b.views@[i as int].id);
                } else if i < i2 {
                    assert(b.views@[i as int].id != b.views@[i2].id);
                }
            }
        }
        let view = &self.core.buffers.views[i];
        let doc = &self.core.buffers.docs[k];
        let text = &doc.text;
        proof {
            assert(self.core.buffers.views@[i as int].selection.wf());
        }
        let prim = view.selection.primary();
        let active = prim.anchor != prim.head;
        let (cl, cc) = line_col(text, view.cursor);
        let (sl, sc) = line_col(text, prim.from());
        let (el, ec) = line_col(text, prim.to());
        let snapshot = if include_text && text.len() < usize::MAX {
            proof {
                let c = if view.cursor <= text@.len() { view.cursor as int } else { text@.len() as int };
                crate::text::lemma_nl_count_prefix(text@, c);
            }
            let (line, line_truncated) = line_text(text, cl, max_bytes);
            let (selection, selection_truncated) = if active {
                let lo = if prim.from() <= text.len() { prim.from() } else { text.len() };
                let hi = if prim.to() <= text.len() { prim.to() } else { text.len() };
                let window = crate::text::slice_of(text, lo, hi);
                let (t, tr) = clamp_to_bytes(&window, max_bytes);
                (Some(crate::chars::string_from_chars(t.as_slice())), tr)
            } else {
                (None, false)
            };
            NuCtxText {
                line: Some(crate::chars::string_from_chars(line.as_slice())),
                line_truncated,
                selection,
                selection_truncated,
            }
        } else {
            NuCtxText { line: None, line_truncated: false, selection: None, selection_truncated: false }
        };
        let hook_chars = chars_of("hook");
        proof {
            reveal_strlit("hook");
        }
        let is_hook = same_chars(&chars_of(kind.as_str()), &hook_chars);
        NuCtx {
            kind: kind.clone(),
            function: function.clone(),
            args: copy_strings(args),
            mode: view.mode,
            view: fv,
            cursor: NuCtxPosition { line: cl, col: cc },
            selection: NuCtxSelection {
                active,
                start: NuCtxPosition { line: sl, col: sc },
                end: NuCtxPosition { line: el, col: ec },
            },
            buffer: NuCtxBuffer { path: doc.path.clone(), file_type, readonly: doc.readonly, modified: doc.modified },
            text: snapshot,
            event: if is_hook { event } else { None },
            state: copy_pairs(&self.core.workspace.nu_state),
        }
    }
}

} // verus!
