//! Text transforms planned from the selection: deindent, newline with
//! indent, per-char replacement and delete targets.

use vstd::prelude::*;

use crate::selection::{rmax, rmin, Range, Selection};
use crate::selection_ops::starts_line_of;
use crate::text::{char_to_line, char_to_line_of, lemma_line_start_at, line_start, line_to_char};

verus! {

/// Number of leading chars of `s` from `p` that satisfy the indent class
/// (spaces only, or spaces and tabs), looking at most `max` chars ahead.
pub open spec fn leading_run(s: Seq<char>, p: int, max: nat, tabs: bool) -> nat
    decreases max,
{
    if max == 0 || p < 0 || p >= s.len() {
        0
    } else if s[p] == ' ' || (tabs && s[p] == '\t') {
        1 + leading_run(s, p + 1, (max - 1) as nat, tabs)
    } else {
        0
    }
}

fn count_leading(text: &Vec<char>, p: usize, max: usize, tabs: bool) -> (n: usize)
    requires
        p <= text@.len(),
    ensures
        n == leading_run(text@, p as int, max as nat, tabs),
        n <= max,
        p + n <= text@.len(),
{
    let mut n: usize = 0;
    let len = text.len();
    while n < max && p + n < len && (text[p + n] == ' ' || (tabs && text[p + n] == '\t'))
        invariant
            p + n <= text@.len(),
            len == text@.len(),
            n <= max,
            leading_run(text@, p as int, max as nat, tabs) == n + leading_run(
                text@,
                p + n,
                (max - n) as nat,
                tabs,
            ),
        decreases max - n,
    {
        n = n + 1;
    }
    n
}

/// Deindent plan: the spaces to delete at the start of the cursor's line
/// (`[start, start + spaces)`) and the cursor afterwards.
pub open spec fn deindent_spec(s: Seq<char>, cursor: int, max_spaces: nat) -> Option<(int, int, int)> {
    let c = if cursor <= s.len() { cursor } else { s.len() as int };
    let start = line_start(s, char_to_line(s, c));
    let spaces = leading_run(s, start, max_spaces, false);
    if spaces == 0 {
        None
    } else {
        let end = start + spaces;
        let new_cursor = if cursor > end {
            cursor - spaces
        } else if cursor > start {
            start
        } else {
            cursor
        };
        Some((start, end, new_cursor))
    }
}

/// Removes up to `max_spaces` leading spaces from the cursor's line.
/// Returns `(delete_start, delete_end, new_cursor)`, or `None` when the line
/// does not start with a space.
pub fn deindent_plan(text: &Vec<char>, cursor: usize, max_spaces: usize) -> (r: Option<
    (usize, usize, usize),
>)
    ensures
        match deindent_spec(text@, cursor as int, max_spaces as nat) {
            None => r is None,
            Some((a, b, c)) => r == Some((a as usize, b as usize, c as usize)),
        },
{
    let line = char_to_line_of(text, cursor);
    let start = line_to_char(text, line);
    let spaces = count_leading(text, start, max_spaces, false);
    if spaces == 0 {
        return None;
    }
    proof {
        assert(start + spaces <= text.len());
    }
    let end = start + spaces;
    let new_cursor = if cursor > end {
        cursor - spaces
    } else if cursor > start {
        start
    } else {
        cursor
    };
    Some((start, end, new_cursor))
}

proof fn lemma_leading_run_props(s: Seq<char>, p: int, max: nat, tabs: bool)
    requires
        0 <= p <= s.len(),
    ensures
        ({
            let n = leading_run(s, p, max, tabs);
            &&& n <= max
            &&& p + n <= s.len()
            &&& forall|i: int| p <= i < p + n ==> s[i] == ' ' || (tabs && s[i] == '\t')
            &&& n == max || p + n == s.len() || !(s[p + n] == ' ' || (tabs && s[p + n] == '\t'))
        }),
    decreases max,
{
    if max > 0 && p < s.len() && (s[p] == ' ' || (tabs && s[p] == '\t')) {
        lemma_leading_run_props(s, p + 1, (max - 1) as nat, tabs);
    }
}

/// The start of the line holding a position is the only position that
/// starts that line.
proof fn lemma_line_start_unique(s: Seq<char>, c: int, q: int, q2: int)
    requires
        starts_line_of(s, c, q),
        starts_line_of(s, c, q2),
    ensures
        q == q2,
{
    if q < q2 {
        assert(s[q2 - 1] == '\n');
    } else if q2 < q {
        assert(s[q - 1] == '\n');
    }
}

/// Deindenting removes the run of spaces (at most `max_spaces` of them)
/// that starts the cursor's line, and the cursor stays on the same char:
/// past the run it moves back by the run's length, inside the run it goes
/// to the run's start, and it stays inside the shortened text. Nothing is
/// planned when the line does not start with a space.
pub proof fn law_deindent(s: Seq<char>, cursor: nat, max_spaces: nat)
    requires
        cursor <= s.len(),
    ensures
        match deindent_spec(s, cursor as int, max_spaces) {
            None => forall|q: int| starts_line_of(s, cursor as int, q) ==> max_spaces == 0 || q == s.len() || s[q] != ' ',
            Some((a, b, nc)) => {
                &&& starts_line_of(s, cursor as int, a)
                &&& a < b <= s.len()
                &&& b - a <= max_spaces
                &&& forall|i: int| a <= i < b ==> s[i] == ' '
                &&& b - a == max_spaces || b == s.len() || s[b] != ' '
                &&& cursor >= b ==> nc == cursor - (b - a)
                &&& a <= cursor < b ==> nc == a
                &&& 0 <= nc <= s.len() - (b - a)
            },
        },
{
    let c = cursor as int;
    lemma_line_start_at(s, c);
    let start = line_start(s, char_to_line(s, c));
    lemma_leading_run_props(s, start, max_spaces, false);
    assert forall|q: int| starts_line_of(s, c, q) implies q == start by {
        lemma_line_start_unique(s, c, q, start);
    }
}

/// The indentation (spaces and tabs) at the start of the cursor's line.
pub open spec fn line_indent(s: Seq<char>, cursor: int) -> Seq<char> {
    let c = if cursor <= s.len() { cursor } else { s.len() as int };
    let start = line_start(s, char_to_line(s, c));
    s.subrange(start, start + leading_run(s, start, s.len(), true))
}

/// Text inserted by "newline with indent": a line break followed by the
/// indentation of the cursor's line.
pub fn newline_with_indent_text(text: &Vec<char>, cursor: usize) -> (r: Vec<char>)
    ensures
        r@ == seq!['\n'] + line_indent(text@, cursor as int),
{
    let line = char_to_line_of(text, cursor);
    let start = line_to_char(text, line);
    let n = count_leading(text, start, text.len(), true);
    let mut r: Vec<char> = Vec::new();
    r.push('\n');
    let mut i: usize = 0;
    let len = text.len();
    while i < n
        invariant
            i <= n,
            len == text@.len(),
            start + n <= text@.len(),
            r@ == seq!['\n'] + text@.subrange(start as int, start + i),
        decreases n - i,
    {
        r.push(text[start + i]);
        i = i + 1;
        proof {
            assert(r@ =~= seq!['\n'] + text@.subrange(start as int, start + i));
        }
    }
    r
}

/// A newline with indent is a line break followed by a copy of the whole
/// run of spaces and tabs that starts the cursor's line (a cursor past the
/// end counts as the end): the copy begins at that line's start and ends
/// at the first char that is neither a space nor a tab, or at the end of
/// the text.
pub proof fn law_newline_with_indent(s: Seq<char>, cursor: nat)
    ensures
        ({
            let c = if cursor <= s.len() { cursor as int } else { s.len() as int };
            let r = seq!['\n'] + line_indent(s, cursor as int);
            let a = line_start(s, char_to_line(s, c));
            let b = a + r.len() - 1;
            &&& starts_line_of(s, c, a)
            &&& a <= b <= s.len()
            &&& r == seq!['\n'] + s.subrange(a, b)
            &&& forall|i: int| a <= i < b ==> s[i] == ' ' || s[i] == '\t'
            &&& b == s.len() || (s[b] != ' ' && s[b] != '\t')
        }),
{
    let c = if cursor <= s.len() { cursor as int } else { s.len() as int };
    lemma_line_start_at(s, c);
    let a = line_start(s, char_to_line(s, c));
    lemma_leading_run_props(s, a, s.len(), true);
    let r = seq!['\n'] + line_indent(s, cursor as int);
    let b = a + leading_run(s, a, s.len(), true);
    assert(r == seq!['\n'] + s.subrange(a, b));
    assert(r.len() == 1 + (b - a));
}

/// Replacement plan for "replace each char": how many copies of the char to
/// write and the selection to replace. An empty primary range replaces the
/// single char at its start.
pub fn replace_each_char_plan(sel: &Selection, len: usize) -> (r: (usize, Selection))
    requires
        sel.wf(),
    ensures
        r.1.wf(),
        rmin(sel.primary_spec()) < rmax(sel.primary_spec()) ==> r.0 == rmax(sel.primary_spec())
            - rmin(sel.primary_spec()) && r.1.ranges@ == sel.ranges@ && r.1.primary_index
            == sel.primary_index,
        rmin(sel.primary_spec()) >= rmax(sel.primary_spec()) ==> r.0 == 1 && r.1.primary_index
            == 0 && r.1.ranges@ == seq![
            Range {
                anchor: rmin(sel.primary_spec()),
                head: if rmin(sel.primary_spec()) + 1 <= len {
                    (rmin(sel.primary_spec()) + 1) as usize
                } else {
                    len
                },
            },
        ],
{
    let primary = sel.primary();
    let from = primary.from();
    let to = primary.to();
    if from < to {
        (to - from, sel.duplicate())
    } else {
        let head = if from < len { from + 1 } else { len };
        (1, Selection::single(from, head))
    }
}

/// Selection a delete acts on: a primary range starting at or past the end
/// of a non-empty text is replaced by the last char.
pub fn delete_target(sel: &Selection, len: usize) -> (r: Selection)
    requires
        sel.wf(),
    ensures
        r.wf(),
        (rmin(sel.primary_spec()) >= len && len > 0) ==> r.ranges@ == seq![
            Range { anchor: (len - 1) as usize, head: (len - 1) as usize },
        ] && r.primary_index == 0,
        !(rmin(sel.primary_spec()) >= len && len > 0) ==> r.ranges@ == sel.ranges@
            && r.primary_index == sel.primary_index,
{
    if sel.primary().from() >= len && len > 0 {
        Selection::single(len - 1, len - 1)
    } else {
        sel.duplicate()
    }
}

} // verus!
