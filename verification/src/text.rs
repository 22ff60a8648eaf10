//! Line structure of document text and position arithmetic over it.
//!
//! Document text is a sequence of chars with `\n` line breaks (content is
//! normalized to LF when loaded). Line `k` starts after the `k`-th break.

use vstd::prelude::*;

verus! {

/// Number of `\n` in `s`.
pub open spec fn nl_count(s: Seq<char>) -> nat
    decreases s.len(),
{
    if s.len() == 0 {
        0
    } else {
        nl_count(s.drop_last()) + if s.last() == '\n' { 1nat } else { 0nat }
    }
}

/// Number of lines: one more than the number of line breaks.
pub open spec fn line_count(s: Seq<char>) -> nat {
    nl_count(s) + 1
}

/// Line containing char index `i` (the number of breaks before it).
pub open spec fn char_to_line(s: Seq<char>, i: int) -> nat {
    nl_count(s.subrange(0, i))
}

/// Start of the `k`-th line at or after `p`, scanning from `p`.
pub open spec fn line_start_from(s: Seq<char>, p: int, k: nat) -> int
    decreases s.len() - p, k,
{
    if k == 0 {
        p
    } else if p >= s.len() || p < 0 {
        s.len() as int
    } else if s[p] == '\n' {
        line_start_from(s, p + 1, (k - 1) as nat)
    } else {
        line_start_from(s, p + 1, k)
    }
}

/// Char index at which line `k` starts (`s.len()` past the last line).
pub open spec fn line_start(s: Seq<char>, k: nat) -> int {
    line_start_from(s, 0, k)
}

/// Length of the line content starting at `p`, up to (excluding) the next
/// `\n` or the end of the text.
pub open spec fn line_content_len(s: Seq<char>, p: int) -> nat
    decreases s.len() - p,
{
    if p < 0 || p >= s.len() || s[p] == '\n' {
        0
    } else {
        1 + line_content_len(s, p + 1)
    }
}

pub proof fn lemma_nl_count_push(s: Seq<char>, i: int)
    requires
        0 <= i < s.len(),
    ensures
        nl_count(s.subrange(0, i + 1)) == nl_count(s.subrange(0, i)) + if s[i] == '\n' {
            1nat
        } else {
            0nat
        },
{
    assert(s.subrange(0, i + 1).drop_last() =~= s.subrange(0, i));
}

pub proof fn lemma_nl_count_le(s: Seq<char>)
    ensures
        nl_count(s) <= s.len(),
    decreases s.len(),
{
    if s.len() > 0 {
        lemma_nl_count_le(s.drop_last());
    }
}

pub proof fn lemma_line_start_from_range(s: Seq<char>, p: int, k: nat)
    requires
        0 <= p <= s.len(),
    ensures
        p <= line_start_from(s, p, k) <= s.len(),
    decreases s.len() - p, k,
{
    if k == 0 {
    } else if p >= s.len() {
    } else if s[p] == '\n' {
        lemma_line_start_from_range(s, p + 1, (k - 1) as nat);
    } else {
        lemma_line_start_from_range(s, p + 1, k);
    }
}

/// The breaks of `s[p..h]` are those of its first char and of `s[p+1..h]`.
pub proof fn lemma_nl_count_front(s: Seq<char>, p: int, h: int)
    requires
        0 <= p < h <= s.len(),
    ensures
        nl_count(s.subrange(p, h)) == nl_count(s.subrange(p + 1, h)) + if s[p] == '\n' {
            1nat
        } else {
            0nat
        },
    decreases h - p,
{
    if h == p + 1 {
        assert(s.subrange(p, h).drop_last() =~= Seq::<char>::empty());
        assert(s.subrange(p + 1, h) =~= Seq::<char>::empty());
    } else {
        lemma_nl_count_front(s, p, h - 1);
        assert(s.subrange(p, h).drop_last() =~= s.subrange(p, h - 1));
        assert(s.subrange(p + 1, h).drop_last() =~= s.subrange(p + 1, h - 1));
    }
}

/// A text without breaks holds no `\n`.
pub proof fn lemma_nl_count_zero(x: Seq<char>)
    requires
        nl_count(x) == 0,
    ensures
        forall|i: int| 0 <= i < x.len() ==> x[i] != '\n',
    decreases x.len(),
{
    if x.len() > 0 {
        lemma_nl_count_zero(x.drop_last());
        assert forall|i: int| 0 <= i < x.len() implies x[i] != '\n' by {
            if i < x.len() - 1 {
                assert(x[i] == x.drop_last()[i]);
            }
        }
    }
}

/// Scanning from `p` for as many breaks as `s[p..h]` holds stops after the
/// last break before `h` (or at `p` when there is none), with no break
/// between the stop and `h`.
proof fn lemma_line_start_from_props(s: Seq<char>, p: int, h: int)
    requires
        0 <= p <= h <= s.len(),
    ensures
        ({
            let k = nl_count(s.subrange(p, h));
            let q = line_start_from(s, p, k);
            &&& p <= q <= h
            &&& k == 0 ==> q == p
            &&& k > 0 ==> q > p && s[q - 1] == '\n'
            &&& forall|i: int| q <= i < h ==> s[i] != '\n'
        }),
    decreases h - p,
{
    let k = nl_count(s.subrange(p, h));
    if p == h {
        assert(s.subrange(p, h) =~= Seq::<char>::empty());
    } else {
        lemma_nl_count_front(s, p, h);
        lemma_line_start_from_props(s, p + 1, h);
        if k == 0 {
            lemma_nl_count_zero(s.subrange(p, h));
            assert forall|i: int| p <= i < h implies s[i] != '\n' by {
                assert(s.subrange(p, h)[i - p] == s[i]);
            }
        }
    }
}

/// The start of the line holding position `h`: right after the last break
/// before `h` (or 0), with no break between it and `h`.
pub proof fn lemma_line_start_at(s: Seq<char>, h: int)
    requires
        0 <= h <= s.len(),
    ensures
        ({
            let q = line_start(s, char_to_line(s, h));
            &&& 0 <= q <= h
            &&& q == 0 || s[q - 1] == '\n'
            &&& forall|i: int| q <= i < h ==> s[i] != '\n'
        }),
{
    lemma_line_start_from_props(s, 0, h);
}

/// The content of the line from `p` runs to the next break or the end.
pub proof fn lemma_line_content_len_props(s: Seq<char>, p: int)
    requires
        0 <= p <= s.len(),
    ensures
        p + line_content_len(s, p) <= s.len(),
        forall|i: int| p <= i < p + line_content_len(s, p) ==> s[i] != '\n',
        p + line_content_len(s, p) == s.len() || s[p + line_content_len(s, p)] == '\n',
    decreases s.len() - p,
{
    if p < s.len() && s[p] != '\n' {
        lemma_line_content_len_props(s, p + 1);
    }
}

/// A text without `\n` has no breaks.
pub proof fn lemma_nl_count_none(x: Seq<char>)
    requires
        forall|i: int| 0 <= i < x.len() ==> x[i] != '\n',
    ensures
        nl_count(x) == 0,
    decreases x.len(),
{
    if x.len() > 0 {
        assert forall|i: int| 0 <= i < x.drop_last().len() implies x.drop_last()[i] != '\n' by {
            assert(x.drop_last()[i] == x[i]);
        }
        lemma_nl_count_none(x.drop_last());
    }
}

/// Breaks before `h` are those before `m` and those between `m` and `h`.
pub proof fn lemma_nl_count_split(s: Seq<char>, m: int, h: int)
    requires
        0 <= m <= h <= s.len(),
    ensures
        nl_count(s.subrange(0, h)) == nl_count(s.subrange(0, m)) + nl_count(s.subrange(m, h)),
    decreases h - m,
{
    if h == m {
        assert(s.subrange(m, h) =~= Seq::<char>::empty());
    } else {
        lemma_nl_count_split(s, m, h - 1);
        lemma_nl_count_push(s, h - 1);
        assert(s.subrange(m, h).drop_last() =~= s.subrange(m, h - 1));
    }
}

/// Scanning for one more break than `s[p..h]` holds ends where scanning
/// from `h` for one break does.
proof fn lemma_line_start_from_next(s: Seq<char>, p: int, h: int)
    requires
        0 <= p <= h <= s.len(),
    ensures
        line_start_from(s, p, nl_count(s.subrange(p, h)) + 1) == line_start_from(s, h, 1),
    decreases h - p,
{
    if p == h {
        assert(s.subrange(p, h) =~= Seq::<char>::empty());
    } else {
        lemma_nl_count_front(s, p, h);
        lemma_line_start_from_next(s, p + 1, h);
    }
}

/// Scanning from `h` for one break stops just after the first break at or
/// after `h`, or at the end of the text when there is none.
proof fn lemma_line_start_from_one(s: Seq<char>, h: int)
    requires
        0 <= h <= s.len(),
    ensures
        h + line_content_len(s, h) < s.len() ==> line_start_from(s, h, 1) == h + line_content_len(s, h) + 1,
        h + line_content_len(s, h) >= s.len() ==> line_start_from(s, h, 1) == s.len(),
    decreases s.len() - h,
{
    if h < s.len() && s[h] != '\n' {
        lemma_line_start_from_one(s, h + 1);
    } else if h < s.len() {
        assert(line_start_from(s, h + 1, 0) == h + 1);
        assert(line_content_len(s, h) == 0);
    }
}

/// The start of the line after the one holding `h`: just past the first
/// break at or after `h`, when there is one.
pub proof fn lemma_next_line_start_at(s: Seq<char>, h: int)
    requires
        0 <= h <= s.len(),
    ensures
        char_to_line(s, h) + 1 < line_count(s) <==> exists|i: int| h <= i < s.len() && s[i] == '\n',
        char_to_line(s, h) + 1 < line_count(s) ==> ({
            let q = line_start(s, char_to_line(s, h) + 1);
            &&& h < q <= s.len()
            &&& s[q - 1] == '\n'
            &&& forall|i: int| h <= i < q - 1 ==> s[i] != '\n'
        }),
{
    lemma_nl_count_split(s, h, s.len() as int);
    assert(s.subrange(0, s.len() as int) =~= s);
    lemma_line_start_from_next(s, 0, h);
    lemma_line_start_from_one(s, h);
    lemma_line_content_len_props(s, h);
    let e = h + line_content_len(s, h);
    if exists|i: int| h <= i < s.len() && s[i] == '\n' {
        let i = choose|i: int| h <= i < s.len() && s[i] == '\n';
        assert(e < s.len());
        if nl_count(s.subrange(h, s.len() as int)) == 0 {
            lemma_nl_count_zero(s.subrange(h, s.len() as int));
            assert(s.subrange(h, s.len() as int)[i - h] == s[i]);
        }
    } else {
        assert forall|i: int| 0 <= i < s.subrange(h, s.len() as int).len() implies s.subrange(h, s.len() as int)[i]
            != '\n' by {
            assert(s.subrange(h, s.len() as int)[i] == s[h + i]);
        }
        lemma_nl_count_none(s.subrange(h, s.len() as int));
    }
}

/// A prefix holds no more line breaks than the whole text.
pub proof fn lemma_nl_count_prefix(s: Seq<char>, i: int)
    requires
        0 <= i <= s.len(),
    ensures
        nl_count(s.subrange(0, i)) <= nl_count(s),
    decreases s.len() - i,
{
    if i == s.len() {
        assert(s.subrange(0, i) =~= s);
    } else {
        lemma_nl_count_push(s, i);
        lemma_nl_count_prefix(s, i + 1);
    }
}

/// Later lines start no earlier.
pub proof fn lemma_line_start_from_monotone(s: Seq<char>, p: int, k: nat)
    requires
        0 <= p <= s.len(),
    ensures
        line_start_from(s, p, k) <= line_start_from(s, p, k + 1),
    decreases s.len() - p, k,
{
    if k == 0 {
        lemma_line_start_from_range(s, p, 1);
    } else if p >= s.len() {
    } else if s[p] == '\n' {
        lemma_line_start_from_monotone(s, p + 1, (k - 1) as nat);
    } else {
        lemma_line_start_from_monotone(s, p + 1, k);
    }
}

/// Line `k + 1` starts no earlier than line `k`.
pub proof fn lemma_line_start_monotone(s: Seq<char>, k: nat)
    ensures
        line_start(s, k) <= line_start(s, k + 1),
{
    lemma_line_start_from_monotone(s, 0, k);
}

/// Index of the start of line `k`, scanning the text (for `k` within range,
/// the text length otherwise).
pub fn line_to_char(text: &Vec<char>, k: usize) -> (p: usize)
    ensures
        p == line_start(text@, k as nat),
        p <= text@.len(),
{
    let mut p: usize = 0;
    let mut remaining: usize = k;
    proof {
        lemma_line_start_from_range(text@, 0, k as nat);
    }
    while remaining > 0 && p < text.len()
        invariant
            p <= text@.len(),
            line_start_from(text@, p as int, remaining as nat) == line_start(text@, k as nat),
        decreases text@.len() - p,
    {
        if text[p] == '\n' {
            remaining = remaining - 1;
        }
        p = p + 1;
    }
    if remaining > 0 {
        p = text.len();
    }
    p
}

/// Line containing char index `i` (clamped to the text length).
pub fn char_to_line_of(text: &Vec<char>, i: usize) -> (line: usize)
    ensures
        line == char_to_line(text@, if i <= text@.len() { i as int } else { text@.len() as int }),
{
    let end = if i <= text.len() { i } else { text.len() };
    let mut line: usize = 0;
    let mut p: usize = 0;
    while p < end
        invariant
            end <= text@.len(),
            p <= end,
            line == nl_count(text@.subrange(0, p as int)),
            line <= p,
        decreases end - p,
    {
        proof {
            lemma_nl_count_push(text@, p as int);
        }
        if text[p] == '\n' {
            line = line + 1;
        }
        p = p + 1;
    }
    line
}

/// Number of lines of the text.
pub fn len_lines(text: &Vec<char>) -> (n: usize)
    requires
        text@.len() < usize::MAX,
    ensures
        n == line_count(text@),
{
    let l = char_to_line_of(text, text.len());
    proof {
        assert(text@.subrange(0, text@.len() as int) =~= text@);
        lemma_nl_count_le(text@);
    }
    l + 1
}

/// Length of the content of the line starting at `p` (without its break).
pub fn line_content_len_at(text: &Vec<char>, p: usize) -> (n: usize)
    requires
        p <= text@.len(),
    ensures
        n == line_content_len(text@, p as int),
        p + n <= text@.len(),
{
    let mut q: usize = p;
    while q < text.len() && text[q] != '\n'
        invariant
            p <= q <= text@.len(),
            line_content_len(text@, p as int) == (q - p) + line_content_len(text@, q as int),
        decreases text@.len() - q,
    {
        q = q + 1;
    }
    q - p
}

/// Cursor target for moving to (`line`, `column`), both zero-based: the line
/// is clamped to the last line and the column to the line's content length.
pub open spec fn goto_target(s: Seq<char>, line: nat, column: nat) -> int {
    let target_line = if line < nl_count(s) { line } else { nl_count(s) };
    let start = line_start(s, target_line);
    let content = line_content_len(s, start);
    start + if column < content { column } else { content }
}

/// Char index of (`line`, `column`) with clamping (see [`goto_target`]).
pub fn line_col_to_char(text: &Vec<char>, line: usize, column: usize) -> (pos: usize)
    ensures
        pos == goto_target(text@, line as nat, column as nat),
        pos <= text@.len(),
{
    let nls = char_to_line_of(text, text.len());
    proof {
        assert(text@.subrange(0, text@.len() as int) =~= text@);
    }
    let target_line = if line < nls { line } else { nls };
    let start = line_to_char(text, target_line);
    let content = line_content_len_at(text, start);
    let col = if column < content { column } else { content };
    start + col
}

/// Line and column (zero-based) of char index `idx`, clamped to the text.
pub open spec fn line_col_of(s: Seq<char>, idx: int) -> (nat, int) {
    let clamped = if idx <= s.len() { idx } else { s.len() as int };
    let line = char_to_line(s, clamped);
    let col = clamped - line_start(s, line);
    (line, if col > 0 { col } else { 0 })
}

/// Line and column of a char index, as reported in the Nu invocation context.
pub fn line_col(text: &Vec<char>, idx: usize) -> (r: (usize, usize))
    ensures
        r.0 == line_col_of(text@, idx as int).0,
        r.1 == line_col_of(text@, idx as int).1,
{
    let clamped = if idx <= text.len() { idx } else { text.len() };
    let line = char_to_line_of(text, clamped);
    let start = line_to_char(text, line);
    let col = if clamped > start { clamped - start } else { 0 };
    (line, col)
}

} // verus!

verus! {

/// Leftmost index such that every char from it up to `p` is a word char.
pub open spec fn word_run_start(s: Seq<char>, p: int) -> int
    decreases p,
{
    if p > 0 && p <= s.len() && crate::chars::is_word_spec(s[p - 1]) {
        word_run_start(s, p - 1)
    } else {
        p
    }
}

/// Rightmost index such that every char from `p` up to it is a word char.
pub open spec fn word_run_end(s: Seq<char>, p: int) -> int
    decreases s.len() - p,
{
    if 0 <= p < s.len() && crate::chars::is_word_spec(s[p]) {
        word_run_end(s, p + 1)
    } else {
        p
    }
}

/// The word around a cursor: the maximal run of word chars touching the
/// (clamped) cursor position on either side.
pub open spec fn word_at(s: Seq<char>, cursor: int) -> Seq<char> {
    let p = if cursor <= s.len() { cursor } else { s.len() as int };
    s.subrange(word_run_start(s, p), word_run_end(s, p))
}

proof fn lemma_word_run_start_range(s: Seq<char>, p: int)
    requires
        0 <= p <= s.len(),
    ensures
        0 <= word_run_start(s, p) <= p,
    decreases p,
{
    if p > 0 && crate::chars::is_word_spec(s[p - 1]) {
        lemma_word_run_start_range(s, p - 1);
    }
}

proof fn lemma_word_run_end_range(s: Seq<char>, p: int)
    requires
        0 <= p <= s.len(),
    ensures
        p <= word_run_end(s, p) <= s.len(),
    decreases s.len() - p,
{
    if p < s.len() && crate::chars::is_word_spec(s[p]) {
        lemma_word_run_end_range(s, p + 1);
    }
}

proof fn lemma_word_run_start_props(s: Seq<char>, p: int)
    requires
        0 <= p <= s.len(),
    ensures
        0 <= word_run_start(s, p) <= p,
        forall|i: int| word_run_start(s, p) <= i < p ==> crate::chars::is_word_spec(#[trigger] s[i]),
        word_run_start(s, p) == 0 || !crate::chars::is_word_spec(s[word_run_start(s, p) - 1]),
    decreases p,
{
    if p > 0 && crate::chars::is_word_spec(s[p - 1]) {
        lemma_word_run_start_props(s, p - 1);
    }
}

proof fn lemma_word_run_end_props(s: Seq<char>, p: int)
    requires
        0 <= p <= s.len(),
    ensures
        p <= word_run_end(s, p) <= s.len(),
        forall|i: int| p <= i < word_run_end(s, p) ==> crate::chars::is_word_spec(#[trigger] s[i]),
        word_run_end(s, p) == s.len() || !crate::chars::is_word_spec(s[word_run_end(s, p)]),
    decreases s.len() - p,
{
    if p < s.len() && crate::chars::is_word_spec(s[p]) {
        lemma_word_run_end_props(s, p + 1);
    }
}

/// The word at a cursor (clamped to the text) is the maximal run of word
/// chars around it: it lies between a start and an end that enclose the
/// cursor, holds only word chars, and cannot be extended on either side;
/// it is empty exactly when neither the char before nor the char after the
/// cursor is a word char.
pub proof fn law_word_at_is_maximal_run(s: Seq<char>, cursor: nat)
    ensures
        ({
            let p = if cursor <= s.len() { cursor as int } else { s.len() as int };
            let st = word_run_start(s, p);
            let en = word_run_end(s, p);
            &&& 0 <= st <= p <= en <= s.len()
            &&& word_at(s, cursor as int) == s.subrange(st, en)
            &&& forall|i: int| st <= i < en ==> crate::chars::is_word_spec(#[trigger] s[i])
            &&& st == 0 || !crate::chars::is_word_spec(s[st - 1])
            &&& en == s.len() || !crate::chars::is_word_spec(s[en])
            &&& (word_at(s, cursor as int).len() == 0 <==> (p == 0 || !crate::chars::is_word_spec(s[p - 1])) && (
            p == s.len() || !crate::chars::is_word_spec(s[p])))
        }),
{
    let p = if cursor <= s.len() { cursor as int } else { s.len() as int };
    lemma_word_run_start_props(s, p);
    lemma_word_run_end_props(s, p);
    let st = word_run_start(s, p);
    let en = word_run_end(s, p);
    if p > 0 && crate::chars::is_word_spec(s[p - 1]) {
        assert(st < p) by {
            if st == p {
                assert(st == 0 || !crate::chars::is_word_spec(s[st - 1]));
            }
        }
    }
    if p < s.len() && crate::chars::is_word_spec(s[p]) {
        assert(en > p) by {
            if en == p {
                assert(en == s.len() || !crate::chars::is_word_spec(s[en]));
            }
        }
    }
}

/// The word under the cursor (letters, digits and `_`), or an empty string.
pub fn word_at_cursor(text: &Vec<char>, cursor: usize) -> (w: String)
    ensures
        w@ == word_at(text@, cursor as int),
{
    let p = if cursor <= text.len() { cursor } else { text.len() };
    let mut start = p;
    let mut end = p;
    while start > 0 && crate::chars::is_word_char(text[start - 1])
        invariant
            start <= p <= text@.len(),
            word_run_start(text@, start as int) == word_run_start(text@, p as int),
        decreases start,
    {
        start = start - 1;
    }
    while end < text.len() && crate::chars::is_word_char(text[end])
        invariant
            p <= end <= text@.len(),
            word_run_end(text@, end as int) == word_run_end(text@, p as int),
        decreases text@.len() - end,
    {
        end = end + 1;
    }
    if start >= end {
        proof {
            assert(text@.subrange(start as int, end as int) =~= Seq::<char>::empty());
        }
        return crate::chars::string_from_chars(&[]);
    }
    let slice = slice_of(text, start, end);
    crate::chars::string_from_chars(slice.as_slice())
}

/// A copy of `text[from..to]`.
pub fn slice_of(text: &Vec<char>, from: usize, to: usize) -> (r: Vec<char>)
    requires
        from <= to <= text@.len(),
    ensures
        r@ == text@.subrange(from as int, to as int),
{
    let mut r: Vec<char> = Vec::new();
    let mut i = from;
    while i < to
        invariant
            from <= i <= to <= text@.len(),
            r@ == text@.subrange(from as int, i as int),
        decreases to - i,
    {
        r.push(text[i]);
        i = i + 1;
        proof {
            assert(r@ =~= text@.subrange(from as int, i as int));
        }
    }
    r
}

/// Line endings normalized to `\n`: each `\r\n` pair and each lone `\r`
/// becomes one `\n`.
pub open spec fn lf_normalized(s: Seq<char>) -> Seq<char>
    decreases s.len(),
{
    if s.len() == 0 {
        Seq::empty()
    } else if s[0] == '\r' && s.len() > 1 && s[1] == '\n' {
        seq!['\n'] + lf_normalized(s.subrange(2, s.len() as int))
    } else if s[0] == '\r' {
        seq!['\n'] + lf_normalized(s.subrange(1, s.len() as int))
    } else {
        seq![s[0]] + lf_normalized(s.subrange(1, s.len() as int))
    }
}

/// Normalizes line endings to `\n` (see `lf_normalized`).
pub fn normalize_to_lf(text: &Vec<char>) -> (r: Vec<char>)
    ensures
        r@ == lf_normalized(text@),
{
    let mut out: Vec<char> = Vec::new();
    let mut i: usize = 0;
    proof {
        assert(text@.subrange(0, text@.len() as int) =~= text@);
        assert(out@ + lf_normalized(text@) =~= lf_normalized(text@));
    }
    while i < text.len()
        invariant
            i <= text@.len(),
            out@ + lf_normalized(text@.subrange(i as int, text@.len() as int)) == lf_normalized(text@),
        decreases text@.len() - i,
    {
        let ghost rest = text@.subrange(i as int, text@.len() as int);
        if text[i] == '\r' {
            out.push('\n');
            if i + 1 < text.len() && text[i + 1] == '\n' {
                proof {
                    assert(rest.subrange(2, rest.len() as int) =~= text@.subrange(i + 2, text@.len() as int));
                    assert(out@ + lf_normalized(text@.subrange(i + 2, text@.len() as int)) =~= out@.drop_last()
                        + (seq!['\n'] + lf_normalized(rest.subrange(2, rest.len() as int))));
                }
                i = i + 2;
            } else {
                proof {
                    assert(rest.subrange(1, rest.len() as int) =~= text@.subrange(i + 1, text@.len() as int));
                    assert(out@ + lf_normalized(text@.subrange(i + 1, text@.len() as int)) =~= out@.drop_last()
                        + (seq!['\n'] + lf_normalized(rest.subrange(1, rest.len() as int))));
                }
                i = i + 1;
            }
        } else {
            out.push(text[i]);
            proof {
                assert(rest.subrange(1, rest.len() as int) =~= text@.subrange(i + 1, text@.len() as int));
                assert(out@ + lf_normalized(text@.subrange(i + 1, text@.len() as int)) =~= out@.drop_last()
                    + (seq![rest[0]] + lf_normalized(rest.subrange(1, rest.len() as int))));
            }
            i = i + 1;
        }
    }
    proof {
        assert(text@.subrange(i as int, text@.len() as int) =~= Seq::<char>::empty());
        assert(out@ + Seq::<char>::empty() =~= out@);
    }
    out
}

} // verus!
