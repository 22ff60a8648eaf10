//! Regex search over document text: compiling patterns, finding the next and
//! previous match as char ranges, and testing text against a pattern.
//!
//! The `regex` crate works on UTF-8 byte offsets; text here is a sequence of
//! chars, so offsets are converted with each char's UTF-8 width.

use vstd::prelude::*;

use crate::chars::string_from_chars;

verus! {

#[verifier::external_type_specification]
#[verifier::external_body]
pub struct ExRegex(regex::Regex);

/// Whether `regex::Regex::new` accepts the pattern.
pub uninterp spec fn regex_compiles(pattern: Seq<char>) -> bool;

/// The text (`Display`) of the error `regex::Regex::new` gives for a
/// pattern it refuses.
pub uninterp spec fn regex_error_message(pattern: Seq<char>) -> Seq<char>;

/// The byte span `regex::Regex::find_at` reports for the pattern, the
/// haystack and the start offset.
pub uninterp spec fn regex_find_from(pattern: Seq<char>, haystack: Seq<char>, start: nat) -> Option<(nat, nat)>;

/// Whether `regex::Regex::is_match` finds the pattern in the haystack.
pub uninterp spec fn regex_is_match(pattern: Seq<char>, haystack: Seq<char>) -> bool;

/// Number of bytes of the UTF-8 encoding of `c`.
pub open spec fn utf8_width(c: char) -> nat {
    if (c as u32) < 0x80 {
        1
    } else if (c as u32) < 0x800 {
        2
    } else if (c as u32) < 0x10000 {
        3
    } else {
        4
    }
}

/// Byte offset of char index `i` in the UTF-8 encoding of `s`.
pub open spec fn byte_offset(s: Seq<char>, i: int) -> nat
    decreases i,
{
    if i <= 0 {
        0
    } else {
        byte_offset(s, i - 1) + utf8_width(s[i - 1])
    }
}

/// Length of the UTF-8 encoding of `s`.
pub open spec fn utf8_len(s: Seq<char>) -> nat {
    byte_offset(s, s.len() as int)
}

/// `b` is the byte offset of some char index of `s` (or of its end).
pub open spec fn char_boundary(s: Seq<char>, b: nat) -> bool {
    exists|i: int| 0 <= i <= s.len() && byte_offset(s, i) == b
}

/// Byte offsets grow strictly with the char index.
pub proof fn lemma_byte_offset_increasing(s: Seq<char>, i: int, j: int)
    requires
        0 <= i < j,
    ensures
        byte_offset(s, i) < byte_offset(s, j),
    decreases j - i,
{
    if j - 1 > i {
        lemma_byte_offset_increasing(s, i, j - 1);
    }
}

/// Two char indices with the same byte offset are the same.
pub proof fn lemma_byte_offset_injective(s: Seq<char>, i: int, j: int)
    requires
        0 <= i,
        0 <= j,
        byte_offset(s, i) == byte_offset(s, j),
    ensures
        i == j,
{
    if i < j {
        lemma_byte_offset_increasing(s, i, j);
    } else if j < i {
        lemma_byte_offset_increasing(s, j, i);
    }
}

/// The char index whose byte offset is `b` (meaningful on a boundary).
pub open spec fn char_index_at(s: Seq<char>, b: nat) -> int {
    choose|i: int| 0 <= i <= s.len() && byte_offset(s, i) == b
}

/// Calls `regex::Regex::new`: it succeeds exactly when the pattern is one
/// it accepts, as named by `regex_compiles`; a refusal is given as the
/// error's text (`to_string`), as named by `regex_error_message`.
#[verifier::external_body]
fn regex_new(pattern: &str) -> (r: Result<regex::Regex, String>)
    ensures
        r is Ok <==> regex_compiles(pattern@),
        r matches Err(m) ==> m@ == regex_error_message(pattern@),
{
    regex::Regex::new(pattern).map_err(|e| e.to_string())
}

/// A pattern and the regex compiled from it.
#[derive(Debug)]
pub struct SearchRegex {
    pattern: String,
    re: regex::Regex,
}

impl SearchRegex {
    pub closed spec fn pattern_spec(&self) -> Seq<char> {
        self.pattern@
    }

    /// Compiles `pattern`; the error is the regex crate's message.
    pub fn compile(pattern: &String) -> (r: Result<SearchRegex, String>)
        ensures
            r is Ok <==> regex_compiles(pattern@),
            r matches Ok(s) ==> s.pattern_spec() == pattern@,
            r matches Err(m) ==> m@ == regex_error_message(pattern@),
    {
        match regex_new(pattern.as_str()) {
            Ok(re) => Ok(SearchRegex { pattern: pattern.clone(), re }),
            Err(msg) => Err(msg),
        }
    }

    /// The pattern this regex was compiled from.
    pub fn pattern(&self) -> (p: &String)
        ensures
            p@ == self.pattern_spec(),
    {
        &self.pattern
    }
}

/// Calls `regex::Regex::find_at` and hands back the match's byte span. The
/// span is the one named by `regex_find_from`; as the crate documents, it
/// lies within `start..` the haystack's length, with start before end, on
/// char boundaries.
#[verifier::external_body]
fn regex_find_at(sr: &SearchRegex, hay: &str, start: usize) -> (r: Option<(usize, usize)>)
    requires
        start <= utf8_len(hay@),
    ensures
        r is None <==> regex_find_from(sr.pattern_spec(), hay@, start as nat) is None,
        r matches Some(m) ==> regex_find_from(sr.pattern_spec(), hay@, start as nat) == Some(
            (m.0 as nat, m.1 as nat),
        ),
        r matches Some(m) ==> start <= m.0 <= m.1 <= utf8_len(hay@) && char_boundary(hay@, m.0 as nat)
            && char_boundary(hay@, m.1 as nat),
{
    sr.re.find_at(hay, start).map(|m| (m.start(), m.end()))
}

/// Calls `regex::Regex::is_match`, named by `regex_is_match`.
#[verifier::external_body]
fn regex_matches(sr: &SearchRegex, hay: &str) -> (b: bool)
    ensures
        b == regex_is_match(sr.pattern_spec(), hay@),
{
    sr.re.is_match(hay)
}

/// The characters `regex` treats as meta characters.
pub open spec fn is_regex_meta(c: char) -> bool {
    c == '\\' || c == '.' || c == '+' || c == '*' || c == '?' || c == '(' || c == ')' || c == '|' || c == '['
        || c == ']' || c == '{' || c == '}' || c == '^' || c == '$' || c == '#' || c == '&' || c == '-' || c
        == '~'
}

/// `s` with a backslash before each meta character: a pattern matching `s`
/// literally.
pub open spec fn regex_escape_spec(s: Seq<char>) -> Seq<char>
    decreases s.len(),
{
    if s.len() == 0 {
        Seq::empty()
    } else if is_regex_meta(s.last()) {
        regex_escape_spec(s.drop_last()) + seq!['\\', s.last()]
    } else {
        regex_escape_spec(s.drop_last()).push(s.last())
    }
}

/// Calls `regex::escape`, which (through `regex_syntax::escape_into`) copies
/// the text char by char, putting a backslash before each meta character.
#[verifier::external_body]
pub(crate) fn regex_escape(text: &str) -> (r: String)
    ensures
        r@ == regex_escape_spec(text@),
{
    regex::escape(text)
}

/// UTF-8 width of a char.
pub fn char_utf8_width(c: char) -> (w: usize)
    ensures
        w == utf8_width(c),
{
    let v = c as u32;
    if v < 0x80 {
        1
    } else if v < 0x800 {
        2
    } else if v < 0x10000 {
        3
    } else {
        4
    }
}

/// Byte offset of char index `i`.
pub fn char_to_byte(s: &Vec<char>, i: usize) -> (b: usize)
    requires
        i <= s@.len(),
        utf8_len(s@) <= usize::MAX,
    ensures
        b == byte_offset(s@, i as int),
{
    let mut acc: usize = 0;
    let mut k: usize = 0;
    while k < i
        invariant
            k <= i <= s@.len(),
            utf8_len(s@) <= usize::MAX,
            acc == byte_offset(s@, k as int),
        decreases i - k,
    {
        proof {
            if k + 1 < s@.len() {
                lemma_byte_offset_increasing(s@, k + 1, s@.len() as int);
            }
        }
        acc = acc + char_utf8_width(s[k]);
        k = k + 1;
    }
    acc
}

/// Char index of byte offset `b`, which must be a boundary.
pub fn byte_to_char(s: &Vec<char>, b: usize) -> (i: usize)
    requires
        char_boundary(s@, b as nat),
        utf8_len(s@) <= usize::MAX,
    ensures
        i <= s@.len(),
        byte_offset(s@, i as int) == b,
        i == char_index_at(s@, b as nat),
{
    let ghost j = choose|j: int| 0 <= j <= s@.len() && byte_offset(s@, j) == b;
    let n = s.len();
    let mut acc: usize = 0;
    let mut k: usize = 0;
    while acc < b
        invariant
            n == s@.len(),
            0 <= j <= s@.len(),
            byte_offset(s@, j) == b,
            k <= j,
            acc == byte_offset(s@, k as int),
            utf8_len(s@) <= usize::MAX,
        decreases j - k,
    {
        proof {
            if k == j {
                assert(false);
            }
            if k + 1 < j {
                lemma_byte_offset_increasing(s@, k + 1, j);
            }
            if j < s@.len() {
                lemma_byte_offset_increasing(s@, j, s@.len() as int);
            }
        }
        acc = acc + char_utf8_width(s[k]);
        k = k + 1;
    }
    proof {
        if k < j {
            lemma_byte_offset_increasing(s@, k as int, j);
        }
        lemma_byte_offset_injective(s@, k as int, char_index_at(s@, b as nat));
    }
    k
}

/// The char span of the first match at or after char index `from`, when
/// `from` lies within the text.
pub open spec fn find_next_spec(pattern: Seq<char>, text: Seq<char>, from: int) -> Option<(int, int)> {
    if from < 0 || from > text.len() {
        None
    } else {
        match regex_find_from(pattern, text, byte_offset(text, from)) {
            Some(m) => Some((char_index_at(text, m.0), char_index_at(text, m.1))),
            None => None,
        }
    }
}

/// The first match at or after char index `from`, as a char span.
pub fn find_next(text: &Vec<char>, sr: &SearchRegex, from: usize) -> (r: Option<(usize, usize)>)
    requires
        utf8_len(text@) <= usize::MAX,
    ensures
        r is None <==> find_next_spec(sr.pattern_spec(), text@, from as int) is None,
        r matches Some(m) ==> find_next_spec(sr.pattern_spec(), text@, from as int) == Some(
            (m.0 as int, m.1 as int),
        ),
        r matches Some(m) ==> from <= m.0 <= m.1 <= text@.len(),
{
    if from > text.len() {
        return None;
    }
    let hay = string_from_chars(text.as_slice());
    let start = char_to_byte(text, from);
    proof {
        if from < text@.len() {
            lemma_byte_offset_increasing(text@, from as int, text@.len() as int);
        }
    }
    match regex_find_at(sr, hay.as_str(), start) {
        None => None,
        Some(m) => {
            let a = byte_to_char(text, m.0);
            let b = byte_to_char(text, m.1);
            proof {
                if a < from {
                    lemma_byte_offset_increasing(text@, a as int, from as int);
                }
                if b < a {
                    lemma_byte_offset_increasing(text@, b as int, a as int);
                }
            }
            Some((a, b))
        },
    }
}

/// Where the backward scan resumes after a match: its end, or one past its
/// start when it is empty.
pub open spec fn resume_after(m: (int, int)) -> int {
    if m.1 > m.0 {
        m.1
    } else {
        m.0 + 1
    }
}

/// The last match starting before `from`, scanning forward from `pos` and
/// keeping `best` so far.
pub open spec fn last_match_before(
    pattern: Seq<char>,
    text: Seq<char>,
    pos: int,
    from: int,
    best: Option<(int, int)>,
) -> Option<(int, int)>
    decreases text.len() + 1 - pos,
{
    if pos < 0 || pos > text.len() {
        best
    } else {
        match find_next_spec(pattern, text, pos) {
            None => best,
            Some(m) => if m.0 >= from || resume_after(m) <= pos || resume_after(m) > text.len() + 1 {
                best
            } else {
                last_match_before(pattern, text, resume_after(m), from, Some(m))
            },
        }
    }
}

/// The forward scan at `pos` finds a match that starts before `from` and
/// lets the scan move on (its resume point lies past `pos`, within the
/// text).
pub open spec fn scan_hit(pattern: Seq<char>, text: Seq<char>, from: int, pos: int, m: (int, int)) -> bool {
    &&& 0 <= pos <= text.len()
    &&& find_next_spec(pattern, text, pos) == Some(m)
    &&& m.0 < from
    &&& pos < resume_after(m) <= text.len() + 1
}

/// The forward scan at `pos` finds no match that starts before `from` and
/// lets it move on.
pub open spec fn scan_stops(pattern: Seq<char>, text: Seq<char>, from: int, pos: int) -> bool {
    match find_next_spec(pattern, text, pos) {
        Some(m) => !scan_hit(pattern, text, from, pos, m),
        None => true,
    }
}

proof fn lemma_last_match_before(
    pattern: Seq<char>,
    text: Seq<char>,
    pos: int,
    from: int,
    best: Option<(int, int)>,
)
    ensures
        ({
            let r = last_match_before(pattern, text, pos, from, best);
            ||| r == best && scan_stops(pattern, text, from, pos)
            ||| r matches Some(m) && (exists|p: int| pos <= p && #[trigger] scan_hit(pattern, text, from, p, m))
                && scan_stops(pattern, text, from, resume_after(m))
        }),
    decreases text.len() + 1 - pos,
{
    if 0 <= pos <= text.len() {
        match find_next_spec(pattern, text, pos) {
            None => {},
            Some(m) => {
                if !(m.0 >= from || resume_after(m) <= pos || resume_after(m) > text.len() + 1) {
                    assert(scan_hit(pattern, text, from, pos, m));
                    lemma_last_match_before(pattern, text, resume_after(m), from, Some(m));
                }
            },
        }
    }
}

/// A backward search gives the last match before `from` that the forward
/// scan from the start of the text meets: a match the scan finds at some
/// position, starting before `from`, after which the scan finds no further
/// match starting before `from`. It finds nothing exactly when the scan's
/// first match (if any) does not start before `from`.
pub proof fn law_find_prev_is_last_before(pattern: Seq<char>, text: Seq<char>, from: int)
    ensures
        match last_match_before(pattern, text, 0, from, None) {
            None => scan_stops(pattern, text, from, 0),
            Some(m) => m.0 < from && (exists|p: int| 0 <= p && #[trigger] scan_hit(pattern, text, from, p, m))
                && scan_stops(pattern, text, from, resume_after(m)),
        },
{
    lemma_last_match_before(pattern, text, 0, from, None);
    if let Some(m) = last_match_before(pattern, text, 0, from, None) {
        let p = choose|p: int| 0 <= p && #[trigger] scan_hit(pattern, text, from, p, m);
        assert(scan_hit(pattern, text, from, p, m));
    }
}

/// The last match that starts before char index `from`, as a char span.
pub fn find_prev(text: &Vec<char>, sr: &SearchRegex, from: usize) -> (r: Option<(usize, usize)>)
    requires
        utf8_len(text@) <= usize::MAX,
    ensures
        r matches Some(m) ==> Some((m.0 as int, m.1 as int)) == last_match_before(
            sr.pattern_spec(),
            text@,
            0,
            from as int,
            None,
        ),
        r is None ==> last_match_before(sr.pattern_spec(), text@, 0, from as int, None) is None,
        r matches Some(m) ==> m.0 < from && m.0 <= m.1 <= text@.len(),
{
    let mut pos: usize = 0;
    let mut best: Option<(usize, usize)> = None;
    let ghost mut best_s: Option<(int, int)> = None;
    while pos <= text.len()
        invariant
            pos <= text@.len() + 1,
            utf8_len(text@) <= usize::MAX,
            last_match_before(sr.pattern_spec(), text@, 0, from as int, None) == last_match_before(
                sr.pattern_spec(),
                text@,
                pos as int,
                from as int,
                best_s,
            ),
            best is None <==> best_s is None,
            best matches Some(m) ==> best_s == Some((m.0 as int, m.1 as int)),
            best matches Some(m) ==> m.0 < from && m.0 <= m.1 <= text@.len(),
        ensures
            last_match_before(sr.pattern_spec(), text@, 0, from as int, None) == best_s,
            best is None <==> best_s is None,
            best matches Some(m) ==> best_s == Some((m.0 as int, m.1 as int)),
            best matches Some(m) ==> m.0 < from && m.0 <= m.1 <= text@.len(),
        decreases text@.len() + 1 - pos,
    {
        match find_next(text, sr, pos) {
            None => {
                break;
            },
            Some(m) => {
                if m.0 >= from {
                    break;
                }
                let next = if m.1 > m.0 {
                    m.1
                } else {
                    m.0 + 1
                };
                if next <= pos {
                    break;
                }
                best = Some(m);
                proof {
                    best_s = Some((m.0 as int, m.1 as int));
                }
                pos = next;
            },
        }
    }
    best
}

/// Whether the pattern matches somewhere in `text`.
pub fn text_matches(text: &Vec<char>, sr: &SearchRegex) -> (b: bool)
    ensures
        b == regex_is_match(sr.pattern_spec(), text@),
{
    let hay = string_from_chars(text.as_slice());
    regex_matches(sr, hay.as_str())
}

/// Byte offsets do not decrease with the char index.
pub proof fn lemma_byte_offset_monotone(s: Seq<char>, i: int, j: int)
    requires
        0 <= i <= j,
    ensures
        byte_offset(s, i) <= byte_offset(s, j),
{
    if i < j {
        lemma_byte_offset_increasing(s, i, j);
    }
}

/// Offsets within a slice are the offsets within the whole text shifted by
/// the slice's start.
pub proof fn lemma_byte_offset_subrange(s: Seq<char>, a: int, b: int, k: int)
    requires
        0 <= a <= b <= s.len(),
        0 <= k <= b - a,
    ensures
        byte_offset(s.subrange(a, b), k) + byte_offset(s, a) == byte_offset(s, a + k),
    decreases k,
{
    if k > 0 {
        lemma_byte_offset_subrange(s, a, b, k - 1);
    }
}

/// A slice encodes to no more bytes than the whole text.
pub proof fn lemma_utf8_len_subrange(s: Seq<char>, a: int, b: int)
    requires
        0 <= a <= b <= s.len(),
    ensures
        utf8_len(s.subrange(a, b)) <= utf8_len(s),
{
    lemma_byte_offset_subrange(s, a, b, b - a);
    lemma_byte_offset_monotone(s, b, s.len() as int);
}

/// Every match found scanning forward from `pos`, each scan resuming after
/// the previous match.
pub open spec fn all_matches(pattern: Seq<char>, text: Seq<char>, pos: int) -> Seq<(int, int)>
    decreases text.len() + 1 - pos,
{
    if pos < 0 || pos > text.len() {
        Seq::empty()
    } else {
        match find_next_spec(pattern, text, pos) {
            None => Seq::empty(),
            Some(m) => if resume_after(m) <= pos || resume_after(m) > text.len() + 1 {
                seq![m]
            } else {
                seq![m] + all_matches(pattern, text, resume_after(m))
            },
        }
    }
}

/// All matches of the pattern in `text`, in order, as char spans.
pub fn find_all(text: &Vec<char>, sr: &SearchRegex) -> (r: Vec<(usize, usize)>)
    requires
        utf8_len(text@) <= usize::MAX,
    ensures
        r@.len() == all_matches(sr.pattern_spec(), text@, 0).len(),
        forall|i: int|
            0 <= i < r@.len() ==> (#[trigger] r@[i]).0 as int == all_matches(sr.pattern_spec(), text@, 0)[i].0
                && r@[i].1 as int == all_matches(sr.pattern_spec(), text@, 0)[i].1 && r@[i].0 <= r@[i].1
                <= text@.len(),
{
    let mut out: Vec<(usize, usize)> = Vec::new();
    let mut pos: usize = 0;
    let ghost mut done: Seq<(int, int)> = Seq::empty();
    while pos <= text.len()
        invariant_except_break
            all_matches(sr.pattern_spec(), text@, 0) == done + all_matches(sr.pattern_spec(), text@, pos as int),
        invariant
            pos <= text@.len() + 1,
            utf8_len(text@) <= usize::MAX,
            out@.len() == done.len(),
            forall|i: int|
                0 <= i < out@.len() ==> (#[trigger] out@[i]).0 as int == done[i].0 && out@[i].1 as int
                    == done[i].1 && out@[i].0 <= out@[i].1 <= text@.len(),
        ensures
            all_matches(sr.pattern_spec(), text@, 0) == done,
            out@.len() == done.len(),
            forall|i: int|
                0 <= i < out@.len() ==> (#[trigger] out@[i]).0 as int == done[i].0 && out@[i].1 as int
                    == done[i].1 && out@[i].0 <= out@[i].1 <= text@.len(),
        decreases text@.len() + 1 - pos,
    {
        match find_next(text, sr, pos) {
            None => {
                proof {
                    assert(done + Seq::<(int, int)>::empty() =~= done);
                }
                break;
            },
            Some(m) => {
                out.push(m);
                let ghost ms = (m.0 as int, m.1 as int);
                if m.1 <= m.0 && m.0 == usize::MAX {
                    proof {
                        assert(all_matches(sr.pattern_spec(), text@, m.0 + 1) =~= Seq::<(int, int)>::empty());
                        assert(done + (seq![ms] + all_matches(sr.pattern_spec(), text@, m.0 + 1)) =~= done.push(
                            ms,
                        ));
                        done = done.push(ms);
                    }
                    break;
                }
                let next = if m.1 > m.0 {
                    m.1
                } else {
                    m.0 + 1
                };
                if next <= pos || next - 1 > text.len() {
                    proof {
                        assert(done.push(ms) =~= done + seq![ms]);
                        done = done.push(ms);
                    }
                    break;
                }
                proof {
                    assert(done + (seq![ms] + all_matches(sr.pattern_spec(), text@, next as int)) =~= done.push(
                        ms,
                    ) + all_matches(sr.pattern_spec(), text@, next as int));
                    done = done.push(ms);
                }
                pos = next;
            },
        }
    }
    proof {
        if pos > text@.len() {
            assert(done + Seq::<(int, int)>::empty() =~= done);
        }
    }
    out
}

} // verus!
