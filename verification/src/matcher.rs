//! The pattern-matching boundary: everything the library asks of the regex
//! engine goes through the two functions at the head of this file. The engine
//! speaks of byte offsets; the rest of the file turns them into character
//! positions.

use vstd::prelude::*;
use crate::text::slice;

verus! {

/// A compiled pattern of the regex engine. Opaque to the verifier.
#[verifier::external_type_specification]
#[verifier::external_body]
pub struct ExRegex(regex::Regex);

/// The engine's error for a pattern that does not compile. Opaque to the verifier.
#[verifier::external_type_specification]
#[verifier::external_body]
pub struct ExRegexError(regex::Error);

/// One match: the span of the whole match at index 0, then the span of each
/// capture group, `None` for a group that took no part. A span is a pair
/// `(start, end)` of positions in the searched text.
pub type Groups = Vec<Option<(usize, usize)>>;

/// Whether the regex engine compiles the pattern text `source`.
pub uninterp spec fn regex_accepts(source: Seq<char>) -> bool;

/// Every match in `text` of the pattern that the engine compiles from the
/// pattern text `source`, left to right, with spans in byte offsets into the
/// UTF-8 form of `text`.
pub uninterp spec fn regex_matches(source: Seq<char>, text: Seq<char>) -> Seq<
    Seq<Option<(usize, usize)>>,
>;

/// Every match of the compiled pattern `re` in `text`, left to right, with
/// spans in byte offsets into the UTF-8 form of `text`.
pub uninterp spec fn regex_found(re: regex::Regex, text: Seq<char>) -> Seq<
    Seq<Option<(usize, usize)>>,
>;

/// Whether the compiled pattern `re` finds in every text what the pattern text
/// `source` stands for.
pub open spec fn built_from(re: regex::Regex, source: Seq<char>) -> bool {
    forall|text: Seq<char>| #[trigger] regex_found(re, text) == regex_matches(source, text)
}

/// The matches held by a vector, as a sequence of sequences.
pub open spec fn matches_view(v: Seq<Groups>) -> Seq<Seq<Option<(usize, usize)>>> {
    Seq::new(v.len(), |i: int| v[i]@)
}

/// Where the whole match begins.
pub open spec fn whole_start(m: Seq<Option<(usize, usize)>>) -> int {
    let span = m[0]->0;
    span.0 as int
}

/// Where the whole match ends.
pub open spec fn whole_end(m: Seq<Option<(usize, usize)>>) -> int {
    let span = m[0]->0;
    span.1 as int
}

/// Whether no span of the match `m` ends before it begins.
pub open spec fn spans_forward(m: Seq<Option<(usize, usize)>>) -> bool {
    forall|j: int| 0 <= j < m.len() ==> ((#[trigger] m[j]) matches Some(span) ==> span.0 <= span.1)
}

/// Whether `ms` is a list of matches as the engine yields them: each match
/// has its whole span at index 0, no span ends before it begins, and the
/// matches follow one another without overlap.
pub open spec fn matches_sorted(ms: Seq<Seq<Option<(usize, usize)>>>) -> bool {
    &&& forall|i: int| 0 <= i < ms.len() ==> ms[i].len() >= 1 && (#[trigger] ms[i])[0] is Some
    &&& forall|i: int| 0 <= i < ms.len() ==> spans_forward(#[trigger] ms[i])
    &&& forall|i: int, k: int|
        0 <= i < k < ms.len() ==> whole_end(#[trigger] ms[i]) <= whole_start(#[trigger] ms[k])
}

/// Calls `regex::Regex::new`. Claims that whether the pattern compiles
/// depends on its text alone, and that a pattern compiled in this way finds
/// what its text stands for.
#[verifier::external_body]
pub(crate) fn compile(source: &str) -> (r: Result<regex::Regex, regex::Error>)
    ensures
        r is Ok <==> regex_accepts(source@),
        r matches Ok(re) ==> forall|text: Seq<char>| #[trigger]
            regex_found(re, text) == regex_matches(source@, text),
{
    regex::Regex::new(source)
}

/// Calls `regex::Regex::captures_iter` and hands out the byte span of every
/// group of every match. Claims that the result depends on the compiled
/// pattern and the searched text alone, that group 0 of each match is
/// present, that no span ends before it begins, and that successive matches
/// do not overlap.
#[verifier::external_body]
pub(crate) fn captures_all(re: &regex::Regex, text: &str) -> (r: Vec<Groups>)
    ensures
        matches_view(r@) == regex_found(*re, text@),
        matches_sorted(matches_view(r@)),
{
    re.captures_iter(text)
        .map(|caps| caps.iter().map(|g| g.map(|m| (m.start(), m.end()))).collect())
        .collect()
}

/// The number of bytes that `c` takes in UTF-8.
pub open spec fn utf8_width(c: char) -> int {
    let u = c as u32;
    if u < 0x80 {
        1
    } else if u < 0x800 {
        2
    } else if u < 0x10000 {
        3
    } else {
        4
    }
}

/// The byte offset at which the character at position `k` of `text` begins in
/// the UTF-8 form of `text`.
pub open spec fn byte_start(text: Seq<char>, k: int) -> int
    decreases k,
{
    if k <= 0 {
        0
    } else {
        byte_start(text, k - 1) + utf8_width(text[k - 1])
    }
}

/// The first position at or after `k` whose character begins at or after the
/// byte offset `offset`, or the length of `text` where there is none.
pub open spec fn char_position_from(text: Seq<char>, offset: int, k: int) -> int
    decreases text.len() - k,
{
    if k < 0 || k >= text.len() || byte_start(text, k) >= offset {
        k
    } else {
        char_position_from(text, offset, k + 1)
    }
}

/// The position of the character that begins at the byte offset `offset`.
pub open spec fn char_position(text: Seq<char>, offset: int) -> int {
    char_position_from(text, offset, 0)
}

/// A byte span as a span of character positions.
pub open spec fn char_span(text: Seq<char>, span: Option<(usize, usize)>) -> Option<(usize, usize)> {
    match span {
        Some(bytes) => Some(
            (
                char_position(text, bytes.0 as int) as usize,
                char_position(text, bytes.1 as int) as usize,
            ),
        ),
        None => None,
    }
}

/// The spans of a match as spans of character positions.
pub open spec fn char_groups(text: Seq<char>, m: Seq<Option<(usize, usize)>>) -> Seq<
    Option<(usize, usize)>,
> {
    Seq::new(m.len(), |j: int| char_span(text, m[j]))
}

/// The spans of a list of matches as spans of character positions.
pub open spec fn char_matches(text: Seq<char>, ms: Seq<Seq<Option<(usize, usize)>>>) -> Seq<
    Seq<Option<(usize, usize)>>,
> {
    Seq::new(ms.len(), |i: int| char_groups(text, ms[i]))
}

/// Whether every span of the match `m` lies inside a text of `len` characters.
pub open spec fn spans_inside(m: Seq<Option<(usize, usize)>>, len: nat) -> bool {
    forall|j: int|
        0 <= j < m.len() ==> ((#[trigger] m[j]) matches Some(span) ==> span.0 <= span.1 <= len)
}

/// Whether `ms` is a well-formed list of matches in a text of `len`
/// characters: each match has its whole span at index 0, every span lies
/// inside the text, and the matches follow one another without overlap.
pub open spec fn matches_ordered(ms: Seq<Seq<Option<(usize, usize)>>>, len: nat) -> bool {
    &&& forall|i: int| 0 <= i < ms.len() ==> ms[i].len() >= 1 && (#[trigger] ms[i])[0] is Some
    &&& forall|i: int| 0 <= i < ms.len() ==> spans_inside(#[trigger] ms[i], len)
    &&& forall|i: int, k: int|
        0 <= i < k < ms.len() ==> whole_end(#[trigger] ms[i]) <= whole_start(#[trigger] ms[k])
}

/// A character position lies inside the text.
pub proof fn lemma_char_position_bounds(text: Seq<char>, offset: int, k: int)
    requires
        0 <= k <= text.len(),
    ensures
        k <= char_position_from(text, offset, k) <= text.len(),
    decreases text.len() - k,
{
    if k < text.len() && byte_start(text, k) < offset {
        lemma_char_position_bounds(text, offset, k + 1);
    }
}

/// A later byte offset gives no earlier character position.
pub proof fn lemma_char_position_grows(text: Seq<char>, a: int, b: int, k: int)
    requires
        a <= b,
        0 <= k <= text.len(),
    ensures
        char_position_from(text, a, k) <= char_position_from(text, b, k),
    decreases text.len() - k,
{
    lemma_char_position_bounds(text, b, k);
    if k < text.len() && byte_start(text, k) < a {
        lemma_char_position_grows(text, a, b, k + 1);
    }
}

/// The number of bytes that `c` takes in UTF-8.
pub fn width_of(c: char) -> (r: usize)
    ensures
        r == utf8_width(c),
{
    let u = c as u32;
    if u < 0x80 {
        1
    } else if u < 0x800 {
        2
    } else if u < 0x10000 {
        3
    } else {
        4
    }
}

/// The position of the character that begins at the byte offset `offset`.
pub fn char_position_of(text: &Vec<char>, offset: usize) -> (r: usize)
    ensures
        r == char_position(text@, offset as int),
        r <= text.len(),
{
    let mut k: usize = 0;
    let mut at: usize = 0;
    while k < text.len() && at < offset
        invariant
            k <= text.len(),
            at == byte_start(text@, k as int),
            char_position(text@, offset as int) == char_position_from(
                text@,
                offset as int,
                k as int,
            ),
        decreases text.len() - k,
    {
        match at.checked_add(width_of(text[k])) {
            Some(next) => {
                at = next;
                k += 1;
            },
            None => {
                assert(byte_start(text@, k + 1) > offset);
                assert(char_position_from(text@, offset as int, k as int) == char_position_from(
                    text@,
                    offset as int,
                    k + 1,
                ));
                assert(char_position_from(text@, offset as int, k + 1) == k + 1);
                return k + 1;
            },
        }
    }
    k
}

/// The spans of a match as spans of character positions.
pub fn to_char_groups(text: &Vec<char>, m: &Groups) -> (r: Groups)
    ensures
        r@ == char_groups(text@, m@),
{
    let mut out: Groups = Vec::new();
    let mut j: usize = 0;
    while j < m.len()
        invariant
            j <= m.len(),
            out@ == char_groups(text@, m@).subrange(0, j as int),
        decreases m.len() - j,
    {
        let span = match m[j] {
            Some((a, b)) => Some((char_position_of(text, a), char_position_of(text, b))),
            None => None,
        };
        out.push(span);
        j += 1;
        assert(out@ =~= char_groups(text@, m@).subrange(0, j as int));
    }
    assert(out@ =~= char_groups(text@, m@));
    out
}

/// The spans of a list of matches as spans of character positions.
pub fn to_char_matches(text: &Vec<char>, found: &Vec<Groups>) -> (r: Vec<Groups>)
    requires
        matches_sorted(matches_view(found@)),
    ensures
        matches_view(r@) == char_matches(text@, matches_view(found@)),
        matches_ordered(matches_view(r@), text@.len()),
{
    let ghost ms = matches_view(found@);
    let mut out: Vec<Groups> = Vec::new();
    let mut i: usize = 0;
    while i < found.len()
        invariant
            i <= found.len(),
            ms == matches_view(found@),
            matches_view(out@) == char_matches(text@, ms).subrange(0, i as int),
        decreases found.len() - i,
    {
        let groups = to_char_groups(text, &found[i]);
        assert(ms[i as int] == found@[i as int]@);
        let ghost before = matches_view(out@);
        out.push(groups);
        assert(matches_view(out@) =~= before.push(char_groups(text@, ms[i as int])));
        i += 1;
        assert(matches_view(out@) =~= char_matches(text@, ms).subrange(0, i as int));
    }
    assert(matches_view(out@) =~= char_matches(text@, ms));
    let len = text.len();
    proof {
        assert(text@.len() == len);
        lemma_char_matches_ordered(text@, ms);
    }
    out
}

/// Matches that the engine yields in order stay in order as character spans.
pub proof fn lemma_char_matches_ordered(text: Seq<char>, ms: Seq<Seq<Option<(usize, usize)>>>)
    requires
        matches_sorted(ms),
        text.len() <= usize::MAX,
    ensures
        matches_ordered(char_matches(text, ms), text.len()),
{
    let cs = char_matches(text, ms);
    assert forall|i: int| 0 <= i < cs.len() implies spans_inside(#[trigger] cs[i], text.len()) by {
        assert(spans_forward(ms[i]));
        assert forall|j: int| 0 <= j < cs[i].len() implies ((#[trigger] cs[i][j]) matches Some(
            span,
        ) ==> span.0 <= span.1 <= text.len()) by {
            assert(cs[i][j] == char_span(text, ms[i][j]));
            if let Some(bytes) = ms[i][j] {
                lemma_char_position_bounds(text, bytes.0 as int, 0);
                lemma_char_position_bounds(text, bytes.1 as int, 0);
                lemma_char_position_grows(text, bytes.0 as int, bytes.1 as int, 0);
            }
        }
    }
    assert forall|i: int, k: int| 0 <= i < k < cs.len() implies whole_end(#[trigger] cs[i])
        <= whole_start(#[trigger] cs[k]) by {
        assert(whole_end(ms[i]) <= whole_start(ms[k]));
        assert(ms[i][0] is Some && ms[k][0] is Some);
        assert(cs[i][0] == char_span(text, ms[i][0]));
        assert(cs[k][0] == char_span(text, ms[k][0]));
        lemma_char_position_bounds(text, whole_end(ms[i]), 0);
        lemma_char_position_bounds(text, whole_start(ms[k]), 0);
        lemma_char_position_grows(text, whole_end(ms[i]), whole_start(ms[k]), 0);
    }
    assert forall|i: int| 0 <= i < cs.len() implies cs[i].len() >= 1 && (#[trigger] cs[i])[0]
        is Some by {
        assert(ms[i].len() >= 1 && ms[i][0] is Some);
        assert(cs[i][0] == char_span(text, ms[i][0]));
    }
}

/// The span of group `i` of a match, `None` where the group took no part or the
/// pattern has no such group.
pub open spec fn group(m: Seq<Option<(usize, usize)>>, i: int) -> Option<(usize, usize)> {
    if 0 <= i < m.len() {
        m[i]
    } else {
        None
    }
}

/// The text that group `i` of a match covers, empty where the group is absent.
pub open spec fn group_text(text: Seq<char>, m: Seq<Option<(usize, usize)>>, i: int) -> Seq<char> {
    match group(m, i) {
        Some(span) => text.subrange(span.0 as int, span.1 as int),
        None => Seq::<char>::empty(),
    }
}

/// The span of group `i` of a match.
pub fn group_span(m: &Groups, i: usize) -> (r: Option<(usize, usize)>)
    ensures
        r == group(m@, i as int),
{
    if i < m.len() {
        m[i]
    } else {
        None
    }
}

/// The text that group `i` of the match `m` covers.
pub fn group_chars(text: &Vec<char>, m: &Groups, i: usize) -> (r: Vec<char>)
    requires
        spans_inside(m@, text@.len()),
    ensures
        r@ == group_text(text@, m@, i as int),
{
    match group_span(m, i) {
        Some((a, b)) => {
            assert(m@[i as int] is Some);
            slice(text, a, b)
        },
        None => Vec::new(),
    }
}

} // verus!
