//! Expansion of nested repeat blocks into a flat sequence of lines.

use vstd::prelude::*;
use crate::numbers::{parse_unsigned, parse_usize};
use crate::text::{
    begins_with, find_whitespace, is_space, lowercase, skip_whitespace, slice, starts_with,
    to_chars, whitespace_from,
};

verus! {

/// What a line means to the expander.
pub enum Directive {
    /// `rept <n>` with a positive count `n`: the lines up to the matching
    /// `endr` are repeated `n` times.
    Open(usize),
    /// `endr`: the end of the innermost open block.
    Close,
    /// A line that is emitted as it stands. A `rept` whose count is missing,
    /// cannot be read or is zero is such a line: its body follows once.
    Keep,
}

/// The second of the whitespace-separated words of `s`, where it has two.
pub open spec fn second_word(s: Seq<char>) -> Option<Seq<char>> {
    let first = skip_whitespace(s, 0);
    let gap = whitespace_from(s, first);
    let start = skip_whitespace(s, gap);
    if start < s.len() {
        Some(s.subrange(start, whitespace_from(s, start)))
    } else {
        None
    }
}

/// What a line in lower case means to the expander.
pub open spec fn classify_lowered(lower: Seq<char>) -> Directive {
    if starts_with(lower, "rept"@) {
        match second_word(lower) {
            Some(word) => match parse_unsigned(word) {
                Some(n) => if n > 0 {
                    Directive::Open(n)
                } else {
                    Directive::Keep
                },
                None => Directive::Keep,
            },
            None => Directive::Keep,
        }
    } else if starts_with(lower, "endr"@) {
        Directive::Close
    } else {
        Directive::Keep
    }
}

/// What a line means to the expander. Case does not matter.
pub open spec fn classify(line: Seq<char>) -> Directive {
    classify_lowered(lowercase(line))
}

/// `body` written `n` times over.
pub open spec fn repeat(body: Seq<Seq<char>>, n: nat) -> Seq<Seq<char>>
    decreases n,
{
    if n == 0 {
        Seq::<Seq<char>>::empty()
    } else {
        repeat(body, (n - 1) as nat) + body
    }
}

/// What expanding one level of the input gives.
pub struct Expansion {
    /// The flat lines.
    pub lines: Seq<Seq<char>>,
    /// The number of input lines used up, the closing line included.
    pub used: nat,
    /// Whether the level ended on a closing line, not with the input.
    pub closed: bool,
}

/// The expansion of `lines` from position `i` up to the end of the block that
/// is open there. A block that its `endr` closes is written as many times as
/// its count says; a block that the end of the input cuts short is written
/// once.
pub open spec fn expand(lines: Seq<Seq<char>>, i: int) -> Expansion
    decreases
            if i < lines.len() {
                lines.len() - i
            } else {
                0
            },
{
    if i < 0 || i >= lines.len() {
        Expansion { lines: Seq::empty(), used: 0, closed: false }
    } else {
        match classify(lines[i]) {
            Directive::Close => Expansion { lines: Seq::empty(), used: 1, closed: true },
            Directive::Open(n) => {
                let body = expand(lines, i + 1);
                if body.closed {
                    let rest = expand(lines, i + 1 + body.used);
                    Expansion {
                        lines: repeat(body.lines, n as nat) + rest.lines,
                        used: 1 + body.used + rest.used,
                        closed: rest.closed,
                    }
                } else {
                    Expansion { lines: body.lines, used: 1 + body.used, closed: false }
                }
            },
            Directive::Keep => {
                let rest = expand(lines, i + 1);
                Expansion {
                    lines: seq![lines[i]] + rest.lines,
                    used: 1 + rest.used,
                    closed: rest.closed,
                }
            },
        }
    }
}

/// The texts of a list of lines.
pub open spec fn texts(lines: Seq<String>) -> Seq<Seq<char>> {
    Seq::new(lines.len(), |i: int| lines[i]@)
}

/// An expansion never uses up more lines than there are, and one that no
/// closing line ends uses up all of them.
pub proof fn lemma_expand_bounds(lines: Seq<Seq<char>>, i: int)
    requires
        0 <= i <= lines.len(),
    ensures
        i + expand(lines, i).used <= lines.len(),
        !expand(lines, i).closed ==> i + expand(lines, i).used == lines.len(),
    decreases lines.len() - i,
{
    if i < lines.len() {
        lemma_expand_bounds(lines, i + 1);
        match classify(lines[i]) {
            Directive::Open(n) => {
                lemma_expand_bounds(lines, i + 1 + expand(lines, i + 1).used);
            },
            _ => {},
        }
    }
}

/// Reads what a line in lower case means to the expander.
pub fn directive_of(lower: &Vec<char>) -> (r: Directive)
    ensures
        r == classify_lowered(lower@),
{
    if begins_with(lower, "rept") {
        let first = skip_blank(lower, 0);
        let gap = find_whitespace(lower, first);
        let start = skip_blank(lower, gap);
        if start < lower.len() {
            let end = find_whitespace(lower, start);
            match parse_usize(&slice(lower, start, end)) {
                Some(n) => if n > 0 {
                    Directive::Open(n)
                } else {
                    Directive::Keep
                },
                None => Directive::Keep,
            }
        } else {
            Directive::Keep
        }
    } else if begins_with(lower, "endr") {
        Directive::Close
    } else {
        Directive::Keep
    }
}

/// Reads what a line means to the expander.
pub fn read_directive(line: &str) -> (r: Directive)
    ensures
        r == classify(line@),
{
    directive_of(&to_chars(line.to_lowercase().as_str()))
}

/// The first position at or after `from` where `v` holds no whitespace, or its length.
fn skip_blank(v: &Vec<char>, from: usize) -> (r: usize)
    requires
        from <= v.len(),
    ensures
        r == skip_whitespace(v@, from as int),
        from <= r <= v.len(),
{
    let mut i: usize = from;
    while i < v.len() && is_space(v[i])
        invariant
            from <= i <= v.len(),
            skip_whitespace(v@, from as int) == skip_whitespace(v@, i as int),
        decreases v.len() - i,
    {
        i += 1;
    }
    i
}

/// Appends a copy of each line of `block` to `dst`.
pub fn append_lines(dst: &mut Vec<String>, block: &Vec<String>)
    ensures
        texts(final(dst)@) == texts(old(dst)@) + texts(block@),
{
    let mut j: usize = 0;
    while j < block.len()
        invariant
            j <= block.len(),
            texts(dst@) == texts(old(dst)@) + texts(block@).subrange(0, j as int),
        decreases block.len() - j,
    {
        let ghost before = dst@;
        dst.push(block[j].clone());
        assert(texts(dst@) =~= texts(before).push(block@[j as int]@));
        j += 1;
        assert(texts(block@).subrange(0, j as int) == texts(block@).subrange(0, j - 1).push(
            block@[j - 1]@,
        ));
    }
    assert(texts(block@).subrange(0, block@.len() as int) == texts(block@));
}

/// Expands one level of `lines` from `start` on. Returns the flat lines, the
/// position just behind what was used up, and whether a closing line ended the
/// level.
fn expand_level(lines: &[String], start: usize) -> (r: (Vec<String>, usize, bool))
    ensures
        texts(r.0@) == expand(texts(lines@), start as int).lines,
        r.1 == start + expand(texts(lines@), start as int).used,
        r.2 == expand(texts(lines@), start as int).closed,
    decreases lines.len() - start,
{
    let ghost all = texts(lines@);
    let mut result: Vec<String> = Vec::new();
    let mut index: usize = start;
    assert(texts(result@) =~= Seq::<Seq<char>>::empty());
    while index < lines.len()
        invariant
            start <= index,
            index <= lines.len() || index == start,
            all == texts(lines@),
            expand(all, start as int).lines == texts(result@) + expand(all, index as int).lines,
            expand(all, start as int).used == (index - start) + expand(all, index as int).used,
            expand(all, start as int).closed == expand(all, index as int).closed,
        decreases lines.len() - index,
    {
        proof {
            lemma_expand_bounds(all, index + 1);
        }
        assert(all[index as int] == lines@[index as int]@);
        match read_directive(lines[index].as_str()) {
            Directive::Open(count) => {
                let (block, next, closed) = expand_level(lines, index + 1);
                proof {
                    lemma_expand_bounds(all, next as int);
                }
                if closed {
                    let ghost before = texts(result@);
                    let mut done: usize = 0;
                    while done < count
                        invariant
                            done <= count,
                            texts(result@) == before + repeat(texts(block@), done as nat),
                        decreases count - done,
                    {
                        append_lines(&mut result, &block);
                        done += 1;
                    }
                } else {
                    append_lines(&mut result, &block);
                }
                index = next;
            },
            Directive::Close => {
                return (result, index + 1, true);
            },
            Directive::Keep => {
                let ghost before = result@;
                result.push(lines[index].clone());
                assert(texts(result@) =~= texts(before) + seq![all[index as int]]);
                index += 1;
            },
        }
    }
    (result, index, false)
}

/// Expands the repeat blocks of `lines` from `start_index` on, up to the end of
/// the input or to the `endr` that closes the block open at `start_index`.
/// Returns the flat lines and the position just behind what was used up.
pub fn process_block(lines: &[String], start_index: usize) -> (r: (Vec<String>, usize))
    ensures
        texts(r.0@) == expand(texts(lines@), start_index as int).lines,
        r.1 == start_index + expand(texts(lines@), start_index as int).used,
{
    let (result, next, _) = expand_level(lines, start_index);
    (result, next)
}

/// A body written `n` times over has `n` times its lines.
pub proof fn lemma_repeat_len(body: Seq<Seq<char>>, n: nat)
    ensures
        repeat(body, n).len() == n * body.len(),
    decreases n,
{
    let len = body.len() as int;
    if n > 0 {
        let m = (n - 1) as nat;
        lemma_repeat_len(body, m);
        assert(repeat(body, n).len() == repeat(body, m).len() + len);
        assert(n * len == m * len + len) by (nonlinear_arith)
            requires
                n == m + 1,
        ;
    } else {
        assert(repeat(body, n).len() == 0);
        assert(n * len == 0) by (nonlinear_arith)
            requires
                n == 0,
        ;
    }
}

/// A run of lines that are all kept expands to itself, up to the `endr` behind it.
pub proof fn lemma_plain_run(lines: Seq<Seq<char>>, i: int, k: int)
    requires
        0 <= i,
        0 <= k,
        i + k < lines.len(),
        forall|j: int| i <= j < i + k ==> classify(#[trigger] lines[j]) is Keep,
        classify(lines[i + k]) is Close,
    ensures
        expand(lines, i) == (Expansion {
            lines: lines.subrange(i, i + k),
            used: (k + 1) as nat,
            closed: true,
        }),
    decreases k,
{
    if k > 0 {
        lemma_plain_run(lines, i + 1, k - 1);
        assert(classify(lines[i]) is Keep);
        assert(lines.subrange(i, i + k) =~= seq![lines[i]] + lines.subrange(i + 1, i + k));
    } else {
        assert(lines.subrange(i, i) =~= Seq::<Seq<char>>::empty());
    }
}

/// Lines without any directive expand to themselves.
pub proof fn law_plain_lines(lines: Seq<Seq<char>>, i: int)
    requires
        0 <= i <= lines.len(),
        forall|j: int| i <= j < lines.len() ==> classify(#[trigger] lines[j]) is Keep,
    ensures
        expand(lines, i) == (Expansion {
            lines: lines.subrange(i, lines.len() as int),
            used: (lines.len() - i) as nat,
            closed: false,
        }),
    decreases lines.len() - i,
{
    if i < lines.len() {
        law_plain_lines(lines, i + 1);
        assert(classify(lines[i]) is Keep);
        assert(lines.subrange(i, lines.len() as int) =~= seq![lines[i]] + lines.subrange(
            i + 1,
            lines.len() as int,
        ));
    } else {
        assert(lines.subrange(i, lines.len() as int) =~= Seq::<Seq<char>>::empty());
    }
}

/// A repeat block that its `endr` closes stands for its expanded body written
/// `n` times over: where line `i` opens a block with count `n`, the expansion
/// from `i` is the expansion of the body `n` times, followed by the expansion
/// of what comes behind the block. The body is expanded by the same rule, so
/// this holds at every depth of nesting.
pub proof fn law_block_expansion(lines: Seq<Seq<char>>, i: int, n: usize)
    requires
        0 <= i < lines.len(),
        classify(lines[i]) == Directive::Open(n),
        expand(lines, i + 1).closed,
    ensures
        ({
            let body = expand(lines, i + 1);
            let rest = expand(lines, i + 1 + body.used);
            &&& expand(lines, i).lines == repeat(body.lines, n as nat) + rest.lines
            &&& expand(lines, i).lines.len() == n * body.lines.len() + rest.lines.len()
            &&& expand(lines, i).used == 1 + body.used + rest.used
        }),
{
    lemma_repeat_len(expand(lines, i + 1).lines, n as nat);
}

/// A repeat block that the end of the input cuts short is written once: where
/// line `i` opens a block and no `endr` closes it, the expansion from `i` is
/// the expansion of the body, and it uses up the rest of the input.
pub proof fn law_open_block_once(lines: Seq<Seq<char>>, i: int, n: usize)
    requires
        0 <= i < lines.len(),
        classify(lines[i]) == Directive::Open(n),
        !expand(lines, i + 1).closed,
    ensures
        expand(lines, i).lines == expand(lines, i + 1).lines,
        i + expand(lines, i).used == lines.len(),
{
    lemma_expand_bounds(lines, i + 1);
}

/// A block of `k` plain lines with count `n` yields exactly `n * k` lines in
/// the place of the block.
pub proof fn law_flat_block(lines: Seq<Seq<char>>, i: int, n: usize, k: int)
    requires
        0 <= i,
        0 <= k,
        i + 1 + k < lines.len(),
        classify(lines[i]) == Directive::Open(n),
        forall|j: int| i < j <= i + k ==> classify(#[trigger] lines[j]) is Keep,
        classify(lines[i + 1 + k]) is Close,
    ensures
        expand(lines, i).lines == repeat(lines.subrange(i + 1, i + 1 + k), n as nat) + expand(
            lines,
            i + k + 2,
        ).lines,
        repeat(lines.subrange(i + 1, i + 1 + k), n as nat).len() == n * k,
        expand(lines, i).used == k + 2 + expand(lines, i + k + 2).used,
{
    lemma_plain_run(lines, i + 1, k);
    lemma_repeat_len(lines.subrange(i + 1, i + 1 + k), n as nat);
}

} // verus!
