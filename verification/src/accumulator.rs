//! Filling one window: lines are taken from the flat stream until the next
//! instruction would overflow the window, and the rest is padded with fillers.

use vstd::prelude::*;
use crate::block::texts;
use crate::cycles::Resolver;
use crate::helpers::{
    annotated_line, extract_cycle_count, format_accumulated_instruction, lookup_fails,
    misses_table, resolved, resolved_cost,
};
use crate::models::{Cost, CycleCount};
use crate::numbers::{decimal, push_decimal};
use crate::text::{
    begins_with, contains, holds, push_str, starts_with, to_chars, to_string, trim, trimmed,
};

verus! {

/// Whether a line is blank or a comment from its first character on.
pub open spec fn is_blank_or_comment(line: Seq<char>) -> bool {
    trim(line).len() == 0 || starts_with(trim(line), ";"@)
}

/// Whether a line is a `set` directive.
pub open spec fn is_set_directive(line: Seq<char>) -> bool {
    contains(line, " set "@)
}

/// Whether the accumulator takes a line without an annotation for no code:
/// comments and `equ` lines.
pub open spec fn accumulator_skips(line: Seq<char>) -> bool {
    starts_with(trim(line), ";"@) || contains(line, " equ "@)
}

/// What a line is to the accumulator.
pub enum LineKind {
    /// Blank lines, comments and `set` directives pass through unchanged.
    PassThrough,
    /// A line without cost is left out.
    Skipped,
    /// An instruction, with its cost.
    Costed(Cost),
}

/// What a line is to the accumulator.
pub open spec fn line_kind(costs: Map<Seq<char>, Seq<usize>>, line: Seq<char>) -> LineKind {
    if is_blank_or_comment(line) || is_set_directive(line) {
        LineKind::PassThrough
    } else {
        match resolved_cost(costs, line, accumulator_skips(line)) {
            Some(c) => LineKind::Costed(c),
            None => LineKind::Skipped,
        }
    }
}

/// The lines taken for one window, before padding.
pub struct Scan {
    /// The output lines.
    pub lines: Seq<Seq<char>>,
    /// The position of the first line that was not taken.
    pub next: int,
    /// The cycles that the taken instructions use.
    pub used: int,
}

/// What taking one line does to a window of which `used` cycles are used:
/// `None` where the line is an instruction that does not fit, and the window
/// ends before it; otherwise the line that is written for it, if any, and the
/// cycles used behind it.
pub open spec fn take(kind: LineKind, line: Seq<char>, used: int, target: int, initial: int) -> Option<
    (Option<Seq<char>>, int),
> {
    match kind {
        LineKind::PassThrough => Some((Some(line), used)),
        LineKind::Skipped => Some((None, used)),
        LineKind::Costed(c) => if used + c.effective() > target {
            None
        } else {
            Some(
                (
                    Some(annotated_line(line, c, (initial + used) as usize)),
                    used + c.effective(),
                ),
            )
        },
    }
}

/// Takes lines from position `i` on, `used` cycles of the window being used
/// already: up to the end of the input, to a full window, or to the first
/// instruction that does not fit.
pub open spec fn scan(
    costs: Map<Seq<char>, Seq<usize>>,
    lines: Seq<Seq<char>>,
    i: int,
    used: int,
    target: int,
    initial: int,
) -> Scan
    decreases
            if i < lines.len() {
                lines.len() - i
            } else {
                0
            },
{
    if i < 0 || i >= lines.len() || used >= target {
        Scan { lines: Seq::empty(), next: i, used }
    } else {
        match take(line_kind(costs, lines[i]), lines[i], used, target, initial) {
            None => Scan { lines: Seq::empty(), next: i, used },
            Some((written, behind)) => {
                let rest = scan(costs, lines, i + 1, behind, target, initial);
                Scan {
                    lines: match written {
                        Some(line) => seq![line] + rest.lines,
                        None => rest.lines,
                    },
                    next: rest.next,
                    used: rest.used,
                }
            },
        }
    }
}

/// A filler instruction, annotated with the offset at which it runs.
pub open spec fn filler_line(offset: int) -> Seq<char> {
    "nop\t; 4 cycles\t["@ + decimal(offset as nat) + "]"@
}

/// `n` filler instructions, the first at `offset`, each four cycles long.
pub open spec fn fillers(offset: int, n: nat) -> Seq<Seq<char>>
    decreases n,
{
    if n == 0 {
        Seq::<Seq<char>>::empty()
    } else {
        fillers(offset, (n - 1) as nat).push(filler_line(offset + 4 * (n - 1)))
    }
}

/// The number of fillers that pad a window of which `used` cycles are used.
pub open spec fn padding(used: int, target: int) -> nat {
    if used < target {
        ((target - used) / 4) as nat
    } else {
        0
    }
}

/// One window: the lines taken, the fillers that pad them, the position of the
/// first line not taken, and the offset at the end.
pub open spec fn accumulated(
    costs: Map<Seq<char>, Seq<usize>>,
    lines: Seq<Seq<char>>,
    start: int,
    target: int,
    initial: int,
) -> (Seq<Seq<char>>, int, int) {
    let taken = scan(costs, lines, start, 0, target, initial);
    let n = padding(taken.used, target);
    (taken.lines + fillers(initial + taken.used, n), taken.next, initial + taken.used + 4 * n)
}

/// A scan stays inside the window and inside the input.
pub proof fn lemma_scan_bounds(
    costs: Map<Seq<char>, Seq<usize>>,
    lines: Seq<Seq<char>>,
    i: int,
    used: int,
    target: int,
    initial: int,
)
    requires
        0 <= used <= target,
    ensures
        used <= scan(costs, lines, i, used, target, initial).used <= target,
        0 <= i <= lines.len() ==> i <= scan(costs, lines, i, used, target, initial).next
            <= lines.len(),
        !(0 <= i <= lines.len()) ==> scan(costs, lines, i, used, target, initial).next == i,
    decreases
            if i < lines.len() {
                lines.len() - i
            } else {
                0
            },
{
    if 0 <= i < lines.len() && used < target {
        match line_kind(costs, lines[i]) {
            LineKind::Costed(c) => if used + c.effective() <= target {
                lemma_effective_nonneg(c);
                lemma_scan_bounds(costs, lines, i + 1, used + c.effective(), target, initial);
            },
            _ => lemma_scan_bounds(costs, lines, i + 1, used, target, initial),
        }
    }
}

/// A cost is never negative.
pub proof fn lemma_effective_nonneg(c: Cost)
    ensures
        c.effective() >= 0,
{
    assert(c.second() * c.reg_count >= 0) by (nonlinear_arith)
        requires
            c.second() >= 0,
            c.reg_count >= 0,
    ;
}

/// Whether a line is blank or a comment from its first character on.
fn blank_or_comment(line: &Vec<char>) -> (r: bool)
    ensures
        r == is_blank_or_comment(line@),
{
    let t = trimmed(line);
    t.len() == 0 || begins_with(&t, ";")
}

/// Whether the accumulator takes a line without an annotation for no code.
fn skips(line: &str) -> (r: bool)
    ensures
        r == accumulator_skips(line@),
{
    let chars = to_chars(line);
    begins_with(&trimmed(&chars), ";") || holds(&chars, " equ ")
}

/// What a line is to the accumulator.
pub enum Kind {
    /// Blank lines, comments and `set` directives pass through unchanged.
    PassThrough,
    /// A line without cost is left out.
    Skipped,
    /// An instruction, with its cost.
    Costed(CycleCount),
}

impl View for Kind {
    type V = LineKind;

    open spec fn view(&self) -> LineKind {
        match self {
            Kind::PassThrough => LineKind::PassThrough,
            Kind::Skipped => LineKind::Skipped,
            Kind::Costed(c) => LineKind::Costed(c@),
        }
    }
}

/// Reads what a line is to the accumulator.
pub fn read_kind(resolver: &Resolver, line: &str) -> (r: Kind)
    ensures
        r@ == line_kind(resolver.costs(), line@),
{
    let chars = to_chars(line);
    if blank_or_comment(&chars) || holds(&chars, " set ") {
        return Kind::PassThrough;
    }
    let skip = |l: &str| -> (b: bool)
        ensures
            b == accumulator_skips(l@),
        { skips(l) };
    let cost = extract_cycle_count(resolver, line, skip);
    assert(resolved(cost) == resolved_cost(resolver.costs(), line@, accumulator_skips(line@)));
    match cost {
        Some(c) => Kind::Costed(c),
        None => Kind::Skipped,
    }
}

/// The line that an optional string holds.
pub open spec fn written(s: Option<String>) -> Option<Seq<char>> {
    match s {
        Some(text) => Some(text@),
        None => None,
    }
}

/// Takes one line into a window of `target` cycles that begins at offset
/// `initial` and of which `used` cycles are used. `None` where the line is an
/// instruction that does not fit; otherwise the line that is written for it,
/// if any, and the cycles used behind it.
pub fn take_line(kind: &Kind, line: &str, used: usize, target: usize, initial: usize) -> (r: Option<
    (Option<String>, usize),
>)
    requires
        used <= target,
        initial + target <= usize::MAX,
    ensures
        match take(kind@, line@, used as int, target as int, initial as int) {
            Some((text, behind)) => r matches Some(got) && written(got.0) == text && got.1
                == behind && got.1 <= target,
            None => r is None,
        },
{
    match kind {
        Kind::PassThrough => Some((Some(String::from_str(line)), used)),
        Kind::Skipped => Some((None, used)),
        Kind::Costed(c) => {
            let effective = c.effective();
            if effective > (target - used) as u128 {
                None
            } else {
                let annotated = format_accumulated_instruction(line, c, initial + used);
                Some((Some(annotated), used + effective as usize))
            }
        },
    }
}

/// Appends the fillers that pad a window from `offset` up to `offset + residual`.
fn pad(chunk: &mut Vec<String>, offset: usize, residual: usize) -> (r: usize)
    requires
        offset + residual <= usize::MAX,
    ensures
        texts(final(chunk)@) == texts(old(chunk)@) + fillers(offset as int, (residual / 4) as nat),
        r == offset + 4 * (residual / 4),
{
    let count: usize = residual / 4;
    let mut at: usize = offset;
    let mut done: usize = 0;
    assert(texts(chunk@) =~= texts(old(chunk)@) + fillers(offset as int, 0));
    while done < count
        invariant
            done <= count,
            count == residual / 4,
            offset + residual <= usize::MAX,
            at == offset + 4 * done,
            texts(chunk@) == texts(old(chunk)@) + fillers(offset as int, done as nat),
        decreases count - done,
    {
        let mut line: Vec<char> = Vec::new();
        push_str(&mut line, "nop\t; 4 cycles\t[");
        push_decimal(&mut line, at as u128);
        push_str(&mut line, "]");
        assert(line@ =~= filler_line(at as int));
        let ghost before = chunk@;
        chunk.push(to_string(&line));
        assert(texts(chunk@) =~= texts(before).push(line@));
        at += 4;
        done += 1;
    }
    at
}

/// Fills one window of `target` cycles from `lines[start_index..]`, the window
/// beginning at offset `initial_offset`. Blank lines, comments and `set`
/// directives pass through; a line without cost is left out; an instruction
/// that fits is taken with its annotation; the first one that does not fit
/// ends the window, and so does the end of the input. What is left of the
/// window is padded with four-cycle fillers. Returns the lines of the window,
/// the position of the first line not taken, and the offset at the end.
pub fn accumulate_chunk(
    resolver: &Resolver,
    lines: &[String],
    start_index: usize,
    target: usize,
    initial_offset: usize,
) -> (r: (Vec<String>, usize, usize))
    requires
        initial_offset + target <= usize::MAX,
    ensures
        (texts(r.0@), r.1 as int, r.2 as int) == accumulated(
            resolver.costs(),
            texts(lines@),
            start_index as int,
            target as int,
            initial_offset as int,
        ),
        initial_offset <= r.2 <= initial_offset + target,
        initial_offset + target - r.2 < 4,
        forall|m: int| #[trigger]
            is_exact_run(resolver.costs(), texts(lines@), start_index as int, m, target as int)
                ==> r.2 - initial_offset == target && r.1 == start_index + m && r.0@.len() == m,
{
    let ghost all = texts(lines@);
    let ghost costs = resolver.costs();
    let mut chunk: Vec<String> = Vec::new();
    let mut i: usize = start_index;
    let mut used: usize = 0;
    assert(texts(chunk@) =~= Seq::<Seq<char>>::empty());
    while i < lines.len() && used < target
        invariant
            start_index <= i,
            used <= target,
            initial_offset + target <= usize::MAX,
            all == texts(lines@),
            costs == resolver.costs(),
            scan(costs, all, start_index as int, 0, target as int, initial_offset as int).lines
                == texts(chunk@) + scan(
                costs,
                all,
                i as int,
                used as int,
                target as int,
                initial_offset as int,
            ).lines,
            scan(costs, all, start_index as int, 0, target as int, initial_offset as int).next
                == scan(costs, all, i as int, used as int, target as int, initial_offset as int).next,
            scan(costs, all, start_index as int, 0, target as int, initial_offset as int).used
                == scan(costs, all, i as int, used as int, target as int, initial_offset as int).used,
        ensures
            used <= target,
            scan(costs, all, start_index as int, 0, target as int, initial_offset as int)
                == (Scan { lines: texts(chunk@), next: i as int, used: used as int }),
        decreases lines.len() - i,
    {
        assert(all[i as int] == lines@[i as int]@);
        let line = lines[i].as_str();
        let ghost before = chunk@;
        match take_line(&read_kind(resolver, line), line, used, target, initial_offset) {
            None => {
                break;
            },
            Some((text, behind)) => {
                match text {
                    Some(text) => {
                        chunk.push(text);
                        assert(texts(chunk@) =~= texts(before) + seq![text@]);
                    },
                    None => {},
                }
                used = behind;
            },
        }
        i += 1;
    }
    let end = pad(&mut chunk, initial_offset + used, target - used);
    assert forall|m: int| #[trigger]
        is_exact_run(costs, all, start_index as int, m, target as int) implies end
        - initial_offset == target && i == start_index + m && chunk@.len() == m by {
        law_exact_run(costs, all, start_index as int, m, target as int, initial_offset as int);
        assert(texts(chunk@).len() == chunk@.len());
    }
    (chunk, i, end)
}

/// The cycles that a line adds to a window.
pub open spec fn line_cost(costs: Map<Seq<char>, Seq<usize>>, line: Seq<char>) -> int {
    match line_kind(costs, line) {
        LineKind::Costed(c) => c.effective(),
        _ => 0,
    }
}

/// The cycles that the lines `lines[i..k]` add up to.
pub open spec fn cost_between(
    costs: Map<Seq<char>, Seq<usize>>,
    lines: Seq<Seq<char>>,
    i: int,
    k: int,
) -> int
    decreases k - i,
{
    if i >= k {
        0
    } else {
        line_cost(costs, lines[i]) + cost_between(costs, lines, i + 1, k)
    }
}

/// Lines never add up to a negative cost.
proof fn lemma_cost_between_nonneg(
    costs: Map<Seq<char>, Seq<usize>>,
    lines: Seq<Seq<char>>,
    i: int,
    k: int,
)
    ensures
        cost_between(costs, lines, i, k) >= 0,
    decreases k - i,
{
    if i < k {
        lemma_cost_between_nonneg(costs, lines, i + 1, k);
        match line_kind(costs, lines[i]) {
            LineKind::Costed(c) => lemma_effective_nonneg(c),
            _ => {},
        }
    }
}

/// A scan whose lines add up to what is left of the window fills the window.
proof fn lemma_scan_reaches(
    costs: Map<Seq<char>, Seq<usize>>,
    lines: Seq<Seq<char>>,
    i: int,
    k: int,
    used: int,
    target: int,
    initial: int,
)
    requires
        0 <= i <= k <= lines.len(),
        0 <= used,
        used + cost_between(costs, lines, i, k) == target,
    ensures
        scan(costs, lines, i, used, target, initial).used == target,
    decreases k - i,
{
    lemma_cost_between_nonneg(costs, lines, i, k);
    if i < k && used < target {
        lemma_cost_between_nonneg(costs, lines, i + 1, k);
        match line_kind(costs, lines[i]) {
            LineKind::Costed(c) => {
                lemma_effective_nonneg(c);
                lemma_scan_reaches(costs, lines, i + 1, k, used + c.effective(), target, initial);
            },
            _ => lemma_scan_reaches(costs, lines, i + 1, k, used, target, initial),
        }
    }
}

/// A window that the stream fills exactly takes no filler: where the lines
/// from `start` up to some position add up to exactly `target` cycles, the
/// window ends `target` cycles behind its initial offset and holds the taken
/// lines alone.
pub proof fn law_exact_fill(
    costs: Map<Seq<char>, Seq<usize>>,
    lines: Seq<Seq<char>>,
    start: int,
    k: int,
    target: int,
    initial: int,
)
    requires
        0 <= start <= k <= lines.len(),
        cost_between(costs, lines, start, k) == target,
    ensures
        accumulated(costs, lines, start, target, initial).2 - initial == target,
        accumulated(costs, lines, start, target, initial).0 == scan(
            costs,
            lines,
            start,
            0,
            target,
            initial,
        ).lines,
{
    lemma_scan_reaches(costs, lines, start, k, 0, target, initial);
    let taken = scan(costs, lines, start, 0, target, initial);
    assert(fillers(initial + taken.used, 0) =~= Seq::<Seq<char>>::empty());
    assert(taken.lines + Seq::<Seq<char>>::empty() =~= taken.lines);
}

/// Whether `lines[start..start + m]` is a run of instructions, each of at
/// least one cycle, that add up to exactly `target` cycles.
pub open spec fn is_exact_run(
    costs: Map<Seq<char>, Seq<usize>>,
    lines: Seq<Seq<char>>,
    start: int,
    m: int,
    target: int,
) -> bool {
    &&& 0 <= start
    &&& 0 <= m
    &&& start + m <= lines.len()
    &&& forall|j: int|
        start <= j < start + m ==> (#[trigger] line_kind(costs, lines[j]) matches LineKind::Costed(c)
            && c.effective() >= 1)
    &&& cost_between(costs, lines, start, start + m) == target
}

/// A scan over a run of instructions that add up to what is left of the
/// window takes the whole run and nothing else.
proof fn lemma_scan_takes_run(
    costs: Map<Seq<char>, Seq<usize>>,
    lines: Seq<Seq<char>>,
    i: int,
    m: int,
    used: int,
    target: int,
    initial: int,
)
    requires
        0 <= i,
        0 <= m,
        i + m <= lines.len(),
        forall|j: int|
            i <= j < i + m ==> (#[trigger] line_kind(costs, lines[j]) matches LineKind::Costed(c)
                && c.effective() >= 1),
        0 <= used,
        used + cost_between(costs, lines, i, i + m) == target,
    ensures
        scan(costs, lines, i, used, target, initial).used == target,
        scan(costs, lines, i, used, target, initial).next == i + m,
        scan(costs, lines, i, used, target, initial).lines.len() == m,
    decreases m,
{
    if m > 0 {
        lemma_cost_between_nonneg(costs, lines, i + 1, i + m);
        assert(line_kind(costs, lines[i]) is Costed);
        let c = line_kind(costs, lines[i])->Costed_0;
        assert(c.effective() >= 1);
        lemma_scan_takes_run(costs, lines, i + 1, m - 1, used + c.effective(), target, initial);
    }
}

/// A window that a run of instructions fills exactly holds that run and no
/// filler: where the `m` lines from `start` on are instructions of at least
/// one cycle each that add up to exactly `target` cycles, the window ends
/// `target` cycles behind its initial offset, the next line to take is the
/// one behind the run, and the window has `m` lines.
pub proof fn law_exact_run(
    costs: Map<Seq<char>, Seq<usize>>,
    lines: Seq<Seq<char>>,
    start: int,
    m: int,
    target: int,
    initial: int,
)
    requires
        is_exact_run(costs, lines, start, m, target),
    ensures
        accumulated(costs, lines, start, target, initial).2 - initial == target,
        accumulated(costs, lines, start, target, initial).1 == start + m,
        accumulated(costs, lines, start, target, initial).0.len() == m,
        accumulated(costs, lines, start, target, initial).0 == scan(
            costs,
            lines,
            start,
            0,
            target,
            initial,
        ).lines,
{
    lemma_scan_takes_run(costs, lines, start, m, 0, target, initial);
    let taken = scan(costs, lines, start, 0, target, initial);
    assert(fillers(initial + taken.used, 0) =~= Seq::<Seq<char>>::empty());
    assert(taken.lines + Seq::<Seq<char>>::empty() =~= taken.lines);
}

/// A window never ends behind its budget, and ends short of it by less than
/// one filler; it ends on the budget exactly where what is left after the
/// taken lines is a multiple of four cycles.
pub proof fn law_window_closes(
    costs: Map<Seq<char>, Seq<usize>>,
    lines: Seq<Seq<char>>,
    start: int,
    target: int,
    initial: int,
)
    requires
        0 <= target,
    ensures
        ({
            let end = accumulated(costs, lines, start, target, initial).2;
            let used = scan(costs, lines, start, 0, target, initial).used;
            &&& initial <= end <= initial + target
            &&& initial + target - end < 4
            &&& (end - initial == target <==> (target - used) % 4 == 0)
        }),
{
    lemma_scan_bounds(costs, lines, start, 0, target, initial);
}

/// Whether the accumulator takes a line for an instruction that the cost
/// table does not know.
pub open spec fn is_unknown(costs: Map<Seq<char>, Seq<usize>>, line: Seq<char>) -> bool {
    &&& !is_blank_or_comment(line)
    &&& !is_set_directive(line)
    &&& misses_table(costs, line, accumulator_skips(line))
}

/// Whether the accumulator takes a line for an instruction that the cost
/// table does not know: the line is then accounted with zero cycles.
pub fn lacks_cost(resolver: &Resolver, line: &str) -> (r: bool)
    ensures
        r == is_unknown(resolver.costs(), line@),
{
    let chars = to_chars(line);
    if blank_or_comment(&chars) || holds(&chars, " set ") {
        return false;
    }
    lookup_fails(resolver, line, skips(line))
}

} // verus!
