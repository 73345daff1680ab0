//! One scanline of the document: the injected code of each template section,
//! each followed by the instructions that fill its budget.

use vstd::prelude::*;
use crate::accumulator::{accumulate_chunk, accumulated};
use crate::block::{append_lines, texts};
use crate::cycles::Resolver;
use crate::numbers::{decimal, push_decimal};
use crate::template::{code_view, Section, section_views, TemplateSection};
use crate::text::{push_str, to_chars, to_string};

verus! {

/// A window that did not end on its budget.
#[derive(Clone, Copy, Debug, PartialEq, Eq)]
pub struct Mismatch {
    /// The cycles that the window holds.
    pub accumulated: usize,
    /// The cycles that it was meant to hold.
    pub target: usize,
    /// The position in the stream at which it began.
    pub start: usize,
}

/// A scanline under construction.
pub struct Layout {
    /// The lines written so far.
    pub lines: Seq<Seq<char>>,
    /// The position in the stream of the next line to take.
    pub index: int,
    /// The running offset inside the scanline.
    pub offset: int,
    /// The cycles that the scanline accounts for.
    pub cycles: int,
    /// The windows that did not end on their budget.
    pub mismatches: Seq<Mismatch>,
}

/// The cost of the first `n` lines of injected code.
pub open spec fn code_cost(code: Seq<(Seq<char>, usize)>, n: int) -> int
    decreases n,
{
    if n <= 0 {
        0
    } else {
        code_cost(code, n - 1) + code[n - 1].1
    }
}

/// The `i`-th line of injected code as it is written at `offset`: the first
/// line of a section carries the offset at which the section begins.
pub open spec fn injected_line(code: Seq<(Seq<char>, usize)>, i: int, offset: int) -> Seq<char> {
    if i == 0 {
        code[i].0 + "\t["@ + decimal(offset as nat) + "]"@
    } else {
        code[i].0
    }
}

/// The injected code of a section that begins at `offset`.
pub open spec fn injected(code: Seq<(Seq<char>, usize)>, offset: int) -> Seq<Seq<char>> {
    Seq::new(code.len(), |i: int| injected_line(code, i, offset))
}

/// The line that names a section.
pub open spec fn banner(label: Seq<char>) -> Seq<char> {
    "; --- "@ + label + " section ---"@
}

/// The line that states the offset behind a section.
pub open spec fn calculated_line(offset: int) -> Seq<char> {
    "; Calculated cycles: "@ + decimal(offset as nat)
}

/// The line that pads a scanline up to its budget.
pub open spec fn pad_line(count: int, budget: int, remaining: int) -> Seq<char> {
    "\tdcb.w\t"@ + decimal(count as nat) + ",$4e71\t; Pad to "@ + decimal(budget as nat)
        + " cycles ("@ + decimal(remaining as nat) + " cycles)"@
}

/// The line that states the cycles of a scanline.
pub open spec fn total_line(cycles: int) -> Seq<char> {
    "; Total cycles for scanline: "@ + decimal(cycles as nat)
}

/// The scanline before its first section, the stream standing at `start`.
pub open spec fn blank(start: int) -> Layout {
    Layout { lines: Seq::empty(), index: start, offset: 0, cycles: 0, mismatches: Seq::empty() }
}

/// A scanline with one more section: its injected code, its banner, the
/// window that fills its budget where it has one and the stream has lines
/// left, and the offset behind it. `None` where the cycles of the scanline
/// exceed the machine word.
pub open spec fn with_section(
    costs: Map<Seq<char>, Seq<usize>>,
    lines: Seq<Seq<char>>,
    w: Layout,
    s: Section,
) -> Option<Layout> {
    let cost = code_cost(s.injection_code, s.injection_code.len() as int);
    let offset = w.offset + cost;
    let head = w.lines + injected(s.injection_code, w.offset) + seq![banner(s.label)];
    if s.nop_cycles > 0 && w.index < lines.len() {
        if w.cycles + cost + s.nop_cycles > usize::MAX {
            None
        } else {
            let window = accumulated(costs, lines, w.index, s.nop_cycles as int, offset);
            Some(
                Layout {
                    lines: head + window.0 + seq![calculated_line(window.2)],
                    index: window.1,
                    offset: window.2,
                    cycles: w.cycles + cost + s.nop_cycles,
                    mismatches: if window.2 - offset != s.nop_cycles {
                        w.mismatches.push(
                            Mismatch {
                                accumulated: (window.2 - offset) as usize,
                                target: s.nop_cycles,
                                start: w.index as usize,
                            },
                        )
                    } else {
                        w.mismatches
                    },
                },
            )
        }
    } else if w.cycles + cost > usize::MAX {
        None
    } else {
        Some(
            Layout {
                lines: head + seq![calculated_line(offset)],
                index: w.index,
                offset,
                cycles: w.cycles + cost,
                mismatches: w.mismatches,
            },
        )
    }
}

/// The scanline after the first `n` sections of the template.
pub open spec fn through(
    costs: Map<Seq<char>, Seq<usize>>,
    lines: Seq<Seq<char>>,
    sections: Seq<Section>,
    n: int,
    start: int,
) -> Option<Layout>
    decreases n,
{
    if n <= 0 {
        Some(blank(start))
    } else {
        match through(costs, lines, sections, n - 1, start) {
            Some(w) => with_section(costs, lines, w, sections[n - 1]),
            None => None,
        }
    }
}

/// A finished scanline, as plain values.
pub struct Assembled {
    pub lines: Seq<Seq<char>>,
    pub next_index: int,
    pub cycles: int,
    pub overflow: int,
    pub mismatches: Seq<Mismatch>,
}

/// The scanline closed against its budget: padded up to it where it is
/// short, and left as it is, with the excess noted, where it is over.
pub open spec fn closed(w: Layout, budget: int) -> Assembled {
    if w.cycles < budget {
        let remaining = budget - w.cycles;
        let body = if remaining / 4 > 0 {
            w.lines.push(pad_line(remaining / 4, budget, remaining))
        } else {
            w.lines
        };
        Assembled {
            lines: body.push(total_line(budget)),
            next_index: w.index,
            cycles: budget,
            overflow: 0,
            mismatches: w.mismatches,
        }
    } else {
        Assembled {
            lines: w.lines.push(total_line(w.cycles)),
            next_index: w.index,
            cycles: w.cycles,
            overflow: w.cycles - budget,
            mismatches: w.mismatches,
        }
    }
}

/// One scanline of the document.
pub struct Scanline {
    /// The lines of the scanline.
    pub lines: Vec<String>,
    /// The position in the stream of the first line not taken.
    pub next_index: usize,
    /// The cycles of the scanline: its budget, or more where it overflows.
    pub cycles: usize,
    /// The cycles by which the scanline exceeds its budget.
    pub overflow: usize,
    /// The windows that did not end on their budget.
    pub mismatches: Vec<Mismatch>,
}

impl View for Scanline {
    type V = Assembled;

    open spec fn view(&self) -> Assembled {
        Assembled {
            lines: texts(self.lines@),
            next_index: self.next_index as int,
            cycles: self.cycles as int,
            overflow: self.overflow as int,
            mismatches: self.mismatches@,
        }
    }
}

/// A scanline under construction.
struct Builder {
    lines: Vec<String>,
    index: usize,
    offset: usize,
    cycles: usize,
    mismatches: Vec<Mismatch>,
}

impl View for Builder {
    type V = Layout;

    closed spec fn view(&self) -> Layout {
        Layout {
            lines: texts(self.lines@),
            index: self.index as int,
            offset: self.offset as int,
            cycles: self.cycles as int,
            mismatches: self.mismatches@,
        }
    }
}

/// More lines of injected code cost no less.
proof fn lemma_code_cost_grows(code: Seq<(Seq<char>, usize)>, i: int, n: int)
    requires
        0 <= i <= n,
    ensures
        0 <= code_cost(code, i) <= code_cost(code, n),
    decreases n,
{
    if i < n {
        lemma_code_cost_grows(code, i, n - 1);
    } else if n > 0 {
        lemma_code_cost_grows(code, i - 1, n - 1);
    }
}

/// Appends the line made of `chars`.
fn push_line(dst: &mut Vec<String>, chars: &Vec<char>)
    ensures
        texts(final(dst)@) == texts(old(dst)@).push(chars@),
{
    dst.push(to_string(chars));
    assert(texts(dst@) =~= texts(old(dst)@).push(chars@));
}

/// The cost of the injected code of a section, where it fits the machine word.
fn sum_code(code: &Vec<(String, usize)>) -> (r: Option<usize>)
    ensures
        r matches Some(n) ==> n == code_cost(code_view(code@), code@.len() as int),
        r is None ==> code_cost(code_view(code@), code@.len() as int) > usize::MAX,
{
    let mut total: usize = 0;
    let mut i: usize = 0;
    while i < code.len()
        invariant
            i <= code.len(),
            total == code_cost(code_view(code@), i as int),
        decreases code.len() - i,
    {
        assert(code_view(code@)[i as int].1 == code@[i as int].1);
        match total.checked_add(code[i].1) {
            Some(next) => {
                total = next;
            },
            None => {
                proof {
                    lemma_code_cost_grows(code_view(code@), i + 1, code@.len() as int);
                }
                return None;
            },
        }
        i += 1;
    }
    Some(total)
}

/// Appends the injected code of a section that begins at `offset`.
fn push_injected(dst: &mut Vec<String>, code: &Vec<(String, usize)>, offset: usize)
    ensures
        texts(final(dst)@) == texts(old(dst)@) + injected(code_view(code@), offset as int),
{
    let ghost all = injected(code_view(code@), offset as int);
    let mut i: usize = 0;
    assert(texts(dst@) =~= texts(old(dst)@) + all.subrange(0, 0));
    while i < code.len()
        invariant
            i <= code.len(),
            all == injected(code_view(code@), offset as int),
            texts(dst@) == texts(old(dst)@) + all.subrange(0, i as int),
        decreases code.len() - i,
    {
        let mut line = to_chars(code[i].0.as_str());
        if i == 0 {
            push_str(&mut line, "\t[");
            push_decimal(&mut line, offset as u128);
            push_str(&mut line, "]");
        }
        assert(code_view(code@)[i as int].0 == code@[i as int].0@);
        assert(line@ =~= all[i as int]);
        push_line(dst, &line);
        i += 1;
        assert(all.subrange(0, i as int) =~= all.subrange(0, i - 1).push(all[i - 1]));
    }
    assert(all.subrange(0, all.len() as int) =~= all);
}

/// Appends the line that states the offset behind a section.
fn push_calculated(dst: &mut Vec<String>, offset: usize)
    ensures
        texts(final(dst)@) == texts(old(dst)@).push(calculated_line(offset as int)),
{
    let mut line: Vec<char> = Vec::new();
    push_str(&mut line, "; Calculated cycles: ");
    push_decimal(&mut line, offset as u128);
    assert(line@ =~= calculated_line(offset as int));
    push_line(dst, &line);
}

impl Builder {
    /// Adds one section of the template.
    fn add(self, resolver: &Resolver, flat: &[String], section: &TemplateSection) -> (r: Option<
        Builder,
    >)
        requires
            self.offset <= self.cycles,
        ensures
            match with_section(resolver.costs(), texts(flat@), self@, section@) {
                Some(w) => r matches Some(b) && b@ == w && b.offset <= b.cycles,
                None => r is None,
            },
    {
        let ghost before = self@;
        let ghost code = section@.injection_code;
        let cost = match sum_code(&section.injection_code) {
            Some(cost) => cost,
            None => {
                return None;
            },
        };
        let mut lines = self.lines;
        push_injected(&mut lines, &section.injection_code, self.offset);
        let mut title: Vec<char> = Vec::new();
        push_str(&mut title, "; --- ");
        push_str(&mut title, section.label.as_str());
        push_str(&mut title, " section ---");
        assert(title@ =~= banner(section@.label));
        push_line(&mut lines, &title);
        assert(texts(lines@) =~= before.lines + injected(code, before.offset) + seq![
            banner(section@.label),
        ]);
        let ghost head = texts(lines@);
        let spent = match self.cycles.checked_add(cost) {
            Some(spent) => spent,
            None => {
                return None;
            },
        };
        let offset = self.offset + cost;
        if section.nop_cycles > 0 && self.index < flat.len() {
            let cycles = match spent.checked_add(section.nop_cycles) {
                Some(cycles) => cycles,
                None => {
                    return None;
                },
            };
            let (chunk, next, end) = accumulate_chunk(
                resolver,
                flat,
                self.index,
                section.nop_cycles,
                offset,
            );
            append_lines(&mut lines, &chunk);
            push_calculated(&mut lines, end);
            let mut mismatches = self.mismatches;
            if end - offset != section.nop_cycles {
                mismatches.push(
                    Mismatch {
                        accumulated: end - offset,
                        target: section.nop_cycles,
                        start: self.index,
                    },
                );
            }
            assert(texts(lines@) =~= head + texts(chunk@) + seq![calculated_line(end as int)]);
            Some(Builder { lines, index: next, offset: end, cycles, mismatches })
        } else {
            push_calculated(&mut lines, offset);
            assert(texts(lines@) =~= head + seq![calculated_line(offset as int)]);
            Some(
                Builder {
                    lines,
                    index: self.index,
                    offset,
                    cycles: spent,
                    mismatches: self.mismatches,
                },
            )
        }
    }

    /// Closes the scanline against its budget.
    fn close(self, budget: usize) -> (r: Scanline)
        ensures
            r@ == closed(self@, budget as int),
    {
        let mut lines = self.lines;
        let ghost before = texts(lines@);
        let cycles = if self.cycles < budget {
            let remaining = budget - self.cycles;
            let count = remaining / 4;
            if count > 0 {
                let mut pad: Vec<char> = Vec::new();
                push_str(&mut pad, "\tdcb.w\t");
                push_decimal(&mut pad, count as u128);
                push_str(&mut pad, ",$4e71\t; Pad to ");
                push_decimal(&mut pad, budget as u128);
                push_str(&mut pad, " cycles (");
                push_decimal(&mut pad, remaining as u128);
                push_str(&mut pad, " cycles)");
                assert(pad@ =~= pad_line(count as int, budget as int, remaining as int));
                push_line(&mut lines, &pad);
            }
            budget
        } else {
            self.cycles
        };
        let mut total: Vec<char> = Vec::new();
        push_str(&mut total, "; Total cycles for scanline: ");
        push_decimal(&mut total, cycles as u128);
        assert(total@ =~= total_line(cycles as int));
        push_line(&mut lines, &total);
        Scanline {
            lines,
            next_index: self.index,
            cycles,
            overflow: if self.cycles > budget {
                self.cycles - budget
            } else {
                0
            },
            mismatches: self.mismatches,
        }
    }
}

/// Builds one scanline: for each section of the template its injected code,
/// its banner, and a window of instructions from `flat_lines` that fills its
/// filler budget; at the end the scanline is padded up to `budget` cycles.
/// `None` where the cycles of the scanline exceed the machine word.
pub fn build_scanline(
    resolver: &Resolver,
    sections: &[TemplateSection],
    flat_lines: &[String],
    start_index: usize,
    budget: usize,
) -> (r: Option<Scanline>)
    ensures
        match through(
            resolver.costs(),
            texts(flat_lines@),
            section_views(sections@),
            sections@.len() as int,
            start_index as int,
        ) {
            Some(w) => r matches Some(s) && s@ == closed(w, budget as int),
            None => r is None,
        },
{
    let ghost costs = resolver.costs();
    let ghost all = texts(flat_lines@);
    let ghost views = section_views(sections@);
    let mut builder = Builder {
        lines: Vec::new(),
        index: start_index,
        offset: 0,
        cycles: 0,
        mismatches: Vec::new(),
    };
    assert(builder@.lines =~= Seq::<Seq<char>>::empty());
    let mut n: usize = 0;
    while n < sections.len()
        invariant
            n <= sections.len(),
            costs == resolver.costs(),
            all == texts(flat_lines@),
            views == section_views(sections@),
            builder.offset <= builder.cycles,
            through(costs, all, views, n as int, start_index as int) == Some(builder@),
        decreases sections.len() - n,
    {
        assert(views[n as int] == sections@[n as int]@);
        match builder.add(resolver, flat_lines, &sections[n]) {
            Some(next) => {
                builder = next;
            },
            None => {
                proof {
                    lemma_through_fails(costs, all, views, n + 1, views.len() as int, start_index as int);
                }
                return None;
            },
        }
        n += 1;
    }
    Some(builder.close(budget))
}

/// Once a section has failed, the rest of the template changes nothing.
proof fn lemma_through_fails(
    costs: Map<Seq<char>, Seq<usize>>,
    lines: Seq<Seq<char>>,
    sections: Seq<Section>,
    k: int,
    n: int,
    start: int,
)
    requires
        0 <= k <= n,
        through(costs, lines, sections, k, start) is None,
    ensures
        through(costs, lines, sections, n, start) is None,
    decreases n - k,
{
    if k < n {
        lemma_through_fails(costs, lines, sections, k, n - 1, start);
    }
}

} // verus!
