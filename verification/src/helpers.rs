//! Cost resolution for one line, and the annotation written behind a line.

use vstd::prelude::*;
use crate::cycles::{canonical_key, lookup_cycles, normalize_line_ext, Resolver, table_cost};
use crate::matcher::{
    group, group_chars, group_span, group_text, Groups, matches_ordered, matches_view,
    spans_inside,
};
use crate::models::{Cost, CycleCount};
use crate::numbers::{decimal, parse_unsigned, parse_usize, push_decimal};
use crate::patterns::{matches_of, Pattern};
use crate::text::{push_str, to_chars, to_string};

verus! {

/// The cost that an inline annotation `(n)` gives a line, given the matches
/// `ms` of the annotation pattern in it: the number of the first annotation,
/// or 0 where that number cannot be read.
pub open spec fn annotation_with(line: Seq<char>, ms: Seq<Seq<Option<(usize, usize)>>>) -> Option<
    usize,
> {
    if ms.len() == 0 {
        None
    } else if group(ms[0], 1) is Some {
        match parse_unsigned(group_text(line, ms[0], 1)) {
            Some(n) => Some(n),
            None => Some(0usize),
        }
    } else {
        Some(0usize)
    }
}

/// The cost that an inline annotation `(n)` gives a line, where the line has one.
pub open spec fn annotation(line: Seq<char>) -> Option<usize> {
    annotation_with(line, matches_of(Pattern::Number, line))
}

/// The cost that an annotation of `n` cycles stands for.
pub open spec fn annotated_cost(n: usize) -> Cost {
    Cost { cycles: seq![n], lookup: "n/a"@, reg_count: 0 }
}

/// The cost of a line, given the answer `skip` of the caller's predicate: an
/// inline annotation wins over everything; without one a skipped line has no
/// cost, and any other line has the cost that the table gives it.
pub open spec fn resolved_cost(
    costs: Map<Seq<char>, Seq<usize>>,
    line: Seq<char>,
    skip: bool,
) -> Option<Cost> {
    match annotation(line) {
        Some(n) => Some(annotated_cost(n)),
        None => if skip {
            None
        } else {
            Some(table_cost(costs, line))
        },
    }
}

/// The number of the first inline annotation of a line, given the matches
/// `found` of the annotation pattern in it.
pub fn annotation_from(line: &Vec<char>, found: &Vec<Groups>) -> (r: Option<usize>)
    requires
        matches_ordered(matches_view(found@), line@.len()),
    ensures
        r == annotation_with(line@, matches_view(found@)),
{
    if found.len() == 0 {
        return None;
    }
    let m = &found[0];
    assert(m@ == matches_view(found@)[0]);
    assert(spans_inside(matches_view(found@)[0], line@.len()));
    if group_span(m, 1).is_some() {
        match parse_usize(&group_chars(line, m, 1)) {
            Some(n) => Some(n),
            None => Some(0),
        }
    } else {
        Some(0)
    }
}

/// The number of the first inline annotation of a line, where it has one.
pub fn read_annotation(resolver: &Resolver, line: &Vec<char>) -> (r: Option<usize>)
    ensures
        r == annotation(line@),
{
    let found = resolver.patterns().find(Pattern::Number, line);
    annotation_from(line, &found)
}

/// Resolves the cost of a line. An inline annotation `(n)` is taken as it
/// stands, under the key `n/a`. Without one, the line has no cost where
/// `should_skip` says that it is no code, and the cost that the table gives it
/// otherwise.
pub fn extract_cycle_count<F>(resolver: &Resolver, line: &str, should_skip: F) -> (r: Option<
    CycleCount,
>) where F: Fn(&str) -> bool
    requires
        call_requires(should_skip, (line,)),
    ensures
        exists|skip: bool|
            {
                &&& annotation(line@) is None ==> call_ensures(should_skip, (line,), skip)
                &&& resolved(r) == resolved_cost(resolver.costs(), line@, skip)
            },
{
    let chars = to_chars(line);
    match read_annotation(resolver, &chars) {
        Some(n) => {
            let mut cycles: Vec<usize> = Vec::new();
            cycles.push(n);
            let r = Some(CycleCount::new(cycles, String::from_str("n/a"), 0));
            assert(resolved(r) == resolved_cost(resolver.costs(), line@, true));
            r
        },
        None => {
            let skip = should_skip(line);
            let r = if skip {
                None
            } else {
                Some(lookup_cycles(resolver, line))
            };
            assert(resolved(r) == resolved_cost(resolver.costs(), line@, skip));
            r
        },
    }
}

/// What a resolved cost holds, as plain values.
pub open spec fn resolved(r: Option<CycleCount>) -> Option<Cost> {
    match r {
        Some(c) => Some(c@),
        None => None,
    }
}

/// How the cost of a line is written in its annotation: `not-taken/taken` for
/// two components, the sum with its parts for a register-list form, and the
/// base cost alone otherwise.
pub open spec fn cost_text(c: Cost) -> Seq<char> {
    if c.cycles.len() > 1 && !c.is_register_list() {
        decimal(c.base() as nat) + "/"@ + decimal(c.second() as nat)
    } else if c.cycles.len() > 1 {
        decimal((c.base() + c.reg_count * c.second()) as nat) + " -> [base ("@ + decimal(
            c.base() as nat,
        ) + ") + (reg count ("@ + decimal(c.reg_count as nat) + ") * reg ("@ + decimal(
            c.second() as nat,
        ) + "))]"@
    } else {
        decimal(c.base() as nat)
    }
}

/// A line with its annotation: the cost, the key, and the running offset where
/// that is not zero.
pub open spec fn annotated_line(line: Seq<char>, c: Cost, offset: usize) -> Seq<char> {
    line + "\t;\t("@ + cost_text(c) + ")\t"@ + c.lookup + if offset > 0 {
        "\t["@ + decimal(offset as nat) + "]"@
    } else {
        Seq::<char>::empty()
    }
}

/// Writes a line with its cost, its key and the running offset behind it.
pub fn format_accumulated_instruction(line: &str, cycle_count: &CycleCount, offset: usize) -> (r:
    String)
    ensures
        r@ == annotated_line(line@, cycle_count@, offset),
{
    let mut out: Vec<char> = Vec::new();
    let paired = cycle_count.get_cycles().len() > 1;
    let base = cycle_count.base();
    let second = cycle_count.cycles_per_reg();
    let lookup = cycle_count.get_lookup();
    push_str(&mut out, line);
    push_str(&mut out, "\t;\t(");
    if paired && !cycle_count.is_register_list() {
        push_decimal(&mut out, base as u128);
        push_str(&mut out, "/");
        push_decimal(&mut out, second as u128);
    } else if paired {
        let n = cycle_count.get_reg_count();
        assert(n * second <= 0xffff_ffff_ffff_ffff * 0xffff_ffff_ffff_ffff) by (nonlinear_arith)
            requires
                0 <= n <= 0xffff_ffff_ffff_ffff,
                0 <= second <= 0xffff_ffff_ffff_ffff,
        ;
        push_decimal(&mut out, base as u128 + (n as u128) * (second as u128));
        push_str(&mut out, " -> [base (");
        push_decimal(&mut out, base as u128);
        push_str(&mut out, ") + (reg count (");
        push_decimal(&mut out, n as u128);
        push_str(&mut out, ") * reg (");
        push_decimal(&mut out, second as u128);
        push_str(&mut out, "))]");
    } else {
        push_decimal(&mut out, base as u128);
    }
    push_str(&mut out, ")\t");
    push_str(&mut out, lookup.as_str());
    if offset > 0 {
        push_str(&mut out, "\t[");
        push_decimal(&mut out, offset as u128);
        push_str(&mut out, "]");
    }
    assert(out@ =~= annotated_line(line@, cycle_count@, offset));
    to_string(&out)
}

/// Whether the cost of a line is looked up in the table and not found there,
/// given the answer `skip` of the caller's predicate. Such a line costs zero
/// cycles, and the accounting around it is understated.
pub open spec fn misses_table(costs: Map<Seq<char>, Seq<usize>>, line: Seq<char>, skip: bool) -> bool {
    annotation(line) is None && !skip && !costs.contains_key(canonical_key(line))
}

/// Whether the cost of a line is looked up in the table and not found there.
pub fn lookup_fails(resolver: &Resolver, line: &str, skip: bool) -> (r: bool)
    ensures
        r == misses_table(resolver.costs(), line@, skip),
{
    if skip || read_annotation(resolver, &to_chars(line)).is_some() {
        return false;
    }
    let (key, _) = normalize_line_ext(resolver.patterns(), line);
    resolver.table().get(key.as_str()).is_none()
}

} // verus!
