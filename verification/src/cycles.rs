//! Canonical keys for instruction lines, and the cost table they are looked up in.

use vstd::prelude::*;
use crate::matcher::{
    group, group_chars, group_span, group_text, Groups, matches_ordered, matches_view,
    regex_accepts, spans_inside, whole_end,
};
use crate::models::{copy_of, Cost, CycleCount};
use crate::numbers::{digit_value, is_digit};
use crate::patterns::{all_accepted, matches_of, Pattern, pattern_text, Patterns, Rejected};
use crate::rewrite::{rewrite, rewrite_first, rewritten, rewritten_first, Rule, splice};
use crate::text::{
    contains, find_char, find_whitespace, holds, index_of_from, lemma_index_of_from_bounds,
    lowercase, push_chars, push_range, push_str, replace_from, replace_literal, slice, to_chars,
    to_string, trim, trimmed, whitespace_from,
};

verus! {

/// A count capped at the largest machine word.
pub open spec fn capped(n: int) -> usize {
    if n <= 0 {
        0
    } else if n >= usize::MAX {
        usize::MAX
    } else {
        n as usize
    }
}

/// The value of the last character of `p`, where it is a digit.
pub open spec fn trailing_digit(p: Seq<char>) -> Option<int> {
    if p.len() > 0 && is_digit(p.last()) {
        Some(digit_value(p.last()))
    } else {
        None
    }
}

/// The number of registers that one segment of a register list names: a range
/// `a-b` expands inclusively by the distance of its trailing digits, anything
/// else counts as one register, a malformed range too.
pub open spec fn segment_registers(p: Seq<char>) -> int {
    let dash = index_of_from(p, '-', 0);
    if dash >= p.len() || index_of_from(p, '-', dash + 1) < p.len() {
        1
    } else {
        match (trailing_digit(p.take(dash)), trailing_digit(p.skip(dash + 1))) {
            (Some(lo), Some(hi)) => if hi >= lo {
                hi - lo + 1
            } else {
                1
            },
            _ => 1,
        }
    }
}

/// The number of registers named by the segments of `s` from position `i` on,
/// the segments being separated by `/`.
pub open spec fn registers_from(s: Seq<char>, i: int) -> int
    decreases s.len() - i,
    via registers_from_decreases
{
    let end = index_of_from(s, '/', i);
    segment_registers(s.subrange(i, end)) + if 0 <= i && end < s.len() {
        registers_from(s, end + 1)
    } else {
        0
    }
}

/// The next segment begins behind the separator that ends this one.
#[via_fn]
proof fn registers_from_decreases(s: Seq<char>, i: int) {
    if 0 <= i <= s.len() {
        lemma_index_of_from_bounds(s, '/', i);
    }
}

/// The number of registers that a register list names.
pub open spec fn register_total(s: Seq<char>) -> int {
    registers_from(s, 0)
}

/// A register list names at least one register.
proof fn lemma_registers_from_nonneg(s: Seq<char>, i: int)
    requires
        0 <= i <= s.len(),
    ensures
        registers_from(s, i) >= 1,
    decreases s.len() - i,
{
    lemma_index_of_from_bounds(s, '/', i);
    let end = index_of_from(s, '/', i);
    lemma_segment_registers_range(s.subrange(i, end));
    if end < s.len() {
        lemma_registers_from_nonneg(s, end + 1);
    }
}

/// A segment names between one and ten registers.
proof fn lemma_segment_registers_range(p: Seq<char>)
    ensures
        1 <= segment_registers(p) <= 10,
{
}

/// The value of the last character of `v[from..to]`, where it is a digit.
fn last_digit(v: &Vec<char>, from: usize, to: usize) -> (r: Option<u8>)
    requires
        from <= to <= v.len(),
    ensures
        r matches Some(d) ==> trailing_digit(v@.subrange(from as int, to as int)) == Some(d as int),
        r is None ==> trailing_digit(v@.subrange(from as int, to as int)) is None,
{
    if from == to {
        return None;
    }
    let c = v[to - 1];
    assert(v@.subrange(from as int, to as int).last() == c);
    if '0' <= c && c <= '9' {
        Some(c as u8 - '0' as u8)
    } else {
        None
    }
}

/// The number of registers that the segment `p` names.
fn count_segment(p: &Vec<char>) -> (r: usize)
    ensures
        r == segment_registers(p@),
        1 <= r <= 10,
{
    let dash = find_char(p, '-', 0);
    if dash >= p.len() || find_char(p, '-', dash + 1) < p.len() {
        return 1;
    }
    assert(p@.take(dash as int) == p@.subrange(0, dash as int));
    assert(p@.skip(dash + 1) == p@.subrange(dash + 1, p@.len() as int));
    match (last_digit(p, 0, dash), last_digit(p, dash + 1, p.len())) {
        (Some(lo), Some(hi)) => if hi >= lo {
            (hi - lo + 1) as usize
        } else {
            1
        },
        _ => 1,
    }
}

/// Counts the registers that a register list names: segments are separated by
/// `/`, a range `a-b` counts the registers from `a` to `b` by their trailing
/// digits, and every other segment counts as one.
pub fn count_registers(reg_list: &str) -> (r: usize)
    ensures
        r == capped(register_total(reg_list@)),
{
    let v = to_chars(reg_list);
    count_register_chars(&v)
}

/// As `count_registers`, on characters.
pub fn count_register_chars(v: &Vec<char>) -> (r: usize)
    ensures
        r == capped(register_total(v@)),
{
    let mut total: usize = 0;
    let mut i: usize = 0;
    loop
        invariant
            i <= v.len(),
            capped(register_total(v@)) == capped(total + registers_from(v@, i as int)),
        decreases v.len() - i,
    {
        let end = find_char(v, '/', i);
        let n = count_segment(&slice(v, i, end));
        proof {
            lemma_index_of_from_bounds(v@, '/', i as int);
            if end < v.len() {
                lemma_registers_from_nonneg(v@, end + 1);
            }
        }
        total = total.saturating_add(n);
        if end >= v.len() {
            return total;
        }
        i = end + 1;
    }
}

/// The part of a line before its comment.
pub open spec fn code_part(line: Seq<char>) -> Seq<char> {
    line.subrange(0, index_of_from(line, ';', 0))
}

/// A line made ready for splitting: comment and label removed, trimmed, in
/// lower case.
pub open spec fn prepared(line: Seq<char>) -> Seq<char> {
    lowercase(trim(rewritten_first(Rule::Label, code_part(line))))
}

/// The mnemonic of a prepared line: what stands before its first whitespace.
pub open spec fn raw_mnemonic(t: Seq<char>) -> Seq<char> {
    t.subrange(0, whitespace_from(t, 0))
}

/// The operand text of a prepared line: what follows its first whitespace.
pub open spec fn raw_operands(t: Seq<char>) -> Seq<char> {
    let end = whitespace_from(t, 0);
    if end < t.len() {
        t.subrange(end + 1, t.len() as int)
    } else {
        Seq::<char>::empty()
    }
}

/// The mnemonic with its normalized size suffix, given the matches `long` of
/// the full-size mnemonics and the matches `branch` of the branch family in
/// it: `.l` for the mnemonics that always work on the full word size; for a
/// branch in its short form `.s` the suffix `.b`, with what follows the short
/// form kept behind it; `.w` for any other mnemonic without a suffix; and a
/// mnemonic that has a suffix keeps it.
pub open spec fn mnemonic_with(
    token: Seq<char>,
    long: Seq<Seq<Option<(usize, usize)>>>,
    branch: Seq<Seq<Option<(usize, usize)>>>,
) -> Seq<char> {
    if long.len() > 0 {
        token + ".l"@
    } else if branch.len() > 0 && group(branch[0], 2) is Some {
        group_text(token, branch[0], 1) + ".b"@ + token.subrange(
            whole_end(branch[0]),
            token.len() as int,
        )
    } else if !contains(token, "."@) {
        token + ".w"@
    } else {
        token
    }
}

/// The mnemonic with its normalized size suffix.
pub open spec fn mnemonic_key(token: Seq<char>) -> Seq<char> {
    mnemonic_with(
        token,
        matches_of(Pattern::LongMnemonic, token),
        matches_of(Pattern::Branch, token),
    )
}

/// The operand text after the displacement and immediate passes: the text in
/// which register lists are looked for.
pub open spec fn before_register_lists(operands: Seq<char>) -> Seq<char> {
    rewritten(Rule::Immediate, rewritten(Rule::Displacement, operands))
}

/// The registers named by the register lists `ms[k..]` found in `text`.
pub open spec fn listed_from(text: Seq<char>, ms: Seq<Seq<Option<(usize, usize)>>>, k: int) -> int
    decreases ms.len() - k,
{
    if k < 0 || k >= ms.len() {
        0
    } else {
        register_total(group_text(text, ms[k], 1)) + listed_from(text, ms, k + 1)
    }
}

/// The number of registers named by the register lists of an operand text.
pub open spec fn listed_registers(operands: Seq<char>) -> int {
    let text = before_register_lists(operands);
    listed_from(text, matches_of(Pattern::RegisterList, text), 0)
}

/// The operand pattern: the passes applied in their fixed order.
pub open spec fn operand_key(operands: Seq<char>) -> Seq<char> {
    let listed = rewritten(Rule::RegisterList, before_register_lists(operands));
    let registers = rewritten(Rule::AddressRegister, rewritten(Rule::DataRegister, listed));
    let collapsed = trim(rewritten(Rule::Spaces, rewritten(Rule::Absolute, registers)));
    let literals = if contains(collapsed, "$"@) {
        rewritten(Rule::HexLiteral, collapsed)
    } else {
        collapsed
    };
    replace_from(literals, "%%REGLIST%%"@, "reglist"@, 0)
}

/// The canonical key of a line: mnemonic and operand pattern joined by one
/// space, or the mnemonic alone where there are no operands.
pub open spec fn canonical_key(line: Seq<char>) -> Seq<char> {
    let t = prepared(line);
    let operands = operand_key(raw_operands(t));
    if operands.len() == 0 {
        mnemonic_key(raw_mnemonic(t))
    } else {
        mnemonic_key(raw_mnemonic(t)) + " "@ + operands
    }
}

/// The number of registers that the register lists of a line name.
pub open spec fn register_count(line: Seq<char>) -> usize {
    capped(listed_registers(raw_operands(prepared(line))))
}

/// Register lists never name a negative number of registers.
proof fn lemma_listed_from_nonneg(text: Seq<char>, ms: Seq<Seq<Option<(usize, usize)>>>, k: int)
    ensures
        listed_from(text, ms, k) >= 0,
    decreases ms.len() - k,
{
    if 0 <= k < ms.len() {
        lemma_registers_from_nonneg(group_text(text, ms[k], 1), 0);
        lemma_listed_from_nonneg(text, ms, k + 1);
    }
}

/// The lower-case form of a text.
fn lowered(v: &Vec<char>) -> (r: Vec<char>)
    ensures
        r@ == lowercase(v@),
{
    let s = to_string(v);
    let low = s.as_str().to_lowercase();
    to_chars(low.as_str())
}

/// The mnemonic with its normalized size suffix, given the matches `long` of
/// the full-size mnemonics and the matches `branch` of the branch family in it.
pub fn mnemonic_from(token: &Vec<char>, long: &Vec<Groups>, branch: &Vec<Groups>) -> (r: Vec<char>)
    requires
        matches_ordered(matches_view(branch@), token@.len()),
    ensures
        r@ == mnemonic_with(token@, matches_view(long@), matches_view(branch@)),
{
    let mut out: Vec<char> = Vec::new();
    if long.len() > 0 {
        push_chars(&mut out, token);
        push_str(&mut out, ".l");
        return out;
    }
    if branch.len() > 0 {
        let m = &branch[0];
        assert(m@ == matches_view(branch@)[0]);
        assert(spans_inside(matches_view(branch@)[0], token@.len()));
        match (group_span(m, 0), group_span(m, 2)) {
            (Some((_, end)), Some(_)) => {
                push_chars(&mut out, &group_chars(token, m, 1));
                push_str(&mut out, ".b");
                push_range(&mut out, token, end, token.len());
                return out;
            },
            _ => {},
        }
    }
    push_chars(&mut out, token);
    if !holds(token, ".") {
        push_str(&mut out, ".w");
    }
    out
}

/// The mnemonic with its normalized size suffix.
pub fn normalize_mnemonic(p: &Patterns, token: &Vec<char>) -> (r: Vec<char>)
    ensures
        r@ == mnemonic_key(token@),
{
    let long = p.find(Pattern::LongMnemonic, token);
    let branch = p.find(Pattern::Branch, token);
    mnemonic_from(token, &long, &branch)
}

/// The number of registers named by the register lists `found` in `text`.
pub fn count_listed(text: &Vec<char>, found: &Vec<Groups>) -> (r: usize)
    requires
        matches_ordered(matches_view(found@), text@.len()),
    ensures
        r == capped(listed_from(text@, matches_view(found@), 0)),
{
    let ghost ms = matches_view(found@);
    let mut total: usize = 0;
    let mut k: usize = 0;
    while k < found.len()
        invariant
            k <= found.len(),
            ms == matches_view(found@),
            matches_ordered(ms, text@.len()),
            capped(listed_from(text@, ms, 0)) == capped(total + listed_from(text@, ms, k as int)),
        decreases found.len() - k,
    {
        let m = &found[k];
        assert(m@ == ms[k as int]);
        assert(spans_inside(ms[k as int], text@.len()));
        let list = group_chars(text, m, 1);
        let n = count_register_chars(&list);
        proof {
            lemma_registers_from_nonneg(list@, 0);
            lemma_listed_from_nonneg(text@, ms, k + 1);
        }
        total = total.saturating_add(n);
        k += 1;
    }
    total
}

/// The operand pattern of an operand text, and the number of registers that its
/// register lists name.
pub fn normalize_operands(p: &Patterns, operands: &Vec<char>) -> (r: (Vec<char>, usize))
    ensures
        r.0@ == operand_key(operands@),
        r.1 == capped(listed_registers(operands@)),
{
    let displaced = rewrite(p, Rule::Displacement, operands);
    let immediate = rewrite(p, Rule::Immediate, &displaced);
    let lists = p.find(Pattern::RegisterList, &immediate);
    let count = count_listed(&immediate, &lists);
    let listed = splice(Rule::RegisterList, &immediate, &lists);
    let data = rewrite(p, Rule::DataRegister, &listed);
    let address = rewrite(p, Rule::AddressRegister, &data);
    let absolute = rewrite(p, Rule::Absolute, &address);
    let collapsed = trimmed(&rewrite(p, Rule::Spaces, &absolute));
    let literals = if holds(&collapsed, "$") {
        rewrite(p, Rule::HexLiteral, &collapsed)
    } else {
        collapsed
    };
    (replace_literal(&literals, "%%REGLIST%%", "reglist"), count)
}

/// Maps a raw instruction line to its canonical key and the number of
/// registers that its register lists name. Every line has a key.
pub fn normalize_line_ext(p: &Patterns, line: &str) -> (r: (String, usize))
    ensures
        r.0@ == canonical_key(line@),
        r.1 == register_count(line@),
{
    let raw = to_chars(line);
    let code = slice(&raw, 0, find_char(&raw, ';', 0));
    let t = lowered(&trimmed(&rewrite_first(p, Rule::Label, &code)));
    let end = find_whitespace(&t, 0);
    let token = slice(&t, 0, end);
    let operands = if end < t.len() {
        slice(&t, end + 1, t.len())
    } else {
        Vec::new()
    };
    let mut key = normalize_mnemonic(p, &token);
    let (pattern, count) = normalize_operands(p, &operands);
    if pattern.len() > 0 {
        push_str(&mut key, " ");
        push_chars(&mut key, &pattern);
    }
    (to_string(&key), count)
}

/// The table that a list of entries stands for: a later entry for a key
/// replaces an earlier one.
pub open spec fn entries_map(entries: Seq<(String, Vec<usize>)>) -> Map<Seq<char>, Seq<usize>>
    decreases entries.len(),
{
    if entries.len() == 0 {
        Map::empty()
    } else {
        entries_map(entries.drop_last()).insert(entries.last().0@, entries.last().1@)
    }
}

/// The cost table: for each canonical key its cost components.
pub struct CostTable {
    entries: Vec<(String, Vec<usize>)>,
}

impl View for CostTable {
    type V = Map<Seq<char>, Seq<usize>>;

    closed spec fn view(&self) -> Map<Seq<char>, Seq<usize>> {
        entries_map(self.entries@)
    }
}

impl CostTable {
    /// The empty table.
    pub fn new() -> (r: Self)
        ensures
            r@ == Map::<Seq<char>, Seq<usize>>::empty(),
    {
        CostTable { entries: Vec::new() }
    }

    /// Sets the cost components of `key`.
    pub fn insert(&mut self, key: String, cycles: Vec<usize>)
        ensures
            final(self)@ == old(self)@.insert(key@, cycles@),
    {
        self.entries.push((key, cycles));
        assert(self.entries@.drop_last() == old(self).entries@);
    }

    /// The cost components of `key`, where the table has the key.
    pub fn get(&self, key: &str) -> (r: Option<Vec<usize>>)
        ensures
            r matches Some(v) ==> self@.contains_key(key@) && v@ == self@[key@],
            r is None ==> !self@.contains_key(key@),
    {
        let wanted = String::from_str(key);
        let mut i: usize = self.entries.len();
        assert(self.entries@.take(i as int) == self.entries@);
        while i > 0
            invariant
                i <= self.entries.len(),
                wanted@ == key@,
                entries_map(self.entries@.take(i as int)).contains_key(key@)
                    == self@.contains_key(key@),
                self@.contains_key(key@) ==> entries_map(self.entries@.take(i as int))[key@]
                    == self@[key@],
            decreases i,
        {
            assert(self.entries@.take(i as int).drop_last() == self.entries@.take(i - 1));
            if self.entries[i - 1].0 == wanted {
                return Some(copy_of(&self.entries[i - 1].1));
            }
            i -= 1;
        }
        None
    }
}

/// What resolves the cost of a line: the compiled patterns and the cost table.
pub struct Resolver {
    patterns: Patterns,
    table: CostTable,
}

impl Resolver {
    /// The cost table.
    pub closed spec fn costs(&self) -> Map<Seq<char>, Seq<usize>> {
        self.table@
    }

    /// The compiled patterns.
    pub closed spec fn engine(&self) -> Patterns {
        self.patterns
    }

    /// A resolver over `table`. It succeeds where the pattern engine accepts
    /// every pattern of the library, and fails with the first that the engine
    /// rejects.
    pub fn new(table: CostTable) -> (r: Result<Resolver, Rejected>)
        ensures
            r is Ok <==> all_accepted(),
            r matches Ok(resolver) ==> resolver.costs() == table@
                && resolver.engine().well_formed(),
            r matches Err(e) ==> !regex_accepts(pattern_text(e.which)),
    {
        match Patterns::new() {
            Ok(patterns) => Ok(Resolver::with_patterns(patterns, table)),
            Err(e) => Err(e),
        }
    }

    /// The resolver that holds the compiled patterns `patterns` and the cost
    /// table `table`.
    pub fn with_patterns(patterns: Patterns, table: CostTable) -> (r: Resolver)
        ensures
            r.engine() == patterns,
            r.costs() == table@,
    {
        Resolver { patterns, table }
    }

    /// The compiled patterns that the resolver holds.
    pub fn patterns(&self) -> (r: &Patterns)
        ensures
            *r == self.engine(),
    {
        &self.patterns
    }

    /// The cost table.
    pub fn table(&self) -> (r: &CostTable)
        ensures
            r@ == self.costs(),
    {
        &self.table
    }
}

/// The cost that the table gives a line: the components found under the
/// line's canonical key, or a single zero where the table lacks the key.
pub open spec fn table_cost(costs: Map<Seq<char>, Seq<usize>>, line: Seq<char>) -> Cost {
    let key = canonical_key(line);
    Cost {
        cycles: if costs.contains_key(key) {
            costs[key]
        } else {
            seq![0usize]
        },
        lookup: key,
        reg_count: register_count(line),
    }
}

/// Normalizes a line and looks its key up in the cost table. A key that the
/// table lacks costs zero cycles.
pub fn lookup_cycles(resolver: &Resolver, line: &str) -> (r: CycleCount)
    ensures
        r@ == table_cost(resolver.costs(), line@),
{
    let (key, reg_count) = normalize_line_ext(resolver.patterns(), line);
    let cycles = match resolver.table().get(key.as_str()) {
        Some(found) => found,
        None => {
            let mut zero: Vec<usize> = Vec::new();
            zero.push(0);
            zero
        },
    };
    CycleCount::new(cycles, key, reg_count)
}

} // verus!
