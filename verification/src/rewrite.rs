//! The rewriting passes of normalization: each pass finds the matches of one
//! pattern and puts a placeholder in the place of each.

use vstd::prelude::*;
use crate::matcher::{
    group, group_chars, group_span, group_text, Groups, matches_ordered, matches_view,
    spans_inside, whole_end, whole_start,
};
use crate::patterns::{matches_of, Pattern, Patterns};
use crate::text::{is_text, push_chars, push_range, push_str};

verus! {

/// One rewriting pass.
#[derive(Clone, Copy, Debug)]
pub enum Rule {
    /// A leading label is removed, with the blanks around it.
    Label,
    /// `<expr>(<address register>)` becomes `d(<register>)`, a displacement
    /// that is the single character `-` being kept.
    Displacement,
    /// `#...` becomes `#xxx`.
    Immediate,
    /// A register list becomes the placeholder `%%REGLIST%%`.
    RegisterList,
    /// A data register becomes `dn`.
    DataRegister,
    /// An address register becomes `an`.
    AddressRegister,
    /// A bare identifier becomes `xxx.w` or `xxx.l`.
    Absolute,
    /// A run of blanks becomes one space.
    Spaces,
    /// A hexadecimal literal becomes `xxx.w` or `xxx.l`.
    HexLiteral,
}

/// The pattern that a pass looks for.
pub open spec fn rule_pattern(rule: Rule) -> Pattern {
    match rule {
        Rule::Label => Pattern::Label,
        Rule::Displacement => Pattern::Displacement,
        Rule::Immediate => Pattern::Immediate,
        Rule::RegisterList => Pattern::RegisterList,
        Rule::DataRegister => Pattern::DataRegister,
        Rule::AddressRegister => Pattern::AddressRegister,
        Rule::Absolute => Pattern::Absolute,
        Rule::Spaces => Pattern::Spaces,
        Rule::HexLiteral => Pattern::HexLiteral,
    }
}

/// The pattern that a pass looks for.
pub fn pattern_of(rule: Rule) -> (r: Pattern)
    ensures
        r == rule_pattern(rule),
{
    match rule {
        Rule::Label => Pattern::Label,
        Rule::Displacement => Pattern::Displacement,
        Rule::Immediate => Pattern::Immediate,
        Rule::RegisterList => Pattern::RegisterList,
        Rule::DataRegister => Pattern::DataRegister,
        Rule::AddressRegister => Pattern::AddressRegister,
        Rule::Absolute => Pattern::Absolute,
        Rule::Spaces => Pattern::Spaces,
        Rule::HexLiteral => Pattern::HexLiteral,
    }
}

/// Whether an identifier is one of the placeholders that earlier passes left.
pub open spec fn is_placeholder(token: Seq<char>) -> bool {
    token == "an"@ || token == "dn"@ || token == "d"@ || token == "reglist"@
}

/// What a pass puts in the place of the match `m` found in `text`.
pub open spec fn replacement(rule: Rule, text: Seq<char>, m: Seq<Option<(usize, usize)>>) -> Seq<char> {
    match rule {
        Rule::Label => Seq::<char>::empty(),
        Rule::Displacement => if group_text(text, m, 1) == "-"@ {
            "-("@ + group_text(text, m, 2) + ")"@
        } else {
            "d("@ + group_text(text, m, 2) + ")"@
        },
        Rule::Immediate => "#xxx"@,
        Rule::RegisterList => "%%REGLIST%%"@,
        Rule::DataRegister => "dn"@,
        Rule::AddressRegister => "an"@,
        Rule::Absolute => if is_placeholder(group_text(text, m, 2)) {
            group_text(text, m, 0)
        } else if group(m, 3) is Some && group_text(text, m, 3) == ".w"@ {
            group_text(text, m, 1) + "xxx.w"@
        } else {
            group_text(text, m, 1) + "xxx.l"@
        },
        Rule::Spaces => " "@,
        Rule::HexLiteral => if group(m, 2) is Some {
            "xxx.w"@ + group_text(text, m, 3)
        } else {
            "xxx.l"@ + group_text(text, m, 3)
        },
    }
}

/// `text` from `cursor` on, with the matches `ms[k..]` replaced as `rule` says.
pub open spec fn rewrite_from(
    rule: Rule,
    text: Seq<char>,
    ms: Seq<Seq<Option<(usize, usize)>>>,
    k: int,
    cursor: int,
) -> Seq<char>
    decreases ms.len() - k,
{
    if k < 0 || k >= ms.len() {
        text.subrange(cursor, text.len() as int)
    } else {
        text.subrange(cursor, whole_start(ms[k])) + replacement(rule, text, ms[k]) + rewrite_from(
            rule,
            text,
            ms,
            k + 1,
            whole_end(ms[k]),
        )
    }
}

/// `text` with every match of the pass's pattern replaced.
pub open spec fn rewritten(rule: Rule, text: Seq<char>) -> Seq<char> {
    rewrite_from(rule, text, matches_of(rule_pattern(rule), text), 0, 0)
}

/// `text` with the first match of the pass's pattern replaced, if there is one.
pub open spec fn rewritten_first(rule: Rule, text: Seq<char>) -> Seq<char> {
    let ms = matches_of(rule_pattern(rule), text);
    if ms.len() == 0 {
        text
    } else {
        text.subrange(0, whole_start(ms[0])) + replacement(rule, text, ms[0]) + text.subrange(
            whole_end(ms[0]),
            text.len() as int,
        )
    }
}

/// Appends what `rule` puts in the place of the match `m`.
pub fn push_replacement(dst: &mut Vec<char>, rule: Rule, text: &Vec<char>, m: &Groups)
    requires
        spans_inside(m@, text@.len()),
    ensures
        final(dst)@ == old(dst)@ + replacement(rule, text@, m@),
{
    match rule {
        Rule::Label => {
            assert(dst@ == dst@ + Seq::<char>::empty());
        },
        Rule::Displacement => {
            let disp = group_chars(text, m, 1);
            let reg = group_chars(text, m, 2);
            if is_text(&disp, "-") {
                push_str(dst, "-(");
            } else {
                push_str(dst, "d(");
            }
            push_chars(dst, &reg);
            push_str(dst, ")");
            assert(final(dst)@ == old(dst)@ + replacement(rule, text@, m@));
        },
        Rule::Immediate => push_str(dst, "#xxx"),
        Rule::RegisterList => push_str(dst, "%%REGLIST%%"),
        Rule::DataRegister => push_str(dst, "dn"),
        Rule::AddressRegister => push_str(dst, "an"),
        Rule::Absolute => {
            let token = group_chars(text, m, 2);
            if is_text(&token, "an") || is_text(&token, "dn") || is_text(&token, "d") || is_text(
                &token,
                "reglist",
            ) {
                let whole = group_chars(text, m, 0);
                push_chars(dst, &whole);
            } else {
                let before = group_chars(text, m, 1);
                let suffix = group_chars(text, m, 3);
                push_chars(dst, &before);
                if group_span(m, 3).is_some() && is_text(&suffix, ".w") {
                    push_str(dst, "xxx.w");
                } else {
                    push_str(dst, "xxx.l");
                }
                assert(final(dst)@ == old(dst)@ + replacement(rule, text@, m@));
            }
        },
        Rule::Spaces => push_str(dst, " "),
        Rule::HexLiteral => {
            let tail = group_chars(text, m, 3);
            if group_span(m, 2).is_some() {
                push_str(dst, "xxx.w");
            } else {
                push_str(dst, "xxx.l");
            }
            push_chars(dst, &tail);
            assert(final(dst)@ == old(dst)@ + replacement(rule, text@, m@));
        },
    }
}

/// Replaces each of the matches `found`, which were found in `text`, as `rule` says.
pub fn splice(rule: Rule, text: &Vec<char>, found: &Vec<Groups>) -> (r: Vec<char>)
    requires
        matches_ordered(matches_view(found@), text@.len()),
    ensures
        r@ == rewrite_from(rule, text@, matches_view(found@), 0, 0),
{
    let ghost ms = matches_view(found@);
    let mut out: Vec<char> = Vec::new();
    let mut cursor: usize = 0;
    let mut k: usize = 0;
    while k < found.len()
        invariant
            k <= found.len(),
            ms == matches_view(found@),
            matches_ordered(ms, text@.len()),
            cursor <= text.len(),
            forall|j: int| k <= j < ms.len() ==> cursor <= whole_start(#[trigger] ms[j]),
            rewrite_from(rule, text@, ms, 0, 0) == out@ + rewrite_from(
                rule,
                text@,
                ms,
                k as int,
                cursor as int,
            ),
        decreases found.len() - k,
    {
        let m = &found[k];
        assert(m@ == ms[k as int]);
        assert(spans_inside(ms[k as int], text@.len()));
        match group_span(m, 0) {
            Some((start, end)) => {
                let ghost before = out@;
                push_range(&mut out, text, cursor, start);
                push_replacement(&mut out, rule, text, m);
                assert(out@ + rewrite_from(rule, text@, ms, k + 1, end as int) == before
                    + rewrite_from(rule, text@, ms, k as int, cursor as int));
                cursor = end;
            },
            None => {
                assert(false);
            },
        }
        k += 1;
    }
    push_range(&mut out, text, cursor, text.len());
    out
}

/// Replaces every match of a pass's pattern in `text`.
pub fn rewrite(p: &Patterns, rule: Rule, text: &Vec<char>) -> (r: Vec<char>)
    ensures
        r@ == rewritten(rule, text@),
{
    let found = p.find(pattern_of(rule), text);
    splice(rule, text, &found)
}

/// Replaces the first match of a pass's pattern in `text`, if there is one.
pub fn rewrite_first(p: &Patterns, rule: Rule, text: &Vec<char>) -> (r: Vec<char>)
    ensures
        r@ == rewritten_first(rule, text@),
{
    let found = p.find(pattern_of(rule), text);
    let ghost ms = matches_view(found@);
    let mut out: Vec<char> = Vec::new();
    if found.len() == 0 {
        push_chars(&mut out, text);
        return out;
    }
    let m = &found[0];
    assert(m@ == ms[0]);
    assert(spans_inside(ms[0], text@.len()));
    match group_span(m, 0) {
        Some((start, end)) => {
            push_range(&mut out, text, 0, start);
            push_replacement(&mut out, rule, text, m);
            push_range(&mut out, text, end, text.len());
        },
        None => {
            assert(false);
        },
    }
    out
}

} // verus!
