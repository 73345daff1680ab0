//! Plain annotations: a line with a key and one cost behind it.

use vstd::prelude::*;
use crate::numbers::{decimal, push_decimal};
use crate::text::{contains, holds, push_str, to_chars, to_string};

verus! {

/// A template line with its key and cost behind it. A line that has a comment
/// already gets them appended to it; any other line gets a comment of its own.
pub open spec fn template_line(line: Seq<char>, lookup: Seq<char>, cycles: usize) -> Seq<char> {
    line + (if contains(line, ";"@) {
        " "@
    } else {
        "\t; "@
    }) + lookup + " ["@ + decimal(cycles as nat) + "]"@
}

/// A line with its cost, its key and its offset behind it.
pub open spec fn offset_line(line: Seq<char>, lookup: Seq<char>, cycles: usize, offset: usize) -> Seq<
    char,
> {
    line + "\t;\t("@ + decimal(cycles as nat) + ")\t"@ + lookup + "\t["@ + decimal(offset as nat)
        + "]"@
}

/// Writes a template line with its key and its cost behind it.
pub fn format_template_instruction(line: &str, lookup: &str, cycles: usize) -> (r: String)
    ensures
        r@ == template_line(line@, lookup@, cycles),
{
    let mut out = to_chars(line);
    if holds(&out, ";") {
        push_str(&mut out, " ");
    } else {
        push_str(&mut out, "\t; ");
    }
    push_str(&mut out, lookup);
    push_str(&mut out, " [");
    push_decimal(&mut out, cycles as u128);
    push_str(&mut out, "]");
    assert(out@ =~= template_line(line@, lookup@, cycles));
    to_string(&out)
}

/// Writes a line with its cost, its key and its offset behind it.
pub fn format_accumulated_instruction(line: &str, lookup: &str, cycles: usize, offset: usize) -> (r:
    String)
    ensures
        r@ == offset_line(line@, lookup@, cycles, offset),
{
    let mut out = to_chars(line);
    push_str(&mut out, "\t;\t(");
    push_decimal(&mut out, cycles as u128);
    push_str(&mut out, ")\t");
    push_str(&mut out, lookup);
    push_str(&mut out, "\t[");
    push_decimal(&mut out, offset as u128);
    push_str(&mut out, "]");
    assert(out@ =~= offset_line(line@, lookup@, cycles, offset));
    to_string(&out)
}

} // verus!
