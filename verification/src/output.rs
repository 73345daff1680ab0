//! The layout of one line of the generated document.

use vstd::prelude::*;
use crate::matcher::{group_chars, group_text, Groups, matches_ordered, matches_view, spans_inside};
use crate::patterns::{matches_of, Pattern, Patterns};
use crate::text::{
    begins_with, contains, holds, push_chars, push_str, starts_with, to_chars, to_string, trim,
    trimmed,
};

verus! {

/// A line as it stands in the document, given the matches `ms` of the
/// label-split pattern in it: comments and `equ` and `set` directives
/// unindented; a line with a label as the label, a tab and the rest; any
/// other line behind one tab.
pub open spec fn laid_out_with(line: Seq<char>, ms: Seq<Seq<Option<(usize, usize)>>>) -> Seq<char> {
    if starts_with(trim(line), ";"@) || contains(line, " equ "@) || contains(line, " set "@) {
        line
    } else if ms.len() > 0 {
        group_text(line, ms[0], 1) + "\t"@ + trim(group_text(line, ms[0], 2))
    } else {
        "\t"@ + line
    }
}

/// A line as it stands in the document.
pub open spec fn laid_out(line: Seq<char>) -> Seq<char> {
    laid_out_with(line, matches_of(Pattern::LabelSplit, line))
}

/// Lays out one line of the document, given the matches `found` of the
/// label-split pattern in it.
pub fn layout_from(line: &Vec<char>, found: &Vec<Groups>) -> (r: String)
    requires
        matches_ordered(matches_view(found@), line@.len()),
    ensures
        r@ == laid_out_with(line@, matches_view(found@)),
{
    if begins_with(&trimmed(line), ";") || holds(line, " equ ") || holds(line, " set ") {
        return to_string(line);
    }
    let mut out: Vec<char> = Vec::new();
    if found.len() > 0 {
        let m = &found[0];
        assert(m@ == matches_view(found@)[0]);
        assert(spans_inside(matches_view(found@)[0], line@.len()));
        let label = group_chars(line, m, 1);
        let rest = trimmed(&group_chars(line, m, 2));
        push_chars(&mut out, &label);
        push_str(&mut out, "\t");
        push_chars(&mut out, &rest);
    } else {
        push_str(&mut out, "\t");
        push_chars(&mut out, line);
    }
    to_string(&out)
}

/// Lays out one line of the document.
pub fn layout_line(p: &Patterns, line: &str) -> (r: String)
    ensures
        r@ == laid_out(line@),
{
    let chars = to_chars(line);
    let found = p.find(Pattern::LabelSplit, &chars);
    layout_from(&chars, &found)
}

} // verus!
