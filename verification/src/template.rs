//! The template: fixed code that runs once per window, cut into sections by
//! its filler directives.

use vstd::prelude::*;
use crate::accumulator::{is_set_directive, lemma_effective_nonneg};
use crate::cycles::Resolver;
use crate::helpers::{
    annotated_line, extract_cycle_count, format_accumulated_instruction, lookup_fails,
    misses_table, resolved, resolved_cost,
};
use crate::matcher::{
    group, group_chars, group_span, group_text, Groups, matches_ordered, matches_view,
    spans_inside,
};
use crate::models::{Cost, CycleCount};
use crate::numbers::{decimal, parse_unsigned, parse_usize, push_decimal};
use crate::patterns::{matches_of, Pattern};
use crate::text::{
    begins_with, contains, find_char, holds, index_of_from, lemma_index_of_from_bounds,
    push_str, slice, starts_with, to_chars, to_string, trim, trimmed,
};

verus! {

/// One section of the template.
#[derive(Debug)]
pub struct TemplateSection {
    /// The injected code: each line with its annotation, and its cost.
    pub injection_code: Vec<(String, usize)>,
    /// The filler budget that follows the injected code, in cycles.
    pub nop_cycles: usize,
    /// The label of the section.
    pub label: String,
}

/// What a section holds, as plain values.
pub struct Section {
    pub injection_code: Seq<(Seq<char>, usize)>,
    pub nop_cycles: usize,
    pub label: Seq<char>,
}

/// The injected code of a section, as plain values.
pub open spec fn code_view(code: Seq<(String, usize)>) -> Seq<(Seq<char>, usize)> {
    Seq::new(code.len(), |i: int| (code[i].0@, code[i].1))
}

impl View for TemplateSection {
    type V = Section;

    open spec fn view(&self) -> Section {
        Section {
            injection_code: code_view(self.injection_code@),
            nop_cycles: self.nop_cycles,
            label: self.label@,
        }
    }
}

/// What a list of sections holds, as plain values.
pub open spec fn section_views(sections: Seq<TemplateSection>) -> Seq<Section> {
    Seq::new(sections.len(), |i: int| sections[i]@)
}

/// Why a template cannot be parsed.
#[derive(Debug, Clone, Copy, PartialEq, Eq)]
pub enum TemplateError {
    /// The count of a filler directive cannot be read as a number.
    FillerCount,
    /// A cost, an offset or a filler budget exceeds the machine word.
    Overflow,
}

/// The pieces of `s` from position `i` on that are separated by line feeds.
pub open spec fn lines_from(s: Seq<char>, i: int) -> Seq<Seq<char>>
    decreases s.len() - i,
    via lines_from_decreases
{
    let end = index_of_from(s, '\n', i);
    seq![s.subrange(i, end)] + if 0 <= i && end < s.len() {
        lines_from(s, end + 1)
    } else {
        Seq::<Seq<char>>::empty()
    }
}

/// The next line begins behind the line feed that ends this one.
#[via_fn]
proof fn lines_from_decreases(s: Seq<char>, i: int) {
    if 0 <= i <= s.len() {
        lemma_index_of_from_bounds(s, '\n', i);
    }
}

/// The lines of a text.
pub open spec fn split_lines(s: Seq<char>) -> Seq<Seq<char>> {
    lines_from(s, 0)
}

/// The text of the first inline comment of a line, given the matches `ms` of
/// the comment pattern in it.
pub open spec fn comment_with(line: Seq<char>, ms: Seq<Seq<Option<(usize, usize)>>>) -> Option<
    Seq<char>,
> {
    if ms.len() > 0 && group(ms[0], 1) is Some {
        Some(group_text(line, ms[0], 1))
    } else {
        None
    }
}

/// The text of the first inline comment of a line, where it has one.
pub open spec fn comment_of(line: Seq<char>) -> Option<Seq<char>> {
    comment_with(line, matches_of(Pattern::Comment, line))
}

/// The count of a filler directive, given the matches `ms` of the filler
/// pattern in the line: `None` where the line is no filler directive,
/// `Some(None)` for a count that cannot be read.
pub open spec fn filler_with(line: Seq<char>, ms: Seq<Seq<Option<(usize, usize)>>>) -> Option<
    Option<usize>,
> {
    if ms.len() == 0 {
        None
    } else if group(ms[0], 1) is Some {
        Some(parse_unsigned(group_text(line, ms[0], 1)))
    } else {
        Some(None)
    }
}

/// The count of a filler directive, where the line is one.
pub open spec fn filler_count(line: Seq<char>) -> Option<Option<usize>> {
    filler_with(line, matches_of(Pattern::Filler, line))
}

/// Whether the template takes a line without an annotation for no code.
pub open spec fn template_skips(line: Seq<char>) -> bool {
    ||| starts_with(trim(line), ";"@)
    ||| contains(line, "dcb.w"@)
    ||| contains(line, " equ "@)
    ||| matches_of(Pattern::ParenNumber, line).len() > 0
}

/// What one line of the template is to the parser.
pub enum Event {
    /// A blank line, a comment, or a line without cost.
    Nothing,
    /// A `set` directive, with its inline comment.
    Directive { line: Seq<char>, comment: Option<Seq<char>> },
    /// A filler directive, with its count where that can be read.
    Filler { count: Option<usize> },
    /// An instruction, with its cost and its inline comment.
    Code { line: Seq<char>, cost: Cost, comment: Option<Seq<char>> },
}

/// What a line of the template is to the parser.
pub open spec fn event_of(costs: Map<Seq<char>, Seq<usize>>, raw: Seq<char>) -> Event {
    let line = trim(raw);
    if line.len() == 0 {
        Event::Nothing
    } else if is_set_directive(line) {
        Event::Directive { line, comment: comment_of(line) }
    } else {
        match filler_count(line) {
            Some(count) => Event::Filler { count },
            None => if starts_with(line, ";"@) {
                Event::Nothing
            } else {
                match resolved_cost(costs, line, template_skips(line)) {
                    Some(cost) => Event::Code { line, cost, comment: comment_of(line) },
                    None => Event::Nothing,
                }
            },
        }
    }
}

/// The state of the parser between two lines.
pub struct Progress {
    /// The sections closed so far.
    pub sections: Seq<Section>,
    /// The injected code of the open section.
    pub code: Seq<(Seq<char>, usize)>,
    /// The label of the open section, empty while it has none.
    pub label: Seq<char>,
    /// The running offset, which no section resets.
    pub offset: usize,
}

/// The state before the first line.
pub open spec fn start() -> Progress {
    Progress { sections: Seq::empty(), code: Seq::empty(), label: Seq::empty(), offset: 0 }
}

/// The label of the open section once a line with the inline comment
/// `comment` has been taken into it: a section without a label takes the
/// comment, and stays without a label where the line has none.
pub open spec fn labelled(st: Progress, comment: Option<Seq<char>>) -> Seq<char> {
    if st.label.len() == 0 {
        match comment {
            Some(text) => text,
            None => st.label,
        }
    } else {
        st.label
    }
}

/// The label under which the open section is closed: the first inline comment
/// met in it, or `Section <n>` where it met none, `n` being the ordinal of the
/// section.
pub open spec fn closing_label(st: Progress) -> Seq<char> {
    if st.label.len() == 0 {
        "Section "@ + decimal(st.sections.len() + 1)
    } else {
        st.label
    }
}

/// What one line does to the state.
pub open spec fn advance(st: Progress, event: Event) -> Result<Progress, TemplateError> {
    match event {
        Event::Nothing => Ok(st),
        Event::Directive { line, comment } => Ok(
            Progress { label: labelled(st, comment), code: st.code.push((line, 0usize)), ..st },
        ),
        Event::Filler { count: None } => Err(TemplateError::FillerCount),
        Event::Filler { count: Some(count) } => if count * 4 > usize::MAX {
            Err(TemplateError::Overflow)
        } else if st.code.len() > 0 {
            Ok(
                Progress {
                    sections: st.sections.push(
                        Section {
                            injection_code: st.code,
                            nop_cycles: (count * 4) as usize,
                            label: closing_label(st),
                        },
                    ),
                    code: Seq::empty(),
                    label: Seq::empty(),
                    offset: st.offset,
                },
            )
        } else {
            Ok(st)
        },
        Event::Code { line, cost, comment } => if st.offset + cost.effective() > usize::MAX {
            Err(TemplateError::Overflow)
        } else {
            Ok(
                Progress {
                    sections: st.sections,
                    code: st.code.push(
                        (annotated_line(line, cost, st.offset), cost.effective() as usize),
                    ),
                    label: labelled(st, comment),
                    offset: (st.offset + cost.effective()) as usize,
                },
            )
        },
    }
}

/// The state after the first `k` of the events `events`.
pub open spec fn advanced(events: Seq<Event>, k: int) -> Result<Progress, TemplateError>
    decreases k,
{
    if k <= 0 {
        Ok(start())
    } else {
        match advanced(events, k - 1) {
            Ok(st) => advance(st, events[k - 1]),
            Err(e) => Err(e),
        }
    }
}

/// The sections at the end of the input: a section that is still open is
/// closed with a filler budget of zero.
pub open spec fn finish(st: Progress) -> Seq<Section> {
    if st.code.len() > 0 {
        st.sections.push(
            Section { injection_code: st.code, nop_cycles: 0, label: closing_label(st) },
        )
    } else {
        st.sections
    }
}

/// The sections that a run of events makes.
pub open spec fn sections_from(events: Seq<Event>) -> Result<Seq<Section>, TemplateError> {
    match advanced(events, events.len() as int) {
        Ok(st) => Ok(finish(st)),
        Err(e) => Err(e),
    }
}

/// The events of a template given by its lines.
pub open spec fn events_of(costs: Map<Seq<char>, Seq<usize>>, lines: Seq<Seq<char>>) -> Seq<Event> {
    Seq::new(lines.len(), |i: int| event_of(costs, lines[i]))
}

/// The sections of a template given by its lines.
pub open spec fn sections_of(costs: Map<Seq<char>, Seq<usize>>, lines: Seq<Seq<char>>) -> Result<
    Seq<Section>,
    TemplateError,
> {
    sections_from(events_of(costs, lines))
}

/// What one line of the template is to the parser.
pub enum TemplateEvent {
    /// A blank line, a comment, or a line without cost.
    Nothing,
    /// A `set` directive, with its inline comment.
    Directive { line: String, comment: Option<String> },
    /// A filler directive, with its count where that can be read.
    Filler { count: Option<usize> },
    /// An instruction, with its cost and its inline comment.
    Code { line: String, cost: CycleCount, comment: Option<String> },
}

/// The text that an optional string holds.
pub open spec fn text_of(s: Option<String>) -> Option<Seq<char>> {
    match s {
        Some(text) => Some(text@),
        None => None,
    }
}

impl View for TemplateEvent {
    type V = Event;

    open spec fn view(&self) -> Event {
        match self {
            TemplateEvent::Nothing => Event::Nothing,
            TemplateEvent::Directive { line, comment } => Event::Directive {
                line: line@,
                comment: text_of(*comment),
            },
            TemplateEvent::Filler { count } => Event::Filler { count: *count },
            TemplateEvent::Code { line, cost, comment } => Event::Code {
                line: line@,
                cost: cost@,
                comment: text_of(*comment),
            },
        }
    }
}

/// The parser between two lines.
pub struct TemplateParser {
    sections: Vec<TemplateSection>,
    code: Vec<(String, usize)>,
    label: String,
    offset: usize,
}

impl View for TemplateParser {
    type V = Progress;

    closed spec fn view(&self) -> Progress {
        Progress {
            sections: section_views(self.sections@),
            code: code_view(self.code@),
            label: self.label@,
            offset: self.offset,
        }
    }
}

/// The lines of a text.
pub fn lines_of(content: &Vec<char>) -> (r: Vec<Vec<char>>)
    ensures
        r@.len() == split_lines(content@).len(),
        forall|k: int| 0 <= k < r@.len() ==> (#[trigger] r@[k])@ == split_lines(content@)[k],
{
    let mut out: Vec<Vec<char>> = Vec::new();
    let mut i: usize = 0;
    loop
        invariant
            i <= content.len(),
            split_lines(content@).len() == out@.len() + lines_from(content@, i as int).len(),
            forall|k: int| 0 <= k < out@.len() ==> (#[trigger] out@[k])@ == split_lines(content@)[k],
            forall|k: int|
                0 <= k < lines_from(content@, i as int).len() ==> split_lines(content@)[out@.len()
                    + k] == #[trigger] lines_from(content@, i as int)[k],
        decreases content.len() - i,
    {
        let end = find_char(content, '\n', i);
        let ghost here = lines_from(content@, i as int);
        let ghost count = out@.len();
        out.push(slice(content, i, end));
        assert(here[0] == content@.subrange(i as int, end as int));
        if end >= content.len() {
            assert(here.len() == 1);
            return out;
        }
        assert forall|k: int| 0 <= k < lines_from(content@, end + 1).len() implies split_lines(
            content@,
        )[out@.len() + k] == #[trigger] lines_from(content@, end + 1)[k] by {
            assert(here[k + 1] == lines_from(content@, end + 1)[k]);
        }
        i = end + 1;
    }
}

/// The text of the first inline comment of a line, given the matches `found`
/// of the comment pattern in it.
pub fn comment_from(line: &Vec<char>, found: &Vec<Groups>) -> (r: Option<String>)
    requires
        matches_ordered(matches_view(found@), line@.len()),
    ensures
        text_of(r) == comment_with(line@, matches_view(found@)),
{
    if found.len() > 0 {
        let m = &found[0];
        assert(m@ == matches_view(found@)[0]);
        assert(spans_inside(matches_view(found@)[0], line@.len()));
        if group_span(m, 1).is_some() {
            return Some(to_string(&group_chars(line, m, 1)));
        }
    }
    None
}

/// The count of a filler directive, given the matches `found` of the filler
/// pattern in the line.
pub fn filler_from(line: &Vec<char>, found: &Vec<Groups>) -> (r: Option<Option<usize>>)
    requires
        matches_ordered(matches_view(found@), line@.len()),
    ensures
        r == filler_with(line@, matches_view(found@)),
{
    if found.len() == 0 {
        return None;
    }
    let m = &found[0];
    assert(m@ == matches_view(found@)[0]);
    assert(spans_inside(matches_view(found@)[0], line@.len()));
    if group_span(m, 1).is_some() {
        Some(parse_usize(&group_chars(line, m, 1)))
    } else {
        Some(None)
    }
}

/// The text of the first inline comment of a line, where it has one.
fn read_comment(resolver: &Resolver, line: &Vec<char>) -> (r: Option<String>)
    ensures
        text_of(r) == comment_of(line@),
{
    let found = resolver.patterns().find(Pattern::Comment, line);
    comment_from(line, &found)
}

/// The count of a filler directive, where the line is one.
fn read_filler(resolver: &Resolver, line: &Vec<char>) -> (r: Option<Option<usize>>)
    ensures
        r == filler_count(line@),
{
    let found = resolver.patterns().find(Pattern::Filler, line);
    filler_from(line, &found)
}

/// Whether the template takes a line without an annotation for no code.
fn skips(resolver: &Resolver, line: &str) -> (r: bool)
    ensures
        r == template_skips(line@),
{
    let chars = to_chars(line);
    begins_with(&trimmed(&chars), ";") || holds(&chars, "dcb.w") || holds(&chars, " equ ")
        || resolver.patterns().find(Pattern::ParenNumber, &chars).len() > 0
}

/// Reads what a line of the template is to the parser.
pub fn read_event(resolver: &Resolver, raw: &Vec<char>) -> (r: TemplateEvent)
    ensures
        r@ == event_of(resolver.costs(), raw@),
{
    let line = trimmed(raw);
    if line.len() == 0 {
        return TemplateEvent::Nothing;
    }
    let text = to_string(&line);
    if holds(&line, " set ") {
        return TemplateEvent::Directive { line: text, comment: read_comment(resolver, &line) };
    }
    match read_filler(resolver, &line) {
        Some(count) => {
            return TemplateEvent::Filler { count };
        },
        None => {},
    }
    if begins_with(&line, ";") {
        return TemplateEvent::Nothing;
    }
    let skip = |l: &str| -> (b: bool)
        ensures
            b == template_skips(l@),
        { skips(resolver, l) };
    let cost = extract_cycle_count(resolver, text.as_str(), skip);
    assert(resolved(cost) == resolved_cost(resolver.costs(), line@, template_skips(line@)));
    match cost {
        Some(cost) => TemplateEvent::Code { line: text, cost, comment: read_comment(resolver, &line) },
        None => TemplateEvent::Nothing,
    }
}

impl TemplateParser {
    /// The parser before the first line.
    pub fn new() -> (r: Self)
        ensures
            r@ == start(),
    {
        let r = TemplateParser {
            sections: Vec::new(),
            code: Vec::new(),
            label: String::new(),
            offset: 0,
        };
        assert(r@.sections =~= Seq::empty() && r@.code =~= Seq::empty());
        r
    }

    /// The label of the open section once a line with the inline comment
    /// `comment` has been taken into it.
    fn label_with(&self, comment: Option<String>) -> (r: String)
        ensures
            r@ == labelled(self@, text_of(comment)),
    {
        if self.label.as_str().unicode_len() > 0 {
            return self.label.clone();
        }
        match comment {
            Some(text) => text,
            None => self.label.clone(),
        }
    }

    /// The label under which the open section is closed.
    fn closing_label(&self) -> (r: String)
        ensures
            r@ == closing_label(self@),
    {
        if self.label.as_str().unicode_len() > 0 {
            return self.label.clone();
        }
        let mut out: Vec<char> = Vec::new();
        push_str(&mut out, "Section ");
        push_decimal(&mut out, self.sections.len() as u128 + 1);
        to_string(&out)
    }

    /// Takes one line.
    pub fn advance(self, event: TemplateEvent) -> (r: Result<TemplateParser, TemplateError>)
        ensures
            match advance(self@, event@) {
                Ok(st) => r matches Ok(p) && p@ == st,
                Err(e) => r matches Err(f) && f == e,
            },
    {
        match event {
            TemplateEvent::Nothing => Ok(self),
            TemplateEvent::Directive { line, comment } => {
                let label = self.label_with(comment);
                let mut code = self.code;
                code.push((line, 0));
                assert(code_view(code@) =~= code_view(self.code@).push((line@, 0usize)));
                Ok(TemplateParser { sections: self.sections, code, label, offset: self.offset })
            },
            TemplateEvent::Filler { count: None } => Err(TemplateError::FillerCount),
            TemplateEvent::Filler { count: Some(count) } => match count.checked_mul(4) {
                None => Err(TemplateError::Overflow),
                Some(budget) => if self.code.len() > 0 {
                    let label = self.closing_label();
                    let mut sections = self.sections;
                    let section = TemplateSection {
                        injection_code: self.code,
                        nop_cycles: budget,
                        label,
                    };
                    sections.push(section);
                    assert(section_views(sections@) =~= section_views(self.sections@).push(
                        section@,
                    ));
                    let r = TemplateParser {
                        sections,
                        code: Vec::new(),
                        label: String::new(),
                        offset: self.offset,
                    };
                    assert(r@.code =~= Seq::empty());
                    Ok(r)
                } else {
                    Ok(self)
                },
            },
            TemplateEvent::Code { line, cost, comment } => {
                let effective = cost.effective();
                if effective > (usize::MAX - self.offset) as u128 {
                    return Err(TemplateError::Overflow);
                }
                let label = self.label_with(comment);
                let annotated = format_accumulated_instruction(line.as_str(), &cost, self.offset);
                let mut code = self.code;
                code.push((annotated, effective as usize));
                assert(code_view(code@) =~= code_view(self.code@).push(
                    (annotated_line(line@, cost@, self.offset), effective as usize),
                ));
                Ok(
                    TemplateParser {
                        sections: self.sections,
                        code,
                        label,
                        offset: self.offset + effective as usize,
                    },
                )
            },
        }
    }

    /// The sections at the end of the input.
    pub fn finish(self) -> (r: Vec<TemplateSection>)
        ensures
            section_views(r@) == finish(self@),
    {
        if self.code.len() > 0 {
            let label = self.closing_label();
            let mut sections = self.sections;
            let section = TemplateSection {
                injection_code: self.code,
                nop_cycles: 0,
                label,
            };
            sections.push(section);
            assert(section_views(sections@) =~= section_views(self.sections@).push(section@));
            sections
        } else {
            self.sections
        }
    }
}

/// Cuts a template into its sections. A filler directive closes the section
/// that is open and gives it its filler budget, four cycles for each filler
/// word; a `set` directive is injected code without cost; any other line that
/// is neither blank nor a comment is injected code with its resolved cost,
/// annotated with the running offset; a section that is still open at the
/// end is closed with a budget of zero. The label of a section is the first
/// inline comment in it, or `Section <n>`.
pub fn parse_template(resolver: &Resolver, template_content: &str) -> (r: Result<
    Vec<TemplateSection>,
    TemplateError,
>)
    ensures
        match sections_of(resolver.costs(), split_lines(template_content@)) {
            Ok(sections) => r matches Ok(v) && section_views(v@) == sections,
            Err(e) => r matches Err(f) && f == e,
        },
{
    let content = to_chars(template_content);
    let lines = lines_of(&content);
    let ghost events = events_of(resolver.costs(), split_lines(template_content@));
    let mut parser = TemplateParser::new();
    let mut k: usize = 0;
    while k < lines.len()
        invariant
            k <= lines.len(),
            events == events_of(resolver.costs(), split_lines(template_content@)),
            events.len() == lines@.len(),
            forall|j: int|
                0 <= j < lines@.len() ==> (#[trigger] lines@[j])@ == split_lines(
                    template_content@,
                )[j],
            advanced(events, k as int) == Ok::<Progress, TemplateError>(parser@),
        decreases lines.len() - k,
    {
        let event = read_event(resolver, &lines[k]);
        assert(event@ == events[k as int]);
        match parser.advance(event) {
            Ok(next) => {
                parser = next;
            },
            Err(e) => {
                proof {
                    lemma_advanced_error(events, k + 1, events.len() as int);
                }
                return Err(e);
            },
        }
        k += 1;
    }
    Ok(parser.finish())
}

/// Once a line has failed, the rest of the input changes nothing.
proof fn lemma_advanced_error(events: Seq<Event>, k: int, n: int)
    requires
        0 <= k <= n,
        advanced(events, k) is Err,
    ensures
        advanced(events, n) == advanced(events, k),
    decreases n - k,
{
    if k < n {
        lemma_advanced_error(events, k, n - 1);
    }
}

/// One instruction followed by a filler directive makes exactly one section:
/// its injected code is that instruction alone, and its filler budget is four
/// cycles for each filler word.
pub proof fn law_section_boundary(
    line: Seq<char>,
    cost: Cost,
    comment: Option<Seq<char>>,
    count: usize,
)
    requires
        cost.effective() <= usize::MAX,
        count * 4 <= usize::MAX,
    ensures
        sections_from(seq![Event::Code { line, cost, comment }, Event::Filler { count: Some(count) }])
            matches Ok(sections) && sections.len() == 1 && sections[0].injection_code.len() == 1
            && sections[0].injection_code[0] == (
            annotated_line(line, cost, 0),
            cost.effective() as usize,
        ) && sections[0].nop_cycles == count * 4,
{
    let events = seq![Event::Code { line, cost, comment }, Event::Filler { count: Some(count) }];
    lemma_effective_nonneg(cost);
    assert(advanced(events, 0) == Ok::<Progress, TemplateError>(start()));
    let one = advance(start(), events[0]);
    assert(advanced(events, 1) == one);
    let st = one->Ok_0;
    assert(st.code =~= seq![(annotated_line(line, cost, 0), cost.effective() as usize)]);
    assert(advanced(events, 2) == advance(st, events[1]));
    let end = advance(st, events[1])->Ok_0;
    assert(end.code.len() == 0);
    assert(finish(end) == end.sections);
}

/// The label of a section is the first inline comment met in it: a line
/// with a comment labels a section that has no label yet, whatever lines
/// without comment were taken into it before, and a later comment changes
/// nothing.
pub proof fn law_first_comment(st: Progress, line: Seq<char>, cost: Cost, comment: Seq<char>)
    requires
        st.offset + cost.effective() <= usize::MAX,
    ensures
        advance(st, Event::Code { line, cost, comment: Some(comment) }) matches Ok(next)
            && next.label == (if st.label.len() == 0 {
            comment
        } else {
            st.label
        }),
        advance(st, Event::Code { line, cost, comment: None }) matches Ok(next) && next.label
            == st.label,
{
}

/// A section without a comment is labelled by its ordinal: where a section
/// is closed and no line in it had an inline comment, the section is called
/// `Section <n>`, `n` being one more than the number of sections closed
/// before it: `Section 1` for the first section, `Section 2` for the second.
pub proof fn law_default_label(st: Progress, count: usize)
    requires
        count * 4 <= usize::MAX,
        st.label.len() == 0,
        st.code.len() > 0,
    ensures
        advance(st, Event::Filler { count: Some(count) }) matches Ok(next) && next.sections.last().label
            == "Section "@ + decimal(st.sections.len() + 1),
        finish(st).last().label == "Section "@ + decimal(st.sections.len() + 1),
        st.sections.len() == 0 ==> finish(st).last().label == "Section 1"@,
        st.sections.len() == 1 ==> finish(st).last().label == "Section 2"@,
{
    reveal_strlit("Section ");
    reveal_strlit("Section 1");
    reveal_strlit("Section 2");
    assert(decimal(1) =~= seq!['1']);
    assert(decimal(2) =~= seq!['2']);
    assert("Section "@ + seq!['1'] =~= "Section 1"@);
    assert("Section "@ + seq!['2'] =~= "Section 2"@);
}

/// Whether the template takes a line for an instruction that the cost table
/// does not know.
pub open spec fn is_unknown(costs: Map<Seq<char>, Seq<usize>>, raw: Seq<char>) -> bool {
    let line = trim(raw);
    &&& line.len() > 0
    &&& !is_set_directive(line)
    &&& filler_count(line) is None
    &&& !starts_with(line, ";"@)
    &&& misses_table(costs, line, template_skips(line))
}

/// Whether the template takes a line for an instruction that the cost table
/// does not know: the line is then injected with a cost of zero cycles.
pub fn lacks_cost(resolver: &Resolver, raw: &str) -> (r: bool)
    ensures
        r == is_unknown(resolver.costs(), raw@),
{
    let line = trimmed(&to_chars(raw));
    if line.len() == 0 || holds(&line, " set ") || read_filler(resolver, &line).is_some()
        || begins_with(&line, ";") {
        return false;
    }
    let text = to_string(&line);
    lookup_fails(resolver, text.as_str(), skips(resolver, text.as_str()))
}

} // verus!
