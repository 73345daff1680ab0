//! The patterns that describe instruction lines, compiled once and shared.

use vstd::prelude::*;
use crate::matcher::{
    built_from, captures_all, char_matches, compile, Groups, matches_ordered, matches_view,
    regex_accepts, regex_found, regex_matches, to_char_matches,
};
use crate::text::to_string;

verus! {

/// An inline cost annotation: a number in parentheses at the start of the line
/// or after whitespace.
pub const NUMBER: &'static str = r"(?:^|\s)\(\s*(\d+)\s*\)";

/// A leading label with its terminator, and the blanks around it.
pub const LABEL: &'static str = r"^\s*\.*[a-zA-Z_][a-zA-Z0-9_]*:\s*";

/// The mnemonics that always work on the full word size.
pub const LONG_MNEMONIC: &'static str = r"^(lea|moveq)$";

/// A branch-family mnemonic, with its short-form suffix where it has one.
pub const BRANCH: &'static str = r"^(b[A-Za-z]{2})(\.s)?";

/// A displacement before an address register in parentheses.
pub const DISPLACEMENT: &'static str = r"([^\s,()]+)\((a[0-7]|sp)\)";

/// An immediate operand.
pub const IMMEDIATE: &'static str = r"(#[^,\s]+)";

/// A register list: ranges joined by `-`, lists joined by `/`.
pub const REGISTER_LIST: &'static str =
    r"(?P<reglist>[da][0-7](?:-[da][0-7])?(?:[/-][da][0-7](?:-[da][0-7])?)+)";

/// A bare data register.
pub const DATA_REGISTER: &'static str = r"\bd[0-7]\b";

/// A bare address register, or the stack pointer.
pub const ADDRESS_REGISTER: &'static str = r"\b(a[0-7]|sp)\b";

/// A bare identifier, with what stands before it and its size suffix.
pub const ABSOLUTE: &'static str =
    r"(?P<before>^|[ \t,(\[])(?P<token>[a-zA-Z_][a-zA-Z0-9_]*)(?P<suffix>\.[lw])?\b";

/// A run of blanks and tabs.
pub const SPACES: &'static str = r"[ \t]+";

/// A hexadecimal literal, with its size suffix and what follows it.
pub const HEX_LITERAL: &'static str = r"\$(\w+)(\.w)?([,;\n\t])?";

/// The filler directive of a template, with its count.
pub const FILLER: &'static str = r"dcb\.w\s*(\d+),\s*\$4e71";

/// An inline comment, with its text.
pub const COMMENT: &'static str = r";\s*(.*)";

/// A number in parentheses, anywhere.
pub const PAREN_NUMBER: &'static str = r"\(\s*\d+\s*\)";

/// A line that begins with a blank or with a label, and the rest of it.
pub const LABEL_SPLIT: &'static str = r"^(\s|\.*[a-zA-Z_][a-zA-Z0-9_]*:)(.*)$";

/// The name of one pattern.
#[derive(Clone, Copy, Debug, PartialEq, Eq)]
pub enum Pattern {
    Number,
    Label,
    LongMnemonic,
    Branch,
    Displacement,
    Immediate,
    RegisterList,
    DataRegister,
    AddressRegister,
    Absolute,
    Spaces,
    HexLiteral,
    Filler,
    Comment,
    ParenNumber,
    LabelSplit,
}

/// The text of a pattern.
pub open spec fn pattern_text(which: Pattern) -> Seq<char> {
    match which {
        Pattern::Number => NUMBER@,
        Pattern::Label => LABEL@,
        Pattern::LongMnemonic => LONG_MNEMONIC@,
        Pattern::Branch => BRANCH@,
        Pattern::Displacement => DISPLACEMENT@,
        Pattern::Immediate => IMMEDIATE@,
        Pattern::RegisterList => REGISTER_LIST@,
        Pattern::DataRegister => DATA_REGISTER@,
        Pattern::AddressRegister => ADDRESS_REGISTER@,
        Pattern::Absolute => ABSOLUTE@,
        Pattern::Spaces => SPACES@,
        Pattern::HexLiteral => HEX_LITERAL@,
        Pattern::Filler => FILLER@,
        Pattern::Comment => COMMENT@,
        Pattern::ParenNumber => PAREN_NUMBER@,
        Pattern::LabelSplit => LABEL_SPLIT@,
    }
}

/// Every match of the pattern `which` in `text`, left to right, with spans in
/// character positions.
pub open spec fn matches_of(which: Pattern, text: Seq<char>) -> Seq<Seq<Option<(usize, usize)>>> {
    char_matches(text, regex_matches(pattern_text(which), text))
}

/// Whether the pattern engine accepts every pattern of the library.
pub open spec fn all_accepted() -> bool {
    forall|which: Pattern| regex_accepts(#[trigger] pattern_text(which))
}

/// The pattern engine does not take one of the library's patterns.
#[derive(Clone, Copy, Debug)]
pub struct Rejected {
    /// The pattern that was rejected.
    pub which: Pattern,
}

/// What becomes of the engine's answer `outcome` to the pattern `which`: a
/// compiled pattern is handed on as it is, and a refusal names the pattern.
pub fn accepted(which: Pattern, outcome: Result<regex::Regex, regex::Error>) -> (r: Result<
    regex::Regex,
    Rejected,
>)
    ensures
        match outcome {
            Ok(re) => r matches Ok(kept) && kept == re,
            Err(_) => r matches Err(e) && e.which == which,
        },
{
    match outcome {
        Ok(re) => Ok(re),
        Err(_) => Err(Rejected { which }),
    }
}

/// Compiles the pattern `which` from its text `source`.
fn compiled(which: Pattern, source: &str) -> (r: Result<regex::Regex, Rejected>)
    requires
        source@ == pattern_text(which),
    ensures
        r is Ok <==> regex_accepts(pattern_text(which)),
        r matches Ok(re) ==> built_from(re, pattern_text(which)),
        r matches Err(e) ==> e.which == which && !all_accepted(),
{
    accepted(which, compile(source))
}

/// The compiled patterns.
pub struct Patterns {
    number: regex::Regex,
    label: regex::Regex,
    long_mnemonic: regex::Regex,
    branch: regex::Regex,
    displacement: regex::Regex,
    immediate: regex::Regex,
    register_list: regex::Regex,
    data_register: regex::Regex,
    address_register: regex::Regex,
    absolute: regex::Regex,
    spaces: regex::Regex,
    hex_literal: regex::Regex,
    filler: regex::Regex,
    comment: regex::Regex,
    paren_number: regex::Regex,
    label_split: regex::Regex,
}

impl Patterns {
    /// Each compiled pattern was built from the text that its name stands for.
    #[verifier::type_invariant]
    closed spec fn wf(&self) -> bool {
        &&& built_from(self.number, NUMBER@)
        &&& built_from(self.label, LABEL@)
        &&& built_from(self.long_mnemonic, LONG_MNEMONIC@)
        &&& built_from(self.branch, BRANCH@)
        &&& built_from(self.displacement, DISPLACEMENT@)
        &&& built_from(self.immediate, IMMEDIATE@)
        &&& built_from(self.register_list, REGISTER_LIST@)
        &&& built_from(self.data_register, DATA_REGISTER@)
        &&& built_from(self.address_register, ADDRESS_REGISTER@)
        &&& built_from(self.absolute, ABSOLUTE@)
        &&& built_from(self.spaces, SPACES@)
        &&& built_from(self.hex_literal, HEX_LITERAL@)
        &&& built_from(self.filler, FILLER@)
        &&& built_from(self.comment, COMMENT@)
        &&& built_from(self.paren_number, PAREN_NUMBER@)
        &&& built_from(self.label_split, LABEL_SPLIT@)
    }

    /// Every match of the compiled pattern `which` in `text`, with spans in
    /// byte offsets.
    pub closed spec fn finds(&self, which: Pattern, text: Seq<char>) -> Seq<
        Seq<Option<(usize, usize)>>,
    > {
        match which {
            Pattern::Number => regex_found(self.number, text),
            Pattern::Label => regex_found(self.label, text),
            Pattern::LongMnemonic => regex_found(self.long_mnemonic, text),
            Pattern::Branch => regex_found(self.branch, text),
            Pattern::Displacement => regex_found(self.displacement, text),
            Pattern::Immediate => regex_found(self.immediate, text),
            Pattern::RegisterList => regex_found(self.register_list, text),
            Pattern::DataRegister => regex_found(self.data_register, text),
            Pattern::AddressRegister => regex_found(self.address_register, text),
            Pattern::Absolute => regex_found(self.absolute, text),
            Pattern::Spaces => regex_found(self.spaces, text),
            Pattern::HexLiteral => regex_found(self.hex_literal, text),
            Pattern::Filler => regex_found(self.filler, text),
            Pattern::Comment => regex_found(self.comment, text),
            Pattern::ParenNumber => regex_found(self.paren_number, text),
            Pattern::LabelSplit => regex_found(self.label_split, text),
        }
    }

    /// Whether every compiled pattern finds what the text that its name
    /// stands for says.
    pub open spec fn well_formed(&self) -> bool {
        forall|which: Pattern, text: Seq<char>| #[trigger]
            self.finds(which, text) == regex_matches(pattern_text(which), text)
    }

    /// Compiles every pattern of the library from its text. It succeeds where
    /// the engine accepts all of them, and fails with the first that the
    /// engine rejects.
    pub fn new() -> (r: Result<Patterns, Rejected>)
        ensures
            r is Ok <==> all_accepted(),
            r matches Ok(p) ==> p.well_formed(),
            r matches Err(e) ==> !regex_accepts(pattern_text(e.which)),
    {
        let number = compiled(Pattern::Number, NUMBER)?;
        let label = compiled(Pattern::Label, LABEL)?;
        let long_mnemonic = compiled(Pattern::LongMnemonic, LONG_MNEMONIC)?;
        let branch = compiled(Pattern::Branch, BRANCH)?;
        let displacement = compiled(Pattern::Displacement, DISPLACEMENT)?;
        let immediate = compiled(Pattern::Immediate, IMMEDIATE)?;
        let register_list = compiled(Pattern::RegisterList, REGISTER_LIST)?;
        let data_register = compiled(Pattern::DataRegister, DATA_REGISTER)?;
        let address_register = compiled(Pattern::AddressRegister, ADDRESS_REGISTER)?;
        let absolute = compiled(Pattern::Absolute, ABSOLUTE)?;
        let spaces = compiled(Pattern::Spaces, SPACES)?;
        let hex_literal = compiled(Pattern::HexLiteral, HEX_LITERAL)?;
        let filler = compiled(Pattern::Filler, FILLER)?;
        let comment = compiled(Pattern::Comment, COMMENT)?;
        let paren_number = compiled(Pattern::ParenNumber, PAREN_NUMBER)?;
        let label_split = compiled(Pattern::LabelSplit, LABEL_SPLIT)?;
        let patterns = Patterns {
            number,
            label,
            long_mnemonic,
            branch,
            displacement,
            immediate,
            register_list,
            data_register,
            address_register,
            absolute,
            spaces,
            hex_literal,
            filler,
            comment,
            paren_number,
            label_split,
        };
        assert(patterns.well_formed());
        assert(all_accepted()) by {
            assert forall|which: Pattern| regex_accepts(#[trigger] pattern_text(which)) by {
                match which {
                    _ => {},
                }
            }
        }
        Ok(patterns)
    }

    /// Every match of the pattern `which` in `text`, left to right: for each
    /// match the span of the whole match, then the span of each capture group.
    pub fn find(&self, which: Pattern, text: &Vec<char>) -> (r: Vec<Groups>)
        ensures
            matches_view(r@) == matches_of(which, text@),
            matches_ordered(matches_view(r@), text@.len()),
    {
        proof {
            use_type_invariant(self);
        }
        let s = to_string(text);
        let found = match which {
            Pattern::Number => captures_all(&self.number, s.as_str()),
            Pattern::Label => captures_all(&self.label, s.as_str()),
            Pattern::LongMnemonic => captures_all(&self.long_mnemonic, s.as_str()),
            Pattern::Branch => captures_all(&self.branch, s.as_str()),
            Pattern::Displacement => captures_all(&self.displacement, s.as_str()),
            Pattern::Immediate => captures_all(&self.immediate, s.as_str()),
            Pattern::RegisterList => captures_all(&self.register_list, s.as_str()),
            Pattern::DataRegister => captures_all(&self.data_register, s.as_str()),
            Pattern::AddressRegister => captures_all(&self.address_register, s.as_str()),
            Pattern::Absolute => captures_all(&self.absolute, s.as_str()),
            Pattern::Spaces => captures_all(&self.spaces, s.as_str()),
            Pattern::HexLiteral => captures_all(&self.hex_literal, s.as_str()),
            Pattern::Filler => captures_all(&self.filler, s.as_str()),
            Pattern::Comment => captures_all(&self.comment, s.as_str()),
            Pattern::ParenNumber => captures_all(&self.paren_number, s.as_str()),
            Pattern::LabelSplit => captures_all(&self.label_split, s.as_str()),
        };
        to_char_matches(text, &found)
    }
}

} // verus!
