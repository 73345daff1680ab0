use cycle_spitter::cycles::{normalize_line_ext, CostTable, Resolver};
use cycle_spitter::helpers::extract_cycle_count;
use cycle_spitter::matcher::{char_position_of, width_of, to_char_matches};
use cycle_spitter::patterns::{Pattern, Patterns};
use cycle_spitter::rewrite::{rewrite, rewrite_first, splice, Rule};
use cycle_spitter::template::parse_template;
use cycle_spitter::text::{is_space, to_chars, to_string};

fn resolver() -> Resolver {
    let mut table = CostTable::new();
    table.insert("nop.w".to_string(), vec![4]);
    Resolver::new(table).unwrap()
}

#[test]
fn whitespace_is_the_white_space_property() {
    for u in 0..=0x10ffffu32 {
        if let Some(c) = char::from_u32(u) {
            assert_eq!(is_space(c), c.is_whitespace(), "U+{:04X}", u);
        }
    }
}

#[test]
fn width_is_the_utf8_length() {
    for u in 0..=0x10ffffu32 {
        if let Some(c) = char::from_u32(u) {
            assert_eq!(width_of(c), c.len_utf8(), "U+{:04X}", u);
        }
    }
}

#[test]
fn byte_offsets_become_character_positions() {
    let text = to_chars("aé✓😀z");
    assert_eq!(char_position_of(&text, 0), 0);
    assert_eq!(char_position_of(&text, 1), 1);
    assert_eq!(char_position_of(&text, 3), 2);
    assert_eq!(char_position_of(&text, 6), 3);
    assert_eq!(char_position_of(&text, 10), 4);
    assert_eq!(char_position_of(&text, 11), 5);
    assert_eq!(char_position_of(&text, 99), 5);
    assert_eq!(char_position_of(&text, usize::MAX), 5);
    let found = vec![vec![Some((1, 6)), None, Some((3, 6))], vec![Some((10, 11))]];
    assert_eq!(
        to_char_matches(&text, &found),
        vec![vec![Some((1, 3)), None, Some((2, 3))], vec![Some((4, 5))]]
    );
}

#[test]
fn matches_are_found_in_order_with_their_groups() {
    let p = Patterns::new().unwrap();
    let text = to_chars("é 4(a0),d1,-(sp)");
    assert_eq!(
        p.find(Pattern::Displacement, &text),
        vec![
            vec![Some((2, 7)), Some((2, 3)), Some((4, 6))],
            vec![Some((11, 16)), Some((11, 12)), Some((13, 15))],
        ]
    );
    assert_eq!(p.find(Pattern::DataRegister, &text), vec![vec![Some((8, 10))]]);
    assert!(p.find(Pattern::Immediate, &text).is_empty());
    let hex = to_chars("$ff,d0");
    assert_eq!(
        p.find(Pattern::HexLiteral, &hex),
        vec![vec![Some((0, 4)), Some((1, 3)), None, Some((3, 4))]]
    );
}

#[test]
fn passes_replace_what_they_find() {
    let p = Patterns::new().unwrap();
    let text = to_chars("é 4(a0),d1,-(sp),#'é',d2");
    let displaced = rewrite(&p, Rule::Displacement, &text);
    assert_eq!(to_string(&displaced), "é d(a0),d1,-(sp),#'é',d2");
    let immediate = rewrite(&p, Rule::Immediate, &displaced);
    assert_eq!(to_string(&immediate), "é d(a0),d1,-(sp),#xxx,d2");
    let data = rewrite(&p, Rule::DataRegister, &immediate);
    assert_eq!(to_string(&data), "é d(a0),dn,-(sp),#xxx,dn");
    let address = rewrite(&p, Rule::AddressRegister, &data);
    assert_eq!(to_string(&address), "é d(an),dn,-(an),#xxx,dn");
    assert_eq!(to_string(&rewrite(&p, Rule::Spaces, &to_chars("a \t b   c"))), "a b c");
    assert_eq!(to_string(&rewrite(&p, Rule::RegisterList, &to_chars("d0-d3/a1,x"))), "%%REGLIST%%,x");
    assert_eq!(to_string(&rewrite(&p, Rule::Absolute, &to_chars("foo.w,bar,an,d"))), "xxx.w,xxx.l,an,d");
    assert_eq!(to_string(&rewrite(&p, Rule::HexLiteral, &to_chars("$ff.w,$10"))), "xxx.w,xxx.l");
}

#[test]
fn label_pass_takes_the_first_match_only() {
    let p = Patterns::new().unwrap();
    assert_eq!(to_string(&rewrite_first(&p, Rule::Label, &to_chars("a: b: nop"))), "b: nop");
    assert_eq!(to_string(&rewrite_first(&p, Rule::Label, &to_chars("  nop"))), "  nop");
    assert_eq!(to_string(&rewrite_first(&p, Rule::Label, &to_chars(" lbl: nop"))), "nop");
    assert_eq!(to_string(&rewrite_first(&p, Rule::Label, &to_chars("move.w a,b:c"))), "move.w a,b:c");
    assert_eq!(to_string(&rewrite_first(&p, Rule::Label, &to_chars("nop"))), "nop");
}

#[test]
fn splice_on_given_matches() {
    let text = to_chars("abcdef");
    let found = vec![vec![Some((1, 2))], vec![Some((4, 4))], vec![Some((4, 6))]];
    assert_eq!(to_string(&splice(Rule::DataRegister, &text, &found)), "adncddndn");
    assert_eq!(to_string(&splice(Rule::Label, &text, &found)), "acd");
    assert_eq!(to_string(&splice(Rule::Spaces, &text, &Vec::new())), "abcdef");
}

#[test]
fn characters_beyond_ascii_keep_spans_in_place() {
    let r = resolver();
    let c = extract_cycle_count(&r, "; ééé ✓ (12) après", |_: &str| true).unwrap();
    assert_eq!(c.get_cycles(), vec![12]);
    assert_eq!(
        normalize_line_ext(r.patterns(), "move.w #'é',d0").0,
        "move.w #xxx,dn"
    );
    assert_eq!(
        normalize_line_ext(r.patterns(), "déjà: move.w d0,4(a1) ; ça").0,
        "déjà:.w xxx.w dn,d(an)"
    );
    let sections = parse_template(&r, "nop ; ça va ✓\ndcb.w 2,$4e71").unwrap();
    assert_eq!(sections[0].label, "ça va ✓");
    assert_eq!(sections[0].nop_cycles, 8);
}

#[test]
fn engine_answers_are_handed_on() {
    let kept = cycle_spitter::patterns::accepted(Pattern::Spaces, regex::Regex::new(r"[ \t]+"));
    assert_eq!(kept.unwrap().as_str(), r"[ \t]+");
    let refused = cycle_spitter::patterns::accepted(Pattern::Branch, regex::Regex::new("("));
    assert_eq!(refused.err().map(|e| e.which), Some(Pattern::Branch));
}

#[test]
fn resolver_holds_what_it_is_given() {
    let mut table = CostTable::new();
    table.insert("rts.w".to_string(), vec![16]);
    let r = Resolver::with_patterns(Patterns::new().unwrap(), table);
    assert_eq!(r.table().get("rts.w"), Some(vec![16]));
    assert_eq!(normalize_line_ext(r.patterns(), " RTS ").0, "rts.w");
    assert_eq!(r.patterns().find(Pattern::Spaces, &to_chars("a  b")), vec![vec![Some((1, 3))]]);
}
