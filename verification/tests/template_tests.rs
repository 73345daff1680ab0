use cycle_spitter::cycles::{CostTable, Resolver};
use cycle_spitter::template::{parse_template, TemplateError};

fn resolver() -> Resolver {
    let mut table = CostTable::new();
    table.insert("nop.w".to_string(), vec![4]);
    table.insert("move.w #xxx,dn".to_string(), vec![8]);
    table.insert("movem.l reglist,-(an)".to_string(), vec![8, 8]);
    Resolver::new(table).unwrap()
}

#[test]
fn test_parse_template_instruction_with_cycles() {
    let content = r#"
            move.w #$1323,D0 ; Move Instruction
            dcb.w 2,$4e71
        "#;
    let sections = parse_template(&resolver(), content).unwrap();

    assert_eq!(sections.len(), 1);
    assert_eq!(sections[0].nop_cycles, 8);
    assert_eq!(sections[0].injection_code.len(), 1);
    assert_eq!(
        sections[0].injection_code[0].0,
        "move.w #$1323,D0 ; Move Instruction	;	(8)	move.w #xxx,dn"
    );
    assert_eq!(sections[0].label, "Move Instruction");
}

#[test]
fn test_parse_template_multiple_sections() {
    let content = r#"
            move.w #$5678,D1
            dcb.w 4,$4e71
            move.w #$9,D2 ; Label for section
            dcb.w 6,$4e71
        "#;
    let sections = parse_template(&resolver(), content).unwrap();

    assert_eq!(sections.len(), 2);

    assert_eq!(sections[0].nop_cycles, 16);
    assert_eq!(sections[0].injection_code.len(), 1);
    assert_eq!(
        sections[0].injection_code[0].0,
        "move.w #$5678,D1	;	(8)	move.w #xxx,dn"
    );
    assert_eq!(sections[0].label, "Section 1");

    assert_eq!(sections[1].nop_cycles, 24);
    assert_eq!(sections[1].injection_code.len(), 1);
    assert_eq!(
        sections[1].injection_code[0].0,
        "move.w #$9,D2 ; Label for section	;	(8)	move.w #xxx,dn	[8]"
    );
    assert_eq!(sections[1].label, "Label for section");
}

#[test]
fn test_parse_template_ignore_empty_lines() {
    let content = r#"

            move.w #$123,D3 ; Some work

            dcb.w 1,$4e71
        "#;
    let sections = parse_template(&resolver(), content).unwrap();

    assert_eq!(sections.len(), 1);
    assert_eq!(sections[0].nop_cycles, 4);
    assert_eq!(sections[0].injection_code.len(), 1);
    assert_eq!(
        sections[0].injection_code[0].0,
        "move.w #$123,D3 ; Some work	;	(8)	move.w #xxx,dn"
    );
    assert_eq!(sections[0].label, "Some work");
}

#[test]
fn test_parse_template_with_inline_comments() {
    let content = r#"
            move.w #$100,D4 ; Inline comment
            dcb.w 7,$4e71 ; Another comment
        "#;
    let sections = parse_template(&resolver(), content).unwrap();

    assert_eq!(sections.len(), 1);
    assert_eq!(sections[0].nop_cycles, 28);
    assert_eq!(sections[0].injection_code.len(), 1);
    assert_eq!(
        sections[0].injection_code[0].0,
        "move.w #$100,D4 ; Inline comment	;	(8)	move.w #xxx,dn"
    );
    assert_eq!(sections[0].label, "Inline comment");
}

#[test]
fn test_parse_template_no_valid_sections() {
    let content = r#"
            ; This is a comment line
            ; Another comment line
        "#;
    let sections = parse_template(&resolver(), content).unwrap();

    assert_eq!(sections.len(), 0);
}

#[test]
fn one_instruction_and_a_filler_make_one_section() {
    let sections = parse_template(&resolver(), "nop\ndcb.w 5,$4e71").unwrap();
    assert_eq!(sections.len(), 1);
    assert_eq!(sections[0].injection_code.len(), 1);
    assert_eq!(sections[0].injection_code[0], ("nop\t;\t(4)\tnop.w".to_string(), 4));
    assert_eq!(sections[0].nop_cycles, 5 * 4);
}

#[test]
fn labels_default_to_the_ordinal_of_the_section() {
    let sections =
        parse_template(&resolver(), "nop\ndcb.w 1,$4e71\nnop\ndcb.w 1,$4e71\nnop\n").unwrap();
    assert_eq!(sections.len(), 3);
    assert_eq!(sections[0].label, "Section 1");
    assert_eq!(sections[1].label, "Section 2");
    assert_eq!(sections[2].label, "Section 3");
    assert_eq!(sections[2].nop_cycles, 0);
}

#[test]
fn open_section_is_closed_with_an_empty_budget() {
    let sections = parse_template(&resolver(), "nop ; tail").unwrap();
    assert_eq!(sections.len(), 1);
    assert_eq!(sections[0].nop_cycles, 0);
    assert_eq!(sections[0].label, "tail");
}

#[test]
fn offsets_run_on_through_a_section() {
    let sections = parse_template(&resolver(), "nop\nmove.w #1,d0\nnop\ndcb.w 2,$4e71").unwrap();
    assert_eq!(sections.len(), 1);
    let code = &sections[0].injection_code;
    assert_eq!(code.len(), 3);
    assert_eq!(code[0], ("nop\t;\t(4)\tnop.w".to_string(), 4));
    assert_eq!(code[1], ("move.w #1,d0\t;\t(8)\tmove.w #xxx,dn\t[4]".to_string(), 8));
    assert_eq!(code[2], ("nop\t;\t(4)\tnop.w\t[12]".to_string(), 4));
}

#[test]
fn set_lines_are_injected_without_cost() {
    let sections = parse_template(&resolver(), "x set 1 ; counter\nnop\ndcb.w 1,$4e71").unwrap();
    assert_eq!(sections.len(), 1);
    assert_eq!(sections[0].label, "counter");
    assert_eq!(sections[0].injection_code[0], ("x set 1 ; counter".to_string(), 0));
    assert_eq!(sections[0].injection_code[1], ("nop\t;\t(4)\tnop.w".to_string(), 4));
}

#[test]
fn filler_without_open_section_is_ignored() {
    let sections = parse_template(&resolver(), "dcb.w 3,$4e71\nnop\ndcb.w 2,$4e71").unwrap();
    assert_eq!(sections.len(), 1);
    assert_eq!(sections[0].nop_cycles, 8);
    assert_eq!(sections[0].label, "Section 1");
}

#[test]
fn annotated_cost_wins_over_the_table() {
    let sections = parse_template(&resolver(), "nop ; (12)\ndcb.w 1,$4e71").unwrap();
    assert_eq!(sections[0].injection_code[0], ("nop ; (12)\t;\t(12)\tn/a".to_string(), 12));
    assert_eq!(sections[0].label, "(12)");
}

#[test]
fn register_list_cost_in_a_template() {
    let sections = parse_template(&resolver(), "movem.l d0-d1,-(sp)").unwrap();
    assert_eq!(sections[0].injection_code[0].1, 8 + 2 * 8);
}

#[test]
fn unreadable_filler_count_is_an_error() {
    let r = parse_template(&resolver(), "nop\ndcb.w 99999999999999999999999999,$4e71");
    assert_eq!(r.err(), Some(TemplateError::FillerCount));
}

#[test]
fn filler_budget_beyond_the_machine_word_is_an_error() {
    let text = format!("nop\ndcb.w {},$4e71", usize::MAX);
    let r = parse_template(&resolver(), &text);
    assert_eq!(r.err(), Some(TemplateError::Overflow));
}

#[test]
fn offset_beyond_the_machine_word_is_an_error() {
    let text = format!("nop ; ({})\nnop ; (1)", usize::MAX);
    let r = parse_template(&resolver(), &text);
    assert_eq!(r.err(), Some(TemplateError::Overflow));
}

#[test]
fn label_is_the_first_comment_met_in_the_section() {
    let sections =
        parse_template(&resolver(), "move.w d0,d1\nmove.w d1,d2 ; Foo\ndcb.w 1,$4e71").unwrap();
    assert_eq!(sections.len(), 1);
    assert_eq!(sections[0].injection_code.len(), 2);
    assert_eq!(sections[0].label, "Foo");
    assert_eq!(sections[0].nop_cycles, 4);

    let sections =
        parse_template(&resolver(), "nop ; first\nnop ; second\ndcb.w 1,$4e71\nnop\nnop ; third").unwrap();
    assert_eq!(sections.len(), 2);
    assert_eq!(sections[0].label, "first");
    assert_eq!(sections[1].label, "third");
}

#[test]
fn label_defaults_only_where_the_section_has_no_comment() {
    let sections = parse_template(
        &resolver(),
        "nop\nnop\ndcb.w 1,$4e71\nnop\nx set 1\ndcb.w 1,$4e71\nnop ; named\ndcb.w 1,$4e71\nnop",
    )
    .unwrap();
    assert_eq!(sections.len(), 4);
    assert_eq!(sections[0].label, "Section 1");
    assert_eq!(sections[1].label, "Section 2");
    assert_eq!(sections[2].label, "named");
    assert_eq!(sections[3].label, "Section 4");
}
