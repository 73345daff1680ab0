use cycle_spitter::cycles::{
    count_registers, lookup_cycles, normalize_line_ext, CostTable, Resolver,
};
use cycle_spitter::patterns::Patterns;

fn patterns() -> Patterns {
    Patterns::new().unwrap()
}

fn resolver() -> Resolver {
    let mut table = CostTable::new();
    table.insert("moveq.l #xxx,dn".to_string(), vec![4]);
    table.insert("move.w #xxx,dn".to_string(), vec![8]);
    table.insert("bne.b xxx.l".to_string(), vec![8, 10]);
    table.insert("movem.l reglist,-(an)".to_string(), vec![8, 8]);
    Resolver::new(table).unwrap()
}

#[test]
fn test_lookup_cycles_valid_instruction() {
    let line = "moveq #16,d0";
    let cycles = lookup_cycles(&resolver(), line);
    assert!(
        !cycles.get_cycles().is_empty(),
        "Valid instruction should return a non-empty cycle count."
    );
}

#[test]
fn test_lookup_cycles_unknown_instruction() {
    let line = "unknown_op #42,d1";
    let cycles = lookup_cycles(&resolver(), line);
    assert_eq!(
        cycles.get_cycles(),
        vec![0],
        "Unknown instructions should return a single zero cycle count."
    );
}

#[test]
fn test_lookup_cycles_normalized_instruction() {
    let p = patterns();
    let line = " moveq #12,d2  ";
    let normalized_line = normalize_line_ext(&p, line);
    assert_eq!(normalized_line.0, "moveq.l #xxx,dn");

    let line = " add #12,d2  ";
    let normalized_line = normalize_line_ext(&p, line);
    assert_eq!(normalized_line.0, "add.w #xxx,dn");

    let line = " moveq #12,D2";
    let normalized_line = normalize_line_ext(&p, line);
    assert_eq!(normalized_line.0, "moveq.l #xxx,dn");

    let line = " MOVE.W A1,A2";
    let normalized_line = normalize_line_ext(&p, line);
    assert_eq!(normalized_line.0, "move.w an,an");
}

#[test]
fn test_normalize_line_valid_cases() {
    let p = patterns();
    assert_eq!(
        normalize_line_ext(&p, "move.l d0,a1").0,
        "move.l dn,an",
        "Expected `move.l` instruction with displacement to normalize correctly."
    );
    assert_eq!(
        normalize_line_ext(&p, "lea $ffff8240.w,a0").0,
        "lea.l xxx.w,an",
        "Expected `lea` instruction with absolute.w to normalize correctly."
    );
    assert_eq!(
        normalize_line_ext(&p, "lea $ffff8240,a0").0,
        "lea.l xxx.l,an",
        "Expected `lea` instruction with absolute.l to normalize correctly."
    );
    assert_eq!(
        normalize_line_ext(&p, "move.w $ffff8240.w,d0").0,
        "move.w xxx.w,dn",
        "Expected `move.w` instruction with absolute.w to normalize correctly."
    );
    assert_eq!(
        normalize_line_ext(&p, "move.w d0,$ffff8240.w").0,
        "move.w dn,xxx.w",
        "Expected `move.w` instruction with absolute.w to normalize correctly."
    );
    assert_eq!(
        normalize_line_ext(&p, "move.w $ffff8240,d0").0,
        "move.w xxx.l,dn",
        "Expected `move.w` instruction with absolute to normalize correctly."
    );
    assert_eq!(
        normalize_line_ext(&p, "move.w d0,$ffff8240").0,
        "move.w dn,xxx.l",
        "Expected `move.w` instruction with absolute to normalize correctly."
    );
    assert_eq!(
        normalize_line_ext(&p, "move.b\td7,$ffff8260.w\t\t\t;").0,
        "move.b dn,xxx.w",
        "Expected `move.w` instruction with absolute to normalize correctly."
    );
    assert_eq!(
        normalize_line_ext(&p, "bne.s label.w").0,
        "bne.b xxx.w",
        "Expected branch instruction to normalize to `.b` suffix."
    );
}

#[test]
fn test_normalize_already_normalized_instructions() {
    let line = "moveq.l #xxx,dn";
    assert_eq!(
        normalize_line_ext(&patterns(), line).0,
        line,
        "Already normalized instruction should remain unchanged."
    );
}

#[test]
fn test_normalize_immediate_values() {
    assert_eq!(
        normalize_line_ext(&patterns(), "addq.l #20,d1").0,
        "addq.l #xxx,dn",
        "Immediate values should be replaced with #xxx."
    );
}

#[test]
fn test_normalize_displacement_addressing() {
    let line = "lea 100(sp),a1";
    let expected = "lea.l d(an),an";
    assert_eq!(
        normalize_line_ext(&patterns(), line).0,
        expected,
        "Displacement addressing should be normalized properly."
    );
}

#[test]
fn test_normalize_registers() {
    let p = patterns();
    let line = "movem.l d0-d7/a0-a6,-(sp)";
    let expected = "movem.l reglist,-(an)";
    assert_eq!(
        normalize_line_ext(&p, line).0,
        expected,
        "Registers (data/address) should be replaced with placeholders."
    );

    let line = "movem.l (sp)+,d0-d7/a0-a6";
    let expected = "movem.l (an)+,reglist";
    assert_eq!(
        normalize_line_ext(&p, line).0,
        expected,
        "Registers (data/address) should be replaced with placeholders."
    );
}

#[test]
fn test_normalize_absolute_addressing() {
    let line = "movea.l my_label,a0";
    let expected = "movea.l xxx.l,an";
    assert_eq!(
        normalize_line_ext(&patterns(), line).0,
        expected,
        "Absolute addressing should be normalized to `xxx.l`."
    );
}

#[test]
fn test_normalize_malformed_input() {
    let line = "moveq #16";
    let result = normalize_line_ext(&patterns(), line);
    assert!(!result.0.is_empty(), "Malformed input should result in a non-empty result.");
}

#[test]
fn test_normalize_with_label_input() {
    let p = patterns();
    let line = ".my_label:\tmoveq #16,d1";
    let expected = "moveq.l #xxx,dn";
    assert_eq!(
        normalize_line_ext(&p, line).0,
        expected,
        "Absolute addressing should be normalized to `xxx.l`."
    );

    let line = "my_label:\tmoveq #16,d1";
    let expected = "moveq.l #xxx,dn";
    assert_eq!(
        normalize_line_ext(&p, line).0,
        expected,
        "Absolute addressing should be normalized to `xxx.l`."
    );
}

#[test]
fn test_normalize_whitespace_handling() {
    let line = "   add.l     d0,d1 ";
    let expected = "add.l dn,dn";
    assert_eq!(
        normalize_line_ext(&patterns(), line).0,
        expected,
        "Whitespace should be handled and normalized correctly."
    );
}

#[test]
fn test_branch_normalization_with_suffix() {
    let p = patterns();
    assert_eq!(
        normalize_line_ext(&p, "bne label").0,
        "bne.w xxx.l",
        "Branch instructions should be normalized with `.w` suffix for label."
    );

    assert_eq!(
        normalize_line_ext(&p, "bne.s dummy.w").0,
        "bne.b xxx.w",
        "Branch instructions with `.s` suffix should normalize correctly."
    );
}

#[test]
fn test_normalize_unknown_tokens() {
    let line = "customop $FF,d1";
    let normalized = normalize_line_ext(&patterns(), line).0;
    assert_ne!(normalized, "", "Unknown tokens should still produce a normalized line.");
}

#[test]
fn register_counting() {
    assert_eq!(count_registers("r0-r3"), 4);
    assert_eq!(count_registers("r0/r2/r5"), 3);
    assert_eq!(count_registers("r0-r3/r5"), 5);
}

#[test]
fn register_counting_edge_cases() {
    assert_eq!(count_registers(""), 1);
    assert_eq!(count_registers("d0"), 1);
    assert_eq!(count_registers("d0-d7/a0-a6"), 15);
    assert_eq!(count_registers("d3-d3"), 1);
    assert_eq!(count_registers("d7-d0"), 1);
    assert_eq!(count_registers("d0-d1-d2"), 1);
    assert_eq!(count_registers("d0-"), 1);
    assert_eq!(count_registers("-d0"), 1);
    assert_eq!(count_registers("dx-dy"), 1);
    assert_eq!(count_registers("d0/"), 2);
}

#[test]
fn normalize_counts_registers_of_lists() {
    let p = patterns();
    assert_eq!(normalize_line_ext(&p, "movem.l d0-d7/a0-a6,-(sp)").1, 15);
    assert_eq!(normalize_line_ext(&p, "movem.l (sp)+,d0/d2").1, 2);
    assert_eq!(normalize_line_ext(&p, "move.l d0,d1").1, 0);
    assert_eq!(normalize_line_ext(&p, "movem.l d0-d1,d2-d3").1, 4);
}

#[test]
fn normalize_is_stable_on_canonical_keys() {
    let p = patterns();
    for key in [
        "moveq.l #xxx,dn",
        "move.w an,an",
        "add.l dn,dn",
        "lea.l d(an),an",
        "move.w xxx.w,dn",
        "bne.w xxx.l",
        "bne.b xxx.w",
        "bne.b xxx.l",
        "movem.l reglist,-(an)",
        "movem.l (an)+,reglist",
        "move.l dn,-(an)",
        "nop.w",
    ] {
        assert_eq!(normalize_line_ext(&p, key).0, key);
    }
    for line in [
        "moveq #16,d0",
        " MOVE.W A1,A2",
        "lea $ffff8240.w,a0",
        "lea 100(sp),a1",
        "move.b\td7,$ffff8260.w\t\t\t;",
        "bne.s label.w",
        "bne label",
        "bra.s loop ; (10)",
        "btst #1,d0",
        "movem.l d0-d7/a0-a6,-(sp)",
        "movem.l (sp)+,d0-d7/a0-a6",
        "movea.l my_label,a0",
        ".my_label:\tmoveq #16,d1",
        "  lbl: add.l 4(a0),d1",
        "move.w #$1323,D0 ; Move Instruction",
        "move.l d0,-(a7)",
        "jmp (a0)",
        "dbra d0,loop",
        "unknown_op #42,d1",
        "move.w 4(pc),d0",
        "move.w (a0,d1.w),d0",
        "move.l table(pc,d0.w),a1",
        "move.w d0,var+2",
        "move.w\td0 ,\t d1",
        "bra.s .loop",
        "move.w a:b,d0",
        "dc.w 1,2,3",
        "moveq #-1,d0",
        "move.w #$12,$10(a0)",
        "movem.l d0-d2/a1,(a0)",
        "Label:",
        "  ; only a comment",
        "nop",
        "",
    ] {
        let once = normalize_line_ext(&p, line).0;
        assert_eq!(normalize_line_ext(&p, &once).0, once, "{}", line);
    }
}

#[test]
fn normalize_without_operands_is_the_mnemonic_alone() {
    let p = patterns();
    assert_eq!(normalize_line_ext(&p, "nop"), ("nop.w".to_string(), 0));
    assert_eq!(normalize_line_ext(&p, "  rts  ; return"), ("rts.w".to_string(), 0));
    assert_eq!(normalize_line_ext(&p, ""), (".w".to_string(), 0));
}

#[test]
fn normalize_keeps_a_bare_minus_displacement() {
    let p = patterns();
    assert_eq!(normalize_line_ext(&p, "move.l d0,-(a7)").0, "move.l dn,-(an)");
    assert_eq!(normalize_line_ext(&p, "move.w 4(a0),d0").0, "move.w d(an),dn");
}

#[test]
fn normalize_strips_comment_before_anything_else() {
    let p = patterns();
    assert_eq!(normalize_line_ext(&p, "move.l d0,d1 ; (12) d2,a3").0, "move.l dn,dn");
}

#[test]
fn lookup_carries_key_and_register_count() {
    let r = resolver();
    let c = lookup_cycles(&r, "movem.l d0-d3,-(sp)");
    assert_eq!(c.get_lookup(), "movem.l reglist,-(an)");
    assert_eq!(c.get_cycles(), vec![8, 8]);
    assert_eq!(c.get_reg_count(), 4);
    assert_eq!(c.effective(), 8 + 8 * 4);

    let c = lookup_cycles(&r, "unknown_op #42,d1");
    assert_eq!(c.get_lookup(), "unknown_op.w #xxx,dn");
    assert_eq!(c.effective(), 0);
}

#[test]
fn table_lookup_and_replacement() {
    let mut table = CostTable::new();
    assert_eq!(table.get("nop.w"), None);
    table.insert("nop.w".to_string(), vec![4]);
    table.insert("rts.w".to_string(), vec![16]);
    assert_eq!(table.get("nop.w"), Some(vec![4]));
    table.insert("nop.w".to_string(), vec![6]);
    assert_eq!(table.get("nop.w"), Some(vec![6]));
    assert_eq!(table.get("rts.w"), Some(vec![16]));
    assert_eq!(table.get("rte.w"), None);
}

#[test]
fn branch_suffix_follows_the_form_in_the_source() {
    let p = patterns();
    assert_eq!(normalize_line_ext(&p, "bne label").0, "bne.w xxx.l");
    assert_eq!(normalize_line_ext(&p, "bne.s label").0, "bne.b xxx.l");
    assert_eq!(normalize_line_ext(&p, "bne.s label.w").0, "bne.b xxx.w");
    assert_eq!(normalize_line_ext(&p, "bne.b xxx.w").0, "bne.b xxx.w");
    assert_eq!(normalize_line_ext(&p, "bne.b xxx.l").0, "bne.b xxx.l");
    assert_eq!(normalize_line_ext(&p, "bne.w xxx.l").0, "bne.w xxx.l");
    assert_eq!(normalize_line_ext(&p, "bra.w label").0, "bra.w xxx.l");
    assert_eq!(normalize_line_ext(&p, "bsr routine").0, "bsr.w xxx.l");
}

#[test]
fn bit_instructions_are_no_branches() {
    let p = patterns();
    assert_eq!(normalize_line_ext(&p, "btst #1,d0").0, "btst.w #xxx,dn");
    assert_eq!(normalize_line_ext(&p, "bset.b #1,(a0)").0, "bset.b #xxx,(an)");
    assert_eq!(normalize_line_ext(&p, "bclr d1,d0").0, "bclr.w dn,dn");
}

#[test]
fn placeholders_are_left_alone() {
    let p = patterns();
    assert_eq!(
        normalize_line_ext(&p, "movem.l reglist,-(an)"),
        ("movem.l reglist,-(an)".to_string(), 0)
    );
    assert_eq!(normalize_line_ext(&p, "movem.l (an)+,reglist").0, "movem.l (an)+,reglist");
    assert_eq!(normalize_line_ext(&p, "move.w d(an),xxx.w").0, "move.w d(an),xxx.w");
}

#[test]
fn leading_label_is_stripped_with_the_blanks_around_it() {
    let p = patterns();
    assert_eq!(normalize_line_ext(&p, " lbl: nop").0, "nop.w");
    assert_eq!(normalize_line_ext(&p, "lbl:nop").0, "nop.w");
    assert_eq!(normalize_line_ext(&p, "..loop:   move.w d0,d1").0, "move.w dn,dn");
    assert_eq!(normalize_line_ext(&p, "  nop").0, "nop.w");
}
