use cycle_spitter::cycles::{CostTable, Resolver};
use cycle_spitter::output::layout_line;
use cycle_spitter::scanline::{build_scanline, Mismatch};
use cycle_spitter::template::parse_template;

fn resolver() -> Resolver {
    let mut table = CostTable::new();
    table.insert("nop.w".to_string(), vec![4]);
    table.insert("move.w #xxx,dn".to_string(), vec![8]);
    Resolver::new(table).unwrap()
}

fn lines(items: &[&str]) -> Vec<String> {
    items.iter().map(|s| s.to_string()).collect()
}

#[test]
fn scanline_interleaves_template_and_stream() {
    let r = resolver();
    let sections = parse_template(&r, "move.w #1,d0 ; left\ndcb.w 2,$4e71\nnop\ndcb.w 1,$4e71").unwrap();
    let flat = lines(&["nop", "nop", "nop", "nop"]);
    let s = build_scanline(&r, &sections, &flat, 0, 32).unwrap();
    assert_eq!(
        s.lines,
        lines(&[
            "move.w #1,d0 ; left\t;\t(8)\tmove.w #xxx,dn\t[0]",
            "; --- left section ---",
            "nop\t;\t(4)\tnop.w\t[8]",
            "nop\t;\t(4)\tnop.w\t[12]",
            "; Calculated cycles: 16",
            "nop\t;\t(4)\tnop.w\t[8]\t[16]",
            "; --- Section 2 section ---",
            "nop\t;\t(4)\tnop.w\t[20]",
            "; Calculated cycles: 24",
            "\tdcb.w\t2,$4e71\t; Pad to 32 cycles (8 cycles)",
            "; Total cycles for scanline: 32",
        ])
    );
    assert_eq!(s.next_index, 3);
    assert_eq!(s.cycles, 32);
    assert_eq!(s.overflow, 0);
    assert!(s.mismatches.is_empty());
}

#[test]
fn scanline_over_budget_is_kept_and_noted() {
    let r = resolver();
    let sections = parse_template(&r, "nop\ndcb.w 2,$4e71").unwrap();
    let flat = lines(&["nop", "nop"]);
    let s = build_scanline(&r, &sections, &flat, 0, 8).unwrap();
    assert_eq!(s.cycles, 12);
    assert_eq!(s.overflow, 4);
    assert_eq!(s.lines.last().unwrap(), "; Total cycles for scanline: 12");
    assert_eq!(s.next_index, 2);
}

#[test]
fn scanline_reports_window_that_does_not_close() {
    let r = resolver();
    let sections = parse_template(&r, "nop\ndcb.w 2,$4e71").unwrap();
    let flat = lines(&["a ; (3)", "b ; (8)"]);
    let s = build_scanline(&r, &sections, &flat, 0, 12).unwrap();
    assert_eq!(s.mismatches, vec![Mismatch { accumulated: 7, target: 8, start: 0 }]);
    assert_eq!(s.next_index, 1);
    assert_eq!(s.cycles, 12);
}

#[test]
fn scanline_without_stream_writes_the_template_alone() {
    let r = resolver();
    let sections = parse_template(&r, "nop\ndcb.w 2,$4e71").unwrap();
    let flat: Vec<String> = Vec::new();
    let s = build_scanline(&r, &sections, &flat, 0, 4).unwrap();
    assert_eq!(
        s.lines,
        lines(&[
            "nop\t;\t(4)\tnop.w\t[0]",
            "; --- Section 1 section ---",
            "; Calculated cycles: 4",
            "; Total cycles for scanline: 4",
        ])
    );
    assert_eq!(s.next_index, 0);
}

#[test]
fn scanline_beyond_the_machine_word_is_refused() {
    let r = resolver();
    let text = format!("nop ; ({})\ndcb.w 1,$4e71", usize::MAX);
    let sections = parse_template(&r, &text).unwrap();
    let flat = lines(&["nop"]);
    assert!(build_scanline(&r, &sections, &flat, 0, 512).is_none());
}

#[test]
fn layout_of_document_lines() {
    let r = resolver();
    let p = r.patterns();
    assert_eq!(layout_line(p, "; a comment"), "; a comment");
    assert_eq!(layout_line(p, "size equ 4"), "size equ 4");
    assert_eq!(layout_line(p, "x set 4"), "x set 4");
    assert_eq!(layout_line(p, "loop: nop  "), "loop:\tnop");
    assert_eq!(layout_line(p, ".local:\tmove.w d0,d1"), ".local:\tmove.w d0,d1");
    assert_eq!(layout_line(p, "nop"), "\tnop");
    assert_eq!(layout_line(p, " nop"), " \tnop");
}
