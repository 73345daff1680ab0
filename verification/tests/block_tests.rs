use cycle_spitter::block::process_block;

fn lines(items: &[&str]) -> Vec<String> {
    items.iter().map(|s| s.to_string()).collect()
}

#[test]
fn test_simple_block_with_single_rept() {
    let lines = vec![
        "line1".to_string(),
        "rept 3".to_string(),
        "line2".to_string(),
        "endr".to_string(),
        "line3".to_string(),
    ];
    let (result, _) = process_block(&lines, 0);

    let expected = vec![
        "line1".to_string(),
        "line2".to_string(),
        "line2".to_string(),
        "line2".to_string(),
        "line3".to_string(),
    ];

    assert_eq!(result, expected);
}

#[test]
fn test_nested_rept_blocks() {
    let lines = vec![
        "line1".to_string(),
        "rept 2".to_string(),
        "line2".to_string(),
        "rept 2".to_string(),
        "line3".to_string(),
        "endr".to_string(),
        "endr".to_string(),
        "line4".to_string(),
    ];
    let (result, _) = process_block(&lines, 0);

    let expected = vec![
        "line1".to_string(),
        "line2".to_string(),
        "line3".to_string(),
        "line3".to_string(),
        "line2".to_string(),
        "line3".to_string(),
        "line3".to_string(),
        "line4".to_string(),
    ];

    assert_eq!(result, expected);
}

#[test]
fn test_empty_input() {
    let lines: Vec<String> = vec![];
    let (result, _) = process_block(&lines, 0);

    assert!(result.is_empty());
}

#[test]
fn test_no_rept_blocks() {
    let lines = vec![
        "line1".to_string(),
        "line2".to_string(),
        "line3".to_string(),
    ];
    let (result, _) = process_block(&lines, 0);

    let expected = vec![
        "line1".to_string(),
        "line2".to_string(),
        "line3".to_string(),
    ];

    assert_eq!(result, expected);
}

#[test]
fn test_rept_with_invalid_count() {
    let lines = vec![
        "line1".to_string(),
        "rept abc".to_string(),
        "line2".to_string(),
        "endr".to_string(),
    ];
    let (result, _) = process_block(&lines, 0);

    let expected = vec![
        "line1".to_string(),
        "rept abc".to_string(),
        "line2".to_string(),
    ];

    assert_eq!(result, expected);
}

#[test]
fn test_nested_rept_no_endr() {
    let lines = vec![
        "line1".to_string(),
        "rept 2".to_string(),
        "line2".to_string(),
    ];
    let (result, _) = process_block(&lines, 0);

    let expected = vec!["line1".to_string(), "line2".to_string()];

    assert_eq!(result, expected);
}

#[test]
fn malformed_count_keeps_opener_and_consumes_close() {
    let input = lines(&["a", "repeat x", "b", "end-repeat"]);
    let (result, next) = process_block(&input, 0);
    assert_eq!(result, lines(&["a", "repeat x", "b", "end-repeat"]));
    assert_eq!(next, 4);

    let input = lines(&["a", "rept x", "b", "endr"]);
    let (result, next) = process_block(&input, 0);
    assert_eq!(result, lines(&["a", "rept x", "b"]));
    assert_eq!(next, 4);
}

#[test]
fn nested_repeat_of_one_line_gives_four() {
    let input = lines(&["rept 2", "rept 2", "x", "endr", "endr"]);
    let (result, next) = process_block(&input, 0);
    assert_eq!(result, lines(&["x", "x", "x", "x"]));
    assert_eq!(next, 5);
}

#[test]
fn repeat_of_k_lines_gives_n_times_k() {
    let input = lines(&["head", "rept 5", "a", "b", "c", "endr", "tail"]);
    let (result, next) = process_block(&input, 0);
    assert_eq!(result.len(), 1 + 5 * 3 + 1);
    assert_eq!(result[0], "head");
    assert_eq!(result[1], "a");
    assert_eq!(result[3], "c");
    assert_eq!(result[4], "a");
    assert_eq!(result[16], "tail");
    assert_eq!(next, 7);
}

#[test]
fn count_of_zero_is_no_opener() {
    let input = lines(&["a", "rept 0", "b", "endr"]);
    let (result, next) = process_block(&input, 0);
    assert_eq!(result, lines(&["a", "rept 0", "b"]));
    assert_eq!(next, 4);

    let input = lines(&["rept 0", "a", "endr", "b"]);
    let (result, next) = process_block(&input, 0);
    assert_eq!(result, lines(&["rept 0", "a"]));
    assert_eq!(next, 3);
}

#[test]
fn close_ends_the_current_level() {
    let input = lines(&["a", "endr", "b"]);
    let (result, next) = process_block(&input, 0);
    assert_eq!(result, lines(&["a"]));
    assert_eq!(next, 2);
}

#[test]
fn opener_without_count_is_kept() {
    let input = lines(&["a", "rept", "b", "endr", "c"]);
    let (result, next) = process_block(&input, 0);
    assert_eq!(result, lines(&["a", "rept", "b"]));
    assert_eq!(next, 4);
}

#[test]
fn directives_ignore_case() {
    let input = lines(&["REPT 2", "x", "ENDR"]);
    let (result, _) = process_block(&input, 0);
    assert_eq!(result, lines(&["x", "x"]));
}

#[test]
fn start_behind_the_end_gives_nothing() {
    let input = lines(&["a"]);
    let (result, next) = process_block(&input, 3);
    assert!(result.is_empty());
    assert_eq!(next, 3);
}

#[test]
fn start_inside_a_block_stops_at_its_close() {
    let input = lines(&["rept 2", "x", "endr", "y"]);
    let (result, next) = process_block(&input, 1);
    assert_eq!(result, lines(&["x"]));
    assert_eq!(next, 3);
}

#[test]
fn block_that_the_input_cuts_short_is_written_once() {
    let input = lines(&["line1", "rept 2", "line2"]);
    let (result, next) = process_block(&input, 0);
    assert_eq!(result, lines(&["line1", "line2"]));
    assert_eq!(next, 3);

    let input = lines(&["rept 3", "a", "rept 2", "b"]);
    let (result, next) = process_block(&input, 0);
    assert_eq!(result, lines(&["a", "b"]));
    assert_eq!(next, 4);

    let input = lines(&["rept 3", "a", "rept 2", "b", "endr", "c"]);
    let (result, next) = process_block(&input, 0);
    assert_eq!(result, lines(&["a", "b", "b", "c"]));
    assert_eq!(next, 6);

    let input = lines(&["rept 2", "a", "endr"]);
    let (result, next) = process_block(&input, 0);
    assert_eq!(result, lines(&["a", "a"]));
    assert_eq!(next, 3);
}
