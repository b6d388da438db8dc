use indent_scan::{parse_lines, line_is_dedent_trigger};

fn lines(xs: &[&str]) -> Vec<String> {
    let mut v = Vec::new();
    for x in xs.iter() {
        v.push(x.to_string());
    }
    v
}

fn chars(s: &str) -> Vec<char> {
    let mut v = Vec::new();
    for c in s.chars() {
        v.push(c);
    }
    v
}

#[test]
fn empty_input_gives_empty_facts() {
    let r = parse_lines(Vec::new());
    assert_eq!(r.can_hang, false);
    assert_eq!(r.dedent_next, false);
    assert!(r.last_closed_info.is_none());
    assert_eq!(r.last_colon_row, None);
    assert_eq!(r.open_bracket_stack.len(), 0);
    assert_eq!(r.last_seen_indenters.if_, None);
    assert_eq!(r.last_seen_indenters.for_, None);
    assert_eq!(r.last_seen_indenters.try_, None);
    assert_eq!(r.last_seen_indenters.while_, None);
}

#[test]
fn empty_lines_give_empty_facts() {
    let r = parse_lines(lines(&["", ""]));
    assert_eq!(r.open_bracket_stack.len(), 0);
    assert_eq!(r.dedent_next, false);
    assert_eq!(r.last_colon_row, None);
}

#[test]
fn stack_is_lifo_and_counts_match() {
    let r = parse_lines(lines(&["([", "]"]));
    assert_eq!(r.open_bracket_stack.len(), 1);
    assert_eq!(r.open_bracket_stack[0].row, 0);
    assert_eq!(r.open_bracket_stack[0].col, 0);
    let oc = r.last_closed_info.unwrap();
    assert_eq!(oc.open, 0);
    assert_eq!(oc.close, 1);
}

#[test]
fn unmatched_closer_is_tolerated() {
    let r = parse_lines(lines(&[")"]));
    assert_eq!(r.open_bracket_stack.len(), 0);
    assert!(r.last_closed_info.is_none());
    assert_eq!(r.can_hang, false);
}

#[test]
fn double_quoted_string_closes_on_its_line() {
    let r = parse_lines(lines(&["foo = \"it's here\"", "("]));
    assert_eq!(r.open_bracket_stack.len(), 1);
    assert_eq!(r.open_bracket_stack[0].row, 1);
    assert_eq!(r.open_bracket_stack[0].col, 0);
    assert_eq!(r.can_hang, true);
}

#[test]
fn triple_quoted_string_spans_lines_and_closer_after_it_pops() {
    let r = parse_lines(lines(&["(", "x = '''", "still in string''' )"]));
    assert_eq!(r.open_bracket_stack.len(), 0);
    let oc = r.last_closed_info.unwrap();
    assert_eq!(oc.open, 0);
    assert_eq!(oc.close, 2);
}

#[test]
fn closer_inside_triple_quoted_string_is_ignored() {
    let r = parse_lines(lines(&["(", "x = '''", ") ignored", "done'''"]));
    assert_eq!(r.open_bracket_stack.len(), 1);
    assert_eq!(r.open_bracket_stack[0].row, 0);
    assert_eq!(r.open_bracket_stack[0].col, 0);
    assert!(r.last_closed_info.is_none());
}

#[test]
fn cross_row_close_is_recorded() {
    let r = parse_lines(lines(&["def f(api):", "    (api", "     .doSomething()", "     ).finish()"]));
    let oc = r.last_closed_info.unwrap();
    assert_eq!(oc.open, 1);
    assert_eq!(oc.close, 3);
    assert_eq!(r.open_bracket_stack.len(), 0);
    assert_eq!(r.last_colon_row, Some(0));
}

#[test]
fn same_row_pair_is_not_recorded() {
    let r = parse_lines(lines(&["f(x)"]));
    assert!(r.last_closed_info.is_none());
    assert_eq!(r.open_bracket_stack.len(), 0);
}

#[test]
fn same_row_pair_then_unmatched_closer_records_nothing() {
    let r = parse_lines(lines(&["def f(api):", "   .doSomething()", "   ).finish()"]));
    assert!(r.last_closed_info.is_none());
    assert_eq!(r.open_bracket_stack.len(), 0);
}

#[test]
fn dedent_keyword_with_comment() {
    let r = parse_lines(lines(&["return x  # comment"]));
    assert_eq!(r.dedent_next, true);
}

#[test]
fn identifier_starting_with_keyword_is_no_dedent() {
    let r = parse_lines(lines(&["return_value = 1"]));
    assert_eq!(r.dedent_next, false);
}

#[test]
fn all_five_dedent_keywords() {
    assert_eq!(parse_lines(lines(&["  return"])).dedent_next, true);
    assert_eq!(parse_lines(lines(&["pass"])).dedent_next, true);
    assert_eq!(parse_lines(lines(&["break"])).dedent_next, true);
    assert_eq!(parse_lines(lines(&["continue"])).dedent_next, true);
    assert_eq!(parse_lines(lines(&["raise ValueError()"])).dedent_next, true);
}

#[test]
fn dedent_reflects_only_last_line() {
    let r = parse_lines(lines(&["return x", "y = 1"]));
    assert_eq!(r.dedent_next, false);
}

#[test]
fn dedent_keyword_inside_string_does_not_count() {
    let r = parse_lines(lines(&["x = '''", "return"]));
    assert_eq!(r.dedent_next, false);
}

#[test]
fn dedent_trigger_directly() {
    assert!(line_is_dedent_trigger(&chars("  raise")));
    assert!(line_is_dedent_trigger(&chars("pass")));
    assert!(!line_is_dedent_trigger(&chars("passport")));
    assert!(!line_is_dedent_trigger(&chars("raised = 1")));
    assert!(!line_is_dedent_trigger(&chars("")));
}

#[test]
fn dict_colon_is_discarded() {
    let r = parse_lines(lines(&["d = {1: 2}"]));
    assert_eq!(r.last_colon_row, None);
    assert_eq!(r.open_bracket_stack.len(), 0);
}

#[test]
fn block_colon_is_kept() {
    let r = parse_lines(lines(&["if x:"]));
    assert_eq!(r.last_colon_row, Some(0));
    assert_eq!(r.last_seen_indenters.if_, Some(0));
}

#[test]
fn colon_followed_by_whitespace_or_comment_is_kept() {
    assert_eq!(parse_lines(lines(&["if x:  "])).last_colon_row, Some(0));
    assert_eq!(parse_lines(lines(&["if x:  # c"])).last_colon_row, Some(0));
}

#[test]
fn disqualified_colon_reverts_to_line_start_value() {
    let r = parse_lines(lines(&["if x:", "d = {1: 2}"]));
    assert_eq!(r.last_colon_row, Some(0));
}

#[test]
fn colon_inside_string_is_ignored() {
    let r = parse_lines(lines(&["x = '''", "if True:"]));
    assert_eq!(r.last_colon_row, None);
    assert_eq!(r.last_seen_indenters.if_, Some(1));
}

#[test]
fn indenter_is_prefix_match_without_boundary() {
    assert_eq!(parse_lines(lines(&["iffy = 1"])).last_seen_indenters.if_, Some(0));
    assert_eq!(parse_lines(lines(&["format(x)"])).last_seen_indenters.for_, Some(0));
    assert_eq!(parse_lines(lines(&["  while True:"])).last_seen_indenters.while_, Some(0));
    assert_eq!(parse_lines(lines(&["try:"])).last_seen_indenters.try_, Some(0));
}

#[test]
fn indenter_rows_are_overwritten() {
    let r = parse_lines(lines(&["if a:", "if b:"]));
    assert_eq!(r.last_seen_indenters.if_, Some(1));
}

#[test]
fn can_hang_after_trailing_open_bracket() {
    assert_eq!(parse_lines(lines(&["foo("])).can_hang, true);
    assert_eq!(parse_lines(lines(&["foo(   "])).can_hang, true);
    assert_eq!(parse_lines(lines(&["foo(bar"])).can_hang, false);
    assert_eq!(parse_lines(lines(&["(", "# c"])).can_hang, true);
    assert_eq!(parse_lines(lines(&["(", "a"])).can_hang, false);
}

#[test]
fn escaped_quote_does_not_close_string() {
    let r = parse_lines(lines(&["s = 'a\\'b'", "("]));
    assert_eq!(r.open_bracket_stack.len(), 1);
    assert_eq!(r.open_bracket_stack[0].row, 1);
}

#[test]
fn empty_string_pair_leaves_string_state() {
    let r = parse_lines(lines(&["x = ''", "y = ("]));
    assert_eq!(r.open_bracket_stack.len(), 1);
    assert_eq!(r.open_bracket_stack[0].row, 1);
    assert_eq!(r.open_bracket_stack[0].col, 4);
}

#[test]
fn six_quotes_open_and_close_a_triple_string() {
    let r = parse_lines(lines(&["x = ''''''", "("]));
    assert_eq!(r.open_bracket_stack.len(), 1);
    assert_eq!(r.open_bracket_stack[0].row, 1);
}

#[test]
fn parse_is_idempotent() {
    let input = &["def f(a):", "    x = {1: 2}", "    s = '''", "text ) here", "''' + (", "return x  # done"];
    let r1 = parse_lines(lines(input));
    let r2 = parse_lines(lines(input));
    assert!(r1 == r2);
    let r3 = parse_lines(lines(input));
    assert!(r2 == r3);
}

#[test]
fn non_ascii_text_is_handled() {
    let r = parse_lines(lines(&["s = 'héllo ☃'", "если = ("]));
    assert_eq!(r.open_bracket_stack.len(), 1);
    assert_eq!(r.open_bracket_stack[0].row, 1);
    assert_eq!(r.open_bracket_stack[0].col, 7);
}
