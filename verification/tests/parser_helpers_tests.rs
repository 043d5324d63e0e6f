use dprint_core::formatting::conditions::{if_above_width, if_above_width_or};
use dprint_core::formatting::counter_cell::CounterCell;
use dprint_core::formatting::parser_helpers::{
    new_line_group, parse_js_like_comment_block, parse_js_like_comment_line, parse_raw_string,
    parse_raw_string_trim_line_ends, parse_string, parse_string_trim_line_ends, surround_with_new_lines,
    surround_with_newlines_indented_if_multi_line, text_has_dprint_ignore, with_indent, with_indent_times,
    with_no_new_lines, with_queued_indent,
};
use dprint_core::formatting::print_items::{
    validate_string, Condition, ConditionProperties, ConditionResolver, Info, InvalidText, PrintItem, PrintItems,
    Signal, StringContainer,
};

fn describe(items: &PrintItems) -> Vec<String> {
    items
        .items
        .iter()
        .map(|item| match item {
            PrintItem::String(text) => format!("'{}'", text.as_str()),
            PrintItem::Signal(signal) => format!("{:?}", signal),
            PrintItem::Info(info) => format!("Info({})", info.get_name()),
            PrintItem::Condition(condition) => format!("Condition({})", condition.get_name()),
            PrintItem::RcPath(path) => format!("RcPath{:?}", describe(path)),
        })
        .collect()
}

fn text(text: &str) -> PrintItems {
    let mut items = PrintItems::new();
    items.push_str(text);
    items
}

#[test]
fn helpers_add_nothing_to_no_items() {
    let mut counter = CounterCell::new();
    assert!(surround_with_new_lines(PrintItems::new()).is_empty());
    assert!(with_indent(PrintItems::new()).is_empty());
    assert!(with_indent_times(PrintItems::new(), 3).is_empty());
    assert!(with_queued_indent(PrintItems::new()).is_empty());
    assert!(with_no_new_lines(PrintItems::new()).is_empty());
    assert!(new_line_group(PrintItems::new()).is_empty());
    assert!(surround_with_newlines_indented_if_multi_line(PrintItems::new(), 2, &mut counter).is_empty());
    assert_eq!(counter.increment(), 1);
}

#[test]
fn helpers_surround_items_with_their_signals() {
    assert_eq!(describe(&surround_with_new_lines(text("a"))), ["NewLine", "'a'", "NewLine"]);
    assert_eq!(describe(&with_indent(text("a"))), ["StartIndent", "'a'", "FinishIndent"]);
    assert_eq!(describe(&with_queued_indent(text("a"))), ["QueueStartIndent", "'a'", "FinishIndent"]);
    assert_eq!(describe(&with_no_new_lines(text("a"))), ["StartForceNoNewLines", "'a'", "FinishForceNoNewLines"]);
    assert_eq!(describe(&new_line_group(text("a"))), ["StartNewLineGroup", "'a'", "FinishNewLineGroup"]);
}

#[test]
fn with_indent_times_nests_the_indents() {
    assert_eq!(
        describe(&with_indent_times(text("a"), 2)),
        ["StartIndent", "StartIndent", "'a'", "FinishIndent", "FinishIndent"]
    );
    assert_eq!(describe(&with_indent_times(text("a"), 0)), ["'a'"]);
}

#[test]
fn parse_string_splits_at_newlines_and_tabs() {
    assert_eq!(describe(&parse_string("a\tb\nc")), ["'a'", "Tab", "'b'", "NewLine", "'c'"]);
    assert_eq!(describe(&parse_string("")), Vec::<String>::new());
    assert_eq!(describe(&parse_string("\n")), ["NewLine"]);
    assert_eq!(describe(&parse_string("a\n")), ["'a'", "NewLine"]);
    assert_eq!(describe(&parse_string("a\n\n")), ["'a'", "NewLine", "NewLine"]);
    assert_eq!(describe(&parse_string("a\t")), ["'a'", "Tab"]);
    assert_eq!(describe(&parse_string("\t\ta")), ["Tab", "Tab", "'a'"]);
    assert_eq!(describe(&parse_string("héllo wörld")), ["'héllo wörld'"]);
}

#[test]
fn parse_string_drops_the_carriage_return_before_a_newline() {
    assert_eq!(describe(&parse_string("a\r\nb")), ["'a'", "NewLine", "'b'"]);
    assert_eq!(describe(&parse_string("a\r\r\nb")), ["'a\r'", "NewLine", "'b'"]);
    assert_eq!(describe(&parse_string("a\rb")), ["'a\rb'"]);
    assert_eq!(describe(&parse_string("a \nb  ")), ["'a '", "NewLine", "'b  '"]);
}

#[test]
fn parse_string_trim_line_ends_drops_white_space_at_line_ends() {
    assert_eq!(describe(&parse_string_trim_line_ends("a  \nb\t \n c \t")), ["'a'", "NewLine", "'b'", "NewLine", "' c'"]);
    assert_eq!(describe(&parse_string_trim_line_ends("a\u{a0}\u{2003}")), ["'a'"]);
    assert_eq!(describe(&parse_string_trim_line_ends("  \n")), ["NewLine"]);
    assert_eq!(describe(&parse_string_trim_line_ends("a\tb ")), ["'a'", "Tab", "'b'"]);
}

#[test]
fn parse_raw_string_ignores_indent_for_several_lines() {
    assert_eq!(describe(&parse_raw_string("a b")), ["'a b'"]);
    assert_eq!(
        describe(&parse_raw_string("a \nb")),
        ["StartIgnoringIndent", "'a '", "NewLine", "'b'", "FinishIgnoringIndent"]
    );
    assert_eq!(
        describe(&parse_raw_string_trim_line_ends("a \nb ")),
        ["StartIgnoringIndent", "'a'", "NewLine", "'b'", "FinishIgnoringIndent"]
    );
    assert_eq!(describe(&parse_raw_string_trim_line_ends("a ")), ["'a'"]);
}

#[test]
fn comment_line_is_written_with_two_more_slashes() {
    assert_eq!(
        describe(&parse_js_like_comment_line(" some text  ", false)),
        ["StartForceNoNewLines", "'// some text'", "ExpectNewLine", "FinishForceNoNewLines"]
    );
    assert_eq!(
        describe(&parse_js_like_comment_line("some text", true)),
        ["StartForceNoNewLines", "'// some text'", "ExpectNewLine", "FinishForceNoNewLines"]
    );
    assert_eq!(
        describe(&parse_js_like_comment_line(" some text", true)),
        ["StartForceNoNewLines", "'// some text'", "ExpectNewLine", "FinishForceNoNewLines"]
    );
    assert_eq!(
        describe(&parse_js_like_comment_line("  some text", true)),
        ["StartForceNoNewLines", "'//  some text'", "ExpectNewLine", "FinishForceNoNewLines"]
    );
    assert_eq!(
        describe(&parse_js_like_comment_line("/ doc", true)),
        ["StartForceNoNewLines", "'/// doc'", "ExpectNewLine", "FinishForceNoNewLines"]
    );
    assert_eq!(
        describe(&parse_js_like_comment_line("//text", false)),
        ["StartForceNoNewLines", "'////text'", "ExpectNewLine", "FinishForceNoNewLines"]
    );
    assert_eq!(
        describe(&parse_js_like_comment_line("   ", true)),
        ["StartForceNoNewLines", "'//'", "ExpectNewLine", "FinishForceNoNewLines"]
    );
    assert_eq!(
        describe(&parse_js_like_comment_line("", false)),
        ["StartForceNoNewLines", "'//'", "ExpectNewLine", "FinishForceNoNewLines"]
    );
}

#[test]
fn comment_block_keeps_the_white_space_of_the_last_line() {
    assert_eq!(describe(&parse_js_like_comment_block(" text ")), ["'/*'", "' text'", "' '", "'*/'"]);
    assert_eq!(
        describe(&parse_js_like_comment_block("*\n * text  \n ")),
        [
            "'/*'",
            "StartIgnoringIndent",
            "'*'",
            "NewLine",
            "' * text'",
            "NewLine",
            "' '",
            "FinishIgnoringIndent",
            "'*/'"
        ]
    );
    assert_eq!(describe(&parse_js_like_comment_block("")), ["'/*'", "'*/'"]);
    assert_eq!(describe(&parse_js_like_comment_block("a")), ["'/*'", "'a'", "'*/'"]);
    assert_eq!(
        describe(&parse_js_like_comment_block("a\n\t")),
        ["'/*'", "StartIgnoringIndent", "'a'", "NewLine", "Tab", "FinishIgnoringIndent", "'*/'"]
    );
}

#[test]
fn ignore_text_has_to_stand_alone() {
    assert_eq!(text_has_dprint_ignore("// dprint-ignore", "dprint-ignore"), true);
    assert_eq!(text_has_dprint_ignore("dprint-ignore", "dprint-ignore"), true);
    assert_eq!(text_has_dprint_ignore("/* dprint-ignore */", "dprint-ignore"), true);
    assert_eq!(text_has_dprint_ignore("// dprint-ignore-file", "dprint-ignore"), true);
    assert_eq!(text_has_dprint_ignore("// dprint-ignored", "dprint-ignore"), false);
    assert_eq!(text_has_dprint_ignore("// adprint-ignore", "dprint-ignore"), false);
    assert_eq!(text_has_dprint_ignore("// 1dprint-ignore", "dprint-ignore"), false);
    assert_eq!(text_has_dprint_ignore("// édprint-ignore", "dprint-ignore"), false);
    assert_eq!(text_has_dprint_ignore("// dprint-ignoreé", "dprint-ignore"), false);
    assert_eq!(text_has_dprint_ignore("// something else", "dprint-ignore"), false);
    assert_eq!(text_has_dprint_ignore("", "dprint-ignore"), false);
    assert_eq!(text_has_dprint_ignore("dprint", "dprint-ignore"), false);
}

#[test]
fn ignore_text_counts_only_where_it_first_occurs() {
    assert_eq!(text_has_dprint_ignore("xdprint-ignore dprint-ignore", "dprint-ignore"), false);
    assert_eq!(text_has_dprint_ignore("", ""), true);
    assert_eq!(text_has_dprint_ignore("a", ""), false);
    assert_eq!(text_has_dprint_ignore(" a", ""), true);
}

#[test]
fn surround_if_multi_line_builds_two_markers_and_a_condition() {
    let mut counter = CounterCell::new();
    let items = surround_with_newlines_indented_if_multi_line(text("x"), 4, &mut counter);
    assert_eq!(
        describe(&items),
        [
            "Info(surroundWithNewLinesIndentedIfMultiLineStart)",
            "Condition(newlineIfMultiLine)",
            "Info(surroundWithNewLineIndentedsIfMultiLineEnd)"
        ]
    );
    let (start, condition, end) = match (&items.items[0], &items.items[1], &items.items[2]) {
        (PrintItem::Info(start), PrintItem::Condition(condition), PrintItem::Info(end)) => (start, condition, end),
        _ => panic!("two markers and a condition"),
    };
    assert_eq!((start.get_unique_id(), end.get_unique_id(), condition.get_unique_id()), (1, 2, 4));
    assert!(condition.is_stored);
    assert_eq!(condition.dependent_infos.as_ref().unwrap().len(), 1);
    assert_eq!(condition.dependent_infos.as_ref().unwrap()[0].get_unique_id(), 2);
    assert!(matches!(
        condition.condition,
        ConditionResolver::IsMultipleLinesSinceMoved { start, end } if start.id == 1 && end.id == 2
    ));
    assert_eq!(
        describe(condition.true_path.as_ref().unwrap()),
        ["NewLine", "StartIndent", "RcPath[\"'x'\"]", "FinishIndent", "NewLine"]
    );
    let false_path = condition.false_path.as_ref().unwrap();
    assert_eq!(describe(false_path), ["Condition(ifAboveWidth)", "RcPath[\"'x'\"]"]);
    match &false_path.items[0] {
        PrintItem::Condition(if_above) => {
            assert_eq!(if_above.get_unique_id(), 3);
            assert!(matches!(if_above.condition, ConditionResolver::IsAboveWidth(4)));
            assert_eq!(describe(if_above.true_path.as_ref().unwrap()), ["PossibleNewLine"]);
            assert!(if_above.false_path.is_none());
        }
        _ => panic!("a condition"),
    }
    assert_eq!(counter.increment(), 5);
}

#[test]
fn if_above_width_has_no_false_path_without_items() {
    let mut counter = CounterCell::new();
    let condition = if_above_width(2, text("a"), &mut counter);
    assert_eq!(condition.get_unique_id(), 1);
    assert!(condition.false_path.is_none());
    assert!(!condition.is_stored);
    let condition = if_above_width_or(2, text("a"), text("b"), &mut counter);
    assert_eq!(condition.get_unique_id(), 2);
    assert_eq!(describe(condition.false_path.as_ref().unwrap()), ["'b'"]);
    assert_eq!(describe(condition.true_path.as_ref().unwrap()), ["'a'"]);
}

#[test]
fn validate_string_names_what_is_in_the_way() {
    assert_eq!(validate_string("some text"), Ok(()));
    assert_eq!(validate_string(""), Ok(()));
    assert_eq!(validate_string("a\tb"), Err(InvalidText::Tab));
    assert_eq!(validate_string("a\nb"), Err(InvalidText::NewLine));
    assert_eq!(validate_string("a\nb\t"), Err(InvalidText::Tab));
}

#[test]
fn counter_hands_out_consecutive_numbers() {
    let mut counter = CounterCell::new();
    assert_eq!(counter.increment(), 1);
    assert_eq!(counter.increment(), 2);
    let info = Info::new("marker", &mut counter);
    assert_eq!(info.get_unique_id(), 3);
    assert_eq!(info.get_name(), "marker");
}

#[test]
fn condition_reference_stores_the_condition() {
    let mut counter = CounterCell::new();
    let mut condition = Condition::new(
        "condition",
        ConditionProperties { condition: ConditionResolver::IsStartOfLine, true_path: None, false_path: None },
        &mut counter,
    );
    assert!(!condition.is_stored);
    let reference = condition.get_reference();
    assert!(condition.is_stored);
    assert_eq!(reference.id, condition.get_unique_id());
    assert_eq!(reference.get_name(), "condition");
}

#[test]
fn string_container_counts_characters() {
    let container = StringContainer::new(String::from("héllo"));
    assert_eq!(container.char_count(), 5);
    assert_eq!(container.as_str(), "héllo");
}

#[test]
fn print_items_share_a_path() {
    let path = text("a").into_rc_path();
    let mut items = PrintItems::from_rc_path(&path);
    items.push_path(path);
    items.extend(PrintItems::from_signal(Signal::Tab));
    assert_eq!(describe(&items), ["RcPath[\"'a'\"]", "RcPath[\"'a'\"]", "Tab"]);
    assert!(PrintItems::new().into_rc_path().is_none());
    assert!(PrintItems::from_rc_path(&None).is_empty());
    assert!(PrintItems::new().first_node().is_none());
    let first = items.first_node().unwrap();
    assert_eq!(first.index, 0);
    let next = first.get_next().unwrap().get_next().unwrap();
    assert_eq!(next.index, 2);
    assert!(matches!(next.get_item(), Some(PrintItem::Signal(Signal::Tab))));
    assert!(next.get_next().is_none());
}
