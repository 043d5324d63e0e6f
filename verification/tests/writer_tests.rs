use bumpalo::Bump;
use dprint_core::formatting::counter_cell::CounterCell;
use dprint_core::formatting::parser_helpers::{
    new_line_group, parse_js_like_comment_line, parse_raw_string, with_indent, with_indent_times, with_no_new_lines,
    with_queued_indent,
};
use dprint_core::formatting::print_items::{
    Condition, ConditionProperties, ConditionReference, ConditionResolver, Info, PrintItems, Signal,
};
use dprint_core::formatting::printer::{Printer, PrinterOptions};
use dprint_core::formatting::printer_state::PrintError;
use dprint_core::formatting::write_items::{print_write_items, PrintWriteItemsOptions};
use dprint_core::formatting::writer::{WriteItem, Writer, WriterOptions};

fn print(items: &PrintItems, max_width: u32, indent_width: u8) -> String {
    let bump = Bump::new();
    let printer = Printer::new(&bump, items.first_node(), PrinterOptions { max_width, indent_width });
    let write_items = printer.print();
    print_write_items(&write_items, PrintWriteItemsOptions { indent_width, use_tabs: false, new_line_text: "\n" })
}

fn print_checked(items: &PrintItems) -> Result<String, PrintError> {
    let bump = Bump::new();
    let printer = Printer::new(&bump, items.first_node(), PrinterOptions { max_width: 10, indent_width: 2 });
    let write_items = printer.print_checked()?;
    Ok(print_write_items(&write_items, PrintWriteItemsOptions { indent_width: 2, use_tabs: false, new_line_text: "\n" }))
}

fn lines(lines: &[&str]) -> PrintItems {
    let mut items = PrintItems::new();
    for (i, line) in lines.iter().enumerate() {
        if i > 0 {
            items.push_signal(Signal::NewLine);
        }
        items.push_str(line);
    }
    items
}

fn signals(signals: &[Signal]) -> PrintItems {
    let mut items = PrintItems::new();
    for signal in signals {
        items.push_signal(*signal);
    }
    items
}

#[test]
fn indent_is_written_at_line_starts() {
    assert_eq!(print(&with_indent(lines(&["a", "b"])), 10, 2), "  a\n  b");
    assert_eq!(print(&with_indent_times(lines(&["a", "b"]), 2), 10, 3), "      a\n      b");
}

#[test]
fn queued_indent_starts_on_the_next_line() {
    assert_eq!(print(&with_queued_indent(lines(&["a", "b", "c"])), 10, 2), "a\n  b\n  c");
}

#[test]
fn indent_ends_with_its_finish() {
    let mut items = with_indent(lines(&["a", "b"]));
    items.push_signal(Signal::NewLine);
    items.push_str("c");
    assert_eq!(print(&items, 10, 2), "  a\n  b\nc");
}

#[test]
fn raw_string_lines_are_not_indented() {
    assert_eq!(print(&with_indent(parse_raw_string("a\n  b")), 10, 2), "a\n  b");
    let mut items = PrintItems::new();
    items.push_str("x");
    items.push_signal(Signal::NewLine);
    items.extend(parse_raw_string("a\nb"));
    items.push_signal(Signal::NewLine);
    items.push_str("c");
    assert_eq!(print(&with_indent(items), 10, 2), "  x\na\nb\n  c");
}

#[test]
fn tabs_and_single_indents_are_written_in_place() {
    let mut items = PrintItems::new();
    items.push_str("a");
    items.push_signal(Signal::Tab);
    items.push_str("b");
    items.push_signal(Signal::SingleIndent);
    items.push_str("c");
    assert_eq!(print(&items, 80, 4), "a\tb    c");
}

#[test]
fn tabs_can_stand_for_indentation() {
    let items = with_indent_times(lines(&["a", "b"]), 2);
    let bump = Bump::new();
    let printer = Printer::new(&bump, items.first_node(), PrinterOptions { max_width: 10, indent_width: 2 });
    let write_items = printer.print();
    let text = print_write_items(
        &write_items,
        PrintWriteItemsOptions { indent_width: 2, use_tabs: true, new_line_text: "\r\n" },
    );
    assert_eq!(text, "\t\ta\r\n\t\tb");
}

#[test]
fn expected_new_line_comes_before_the_next_text() {
    let mut items = PrintItems::new();
    items.push_str("a");
    items.push_signal(Signal::ExpectNewLine);
    items.push_signal(Signal::SpaceIfNotTrailing);
    items.push_str("b");
    assert_eq!(print(&items, 10, 2), "a\nb");
}

#[test]
fn comment_line_ends_its_line() {
    let mut items = parse_js_like_comment_line(" a long comment line", true);
    items.push_str("b");
    assert_eq!(print(&items, 10, 2), "// a long comment line\nb");
}

#[test]
fn space_before_a_new_line_is_taken_back() {
    let mut items = PrintItems::new();
    items.push_str("a");
    items.push_signal(Signal::SpaceIfNotTrailing);
    items.push_signal(Signal::NewLine);
    items.push_str("b");
    items.push_signal(Signal::SpaceOrNewLine);
    items.push_signal(Signal::NewLine);
    items.push_str("c");
    assert_eq!(print(&items, 10, 2), "a\nb\nc");
}

#[test]
fn new_line_signal_is_dropped_where_line_breaks_are_forbidden() {
    assert_eq!(print(&with_no_new_lines(lines(&["aaaaaa", "bbbbbb"])), 10, 2), "aaaaaabbbbbb");
}

#[test]
fn possible_new_line_breaks_without_a_space() {
    let mut items = PrintItems::new();
    items.push_str("aaaaaa");
    items.push_signal(Signal::PossibleNewLine);
    items.push_str("bbbbbb");
    assert_eq!(print(&items, 10, 2), "aaaaaa\nbbbbbb");
    assert_eq!(print(&items, 12, 2), "aaaaaabbbbbb");
}

#[test]
fn break_in_the_outer_group_is_preferred() {
    let mut inner = PrintItems::new();
    inner.push_str("bbb");
    inner.push_signal(Signal::SpaceOrNewLine);
    inner.push_str("ccc");
    let mut items = PrintItems::new();
    items.push_str("aaa");
    items.push_signal(Signal::SpaceOrNewLine);
    items.extend(new_line_group(inner));
    assert_eq!(print(&new_line_group(items), 10, 2), "aaa\nbbb ccc");
}

#[test]
fn space_or_new_line_past_the_width_breaks_at_the_noted_place() {
    let mut items = PrintItems::new();
    items.push_str("aaaa");
    items.push_signal(Signal::SpaceOrNewLine);
    items.push_str("bbbbb");
    items.push_signal(Signal::SpaceOrNewLine);
    items.push_str("c");
    assert_eq!(print(&items, 10, 2), "aaaa\nbbbbb c");
}

#[test]
fn space_or_new_line_past_the_width_breaks_in_place_without_a_noted_place() {
    let mut items = PrintItems::new();
    items.push_str("aaaaaaaaaaaa");
    items.push_signal(Signal::SpaceOrNewLine);
    items.push_str("c");
    assert_eq!(print(&items, 10, 2), "aaaaaaaaaaaa\nc");
}

#[test]
fn text_without_a_place_to_break_runs_past_the_width() {
    let mut items = PrintItems::new();
    items.push_str("aaaaaa");
    items.push_str("bbbbbb");
    assert_eq!(print(&items, 10, 2), "aaaaaabbbbbb");
}

fn condition_on(reference: ConditionReference, counter: &mut CounterCell) -> Condition {
    let mut yes = PrintItems::new();
    yes.push_str("yes");
    let mut no = PrintItems::new();
    no.push_str("no");
    Condition::new(
        "asking",
        ConditionProperties {
            condition: ConditionResolver::IsConditionTrue(reference),
            true_path: Some(yes),
            false_path: Some(no),
        },
        counter,
    )
}

#[test]
fn condition_is_asked_again_once_a_later_condition_resolves() {
    let mut counter = CounterCell::new();
    let mut later = Condition::new(
        "later",
        ConditionProperties { condition: ConditionResolver::IsAboveWidth(0), true_path: None, false_path: None },
        &mut counter,
    );
    let reference = later.get_reference();
    let mut items = PrintItems::new();
    items.push_condition(condition_on(reference, &mut counter));
    items.push_condition(later);
    assert_eq!(print_checked(&items), Ok(String::from("yes")));
}

#[test]
fn condition_takes_the_false_path_when_the_later_condition_says_no() {
    let mut counter = CounterCell::new();
    let mut later = Condition::new(
        "later",
        ConditionProperties { condition: ConditionResolver::IsStartOfLine, true_path: None, false_path: None },
        &mut counter,
    );
    let reference = later.get_reference();
    let mut items = PrintItems::new();
    items.push_condition(condition_on(reference, &mut counter));
    items.push_condition(later);
    assert_eq!(print_checked(&items), Ok(String::from("no")));
}

#[test]
fn condition_on_start_of_line_sees_the_position() {
    let mut counter = CounterCell::new();
    let start_of_line = |counter: &mut CounterCell| {
        let mut yes = PrintItems::new();
        yes.push_str("+");
        let mut no = PrintItems::new();
        no.push_str("-");
        Condition::new(
            "startOfLine",
            ConditionProperties { condition: ConditionResolver::IsStartOfLine, true_path: Some(yes), false_path: Some(no) },
            counter,
        )
    };
    let mut items = PrintItems::new();
    items.push_condition(start_of_line(&mut counter));
    items.push_condition(start_of_line(&mut counter));
    items.push_signal(Signal::NewLine);
    items.push_condition(start_of_line(&mut counter));
    assert_eq!(print(&with_indent(items), 10, 2), "  +-\n  +");
}

fn multiple_lines_items(inner: PrintItems, depends: bool) -> PrintItems {
    let mut counter = CounterCell::new();
    let start = Info::new("start", &mut counter);
    let end = Info::new("end", &mut counter);
    let mut yes = PrintItems::new();
    yes.push_str("multi:");
    let mut no = PrintItems::new();
    no.push_str("single:");
    let properties = ConditionProperties {
        condition: ConditionResolver::IsMultipleLines { start, end },
        true_path: Some(yes),
        false_path: Some(no),
    };
    let condition = if depends {
        Condition::new_with_dependent_infos("isMultipleLines", properties, vec![start, end], &mut counter)
    } else {
        Condition::new("isMultipleLines", properties, &mut counter)
    };
    let mut items = PrintItems::new();
    items.push_condition(condition);
    items.push_info(start);
    items.extend(inner);
    items.push_info(end);
    items
}

#[test]
fn condition_is_asked_again_at_the_markers_it_depends_on() {
    assert_eq!(print_checked(&multiple_lines_items(lines(&["a", "b"]), true)), Ok(String::from("multi:a\nb")));
    assert_eq!(print_checked(&multiple_lines_items(lines(&["a"]), true)), Ok(String::from("single:a")));
}

#[test]
fn condition_is_not_asked_again_at_markers_it_does_not_depend_on() {
    assert_eq!(print_checked(&multiple_lines_items(lines(&["a", "b"]), false)), Ok(String::from("single:a\nb")));
}

#[test]
fn one_space_is_enough() {
    let mut items = PrintItems::new();
    items.push_str("a");
    items.push_signal(Signal::SpaceIfNotTrailing);
    items.push_signal(Signal::SpaceIfNotTrailing);
    items.push_signal(Signal::SpaceOrNewLine);
    items.push_str("b");
    assert_eq!(print(&items, 10, 2), "a b");
}

#[test]
fn print_checked_accepts_balanced_items() {
    let items = new_line_group(with_indent(with_no_new_lines(with_queued_indent(parse_raw_string("a\nb")))));
    assert_eq!(print_checked(&items), Ok(String::from("ab")));
    assert_eq!(print_checked(&PrintItems::new()), Ok(String::new()));
}

#[test]
fn print_checked_refuses_what_was_started_and_not_finished() {
    assert_eq!(print_checked(&signals(&[Signal::StartNewLineGroup])), Err(PrintError::NewLineGroupDepthNotZero(1)));
    assert_eq!(
        print_checked(&signals(&[Signal::StartForceNoNewLines, Signal::StartForceNoNewLines])),
        Err(PrintError::ForceNoNewLinesDepthNotZero(2))
    );
    assert_eq!(print_checked(&signals(&[Signal::StartIndent])), Err(PrintError::IndentLevelNotZero(1)));
    assert_eq!(print_checked(&signals(&[Signal::StartIgnoringIndent])), Err(PrintError::IgnoreIndentCountNotZero(1)));
    assert_eq!(
        print_checked(&signals(&[Signal::StartIndent, Signal::StartNewLineGroup])),
        Err(PrintError::NewLineGroupDepthNotZero(1))
    );
}

#[test]
fn print_checked_refuses_a_condition_that_asks_for_what_never_comes() {
    let mut counter = CounterCell::new();
    let mut items = PrintItems::new();
    items.push_condition(condition_on(ConditionReference::new("missing", 100), &mut counter));
    assert_eq!(print_checked(&items), Err(PrintError::LookAheadNeverResolved("missing")));
    assert_eq!(print(&items, 10, 2), "no");
    let start = Info::new("missingStart", &mut counter);
    let end = Info::new("missingEnd", &mut counter);
    let mut items = PrintItems::new();
    items.push_condition(Condition::new(
        "isMultipleLines",
        ConditionProperties {
            condition: ConditionResolver::IsMultipleLines { start, end },
            true_path: None,
            false_path: None,
        },
        &mut counter,
    ));
    assert_eq!(print_checked(&items), Err(PrintError::LookAheadNeverResolved("missingStart")));
}

#[test]
fn printer_gives_up_at_its_limit_of_steps() {
    let items = lines(&["a", "b"]);
    let within = |max_steps: u64| {
        let bump = Bump::new();
        let printer = Printer::new(&bump, items.first_node(), PrinterOptions { max_width: 10, indent_width: 2 });
        printer.print_within(max_steps).map(|items| items.len())
    };
    assert_eq!(within(0), Err(PrintError::StepLimitReached));
    assert_eq!(within(2), Err(PrintError::StepLimitReached));
    assert_eq!(within(3), Ok(3));
    assert_eq!(within(4), Ok(3));
}

#[test]
fn tracing_records_every_step() {
    let mut items = PrintItems::new();
    items.push_str("a");
    items.push_signal(Signal::SpaceOrNewLine);
    items.push_str("b");
    let bump = Bump::new();
    let printer = Printer::new(&bump, items.first_node(), PrinterOptions { max_width: 10, indent_width: 2 });
    let result = printer.print_for_tracing();
    assert_eq!(result.traces.len(), 3);
    assert_eq!(result.writer_nodes.len(), 3);
    for (i, trace) in result.traces.iter().enumerate() {
        assert_eq!(trace.print_node.index, i);
        assert!(std::ptr::eq(trace.writer_node.unwrap(), result.writer_nodes[i]));
    }
    assert!(matches!(result.writer_nodes[0].item, WriteItem::Text(text) if text.as_str() == "a"));
    assert!(matches!(result.writer_nodes[1].item, WriteItem::Space));
    assert!(matches!(result.writer_nodes[2].item, WriteItem::Text(text) if text.as_str() == "b"));
    assert!(result.traces[0].nanos <= result.traces[2].nanos);
}

#[test]
fn writer_keeps_line_and_column() {
    let bump = Bump::new();
    let mut writer = Writer::new(&bump, WriterOptions { indent_width: 4 });
    assert_eq!((writer.get_line_number(), writer.get_line_column()), (0, 0));
    writer.start_indent();
    assert_eq!(writer.get_indentation_level(), 1);
    assert_eq!(writer.get_line_column(), 4);
    assert_eq!(writer.get_line_start_column_number(), 4);
    writer.tab();
    assert_eq!(writer.get_line_column(), 8);
    writer.single_indent();
    assert_eq!(writer.get_line_column(), 12);
    writer.space_if_not_trailing();
    writer.space_if_not_trailing();
    assert_eq!(writer.get_line_column(), 13);
    let state = writer.get_state();
    writer.new_line();
    assert_eq!((writer.get_line_number(), writer.get_line_column()), (1, 4));
    writer.queue_indent();
    writer.finish_indent();
    assert_eq!(writer.get_indentation_level(), 1);
    writer.finish_indent();
    assert_eq!(writer.get_indentation_level(), 0);
    assert_eq!(writer.get_line_start_indent_level(), 0);
    writer.finish_indent();
    assert_eq!(writer.get_indentation_level(), 0);
    writer.start_ignoring_indent();
    assert_eq!(writer.get_ignore_indent_count(), 1);
    writer.finish_ignoring_indent();
    writer.finish_ignoring_indent();
    assert_eq!(writer.get_ignore_indent_count(), 0);
    writer.set_state(state);
    assert_eq!((writer.get_line_number(), writer.get_line_column()), (0, 13));
    assert_eq!(writer.get_indent_width(), 4);
    let items = writer.get_items();
    assert!(matches!(items[..], [WriteItem::Indent(1), WriteItem::Tab, WriteItem::Indent(1), WriteItem::Space]));
}
