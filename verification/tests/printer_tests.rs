use bumpalo::Bump;
use dprint_core::formatting::counter_cell::CounterCell;
use dprint_core::formatting::parser_helpers::{new_line_group, surround_with_newlines_indented_if_multi_line};
use dprint_core::formatting::print_items::{PrintItems, Signal};
use dprint_core::formatting::printer::{Printer, PrinterOptions};
use dprint_core::formatting::write_items::{print_write_items, PrintWriteItemsOptions};
use dprint_core::formatting::writer::WriteItem;

fn format(items: &PrintItems, max_width: u32, indent_width: u8) -> String {
    let bump = Bump::new();
    let printer = Printer::new(&bump, items.first_node(), PrinterOptions { max_width, indent_width });
    let write_items = printer.print();
    print_write_items(
        &write_items,
        PrintWriteItemsOptions { indent_width, use_tabs: false, new_line_text: "\n" },
    )
}

fn words(words: &[&str]) -> PrintItems {
    let mut items = PrintItems::new();
    for (i, word) in words.iter().enumerate() {
        if i > 0 {
            items.push_signal(Signal::SpaceOrNewLine);
        }
        items.push_str(word);
    }
    items
}

#[test]
fn text_that_fits_stays_on_one_line() {
    assert_eq!(format(&words(&["foo", "bar"]), 10, 2), "foo bar");
}

#[test]
fn overflow_breaks_at_the_latest_space() {
    assert_eq!(format(&words(&["foooo", "bar", "baz"]), 10, 2), "foooo bar\nbaz");
}

#[test]
fn one_group_breaks_like_no_group() {
    let items = new_line_group(words(&["foooo", "bar", "baz"]));
    assert_eq!(format(&items, 10, 2), "foooo bar\nbaz");
}

#[test]
fn forced_no_new_lines_keeps_one_line() {
    let mut items = PrintItems::new();
    items.push_signal(Signal::StartForceNoNewLines);
    items.push_str("aaaaaa");
    items.push_signal(Signal::SpaceOrNewLine);
    items.push_str("bbbbbb");
    items.push_signal(Signal::FinishForceNoNewLines);
    assert_eq!(format(&items, 10, 2), "aaaaaa bbbbbb");
}

#[test]
fn items_on_several_lines_are_surrounded_and_indented() {
    let mut counter = CounterCell::new();
    let mut inner = PrintItems::new();
    inner.push_str("x");
    inner.push_signal(Signal::NewLine);
    inner.push_str("y");
    let items = surround_with_newlines_indented_if_multi_line(inner, 2, &mut counter);
    assert_eq!(format(&items, 10, 2), "\n  x\n  y\n");
}

#[test]
fn items_on_one_line_stay_as_they_are() {
    let mut counter = CounterCell::new();
    let mut inner = PrintItems::new();
    inner.push_str("x");
    let items = surround_with_newlines_indented_if_multi_line(inner, 2, &mut counter);
    assert_eq!(format(&items, 10, 2), "x");
}

#[test]
fn printing_twice_gives_the_same() {
    let mut counter = CounterCell::new();
    let mut inner = words(&["aaaa", "bbbb", "cccc", "dddd"]);
    inner.push_signal(Signal::NewLine);
    inner.push_str("y");
    let items = surround_with_newlines_indented_if_multi_line(inner, 2, &mut counter);
    let first = format(&items, 10, 2);
    let second = format(&items, 10, 2);
    assert_eq!(first, second);
    assert_eq!(first, "\n  aaaa\n  bbbb\n  cccc\n  dddd\n  y\n");
}

#[test]
fn no_text_item_holds_newline_or_tab() {
    let items = words(&["foooo", "bar", "baz", "quux", "corge"]);
    let bump = Bump::new();
    let printer = Printer::new(&bump, items.first_node(), PrinterOptions { max_width: 10, indent_width: 2 });
    for item in printer.print() {
        if let WriteItem::Text(text) = item {
            assert!(!text.as_str().contains('\n'));
            assert!(!text.as_str().contains('\t'));
        }
    }
}
