use super::print_items::{PrintItem, PrintItemPath, Signal, StringContainer};
use super::printer_state::PrinterState;
use super::writer::{items_view, WriteItem, WriterState};
use vstd::prelude::*;

verus! {

/// Whether `after` is `before` with items added to it, none of them a
/// line break.
pub open spec fn extends_without_new_line(before: Seq<WriteItem>, after: Seq<WriteItem>) -> bool {
    &&& before.len() <= after.len()
    &&& after.take(before.len() as int) == before
    &&& forall|index: int| before.len() <= index < after.len() ==> !(#[trigger] after[index] is NewLine)
}

proof fn lemma_extends_push(before: Seq<WriteItem>, middle: Seq<WriteItem>, item: WriteItem)
    requires
        extends_without_new_line(before, middle),
        !(item is NewLine),
    ensures
        extends_without_new_line(before, middle.push(item)),
{
    assert(middle.push(item).take(before.len() as int) =~= middle.take(before.len() as int));
}

/// Writing something else than a line break, when none is owed, adds
/// no line break.
proof fn lemma_write_item_adds_no_new_line(writer: WriterState, item: WriteItem, width: u32, indent_width: u8)
    requires
        !writer.expect_newline_next,
        !(item is NewLine),
    ensures
        extends_without_new_line(items_view(writer.items), items_view(writer.write_item(item, width, indent_width).items)),
        !writer.write_item(item, width, indent_width).expect_newline_next,
{
    let before = items_view(writer.items);
    assert(before.take(before.len() as int) =~= before);
    let state = WriterState { last_was_not_trailing_space: false, ..writer };
    let first = writer.handle_first_column(indent_width);
    if state.current_line_column == 0 && state.indent_level > 0 && state.ignore_indent_count == 0 {
        lemma_extends_push(before, before, WriteItem::Indent(state.indent_level));
    }
    assert(extends_without_new_line(before, items_view(first.items)));
    lemma_extends_push(before, items_view(first.items), item);
}

/// While line breaks are forbidden and none is owed, neither text nor a
/// signal makes the printer write a line break, however long the line is:
/// what was written stays, and what is added holds no line break.
pub proof fn lemma_no_new_line_where_forbidden<'a>(
    state: PrinterState<'a>,
    item: &'a PrintItem,
    next_node: Option<PrintItemPath<'a>>,
)
    requires
        state.force_no_newlines_depth > 0,
        !state.writer.expect_newline_next,
        *item is String || *item is Signal,
    ensures
        extends_without_new_line(state.written(), state.handle_print_node(item, next_node).written()),
        *item != PrintItem::Signal(Signal::ExpectNewLine) ==> !state.handle_print_node(
            item,
            next_node,
        ).writer.expect_newline_next,
{
    let before = state.written();
    assert(before.take(before.len() as int) =~= before);
    let width = state.indent_width;
    match item {
        PrintItem::String(text) => {
            lemma_write_item_adds_no_new_line(state.writer, WriteItem::Text(text), text.spec_char_count(), width);
        },
        PrintItem::Signal(signal) => {
            lemma_write_item_adds_no_new_line(state.writer, WriteItem::Tab, width as u32, width);
            lemma_write_item_adds_no_new_line(state.writer, WriteItem::Indent(1), width as u32, width);
            lemma_write_item_adds_no_new_line(state.writer, WriteItem::Space, 1, width);
            lemma_extends_push(before, before, WriteItem::StartIgnoringIndent);
            lemma_extends_push(before, before, WriteItem::FinishIgnoringIndent);
        },
        _ => {},
    }
}

/// Text is written past the maximum width only where the printer could
/// not break the line: where line breaks are forbidden, or where no place
/// to break at is noted. Everywhere else the printer goes back to the
/// noted place and breaks the line there.
pub proof fn lemma_overflow_is_forced<'a>(state: PrinterState<'a>, text: &'a StringContainer)
    ensures
        state.is_above_max_width(text.spec_char_count()) && state.allow_new_lines()
            ==> match state.possible_new_line_save_point {
            Some(save_point) => {
                &&& state.handle_string(text).writer == save_point.writer_state.new_line()
                &&& state.handle_string(text).current_node == save_point.node
                &&& state.handle_string(text).skip_moving_next
            },
            None => state.handle_string(text).writer == state.writer.write(text, state.indent_width),
        },
        !state.is_above_max_width(text.spec_char_count()) || !state.allow_new_lines() ==> state.handle_string(
            text,
        ).writer == state.writer.write(text, state.indent_width),
{
}

/// The place noted for a line break lies in the shallowest group: a place
/// in a deeper group never takes the place of one noted in a shallower group.
pub proof fn lemma_shallowest_break_is_kept(state: PrinterState)
    ensures
        state.mark_possible_new_line_if_able().possible_new_line_save_point matches Some(noted)
            && noted.new_line_group_depth <= state.new_line_group_depth,
        state.possible_new_line_save_point matches Some(earlier) && earlier.new_line_group_depth
            < state.new_line_group_depth ==> state.mark_possible_new_line_if_able() == state,
{
}

} // verus!
