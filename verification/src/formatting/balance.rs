use super::print_items::{
    Condition, ConditionReference, ConditionResolver, Info, PrintItem, PrintItemPath, PrintItems, Signal,
    StringContainer, WriterInfo,
};
use super::printer_state::{resume_from, PrinterState};
use super::save_point::{
    changes_view, entry_index, with_entry, ConditionEntry, PathStackNode, SavePoint, SavePointMapNode,
};
use super::writer::WriterState;
use std::rc::Rc;
use vstd::prelude::*;

verus! {

/// What the printer counts: each is raised by one signal and lowered by
/// another.
pub enum Counter {
    /// Indents, started at once or queued.
    Indent,
    NewLineGroup,
    ForceNoNewLines,
    IgnoreIndent,
}

/// By how much the signal raises the counter.
pub open spec fn signal_effect(counter: Counter, signal: Signal) -> int {
    match counter {
        Counter::Indent => match signal {
            Signal::StartIndent => 1,
            Signal::QueueStartIndent => 1,
            Signal::FinishIndent => -1,
            _ => 0,
        },
        Counter::NewLineGroup => match signal {
            Signal::StartNewLineGroup => 1,
            Signal::FinishNewLineGroup => -1,
            _ => 0,
        },
        Counter::ForceNoNewLines => match signal {
            Signal::StartForceNoNewLines => 1,
            Signal::FinishForceNoNewLines => -1,
            _ => 0,
        },
        Counter::IgnoreIndent => match signal {
            Signal::StartIgnoringIndent => 1,
            Signal::FinishIgnoringIndent => -1,
            _ => 0,
        },
    }
}

/// By how much the item itself raises the counter. What a condition or
/// shared items hold does not count here.
pub open spec fn effect(counter: Counter, item: PrintItem) -> int {
    match item {
        PrintItem::Signal(signal) => signal_effect(counter, signal),
        _ => 0,
    }
}

/// By how much the first `count` items raise the counter.
pub open spec fn balance(counter: Counter, items: Seq<PrintItem>, count: int) -> int
    decreases count,
{
    if count <= 0 {
        0
    } else {
        balance(counter, items, count - 1) + effect(counter, items[count - 1])
    }
}

/// The highest value the printer can count to.
pub open spec fn limit(counter: Counter) -> int {
    match counter {
        Counter::NewLineGroup => 0xffff,
        _ => 0xff,
    }
}

/// Whether the items, met when the counter stands at `base`, leave it
/// there and never take it below zero or above its limit; and so do the
/// items of each condition and the shared items among them.
pub open spec fn is_balanced(counter: Counter, items: PrintItems, base: int) -> bool
    decreases items,
{
    &&& balance(counter, items@, items@.len() as int) == 0
    &&& forall|count: int|
        0 <= count <= items@.len() ==> 0 <= base + #[trigger] balance(counter, items@, count) <= limit(counter)
    &&& forall|index: int|
        0 <= index < items@.len() ==> match #[trigger] items@[index] {
            PrintItem::Condition(condition) => {
                &&& condition.true_path matches Some(path) ==> is_balanced(
                    counter,
                    path,
                    base + balance(counter, items@, index),
                )
                &&& condition.false_path matches Some(path) ==> is_balanced(
                    counter,
                    path,
                    base + balance(counter, items@, index),
                )
            },
            PrintItem::RcPath(path) => is_balanced(counter, *path, base + balance(counter, items@, index)),
            _ => true,
        }
}

/// Whether every start among the items has its finish, on every way
/// through them, and nothing is nested deeper than the printer can count.
pub open spec fn is_well_balanced(items: PrintItems) -> bool {
    forall|counter: Counter| is_balanced(counter, items, 0)
}

/// What the printer has counted.
pub open spec fn depth_of(counter: Counter, new_line_group_depth: u16, force_no_newlines_depth: u8, writer: WriterState) -> int {
    match counter {
        Counter::Indent => writer.indent_level + writer.indent_queue_count,
        Counter::NewLineGroup => new_line_group_depth as int,
        Counter::ForceNoNewLines => force_no_newlines_depth as int,
        Counter::IgnoreIndent => writer.ignore_indent_count as int,
    }
}

/// Whether `depth` is what balanced items lead to at `current`, given
/// the instructions that wait on the stack: the items of `current` are
/// balanced, and so are those of each entry of the stack, down to the
/// outermost, which started at zero.
pub open spec fn chain_ok(
    counter: Counter,
    current: Option<PrintItemPath>,
    top: Option<&PathStackNode>,
    depth: int,
) -> bool
    decreases top,
{
    let base = match current {
        Some(path) => depth - balance(counter, path.items@, path.index as int),
        None => depth,
    };
    &&& current matches Some(path) ==> path.index <= path.items@.len() && is_balanced(counter, *path.items, base)
    &&& match top {
        None => base == 0,
        Some(node) => chain_ok(counter, node.path, node.below, base),
    }
}

/// Whether all four counters are what balanced items lead to.
pub open spec fn chains_ok(
    current: Option<PrintItemPath>,
    top: Option<&PathStackNode>,
    new_line_group_depth: u16,
    force_no_newlines_depth: u8,
    writer: WriterState,
) -> bool {
    forall|counter: Counter|
        chain_ok(
            counter,
            current,
            top,
            #[trigger] depth_of(counter, new_line_group_depth, force_no_newlines_depth, writer),
        )
}

/// Whether going back to the save point leads to counts that fit the
/// place it goes back to, and so for each save point it holds.
pub open spec fn save_point_ok(save_point: &SavePoint) -> bool
    decreases save_point,
{
    &&& chains_ok(
        save_point.node,
        save_point.next_node_stack.top,
        save_point.new_line_group_depth,
        save_point.force_no_newlines_depth,
        save_point.writer_state,
    )
    &&& save_point.possible_new_line_save_point matches Some(earlier) ==> save_point_ok(earlier)
    &&& changes_ok(save_point.look_ahead_condition_save_points.head)
    &&& changes_ok(save_point.look_ahead_info_save_points.head)
}

/// Whether each save point of the map is fit to go back to.
pub open spec fn changes_ok(head: Option<&SavePointMapNode>) -> bool
    decreases head,
{
    match head {
        None => true,
        Some(node) => {
            &&& node.value matches Some(save_point) ==> save_point_ok(save_point)
            &&& changes_ok(node.rest)
        },
    }
}

/// Whether each save point the printer holds is fit to go back to.
pub open spec fn save_points_ok(state: PrinterState) -> bool {
    &&& state.possible_new_line_save_point matches Some(save_point) ==> save_point_ok(save_point)
    &&& state.resolving_save_point matches Some(save_point) ==> save_point_ok(save_point)
    &&& changes_ok(state.look_ahead_condition_save_points.head)
    &&& changes_ok(state.look_ahead_info_save_points.head)
    &&& forall|id: usize, index: int|
        state.conditions_for_infos.contains_key(id) && 0 <= index < state.conditions_for_infos[id].len()
            ==> save_point_ok((#[trigger] state.conditions_for_infos[id][index]).save_point)
}

/// Whether the counts of the printer fit the place where it stands.
pub open spec fn counts_ok(state: PrinterState) -> bool {
    chains_ok(
        state.current_node,
        state.next_node_stack.top,
        state.new_line_group_depth,
        state.force_no_newlines_depth,
        state.writer,
    )
}

/// What holds of the printer between two instructions when the print
/// items are balanced.
pub open spec fn state_ok(state: PrinterState) -> bool {
    &&& counts_ok(state)
    &&& save_points_ok(state)
    &&& !state.skip_moving_next
    &&& state.resolving_save_point is None
    &&& state.current_node is None ==> state.next_node_stack.top is None
}

proof fn lemma_balance_step(counter: Counter, items: Seq<PrintItem>, count: int)
    requires
        0 <= count < items.len(),
    ensures
        balance(counter, items, count + 1) == balance(counter, items, count) + effect(counter, items[count]),
{
}

/// A save point found in a map whose save points are fit is fit.
proof fn lemma_changes_get(head: Option<&SavePointMapNode>, key: usize)
    requires
        changes_ok(head),
        super::save_point::changes_view(head).contains_key(key),
    ensures
        save_point_ok(super::save_point::changes_view(head)[key]),
    decreases head,
{
    let node = head.unwrap();
    if node.key == key {
    } else {
        lemma_changes_get(node.rest, key);
    }
}

/// What the writer has counted: the indents, queued ones too, and how
/// often indentation was switched off.
pub open spec fn writer_counts(writer: WriterState) -> (int, int) {
    (writer.indent_level + writer.indent_queue_count, writer.ignore_indent_count as int)
}

/// Writing does not change what the writer has counted.
proof fn lemma_writing_keeps_counts(writer: WriterState, indent_width: u8)
    requires
        writer.indent_level + writer.indent_queue_count <= 0xff,
    ensures
        writer_counts(writer.new_line()) == writer_counts(writer),
        writer_counts(writer.handle_first_column(indent_width)) == writer_counts(writer),
        forall|item: super::writer::WriteItem, width: u32|
            writer_counts(#[trigger] writer.write_item(item, width, indent_width)) == writer_counts(writer),
        writer_counts(writer.space_if_not_trailing(indent_width)) == writer_counts(writer),
        writer_counts(writer.mark_expect_new_line()) == writer_counts(writer),
{
    let first = writer.handle_first_column(indent_width);
    assert(writer_counts(writer.new_line()) == writer_counts(writer));
    assert(writer_counts(first) == writer_counts(writer));
}

/// The counts fit the next instruction once an instruction that neither
/// went back nor entered a path is done.
proof fn lemma_chain_next(counter: Counter, path: PrintItemPath, top: Option<&PathStackNode>, depth: int)
    requires
        chain_ok(counter, Some(path), top, depth),
        path.index < path.items@.len(),
    ensures
        chain_ok(counter, path.get_next(), top, depth + effect(counter, path.items@[path.index as int])),
        0 <= depth + effect(counter, path.items@[path.index as int]) <= limit(counter),
        0 <= depth <= limit(counter),
{
    let items = path.items@;
    let base = depth - balance(counter, items, path.index as int);
    lemma_balance_step(counter, items, path.index as int);
    assert(0 <= base + balance(counter, items, path.index as int) <= limit(counter));
    assert(0 <= base + balance(counter, items, path.index + 1) <= limit(counter));
    let after = depth + effect(counter, items[path.index as int]);
    if path.index + 1 < items.len() {
        assert(path.items.items.len() == items.len());
        let next = PrintItemPath { items: path.items, index: (path.index + 1) as usize };
        assert(path.get_next() == Some(next));
        assert(next.index == path.index + 1);
        assert(after - balance(counter, next.items@, next.index as int) == base);
        assert(chain_ok(counter, Some(next), top, after));
    } else {
        assert(balance(counter, items, items.len() as int) == 0);
        assert(path.get_next() is None);
        assert(after == base);
        assert(chain_ok(counter, None, top, after));
    }
}

/// The counts fit the first instruction of a path that is entered, with
/// the instruction after the current one on the stack.
proof fn lemma_chain_enter<'a>(
    counter: Counter,
    path: PrintItemPath<'a>,
    top: Option<&'a PathStackNode<'a>>,
    depth: int,
    entered: &'a PrintItems,
)
    requires
        chain_ok(counter, Some(path), top, depth),
        path.index < path.items@.len(),
        match path.items@[path.index as int] {
            PrintItem::Condition(condition) => condition.true_path == Some(*entered) || condition.false_path
                == Some(*entered),
            PrintItem::RcPath(shared) => *shared == *entered,
            _ => false,
        },
    ensures
        chain_ok(
            counter,
            entered.spec_first_node(),
            Some(&PathStackNode { path: path.get_next(), below: top }),
            depth,
        ),
{
    lemma_chain_next(counter, path, top, depth);
    let items = path.items@;
    let base = depth - balance(counter, items, path.index as int);
    assert(is_balanced(counter, *path.items, base));
    assert(is_balanced(counter, *entered, depth)) by {
        let item = items[path.index as int];
        assert(base + balance(counter, items, path.index as int) == depth);
    }
    assert(balance(counter, entered@, 0) == 0);
    if entered@.len() == 0 {
    } else {
    }
}

/// Going on with the stack when the current path has ended keeps the
/// counts fitting.
proof fn lemma_chain_resume(counter: Counter, top: Option<&PathStackNode>, depth: int)
    requires
        chain_ok(counter, None, top, depth),
    ensures
        chain_ok(counter, resume_from(top).0, resume_from(top).1, depth),
    decreases top,
{
    match top {
        None => {},
        Some(node) => {
            match node.path {
                Some(path) => {},
                None => {
                    lemma_chain_resume(counter, node.below, depth);
                },
            }
        },
    }
}

proof fn lemma_resume_ends(top: Option<&PathStackNode>)
    ensures
        resume_from(top).0 is None ==> resume_from(top).1 is None,
    decreases top,
{
    match top {
        None => {},
        Some(node) => {
            if node.path is None {
                lemma_resume_ends(node.below);
            }
        },
    }
}

/// Counts that fit a place lie between zero and the limit.
proof fn lemma_chain_bounds(counter: Counter, current: Option<PrintItemPath>, top: Option<&PathStackNode>, depth: int)
    requires
        chain_ok(counter, current, top, depth),
    ensures
        0 <= depth <= limit(counter),
    decreases top,
{
    match current {
        Some(path) => {
            let base = depth - balance(counter, path.items@, path.index as int);
            assert(0 <= base + balance(counter, path.items@, path.index as int) <= limit(counter));
        },
        None => {
            match top {
                None => {},
                Some(node) => {
                    lemma_chain_bounds(counter, node.path, node.below, depth);
                },
            }
        },
    }
}

/// The printer stands at the same place with the same counts and the
/// same line break noted; what it knows of markers and conditions may differ.
pub open spec fn same_place(before: PrinterState, after: PrinterState) -> bool {
    &&& after.current_node == before.current_node
    &&& after.next_node_stack == before.next_node_stack
    &&& after.new_line_group_depth == before.new_line_group_depth
    &&& after.force_no_newlines_depth == before.force_no_newlines_depth
    &&& after.writer == before.writer
    &&& after.indent_width == before.indent_width
    &&& after.max_width == before.max_width
    &&& after.possible_new_line_save_point == before.possible_new_line_save_point
    &&& after.conditions_for_infos == before.conditions_for_infos
    &&& after.resolving_save_point == before.resolving_save_point
    &&& after.skip_moving_next == before.skip_moving_next
}

/// What holds while an instruction is handled, before the printer's
/// place or counts change.
pub open spec fn context_ok(state: PrinterState) -> bool {
    counts_ok(state) && save_points_ok(state)
}

proof fn lemma_save_point_for_restoring(state: PrinterState, name: &'static str)
    requires
        context_ok(state),
    ensures
        save_point_ok(state.save_point_for_restoring_condition(name)),
{
    match state.resolving_save_point {
        Some(save_point) => {},
        None => {
            let save_point = state.create_save_point(name, state.current_node);
            assert(save_point_ok(&save_point));
        },
    }
}

proof fn lemma_get_resolved_info(state: PrinterState, info: Info)
    requires
        context_ok(state),
    ensures
        context_ok(state.get_resolved_info(info).1),
        same_place(state, state.get_resolved_info(info).1),
{
    lemma_save_point_for_restoring(state, info.name);
}

proof fn lemma_get_resolved_condition(state: PrinterState, reference: ConditionReference)
    requires
        context_ok(state),
    ensures
        context_ok(state.get_resolved_condition(reference).1),
        same_place(state, state.get_resolved_condition(reference).1),
{
    lemma_save_point_for_restoring(state, reference.name);
}

proof fn lemma_has_info_moved(state: PrinterState, info: Info)
    requires
        context_ok(state),
    ensures
        context_ok(state.has_info_moved(info).1),
        same_place(state, state.has_info_moved(info).1),
{
    lemma_get_resolved_info(state, info);
}

proof fn lemma_is_multiple_lines(state: PrinterState, start: Info, end: Info)
    requires
        context_ok(state),
    ensures
        context_ok(state.is_multiple_lines(start, end).1),
        same_place(state, state.is_multiple_lines(start, end).1),
{
    lemma_get_resolved_info(state, start);
    lemma_get_resolved_info(state.get_resolved_info(start).1, end);
}

/// Asking a condition changes neither the place nor the counts, and
/// what the printer notes to go back to is fit to go back to.
proof fn lemma_resolve(state: PrinterState, resolver: ConditionResolver, writer_info: WriterInfo)
    requires
        context_ok(state),
    ensures
        context_ok(state.resolve(resolver, writer_info).1),
        same_place(state, state.resolve(resolver, writer_info).1),
{
    match resolver {
        ConditionResolver::IsStartOfLine => {},
        ConditionResolver::IsAboveWidth(width) => {},
        ConditionResolver::IsMultipleLines { start, end } => {
            lemma_is_multiple_lines(state, start, end);
        },
        ConditionResolver::IsMultipleLinesSinceMoved { start, end } => {
            lemma_has_info_moved(state, start);
            let (moved, asked) = state.has_info_moved(start);
            match moved {
                None => {},
                Some(moved) => {
                    let cleared = if moved {
                        asked.clear_info(end)
                    } else {
                        asked
                    };
                    assert(context_ok(cleared));
                    lemma_is_multiple_lines(cleared, start, end);
                },
            }
        },
        ConditionResolver::IsConditionTrue(reference) => {
            lemma_get_resolved_condition(state, reference);
        },
    }
}

/// Going back to a fit save point leads to counts that fit.
proof fn lemma_update_state_to_save_point(state: PrinterState, save_point: &SavePoint, is_for_new_line: bool)
    requires
        save_points_ok(state),
        save_point_ok(save_point),
    ensures
        context_ok(state.update_state_to_save_point(save_point, is_for_new_line)),
        state.update_state_to_save_point(save_point, is_for_new_line).skip_moving_next,
        state.update_state_to_save_point(save_point, is_for_new_line).resolving_save_point
            == state.resolving_save_point,
{
    let after = state.update_state_to_save_point(save_point, is_for_new_line);
    if is_for_new_line {
        lemma_chain_bounds(
            Counter::Indent,
            save_point.node,
            save_point.next_node_stack.top,
            depth_of(
                Counter::Indent,
                save_point.new_line_group_depth,
                save_point.force_no_newlines_depth,
                save_point.writer_state,
            ),
        );
        lemma_writing_keeps_counts(save_point.writer_state, state.indent_width);
        assert forall|counter: Counter|
            chain_ok(
                counter,
                after.current_node,
                after.next_node_stack.top,
                #[trigger] depth_of(counter, after.new_line_group_depth, after.force_no_newlines_depth, after.writer),
            ) by {
            assert(depth_of(counter, after.new_line_group_depth, after.force_no_newlines_depth, after.writer)
                == depth_of(
                counter,
                save_point.new_line_group_depth,
                save_point.force_no_newlines_depth,
                save_point.writer_state,
            ));
        }
    }
}

/// What holds once the instruction at `path` is handled, before the
/// printer moves on: the counts fit the place it goes on at.
pub open spec fn handled_ok(state: PrinterState, path: PrintItemPath) -> bool {
    &&& save_points_ok(state)
    &&& state.resolving_save_point is None
    &&& if state.skip_moving_next {
        counts_ok(state)
    } else {
        &&& state.current_node == Some(path)
        &&& chains_ok(
            path.get_next(),
            state.next_node_stack.top,
            state.new_line_group_depth,
            state.force_no_newlines_depth,
            state.writer,
        )
    }
}

proof fn lemma_resume(state: PrinterState)
    requires
        context_ok(state),
        !state.skip_moving_next,
        state.resolving_save_point is None,
    ensures
        state_ok(state.resume()),
{
    let after = state.resume();
    if state.current_node is None {
        lemma_resume_ends(state.next_node_stack.top);
        assert forall|counter: Counter|
            chain_ok(
                counter,
                after.current_node,
                after.next_node_stack.top,
                #[trigger] depth_of(counter, after.new_line_group_depth, after.force_no_newlines_depth, after.writer),
            ) by {
            let depth = depth_of(counter, state.new_line_group_depth, state.force_no_newlines_depth, state.writer);
            assert(chain_ok(counter, state.current_node, state.next_node_stack.top, depth));
            lemma_chain_resume(counter, state.next_node_stack.top, depth);
        }
    }
}

proof fn lemma_advance(state: PrinterState, path: PrintItemPath)
    requires
        handled_ok(state, path),
    ensures
        state_ok(state.advance()),
{
    let moved = if state.skip_moving_next {
        PrinterState { skip_moving_next: false, ..state }
    } else {
        PrinterState { current_node: path.get_next(), ..state }
    };
    assert(context_ok(moved));
    lemma_resume(moved);
}

/// The counts of a state.
pub open spec fn depth_in(counter: Counter, state: PrinterState) -> int {
    depth_of(counter, state.new_line_group_depth, state.force_no_newlines_depth, state.writer)
}

/// Whether the printer stands where it stood, with counts raised by
/// what `item` raises them by.
pub open spec fn counted(before: PrinterState, after: PrinterState, item: PrintItem) -> bool {
    &&& after.current_node == before.current_node
    &&& after.next_node_stack == before.next_node_stack
    &&& !after.skip_moving_next
    &&& forall|counter: Counter| #[trigger]
        depth_in(counter, after) == depth_in(counter, before) + effect(counter, item)
}

/// The printer stands at an instruction, between two instructions.
pub open spec fn stands_at(state: PrinterState, path: PrintItemPath) -> bool {
    &&& state_ok(state)
    &&& state.current_node == Some(path)
    &&& path.index < path.items@.len()
}

proof fn lemma_counted(before: PrinterState, after: PrinterState, path: PrintItemPath)
    requires
        context_ok(before),
        before.current_node == Some(path),
        path.index < path.items@.len(),
        counted(before, after, path.items@[path.index as int]),
    ensures
        chains_ok(
            path.get_next(),
            after.next_node_stack.top,
            after.new_line_group_depth,
            after.force_no_newlines_depth,
            after.writer,
        ),
{
    assert forall|counter: Counter|
        chain_ok(
            counter,
            path.get_next(),
            after.next_node_stack.top,
            #[trigger] depth_of(counter, after.new_line_group_depth, after.force_no_newlines_depth, after.writer),
        ) by {
        assert(chain_ok(counter, Some(path), before.next_node_stack.top, depth_in(counter, before)));
        lemma_chain_next(counter, path, before.next_node_stack.top, depth_in(counter, before));
        assert(depth_in(counter, after) == depth_in(counter, before) + effect(
            counter,
            path.items@[path.index as int],
        ));
    }
}

/// The counts lie between zero and their limits, before and after the
/// instruction the printer stands at.
proof fn lemma_bounds_at(state: PrinterState, path: PrintItemPath)
    requires
        context_ok(state),
        state.current_node == Some(path),
        path.index < path.items@.len(),
    ensures
        forall|counter: Counter|
            0 <= #[trigger] depth_in(counter, state) <= limit(counter) && 0 <= depth_in(counter, state) + effect(
                counter,
                path.items@[path.index as int],
            ) <= limit(counter),
{
    assert forall|counter: Counter|
        0 <= #[trigger] depth_in(counter, state) <= limit(counter) && 0 <= depth_in(counter, state) + effect(
            counter,
            path.items@[path.index as int],
        ) <= limit(counter) by {
        assert(chain_ok(counter, Some(path), state.next_node_stack.top, depth_in(counter, state)));
        lemma_chain_next(counter, path, state.next_node_stack.top, depth_in(counter, state));
    }
}

proof fn lemma_mark_possible_new_line(state: PrinterState, path: PrintItemPath)
    requires
        context_ok(state),
        state.current_node == Some(path),
        path.index < path.items@.len(),
        forall|counter: Counter| effect(counter, path.items@[path.index as int]) == 0,
        !state.skip_moving_next,
    ensures
        save_points_ok(state.mark_possible_new_line_if_able()),
        same_place(
            state,
            PrinterState {
                possible_new_line_save_point: state.possible_new_line_save_point,
                ..state.mark_possible_new_line_if_able()
            },
        ),
{
    assert(counted(state, state, path.items@[path.index as int]));
    lemma_counted(state, state, path);
    let save_point = state.create_save_point("newline", path.get_next());
    assert(save_point_ok(&save_point));
}

proof fn lemma_handle_string(state: PrinterState, path: PrintItemPath, text: &StringContainer)
    requires
        stands_at(state, path),
        path.items@[path.index as int] == PrintItem::String(*text),
    ensures
        handled_ok(state.handle_string(text), path),
{
    let after = state.handle_string(text);
    lemma_bounds_at(state, path);
    assert(depth_in(Counter::Indent, state) <= limit(Counter::Indent));
    if state.possible_new_line_save_point is Some && state.is_above_max_width(text.spec_char_count())
        && state.allow_new_lines() {
        let cleared = PrinterState { possible_new_line_save_point: None, ..state };
        lemma_update_state_to_save_point(cleared, state.possible_new_line_save_point.unwrap(), true);
    } else {
        lemma_writing_keeps_counts(state.writer, state.indent_width);
        assert(writer_counts(after.writer) == writer_counts(state.writer));
        assert forall|counter: Counter| #[trigger]
            depth_in(counter, after) == depth_in(counter, state) + effect(
                counter,
                path.items@[path.index as int],
            ) by {}
        lemma_counted(state, after, path);
    }
}

proof fn lemma_counted_handled(before: PrinterState, after: PrinterState, path: PrintItemPath)
    requires
        stands_at(before, path),
        save_points_ok(after),
        after.resolving_save_point is None,
        counted(before, after, path.items@[path.index as int]),
    ensures
        handled_ok(after, path),
{
    lemma_counted(before, after, path);
}

proof fn lemma_handle_space_or_new_line(state: PrinterState, path: PrintItemPath)
    requires
        stands_at(state, path),
        path.items@[path.index as int] == PrintItem::Signal(Signal::SpaceOrNewLine),
    ensures
        handled_ok(state.handle_space_or_new_line(), path),
{
    let item = path.items@[path.index as int];
    let after = state.handle_space_or_new_line();
    lemma_bounds_at(state, path);
    assert(depth_in(Counter::Indent, state) <= limit(Counter::Indent));
    lemma_writing_keeps_counts(state.writer, state.indent_width);
    if state.allow_new_lines() {
        if state.is_above_max_width(1) {
            let cleared = PrinterState { possible_new_line_save_point: None, ..state };
            match state.possible_new_line_save_point {
                None => {
                    assert(counted(state, after, item));
                    lemma_counted_handled(state, after, path);
                },
                Some(save_point) => {
                    if save_point.new_line_group_depth > state.new_line_group_depth {
                        assert(counted(state, after, item));
                        lemma_counted_handled(state, after, path);
                    } else {
                        lemma_update_state_to_save_point(cleared, save_point, true);
                    }
                },
            }
        } else {
            lemma_mark_possible_new_line(state, path);
            let marked = state.mark_possible_new_line_if_able();
            assert(marked.writer == state.writer);
            assert(counted(state, after, item));
            lemma_counted_handled(state, after, path);
        }
    } else {
        assert(counted(state, after, item));
        lemma_counted_handled(state, after, path);
    }
}

proof fn lemma_handle_signal(state: PrinterState, path: PrintItemPath, signal: Signal)
    requires
        stands_at(state, path),
        path.items@[path.index as int] == PrintItem::Signal(signal),
    ensures
        handled_ok(state.handle_signal(signal), path),
{
    let item = path.items@[path.index as int];
    let after = state.handle_signal(signal);
    lemma_bounds_at(state, path);
    assert(0 <= depth_in(Counter::Indent, state) + effect(Counter::Indent, item) <= limit(Counter::Indent));
    assert(0 <= depth_in(Counter::NewLineGroup, state) + effect(Counter::NewLineGroup, item) <= limit(
        Counter::NewLineGroup,
    ));
    assert(0 <= depth_in(Counter::ForceNoNewLines, state) + effect(Counter::ForceNoNewLines, item) <= limit(
        Counter::ForceNoNewLines,
    ));
    assert(0 <= depth_in(Counter::IgnoreIndent, state) + effect(Counter::IgnoreIndent, item) <= limit(
        Counter::IgnoreIndent,
    ));
    assert(0 <= depth_in(Counter::Indent, state) <= limit(Counter::Indent));
    lemma_writing_keeps_counts(state.writer, state.indent_width);
    match signal {
        Signal::SpaceOrNewLine => {
            lemma_handle_space_or_new_line(state, path);
        },
        Signal::PossibleNewLine => {
            if state.allow_new_lines() {
                lemma_mark_possible_new_line(state, path);
            }
            assert(counted(state, after, item));
            lemma_counted_handled(state, after, path);
        },
        _ => {
            assert forall|counter: Counter| #[trigger]
                depth_in(counter, after) == depth_in(counter, state) + effect(counter, item) by {
                match counter {
                    Counter::Indent => {},
                    Counter::NewLineGroup => {},
                    Counter::ForceNoNewLines => {},
                    Counter::IgnoreIndent => {},
                }
            }
            assert(counted(state, after, item));
            lemma_counted_handled(state, after, path);
        },
    }
}

/// Whether each of the entries holds a save point fit to go back to.
pub open spec fn entries_ok(entries: Seq<ConditionEntry>) -> bool {
    forall|index: int| 0 <= index < entries.len() ==> save_point_ok((#[trigger] entries[index]).save_point)
}

proof fn lemma_reevaluate_conditions(
    state: PrinterState,
    path: PrintItemPath,
    entries: Seq<ConditionEntry>,
    from: int,
)
    requires
        context_ok(state),
        state.current_node == Some(path),
        path.index < path.items@.len(),
        forall|counter: Counter| effect(counter, path.items@[path.index as int]) == 0,
        !state.skip_moving_next,
        state.resolving_save_point is None,
        entries_ok(entries),
        0 <= from,
    ensures
        handled_ok(state.reevaluate_conditions(entries, from), path),
    decreases entries.len() - from,
{
    let item = path.items@[path.index as int];
    if from >= entries.len() {
        assert(counted(state, state, item));
        lemma_counted(state, state, path);
    } else {
        let entry = entries[from];
        let stored = if state.resolved_conditions.contains_key(entry.condition_id) {
            Some(state.resolved_conditions[entry.condition_id])
        } else {
            None
        };
        let asking = PrinterState { resolving_save_point: Some(entry.save_point), ..state };
        assert(context_ok(asking));
        let writer_info = entry.save_point.writer_state.writer_info(state.indent_width);
        lemma_resolve(asking, entry.condition.condition, writer_info);
        let (value, asked) = asking.resolve(entry.condition.condition, writer_info);
        let done = PrinterState { resolving_save_point: None, ..asked };
        assert(context_ok(done));
        match value {
            Some(value) => {
                if stored != Some(value) {
                    lemma_update_state_to_save_point(done, entry.save_point, false);
                } else {
                    lemma_reevaluate_conditions(done, path, entries, from + 1);
                }
            },
            None => {
                let forgotten = PrinterState {
                    resolved_conditions: done.resolved_conditions.remove(entry.condition_id),
                    ..done
                };
                assert(context_ok(forgotten));
                lemma_reevaluate_conditions(forgotten, path, entries, from + 1);
            },
        }
    }
}

proof fn lemma_handle_info(state: PrinterState, path: PrintItemPath, info: Info)
    requires
        stands_at(state, path),
        path.items@[path.index as int] == PrintItem::Info(info),
    ensures
        handled_ok(state.handle_info(info), path),
{
    let noted = PrinterState {
        resolved_infos: state.resolved_infos.insert(info.id, state.writer_info()),
        look_ahead_info_save_points: state.look_ahead_info_save_points.removed(info.id),
        ..state
    };
    assert(context_ok(noted));
    if noted.conditions_for_infos.contains_key(info.id) {
        let entries = noted.conditions_for_infos[info.id];
        assert(entries_ok(entries));
        lemma_reevaluate_conditions(noted, path, entries, 0);
    } else {
        assert(counted(state, noted, path.items@[path.index as int]));
        lemma_counted(state, noted, path);
    }
}

proof fn lemma_entry_index(entries: Seq<ConditionEntry>, condition_id: usize, from: int)
    requires
        0 <= from,
    ensures
        from <= entry_index(entries, condition_id, from) || entry_index(entries, condition_id, from)
            == entries.len(),
        0 <= entry_index(entries, condition_id, from) <= entries.len(),
    decreases entries.len() - from,
{
    if from < entries.len() && entries[from].condition_id != condition_id {
        lemma_entry_index(entries, condition_id, from + 1);
    }
}

proof fn lemma_with_entry(entries: Seq<ConditionEntry>, entry: ConditionEntry)
    requires
        entries_ok(entries),
        save_point_ok(entry.save_point),
    ensures
        entries_ok(with_entry(entries, entry)),
{
    let index = entry_index(entries, entry.condition_id, 0);
    lemma_entry_index(entries, entry.condition_id, 0);
    let updated = with_entry(entries, entry);
    assert forall|i: int| 0 <= i < updated.len() implies save_point_ok((#[trigger] updated[i]).save_point) by {
        if index < entries.len() {
            if i != index {
                assert(updated[i] == entries[i]);
            }
        } else {
            if i < entries.len() {
                assert(updated[i] == entries[i]);
            }
        }
    }
}

proof fn lemma_register_dependent_infos(state: PrinterState, condition: &Condition, infos: Seq<Info>, from: int)
    requires
        context_ok(state),
        0 <= from,
    ensures
        context_ok(state.register_dependent_infos(condition, infos, from)),
        same_place(
            state,
            PrinterState {
                conditions_for_infos: state.conditions_for_infos,
                ..state.register_dependent_infos(condition, infos, from)
            },
        ),
        state.register_dependent_infos(condition, infos, from).look_ahead_condition_save_points
            == state.look_ahead_condition_save_points,
        state.register_dependent_infos(condition, infos, from).look_ahead_info_save_points
            == state.look_ahead_info_save_points,
    decreases infos.len() - from,
{
    if from >= infos.len() {
    } else {
        lemma_save_point_for_restoring(state, condition.name);
        let entry = ConditionEntry {
            condition_id: condition.id,
            condition,
            save_point: state.save_point_for_restoring_condition(condition.name),
        };
        let info_id = infos[from].id;
        let entries = if state.conditions_for_infos.contains_key(info_id) {
            state.conditions_for_infos[info_id]
        } else {
            Seq::empty()
        };
        assert(entries_ok(entries));
        lemma_with_entry(entries, entry);
        let registered = PrinterState {
            conditions_for_infos: state.conditions_for_infos.insert(info_id, with_entry(entries, entry)),
            ..state
        };
        assert(save_points_ok(registered)) by {
            assert forall|id: usize, index: int|
                registered.conditions_for_infos.contains_key(id) && 0 <= index
                    < registered.conditions_for_infos[id].len() implies save_point_ok(
                (#[trigger] registered.conditions_for_infos[id][index]).save_point,
            ) by {
                if id == info_id {
                    assert(entries_ok(registered.conditions_for_infos[id]));
                } else {
                    assert(registered.conditions_for_infos[id] == state.conditions_for_infos[id]);
                }
            }
        }
        lemma_register_dependent_infos(registered, condition, infos, from + 1);
    }
}

proof fn lemma_enter<'a>(state: PrinterState<'a>, path: PrintItemPath<'a>, entered: &'a PrintItems)
    requires
        context_ok(state),
        state.current_node == Some(path),
        path.index < path.items@.len(),
        match path.items@[path.index as int] {
            PrintItem::Condition(condition) => condition.true_path == Some(*entered) || condition.false_path
                == Some(*entered),
            PrintItem::RcPath(shared) => *shared == *entered,
            _ => false,
        },
    ensures
        counts_ok(
            PrinterState {
                current_node: entered.spec_first_node(),
                next_node_stack: state.next_node_stack.pushed(path.get_next()),
                skip_moving_next: true,
                ..state
            },
        ),
{
    let after = PrinterState {
        current_node: entered.spec_first_node(),
        next_node_stack: state.next_node_stack.pushed(path.get_next()),
        skip_moving_next: true,
        ..state
    };
    assert forall|counter: Counter|
        chain_ok(
            counter,
            after.current_node,
            after.next_node_stack.top,
            #[trigger] depth_of(counter, after.new_line_group_depth, after.force_no_newlines_depth, after.writer),
        ) by {
        assert(chain_ok(counter, Some(path), state.next_node_stack.top, depth_in(counter, state)));
        lemma_chain_enter(counter, path, state.next_node_stack.top, depth_in(counter, state), entered);
    }
}

proof fn lemma_enter_path<'a>(
    state: PrinterState<'a>,
    path: PrintItemPath<'a>,
    items: Option<&'a PrintItems>,
)
    requires
        context_ok(state),
        state.current_node == Some(path),
        path.index < path.items@.len(),
        !state.skip_moving_next,
        state.resolving_save_point is None,
        path.items@[path.index as int] matches PrintItem::Condition(condition) && (items matches Some(entered)
            ==> condition.true_path == Some(*entered) || condition.false_path == Some(*entered)),
    ensures
        handled_ok(state.enter_path(items, path.get_next()), path),
{
    let item = path.items@[path.index as int];
    match items {
        Some(entered) => {
            match entered.spec_first_node() {
                Some(first) => {
                    lemma_enter(state, path, entered);
                },
                None => {
                    assert(counted(state, state, item));
                    lemma_counted(state, state, path);
                },
            }
        },
        None => {
            assert(counted(state, state, item));
            lemma_counted(state, state, path);
        },
    }
}

proof fn lemma_handle_condition<'a>(state: PrinterState<'a>, path: PrintItemPath<'a>, condition: &'a Condition)
    requires
        stands_at(state, path),
        path.items@[path.index as int] == PrintItem::Condition(*condition),
    ensures
        handled_ok(state.handle_condition(condition, path.get_next()), path),
{
    let next_node = path.get_next();
    let registered = match condition.dependent_infos {
        Some(infos) => state.register_dependent_infos(condition, infos@, 0),
        None => state,
    };
    if condition.dependent_infos is Some {
        lemma_register_dependent_infos(state, condition, condition.dependent_infos.unwrap()@, 0);
    }
    assert(context_ok(registered));
    lemma_resolve(registered, condition.condition, registered.writer_info());
    let (value, asked) = registered.resolve(condition.condition, registered.writer_info());
    let stored = if condition.is_stored {
        PrinterState {
            resolved_conditions: match value {
                Some(value) => asked.resolved_conditions.insert(condition.id, value),
                None => asked.resolved_conditions.remove(condition.id),
            },
            ..asked
        }
    } else {
        asked
    };
    assert(context_ok(stored));
    let waiting = stored.look_ahead_condition_save_points.get(condition.id);
    if value is Some && waiting is Some {
        lemma_changes_get(stored.look_ahead_condition_save_points.head, condition.id);
        let taken = PrinterState {
            look_ahead_condition_save_points: stored.look_ahead_condition_save_points.removed(condition.id),
            ..stored
        };
        assert(save_points_ok(taken));
        lemma_update_state_to_save_point(taken, waiting.unwrap(), false);
    } else if value == Some(true) {
        let items: Option<&PrintItems> = match condition.true_path {
            Some(items) => Some(&items),
            None => None,
        };
        lemma_enter_path(stored, path, items);
    } else {
        let items: Option<&PrintItems> = match condition.false_path {
            Some(items) => Some(&items),
            None => None,
        };
        lemma_enter_path(stored, path, items);
    }
}

proof fn lemma_handle_rc_path<'a>(state: PrinterState<'a>, path: PrintItemPath<'a>, shared: &'a Rc<PrintItems>)
    requires
        stands_at(state, path),
        path.items@[path.index as int] == PrintItem::RcPath(*shared),
    ensures
        handled_ok(state.handle_rc_path(shared, path.get_next()), path),
{
    lemma_enter(state, path, &**shared);
}

proof fn lemma_handle_print_node<'a>(state: PrinterState<'a>, path: PrintItemPath<'a>, item: &'a PrintItem)
    requires
        stands_at(state, path),
        path.items@[path.index as int] == *item,
    ensures
        handled_ok(state.handle_print_node(item, path.get_next()), path),
{
    match item {
        PrintItem::String(text) => lemma_handle_string(state, path, text),
        PrintItem::Condition(condition) => lemma_handle_condition(state, path, condition),
        PrintItem::Info(info) => lemma_handle_info(state, path, *info),
        PrintItem::Signal(signal) => lemma_handle_signal(state, path, *signal),
        PrintItem::RcPath(shared) => lemma_handle_rc_path(state, path, shared),
    }
}

/// One step of the printer keeps the counts fitting the place.
pub proof fn lemma_step_keeps_balance(state: PrinterState)
    requires
        state_ok(state),
    ensures
        state_ok(state.step()),
{
    match state.current_node {
        None => {},
        Some(path) => {
            match path.get_item() {
                Some(item) => {
                    lemma_handle_print_node(state, path, item);
                    lemma_advance(state.handle_print_node(item, path.get_next()), path);
                },
                None => {
                    let ended = PrinterState { current_node: None, ..state };
                    assert forall|counter: Counter|
                        chain_ok(
                            counter,
                            ended.current_node,
                            ended.next_node_stack.top,
                            #[trigger] depth_of(
                                counter,
                                ended.new_line_group_depth,
                                ended.force_no_newlines_depth,
                                ended.writer,
                            ),
                        ) by {
                        assert(chain_ok(counter, Some(path), state.next_node_stack.top, depth_in(counter, state)));
                        assert(path.index == path.items@.len());
                    }
                    lemma_resume(ended);
                },
            }
        },
    }
}

/// Any number of steps keeps the counts fitting the place.
pub proof fn lemma_run_keeps_balance(state: PrinterState, steps: nat)
    requires
        state_ok(state),
    ensures
        state_ok(state.run(steps)),
    decreases steps,
{
    if steps == 0 || state.current_node is None {
    } else {
        lemma_step_keeps_balance(state);
        lemma_run_keeps_balance(state.step(), (steps - 1) as nat);
    }
}

/// When the printer has come to the end, counts that fit are zero.
pub proof fn lemma_balanced_at_end(state: PrinterState)
    requires
        state_ok(state),
        state.current_node is None,
    ensures
        state.new_line_group_depth == 0,
        state.force_no_newlines_depth == 0,
        state.writer.indent_level == 0,
        state.writer.indent_queue_count == 0,
        state.writer.ignore_indent_count == 0,
        state.counts_error() is None,
{
    assert(chain_ok(Counter::Indent, None, None, depth_in(Counter::Indent, state)));
    assert(chain_ok(Counter::NewLineGroup, None, None, depth_in(Counter::NewLineGroup, state)));
    assert(chain_ok(Counter::ForceNoNewLines, None, None, depth_in(Counter::ForceNoNewLines, state)));
    assert(chain_ok(Counter::IgnoreIndent, None, None, depth_in(Counter::IgnoreIndent, state)));
}

/// Before the first of balanced items, the counts fit the place.
pub proof fn lemma_balanced_start(start_node: Option<PrintItemPath>, max_width: u32, indent_width: u8)
    requires
        start_node matches Some(path) ==> path.index == 0 && is_well_balanced(*path.items),
    ensures
        state_ok(PrinterState::initial(start_node, max_width, indent_width)),
{
    let start = PrinterState::initial(start_node, max_width, indent_width);
    assert forall|counter: Counter|
        chain_ok(
            counter,
            start.current_node,
            start.next_node_stack.top,
            #[trigger] depth_of(counter, start.new_line_group_depth, start.force_no_newlines_depth, start.writer),
        ) by {
        if let Some(path) = start_node {
            assert(is_balanced(counter, *path.items, 0));
            assert(balance(counter, path.items@, 0) == 0);
        }
    }
}

/// Printing balanced items: whatever the conditions resolve to and however
/// often the printer goes back, after every step each count is what the
/// signals on the way to the current instruction add up to, between zero
/// and its limit; and when the printer has come to the end, all counts
/// are zero.
pub proof fn lemma_balanced_items_print_balanced(items: &PrintItems, max_width: u32, indent_width: u8, steps: nat)
    requires
        is_well_balanced(*items),
    ensures
        state_ok(PrinterState::initial(items.spec_first_node(), max_width, indent_width).run(steps)),
        PrinterState::initial(items.spec_first_node(), max_width, indent_width).run(steps).current_node is None
            ==> PrinterState::initial(items.spec_first_node(), max_width, indent_width).run(
            steps,
        ).counts_error() is None,
{
    let start = PrinterState::initial(items.spec_first_node(), max_width, indent_width);
    lemma_balanced_start(items.spec_first_node(), max_width, indent_width);
    lemma_run_keeps_balance(start, steps);
    if start.run(steps).current_node is None {
        lemma_balanced_at_end(start.run(steps));
    }
}

proof fn lemma_balance_between(
    counter: Counter,
    inner: Seq<PrintItem>,
    outer: Seq<PrintItem>,
    before: Signal,
    after: Signal,
    count: int,
)
    requires
        outer == seq![PrintItem::Signal(before)] + inner + seq![PrintItem::Signal(after)],
        0 <= count <= inner.len(),
    ensures
        balance(counter, outer, count + 1) == signal_effect(counter, before) + balance(counter, inner, count),
    decreases count,
{
    if count == 0 {
        assert(balance(counter, outer, 1) == balance(counter, outer, 0) + effect(counter, outer[0]));
    } else {
        lemma_balance_between(counter, inner, outer, before, after, count - 1);
        assert(outer[count] == inner[count - 1]);
    }
}

/// Items between a signal that raises a counter and one that lowers it
/// are balanced where the items between are balanced one higher; so are
/// items between two signals that leave the counter alone.
pub proof fn lemma_surrounded_is_balanced(
    counter: Counter,
    inner: PrintItems,
    outer: PrintItems,
    before: Signal,
    after: Signal,
    base: int,
)
    requires
        outer@ == super::parser_helpers::surrounded(inner@, before, after),
        signal_effect(counter, before) + signal_effect(counter, after) == 0,
        is_balanced(counter, inner, base + signal_effect(counter, before)),
        0 <= base <= limit(counter),
    ensures
        is_balanced(counter, outer, base),
{
    let raised = signal_effect(counter, before);
    if inner@.len() == 0 {
        assert(balance(counter, outer@, 0) == 0);
    } else {
        let length = inner@.len() as int;
        assert(outer@.len() == length + 2);
        assert forall|count: int| 0 <= count <= outer@.len() implies 0 <= base + #[trigger] balance(
            counter,
            outer@,
            count,
        ) <= limit(counter) by {
            if count == 0 {
            } else if count <= length + 1 {
                lemma_balance_between(counter, inner@, outer@, before, after, count - 1);
                assert(0 <= base + raised + balance(counter, inner@, count - 1) <= limit(counter));
            } else {
                lemma_balance_between(counter, inner@, outer@, before, after, length);
                assert(outer@[length + 1] == PrintItem::Signal(after));
                assert(balance(counter, outer@, length + 2) == balance(counter, outer@, length + 1) + effect(
                    counter,
                    outer@[length + 1],
                ));
            }
        }
        assert(balance(counter, outer@, outer@.len() as int) == 0) by {
            lemma_balance_between(counter, inner@, outer@, before, after, length);
            assert(outer@[length + 1] == PrintItem::Signal(after));
            assert(balance(counter, outer@, length + 2) == balance(counter, outer@, length + 1) + effect(
                counter,
                outer@[length + 1],
            ));
        }
        assert forall|index: int| 0 <= index < outer@.len() implies match #[trigger] outer@[index] {
            PrintItem::Condition(condition) => {
                &&& condition.true_path matches Some(path) ==> is_balanced(
                    counter,
                    path,
                    base + balance(counter, outer@, index),
                )
                &&& condition.false_path matches Some(path) ==> is_balanced(
                    counter,
                    path,
                    base + balance(counter, outer@, index),
                )
            },
            PrintItem::RcPath(path) => is_balanced(counter, *path, base + balance(counter, outer@, index)),
            _ => true,
        } by {
            if 1 <= index <= length {
                lemma_balance_between(counter, inner@, outer@, before, after, index - 1);
                assert(outer@[index] == inner@[index - 1]);
            } else if index == 0 {
                assert(outer@[0] == PrintItem::Signal(before));
            } else {
                assert(outer@[index] == PrintItem::Signal(after));
            }
        }
    }
}

/// Whether the item is text or a signal that raises no counter.
pub open spec fn is_plain_item(item: PrintItem) -> bool {
    match item {
        PrintItem::String(_) => true,
        PrintItem::Info(_) => true,
        PrintItem::Signal(signal) => forall|counter: Counter| signal_effect(counter, signal) == 0,
        _ => false,
    }
}

proof fn lemma_plain_balance(counter: Counter, items: Seq<PrintItem>, count: int)
    requires
        forall|index: int| 0 <= index < items.len() ==> is_plain_item(#[trigger] items[index]),
        0 <= count <= items.len(),
    ensures
        balance(counter, items, count) == 0,
    decreases count,
{
    if count > 0 {
        lemma_plain_balance(counter, items, count - 1);
        assert(is_plain_item(items[count - 1]));
        match items[count - 1] {
            PrintItem::Signal(signal) => {
                assert(signal_effect(counter, signal) == 0);
            },
            _ => {},
        }
    }
}

/// Text, markers and signals that raise no counter are balanced.
pub proof fn lemma_plain_items_are_balanced(counter: Counter, items: PrintItems, base: int)
    requires
        forall|index: int| 0 <= index < items@.len() ==> is_plain_item(#[trigger] items@[index]),
        0 <= base <= limit(counter),
    ensures
        is_balanced(counter, items, base),
{
    lemma_plain_balance(counter, items@, items@.len() as int);
    assert forall|count: int| 0 <= count <= items@.len() implies 0 <= base + #[trigger] balance(
        counter,
        items@,
        count,
    ) <= limit(counter) by {
        lemma_plain_balance(counter, items@, count);
    }
    assert forall|index: int| 0 <= index < items@.len() implies match #[trigger] items@[index] {
        PrintItem::Condition(condition) => false,
        PrintItem::RcPath(path) => false,
        _ => true,
    } by {
        assert(is_plain_item(items@[index]));
    }
}

} // verus!
