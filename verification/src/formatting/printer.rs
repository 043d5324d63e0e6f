use super::arena::alloc_in;
use super::balance::{
    is_well_balanced, lemma_balanced_at_end, lemma_balanced_start, lemma_run_keeps_balance, state_ok,
};
use super::clock::{nanos_since, start_clock};
use super::fnv_map::{map_contains_key, map_get, map_insert, map_remove, new_map, IdMap};
use super::print_items::{
    Condition, ConditionReference, ConditionResolver, Info, PrintItem, PrintItemPath, PrintItems, Signal,
    StringContainer, WriterInfo,
};
use super::printer_state::{PrintError, PrinterState};
use super::save_point::{put_entry, with_entry, ConditionEntry, PathStack, SavePoint, SavePointMap};
use super::writer::{all_text_is_plain, nodes_view, GraphNode, WriteItem, Writer, WriterOptions};
use bumpalo::Bump;
use std::rc::Rc;
use vstd::prelude::*;

verus! {

/// Options for printing.
pub struct PrinterOptions {
    /// The width the printer will attempt to keep the line under.
    pub max_width: u32,
    /// The number of columns to count when indenting or using a tab.
    pub indent_width: u8,
}

/// What the printer did in one step.
pub struct Trace<'a> {
    /// The time since printing started, in nanoseconds.
    pub nanos: u128,
    /// The instruction that was handled.
    pub print_node: PrintItemPath<'a>,
    /// The node written last when the instruction was handled.
    pub writer_node: Option<&'a GraphNode<'a>>,
}

/// The steps of the printer, with all that it has written.
pub struct PrintTracingResult<'a> {
    pub traces: Vec<Trace<'a>>,
    pub writer_nodes: Vec<&'a GraphNode<'a>>,
}

/// The number of instructions the printer handles before it gives up on a
/// program that sends it back and forth without end.
pub const STEP_LIMIT: u64 = 0xffff_ffff_ffff_ffff;

/// Walks the print items and decides where the lines break.
pub struct Printer<'a> {
    bump: &'a Bump,
    possible_new_line_save_point: Option<&'a SavePoint<'a>>,
    new_line_group_depth: u16,
    force_no_newlines_depth: u8,
    current_node: Option<PrintItemPath<'a>>,
    writer: Writer<'a>,
    resolved_conditions: IdMap<bool>,
    resolved_infos: IdMap<WriterInfo>,
    look_ahead_condition_save_points: SavePointMap<'a>,
    look_ahead_info_save_points: SavePointMap<'a>,
    next_node_stack: PathStack<'a>,
    conditions_for_infos: IdMap<Vec<ConditionEntry<'a>>>,
    max_width: u32,
    skip_moving_next: bool,
    resolving_save_point: Option<&'a SavePoint<'a>>,
    stored_info_positions: IdMap<(u32, u32)>,
}

impl<'a> View for Printer<'a> {
    type V = PrinterState<'a>;

    closed spec fn view(&self) -> PrinterState<'a> {
        PrinterState {
            possible_new_line_save_point: self.possible_new_line_save_point,
            new_line_group_depth: self.new_line_group_depth,
            force_no_newlines_depth: self.force_no_newlines_depth,
            current_node: self.current_node,
            writer: self.writer.state,
            indent_width: self.writer.indent_width,
            resolved_conditions: self.resolved_conditions@,
            resolved_infos: self.resolved_infos@,
            look_ahead_condition_save_points: self.look_ahead_condition_save_points,
            look_ahead_info_save_points: self.look_ahead_info_save_points,
            next_node_stack: self.next_node_stack,
            conditions_for_infos: Map::new(
                |id: usize| self.conditions_for_infos@.contains_key(id),
                |id: usize| self.conditions_for_infos@[id]@,
            ),
            max_width: self.max_width,
            skip_moving_next: self.skip_moving_next,
            resolving_save_point: self.resolving_save_point,
            stored_info_positions: self.stored_info_positions@,
        }
    }
}

/// One more step after `steps` steps is `steps + 1` steps.
pub proof fn lemma_run_step(state: PrinterState, steps: nat)
    ensures
        state.run(steps + 1) == state.run(steps).step(),
    decreases steps,
{
    if state.current_node is None {
    } else if steps == 0 {
        assert(state.run(1) == state.step().run(0));
    } else {
        lemma_run_step(state.step(), (steps - 1) as nat);
        assert(state.run(steps + 1) == state.step().run(steps));
        assert(state.run(steps) == state.step().run((steps - 1) as nat));
    }
}

/// A copy of `entries`.
fn copy_entries<'a>(entries: &Vec<ConditionEntry<'a>>) -> (copy: Vec<ConditionEntry<'a>>)
    ensures
        copy@ == entries@,
{
    let mut copy: Vec<ConditionEntry<'a>> = Vec::new();
    let mut index: usize = 0;
    while index < entries.len()
        invariant
            index <= entries@.len(),
            copy@ == entries@.take(index as int),
        decreases entries@.len() - index,
    {
        copy.push(entries[index]);
        index = index + 1;
        assert(copy@ =~= entries@.take(index as int));
    }
    assert(copy@ =~= entries@);
    copy
}

impl<'a> Printer<'a> {
    /// A printer that starts at `start_node` and allocates in `bump`.
    pub fn new(bump: &'a Bump, start_node: Option<PrintItemPath<'a>>, options: PrinterOptions) -> (printer: Printer<
        'a,
    >)
        ensures
            printer@ == PrinterState::initial(start_node, options.max_width, options.indent_width),
            (start_node matches Some(path) ==> path.index == 0 && is_well_balanced(*path.items)) ==> state_ok(
                printer@,
            ),
    {
        let printer = Printer {
            bump,
            possible_new_line_save_point: None,
            new_line_group_depth: 0,
            force_no_newlines_depth: 0,
            current_node: start_node,
            writer: Writer::new(bump, WriterOptions { indent_width: options.indent_width }),
            resolved_conditions: new_map(),
            resolved_infos: new_map(),
            look_ahead_condition_save_points: SavePointMap::new(),
            look_ahead_info_save_points: SavePointMap::new(),
            conditions_for_infos: new_map(),
            next_node_stack: PathStack::new(),
            max_width: options.max_width,
            skip_moving_next: false,
            resolving_save_point: None,
            stored_info_positions: new_map(),
        };
        assert(printer@.conditions_for_infos =~= Map::empty());
        proof {
            if start_node matches Some(path) ==> path.index == 0 && is_well_balanced(*path.items) {
                lemma_balanced_start(start_node, options.max_width, options.indent_width);
            }
        }
        printer
    }

    /// Turns the print items into write items: what `STEP_LIMIT` steps of
    /// the printer have written. No text among them holds a newline or a tab.
    pub fn print(self) -> (items: Vec<WriteItem<'a>>)
        ensures
            items@ == self@.run(STEP_LIMIT as nat).written(),
            all_text_is_plain(items@),
    {
        let mut printer = self;
        printer.inner_print(STEP_LIMIT);
        printer.writer.get_items()
    }

    /// Turns the print items into write items and records every step: the
    /// instruction it handled and the node written last after it.
    pub fn print_for_tracing(self) -> (result: PrintTracingResult<'a>)
        ensures
            result.traces@.len() <= STEP_LIMIT,
            self@.run(result.traces@.len()) == self@.run(STEP_LIMIT as nat),
            result.traces@.len() < STEP_LIMIT ==> self@.run(STEP_LIMIT as nat).current_node is None,
            forall|step: int|
                0 <= step < result.traces@.len() ==> self@.run(step as nat).current_node == Some(
                    (#[trigger] result.traces@[step]).print_node,
                ) && result.traces@[step].writer_node == self@.run((step + 1) as nat).writer.items,
            result.writer_nodes@ == nodes_view(self@.run(STEP_LIMIT as nat).writer.items),
    {
        let mut printer = self;
        let start_time = start_clock();
        let mut traces: Vec<Trace<'a>> = Vec::new();
        let mut steps: u64 = STEP_LIMIT;
        while steps > 0 && printer.current_node.is_some()
            invariant
                traces@.len() + steps == STEP_LIMIT,
                printer@ == self@.run(traces@.len()),
                printer@.run(steps as nat) == self@.run(STEP_LIMIT as nat),
                forall|step: int|
                    0 <= step < traces@.len() ==> self@.run(step as nat).current_node == Some(
                        (#[trigger] traces@[step]).print_node,
                    ) && traces@[step].writer_node == self@.run((step + 1) as nat).writer.items,
            decreases steps,
        {
            let print_node = printer.current_node.unwrap();
            proof {
                lemma_run_step(self@, traces@.len());
            }
            printer.step();
            traces.push(
                Trace { nanos: nanos_since(&start_time), print_node, writer_node: printer.writer.get_current_node() },
            );
            steps = steps - 1;
        }
        PrintTracingResult { traces, writer_nodes: printer.writer.get_nodes() }
    }

    /// Turns the print items into write items, and refuses print items
    /// that lead the printer to a state that well-formed ones never lead to.
    /// A printer that was made for balanced items never ends with a count
    /// that is not zero.
    pub fn print_checked(self) -> (result: Result<Vec<WriteItem<'a>>, PrintError>)
        ensures
            match result {
                Ok(items) => self@.run(STEP_LIMIT as nat).is_end_error(None) && items@ == self@.run(
                    STEP_LIMIT as nat,
                ).written() && all_text_is_plain(items@),
                Err(error) => self@.run(STEP_LIMIT as nat).is_end_error(Some(error)),
            },
            state_ok(self@) && result is Err ==> result.unwrap_err() is StepLimitReached
                || result.unwrap_err() is LookAheadNeverResolved,
    {
        self.print_within(STEP_LIMIT)
    }

    /// As `print_checked`, but the printer gives up after `max_steps`
    /// steps.
    pub fn print_within(self, max_steps: u64) -> (result: Result<Vec<WriteItem<'a>>, PrintError>)
        ensures
            match result {
                Ok(items) => self@.run(max_steps as nat).is_end_error(None) && items@ == self@.run(
                    max_steps as nat,
                ).written() && all_text_is_plain(items@),
                Err(error) => self@.run(max_steps as nat).is_end_error(Some(error)),
            },
            state_ok(self@) && result is Err ==> result.unwrap_err() is StepLimitReached
                || result.unwrap_err() is LookAheadNeverResolved,
    {
        let mut printer = self;
        printer.inner_print(max_steps);
        proof {
            if state_ok(self@) {
                lemma_run_keeps_balance(self@, max_steps as nat);
                if printer@.current_node is None {
                    lemma_balanced_at_end(printer@);
                }
            }
        }
        if printer.current_node.is_some() {
            return Err(PrintError::StepLimitReached);
        }
        if let Err(error) = printer.verify_no_look_ahead_save_points() {
            return Err(error);
        }
        if let Err(error) = printer.ensure_counts_zero() {
            return Err(error);
        }
        Ok(printer.writer.get_items())
    }

    /// Whether nothing is waited for any more. Something is when a
    /// condition asked for a marker or a condition that never came.
    pub fn verify_no_look_ahead_save_points(&self) -> (result: Result<(), PrintError>)
        ensures
            result is Ok <==> !self@.has_look_ahead(),
            result matches Err(error) ==> error matches PrintError::LookAheadNeverResolved(name)
                && self@.is_waiting_for(name),
    {
        if let Some(save_point) = self.look_ahead_condition_save_points.get_any_item() {
            proof {
                let id = choose|id: usize|
                    self.look_ahead_condition_save_points.spec_get(id) == Some(save_point);
                assert(self@.look_ahead_condition_save_points.spec_get(id) == Some(save_point));
            }
            return Err(PrintError::LookAheadNeverResolved(save_point.name));
        }
        if let Some(save_point) = self.look_ahead_info_save_points.get_any_item() {
            proof {
                let id = choose|id: usize| self.look_ahead_info_save_points.spec_get(id) == Some(save_point);
                assert(self@.look_ahead_info_save_points.spec_get(id) == Some(save_point));
            }
            return Err(PrintError::LookAheadNeverResolved(save_point.name));
        }
        Ok(())
    }

    /// Whether everything that was started was finished.
    pub fn ensure_counts_zero(&self) -> (result: Result<(), PrintError>)
        ensures
            result == match self@.counts_error() {
                Some(error) => Err::<(), PrintError>(error),
                None => Ok(()),
            },
    {
        if self.new_line_group_depth != 0 {
            return Err(PrintError::NewLineGroupDepthNotZero(self.new_line_group_depth));
        }
        if self.force_no_newlines_depth != 0 {
            return Err(PrintError::ForceNoNewLinesDepthNotZero(self.force_no_newlines_depth));
        }
        if self.writer.get_indentation_level() != 0 {
            return Err(PrintError::IndentLevelNotZero(self.writer.get_indentation_level()));
        }
        if self.writer.get_ignore_indent_count() != 0 {
            return Err(PrintError::IgnoreIndentCountNotZero(self.writer.get_ignore_indent_count()));
        }
        Ok(())
    }

    fn inner_print(&mut self, max_steps: u64)
        ensures
            final(self)@ == old(self)@.run(max_steps as nat),
    {
        let mut steps: u64 = max_steps;
        while steps > 0 && self.current_node.is_some()
            invariant
                self@.run(steps as nat) == old(self)@.run(max_steps as nat),
            decreases steps,
        {
            self.step();
            steps = steps - 1;
        }
    }

    /// Handles the current instruction and moves on.
    fn step(&mut self)
        ensures
            final(self)@ == old(self)@.step(),
    {
        match self.current_node {
            None => {},
            Some(path) => match path.get_item() {
                Some(item) => {
                    self.handle_print_node(item, path.get_next());
                    self.advance();
                },
                None => {
                    self.current_node = None;
                    self.resume();
                },
            },
        }
    }

    fn advance(&mut self)
        ensures
            final(self)@ == old(self)@.advance(),
    {
        if self.skip_moving_next {
            self.skip_moving_next = false;
        } else if let Some(path) = self.current_node {
            self.current_node = path.get_next();
        }
        self.resume();
    }

    fn resume(&mut self)
        ensures
            final(self)@ == old(self)@.resume(),
    {
        while self.current_node.is_none() && !self.next_node_stack.is_empty()
            invariant
                self@.resume() == old(self)@.resume(),
            decreases self.next_node_stack@.len(),
        {
            if let Some(path) = self.next_node_stack.pop() {
                self.current_node = path;
            }
        }
    }

    pub fn get_writer_info(&self) -> (info: WriterInfo)
        ensures
            info == self@.writer_info(),
    {
        self.writer.state.get_writer_info(self.writer.indent_width)
    }

    /// Where the marker was when the printer last passed it. When that is
    /// not known, the printer notes that the marker is waited for.
    pub fn get_resolved_info(&mut self, info: &Info) -> (resolved: Option<WriterInfo>)
        ensures
            (resolved, final(self)@) == old(self)@.get_resolved_info(*info),
    {
        let resolved = match map_get(&self.resolved_infos, info.id) {
            Some(writer_info) => Some(*writer_info),
            None => None,
        };
        if resolved.is_none() && !self.look_ahead_info_save_points.contains_key(info.id) {
            let save_point = self.get_save_point_for_restoring_condition(info.name);
            self.look_ahead_info_save_points.insert(self.bump, info.id, save_point);
        }
        resolved
    }

    /// Forgets where the marker was.
    pub fn clear_info(&mut self, info: &Info)
        ensures
            final(self)@ == old(self)@.clear_info(*info),
    {
        map_remove(&mut self.resolved_infos, info.id);
    }

    /// What the condition resolved to. When it has not been met yet, the
    /// printer notes where to go back to once it resolves.
    pub fn get_resolved_condition(&mut self, condition_reference: &ConditionReference) -> (resolved: Option<bool>)
        ensures
            (resolved, final(self)@) == old(self)@.get_resolved_condition(*condition_reference),
    {
        let stored = match map_get(&self.resolved_conditions, condition_reference.id) {
            Some(value) => Some(*value),
            None => None,
        };
        match stored {
            Some(value) => Some(value),
            None => {
                if !self.look_ahead_condition_save_points.contains_key(condition_reference.id) {
                    let save_point = self.get_save_point_for_restoring_condition(condition_reference.name);
                    self.look_ahead_condition_save_points.insert(self.bump, condition_reference.id, save_point);
                }
                None
            },
        }
    }

    /// Whether the marker is at another place than when this was last
    /// asked; `None` while its place is not known.
    pub fn has_info_moved(&mut self, info: &Info) -> (moved: Option<bool>)
        ensures
            (moved, final(self)@) == old(self)@.has_info_moved(*info),
    {
        let position = match self.get_resolved_info(info) {
            Some(writer_info) => writer_info.get_line_and_column(),
            None => {
                return None;
            },
        };
        let stored_position = match map_get(&self.stored_info_positions, info.id) {
            Some(stored) => Some(*stored),
            None => None,
        };
        if let Some(stored_position) = stored_position {
            if position.0 != stored_position.0 || position.1 != stored_position.1 {
                map_insert(&mut self.stored_info_positions, info.id, position);
                return Some(true);
            }
        } else {
            map_insert(&mut self.stored_info_positions, info.id, position);
        }
        Some(false)
    }

    fn is_multiple_lines(&mut self, start: &Info, end: &Info) -> (value: Option<bool>)
        ensures
            (value, final(self)@) == old(self)@.is_multiple_lines(*start, *end),
    {
        let start_info = match self.get_resolved_info(start) {
            Some(writer_info) => writer_info,
            None => {
                return None;
            },
        };
        let end_info = match self.get_resolved_info(end) {
            Some(writer_info) => writer_info,
            None => {
                return None;
            },
        };
        Some(end_info.line_number > start_info.line_number)
    }

    /// The answer to `resolver` for the position `writer_info`.
    pub fn resolve_condition(&mut self, resolver: &ConditionResolver, writer_info: &WriterInfo) -> (value: Option<
        bool,
    >)
        ensures
            (value, final(self)@) == old(self)@.resolve(*resolver, *writer_info),
    {
        match resolver {
            ConditionResolver::IsStartOfLine => Some(writer_info.is_start_of_line()),
            ConditionResolver::IsAboveWidth(width) => {
                let first_indent_column: u64 = (writer_info.line_start_column_number as u64) + (*width as u64);
                Some((writer_info.column_number as u64) > first_indent_column)
            },
            ConditionResolver::IsMultipleLines { start, end } => self.is_multiple_lines(start, end),
            ConditionResolver::IsMultipleLinesSinceMoved { start, end } => {
                match self.has_info_moved(start) {
                    None => None,
                    Some(moved) => {
                        if moved {
                            self.clear_info(end);
                        }
                        self.is_multiple_lines(start, end)
                    },
                }
            },
            ConditionResolver::IsConditionTrue(reference) => self.get_resolved_condition(reference),
        }
    }

    fn handle_print_node(&mut self, item: &'a PrintItem, next_node: Option<PrintItemPath<'a>>)
        ensures
            final(self)@ == old(self)@.handle_print_node(item, next_node),
    {
        match item {
            PrintItem::String(text) => self.handle_string(text),
            PrintItem::Condition(condition) => self.handle_condition(condition, next_node),
            PrintItem::Info(info) => self.handle_info(info),
            PrintItem::Signal(signal) => self.handle_signal(signal),
            PrintItem::RcPath(path) => self.handle_rc_path(path, next_node),
        }
    }

    fn write_new_line(&mut self)
        ensures
            final(self)@ == old(self)@.write_new_line(),
    {
        self.writer.new_line();
        self.possible_new_line_save_point = None;
    }

    fn create_save_point(&self, name: &'static str, next_node: Option<PrintItemPath<'a>>) -> (save_point: &'a SavePoint<
        'a,
    >)
        ensures
            *save_point == self@.create_save_point(name, next_node),
    {
        alloc_in(
            self.bump,
            SavePoint {
                name,
                possible_new_line_save_point: self.possible_new_line_save_point,
                new_line_group_depth: self.new_line_group_depth,
                force_no_newlines_depth: self.force_no_newlines_depth,
                node: next_node,
                writer_state: self.writer.get_state(),
                look_ahead_condition_save_points: self.look_ahead_condition_save_points.clone_map(),
                look_ahead_info_save_points: self.look_ahead_info_save_points.clone_map(),
                next_node_stack: self.next_node_stack,
            },
        )
    }

    fn get_save_point_for_restoring_condition(&self, name: &'static str) -> (save_point: &'a SavePoint<'a>)
        ensures
            save_point == self@.save_point_for_restoring_condition(name),
    {
        if let Some(save_point) = self.resolving_save_point {
            save_point
        } else {
            self.create_save_point(name, self.current_node)
        }
    }

    fn mark_possible_new_line_if_able(&mut self)
        ensures
            final(self)@ == old(self)@.mark_possible_new_line_if_able(),
    {
        if let Some(new_line_save_point) = self.possible_new_line_save_point {
            if self.new_line_group_depth > new_line_save_point.new_line_group_depth {
                return;
            }
        }
        let next_node = match self.current_node {
            Some(path) => path.get_next(),
            None => None,
        };
        self.possible_new_line_save_point = Some(self.create_save_point("newline", next_node));
    }

    fn is_above_max_width(&self, offset: u32) -> (above: bool)
        ensures
            above == self@.is_above_max_width(offset),
    {
        (self.writer.get_line_column() as u64) + (offset as u64) > (self.max_width as u64)
    }

    fn update_state_to_save_point(&mut self, save_point: &'a SavePoint<'a>, is_for_new_line: bool)
        ensures
            final(self)@ == old(self)@.update_state_to_save_point(save_point, is_for_new_line),
    {
        self.writer.set_state(save_point.writer_state);
        self.possible_new_line_save_point = if is_for_new_line {
            None
        } else {
            save_point.possible_new_line_save_point
        };
        self.current_node = save_point.node;
        self.new_line_group_depth = save_point.new_line_group_depth;
        self.force_no_newlines_depth = save_point.force_no_newlines_depth;
        self.look_ahead_condition_save_points.replace_map(save_point.look_ahead_condition_save_points.clone_map());
        self.look_ahead_info_save_points.replace_map(save_point.look_ahead_info_save_points.clone_map());
        self.next_node_stack = save_point.next_node_stack;
        if is_for_new_line {
            self.write_new_line();
        }
        self.skip_moving_next = true;
    }

    fn handle_space_or_new_line(&mut self)
        ensures
            final(self)@ == old(self)@.handle_space_or_new_line(),
    {
        if self.allow_new_lines() {
            if self.is_above_max_width(1) {
                let optional_save_state = self.possible_new_line_save_point;
                self.possible_new_line_save_point = None;
                match optional_save_state {
                    None => self.write_new_line(),
                    Some(save_state) => {
                        if save_state.new_line_group_depth > self.new_line_group_depth {
                            self.write_new_line();
                        } else {
                            self.update_state_to_save_point(save_state, true);
                        }
                    },
                }
            } else {
                self.mark_possible_new_line_if_able();
                self.writer.space_if_not_trailing();
            }
        } else {
            self.writer.space_if_not_trailing();
        }
    }

    fn handle_signal(&mut self, signal: &Signal)
        ensures
            final(self)@ == old(self)@.handle_signal(*signal),
    {
        match signal {
            Signal::NewLine => {
                if self.allow_new_lines() {
                    self.write_new_line()
                }
            },
            Signal::Tab => self.writer.tab(),
            Signal::ExpectNewLine => {
                self.writer.mark_expect_new_line();
                self.possible_new_line_save_point = None;
            },
            Signal::PossibleNewLine => {
                if self.allow_new_lines() {
                    self.mark_possible_new_line_if_able()
                }
            },
            Signal::SpaceOrNewLine => self.handle_space_or_new_line(),
            Signal::QueueStartIndent => self.writer.queue_indent(),
            Signal::StartIndent => self.writer.start_indent(),
            Signal::FinishIndent => self.writer.finish_indent(),
            Signal::StartNewLineGroup => {
                self.new_line_group_depth = self.new_line_group_depth.saturating_add(1);
            },
            Signal::FinishNewLineGroup => {
                self.new_line_group_depth = self.new_line_group_depth.saturating_sub(1);
            },
            Signal::SingleIndent => self.writer.single_indent(),
            Signal::StartIgnoringIndent => self.writer.start_ignoring_indent(),
            Signal::FinishIgnoringIndent => self.writer.finish_ignoring_indent(),
            Signal::StartForceNoNewLines => {
                self.force_no_newlines_depth = self.force_no_newlines_depth.saturating_add(1);
            },
            Signal::FinishForceNoNewLines => {
                self.force_no_newlines_depth = self.force_no_newlines_depth.saturating_sub(1);
            },
            Signal::SpaceIfNotTrailing => self.writer.space_if_not_trailing(),
        }
    }

    /// Asks the conditions that depend on the marker `info_id` again.
    fn reevaluate_conditions(&mut self, info_id: usize)
        requires
            old(self)@.conditions_for_infos.contains_key(info_id),
        ensures
            final(self)@ == old(self)@.reevaluate_conditions(old(self)@.conditions_for_infos[info_id], 0),
    {
        let entries = match map_get(&self.conditions_for_infos, info_id) {
            Some(entries) => copy_entries(entries),
            None => Vec::new(),
        };
        let mut index: usize = 0;
        while index < entries.len()
            invariant
                index <= entries@.len(),
                entries@ == old(self)@.conditions_for_infos[info_id],
                self@.reevaluate_conditions(entries@, index as int) == old(self)@.reevaluate_conditions(
                    entries@,
                    0,
                ),
            decreases entries@.len() - index,
        {
            let entry = entries[index];
            index = index + 1;
            let stored = match map_get(&self.resolved_conditions, entry.condition_id) {
                Some(value) => Some(*value),
                None => None,
            };
            self.resolving_save_point = Some(entry.save_point);
            let writer_info = entry.save_point.writer_state.get_writer_info(self.writer.get_indent_width());
            let value = self.resolve_condition(&entry.condition.condition, &writer_info);
            self.resolving_save_point = None;
            match value {
                Some(value) => {
                    let same = match stored {
                        Some(stored) => stored == value,
                        None => false,
                    };
                    if !same {
                        self.update_state_to_save_point(entry.save_point, false);
                        return;
                    }
                },
                None => {
                    map_remove(&mut self.resolved_conditions, entry.condition_id);
                },
            }
        }
    }

    fn handle_info(&mut self, info: &Info)
        ensures
            final(self)@ == old(self)@.handle_info(*info),
    {
        let info_id = info.get_unique_id();
        let writer_info = self.get_writer_info();
        map_insert(&mut self.resolved_infos, info_id, writer_info);
        self.look_ahead_info_save_points.remove(self.bump, info_id);
        if map_contains_key(&self.conditions_for_infos, info_id) {
            self.reevaluate_conditions(info_id);
        }
    }

    /// Notes for each marker the condition depends on that it does.
    fn register_dependent_infos(&mut self, condition: &'a Condition, infos: &Vec<Info>)
        ensures
            final(self)@ == old(self)@.register_dependent_infos(condition, infos@, 0),
    {
        let mut index: usize = 0;
        while index < infos.len()
            invariant
                index <= infos@.len(),
                self@.register_dependent_infos(condition, infos@, index as int) == old(
                    self,
                )@.register_dependent_infos(condition, infos@, 0),
            decreases infos@.len() - index,
        {
            let info_id = infos[index].get_unique_id();
            let save_point = self.get_save_point_for_restoring_condition(condition.get_name());
            let entry = ConditionEntry { condition_id: condition.get_unique_id(), condition, save_point };
            let ghost before = self@;
            let mut entries = match map_remove(&mut self.conditions_for_infos, info_id) {
                Some(entries) => entries,
                None => Vec::new(),
            };
            put_entry(&mut entries, entry);
            map_insert(&mut self.conditions_for_infos, info_id, entries);
            index = index + 1;
            assert(self@.conditions_for_infos =~= before.conditions_for_infos.insert(
                info_id,
                with_entry(
                    if before.conditions_for_infos.contains_key(info_id) {
                        before.conditions_for_infos[info_id]
                    } else {
                        Seq::empty()
                    },
                    entry,
                ),
            ));
        }
    }

    fn enter_path(&mut self, items: Option<&'a PrintItems>, next_node: Option<PrintItemPath<'a>>)
        ensures
            final(self)@ == old(self)@.enter_path(items, next_node),
    {
        if let Some(items) = items {
            if let Some(first) = items.first_node() {
                self.current_node = Some(first);
                self.next_node_stack.push(self.bump, next_node);
                self.skip_moving_next = true;
            }
        }
    }

    fn handle_condition(&mut self, condition: &'a Condition, next_node: Option<PrintItemPath<'a>>)
        ensures
            final(self)@ == old(self)@.handle_condition(condition, next_node),
    {
        let condition_id = condition.get_unique_id();
        if let Some(dependent_infos) = &condition.dependent_infos {
            self.register_dependent_infos(condition, dependent_infos);
        }
        let writer_info = self.get_writer_info();
        let condition_value = self.resolve_condition(&condition.condition, &writer_info);
        if condition.is_stored {
            match condition_value {
                Some(value) => map_insert(&mut self.resolved_conditions, condition_id, value),
                None => {
                    map_remove(&mut self.resolved_conditions, condition_id);
                },
            }
        }
        let save_point = self.look_ahead_condition_save_points.get(condition_id);
        if condition_value.is_some() && save_point.is_some() {
            self.look_ahead_condition_save_points.remove(self.bump, condition_id);
            self.update_state_to_save_point(save_point.unwrap(), false);
            return;
        }
        if condition_value.is_some() && condition_value.unwrap() {
            self.enter_path(condition.true_path.as_ref(), next_node);
        } else {
            self.enter_path(condition.false_path.as_ref(), next_node);
        }
    }

    fn handle_rc_path(&mut self, print_item_path: &'a Rc<PrintItems>, next_node: Option<PrintItemPath<'a>>)
        ensures
            final(self)@ == old(self)@.handle_rc_path(print_item_path, next_node),
    {
        self.next_node_stack.push(self.bump, next_node);
        self.current_node = print_item_path.first_node();
        self.skip_moving_next = true;
    }

    fn handle_string(&mut self, text: &'a StringContainer)
        ensures
            final(self)@ == old(self)@.handle_string(text),
    {
        if self.possible_new_line_save_point.is_some() && self.is_above_max_width(text.char_count())
            && self.allow_new_lines() {
            let save_point = self.possible_new_line_save_point;
            self.possible_new_line_save_point = None;
            self.update_state_to_save_point(save_point.unwrap(), true);
        } else {
            self.writer.write(text);
        }
    }

    fn allow_new_lines(&self) -> (allowed: bool)
        ensures
            allowed == self@.allow_new_lines(),
    {
        self.force_no_newlines_depth == 0
    }
}

} // verus!
