use super::print_items::{
    Condition, ConditionReference, ConditionResolver, Info, PrintItem, PrintItemPath, PrintItems, Signal,
    StringContainer, WriterInfo,
};
use super::save_point::{with_entry, ConditionEntry, PathStack, PathStackNode, SavePoint, SavePointMap};
use super::writer::{items_view, WriteItem, WriterState};
use std::rc::Rc;
use vstd::prelude::*;

verus! {

/// The printer as a value: what it knows between two instructions. The
/// functions on it say what each instruction does to it.
pub struct PrinterState<'a> {
    /// The latest place where the line may still be broken.
    pub possible_new_line_save_point: Option<&'a SavePoint<'a>>,
    pub new_line_group_depth: u16,
    pub force_no_newlines_depth: u8,
    pub current_node: Option<PrintItemPath<'a>>,
    pub writer: WriterState<'a>,
    pub indent_width: u8,
    /// What the stored conditions resolved to. A condition that did not
    /// resolve has no entry.
    pub resolved_conditions: Map<usize, bool>,
    /// Where the markers were when the printer last passed them.
    pub resolved_infos: Map<usize, WriterInfo>,
    /// Where to go back to once a condition that was asked for resolves.
    pub look_ahead_condition_save_points: SavePointMap<'a>,
    /// The markers that were asked for and not passed yet, each with the
    /// point at which it was asked for.
    pub look_ahead_info_save_points: SavePointMap<'a>,
    pub next_node_stack: PathStack<'a>,
    /// For each marker, the conditions to ask again when it is passed.
    pub conditions_for_infos: Map<usize, Seq<ConditionEntry<'a>>>,
    pub max_width: u32,
    pub skip_moving_next: bool,
    /// Set while a condition is asked again at a marker.
    pub resolving_save_point: Option<&'a SavePoint<'a>>,
    /// Where the markers were when a condition last asked whether they moved.
    pub stored_info_positions: Map<usize, (u32, u32)>,
}

/// What is wrong with the print items when the printer ends in a state
/// that well-formed print items never lead to.
#[derive(Debug, PartialEq, Eq)]
pub enum PrintError {
    /// The printer did not come to the end within its limit of steps.
    StepLimitReached,
    /// A condition asked for a marker or a condition that is not among the
    /// print items. This is the name of the one that was asked for.
    LookAheadNeverResolved(&'static str),
    /// More groups were started than finished.
    NewLineGroupDepthNotZero(u16),
    /// Line breaks were forbidden more often than allowed again.
    ForceNoNewLinesDepthNotZero(u8),
    /// More indents were started than finished.
    IndentLevelNotZero(u8),
    /// Indentation was switched off more often than on again.
    IgnoreIndentCountNotZero(u8),
}

pub open spec fn add_u16(a: u16, b: u16) -> u16 {
    if a + b > u16::MAX {
        u16::MAX
    } else {
        (a + b) as u16
    }
}

pub open spec fn sub_u16(a: u16, b: u16) -> u16 {
    if a < b {
        0
    } else {
        (a - b) as u16
    }
}

/// Whether a save point with this name is stored in the map.
pub open spec fn holds_name(map: SavePointMap, name: &'static str) -> bool {
    exists|id: usize| (#[trigger] map.spec_get(id)) is Some && map.spec_get(id).unwrap().name == name
}

/// The first entry of the stack that holds an instruction, and the
/// entries below it. Entries without an instruction are dropped.
pub open spec fn resume_from<'a>(top: Option<&'a PathStackNode<'a>>) -> (
    Option<PrintItemPath<'a>>,
    Option<&'a PathStackNode<'a>>,
)
    decreases top,
{
    match top {
        None => (None, None),
        Some(node) => match node.path {
            Some(path) => (Some(path), node.below),
            None => resume_from(node.below),
        },
    }
}

impl<'a> PrinterState<'a> {
    /// The printer before the first instruction.
    pub open spec fn initial(start_node: Option<PrintItemPath<'a>>, max_width: u32, indent_width: u8) -> PrinterState<
        'a,
    > {
        PrinterState {
            possible_new_line_save_point: None,
            new_line_group_depth: 0,
            force_no_newlines_depth: 0,
            current_node: start_node,
            writer: WriterState::initial(),
            indent_width,
            resolved_conditions: Map::empty(),
            resolved_infos: Map::empty(),
            look_ahead_condition_save_points: SavePointMap::empty(),
            look_ahead_info_save_points: SavePointMap::empty(),
            next_node_stack: PathStack::empty(),
            conditions_for_infos: Map::empty(),
            max_width,
            skip_moving_next: false,
            resolving_save_point: None,
            stored_info_positions: Map::empty(),
        }
    }

    pub open spec fn writer_info(self) -> WriterInfo {
        self.writer.writer_info(self.indent_width)
    }

    pub open spec fn allow_new_lines(self) -> bool {
        self.force_no_newlines_depth == 0
    }

    /// Whether something `offset` columns wide would end past the
    /// maximum width.
    pub open spec fn is_above_max_width(self, offset: u32) -> bool {
        self.writer.line_column(self.indent_width) + offset > self.max_width
    }

    pub open spec fn write_new_line(self) -> PrinterState<'a> {
        PrinterState { writer: self.writer.new_line(), possible_new_line_save_point: None, ..self }
    }

    /// The save point that brings the printer back to where it is, to go
    /// on with `next_node`.
    pub open spec fn create_save_point(self, name: &'static str, next_node: Option<PrintItemPath<'a>>) -> SavePoint<
        'a,
    > {
        SavePoint {
            name,
            possible_new_line_save_point: self.possible_new_line_save_point,
            new_line_group_depth: self.new_line_group_depth,
            force_no_newlines_depth: self.force_no_newlines_depth,
            node: next_node,
            writer_state: self.writer,
            look_ahead_condition_save_points: self.look_ahead_condition_save_points,
            look_ahead_info_save_points: self.look_ahead_info_save_points,
            next_node_stack: self.next_node_stack,
        }
    }

    /// The point to go back to when what is asked for becomes known: that
    /// of the condition being asked again, else the current instruction.
    pub open spec fn save_point_for_restoring_condition(self, name: &'static str) -> &'a SavePoint<'a> {
        match self.resolving_save_point {
            Some(save_point) => save_point,
            None => &self.create_save_point(name, self.current_node),
        }
    }

    /// Notes that the line may break after the current instruction, unless
    /// an earlier place in a shallower group is already noted.
    pub open spec fn mark_possible_new_line_if_able(self) -> PrinterState<'a> {
        if self.possible_new_line_save_point matches Some(save_point) && self.new_line_group_depth
            > save_point.new_line_group_depth {
            self
        } else {
            let next_node = match self.current_node {
                Some(path) => path.get_next(),
                None => None,
            };
            PrinterState {
                possible_new_line_save_point: Some(&self.create_save_point("newline", next_node)),
                ..self
            }
        }
    }

    /// The printer back at `save_point`; with `is_for_new_line`, after
    /// breaking the line there.
    pub open spec fn update_state_to_save_point(self, save_point: &'a SavePoint<'a>, is_for_new_line: bool) -> PrinterState<
        'a,
    > {
        let restored = PrinterState {
            writer: save_point.writer_state,
            possible_new_line_save_point: if is_for_new_line {
                None
            } else {
                save_point.possible_new_line_save_point
            },
            current_node: save_point.node,
            new_line_group_depth: save_point.new_line_group_depth,
            force_no_newlines_depth: save_point.force_no_newlines_depth,
            look_ahead_condition_save_points: save_point.look_ahead_condition_save_points,
            look_ahead_info_save_points: save_point.look_ahead_info_save_points,
            next_node_stack: save_point.next_node_stack,
            ..self
        };
        let broken = if is_for_new_line {
            restored.write_new_line()
        } else {
            restored
        };
        PrinterState { skip_moving_next: true, ..broken }
    }

    pub open spec fn with_writer(self, writer: WriterState<'a>) -> PrinterState<'a> {
        PrinterState { writer, ..self }
    }

    /// A space where the line is not too long yet; else a line break, at the
    /// noted place when that lies in a group that is not deeper than this one.
    pub open spec fn handle_space_or_new_line(self) -> PrinterState<'a> {
        if self.allow_new_lines() {
            if self.is_above_max_width(1) {
                let cleared = PrinterState { possible_new_line_save_point: None, ..self };
                match self.possible_new_line_save_point {
                    None => cleared.write_new_line(),
                    Some(save_point) => if save_point.new_line_group_depth > self.new_line_group_depth {
                        cleared.write_new_line()
                    } else {
                        cleared.update_state_to_save_point(save_point, true)
                    },
                }
            } else {
                let marked = self.mark_possible_new_line_if_able();
                marked.with_writer(marked.writer.space_if_not_trailing(self.indent_width))
            }
        } else {
            self.with_writer(self.writer.space_if_not_trailing(self.indent_width))
        }
    }

    pub open spec fn handle_signal(self, signal: Signal) -> PrinterState<'a> {
        match signal {
            Signal::NewLine => if self.allow_new_lines() {
                self.write_new_line()
            } else {
                self
            },
            Signal::Tab => self.with_writer(self.writer.tab(self.indent_width)),
            Signal::ExpectNewLine => PrinterState {
                writer: self.writer.mark_expect_new_line(),
                possible_new_line_save_point: None,
                ..self
            },
            Signal::PossibleNewLine => if self.allow_new_lines() {
                self.mark_possible_new_line_if_able()
            } else {
                self
            },
            Signal::SpaceOrNewLine => self.handle_space_or_new_line(),
            Signal::QueueStartIndent => self.with_writer(self.writer.queue_indent()),
            Signal::StartIndent => self.with_writer(self.writer.start_indent()),
            Signal::FinishIndent => self.with_writer(self.writer.finish_indent()),
            Signal::StartNewLineGroup => PrinterState {
                new_line_group_depth: add_u16(self.new_line_group_depth, 1),
                ..self
            },
            Signal::FinishNewLineGroup => PrinterState {
                new_line_group_depth: sub_u16(self.new_line_group_depth, 1),
                ..self
            },
            Signal::SingleIndent => self.with_writer(self.writer.single_indent(self.indent_width)),
            Signal::StartIgnoringIndent => self.with_writer(self.writer.start_ignoring_indent()),
            Signal::FinishIgnoringIndent => self.with_writer(self.writer.finish_ignoring_indent()),
            Signal::StartForceNoNewLines => PrinterState {
                force_no_newlines_depth: super::writer::add_u8(self.force_no_newlines_depth, 1),
                ..self
            },
            Signal::FinishForceNoNewLines => PrinterState {
                force_no_newlines_depth: super::writer::sub_u8(self.force_no_newlines_depth, 1),
                ..self
            },
            Signal::SpaceIfNotTrailing => self.with_writer(self.writer.space_if_not_trailing(self.indent_width)),
        }
    }

    /// Writes the text, unless it would end past the maximum width and the
    /// line can be broken at the noted place: then the printer goes back there.
    pub open spec fn handle_string(self, text: &'a StringContainer) -> PrinterState<'a> {
        if self.possible_new_line_save_point is Some && self.is_above_max_width(text.spec_char_count())
            && self.allow_new_lines() {
            (PrinterState { possible_new_line_save_point: None, ..self }).update_state_to_save_point(
                self.possible_new_line_save_point.unwrap(),
                true,
            )
        } else {
            self.with_writer(self.writer.write(text, self.indent_width))
        }
    }

    /// Where the marker was when the printer last passed it. When that is
    /// not known, the printer notes that the marker is waited for.
    pub open spec fn get_resolved_info(self, info: Info) -> (Option<WriterInfo>, PrinterState<'a>) {
        if self.resolved_infos.contains_key(info.id) {
            (Some(self.resolved_infos[info.id]), self)
        } else if self.look_ahead_info_save_points.contains_key(info.id) {
            (None, self)
        } else {
            let save_point = self.save_point_for_restoring_condition(info.name);
            (
                None,
                PrinterState {
                    look_ahead_info_save_points: self.look_ahead_info_save_points.inserted(info.id, save_point),
                    ..self
                },
            )
        }
    }

    /// Forgets where the marker was.
    pub open spec fn clear_info(self, info: Info) -> PrinterState<'a> {
        PrinterState { resolved_infos: self.resolved_infos.remove(info.id), ..self }
    }

    /// What the condition resolved to. When it has not been met yet, the
    /// printer notes where to go back to once it resolves.
    pub open spec fn get_resolved_condition(self, reference: ConditionReference) -> (
        Option<bool>,
        PrinterState<'a>,
    ) {
        if self.resolved_conditions.contains_key(reference.id) {
            (Some(self.resolved_conditions[reference.id]), self)
        } else if self.look_ahead_condition_save_points.contains_key(reference.id) {
            (None, self)
        } else {
            let save_point = self.save_point_for_restoring_condition(reference.name);
            (
                None,
                PrinterState {
                    look_ahead_condition_save_points: self.look_ahead_condition_save_points.inserted(
                        reference.id,
                        save_point,
                    ),
                    ..self
                },
            )
        }
    }

    /// Whether the marker is at another place than when this was last
    /// asked; `None` while its place is not known. The place is remembered.
    pub open spec fn has_info_moved(self, info: Info) -> (Option<bool>, PrinterState<'a>) {
        let (resolved, asked) = self.get_resolved_info(info);
        match resolved {
            None => (None, asked),
            Some(writer_info) => {
                let position = writer_info.get_line_and_column();
                let remembered = PrinterState {
                    stored_info_positions: asked.stored_info_positions.insert(info.id, position),
                    ..asked
                };
                if asked.stored_info_positions.contains_key(info.id) {
                    if asked.stored_info_positions[info.id] != position {
                        (Some(true), remembered)
                    } else {
                        (Some(false), asked)
                    }
                } else {
                    (Some(false), remembered)
                }
            },
        }
    }

    /// Whether `end` lies on a later line than `start`; `None` while one
    /// of the two places is not known.
    pub open spec fn is_multiple_lines(self, start: Info, end: Info) -> (Option<bool>, PrinterState<'a>) {
        let (start_info, asked_start) = self.get_resolved_info(start);
        match start_info {
            None => (None, asked_start),
            Some(start_info) => {
                let (end_info, asked_end) = asked_start.get_resolved_info(end);
                match end_info {
                    None => (None, asked_end),
                    Some(end_info) => (Some(end_info.line_number > start_info.line_number), asked_end),
                }
            },
        }
    }

    /// The answer to `resolver` for the position `writer_info`.
    pub open spec fn resolve(self, resolver: ConditionResolver, writer_info: WriterInfo) -> (
        Option<bool>,
        PrinterState<'a>,
    ) {
        match resolver {
            ConditionResolver::IsStartOfLine => (Some(writer_info.is_start_of_line()), self),
            ConditionResolver::IsAboveWidth(width) => (
                Some(writer_info.column_number > writer_info.line_start_column_number + width),
                self,
            ),
            ConditionResolver::IsMultipleLines { start, end } => self.is_multiple_lines(start, end),
            ConditionResolver::IsMultipleLinesSinceMoved { start, end } => {
                let (moved, asked) = self.has_info_moved(start);
                match moved {
                    None => (None, asked),
                    Some(moved) => (if moved {
                        asked.clear_info(end)
                    } else {
                        asked
                    }).is_multiple_lines(start, end),
                }
            },
            ConditionResolver::IsConditionTrue(reference) => self.get_resolved_condition(reference),
        }
    }

    /// Asks the conditions from `from` on again, in order, each for the
    /// position it was first asked at. The printer goes back to the first
    /// that has an answer now which is not the one stored for it. The
    /// answer stored for a condition that has none now is forgotten.
    pub open spec fn reevaluate_conditions(self, entries: Seq<ConditionEntry<'a>>, from: int) -> PrinterState<'a>
        decreases entries.len() - from,
    {
        if from < 0 || from >= entries.len() {
            self
        } else {
            let entry = entries[from];
            let stored = if self.resolved_conditions.contains_key(entry.condition_id) {
                Some(self.resolved_conditions[entry.condition_id])
            } else {
                None
            };
            let asking = PrinterState { resolving_save_point: Some(entry.save_point), ..self };
            let (value, asked) = asking.resolve(
                entry.condition.condition,
                entry.save_point.writer_state.writer_info(self.indent_width),
            );
            let done = PrinterState { resolving_save_point: None, ..asked };
            match value {
                Some(value) => if stored != Some(value) {
                    done.update_state_to_save_point(entry.save_point, false)
                } else {
                    done.reevaluate_conditions(entries, from + 1)
                },
                None => (PrinterState {
                    resolved_conditions: done.resolved_conditions.remove(entry.condition_id),
                    ..done
                }).reevaluate_conditions(entries, from + 1),
            }
        }
    }

    /// Notes where the marker is: nothing waits for it any more. Then the
    /// conditions that depend on the marker are asked again.
    pub open spec fn handle_info(self, info: Info) -> PrinterState<'a> {
        let noted = PrinterState {
            resolved_infos: self.resolved_infos.insert(info.id, self.writer_info()),
            look_ahead_info_save_points: self.look_ahead_info_save_points.removed(info.id),
            ..self
        };
        if noted.conditions_for_infos.contains_key(info.id) {
            noted.reevaluate_conditions(noted.conditions_for_infos[info.id], 0)
        } else {
            noted
        }
    }

    /// Notes for each marker from `from` on that `condition` depends on it.
    pub open spec fn register_dependent_infos(self, condition: &'a Condition, infos: Seq<Info>, from: int) -> PrinterState<
        'a,
    >
        decreases infos.len() - from,
    {
        if from < 0 || from >= infos.len() {
            self
        } else {
            let entry = ConditionEntry {
                condition_id: condition.id,
                condition,
                save_point: self.save_point_for_restoring_condition(condition.name),
            };
            let info_id = infos[from].id;
            let entries = if self.conditions_for_infos.contains_key(info_id) {
                self.conditions_for_infos[info_id]
            } else {
                Seq::empty()
            };
            (PrinterState {
                conditions_for_infos: self.conditions_for_infos.insert(info_id, with_entry(entries, entry)),
                ..self
            }).register_dependent_infos(condition, infos, from + 1)
        }
    }

    /// Goes on with the first of `items`, and with `next_node` after them;
    /// nothing changes when there are no items.
    pub open spec fn enter_path(self, items: Option<&'a PrintItems>, next_node: Option<PrintItemPath<'a>>) -> PrinterState<
        'a,
    > {
        match items {
            Some(items) => match items.spec_first_node() {
                Some(first) => PrinterState {
                    current_node: Some(first),
                    next_node_stack: self.next_node_stack.pushed(next_node),
                    skip_moving_next: true,
                    ..self
                },
                None => self,
            },
            None => self,
        }
    }

    /// Asks the condition and takes its path: the false path when there is
    /// no answer. The answer of a stored condition is kept, and forgotten
    /// when there is none. The printer goes back when something was
    /// waiting for the answer.
    pub open spec fn handle_condition(self, condition: &'a Condition, next_node: Option<PrintItemPath<'a>>) -> PrinterState<
        'a,
    > {
        let registered = match condition.dependent_infos {
            Some(infos) => self.register_dependent_infos(condition, infos@, 0),
            None => self,
        };
        let (value, asked) = registered.resolve(condition.condition, registered.writer_info());
        let stored = if condition.is_stored {
            PrinterState {
                resolved_conditions: match value {
                    Some(value) => asked.resolved_conditions.insert(condition.id, value),
                    None => asked.resolved_conditions.remove(condition.id),
                },
                ..asked
            }
        } else {
            asked
        };
        let waiting = stored.look_ahead_condition_save_points.get(condition.id);
        if value is Some && waiting is Some {
            (PrinterState {
                look_ahead_condition_save_points: stored.look_ahead_condition_save_points.removed(condition.id),
                ..stored
            }).update_state_to_save_point(waiting.unwrap(), false)
        } else if value == Some(true) {
            stored.enter_path(
                match condition.true_path {
                    Some(items) => Some(&items),
                    None => None,
                },
                next_node,
            )
        } else {
            stored.enter_path(
                match condition.false_path {
                    Some(items) => Some(&items),
                    None => None,
                },
                next_node,
            )
        }
    }

    /// Goes on with the shared items, and with `next_node` after them.
    pub open spec fn handle_rc_path(self, path: &'a Rc<PrintItems>, next_node: Option<PrintItemPath<'a>>) -> PrinterState<
        'a,
    > {
        PrinterState {
            current_node: path.spec_first_node(),
            next_node_stack: self.next_node_stack.pushed(next_node),
            skip_moving_next: true,
            ..self
        }
    }

    pub open spec fn handle_print_node(self, item: &'a PrintItem, next_node: Option<PrintItemPath<'a>>) -> PrinterState<
        'a,
    > {
        match item {
            PrintItem::String(text) => self.handle_string(text),
            PrintItem::Condition(condition) => self.handle_condition(condition, next_node),
            PrintItem::Info(info) => self.handle_info(*info),
            PrintItem::Signal(signal) => self.handle_signal(*signal),
            PrintItem::RcPath(path) => self.handle_rc_path(path, next_node),
        }
    }

    /// When the current path has ended: goes on with the first entry of the
    /// stack that holds an instruction.
    pub open spec fn resume(self) -> PrinterState<'a> {
        if self.current_node is None {
            let (node, rest) = resume_from(self.next_node_stack.top);
            PrinterState { current_node: node, next_node_stack: PathStack { top: rest }, ..self }
        } else {
            self
        }
    }

    /// Moves to the next instruction, unless the one just handled said
    /// where to go on.
    pub open spec fn advance(self) -> PrinterState<'a> {
        (if self.skip_moving_next {
            PrinterState { skip_moving_next: false, ..self }
        } else {
            match self.current_node {
                Some(path) => PrinterState { current_node: path.get_next(), ..self },
                None => self,
            }
        }).resume()
    }

    /// Handles the current instruction and moves on.
    pub open spec fn step(self) -> PrinterState<'a> {
        match self.current_node {
            None => self,
            Some(path) => match path.get_item() {
                Some(item) => self.handle_print_node(item, path.get_next()).advance(),
                None => (PrinterState { current_node: None, ..self }).resume(),
            },
        }
    }

    /// Handles instructions until none is left, but at most `steps`.
    pub open spec fn run(self, steps: nat) -> PrinterState<'a>
        decreases steps,
    {
        if steps == 0 || self.current_node is None {
            self
        } else {
            self.step().run((steps - 1) as nat)
        }
    }

    /// Whether the printer still waits for a marker or a condition.
    pub open spec fn has_look_ahead(self) -> bool {
        self.look_ahead_condition_save_points@ != Map::<usize, &'a SavePoint<'a>>::empty()
            || self.look_ahead_info_save_points@ != Map::<usize, &'a SavePoint<'a>>::empty()
    }

    /// Whether `name` is that of a marker or condition the printer still
    /// waits for.
    pub open spec fn is_waiting_for(self, name: &'static str) -> bool {
        holds_name(self.look_ahead_condition_save_points, name) || holds_name(
            self.look_ahead_info_save_points,
            name,
        )
    }

    /// The first of the printer's counts that is not zero, as an error.
    pub open spec fn counts_error(self) -> Option<PrintError> {
        if self.new_line_group_depth != 0 {
            Some(PrintError::NewLineGroupDepthNotZero(self.new_line_group_depth))
        } else if self.force_no_newlines_depth != 0 {
            Some(PrintError::ForceNoNewLinesDepthNotZero(self.force_no_newlines_depth))
        } else if self.writer.indent_level != 0 {
            Some(PrintError::IndentLevelNotZero(self.writer.indent_level))
        } else if self.writer.ignore_indent_count != 0 {
            Some(PrintError::IgnoreIndentCountNotZero(self.writer.ignore_indent_count))
        } else {
            None
        }
    }

    /// What is wrong at the end of printing; `None` when nothing is.
    pub open spec fn is_end_error(self, error: Option<PrintError>) -> bool {
        if self.current_node is Some {
            error == Some(PrintError::StepLimitReached)
        } else if self.has_look_ahead() {
            error matches Some(PrintError::LookAheadNeverResolved(name)) && self.is_waiting_for(name)
        } else {
            error == self.counts_error()
        }
    }

    /// All that was written, first written first.
    pub open spec fn written(self) -> Seq<WriteItem<'a>> {
        items_view(self.writer.items)
    }
}

} // verus!
