use super::arena::alloc_in;
use super::print_items::{is_plain_text, StringContainer, WriterInfo};
use bumpalo::Bump;
use vstd::prelude::*;

verus! {

/// One piece of output.
#[derive(Clone, Copy, Debug)]
pub enum WriteItem<'a> {
    Text(&'a StringContainer),
    /// Indentation of this many levels at the start of a line.
    Indent(u8),
    NewLine,
    Tab,
    Space,
    StartIgnoringIndent,
    FinishIgnoringIndent,
}

/// An output item with the items written before it.
pub struct GraphNode<'a> {
    pub item: WriteItem<'a>,
    pub previous: Option<&'a GraphNode<'a>>,
}

/// The items up to and including `node`, first written first.
pub open spec fn items_view<'a>(node: Option<&'a GraphNode<'a>>) -> Seq<WriteItem<'a>>
    decreases node,
{
    match node {
        None => Seq::empty(),
        Some(n) => items_view(n.previous).push(n.item),
    }
}

/// Where the writer stands and all it has written. Copying it is cheap,
/// and a copy never changes: items are only ever added in front.
#[derive(Clone, Copy)]
pub struct WriterState<'a> {
    pub current_line_column: u32,
    pub current_line_number: u32,
    pub last_line_indent_level: u8,
    pub indent_level: u8,
    pub expect_newline_next: bool,
    pub indent_queue_count: u8,
    pub last_was_not_trailing_space: bool,
    pub ignore_indent_count: u8,
    pub items: Option<&'a GraphNode<'a>>,
}

pub open spec fn add_u8(a: u8, b: u8) -> u8 {
    if a + b > u8::MAX {
        u8::MAX
    } else {
        (a + b) as u8
    }
}

pub open spec fn sub_u8(a: u8, b: u8) -> u8 {
    if a < b {
        0
    } else {
        (a - b) as u8
    }
}

pub open spec fn add_u32(a: u32, b: u32) -> u32 {
    if a + b > u32::MAX {
        u32::MAX
    } else {
        (a + b) as u32
    }
}

impl<'a> WriterState<'a> {
    /// Nothing written, at the start of the first line.
    pub open spec fn initial() -> WriterState<'a> {
        WriterState {
            current_line_column: 0,
            current_line_number: 0,
            last_line_indent_level: 0,
            indent_level: 0,
            expect_newline_next: false,
            indent_queue_count: 0,
            last_was_not_trailing_space: false,
            ignore_indent_count: 0,
            items: None,
        }
    }

    /// The column of the next thing written: on an empty line, the width
    /// of the indentation that will be written first.
    pub open spec fn line_column(self, indent_width: u8) -> u32 {
        if self.current_line_column == 0 {
            (indent_width * self.indent_level) as u32
        } else {
            self.current_line_column
        }
    }

    pub open spec fn line_start_column_number(self, indent_width: u8) -> u32 {
        (indent_width * self.last_line_indent_level) as u32
    }

    pub open spec fn writer_info(self, indent_width: u8) -> WriterInfo {
        WriterInfo {
            line_start_indent_level: self.last_line_indent_level,
            line_start_column_number: self.line_start_column_number(indent_width),
            line_number: self.current_line_number,
            column_number: self.line_column(indent_width),
            indent_level: self.indent_level,
        }
    }

    /// After `item` is written. Queued indents take effect now.
    pub open spec fn push_item(self, item: WriteItem<'a>) -> WriterState<'a> {
        WriterState {
            items: Some(&GraphNode { item, previous: self.items }),
            indent_level: add_u8(self.indent_level, self.indent_queue_count),
            indent_queue_count: 0,
            ..self
        }
    }

    /// After a marker is written: no text, so queued indents stay queued.
    pub open spec fn push_marker(self, item: WriteItem<'a>) -> WriterState<'a> {
        WriterState {
            items: Some(&GraphNode { item, previous: self.items }),
            last_was_not_trailing_space: false,
            ..self
        }
    }

    /// Without the item written last.
    pub open spec fn pop_item(self) -> WriterState<'a> {
        match self.items {
            Some(node) => WriterState { items: node.previous, ..self },
            None => self,
        }
    }

    /// After a line break. A space that would end the line is taken back.
    pub open spec fn new_line(self) -> WriterState<'a> {
        let popped = if self.last_was_not_trailing_space {
            self.pop_item()
        } else {
            self
        };
        (WriterState {
            last_was_not_trailing_space: false,
            current_line_column: 0,
            current_line_number: add_u32(self.current_line_number, 1),
            last_line_indent_level: self.indent_level,
            expect_newline_next: false,
            ..popped
        }).push_item(WriteItem::NewLine)
    }

    /// Before anything visible is written: the line break that is still
    /// owed, and the indentation when the line is empty.
    pub open spec fn handle_first_column(self, indent_width: u8) -> WriterState<'a> {
        let broken = if self.expect_newline_next {
            self.new_line()
        } else {
            self
        };
        let state = WriterState { last_was_not_trailing_space: false, ..broken };
        if state.current_line_column == 0 && state.indent_level > 0 && state.ignore_indent_count == 0 {
            let level = state.indent_level;
            WriterState {
                current_line_column: (level * indent_width) as u32,
                ..(WriterState { last_line_indent_level: level, ..state }).push_item(WriteItem::Indent(level))
            }
        } else {
            state
        }
    }

    /// After something `width` columns wide is written.
    pub open spec fn write_item(self, item: WriteItem<'a>, width: u32, indent_width: u8) -> WriterState<'a> {
        let state = self.handle_first_column(indent_width);
        (WriterState { current_line_column: add_u32(state.current_line_column, width), ..state }).push_item(item)
    }

    pub open spec fn write(self, text: &'a StringContainer, indent_width: u8) -> WriterState<'a> {
        self.write_item(WriteItem::Text(text), text.spec_char_count(), indent_width)
    }

    pub open spec fn tab(self, indent_width: u8) -> WriterState<'a> {
        self.write_item(WriteItem::Tab, indent_width as u32, indent_width)
    }

    pub open spec fn single_indent(self, indent_width: u8) -> WriterState<'a> {
        self.write_item(WriteItem::Indent(1), indent_width as u32, indent_width)
    }

    pub open spec fn space(self, indent_width: u8) -> WriterState<'a> {
        self.write_item(WriteItem::Space, 1, indent_width)
    }

    /// After a space, unless a line break is owed: the space would end
    /// the line; and unless such a space was written last: one is enough.
    pub open spec fn space_if_not_trailing(self, indent_width: u8) -> WriterState<'a> {
        if !self.expect_newline_next && !self.last_was_not_trailing_space {
            WriterState { last_was_not_trailing_space: true, ..self.space(indent_width) }
        } else {
            self
        }
    }

    pub open spec fn set_indent_level(self, level: u8) -> WriterState<'a> {
        WriterState {
            indent_level: level,
            last_line_indent_level: if self.current_line_column == 0 {
                level
            } else {
                self.last_line_indent_level
            },
            ..self
        }
    }

    pub open spec fn start_indent(self) -> WriterState<'a> {
        self.set_indent_level(add_u8(self.indent_level, 1))
    }

    /// Ends the indent opened last: a queued one if there is one.
    pub open spec fn finish_indent(self) -> WriterState<'a> {
        if self.indent_queue_count > 0 {
            WriterState { indent_queue_count: (self.indent_queue_count - 1) as u8, ..self }
        } else {
            self.set_indent_level(sub_u8(self.indent_level, 1))
        }
    }

    pub open spec fn queue_indent(self) -> WriterState<'a> {
        WriterState { indent_queue_count: add_u8(self.indent_queue_count, 1), ..self }
    }

    pub open spec fn start_ignoring_indent(self) -> WriterState<'a> {
        (WriterState { ignore_indent_count: add_u8(self.ignore_indent_count, 1), ..self }).push_marker(
            WriteItem::StartIgnoringIndent,
        )
    }

    pub open spec fn finish_ignoring_indent(self) -> WriterState<'a> {
        (WriterState { ignore_indent_count: sub_u8(self.ignore_indent_count, 1), ..self }).push_marker(
            WriteItem::FinishIgnoringIndent,
        )
    }

    pub open spec fn mark_expect_new_line(self) -> WriterState<'a> {
        WriterState { expect_newline_next: true, ..self }
    }

    pub fn get_writer_info(&self, indent_width: u8) -> (info: WriterInfo)
        ensures
            info == self.writer_info(indent_width),
    {
        let line_start_column_number = columns_of(indent_width, self.last_line_indent_level);
        let column_number = if self.current_line_column == 0 {
            columns_of(indent_width, self.indent_level)
        } else {
            self.current_line_column
        };
        WriterInfo {
            line_start_indent_level: self.last_line_indent_level,
            line_start_column_number,
            line_number: self.current_line_number,
            column_number,
            indent_level: self.indent_level,
        }
    }
}

/// The width of `level` levels of indentation.
pub fn columns_of(indent_width: u8, level: u8) -> (columns: u32)
    ensures
        columns == indent_width * level,
        columns == level * indent_width,
{
    assert(indent_width * level <= 255 * 255 && indent_width * level == level * indent_width) by (nonlinear_arith)
        requires
            indent_width <= 255,
            level <= 255,
    ;
    (indent_width as u32) * (level as u32)
}

/// Options for the writer.
pub struct WriterOptions {
    pub indent_width: u8,
}

/// Keeps the cursor and collects what is written, in an arena.
pub struct Writer<'a> {
    pub bump: &'a Bump,
    pub indent_width: u8,
    pub state: WriterState<'a>,
}

impl<'a> Writer<'a> {
    pub fn new(bump: &'a Bump, options: WriterOptions) -> (writer: Writer<'a>)
        ensures
            writer.bump == bump,
            writer.indent_width == options.indent_width,
            writer.state == WriterState::<'a>::initial(),
    {
        Writer {
            bump,
            indent_width: options.indent_width,
            state: WriterState {
                current_line_column: 0,
                current_line_number: 0,
                last_line_indent_level: 0,
                indent_level: 0,
                expect_newline_next: false,
                indent_queue_count: 0,
                last_was_not_trailing_space: false,
                ignore_indent_count: 0,
                items: None,
            },
        }
    }

    /// What `final(self)` is when only the state changed, to `state`.
    pub open spec fn with_state(self, state: WriterState<'a>) -> Writer<'a> {
        Writer { state, ..self }
    }

    pub fn get_state(&self) -> (state: WriterState<'a>)
        ensures
            state == self.state,
    {
        self.state
    }

    pub fn set_state(&mut self, state: WriterState<'a>)
        ensures
            *final(self) == old(self).with_state(state),
    {
        self.state = state;
    }

    pub fn get_indent_width(&self) -> (width: u8)
        ensures
            width == self.indent_width,
    {
        self.indent_width
    }

    pub fn get_line_start_indent_level(&self) -> (level: u8)
        ensures
            level == self.state.last_line_indent_level,
    {
        self.state.last_line_indent_level
    }

    pub fn get_indentation_level(&self) -> (level: u8)
        ensures
            level == self.state.indent_level,
    {
        self.state.indent_level
    }

    pub fn get_ignore_indent_count(&self) -> (count: u8)
        ensures
            count == self.state.ignore_indent_count,
    {
        self.state.ignore_indent_count
    }

    pub fn get_line_start_column_number(&self) -> (column: u32)
        ensures
            column == self.state.line_start_column_number(self.indent_width),
    {
        columns_of(self.indent_width, self.state.last_line_indent_level)
    }

    pub fn get_line_column(&self) -> (column: u32)
        ensures
            column == self.state.line_column(self.indent_width),
    {
        if self.state.current_line_column == 0 {
            columns_of(self.indent_width, self.state.indent_level)
        } else {
            self.state.current_line_column
        }
    }

    pub fn get_line_number(&self) -> (line: u32)
        ensures
            line == self.state.current_line_number,
    {
        self.state.current_line_number
    }

    fn push_item(&mut self, item: WriteItem<'a>)
        ensures
            *final(self) == old(self).with_state(old(self).state.push_item(item)),
    {
        let node = alloc_in(self.bump, GraphNode { item, previous: self.state.items });
        self.state.items = Some(node);
        self.state.indent_level = self.state.indent_level.saturating_add(self.state.indent_queue_count);
        self.state.indent_queue_count = 0;
    }

    fn push_marker(&mut self, item: WriteItem<'a>)
        ensures
            *final(self) == old(self).with_state(old(self).state.push_marker(item)),
    {
        let node = alloc_in(self.bump, GraphNode { item, previous: self.state.items });
        self.state.items = Some(node);
        self.state.last_was_not_trailing_space = false;
    }

    fn pop_item(&mut self)
        ensures
            *final(self) == old(self).with_state(old(self).state.pop_item()),
    {
        if let Some(node) = self.state.items {
            self.state.items = node.previous;
        }
    }

    pub fn new_line(&mut self)
        ensures
            *final(self) == old(self).with_state(old(self).state.new_line()),
    {
        if self.state.last_was_not_trailing_space {
            self.pop_item();
            self.state.last_was_not_trailing_space = false;
        }
        self.state.current_line_column = 0;
        self.state.current_line_number = self.state.current_line_number.saturating_add(1);
        self.state.last_line_indent_level = self.state.indent_level;
        self.state.expect_newline_next = false;
        self.push_item(WriteItem::NewLine);
    }

    fn handle_first_column(&mut self)
        ensures
            *final(self) == old(self).with_state(old(self).state.handle_first_column(old(self).indent_width)),
    {
        if self.state.expect_newline_next {
            self.new_line();
        }
        self.state.last_was_not_trailing_space = false;
        if self.state.current_line_column == 0 && self.state.indent_level > 0 && self.state.ignore_indent_count == 0 {
            let level = self.state.indent_level;
            self.state.last_line_indent_level = level;
            self.push_item(WriteItem::Indent(level));
            self.state.current_line_column = columns_of(self.indent_width, level);
        }
    }

    fn write_item(&mut self, item: WriteItem<'a>, width: u32)
        ensures
            *final(self) == old(self).with_state(old(self).state.write_item(item, width, old(self).indent_width)),
    {
        self.handle_first_column();
        self.state.current_line_column = self.state.current_line_column.saturating_add(width);
        self.push_item(item);
    }

    /// Writes a text run.
    pub fn write(&mut self, text: &'a StringContainer)
        ensures
            *final(self) == old(self).with_state(old(self).state.write(text, old(self).indent_width)),
    {
        self.write_item(WriteItem::Text(text), text.char_count());
    }

    pub fn tab(&mut self)
        ensures
            *final(self) == old(self).with_state(old(self).state.tab(old(self).indent_width)),
    {
        self.write_item(WriteItem::Tab, self.indent_width as u32);
    }

    pub fn single_indent(&mut self)
        ensures
            *final(self) == old(self).with_state(old(self).state.single_indent(old(self).indent_width)),
    {
        self.write_item(WriteItem::Indent(1), self.indent_width as u32);
    }

    pub fn space_if_not_trailing(&mut self)
        ensures
            *final(self) == old(self).with_state(old(self).state.space_if_not_trailing(old(self).indent_width)),
    {
        if !self.state.expect_newline_next && !self.state.last_was_not_trailing_space {
            self.write_item(WriteItem::Space, 1);
            self.state.last_was_not_trailing_space = true;
        }
    }

    fn set_indent_level(&mut self, level: u8)
        ensures
            *final(self) == old(self).with_state(old(self).state.set_indent_level(level)),
    {
        self.state.indent_level = level;
        if self.state.current_line_column == 0 {
            self.state.last_line_indent_level = level;
        }
    }

    pub fn start_indent(&mut self)
        ensures
            *final(self) == old(self).with_state(old(self).state.start_indent()),
    {
        self.set_indent_level(self.state.indent_level.saturating_add(1));
    }

    pub fn finish_indent(&mut self)
        ensures
            *final(self) == old(self).with_state(old(self).state.finish_indent()),
    {
        if self.state.indent_queue_count > 0 {
            self.state.indent_queue_count = self.state.indent_queue_count - 1;
        } else {
            self.set_indent_level(self.state.indent_level.saturating_sub(1));
        }
    }

    pub fn queue_indent(&mut self)
        ensures
            *final(self) == old(self).with_state(old(self).state.queue_indent()),
    {
        self.state.indent_queue_count = self.state.indent_queue_count.saturating_add(1);
    }

    pub fn start_ignoring_indent(&mut self)
        ensures
            *final(self) == old(self).with_state(old(self).state.start_ignoring_indent()),
    {
        self.state.ignore_indent_count = self.state.ignore_indent_count.saturating_add(1);
        self.push_marker(WriteItem::StartIgnoringIndent);
    }

    pub fn finish_ignoring_indent(&mut self)
        ensures
            *final(self) == old(self).with_state(old(self).state.finish_ignoring_indent()),
    {
        self.state.ignore_indent_count = self.state.ignore_indent_count.saturating_sub(1);
        self.push_marker(WriteItem::FinishIgnoringIndent);
    }

    pub fn mark_expect_new_line(&mut self)
        ensures
            *final(self) == old(self).with_state(old(self).state.mark_expect_new_line()),
    {
        self.state.expect_newline_next = true;
    }

    /// The node written last.
    pub fn get_current_node(&self) -> (node: Option<&'a GraphNode<'a>>)
        ensures
            node == self.state.items,
    {
        self.state.items
    }

    /// The nodes of all that was written, first written first.
    pub fn get_nodes(self) -> (nodes: Vec<&'a GraphNode<'a>>)
        ensures
            nodes@ == nodes_view(self.state.items),
    {
        collect_nodes(self.state.items)
    }

    /// All that was written, first written first.
    pub fn get_items(self) -> (items: Vec<WriteItem<'a>>)
        ensures
            items@ == items_view(self.state.items),
            all_text_is_plain(items@),
    {
        collect_items(self.state.items)
    }
}

/// The nodes up to and including `node`, first written first.
pub open spec fn nodes_view<'a>(node: Option<&'a GraphNode<'a>>) -> Seq<&'a GraphNode<'a>>
    decreases node,
{
    match node {
        None => Seq::empty(),
        Some(n) => nodes_view(n.previous).push(n),
    }
}

/// The nodes up to and including `last`, first written first.
pub fn collect_nodes<'a>(last: Option<&'a GraphNode<'a>>) -> (nodes: Vec<&'a GraphNode<'a>>)
    ensures
        nodes@ == nodes_view(last),
{
    let ghost full = nodes_view(last);
    let mut backwards: Vec<&'a GraphNode<'a>> = Vec::new();
    let mut current = last;
    while current.is_some()
        invariant
            nodes_view(current).len() + backwards@.len() == full.len(),
            nodes_view(current) == full.take(full.len() - backwards@.len()),
            forall|j: int| 0 <= j < backwards@.len() ==> #[trigger] backwards@[j] == full[full.len() - 1 - j],
        decreases nodes_view(current).len(),
    {
        let node = current.unwrap();
        assert(nodes_view(current) == nodes_view(node.previous).push(node));
        assert(nodes_view(current).last() == node);
        assert(full.take(full.len() - backwards@.len())[full.len() - backwards@.len() - 1] == node);
        assert(nodes_view(node.previous) =~= full.take(full.len() - backwards@.len() - 1));
        backwards.push(node);
        current = node.previous;
    }
    let mut nodes: Vec<&'a GraphNode<'a>> = Vec::new();
    let mut remaining = backwards.len();
    while remaining > 0
        invariant
            remaining <= backwards@.len(),
            backwards@.len() == full.len(),
            nodes@.len() + remaining == full.len(),
            nodes@ == full.take(nodes@.len() as int),
            forall|j: int| 0 <= j < backwards@.len() ==> #[trigger] backwards@[j] == full[full.len() - 1 - j],
        decreases remaining,
    {
        remaining = remaining - 1;
        let node = backwards[remaining];
        assert(node == full[nodes@.len() as int]);
        assert(full.take(nodes@.len() + 1 as int) =~= full.take(nodes@.len() as int).push(node));
        nodes.push(node);
    }
    assert(nodes@ =~= full);
    nodes
}

/// No text run among `items` holds a newline or a tab.
pub open spec fn all_text_is_plain(items: Seq<WriteItem>) -> bool {
    forall|i: int| 0 <= i < items.len() ==> (#[trigger] items[i] matches WriteItem::Text(text) ==> is_plain_text(text@))
}

/// The items up to and including `last`, first written first.
pub fn collect_items<'a>(last: Option<&'a GraphNode<'a>>) -> (items: Vec<WriteItem<'a>>)
    ensures
        items@ == items_view(last),
        all_text_is_plain(items@),
{
    let ghost full = items_view(last);
    let mut backwards: Vec<WriteItem<'a>> = Vec::new();
    let mut current = last;
    while current.is_some()
        invariant
            items_view(current).len() + backwards@.len() == full.len(),
            items_view(current) == full.take(full.len() - backwards@.len()),
            forall|j: int| 0 <= j < backwards@.len() ==> #[trigger] backwards@[j] == full[full.len() - 1 - j],
            all_text_is_plain(backwards@),
        decreases items_view(current).len(),
    {
        let node = current.unwrap();
        if let WriteItem::Text(text) = node.item {
            let _ = text.as_str();
        }
        assert(items_view(current) == items_view(node.previous).push(node.item));
        assert(items_view(current).last() == node.item);
        assert(full.take(full.len() - backwards@.len())[full.len() - backwards@.len() - 1] == node.item);
        assert(items_view(node.previous) =~= full.take(full.len() - backwards@.len() - 1));
        backwards.push(node.item);
        current = node.previous;
    }
    let mut items: Vec<WriteItem<'a>> = Vec::new();
    let mut remaining = backwards.len();
    while remaining > 0
        invariant
            remaining <= backwards@.len(),
            backwards@.len() == full.len(),
            items@.len() + remaining == full.len(),
            items@ == full.take(items@.len() as int),
            forall|j: int| 0 <= j < backwards@.len() ==> #[trigger] backwards@[j] == full[full.len() - 1 - j],
            all_text_is_plain(backwards@),
            all_text_is_plain(items@),
        decreases remaining,
    {
        remaining = remaining - 1;
        let item = backwards[remaining];
        assert(item == full[items@.len() as int]);
        assert(full.take(items@.len() + 1 as int) =~= full.take(items@.len() as int).push(item));
        items.push(item);
    }
    assert(items@ =~= full);
    items
}

} // verus!
