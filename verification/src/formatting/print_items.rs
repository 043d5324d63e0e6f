use super::counter_cell::CounterCell;
use std::rc::Rc;
use vstd::prelude::*;

verus! {

/// A text run may hold neither a newline nor a tab: those are signals.
pub open spec fn is_plain_text(text: Seq<char>) -> bool {
    !text.contains('\n') && !text.contains('\t')
}

/// The number of characters of a text, capped at the largest `u32`.
pub open spec fn char_count_of(text: Seq<char>) -> u32 {
    if text.len() > u32::MAX {
        u32::MAX
    } else {
        text.len() as u32
    }
}

/// Why a text cannot be a text run.
#[derive(Clone, Copy, Debug, PartialEq, Eq, Structural)]
pub enum InvalidText {
    /// It holds a tab, which has to be sent as a signal.
    Tab,
    /// It holds a newline, which has to be sent as a signal.
    NewLine,
}

/// Whether `c` stands in `text`.
fn has_char(text: &str, c: char) -> (found: bool)
    ensures
        found == text@.contains(c),
{
    let mut found = false;
    for current in it: text.chars()
        invariant
            it.seq() == text@,
            found == it.seq().take(it.index() as int).contains(c),
    {
        let ghost before = it.seq().take(it.index() as int);
        if current == c {
            found = true;
        }
        proof {
            let after = it.seq().take(it.index() + 1);
            assert(after =~= before.push(current));
            if before.contains(c) {
                let at = choose|i: int| 0 <= i < before.len() && before[i] == c;
                assert(after[at] == c);
            }
            if current == c {
                assert(after[after.len() - 1] == c);
            }
        }
    }
    assert(text@.take(text@.len() as int) =~= text@);
    found
}

/// Tells whether the text can be a text run, and what forbids it.
pub fn validate_string(text: &str) -> (result: Result<(), InvalidText>)
    ensures
        result == if text@.contains('\t') {
            Err::<(), InvalidText>(InvalidText::Tab)
        } else if text@.contains('\n') {
            Err::<(), InvalidText>(InvalidText::NewLine)
        } else {
            Ok(())
        },
        result is Ok <==> is_plain_text(text@),
{
    if has_char(text, '\t') {
        Err(InvalidText::Tab)
    } else if has_char(text, '\n') {
        Err(InvalidText::NewLine)
    } else {
        Ok(())
    }
}

/// What the printer is told to do besides writing text.
#[derive(Clone, Copy, PartialEq, Eq, Structural, Debug)]
pub enum Signal {
    /// A line break, unless line breaks are forbidden at this point.
    NewLine,
    /// A tab character.
    Tab,
    /// A place where the line may break when it gets too long.
    PossibleNewLine,
    /// A space, or a line break when the line is too long.
    SpaceOrNewLine,
    /// The next thing written must start on a new line.
    ExpectNewLine,
    /// Indents from the next line on.
    QueueStartIndent,
    /// Indents from here on.
    StartIndent,
    /// Ends the innermost indent.
    FinishIndent,
    /// Opens a group of line breaks that are taken together.
    StartNewLineGroup,
    /// Closes the innermost group.
    FinishNewLineGroup,
    /// One level of indentation written in place.
    SingleIndent,
    /// Stops writing indentation at line starts.
    StartIgnoringIndent,
    /// Writes indentation at line starts again.
    FinishIgnoringIndent,
    /// Forbids line breaks.
    StartForceNoNewLines,
    /// Allows line breaks again.
    FinishForceNoNewLines,
    /// A space, unless it would end the line.
    SpaceIfNotTrailing,
}

/// A named position in the output, found when the printer passes it.
#[derive(Clone, Copy, Debug)]
pub struct Info {
    pub id: usize,
    pub name: &'static str,
}

impl Info {
    /// A marker with the next number of `counter`.
    pub fn new(name: &'static str, counter: &mut CounterCell) -> (info: Info)
        requires
            old(counter).value() < usize::MAX,
        ensures
            info.id == old(counter).value() + 1,
            info.name == name,
            final(counter).value() == old(counter).value() + 1,
    {
        Info { id: counter.increment(), name }
    }

    pub fn get_unique_id(&self) -> (id: usize)
        ensures
            id == self.id,
    {
        self.id
    }

    pub fn get_name(&self) -> (name: &'static str)
        ensures
            name == self.name,
    {
        self.name
    }
}

/// Where the writer stands: line, column and indentation.
#[derive(Clone, Copy, Debug)]
pub struct WriterInfo {
    pub line_number: u32,
    pub column_number: u32,
    pub indent_level: u8,
    pub line_start_indent_level: u8,
    pub line_start_column_number: u32,
}

impl WriterInfo {
    pub open spec fn spec_is_start_of_line(&self) -> bool {
        self.column_number == self.line_start_column_number
    }

    /// Nothing but indentation was written on the line so far.
    #[verifier::when_used_as_spec(spec_is_start_of_line)]
    pub fn is_start_of_line(&self) -> (b: bool)
        ensures
            b == self.spec_is_start_of_line(),
    {
        self.column_number == self.line_start_column_number
    }

    pub open spec fn spec_is_start_of_line_indented(&self) -> bool {
        self.line_start_indent_level > self.indent_level
    }

    /// The line started deeper than the indentation is now.
    #[verifier::when_used_as_spec(spec_is_start_of_line_indented)]
    pub fn is_start_of_line_indented(&self) -> (b: bool)
        ensures
            b == self.spec_is_start_of_line_indented(),
    {
        self.line_start_indent_level > self.indent_level
    }

    pub open spec fn spec_get_line_and_column(&self) -> (u32, u32) {
        (self.line_number, self.column_number)
    }

    #[verifier::when_used_as_spec(spec_get_line_and_column)]
    pub fn get_line_and_column(&self) -> (position: (u32, u32))
        ensures
            position == self.spec_get_line_and_column(),
    {
        (self.line_number, self.column_number)
    }
}

/// A text run without newline or tab, with its length in characters.
#[derive(Debug)]
pub struct StringContainer {
    pub(crate) text: String,
    pub(crate) char_count: u32,
}

impl View for StringContainer {
    type V = Seq<char>;

    closed spec fn view(&self) -> Seq<char> {
        self.text@
    }
}

impl StringContainer {
    #[verifier::type_invariant]
    pub closed spec fn well_formed(self) -> bool {
        &&& is_plain_text(self.text@)
        &&& self.char_count == char_count_of(self.text@)
    }

    pub closed spec fn spec_char_count(&self) -> u32 {
        self.char_count
    }

    pub fn new(text: String) -> (container: StringContainer)
        requires
            is_plain_text(text@),
        ensures
            container@ == text@,
            container.spec_char_count() == char_count_of(text@),
    {
        let len = text.as_str().unicode_len();
        let char_count: u32 = if len > u32::MAX as usize {
            u32::MAX
        } else {
            len as u32
        };
        StringContainer { text, char_count }
    }

    /// The text, which holds neither newline nor tab.
    pub fn as_str(&self) -> (text: &str)
        ensures
            text@ == self@,
            is_plain_text(text@),
    {
        proof {
            use_type_invariant(self);
        }
        self.text.as_str()
    }

    #[verifier::when_used_as_spec(spec_char_count)]
    pub fn char_count(&self) -> (count: u32)
        ensures
            count == self.spec_char_count(),
            count == char_count_of(self@),
    {
        proof {
            use_type_invariant(self);
        }
        self.char_count
    }
}

/// The name and number of a condition, for asking what it resolved to.
#[derive(Clone, Copy, Debug)]
pub struct ConditionReference {
    pub name: &'static str,
    pub id: usize,
}

impl ConditionReference {
    pub fn new(name: &'static str, id: usize) -> (reference: ConditionReference)
        ensures
            reference.name == name,
            reference.id == id,
    {
        ConditionReference { name, id }
    }

    pub fn get_name(&self) -> (name: &'static str)
        ensures
            name == self.name,
    {
        self.name
    }
}

/// The question a condition asks of the printer. `None` as an answer means
/// that the printer does not know yet.
#[derive(Clone, Copy, Debug)]
pub enum ConditionResolver {
    /// Is the position at the start of its line?
    IsStartOfLine,
    /// Is the column more than this many columns past the line's start?
    IsAboveWidth(u8),
    /// Does `end` lie on a later line than `start`?
    IsMultipleLines { start: Info, end: Info },
    /// As `IsMultipleLines`, but the position of `end` is forgotten first
    /// when `start` has moved since this was last asked.
    IsMultipleLinesSinceMoved { start: Info, end: Info },
    /// What did the condition referred to resolve to?
    IsConditionTrue(ConditionReference),
}

/// The parts a condition is made from.
pub struct ConditionProperties {
    pub condition: ConditionResolver,
    pub true_path: Option<PrintItems>,
    pub false_path: Option<PrintItems>,
}

/// A branch: the printer asks the resolver and takes one of the two paths.
pub struct Condition {
    pub id: usize,
    pub name: &'static str,
    /// Whether the printer remembers what this resolved to.
    pub is_stored: bool,
    pub condition: ConditionResolver,
    pub true_path: Option<PrintItems>,
    pub false_path: Option<PrintItems>,
    /// The markers whose position the answer depends on.
    pub dependent_infos: Option<Vec<Info>>,
}

impl Condition {
    /// A condition with the next number of `counter`, not stored.
    pub fn new(name: &'static str, properties: ConditionProperties, counter: &mut CounterCell) -> (condition: Condition)
        requires
            old(counter).value() < usize::MAX,
        ensures
            condition.id == old(counter).value() + 1,
            final(counter).value() == old(counter).value() + 1,
            condition.name == name,
            !condition.is_stored,
            condition.condition == properties.condition,
            condition.true_path == properties.true_path,
            condition.false_path == properties.false_path,
            condition.dependent_infos is None,
    {
        Condition {
            id: counter.increment(),
            name,
            is_stored: false,
            condition: properties.condition,
            true_path: properties.true_path,
            false_path: properties.false_path,
            dependent_infos: None,
        }
    }

    /// A stored condition with the next number of `counter`, which the
    /// printer asks again whenever one of `dependent_infos` is passed.
    pub fn new_with_dependent_infos(
        name: &'static str,
        properties: ConditionProperties,
        dependent_infos: Vec<Info>,
        counter: &mut CounterCell,
    ) -> (condition: Condition)
        requires
            old(counter).value() < usize::MAX,
        ensures
            condition.id == old(counter).value() + 1,
            final(counter).value() == old(counter).value() + 1,
            condition.name == name,
            condition.is_stored,
            condition.condition == properties.condition,
            condition.true_path == properties.true_path,
            condition.false_path == properties.false_path,
            condition.dependent_infos == Some(dependent_infos),
    {
        Condition {
            id: counter.increment(),
            name,
            is_stored: true,
            condition: properties.condition,
            true_path: properties.true_path,
            false_path: properties.false_path,
            dependent_infos: Some(dependent_infos),
        }
    }

    pub fn get_unique_id(&self) -> (id: usize)
        ensures
            id == self.id,
    {
        self.id
    }

    pub fn get_name(&self) -> (name: &'static str)
        ensures
            name == self.name,
    {
        self.name
    }

    /// A reference for other conditions to ask by; from now on the printer
    /// stores what this condition resolves to.
    pub fn get_reference(&mut self) -> (reference: ConditionReference)
        ensures
            reference.id == old(self).id,
            reference.name == old(self).name,
            *final(self) == (Condition { is_stored: true, ..*old(self) }),
    {
        self.is_stored = true;
        ConditionReference::new(self.name, self.id)
    }
}

/// One instruction for the printer.
pub enum PrintItem {
    String(StringContainer),
    Signal(Signal),
    Info(Info),
    Condition(Condition),
    /// Items that several places of the program share.
    RcPath(Rc<PrintItems>),
}

/// A sequence of instructions.
pub struct PrintItems {
    pub items: Vec<PrintItem>,
}

impl View for PrintItems {
    type V = Seq<PrintItem>;

    open spec fn view(&self) -> Seq<PrintItem> {
        self.items@
    }
}

/// What an item says, as far as text and signals go.
pub enum ItemText {
    Text(Seq<char>),
    Signal(Signal),
    /// A marker, a condition or shared items.
    Other,
}

impl PrintItem {
    pub open spec fn text_view(self) -> ItemText {
        match self {
            PrintItem::String(container) => ItemText::Text(container@),
            PrintItem::Signal(signal) => ItemText::Signal(signal),
            _ => ItemText::Other,
        }
    }
}

/// What each of the items says, as far as text and signals go.
pub open spec fn text_view_of(items: Seq<PrintItem>) -> Seq<ItemText> {
    Seq::new(items.len(), |i: int| items[i].text_view())
}

/// `item` is a text run that reads `text`.
pub open spec fn is_text_item(item: PrintItem, text: Seq<char>) -> bool {
    item matches PrintItem::String(container) && container@ == text
}

/// Calls `Rc::clone`, which makes another pointer to the same items. The
/// contract claims that the new pointer leads to the items of the old one.
#[verifier::external_body]
fn share_items(path: &Rc<PrintItems>) -> (shared: Rc<PrintItems>)
    ensures
        shared == *path,
{
    Rc::clone(path)
}

impl PrintItems {
    /// What each of the items says, as far as text and signals go.
    pub open spec fn text_view(&self) -> Seq<ItemText> {
        text_view_of(self@)
    }

    pub fn new() -> (items: PrintItems)
        ensures
            items@ == Seq::<PrintItem>::empty(),
    {
        PrintItems { items: Vec::new() }
    }

    pub fn is_empty(&self) -> (empty: bool)
        ensures
            empty == (self@.len() == 0),
    {
        self.items.len() == 0
    }

    pub fn push_item(&mut self, item: PrintItem)
        ensures
            final(self)@ == old(self)@.push(item),
    {
        self.items.push(item);
    }

    /// Appends a text run.
    pub fn push_str(&mut self, text: &str)
        requires
            is_plain_text(text@),
        ensures
            final(self)@.len() == old(self)@.len() + 1,
            final(self)@.drop_last() == old(self)@,
            is_text_item(final(self)@.last(), text@),
            final(self).text_view() == old(self).text_view().push(ItemText::Text(text@)),
    {
        self.push_string(text.to_owned());
    }

    /// Appends a text run.
    pub fn push_string(&mut self, text: String)
        requires
            is_plain_text(text@),
        ensures
            final(self)@.len() == old(self)@.len() + 1,
            final(self)@.drop_last() == old(self)@,
            is_text_item(final(self)@.last(), text@),
            final(self).text_view() == old(self).text_view().push(ItemText::Text(text@)),
    {
        let item = PrintItem::String(StringContainer::new(text));
        self.items.push(item);
        assert(self@.drop_last() =~= old(self)@);
        assert(self.text_view() =~= old(self).text_view().push(ItemText::Text(text@)));
    }

    pub fn push_signal(&mut self, signal: Signal)
        ensures
            final(self)@ == old(self)@.push(PrintItem::Signal(signal)),
            final(self).text_view() == old(self).text_view().push(ItemText::Signal(signal)),
    {
        self.items.push(PrintItem::Signal(signal));
        assert(self.text_view() =~= old(self).text_view().push(ItemText::Signal(signal)));
    }

    pub fn push_info(&mut self, info: Info)
        ensures
            final(self)@ == old(self)@.push(PrintItem::Info(info)),
    {
        self.items.push(PrintItem::Info(info));
    }

    pub fn push_condition(&mut self, condition: Condition)
        ensures
            final(self)@ == old(self)@.push(PrintItem::Condition(condition)),
    {
        self.items.push(PrintItem::Condition(condition));
    }

    /// Appends shared items as one instruction; nothing for `None`.
    pub fn push_path(&mut self, path: Option<Rc<PrintItems>>)
        ensures
            final(self)@ == match path {
                Some(shared) => old(self)@.push(PrintItem::RcPath(shared)),
                None => old(self)@,
            },
    {
        if let Some(shared) = path {
            self.items.push(PrintItem::RcPath(shared));
        }
    }

    /// Appends all of `items`, in order.
    pub fn extend(&mut self, items: PrintItems)
        ensures
            final(self)@ == old(self)@ + items@,
            final(self).text_view() == old(self).text_view() + items.text_view(),
    {
        let mut items = items;
        let ghost added = items;
        self.items.append(&mut items.items);
        assert(self.text_view() =~= old(self).text_view() + added.text_view());
    }

    /// Makes the items shareable; `None` when there are none.
    pub fn into_rc_path(self) -> (path: Option<Rc<PrintItems>>)
        ensures
            path == if self@.len() == 0 {
                None
            } else {
                Some(Rc::new(self))
            },
    {
        if self.items.len() == 0 {
            None
        } else {
            Some(Rc::new(self))
        }
    }

    /// The items that hold `path` as their one instruction; none for `None`.
    pub fn from_rc_path(path: &Option<Rc<PrintItems>>) -> (items: PrintItems)
        ensures
            items@ == match *path {
                Some(shared) => seq![PrintItem::RcPath(shared)],
                None => Seq::<PrintItem>::empty(),
            },
    {
        let mut items = PrintItems::new();
        if let Some(shared) = path {
            items.items.push(PrintItem::RcPath(share_items(shared)));
        }
        items
    }

    /// The items that hold `signal` alone.
    pub fn from_signal(signal: Signal) -> (items: PrintItems)
        ensures
            items@ == seq![PrintItem::Signal(signal)],
    {
        let mut items = PrintItems::new();
        items.items.push(PrintItem::Signal(signal));
        items
    }

    pub open spec fn spec_first_node(&self) -> Option<PrintItemPath<'_>> {
        if self@.len() == 0 {
            None
        } else {
            Some(PrintItemPath { items: self, index: 0 })
        }
    }

    /// The position of the first instruction; `None` when there is none.
    pub fn first_node<'a>(&'a self) -> (path: Option<PrintItemPath<'a>>)
        ensures
            path == self.spec_first_node(),
    {
        if self.items.len() == 0 {
            None
        } else {
            Some(PrintItemPath { items: self, index: 0 })
        }
    }
}

/// A position in a sequence of instructions.
#[derive(Clone, Copy)]
pub struct PrintItemPath<'a> {
    pub items: &'a PrintItems,
    pub index: usize,
}

impl<'a> PrintItemPath<'a> {
    /// The instruction at this position, if the position is in range.
    pub open spec fn spec_get_item(&self) -> Option<&'a PrintItem> {
        if self.index < self.items@.len() {
            Some(&self.items@[self.index as int])
        } else {
            None
        }
    }

    #[verifier::when_used_as_spec(spec_get_item)]
    pub fn get_item(&self) -> (item: Option<&'a PrintItem>)
        ensures
            item == self.spec_get_item(),
    {
        if self.index < self.items.items.len() {
            Some(&self.items.items[self.index])
        } else {
            None
        }
    }

    /// The position after this one; `None` at the last instruction.
    pub open spec fn spec_get_next(&self) -> Option<PrintItemPath<'a>> {
        if self.index + 1 < self.items@.len() {
            Some(PrintItemPath { items: self.items, index: (self.index + 1) as usize })
        } else {
            None
        }
    }

    #[verifier::when_used_as_spec(spec_get_next)]
    pub fn get_next(&self) -> (next: Option<PrintItemPath<'a>>)
        ensures
            next == self.spec_get_next(),
    {
        if self.index < self.items.items.len() && self.index + 1 < self.items.items.len() {
            Some(PrintItemPath { items: self.items, index: self.index + 1 })
        } else {
            None
        }
    }
}

} // verus!
