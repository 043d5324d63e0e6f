use super::arena::alloc_in;
use super::print_items::{Condition, PrintItemPath};
use super::writer::WriterState;
use bumpalo::Bump;
use vstd::prelude::*;

verus! {

/// All the printer needs to go back to an earlier point. It lives in the
/// arena and never changes.
pub struct SavePoint<'a> {
    /// What the save point was made for.
    pub name: &'static str,
    pub new_line_group_depth: u16,
    pub force_no_newlines_depth: u8,
    pub writer_state: WriterState<'a>,
    pub possible_new_line_save_point: Option<&'a SavePoint<'a>>,
    /// The instruction to go on with.
    pub node: Option<PrintItemPath<'a>>,
    pub look_ahead_condition_save_points: SavePointMap<'a>,
    pub look_ahead_info_save_points: SavePointMap<'a>,
    pub next_node_stack: PathStack<'a>,
}

/// One change to a `SavePointMap`: `key` now leads to `value`, or to
/// nothing when `value` is `None`.
pub struct SavePointMapNode<'a> {
    pub key: usize,
    pub value: Option<&'a SavePoint<'a>>,
    pub rest: Option<&'a SavePointMapNode<'a>>,
}

/// A map from numbers to save points that is cheap to copy: it is the list
/// of its changes, latest first, kept in the arena.
#[derive(Clone, Copy)]
pub struct SavePointMap<'a> {
    pub head: Option<&'a SavePointMapNode<'a>>,
}

/// What the changes from `head` on amount to.
pub open spec fn changes_view<'a>(head: Option<&'a SavePointMapNode<'a>>) -> Map<usize, &'a SavePoint<'a>>
    decreases head,
{
    match head {
        None => Map::empty(),
        Some(node) => match node.value {
            Some(value) => changes_view(node.rest).insert(node.key, value),
            None => changes_view(node.rest).remove(node.key),
        },
    }
}

impl<'a> View for SavePointMap<'a> {
    type V = Map<usize, &'a SavePoint<'a>>;

    open spec fn view(&self) -> Map<usize, &'a SavePoint<'a>> {
        changes_view(self.head)
    }
}

impl<'a> SavePointMap<'a> {
    pub open spec fn empty() -> SavePointMap<'a> {
        SavePointMap { head: None }
    }

    pub fn new() -> (map: SavePointMap<'a>)
        ensures
            map == SavePointMap::<'a>::empty(),
            map@ == Map::<usize, &'a SavePoint<'a>>::empty(),
    {
        SavePointMap { head: None }
    }

    /// A copy of the map. It shares all entries with the map, and neither
    /// changes when the other does.
    pub fn clone_map(&self) -> (copy: SavePointMap<'a>)
        ensures
            copy == *self,
    {
        SavePointMap { head: self.head }
    }

    /// Makes the map hold what `new_map` holds.
    pub fn replace_map(&mut self, new_map: SavePointMap<'a>)
        ensures
            *final(self) == new_map,
    {
        self.head = new_map.head;
    }

    pub open spec fn spec_get(&self, key: usize) -> Option<&'a SavePoint<'a>> {
        if self@.contains_key(key) {
            Some(self@[key])
        } else {
            None
        }
    }

    /// The save point stored under `key`.
    #[verifier::when_used_as_spec(spec_get)]
    pub fn get(&self, key: usize) -> (value: Option<&'a SavePoint<'a>>)
        ensures
            value == self.spec_get(key),
    {
        let mut current = self.head;
        while current.is_some()
            invariant
                changes_view(current).contains_key(key) == self@.contains_key(key),
                self@.contains_key(key) ==> changes_view(current)[key] == self@[key],
            decreases current,
        {
            let node = current.unwrap();
            if node.key == key {
                return node.value;
            }
            current = node.rest;
        }
        None
    }

    pub open spec fn spec_contains_key(&self, key: usize) -> bool {
        self@.contains_key(key)
    }

    #[verifier::when_used_as_spec(spec_contains_key)]
    pub fn contains_key(&self, key: usize) -> (found: bool)
        ensures
            found == self@.contains_key(key),
    {
        self.get(key).is_some()
    }

    /// The map in which `key` leads to `value`.
    pub open spec fn inserted(self, key: usize, value: &'a SavePoint<'a>) -> SavePointMap<'a> {
        SavePointMap { head: Some(&SavePointMapNode { key, value: Some(value), rest: self.head }) }
    }

    pub fn insert(&mut self, bump: &'a Bump, key: usize, value: &'a SavePoint<'a>)
        ensures
            *final(self) == old(self).inserted(key, value),
            final(self)@ == old(self)@.insert(key, value),
    {
        self.head = Some(alloc_in(bump, SavePointMapNode { key, value: Some(value), rest: self.head }));
    }

    /// The map in which `key` leads to nothing.
    pub open spec fn removed(self, key: usize) -> SavePointMap<'a> {
        if self@.contains_key(key) {
            SavePointMap { head: Some(&SavePointMapNode { key, value: None, rest: self.head }) }
        } else {
            self
        }
    }

    /// Takes out what is stored under `key` and hands it back.
    pub fn remove(&mut self, bump: &'a Bump, key: usize) -> (value: Option<&'a SavePoint<'a>>)
        ensures
            value == old(self).spec_get(key),
            *final(self) == old(self).removed(key),
            final(self)@ == old(self)@.remove(key),
    {
        let value = self.get(key);
        if value.is_some() {
            self.head = Some(alloc_in(bump, SavePointMapNode { key, value: None, rest: self.head }));
        } else {
            assert(self@.remove(key) =~= self@);
        }
        value
    }

    /// Some save point of the map; `None` exactly when the map is empty.
    pub fn get_any_item(&self) -> (value: Option<&'a SavePoint<'a>>)
        ensures
            value is None <==> self@ == Map::<usize, &'a SavePoint<'a>>::empty(),
            value matches Some(save_point) ==> exists|key: usize| self.spec_get(key) == Some(save_point),
    {
        let mut current = self.head;
        while current.is_some()
            invariant
                forall|key: usize| self@.contains_key(key) ==> changes_view(current).contains_key(key),
            decreases current,
        {
            let node = current.unwrap();
            let value = self.get(node.key);
            if value.is_some() {
                assert(self.spec_get(node.key) == value);
                return value;
            }
            current = node.rest;
        }
        assert(self@ =~= Map::<usize, &'a SavePoint<'a>>::empty());
        None
    }
}

/// An entry of the stack of instructions to go on with.
pub struct PathStackNode<'a> {
    pub path: Option<PrintItemPath<'a>>,
    pub below: Option<&'a PathStackNode<'a>>,
}

/// The instructions to go on with when the current path ends. It is kept
/// in the arena, so it is cheap to copy.
#[derive(Clone, Copy)]
pub struct PathStack<'a> {
    pub top: Option<&'a PathStackNode<'a>>,
}

/// The entries from `top` down, the top one first.
pub open spec fn entries_view<'a>(top: Option<&'a PathStackNode<'a>>) -> Seq<Option<PrintItemPath<'a>>>
    decreases top,
{
    match top {
        None => Seq::empty(),
        Some(node) => seq![node.path] + entries_view(node.below),
    }
}

impl<'a> View for PathStack<'a> {
    type V = Seq<Option<PrintItemPath<'a>>>;

    open spec fn view(&self) -> Seq<Option<PrintItemPath<'a>>> {
        entries_view(self.top)
    }
}

impl<'a> PathStack<'a> {
    pub open spec fn empty() -> PathStack<'a> {
        PathStack { top: None }
    }

    pub fn new() -> (stack: PathStack<'a>)
        ensures
            stack == PathStack::<'a>::empty(),
    {
        PathStack { top: None }
    }

    pub open spec fn spec_is_empty(&self) -> bool {
        self.top is None
    }

    #[verifier::when_used_as_spec(spec_is_empty)]
    pub fn is_empty(&self) -> (empty: bool)
        ensures
            empty == self.spec_is_empty(),
            empty == (self@.len() == 0),
    {
        self.top.is_none()
    }

    /// The stack with `path` on top.
    pub open spec fn pushed(self, path: Option<PrintItemPath<'a>>) -> PathStack<'a> {
        PathStack { top: Some(&PathStackNode { path, below: self.top }) }
    }

    pub fn push(&mut self, bump: &'a Bump, path: Option<PrintItemPath<'a>>)
        ensures
            *final(self) == old(self).pushed(path),
    {
        self.top = Some(alloc_in(bump, PathStackNode { path, below: self.top }));
    }

    /// The stack without its top entry.
    pub open spec fn popped(self) -> PathStack<'a> {
        match self.top {
            Some(node) => PathStack { top: node.below },
            None => self,
        }
    }

    /// The top entry; `None` when the stack is empty.
    pub open spec fn peek(self) -> Option<Option<PrintItemPath<'a>>> {
        match self.top {
            Some(node) => Some(node.path),
            None => None,
        }
    }

    /// Takes the top entry off and hands it back.
    pub fn pop(&mut self) -> (path: Option<Option<PrintItemPath<'a>>>)
        ensures
            path == old(self).peek(),
            *final(self) == old(self).popped(),
            old(self).top is Some ==> final(self)@.len() + 1 == old(self)@.len(),
    {
        match self.top {
            Some(node) => {
                self.top = node.below;
                Some(node.path)
            },
            None => None,
        }
    }
}

/// A condition that asked for a marker's position, with the point to go
/// back to when the answer changes.
#[derive(Clone, Copy)]
pub struct ConditionEntry<'a> {
    pub condition_id: usize,
    pub condition: &'a Condition,
    pub save_point: &'a SavePoint<'a>,
}

/// Where the entry for `condition_id` stands among `entries`, from `from`
/// on; the length of `entries` when there is none.
pub open spec fn entry_index(entries: Seq<ConditionEntry>, condition_id: usize, from: int) -> int
    decreases entries.len() - from,
{
    if from < 0 || from >= entries.len() {
        entries.len() as int
    } else if entries[from].condition_id == condition_id {
        from
    } else {
        entry_index(entries, condition_id, from + 1)
    }
}

/// `entries` with `entry` in the place of the entry for the same
/// condition, or at the end when there was none.
pub open spec fn with_entry<'a>(entries: Seq<ConditionEntry<'a>>, entry: ConditionEntry<'a>) -> Seq<
    ConditionEntry<'a>,
> {
    let index = entry_index(entries, entry.condition_id, 0);
    if index < entries.len() {
        entries.update(index, entry)
    } else {
        entries.push(entry)
    }
}

/// Puts `entry` in the place of the entry for the same condition, or at
/// the end when there is none.
pub fn put_entry<'a>(entries: &mut Vec<ConditionEntry<'a>>, entry: ConditionEntry<'a>)
    ensures
        final(entries)@ == with_entry(old(entries)@, entry),
{
    let mut index: usize = 0;
    while index < entries.len()
        invariant
            index <= entries@.len(),
            entries@ == old(entries)@,
            entry_index(entries@, entry.condition_id, index as int) == entry_index(entries@, entry.condition_id, 0),
        decreases entries@.len() - index,
    {
        if entries[index].condition_id == entry.condition_id {
            entries[index] = entry;
            return;
        }
        index = index + 1;
    }
    entries.push(entry);
}

} // verus!
