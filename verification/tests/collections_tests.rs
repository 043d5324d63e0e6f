use bumpalo::Bump;
use dprint_core::formatting::print_items::{PrintItems, Signal};
use dprint_core::formatting::save_point::{PathStack, SavePoint, SavePointMap};
use dprint_core::formatting::writer::{Writer, WriterOptions};

fn save_point<'a>(bump: &'a Bump, name: &'static str, depth: u16) -> SavePoint<'a> {
    SavePoint {
        name,
        new_line_group_depth: depth,
        force_no_newlines_depth: 0,
        writer_state: Writer::new(bump, WriterOptions { indent_width: 2 }).get_state(),
        possible_new_line_save_point: None,
        node: None,
        look_ahead_condition_save_points: SavePointMap::new(),
        look_ahead_info_save_points: SavePointMap::new(),
        next_node_stack: PathStack::new(),
    }
}

#[test]
fn save_point_map_finds_what_was_put_last() {
    let bump = Bump::new();
    let first = save_point(&bump, "first", 1);
    let second = save_point(&bump, "second", 2);
    let mut map = SavePointMap::new();
    assert!(map.get(7).is_none());
    assert!(map.get_any_item().is_none());
    map.insert(&bump, 7, &first);
    map.insert(&bump, 8, &second);
    assert_eq!(map.get(7).unwrap().name, "first");
    assert_eq!(map.get(8).unwrap().name, "second");
    assert!(map.contains_key(7) && !map.contains_key(9));
    map.insert(&bump, 7, &second);
    assert_eq!(map.get(7).unwrap().new_line_group_depth, 2);
}

#[test]
fn save_point_map_forgets_what_was_removed() {
    let bump = Bump::new();
    let first = save_point(&bump, "first", 1);
    let mut map = SavePointMap::new();
    map.insert(&bump, 7, &first);
    assert!(map.remove(&bump, 8).is_none());
    assert_eq!(map.remove(&bump, 7).unwrap().name, "first");
    assert!(map.get(7).is_none());
    assert!(!map.contains_key(7));
    assert!(map.remove(&bump, 7).is_none());
    assert!(map.get_any_item().is_none());
    map.insert(&bump, 7, &first);
    assert_eq!(map.get_any_item().unwrap().name, "first");
}

#[test]
fn copy_of_a_save_point_map_stays_as_it_was() {
    let bump = Bump::new();
    let first = save_point(&bump, "first", 1);
    let second = save_point(&bump, "second", 2);
    let mut map = SavePointMap::new();
    map.insert(&bump, 1, &first);
    let copy = map.clone_map();
    map.insert(&bump, 2, &second);
    map.remove(&bump, 1);
    assert!(copy.contains_key(1) && !copy.contains_key(2));
    assert!(!map.contains_key(1) && map.contains_key(2));
    map.replace_map(copy);
    assert!(map.contains_key(1) && !map.contains_key(2));
}

#[test]
fn path_stack_hands_back_the_entry_put_last() {
    let bump = Bump::new();
    let mut items = PrintItems::new();
    items.push_signal(Signal::Tab);
    items.push_signal(Signal::NewLine);
    let first = items.first_node();
    let second = first.unwrap().get_next();
    let mut stack = PathStack::new();
    assert!(stack.is_empty());
    assert!(stack.pop().is_none());
    stack.push(&bump, first);
    stack.push(&bump, None);
    stack.push(&bump, second);
    let copy = stack;
    assert_eq!(stack.pop().unwrap().unwrap().index, 1);
    assert!(stack.pop().unwrap().is_none());
    assert_eq!(stack.pop().unwrap().unwrap().index, 0);
    assert!(stack.is_empty());
    assert!(!copy.is_empty());
}
