use super::counter_cell::CounterCell;
use super::print_items::{Condition, ConditionProperties, ConditionResolver, PrintItems};
use vstd::prelude::*;

verus! {

/// A condition that takes `true_item` where the column is more than
/// `width` columns past the start of the line, else `false_item`.
pub fn if_above_width_or(width: u8, true_item: PrintItems, false_item: PrintItems, counter: &mut CounterCell) -> (condition: Condition)
    requires
        old(counter).value() < usize::MAX,
    ensures
        final(counter).value() == old(counter).value() + 1,
        condition.id == old(counter).value() + 1,
        condition.name == "ifAboveWidth",
        !condition.is_stored,
        condition.dependent_infos is None,
        condition.condition == ConditionResolver::IsAboveWidth(width),
        condition.true_path == Some(true_item),
        condition.false_path == if false_item@.len() == 0 {
            None
        } else {
            Some(false_item)
        },
{
    let false_path = if false_item.is_empty() {
        None
    } else {
        Some(false_item)
    };
    Condition::new(
        "ifAboveWidth",
        ConditionProperties { condition: ConditionResolver::IsAboveWidth(width), true_path: Some(true_item), false_path },
        counter,
    )
}

/// A condition that takes `items` where the column is more than `width`
/// columns past the start of the line, and nothing elsewhere.
pub fn if_above_width(width: u8, items: PrintItems, counter: &mut CounterCell) -> (condition: Condition)
    requires
        old(counter).value() < usize::MAX,
    ensures
        final(counter).value() == old(counter).value() + 1,
        condition.id == old(counter).value() + 1,
        condition.name == "ifAboveWidth",
        !condition.is_stored,
        condition.dependent_infos is None,
        condition.condition == ConditionResolver::IsAboveWidth(width),
        condition.true_path == Some(items),
        condition.false_path is None,
{
    if_above_width_or(width, items, PrintItems::new(), counter)
}

} // verus!
