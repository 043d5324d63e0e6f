use bumpalo::Bump;
use vstd::prelude::*;

verus! {

#[verifier::external_type_specification]
#[verifier::external_body]
pub struct ExBump<const MIN_ALIGN: usize>(Bump<MIN_ALIGN>);

/// Calls `Bump::alloc`, which moves `value` into the arena and hands back a
/// reference to it that lives as long as the borrow of the arena. The
/// contract claims that the reference leads to the value that was handed in.
/// Like any allocation, the call does not come back when the arena cannot
/// get the memory, or is past a limit that was set on it. The arena never
/// runs destructors, so only values that own nothing outside the arena
/// should be stored.
#[verifier::external_body]
pub(crate) fn alloc_in<'a, T>(bump: &'a Bump, value: T) -> (stored: &'a T)
    ensures
        *stored == value,
{
    bump.alloc(value)
}

} // verus!
