//! The actions bound to one binding, held in a `smallvec::SmallVec`.
use vstd::prelude::*;
use smallvec::SmallVec;
use super::ActionKey;

verus! {

/// A list of action keys. The `SmallVec` is held in a private field of a
/// type that Verus sees only through the functions below, since Verus does
/// not accept a declaration of `SmallVec` (its parameter is bound by
/// smallvec's own `Array` trait).
#[verifier::external_body]
pub struct ActionList {
    keys: SmallVec<[ActionKey; 4]>,
}

/// The keys that a list holds, in order.
pub uninterp spec fn listed(v: ActionList) -> Seq<ActionKey>;

/// The length below which `push` never computes an overflowing capacity:
/// the grown capacity stays under twice the new length, and the allocation
/// it asks for under `isize::MAX` bytes.
pub open spec fn list_growth_limit() -> int {
    isize::MAX as int / 16
}

/// `SmallVec::from_slice`: the new list holds the slice's keys in order.
#[verifier::external_body]
pub(crate) fn list_from_slice(keys: &[ActionKey]) -> (v: ActionList)
    ensures
        listed(v) == keys@,
{
    ActionList { keys: SmallVec::from_slice(keys) }
}

/// `SmallVec::push`: the key is appended at the end. `push` panics with
/// "capacity overflow" when the grown capacity cannot be computed, which
/// the length bound rules out; an allocation failure aborts the process.
#[verifier::external_body]
pub(crate) fn list_push(v: &mut ActionList, key: ActionKey)
    requires
        listed(*old(v)).len() < list_growth_limit(),
    ensures
        listed(*final(v)) == listed(*old(v)).push(key),
{
    v.keys.push(key)
}

/// `SmallVec::as_slice`: the slice shows the list's keys in order.
#[verifier::external_body]
pub(crate) fn list_as_slice(v: &ActionList) -> (s: &[ActionKey])
    ensures
        s@ == listed(*v),
{
    v.keys.as_slice()
}

} // verus!
