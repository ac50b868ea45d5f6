//! The queue of registrations that wait for the next update, held in a
//! `crossbeam_queue::SegQueue`.
use vstd::prelude::*;
use crossbeam_queue::SegQueue;
use super::ActionBinding;

verus! {

#[verifier::external_type_specification]
#[verifier::external_body]
#[verifier::reject_recursive_types(T)]
pub struct ExSegQueue<T>(SegQueue<T>);

/// The registrations that a queue holds, oldest first, each name taken by
/// its characters.
pub uninterp spec fn queued(q: SegQueue<(String, ActionBinding)>) -> Seq<(Seq<char>, ActionBinding)>;

/// `SegQueue::new`: the new queue holds nothing.
#[verifier::external_body]
pub(crate) fn queue_new() -> (q: SegQueue<(String, ActionBinding)>)
    ensures
        queued(q) == Seq::<(Seq<char>, ActionBinding)>::empty(),
{
    SegQueue::new()
}

/// `SegQueue::push`: the value is appended behind everything already queued.
/// The queue's position counters grow by at least two with every push over
/// its lifetime; their overflow, after about `usize::MAX / 2` pushes (some
/// 2^63 on a 64-bit target), is not ruled out here.
#[verifier::external_body]
pub(crate) fn queue_push(q: &mut SegQueue<(String, ActionBinding)>, value: (String, ActionBinding))
    ensures
        queued(*final(q)) == queued(*old(q)).push((value.0@, value.1)),
{
    q.push(value)
}

/// `SegQueue::pop_mut`: removes and returns the oldest value, or returns
/// `None` and leaves the queue as it is when it is empty.
#[verifier::external_body]
pub(crate) fn queue_pop(q: &mut SegQueue<(String, ActionBinding)>) -> (r: Option<(String, ActionBinding)>)
    ensures
        match r {
            None => queued(*old(q)).len() == 0 && queued(*final(q)) == queued(*old(q)),
            Some(value) => {
                &&& queued(*old(q)).len() > 0
                &&& (value.0@, value.1) == queued(*old(q))[0]
                &&& queued(*final(q)) == queued(*old(q)).drop_first()
            },
        },
{
    q.pop_mut()
}

} // verus!
