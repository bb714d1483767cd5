//! A message queue: new messages go to the front, and the worker takes
//! from the front. The
//! waiting for a message is done by the caller; this module decides what
//! is taken.

use vstd::prelude::*;
use std::collections::VecDeque;

verus! {

broadcast use vstd::std_specs::vecdeque::group_vec_dequeue_axioms;

/// A message; it carries nothing.
#[derive(Clone, Copy, Debug, PartialEq, Eq, Structural)]
pub struct Msg {}

/// The queue of messages.
pub struct Messages {
    messages: VecDeque<Msg>,
}

impl Messages {
    /// The queued messages, front first.
    pub closed spec fn queued(&self) -> Seq<Msg> {
        self.messages@
    }

    /// An empty queue.
    pub fn new() -> (r: Messages)
        ensures
            r.queued() == Seq::<Msg>::empty(),
    {
        Messages { messages: VecDeque::new() }
    }

    /// Number of queued messages.
    pub fn len(&self) -> (n: usize)
        ensures
            n == self.queued().len(),
    {
        self.messages.len()
    }

    /// Puts a message at the front of the queue.
    pub fn enqueue_msg(&mut self, mp: Msg)
        ensures
            final(self).queued() == seq![mp] + old(self).queued(),
    {
        self.messages.push_front(mp);
    }

    /// One round of the worker: when the queue is empty there is nothing to
    /// take and the worker is to wait; otherwise the front message is taken.
    pub fn process_msg(&mut self) -> (r: Option<Msg>)
        ensures
            old(self).queued().len() == 0 ==> r is None && final(self).queued() == old(self).queued(),
            old(self).queued().len() > 0 ==> r == Some(old(self).queued()[0])
                && final(self).queued() == old(self).queued().drop_first(),
    {
        if self.messages.len() == 0 {
            return None;
        }
        self.messages.pop_front()
    }
}

/// A message enqueued and then taken is the one taken, and the queue is
/// back to what it was.
pub proof fn law_enqueue_then_process(q: Seq<Msg>, mp: Msg)
    ensures
        (seq![mp] + q).len() > 0,
        (seq![mp] + q)[0] == mp,
        (seq![mp] + q).drop_first() == q,
{
    assert((seq![mp] + q).drop_first() =~= q);
}

} // verus!
