//! A queue of jobs, each addressed to a thread: jobs are put at the front
//! or at the back, removed by their place in the queue, and found by the
//! thread they are for.

use vstd::prelude::*;
use std::collections::VecDeque;

verus! {

broadcast use vstd::std_specs::vecdeque::group_vec_dequeue_axioms;

/// A job for the thread with this identifier.
#[derive(Clone, Copy, Debug)]
pub struct Job {
    pub thread_id: u64,
}

/// The position of the first job of `q` for thread `id`.
pub open spec fn first_for_thread(q: Seq<Job>, id: u64, k: int) -> bool {
    &&& 0 <= k < q.len()
    &&& q[k].thread_id == id
    &&& forall|j: int| 0 <= j < k ==> q[j].thread_id != id
}

/// The queue.
pub struct Queue {
    q: VecDeque<Job>,
}

impl Queue {
    /// The jobs, front first.
    pub closed spec fn jobs(&self) -> Seq<Job> {
        self.q@
    }

    /// An empty queue.
    pub fn new() -> (r: Queue)
        ensures
            r.jobs() == Seq::<Job>::empty(),
    {
        Queue { q: VecDeque::new() }
    }

    /// Number of queued jobs.
    pub fn len(&self) -> (n: usize)
        ensures
            n == self.jobs().len(),
    {
        self.q.len()
    }

    /// Puts a job at the front.
    pub fn job_insert(&mut self, job: Job)
        ensures
            final(self).jobs() == seq![job] + old(self).jobs(),
    {
        self.q.push_front(job);
    }

    /// Puts a job at the back.
    pub fn job_append(&mut self, job: Job)
        ensures
            final(self).jobs() == old(self).jobs().push(job),
    {
        self.q.push_back(job);
    }

    /// Removes the job at position `k` (a job is known by its place in the
    /// queue, not by its contents): from the front, from the back, or from
    /// the middle; the other jobs keep their order.
    pub fn job_remove(&mut self, k: usize)
        requires
            k < old(self).jobs().len(),
        ensures
            final(self).jobs() == old(self).jobs().remove(k as int),
    {
        if k == 0 {
            let _ = self.q.pop_front();
            assert(old(self).jobs().subrange(1, old(self).jobs().len() as int) =~= old(
                self,
            ).jobs().remove(0));
        } else if k == self.q.len() - 1 {
            let _ = self.q.pop_back();
            assert(old(self).jobs().subrange(0, old(self).jobs().len() - 1) =~= old(
                self,
            ).jobs().remove(k as int));
        } else {
            let _ = self.q.remove(k);
        }
    }

    /// Finds the first job for thread `id`.
    pub fn job_find(&self, id: u64) -> (r: Option<&Job>)
        ensures
            match r {
                Some(job) => exists|k: int|
                    first_for_thread(self.jobs(), id, k) && *job == #[trigger] self.jobs()[k],
                None => forall|j: int|
                    0 <= j < self.jobs().len() ==> (#[trigger] self.jobs()[j]).thread_id != id,
            },
    {
        let mut pos: usize = 0;
        while pos < self.q.len()
            invariant
                pos <= self.q@.len(),
                forall|j: int| 0 <= j < pos ==> (#[trigger] self.q@[j]).thread_id != id,
            decreases self.q@.len() - pos,
        {
            if self.q[pos].thread_id == id {
                let found = &self.q[pos];
                assert(first_for_thread(self.jobs(), id, pos as int) && *found
                    == self.jobs()[pos as int]);
                return Some(found);
            }
            pos = pos + 1;
        }
        None
    }
}

/// A job appended to a queue that holds no job for its thread is the one
/// that a lookup of that thread finds.
pub proof fn law_append_then_find(q: Seq<Job>, job: Job)
    requires
        forall|j: int| 0 <= j < q.len() ==> (#[trigger] q[j]).thread_id != job.thread_id,
    ensures
        first_for_thread(q.push(job), job.thread_id, q.len() as int),
        forall|k: int| first_for_thread(q.push(job), job.thread_id, k) ==> k == q.len(),
{
    assert(q.push(job)[q.len() as int] == job);
}

} // verus!
