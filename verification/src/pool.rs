//! The worker pool's job queue: an unbounded FIFO hand-off between the
//! accept loop (producer) and a fixed set of workers (consumers). The queue
//! is the only state the pool's correctness depends on; the threads
//! themselves, and the mutual exclusion around the dequeue step, live at the
//! process edge outside this crate.
//!
//! The ghost history records every job ever submitted and every job handed
//! to a worker, so the delivery discipline — each submitted job delivered
//! exactly once, in FIFO submission order — is an invariant of the type, not
//! a property of any one schedule.

use vstd::prelude::*;

verus! {

/// A pool of `size` workers draining one shared FIFO job queue.
pub struct ThreadPool<T> {
    queue: Vec<T>,
    size: usize,
    submitted: Ghost<Seq<T>>,
    delivered: Ghost<Seq<T>>,
}

impl<T> ThreadPool<T> {
    /// Every job ever submitted was either handed to a worker (in `delivered`,
    /// in hand-off order) or still waits in the queue — and nothing else was.
    pub closed spec fn wf(self) -> bool {
        self.submitted@ == self.delivered@ + self.queue@ && self.size >= 1
    }

    /// The jobs submitted so far, in submission order.
    pub closed spec fn submitted(self) -> Seq<T> {
        self.submitted@
    }

    /// The jobs handed to workers so far, in hand-off order.
    pub closed spec fn delivered(self) -> Seq<T> {
        self.delivered@
    }

    /// The jobs still waiting, oldest first.
    pub closed spec fn pending(self) -> Seq<T> {
        self.queue@
    }

    /// The number of workers the pool was created with.
    pub closed spec fn size(self) -> nat {
        self.size as nat
    }

    /// Creates a pool of `size` workers sharing one job queue. A pool of
    /// zero workers could never drain the queue, so that size is a
    /// programmer error, ruled out here rather than handled at run time.
    pub fn new(size: usize) -> (r: ThreadPool<T>)
        requires
            size >= 1,
        ensures
            r.wf(),
            r.size() == size,
            r.submitted() == Seq::<T>::empty(),
            r.delivered() == Seq::<T>::empty(),
            r.pending() == Seq::<T>::empty(),
    {
        ThreadPool {
            queue: Vec::new(),
            size,
            submitted: Ghost(Seq::empty()),
            delivered: Ghost(Seq::empty()),
        }
    }

    /// Enqueues `job` for the next available worker. Never blocks: the queue
    /// is unbounded, so submission always succeeds and only the submission
    /// history and the pending queue grow, each by exactly this job.
    pub fn execute(&mut self, job: T)
        requires
            old(self).wf(),
        ensures
            final(self).wf(),
            final(self).size() == old(self).size(),
            final(self).submitted() == old(self).submitted().push(job),
            final(self).delivered() == old(self).delivered(),
            final(self).pending() == old(self).pending().push(job),
    {
        proof {
            self.submitted@ = self.submitted@.push(job);
        }
        self.queue.push(job);
        proof {
            assert(self.submitted@ =~= self.delivered@ + self.queue@);
        }
    }

    /// Hands the oldest pending job to the calling worker, or nothing when
    /// the queue is empty. The caller takes exclusive ownership of the job:
    /// it leaves the queue and is appended to the delivery history, so no
    /// other worker can ever receive it again.
    pub fn take_job(&mut self) -> (r: Option<T>)
        requires
            old(self).wf(),
        ensures
            final(self).wf(),
            final(self).size() == old(self).size(),
            final(self).submitted() == old(self).submitted(),
            match r {
                Some(job) => {
                    &&& old(self).pending().len() > 0
                    &&& job == old(self).pending()[0]
                    &&& final(self).pending() == old(self).pending().drop_first()
                    &&& final(self).delivered() == old(self).delivered().push(job)
                },
                None => old(self).pending().len() == 0 && *final(self) == *old(self),
            },
    {
        if self.queue.len() == 0 {
            None
        } else {
            let job = self.queue.remove(0);
            proof {
                self.delivered@ = self.delivered@.push(job);
                assert(self.queue@ =~= old(self).queue@.drop_first());
                assert(self.submitted@ =~= self.delivered@ + self.queue@);
            }
            Some(job)
        }
    }

    /// How many jobs are waiting.
    pub fn pending_count(&self) -> (r: usize)
        ensures
            r == self.pending().len(),
    {
        self.queue.len()
    }
}

/// Jobs are delivered in FIFO submission order: at every point the delivery
/// history is exactly the first `delivered().len()` submissions, and the
/// queue holds exactly the rest, oldest first.
pub proof fn lemma_fifo_order<T>(p: ThreadPool<T>)
    requires
        p.wf(),
    ensures
        p.delivered() == p.submitted().take(p.delivered().len() as int),
        p.pending() == p.submitted().skip(p.delivered().len() as int),
{
    assert(p.delivered() =~= p.submitted().take(p.delivered().len() as int));
    assert(p.pending() =~= p.submitted().skip(p.delivered().len() as int));
}

/// Once the queue has been drained, every submitted job — however many more
/// than the pool size were submitted — has been handed to a worker exactly
/// once: the delivery history equals the submission history, so no job is
/// dropped, repeated, or shared between workers.
pub proof fn lemma_drained_all_delivered_once<T>(p: ThreadPool<T>)
    requires
        p.wf(),
        p.pending().len() == 0,
    ensures
        p.delivered() == p.submitted(),
{
    assert(p.delivered() =~= p.submitted());
}

} // verus!
