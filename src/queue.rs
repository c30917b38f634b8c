//! An ordered sequence of jobs.
use vstd::prelude::*;

use crate::job::{Job, JobView};

verus! {

/// Jobs kept in the order in which they were added.
#[derive(Debug)]
pub struct FifoQueue {
    jobs: Vec<Job>,
}

impl View for FifoQueue {
    type V = Seq<JobView>;

    closed spec fn view(&self) -> Seq<JobView> {
        self.jobs@.map_values(|j: Job| j@)
    }
}

impl FifoQueue {
    /// An empty queue.
    pub fn new() -> (r: FifoQueue)
        ensures
            r@ == Seq::<JobView>::empty(),
    {
        let r = FifoQueue { jobs: Vec::new() };
        assert(r@ =~= Seq::<JobView>::empty());
        r
    }

    /// Appends a job at the back.
    pub fn enque(&mut self, job: Job)
        ensures
            final(self)@ == old(self)@.push(job@),
    {
        self.jobs.push(job);
        assert(self@ =~= old(self)@.push(job@));
    }

    /// Number of jobs held.
    pub fn len(&self) -> (r: usize)
        ensures
            r == self@.len(),
    {
        self.jobs.len()
    }

    /// A copy of the jobs held, front first.
    pub fn snapshot(&self) -> (r: Vec<Job>)
        ensures
            r@.map_values(|j: Job| j@) == self@,
    {
        let mut out: Vec<Job> = Vec::new();
        let mut i: usize = 0;
        while i < self.jobs.len()
            invariant
                i <= self.jobs@.len(),
                out@.map_values(|j: Job| j@) == self@.subrange(0, i as int),
            decreases self.jobs@.len() - i,
        {
            let j = self.jobs[i].duplicate();
            proof {
                assert(out@.push(j).map_values(|j: Job| j@) =~= out@.map_values(|j: Job| j@).push(j@));
                assert(self@.subrange(0, i + 1) =~= self@.subrange(0, i as int).push(self.jobs@[i as int]@));
            }
            out.push(j);
            i += 1;
        }
        assert(self@.subrange(0, self@.len() as int) =~= self@);
        out
    }
}

} // verus!
