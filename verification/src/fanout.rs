//! Bounded fan-out: which request may start next while no more than a
//! fixed number are under way.
//!
//! The scheduler only decides. Its caller starts the requests it names and
//! reports each one that ends.

use vstd::prelude::*;

verus! {

/// What the caller of a scheduler does next.
#[derive(Clone, Copy, Debug, PartialEq, Eq)]
pub enum Step {
    /// Start the request for the item with this index.
    Launch(usize),
    /// Wait until one of the requests under way has ended.
    Wait,
    /// Every item has been handled.
    Done,
}

/// The state of one batch: how many items there are, how many requests may
/// be under way at once, and how many were started and have ended.
pub struct FanOut {
    total: usize,
    limit: usize,
    started: usize,
    finished: usize,
}

impl FanOut {
    #[verifier::type_invariant]
    spec fn bounded(self) -> bool {
        &&& self.limit >= 1
        &&& self.finished <= self.started <= self.total
        &&& self.started - self.finished <= self.limit
    }

    /// The number of items in the batch.
    pub closed spec fn total(&self) -> nat {
        self.total as nat
    }

    /// The number of requests that may be under way at once.
    pub closed spec fn limit(&self) -> nat {
        self.limit as nat
    }

    /// The number of requests started so far.
    pub closed spec fn started(&self) -> nat {
        self.started as nat
    }

    /// The number of requests that have ended.
    pub closed spec fn finished(&self) -> nat {
        self.finished as nat
    }

    /// The number of requests under way.
    pub open spec fn in_flight(&self) -> int {
        self.started() - self.finished()
    }

    /// What holds of every batch: no request ends before it starts, none
    /// starts beyond the items, and no more are under way than the limit
    /// admits.
    pub open spec fn within_limit(&self) -> bool {
        &&& self.limit() >= 1
        &&& self.finished() <= self.started() <= self.total()
        &&& self.in_flight() <= self.limit()
    }

    /// A batch of `total` items of which at most `limit` are under way at
    /// once. A limit of zero admits no request, so there is no such batch.
    pub fn new(total: usize, limit: usize) -> (batch: Option<FanOut>)
        ensures
            batch is Some <==> limit > 0,
            batch matches Some(b) ==> b.total() == total && b.limit() == limit && b.started() == 0
                && b.finished() == 0 && b.within_limit(),
    {
        if limit == 0 {
            None
        } else {
            Some(FanOut { total, limit, started: 0, finished: 0 })
        }
    }

    /// The number of requests under way, which never exceeds the limit.
    pub fn requests_in_flight(&self) -> (n: usize)
        ensures
            n == self.in_flight(),
            self.within_limit(),
    {
        proof {
            use_type_invariant(self);
        }
        self.started - self.finished
    }

    /// Decides what happens next. A request is launched whenever an item is
    /// left and the limit is not reached; the items are launched in the
    /// order of their indices. The batch is done when every request has
    /// ended.
    pub fn next_step(&mut self) -> (step: Step)
        ensures
            final(self).total() == old(self).total(),
            final(self).limit() == old(self).limit(),
            final(self).finished() == old(self).finished(),
            old(self).within_limit(),
            final(self).within_limit(),
            match step {
                Step::Launch(index) => {
                    &&& old(self).started() < old(self).total()
                    &&& old(self).in_flight() < old(self).limit()
                    &&& index == old(self).started()
                    &&& final(self).started() == old(self).started() + 1
                },
                Step::Wait => {
                    &&& old(self).started() == old(self).total() || old(self).in_flight() == old(
                        self,
                    ).limit()
                    &&& old(self).in_flight() > 0
                    &&& final(self).started() == old(self).started()
                },
                Step::Done => {
                    &&& old(self).finished() == old(self).total()
                    &&& final(self).started() == old(self).started()
                },
            },
    {
        proof {
            use_type_invariant(&*self);
        }
        if self.started < self.total && self.started - self.finished < self.limit {
            let index = self.started;
            self.started = index + 1;
            Step::Launch(index)
        } else if self.started > self.finished {
            Step::Wait
        } else {
            Step::Done
        }
    }

    /// Takes note that one request has ended, and says whether one was
    /// under way; where none was, nothing changes.
    pub fn complete(&mut self) -> (noted: bool)
        ensures
            noted == (old(self).in_flight() > 0),
            final(self).total() == old(self).total(),
            final(self).limit() == old(self).limit(),
            final(self).started() == old(self).started(),
            final(self).finished() == old(self).finished() + if noted {
                1nat
            } else {
                0nat
            },
            old(self).within_limit(),
            final(self).within_limit(),
    {
        proof {
            use_type_invariant(&*self);
        }
        if self.started > self.finished {
            self.finished = self.finished + 1;
            true
        } else {
            false
        }
    }
}

} // verus!
