use vstd::prelude::*;

verus! {

/// The dispatcher's accounting: how many jobs are out in the pool, and
/// whether shutdown has been asked for.
#[derive(Clone, Copy, Debug)]
pub struct WorkerState {
    pub(crate) ongoing: i16,
    pub(crate) existing: bool,
}

impl WorkerState {
    /// The counter of outstanding work never goes below zero.
    pub open spec fn wf(&self) -> bool {
        self.outstanding() >= 0
    }

    /// How many jobs are out in the pool.
    pub closed spec fn outstanding(&self) -> int {
        self.ongoing as int
    }

    /// Whether shutdown has been asked for.
    pub closed spec fn shutting_down(&self) -> bool {
        self.existing
    }

    /// Nothing outstanding, no shutdown seen.
    pub fn init() -> (r: Self)
        ensures
            r.wf(),
            r.outstanding() == 0,
            !r.shutting_down(),
    {
        WorkerState { ongoing: 0, existing: false }
    }

    /// Records `count` more jobs handed to the pool.
    pub fn set_ongoing(&mut self, count: i16)
        requires
            count >= 0,
            old(self).outstanding() + count <= i16::MAX,
        ensures
            final(self).outstanding() == old(self).outstanding() + count,
            final(self).shutting_down() == old(self).shutting_down(),
    {
        self.ongoing = self.ongoing + count;
    }

    /// Records whether shutdown has been asked for.
    pub fn set_existing(&mut self, existing: bool)
        ensures
            final(self).outstanding() == old(self).outstanding(),
            final(self).shutting_down() == existing,
    {
        self.existing = existing;
    }

    /// Records `count` jobs that the pool reported finished.
    pub fn unset_ongoing(&mut self, count: i16)
        requires
            0 <= count <= old(self).outstanding(),
        ensures
            final(self).outstanding() == old(self).outstanding() - count,
            final(self).shutting_down() == old(self).shutting_down(),
    {
        self.ongoing = self.ongoing - count;
    }

    pub fn is_existing(&self) -> (r: bool)
        ensures
            r == self.shutting_down(),
    {
        self.existing
    }

    pub fn is_no_more_work(&self) -> (r: bool)
        ensures
            r == (self.outstanding() == 0),
    {
        self.ongoing == 0
    }

    pub fn ongoing(&self) -> (r: i16)
        ensures
            r as int == self.outstanding(),
    {
        self.ongoing
    }
}

} // verus!
