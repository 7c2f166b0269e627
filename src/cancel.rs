//! The slot that holds the one long-running job a caller may cancel.
//!
//! A registry holds at most one process id. The job registers its process
//! when it starts; a cancellation request takes the id out, to terminate
//! that process, and marks the job cancelled; the job, when it ends, learns
//! whether it was cancelled. The caller keeps the registry behind one lock.
use vstd::prelude::*;

verus! {

pub struct JobRegistry {
    current: Option<u32>,
    cancelled: bool,
}

/// The running job's process id, if any, and whether its cancellation was
/// requested.
pub struct RegistryView {
    pub current: Option<u32>,
    pub cancelled: bool,
}

impl View for JobRegistry {
    type V = RegistryView;

    closed spec fn view(&self) -> RegistryView {
        RegistryView { current: self.current, cancelled: self.cancelled }
    }
}

impl JobRegistry {
    /// An empty registry.
    pub fn new() -> (r: JobRegistry)
        ensures
            r@ == (RegistryView { current: None, cancelled: false }),
    {
        JobRegistry { current: None, cancelled: false }
    }

    /// The process id of the running job.
    pub fn current(&self) -> (r: Option<u32>)
        ensures
            r == self@.current,
    {
        self.current
    }

    /// Registers `pid` as the running job. Refused, with nothing changed,
    /// while another job is registered.
    pub fn start(&mut self, pid: u32) -> (r: bool)
        ensures
            r == (old(self)@.current is None),
            r ==> final(self)@ == (RegistryView { current: Some(pid), cancelled: false }),
            !r ==> final(self)@ == old(self)@,
    {
        if self.current.is_some() {
            false
        } else {
            self.current = Some(pid);
            self.cancelled = false;
            true
        }
    }

    /// A cancellation request: hands out the process to terminate, if a job
    /// runs, and marks that job cancelled.
    pub fn cancel(&mut self) -> (r: Option<u32>)
        ensures
            r == old(self)@.current,
            final(self)@.current == old(self)@.current,
            final(self)@.cancelled == (old(self)@.cancelled || old(self)@.current is Some),
    {
        if self.current.is_some() {
            self.cancelled = true;
        }
        self.current
    }

    /// The job with process `pid` has ended: the slot is emptied if it
    /// holds `pid`. Returns whether that job's cancellation was requested.
    pub fn finish(&mut self, pid: u32) -> (r: bool)
        ensures
            old(self)@.current == Some(pid) ==> r == old(self)@.cancelled && final(self)@ == (
            RegistryView { current: None, cancelled: false }),
            old(self)@.current != Some(pid) ==> !r && final(self)@ == old(self)@,
    {
        match self.current {
            Some(p) => {
                if p == pid {
                    let was = self.cancelled;
                    self.current = None;
                    self.cancelled = false;
                    was
                } else {
                    false
                }
            },
            None => false,
        }
    }
}

} // verus!
