//! Processes and their lifecycle states.

use vstd::prelude::*;

verus! {

/// The lifecycle states a process moves through.
#[derive(Debug, Clone, Copy, PartialEq, Eq, Structural)]
pub enum ProcessState {
    Ready,
    Running,
    Waiting,
    Terminated,
}

/// One process: its identifier, state and name.
#[derive(Debug)]
pub struct Process {
    pub pid: u64,
    pub state: ProcessState,
    pub name: &'static str,
}

impl Process {
    /// A fresh process in the `Ready` state. Identifiers are handed out by
    /// the scheduler, which owns the counter; a fresh process carries the
    /// unassigned identifier 0 until it is scheduled.
    pub fn new(name: &'static str) -> (r: Self)
        ensures
            r.pid == 0,
            r.state == ProcessState::Ready,
            r.name == name,
    {
        Process { pid: 0, state: ProcessState::Ready, name }
    }

    /// Mark the process as running.
    pub fn run(&mut self)
        ensures
            final(self).state == ProcessState::Running,
            final(self).pid == old(self).pid,
            final(self).name == old(self).name,
    {
        self.state = ProcessState::Running;
    }

    /// Mark the process as terminated.
    pub fn terminate(&mut self)
        ensures
            final(self).state == ProcessState::Terminated,
            final(self).pid == old(self).pid,
            final(self).name == old(self).name,
    {
        self.state = ProcessState::Terminated;
    }
}

} // verus!
