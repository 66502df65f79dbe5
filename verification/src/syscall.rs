//! The process-facing system-call surface over the process module.

use vstd::prelude::*;
use crate::process::{Process, ProcessState};

verus! {

/// Create a process in the `Ready` state. The stack pointer is accepted for
/// interface compatibility; the process model does not interpret it.
pub fn syscall_create_process(name: &'static str, _stack_ptr: usize) -> (r: Process)
    ensures
        r.pid == 0,
        r.state == ProcessState::Ready,
        r.name == name,
{
    Process::new(name)
}

/// Terminate the given process.
pub fn syscall_terminate_process(process: &mut Process)
    ensures
        final(process).state == ProcessState::Terminated,
        final(process).pid == old(process).pid,
        final(process).name == old(process).name,
{
    process.terminate();
}

} // verus!
