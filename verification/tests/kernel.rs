use my_os::process::{Process, ProcessState};
use my_os::scheduler::Scheduler;
use my_os::syscall::{syscall_create_process, syscall_terminate_process};

#[test]
fn test_scheduler_round_robin() {
    let mut scheduler = Scheduler::new();

    let process1 = Process::new("Process 1");
    let process2 = Process::new("Process 2");

    scheduler.add_process(process1);
    scheduler.add_process(process2);

    let mut first = scheduler.next_process().expect("a ready process");
    assert_eq!(first.process.name, "Process 1");
    assert_eq!(first.process.state, ProcessState::Running);
    first.process.run();
    scheduler.complete_process(first.process);

    let mut second = scheduler.next_process().expect("a ready process");
    assert_eq!(second.process.name, "Process 2");
    second.process.run();
    scheduler.complete_process(second.process);
}

#[test]
fn test_scheduler_skips_non_ready() {
    let mut scheduler = Scheduler::new();

    let mut stopped = Process::new("Stopped");
    stopped.terminate();
    scheduler.add_process(stopped);
    scheduler.add_process(Process::new("Live"));

    let picked = scheduler.next_process().expect("a ready process");
    assert_eq!(picked.process.name, "Live");

    // only the terminated process is left, so nothing is ready
    assert!(scheduler.next_process().is_none());
    assert!(scheduler.next_process().is_none());
}

#[test]
fn test_scheduler_drops_terminated_on_completion() {
    let mut scheduler = Scheduler::new();
    scheduler.add_process(Process::new("Once"));

    let mut picked = scheduler.next_process().expect("a ready process");
    picked.process.terminate();
    scheduler.complete_process(picked.process);

    assert!(scheduler.next_process().is_none());
}

#[test]
fn test_generate_pid_distinct() {
    let mut scheduler = Scheduler::new();
    let a = scheduler.generate_pid();
    let b = scheduler.generate_pid();
    let c = scheduler.generate_pid();
    assert_eq!(a, 1);
    assert_eq!(b, 2);
    assert_eq!(c, 3);
}

#[test]
fn test_syscall_process_creation() {
    let process = syscall_create_process("TestSyscallProcess", 0x2000);
    assert_eq!(process.name, "TestSyscallProcess");
    assert_eq!(process.state, ProcessState::Ready);
}

#[test]
fn test_syscall_terminate_process() {
    let mut process = syscall_create_process("TermProcess", 0x3000);
    syscall_terminate_process(&mut process);
    assert_eq!(process.state, ProcessState::Terminated);
}
