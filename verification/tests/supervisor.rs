use murmur::command::JobError;
use murmur::supervisor::{
    terminal_event, Failure, JobState, JobSupervisor, StreamEnd, TerminalEvent,
};

fn exited(code: i32) -> StreamEnd {
    StreamEnd::Exited { code: Some(code), signal: None }
}

#[test]
fn new_supervisor_is_idle() {
    let s = JobSupervisor::new();
    assert_eq!(s.state(), JobState::Idle);
    assert!(!s.has_handle());
}

#[test]
fn start_takes_the_slot() {
    let mut s = JobSupervisor::new();
    let job = s.start(Ok(())).unwrap();
    assert_eq!(job, 1);
    assert_eq!(s.job(), job);
    assert_eq!(s.state(), JobState::Running);
    assert!(s.has_handle());
}

#[test]
fn start_while_running_is_refused_and_changes_nothing() {
    let mut s = JobSupervisor::new();
    let job = s.start(Ok(())).unwrap();
    assert_eq!(s.start(Ok(())), Err(JobError::AlreadyRunning));
    assert_eq!(s.state(), JobState::Running);
    assert_eq!(s.job(), job);
    assert_eq!(s.exit(job, exited(0)), Some(TerminalEvent::Completed));
}

#[test]
fn start_while_terminating_is_refused() {
    let mut s = JobSupervisor::new();
    let job = s.start(Ok(())).unwrap();
    assert_eq!(s.cancel(), Some(job));
    assert_eq!(s.start(Ok(())), Err(JobError::AlreadyRunning));
    assert_eq!(s.state(), JobState::Terminating);
}

#[test]
fn cancel_when_idle_does_nothing() {
    let mut s = JobSupervisor::new();
    assert_eq!(s.cancel(), None);
    assert_eq!(s.state(), JobState::Idle);
    assert_eq!(s.job(), 0);
    assert_eq!(s.cancelled(0), None);
    assert_eq!(s.state(), JobState::Idle);
}

#[test]
fn natural_exit_completes_the_job() {
    let mut s = JobSupervisor::new();
    let job = s.start(Ok(())).unwrap();
    assert_eq!(s.exit(job, exited(0)), Some(TerminalEvent::Completed));
    assert_eq!(s.state(), JobState::Idle);
    assert_eq!(s.exit(job, exited(0)), None);
}

#[test]
fn exit_with_a_code_fails_the_job() {
    let mut s = JobSupervisor::new();
    let job = s.start(Ok(())).unwrap();
    assert_eq!(s.exit(job, exited(3)), Some(TerminalEvent::Failed(Failure::ExitCode(3))));
    assert_eq!(s.state(), JobState::Idle);
}

#[test]
fn terminal_event_for_each_end() {
    assert_eq!(terminal_event(exited(0)), TerminalEvent::Completed);
    assert_eq!(terminal_event(exited(1)), TerminalEvent::Failed(Failure::ExitCode(1)));
    assert_eq!(terminal_event(exited(-1)), TerminalEvent::Failed(Failure::ExitCode(-1)));
    assert_eq!(
        terminal_event(StreamEnd::Exited { code: Some(0), signal: Some(2) }),
        TerminalEvent::Completed
    );
    assert_eq!(
        terminal_event(StreamEnd::Exited { code: None, signal: Some(9) }),
        TerminalEvent::Failed(Failure::Killed { signal: Some(9) })
    );
    assert_eq!(
        terminal_event(StreamEnd::Exited { code: None, signal: None }),
        TerminalEvent::Failed(Failure::Killed { signal: None })
    );
    assert_eq!(
        terminal_event(StreamEnd::Failed { reason: "broken pipe".to_string() }),
        TerminalEvent::Failed(Failure::Stream { reason: "broken pipe".to_string() })
    );
}

#[test]
fn cancel_then_exit_emits_cancelled_once() {
    let mut s = JobSupervisor::new();
    let job = s.start(Ok(())).unwrap();
    let mut events = Vec::new();
    let to_end = s.cancel();
    assert_eq!(to_end, Some(job));
    events.extend(s.exit(job, StreamEnd::Exited { code: None, signal: Some(9) }));
    events.extend(s.cancelled(job));
    assert_eq!(events, vec![TerminalEvent::Cancelled]);
    assert_eq!(s.state(), JobState::Idle);
    assert!(s.start(Ok(())).is_ok());
}

#[test]
fn cancel_done_before_exit_emits_cancelled_once() {
    let mut s = JobSupervisor::new();
    let job = s.start(Ok(())).unwrap();
    let mut events = Vec::new();
    assert_eq!(s.cancel(), Some(job));
    events.extend(s.cancelled(job));
    events.extend(s.exit(job, exited(1)));
    assert_eq!(events, vec![TerminalEvent::Cancelled]);
    assert_eq!(s.state(), JobState::Idle);
    assert!(s.start(Ok(())).is_ok());
}

#[test]
fn exit_then_cancel_emits_the_exit_once() {
    let mut s = JobSupervisor::new();
    let job = s.start(Ok(())).unwrap();
    let mut events = Vec::new();
    events.extend(s.exit(job, exited(0)));
    assert_eq!(s.cancel(), None);
    events.extend(s.cancelled(job));
    assert_eq!(events, vec![TerminalEvent::Completed]);
    assert_eq!(s.state(), JobState::Idle);
    assert!(s.start(Ok(())).is_ok());
}

#[test]
fn second_cancel_does_nothing() {
    let mut s = JobSupervisor::new();
    let job = s.start(Ok(())).unwrap();
    assert_eq!(s.cancel(), Some(job));
    assert_eq!(s.cancel(), None);
    assert_eq!(s.state(), JobState::Terminating);
}

#[test]
fn late_notice_of_an_earlier_job_is_ignored() {
    let mut s = JobSupervisor::new();
    let first = s.start(Ok(())).unwrap();
    assert_eq!(s.cancel(), Some(first));
    assert_eq!(s.cancelled(first), Some(TerminalEvent::Cancelled));
    let second = s.start(Ok(())).unwrap();
    assert_ne!(first, second);
    assert_eq!(s.exit(first, exited(0)), None);
    assert_eq!(s.cancelled(first), None);
    assert_eq!(s.state(), JobState::Running);
    assert_eq!(s.exit(second, exited(0)), Some(TerminalEvent::Completed));
}

#[test]
fn jobs_are_numbered_in_turn() {
    let mut s = JobSupervisor::new();
    for n in 1..=5u64 {
        let job = s.start(Ok(())).unwrap();
        assert_eq!(job, n);
        assert_eq!(s.exit(job, exited(0)), Some(TerminalEvent::Completed));
    }
}

#[test]
fn start_without_process_fails_and_changes_nothing() {
    let mut s = JobSupervisor::new();
    assert_eq!(
        s.start(Err("no such file".to_string())),
        Err(JobError::ProcessSpawn { reason: "no such file".to_string() })
    );
    assert_eq!(s.state(), JobState::Idle);
    assert_eq!(s.job(), 0);
    assert_eq!(s.start(Ok(())), Ok(1));
}

#[test]
fn start_while_running_is_refused_whatever_was_spawned() {
    let mut s = JobSupervisor::new();
    let job = s.start(Ok(())).unwrap();
    assert_eq!(s.start(Err("x".to_string())), Err(JobError::AlreadyRunning));
    assert_eq!(s.state(), JobState::Running);
    assert_eq!(s.job(), job);
}

#[test]
fn failed_stream_fails_the_job_with_its_reason() {
    let mut s = JobSupervisor::new();
    let job = s.start(Ok(())).unwrap();
    assert_eq!(
        s.exit(job, StreamEnd::Failed { reason: "read error".to_string() }),
        Some(TerminalEvent::Failed(Failure::Stream { reason: "read error".to_string() }))
    );
    assert_eq!(s.state(), JobState::Idle);
}

#[test]
fn job_may_start_only_while_the_slot_is_empty() {
    let mut s = JobSupervisor::new();
    assert_eq!(s.may_start(), Ok(()));
    let job = s.start(Ok(())).unwrap();
    assert_eq!(s.may_start(), Err(JobError::AlreadyRunning));
    assert_eq!(s.state(), JobState::Running);
    assert_eq!(s.cancel(), Some(job));
    assert_eq!(s.may_start(), Err(JobError::AlreadyRunning));
    assert_eq!(s.cancelled(job), Some(TerminalEvent::Cancelled));
    assert_eq!(s.may_start(), Ok(()));
}

#[test]
fn events_are_accepted_only_while_the_job_runs() {
    let mut s = JobSupervisor::new();
    assert!(!s.accepts(0));
    assert!(!s.accepts(1));
    let job = s.start(Ok(())).unwrap();
    assert!(s.accepts(job));
    assert!(!s.accepts(job + 1));
    assert!(!s.accepts(0));
    assert_eq!(s.exit(job, exited(0)), Some(TerminalEvent::Completed));
    assert!(!s.accepts(job));
}

#[test]
fn nothing_is_accepted_once_a_cancellation_holds_the_slot() {
    let mut s = JobSupervisor::new();
    let job = s.start(Ok(())).unwrap();
    assert_eq!(s.cancel(), Some(job));
    assert!(!s.accepts(job));
    assert_eq!(s.cancelled(job), Some(TerminalEvent::Cancelled));
    assert!(!s.accepts(job));
    let next = s.start(Ok(())).unwrap();
    assert!(!s.accepts(job));
    assert!(s.accepts(next));
}
