//! The job supervisor: one slot for one running process.
//!
//! The supervisor decides; the host acts. The host keeps the process handle
//! and calls the supervisor, under its lock, whenever something happens: a
//! process was spawned for a new job or could not be, the output stream
//! ended, a cancellation is asked for, a termination it was told to carry
//! out is done. Each call says what the host is to do next. A handle is
//! held exactly while the state is not `Idle`.
//!
//! While a job runs its consumer sends progress and lines of output. Before
//! each it asks the supervisor, under the same lock, whether the job still
//! holds the slot; so nothing of a job is sent after a cancellation has
//! taken the slot or after its terminal event.
//!
//! Each job gets a number when it starts. The consumer of a job's output
//! passes that number back when the stream ends, so that a late notice about
//! an earlier job cannot end the present one.

use vstd::prelude::*;
use crate::command::JobError;

verus! {

/// State of the slot.
#[derive(Clone, Copy, Debug, PartialEq, Eq)]
pub enum JobState {
    /// No job: the slot is empty.
    Idle,
    /// A job runs and its process handle is in the slot.
    Running,
    /// A cancellation has taken the handle and is ending the process.
    Terminating,
}

/// How the output stream of a process ended.
#[derive(Clone, Debug, PartialEq, Eq)]
pub enum StreamEnd {
    /// The process ended, with an exit code unless a signal ended it.
    Exited { code: Option<i32>, signal: Option<i32> },
    /// The stream failed, for the reason given.
    Failed { reason: String },
}

/// How the output stream of a process ended, with the reason of a failure
/// as a sequence of characters.
pub enum StreamEndView {
    Exited { code: Option<i32>, signal: Option<i32> },
    Failed { reason: Seq<char> },
}

impl View for StreamEnd {
    type V = StreamEndView;

    open spec fn view(&self) -> StreamEndView {
        match *self {
            StreamEnd::Exited { code, signal } => StreamEndView::Exited { code, signal },
            StreamEnd::Failed { reason } => StreamEndView::Failed { reason: reason@ },
        }
    }
}

/// Why a job failed.
#[derive(Clone, Debug, PartialEq, Eq)]
pub enum Failure {
    /// The process ended with an exit code other than zero.
    ExitCode(i32),
    /// The process ended without an exit code.
    Killed { signal: Option<i32> },
    /// The output stream failed, for the reason given.
    Stream { reason: String },
}

/// The last event of a job.
#[derive(Clone, Debug, PartialEq, Eq)]
pub enum TerminalEvent {
    Completed,
    Failed(Failure),
    Cancelled,
}

/// The terminal event for a job whose output stream ended by itself: the
/// job completed if the process ended with exit code zero; it failed with
/// the exit code if that is another, without one if the process had none,
/// and with the reason of the failure if the stream failed.
pub open spec fn terminal_for(end: StreamEnd) -> TerminalEvent {
    match end {
        StreamEnd::Exited { code: Some(code), signal } => if code == 0 {
            TerminalEvent::Completed
        } else {
            TerminalEvent::Failed(Failure::ExitCode(code))
        },
        StreamEnd::Exited { code: None, signal } => TerminalEvent::Failed(
            Failure::Killed { signal },
        ),
        StreamEnd::Failed { reason } => TerminalEvent::Failed(Failure::Stream { reason }),
    }
}

/// The number of the job that follows job `job`.
pub open spec fn job_after(job: u64) -> u64 {
    if job == u64::MAX {
        0
    } else {
        (job + 1) as u64
    }
}

/// What the supervisor knows: the state of the slot and the number of the
/// job that holds it, or held it last.
pub struct Slot {
    pub state: JobState,
    pub job: u64,
}

/// A call on the supervisor.
pub enum Call {
    /// A request to start a job; `spawned` tells whether its process could
    /// be spawned.
    Start { spawned: bool },
    /// The consumer of job `job` saw its output stream end.
    Exit { job: u64, end: StreamEnd },
    /// A request to cancel the running job.
    Cancel,
    /// The host has ended the process of job `job`, as a cancellation asked.
    Cancelled { job: u64 },
    /// The consumer of job `job` asks whether it may send an event of the job.
    Report { job: u64 },
}

/// The slot after `call`.
pub open spec fn after(slot: Slot, call: Call) -> Slot {
    match call {
        Call::Start { spawned } => if slot.state is Idle && spawned {
            Slot { state: JobState::Running, job: job_after(slot.job) }
        } else {
            slot
        },
        Call::Exit { job, end } => if slot.state is Running && slot.job == job {
            Slot { state: JobState::Idle, job: slot.job }
        } else {
            slot
        },
        Call::Cancel => if slot.state is Running {
            Slot { state: JobState::Terminating, job: slot.job }
        } else {
            slot
        },
        Call::Cancelled { job } => if slot.state is Terminating && slot.job == job {
            Slot { state: JobState::Idle, job: slot.job }
        } else {
            slot
        },
        Call::Report { job } => slot,
    }
}

/// Whether an event of job `job` may be sent: only while that job runs.
/// From the moment a cancellation has taken the slot, or the job has come
/// to its end, nothing of it is sent but its terminal event.
pub open spec fn accepts(slot: Slot, job: u64) -> bool {
    slot.state is Running && slot.job == job
}

/// Whether `call` is a report that is accepted.
pub open spec fn passes(slot: Slot, call: Call) -> bool {
    call matches Call::Report { job } && accepts(slot, job)
}

/// The terminal event that `call` emits, if it emits one.
pub open spec fn emitted(slot: Slot, call: Call) -> Option<TerminalEvent> {
    match call {
        Call::Exit { job, end } => if slot.state is Running && slot.job == job {
            Some(terminal_for(end))
        } else {
            None
        },
        Call::Cancelled { job } => if slot.state is Terminating && slot.job == job {
            Some(TerminalEvent::Cancelled)
        } else {
            None
        },
        _ => None,
    }
}

/// The slot after all of `calls`, in order.
pub open spec fn after_all(slot: Slot, calls: Seq<Call>) -> Slot
    decreases calls.len(),
{
    if calls.len() == 0 {
        slot
    } else {
        after(after_all(slot, calls.drop_last()), calls.last())
    }
}

/// The terminal events that `calls` emit, in order.
pub open spec fn emitted_by(slot: Slot, calls: Seq<Call>) -> Seq<TerminalEvent>
    decreases calls.len(),
{
    if calls.len() == 0 {
        Seq::empty()
    } else {
        let before = emitted_by(slot, calls.drop_last());
        match emitted(after_all(slot, calls.drop_last()), calls.last()) {
            Some(event) => before.push(event),
            None => before,
        }
    }
}

/// `merged` takes the calls of `a` and of `b`, each in its own order.
pub open spec fn interleaves(merged: Seq<Call>, a: Seq<Call>, b: Seq<Call>) -> bool
    decreases merged.len(),
{
    if merged.len() == 0 {
        a.len() == 0 && b.len() == 0
    } else {
        ||| a.len() > 0 && merged.last() == a.last() && interleaves(
            merged.drop_last(),
            a.drop_last(),
            b,
        )
        ||| b.len() > 0 && merged.last() == b.last() && interleaves(
            merged.drop_last(),
            a,
            b.drop_last(),
        )
    }
}

/// The supervisor of the one job that may run at a time.
pub struct JobSupervisor {
    state: JobState,
    job: u64,
}

impl View for JobSupervisor {
    type V = Slot;

    closed spec fn view(&self) -> Slot {
        Slot { state: self.state, job: self.job }
    }
}

impl JobSupervisor {
    /// A supervisor with an empty slot.
    pub fn new() -> (s: Self)
        ensures
            s@ == (Slot { state: JobState::Idle, job: 0 }),
    {
        JobSupervisor { state: JobState::Idle, job: 0 }
    }

    /// The state of the slot.
    pub fn state(&self) -> (state: JobState)
        ensures
            state == self@.state,
    {
        self.state
    }

    /// The number of the job that holds the slot, or held it last.
    pub fn job(&self) -> (job: u64)
        ensures
            job == self@.job,
    {
        self.job
    }

    /// Whether the host holds a process handle for the slot.
    pub fn has_handle(&self) -> (b: bool)
        ensures
            b == !(self@.state is Idle),
    {
        match self.state {
            JobState::Idle => false,
            _ => true,
        }
    }

    /// Whether a job may start: it may while the slot is empty. The host
    /// asks before it spawns a process.
    pub fn may_start(&self) -> (r: Result<(), JobError>)
        ensures
            self@.state is Idle ==> r is Ok,
            !(self@.state is Idle) ==> r == Err::<(), JobError>(JobError::AlreadyRunning),
    {
        match self.state {
            JobState::Idle => Ok(()),
            _ => Err(JobError::AlreadyRunning),
        }
    }

    /// Whether an event of job `job` may be sent. The consumer of a job
    /// asks, under the lock, before it sends progress or a line of output.
    pub fn accepts(&self, job: u64) -> (b: bool)
        ensures
            b == accepts(self@, job),
    {
        match self.state {
            JobState::Running => self.job == job,
            _ => false,
        }
    }

    /// Takes the slot for a new job and gives the job its number.
    ///
    /// `spawned` tells how spawning the process of the job went. The start
    /// is refused while the slot is taken, and fails if the process could
    /// not be spawned; either way nothing changes.
    pub fn start(&mut self, spawned: Result<(), String>) -> (r: Result<u64, JobError>)
        ensures
            final(self)@ == after(old(self)@, Call::Start { spawned: spawned is Ok }),
            !(old(self)@.state is Idle) ==> r == Err::<u64, JobError>(JobError::AlreadyRunning)
                && final(self)@ == old(self)@,
            old(self)@.state is Idle ==> match spawned {
                Ok(_) => r == Ok::<u64, JobError>(job_after(old(self)@.job)) && final(self)@.state
                    is Running,
                Err(reason) => r == Err::<u64, JobError>(JobError::ProcessSpawn { reason })
                    && final(self)@ == old(self)@,
            },
    {
        match self.state {
            JobState::Idle => match spawned {
                Ok(_) => {
                    let job = if self.job == u64::MAX {
                        0
                    } else {
                        self.job + 1
                    };
                    self.job = job;
                    self.state = JobState::Running;
                    Ok(job)
                },
                Err(reason) => Err(JobError::ProcessSpawn { reason }),
            },
            _ => Err(JobError::AlreadyRunning),
        }
    }

    /// Records that the output stream of job `job` has ended.
    ///
    /// If that job runs, the slot is cleared and the terminal event to emit
    /// is returned. If it does not (it was cancelled, or the notice is about
    /// an earlier job), nothing changes and nothing is to be emitted.
    pub fn exit(&mut self, job: u64, end: StreamEnd) -> (event: Option<TerminalEvent>)
        ensures
            final(self)@ == after(old(self)@, Call::Exit { job, end }),
            event == emitted(old(self)@, Call::Exit { job, end }),
    {
        match self.state {
            JobState::Running => {
                if self.job == job {
                    self.state = JobState::Idle;
                    Some(terminal_event(end))
                } else {
                    None
                }
            },
            _ => None,
        }
    }

    /// Asks for the running job to be cancelled.
    ///
    /// If a job runs, its handle is taken from the slot and its number is
    /// returned: the host is to end that process and then call
    /// [`JobSupervisor::cancelled`]. If none runs there is nothing to
    /// cancel: nothing changes, and that is no error.
    pub fn cancel(&mut self) -> (job: Option<u64>)
        ensures
            final(self)@ == after(old(self)@, Call::Cancel),
            old(self)@.state is Running ==> job == Some(old(self)@.job) && final(self)@.state
                is Terminating,
            !(old(self)@.state is Running) ==> job is None && final(self)@ == old(self)@,
    {
        match self.state {
            JobState::Running => {
                self.state = JobState::Terminating;
                Some(self.job)
            },
            _ => None,
        }
    }

    /// Records that the process of job `job` has been ended on request.
    ///
    /// If that job is being cancelled, the slot is cleared and the
    /// cancellation event is returned; otherwise nothing changes.
    pub fn cancelled(&mut self, job: u64) -> (event: Option<TerminalEvent>)
        ensures
            final(self)@ == after(old(self)@, Call::Cancelled { job }),
            event == emitted(old(self)@, Call::Cancelled { job }),
    {
        match self.state {
            JobState::Terminating => {
                if self.job == job {
                    self.state = JobState::Idle;
                    Some(TerminalEvent::Cancelled)
                } else {
                    None
                }
            },
            _ => None,
        }
    }
}

/// The terminal event for a job whose output stream ended by itself: the
/// job completed if the process ended with exit code zero, and failed
/// otherwise, with the exit code or with the reason for which the stream
/// failed.
pub fn terminal_event(end: StreamEnd) -> (event: TerminalEvent)
    ensures
        event == terminal_for(end),
{
    match end {
        StreamEnd::Exited { code: Some(code), signal } => {
            if code == 0 {
                TerminalEvent::Completed
            } else {
                TerminalEvent::Failed(Failure::ExitCode(code))
            }
        },
        StreamEnd::Exited { code: None, signal } => TerminalEvent::Failed(
            Failure::Killed { signal },
        ),
        StreamEnd::Failed { reason } => TerminalEvent::Failed(Failure::Stream { reason }),
    }
}

/// A job whose stream failed fails with the reason of that failure, and a
/// job whose process ended with an exit code other than zero fails with
/// that code.
pub proof fn lemma_failure_carries_its_cause(end: StreamEnd)
    ensures
        end@ matches StreamEndView::Failed { reason } ==> (terminal_for(end)
            matches TerminalEvent::Failed(Failure::Stream { reason: told }) && told@ == reason),
        end@ matches StreamEndView::Exited { code: Some(code), signal } ==> terminal_for(end) == if code
            == 0 {
            TerminalEvent::Completed
        } else {
            TerminalEvent::Failed(Failure::ExitCode(code))
        },
{
}

/// However the calls for one job follow each other, the job emits at most
/// one terminal event, and it has emitted exactly one when the slot is
/// empty again. While the slot is empty no call but a start has any effect.
pub proof fn lemma_one_terminal_event(slot: Slot, calls: Seq<Call>)
    requires
        forall|i: int| 0 <= i < calls.len() ==> !(calls[i] is Start),
    ensures
        after_all(slot, calls).job == slot.job,
        slot.state is Idle ==> after_all(slot, calls) == slot && emitted_by(slot, calls).len()
            == 0,
        !(slot.state is Idle) ==> emitted_by(slot, calls).len() == if after_all(
            slot,
            calls,
        ).state is Idle {
            1nat
        } else {
            0nat
        },
    decreases calls.len(),
{
    if calls.len() > 0 {
        assert(!(calls.last() is Start));
        lemma_one_terminal_event(slot, calls.drop_last());
    }
}

/// Nothing of a job follows its terminal event: once a call has emitted
/// the terminal event, no later report of the job is accepted, until a new
/// job starts; and a report is not accepted either while a cancellation
/// holds the slot.
pub proof fn lemma_nothing_follows_the_terminal_event(slot: Slot, calls: Seq<Call>, job: u64)
    requires
        forall|i: int| 0 <= i < calls.len() ==> !(calls[i] is Start),
        !(slot.state is Idle),
    ensures
        emitted_by(slot, calls).len() > 0 ==> !accepts(after_all(slot, calls), job),
        after_all(slot, calls).state is Terminating ==> !accepts(after_all(slot, calls), job),
        forall|k: int|
            0 <= k < calls.len() && emitted_by(slot, calls.take(k)).len() > 0 ==> !passes(
                after_all(slot, calls.take(k)),
                #[trigger] calls[k],
            ),
{
    lemma_one_terminal_event(slot, calls);
    assert forall|k: int|
        0 <= k < calls.len() && emitted_by(slot, calls.take(k)).len() > 0 implies !passes(
        after_all(slot, calls.take(k)),
        #[trigger] calls[k],
    ) by {
        assert forall|i: int| 0 <= i < calls.take(k).len() implies !(calls.take(k)[i] is Start) by {
            assert(calls.take(k)[i] == calls[i]);
        }
        lemma_one_terminal_event(slot, calls.take(k));
    }
}

/// When the end of a job's output stream races with a cancellation, in
/// whatever order their calls reach the supervisor, exactly one terminal
/// event is emitted and the slot is empty afterwards, so that a new job can
/// start at once.
pub proof fn lemma_exit_races_cancel(slot: Slot, end: StreamEnd, calls: Seq<Call>)
    requires
        slot.state is Running,
        interleaves(
            calls,
            seq![Call::Exit { job: slot.job, end }],
            seq![Call::Cancel, Call::Cancelled { job: slot.job }],
        ),
    ensures
        emitted_by(slot, calls).len() == 1,
        after_all(slot, calls).state is Idle,
        after(after_all(slot, calls), Call::Start { spawned: true }).state is Running,
{
    let exit = seq![Call::Exit { job: slot.job, end }];
    let cancel = seq![Call::Cancel, Call::Cancelled { job: slot.job }];
    assert forall|i: int| 0 <= i < calls.len() implies !(calls[i] is Start) by {
        lemma_interleaves_members(calls, exit, cancel, i);
    }
    lemma_one_terminal_event(slot, calls);
    lemma_interleaves_len(calls, exit, cancel);
    reveal_with_fuel(interleaves, 4);
    reveal_with_fuel(after_all, 4);
    let c2 = calls.drop_last();
    let c1 = c2.drop_last();
    let c0 = c1.drop_last();
    assert(c0.len() == 0);
    assert(exit.drop_last().len() == 0);
    assert(cancel.drop_last() =~= seq![Call::Cancel]);
    assert(cancel.drop_last().drop_last().len() == 0);
}

/// A merged sequence is as long as its two parts together.
proof fn lemma_interleaves_len(merged: Seq<Call>, a: Seq<Call>, b: Seq<Call>)
    requires
        interleaves(merged, a, b),
    ensures
        merged.len() == a.len() + b.len(),
    decreases merged.len(),
{
    if merged.len() > 0 {
        if a.len() > 0 && merged.last() == a.last() && interleaves(
            merged.drop_last(),
            a.drop_last(),
            b,
        ) {
            lemma_interleaves_len(merged.drop_last(), a.drop_last(), b);
        } else {
            lemma_interleaves_len(merged.drop_last(), a, b.drop_last());
        }
    }
}

/// Each call of a merged sequence is a call of one of its parts.
proof fn lemma_interleaves_members(merged: Seq<Call>, a: Seq<Call>, b: Seq<Call>, i: int)
    requires
        interleaves(merged, a, b),
        0 <= i < merged.len(),
    ensures
        a.contains(merged[i]) || b.contains(merged[i]),
    decreases merged.len(),
{
    if a.len() > 0 && merged.last() == a.last() && interleaves(
        merged.drop_last(),
        a.drop_last(),
        b,
    ) {
        if i == merged.len() - 1 {
            assert(a[a.len() - 1] == merged[i]);
        } else {
            lemma_interleaves_members(merged.drop_last(), a.drop_last(), b, i);
            if a.drop_last().contains(merged[i]) {
                let k = choose|k: int| 0 <= k < a.drop_last().len() && a.drop_last()[k] == merged[i];
                assert(a[k] == merged[i]);
            }
        }
    } else {
        if i == merged.len() - 1 {
            assert(b[b.len() - 1] == merged[i]);
        } else {
            lemma_interleaves_members(merged.drop_last(), a, b.drop_last(), i);
            if b.drop_last().contains(merged[i]) {
                let k = choose|k: int| 0 <= k < b.drop_last().len() && b.drop_last()[k] == merged[i];
                assert(b[k] == merged[i]);
            }
        }
    }
}

} // verus!
