//! The decisions of the unattended runner, as a state machine: the caller
//! starts agent runs, asks questions and waits for replies, and reports what
//! happened as an event; each event yields the next state and the next thing
//! to do. Crash recovery decides from the saved state where a run resumes.

use vstd::prelude::*;
use crate::autorun::{capped_backoff, is_retryable, lowercase, retry_delay, retryable_text, AutorunPhase, OperatorStatus};

verus! {

// ── recovery ────────────────────────────────────────────────────────────────

/// What the state file of an earlier run held, as far as recovery reads it.
#[derive(Debug)]
pub struct SavedRun {
    pub phase: AutorunPhase,
    pub session_id: Option<String>,
    pub pending_question: Option<String>,
    pub agent_pgid: Option<i32>,
    pub invocation_count: u32,
}

/// How a run starts, given the state file of an earlier run.
#[derive(Debug)]
pub enum RecoveryAction {
    /// No state file: a clean start.
    CleanStart,
    /// The earlier run was mid-invocation, or its pending question was
    /// unreadable: kill the process group if one is recorded and alive,
    /// delete the state file, and start afresh from the saved count.
    StartFresh { invocation_count: u32, kill_pgid: Option<i32> },
    /// The earlier run waited for a reply: kill any leftover process group,
    /// ask the question again and resume the session with the reply.
    ResumePendingInput { session_id: String, question: String, invocation_count: u32, kill_pgid: Option<i32> },
}

/// A recovery action as plain values.
pub ghost enum RecoveryV {
    CleanStart,
    StartFresh { invocation_count: u32, kill_pgid: Option<i32> },
    ResumePendingInput { session_id: Seq<char>, question: Seq<char>, invocation_count: u32, kill_pgid: Option<i32> },
}

impl View for RecoveryAction {
    type V = RecoveryV;

    open spec fn view(&self) -> RecoveryV {
        match self {
            RecoveryAction::CleanStart => RecoveryV::CleanStart,
            RecoveryAction::StartFresh { invocation_count, kill_pgid } => RecoveryV::StartFresh {
                invocation_count: *invocation_count,
                kill_pgid: *kill_pgid,
            },
            RecoveryAction::ResumePendingInput { session_id, question, invocation_count, kill_pgid } => {
                RecoveryV::ResumePendingInput {
                    session_id: session_id@,
                    question: question@,
                    invocation_count: *invocation_count,
                    kill_pgid: *kill_pgid,
                }
            },
        }
    }
}

/// The recovery for a saved state (none when the file is missing or corrupt).
pub open spec fn recovery_for(saved: Option<SavedRun>) -> RecoveryV {
    match saved {
        None => RecoveryV::CleanStart,
        Some(st) => match st.phase {
            AutorunPhase::Running => RecoveryV::StartFresh { invocation_count: st.invocation_count, kill_pgid: st.agent_pgid },
            AutorunPhase::PendingInput => match (st.session_id, st.pending_question) {
                (Some(sid), Some(q)) => RecoveryV::ResumePendingInput {
                    session_id: sid@,
                    question: q@,
                    invocation_count: st.invocation_count,
                    kill_pgid: st.agent_pgid,
                },
                _ => RecoveryV::StartFresh { invocation_count: st.invocation_count, kill_pgid: None },
            },
        },
    }
}

/// Decide how a run starts from the state an earlier run saved.
pub fn recover_state(saved: Option<SavedRun>) -> (r: RecoveryAction)
    ensures
        r@ == recovery_for(saved),
{
    match saved {
        None => RecoveryAction::CleanStart,
        Some(st) => match st.phase {
            AutorunPhase::Running => RecoveryAction::StartFresh { invocation_count: st.invocation_count, kill_pgid: st.agent_pgid },
            AutorunPhase::PendingInput => match (st.session_id, st.pending_question) {
                (Some(sid), Some(q)) => RecoveryAction::ResumePendingInput {
                    session_id: sid,
                    question: q,
                    invocation_count: st.invocation_count,
                    kill_pgid: st.agent_pgid,
                },
                _ => RecoveryAction::StartFresh { invocation_count: st.invocation_count, kill_pgid: None },
            },
        },
    }
}

// ── the run loop ────────────────────────────────────────────────────────────

/// Where an authorization refresh was started from.
#[derive(Debug, Clone, Copy, PartialEq, Eq, Structural)]
pub enum Origin {
    /// A fresh invocation.
    Fresh,
    /// A session resumed with a reply.
    Resume,
    /// The session resumed by crash recovery.
    RecoveryAction,
}

/// What the runner waits for.
#[derive(Debug, Clone, Copy, PartialEq, Eq, Structural)]
pub enum Stage {
    /// The top of the loop: the budget check comes next.
    Top,
    /// A fresh invocation is starting or running.
    Invoking,
    /// A question was asked; the reply is awaited.
    Asking,
    /// A session resumed with a reply is starting or running.
    Resuming,
    /// An authorization refresh is under way.
    Refreshing(Origin),
    /// Crash recovery asked the saved question again.
    RecoverAsking,
    /// Crash recovery resumed the saved session.
    RecoverResuming,
    /// The run is over.
    Stopped,
}

/// The state the runner carries between events.
#[derive(Debug)]
pub struct RunState {
    pub stage: Stage,
    /// Failures since the last successful fresh invocation.
    pub consecutive_errors: u32,
    /// Whether authorization was refreshed once already.
    pub auth_refreshed: bool,
    /// Invocations started so far.
    pub invocations: u32,
    /// The session a reply resumes.
    pub session: String,
    /// The item the pending question is about.
    pub item: String,
}

/// The runner state as plain values.
pub ghost struct RunStateV {
    pub stage: Stage,
    pub consecutive_errors: u32,
    pub auth_refreshed: bool,
    pub invocations: u32,
    pub session: Seq<char>,
    pub item: Seq<char>,
}

impl View for RunState {
    type V = RunStateV;

    open spec fn view(&self) -> RunStateV {
        RunStateV {
            stage: self.stage,
            consecutive_errors: self.consecutive_errors,
            auth_refreshed: self.auth_refreshed,
            invocations: self.invocations,
            session: self.session@,
            item: self.item@,
        }
    }
}

/// The operator result an invocation ended with.
#[derive(Debug)]
pub struct Report {
    pub status: OperatorStatus,
    pub message: String,
    pub item: String,
}

/// What happened since the last action.
#[derive(Debug)]
pub enum RunEvent {
    /// The budget check at the top of the loop; `exceeded` when the total
    /// cost reached the limit.
    BudgetChecked { exceeded: bool },
    /// The agent process could not be started.
    SpawnFailed { error: String },
    /// The agent ended; its session and its operator result (none when the
    /// result did not parse).
    Finished { session_id: String, report: Option<Report> },
    /// A kill command arrived.
    Killed,
    /// The agent failed; `auth_expired` when its authorization expired.
    Failed { auth_expired: bool, error: String },
    /// The question could not be sent.
    QuestionFailed,
    /// The user replied.
    Replied { reply: String },
    /// No reply came in time.
    ReplyTimedOut,
    /// The user confirmed the new authorization.
    AuthConfirmed,
    /// No confirmation came in time.
    AuthTimedOut,
    /// The refresh could not be started or asked for.
    AuthFailed,
}

/// An operator result as plain values.
pub ghost struct ReportV {
    pub status: OperatorStatus,
    pub message: Seq<char>,
    pub item: Seq<char>,
}

/// An event as plain values.
pub ghost enum RunEventV {
    BudgetChecked { exceeded: bool },
    SpawnFailed { error: Seq<char> },
    Finished { session_id: Seq<char>, report: Option<ReportV> },
    Killed,
    Failed { auth_expired: bool, error: Seq<char> },
    QuestionFailed,
    Replied { reply: Seq<char> },
    ReplyTimedOut,
    AuthConfirmed,
    AuthTimedOut,
    AuthFailed,
}

impl View for RunEvent {
    type V = RunEventV;

    open spec fn view(&self) -> RunEventV {
        match self {
            RunEvent::BudgetChecked { exceeded } => RunEventV::BudgetChecked { exceeded: *exceeded },
            RunEvent::SpawnFailed { error } => RunEventV::SpawnFailed { error: error@ },
            RunEvent::Finished { session_id, report } => RunEventV::Finished {
                session_id: session_id@,
                report: match report {
                    Some(r) => Some(ReportV { status: r.status, message: r.message@, item: r.item@ }),
                    None => None,
                },
            },
            RunEvent::Killed => RunEventV::Killed,
            RunEvent::Failed { auth_expired, error } => RunEventV::Failed { auth_expired: *auth_expired, error: error@ },
            RunEvent::QuestionFailed => RunEventV::QuestionFailed,
            RunEvent::Replied { reply } => RunEventV::Replied { reply: reply@ },
            RunEvent::ReplyTimedOut => RunEventV::ReplyTimedOut,
            RunEvent::AuthConfirmed => RunEventV::AuthConfirmed,
            RunEvent::AuthTimedOut => RunEventV::AuthTimedOut,
            RunEvent::AuthFailed => RunEventV::AuthFailed,
        }
    }
}

/// Why a run stopped.
#[derive(Debug, Clone, Copy, PartialEq, Eq, Structural)]
pub enum StopReason {
    /// The operator reported the project done.
    ProjectDone,
    /// The total cost reached the budget.
    BudgetReached,
    /// A kill command arrived.
    Killed,
    /// No reply to a question came in time.
    ReplyTimedOut,
    /// Retryable failures went on past the retry limit.
    RetriesExhausted,
    /// The agent could not be started and retrying does not help.
    SpawnFailed,
    /// The agent failed and retrying does not help.
    Fatal,
    /// The operator reported an error.
    OperatorError,
    /// The operator result did not parse.
    ParseError,
    /// A question could not be sent.
    QuestionFailed,
    /// A resumed session could not be started.
    ResumeSpawnFailed,
    /// A resumed session failed.
    ResumeFailed,
    /// No confirmation of a new authorization came in time.
    AuthTimedOut,
    /// A refresh started from a fresh invocation failed; it is reported.
    AuthFailed,
    /// A refresh started from a resumed session failed.
    AuthRefreshError,
}

/// The exit code of the process for each reason.
pub open spec fn exit_code_of(r: StopReason) -> u8 {
    match r {
        StopReason::ProjectDone => 0,
        StopReason::ReplyTimedOut => 2,
        StopReason::RetriesExhausted => 3,
        StopReason::BudgetReached => 5,
        StopReason::Killed => 6,
        _ => 1,
    }
}

impl StopReason {
    /// The exit code of the process: 0 done, 1 fatal, 2 reply timeout, 3
    /// retries exhausted, 5 budget, 6 killed.
    pub fn exit_code(&self) -> (r: u8)
        ensures
            r == exit_code_of(*self),
    {
        match self {
            StopReason::ProjectDone => 0,
            StopReason::ReplyTimedOut => 2,
            StopReason::RetriesExhausted => 3,
            StopReason::BudgetReached => 5,
            StopReason::Killed => 6,
            _ => 1,
        }
    }
}

/// What the caller does next.
#[derive(Debug)]
pub enum RunAction {
    /// Start invocation number `n`.
    Invoke { n: u32 },
    /// Ask the question about `item` and wait for the reply.
    Ask { question: String, item: String },
    /// Resume `session` with the reply.
    Resume { session: String, reply: String },
    /// Refresh the authorization and wait for the user's confirmation.
    RefreshAuth,
    /// Report the failure, clear the state file, wait `delay_secs` and go
    /// back to the top.
    Retry { attempt: u32, delay_secs: u64 },
    /// Report the completed item, clear the state file, cool down and go
    /// back to the top.
    ItemDone { item: String, message: String },
    /// Go back to the top; `warning` when a failed resume is to be reported.
    Continue { warning: bool },
    /// Report why, clear the state file and stop.
    Exit { reason: StopReason },
}

/// An action as plain values.
pub ghost enum RunActionV {
    Invoke { n: u32 },
    Ask { question: Seq<char>, item: Seq<char> },
    Resume { session: Seq<char>, reply: Seq<char> },
    RefreshAuth,
    Retry { attempt: u32, delay_secs: u64 },
    ItemDone { item: Seq<char>, message: Seq<char> },
    Continue { warning: bool },
    Exit { reason: StopReason },
}

impl View for RunAction {
    type V = RunActionV;

    open spec fn view(&self) -> RunActionV {
        match self {
            RunAction::Invoke { n } => RunActionV::Invoke { n: *n },
            RunAction::Ask { question, item } => RunActionV::Ask { question: question@, item: item@ },
            RunAction::Resume { session, reply } => RunActionV::Resume { session: session@, reply: reply@ },
            RunAction::RefreshAuth => RunActionV::RefreshAuth,
            RunAction::Retry { attempt, delay_secs } => RunActionV::Retry { attempt: *attempt, delay_secs: *delay_secs },
            RunAction::ItemDone { item, message } => RunActionV::ItemDone { item: item@, message: message@ },
            RunAction::Continue { warning } => RunActionV::Continue { warning: *warning },
            RunAction::Exit { reason } => RunActionV::Exit { reason: *reason },
        }
    }
}

/// The events each stage waits for.
pub open spec fn expects(stage: Stage, e: RunEventV) -> bool {
    match stage {
        Stage::Top => e is BudgetChecked,
        Stage::Invoking | Stage::Resuming | Stage::RecoverResuming => e is SpawnFailed || e is Finished || e is Killed
            || e is Failed,
        Stage::Asking | Stage::RecoverAsking => e is QuestionFailed || e is Replied || e is Killed || e is ReplyTimedOut,
        Stage::Refreshing(_) => e is AuthConfirmed || e is AuthTimedOut || e is AuthFailed || e is Killed,
        Stage::Stopped => false,
    }
}

/// Stop for `reason`.
pub open spec fn stop(s: RunStateV, reason: StopReason) -> (RunStateV, RunActionV) {
    (RunStateV { stage: Stage::Stopped, ..s }, RunActionV::Exit { reason })
}

/// Back to the top with `s`, reporting and waiting as `a` says.
pub open spec fn to_top(s: RunStateV, a: RunActionV) -> (RunStateV, RunActionV) {
    (RunStateV { stage: Stage::Top, ..s }, a)
}

/// After a failure of a fresh invocation, whether the agent failed to start
/// (`spawn`) or its run failed: count it, retry while the error is transient
/// and the count is within the limit, else stop: retries exhausted once the
/// count passes the limit, whichever way the invocation failed.
pub open spec fn fresh_failure(s: RunStateV, error: Seq<char>, max_retries: u32, spawn: bool) -> (RunStateV, RunActionV) {
    let ce = (s.consecutive_errors + 1) as u32;
    let s1 = RunStateV { consecutive_errors: ce, ..s };
    if retryable_text(lowercase(error)) && ce <= max_retries {
        to_top(s1, RunActionV::Retry { attempt: ce, delay_secs: capped_backoff(30, 480, ce) as u64 })
    } else if ce > max_retries {
        stop(s1, StopReason::RetriesExhausted)
    } else if spawn {
        stop(s1, StopReason::SpawnFailed)
    } else {
        stop(s1, StopReason::Fatal)
    }
}

/// After a fresh invocation ended: the error count resets; a completed item
/// goes back to the top, a question is asked, anything else stops.
pub open spec fn fresh_finished(s: RunStateV, session_id: Seq<char>, report: Option<ReportV>) -> (RunStateV, RunActionV) {
    let s1 = RunStateV { consecutive_errors: 0, ..s };
    match report {
        None => stop(s1, StopReason::ParseError),
        Some(r) => match r.status {
            OperatorStatus::Completed => to_top(s1, RunActionV::ItemDone { item: r.item, message: r.message }),
            OperatorStatus::ProjectDone => stop(s1, StopReason::ProjectDone),
            OperatorStatus::NeedsInput => (
                RunStateV { stage: Stage::Asking, session: session_id, item: r.item, ..s1 },
                RunActionV::Ask { question: r.message, item: r.item },
            ),
            OperatorStatus::Error => stop(s1, StopReason::OperatorError),
        },
    }
}

/// After a resumed session ended: another question keeps asking about the
/// same item in the new session; a completed item goes back to the top.
pub open spec fn resume_finished(s: RunStateV, session_id: Seq<char>, report: Option<ReportV>) -> (RunStateV, RunActionV) {
    match report {
        None => stop(s, StopReason::ParseError),
        Some(r) => match r.status {
            OperatorStatus::NeedsInput => (
                RunStateV { stage: Stage::Asking, session: session_id, ..s },
                RunActionV::Ask { question: r.message, item: s.item },
            ),
            OperatorStatus::Completed => to_top(s, RunActionV::ItemDone { item: r.item, message: r.message }),
            OperatorStatus::ProjectDone => stop(s, StopReason::ProjectDone),
            OperatorStatus::Error => stop(s, StopReason::OperatorError),
        },
    }
}

/// One decision of the runner: the next state and action after event `e` in
/// state `s`, with `max_retries` retries allowed for transient failures.
pub open spec fn run_step(s: RunStateV, e: RunEventV, max_retries: u32) -> (RunStateV, RunActionV) {
    match s.stage {
        Stage::Top => match e {
            RunEventV::BudgetChecked { exceeded } => if exceeded {
                stop(s, StopReason::BudgetReached)
            } else {
                let n = (s.invocations + 1) as u32;
                (RunStateV { stage: Stage::Invoking, invocations: n, ..s }, RunActionV::Invoke { n })
            },
            _ => (s, RunActionV::Continue { warning: false }),
        },
        Stage::Invoking => match e {
            RunEventV::SpawnFailed { error } => fresh_failure(s, error, max_retries, true),
            RunEventV::Finished { session_id, report } => fresh_finished(s, session_id, report),
            RunEventV::Killed => stop(s, StopReason::Killed),
            RunEventV::Failed { auth_expired, error } => if auth_expired && !s.auth_refreshed {
                (RunStateV { stage: Stage::Refreshing(Origin::Fresh), ..s }, RunActionV::RefreshAuth)
            } else {
                fresh_failure(s, error, max_retries, false)
            },
            _ => (s, RunActionV::Continue { warning: false }),
        },
        Stage::Asking => match e {
            RunEventV::QuestionFailed => stop(s, StopReason::QuestionFailed),
            RunEventV::Replied { reply } => (
                RunStateV { stage: Stage::Resuming, ..s },
                RunActionV::Resume { session: s.session, reply },
            ),
            RunEventV::Killed => stop(s, StopReason::Killed),
            RunEventV::ReplyTimedOut => stop(s, StopReason::ReplyTimedOut),
            _ => (s, RunActionV::Continue { warning: false }),
        },
        Stage::Resuming => match e {
            RunEventV::SpawnFailed { .. } => stop(s, StopReason::ResumeSpawnFailed),
            RunEventV::Finished { session_id, report } => resume_finished(s, session_id, report),
            RunEventV::Killed => stop(s, StopReason::Killed),
            RunEventV::Failed { auth_expired, error } => if auth_expired && !s.auth_refreshed {
                (RunStateV { stage: Stage::Refreshing(Origin::Resume), ..s }, RunActionV::RefreshAuth)
            } else if retryable_text(lowercase(error)) && s.consecutive_errors < max_retries {
                let ce = (s.consecutive_errors + 1) as u32;
                to_top(
                    RunStateV { consecutive_errors: ce, ..s },
                    RunActionV::Retry { attempt: ce, delay_secs: capped_backoff(30, 480, ce) as u64 },
                )
            } else {
                stop(s, StopReason::ResumeFailed)
            },
            _ => (s, RunActionV::Continue { warning: false }),
        },
        Stage::Refreshing(origin) => match e {
            RunEventV::AuthConfirmed => to_top(
                RunStateV { auth_refreshed: s.auth_refreshed || origin != Origin::RecoveryAction, ..s },
                RunActionV::Continue { warning: false },
            ),
            RunEventV::AuthTimedOut => stop(s, StopReason::AuthTimedOut),
            RunEventV::AuthFailed => stop(
                s,
                if origin == Origin::Fresh {
                    StopReason::AuthFailed
                } else {
                    StopReason::AuthRefreshError
                },
            ),
            RunEventV::Killed => stop(s, StopReason::Killed),
            _ => (s, RunActionV::Continue { warning: false }),
        },
        Stage::RecoverAsking => match e {
            RunEventV::QuestionFailed => stop(s, StopReason::QuestionFailed),
            RunEventV::Replied { reply } => (
                RunStateV { stage: Stage::RecoverResuming, ..s },
                RunActionV::Resume { session: s.session, reply },
            ),
            RunEventV::Killed => stop(s, StopReason::Killed),
            RunEventV::ReplyTimedOut => stop(s, StopReason::ReplyTimedOut),
            _ => (s, RunActionV::Continue { warning: false }),
        },
        Stage::RecoverResuming => match e {
            RunEventV::SpawnFailed { .. } => stop(s, StopReason::ResumeSpawnFailed),
            RunEventV::Finished { report, .. } => if report matches Some(r) && r.status == OperatorStatus::ProjectDone {
                stop(s, StopReason::ProjectDone)
            } else {
                to_top(RunStateV { invocations: (s.invocations + 1) as u32, ..s }, RunActionV::Continue { warning: false })
            },
            RunEventV::Killed => stop(s, StopReason::Killed),
            RunEventV::Failed { auth_expired, .. } => if auth_expired {
                (RunStateV { stage: Stage::Refreshing(Origin::RecoveryAction), ..s }, RunActionV::RefreshAuth)
            } else {
                to_top(s, RunActionV::Continue { warning: true })
            },
            _ => (s, RunActionV::Continue { warning: false }),
        },
        Stage::Stopped => (s, RunActionV::Continue { warning: false }),
    }
}

/// The state a run starts in after recovery: at the top with the saved
/// count, or asking the saved question again.
pub open spec fn start_state(rec: RecoveryV) -> RunStateV {
    match rec {
        RecoveryV::CleanStart => RunStateV {
            stage: Stage::Top,
            consecutive_errors: 0,
            auth_refreshed: false,
            invocations: 0,
            session: seq![],
            item: seq![],
        },
        RecoveryV::StartFresh { invocation_count, .. } => RunStateV {
            stage: Stage::Top,
            consecutive_errors: 0,
            auth_refreshed: false,
            invocations: invocation_count,
            session: seq![],
            item: seq![],
        },
        RecoveryV::ResumePendingInput { session_id, invocation_count, .. } => RunStateV {
            stage: Stage::RecoverAsking,
            consecutive_errors: 0,
            auth_refreshed: false,
            invocations: invocation_count,
            session: session_id,
            item: seq![],
        },
    }
}

impl RunState {
    /// The state a run starts in after `recovery` (see `start_state`).
    pub fn start(recovery: &RecoveryAction) -> (r: RunState)
        ensures
            r@ == start_state(recovery@),
    {
        let empty = String::new();
        let none = String::new();
        proof {
            assert(empty@ =~= Seq::<char>::empty());
            assert(none@ =~= Seq::<char>::empty());
        }
        match recovery {
            RecoveryAction::CleanStart => RunState {
                stage: Stage::Top,
                consecutive_errors: 0,
                auth_refreshed: false,
                invocations: 0,
                session: empty,
                item: none,
            },
            RecoveryAction::StartFresh { invocation_count, .. } => RunState {
                stage: Stage::Top,
                consecutive_errors: 0,
                auth_refreshed: false,
                invocations: *invocation_count,
                session: empty,
                item: none,
            },
            RecoveryAction::ResumePendingInput { session_id, invocation_count, .. } => RunState {
                stage: Stage::RecoverAsking,
                consecutive_errors: 0,
                auth_refreshed: false,
                invocations: *invocation_count,
                session: session_id.clone(),
                item: none,
            },
        }
    }

    /// Decide what follows event `event` (see `run_step`). The event must be
    /// one the current stage waits for, and the counters must have room.
    pub fn step(&mut self, event: RunEvent, max_retries: u32) -> (r: RunAction)
        requires
            expects(old(self).stage, event@),
            old(self).invocations < u32::MAX,
            old(self).consecutive_errors < u32::MAX,
        ensures
            (final(self)@, r@) == run_step(old(self)@, event@, max_retries),
    {
        match self.stage {
            Stage::Top => match event {
                RunEvent::BudgetChecked { exceeded } => {
                    if exceeded {
                        self.stage = Stage::Stopped;
                        RunAction::Exit { reason: StopReason::BudgetReached }
                    } else {
                        self.invocations = self.invocations + 1;
                        self.stage = Stage::Invoking;
                        RunAction::Invoke { n: self.invocations }
                    }
                },
                _ => RunAction::Continue { warning: false },
            },
            Stage::Invoking => match event {
                RunEvent::SpawnFailed { error } => self.fresh_failure(error.as_str(), max_retries, true),
                RunEvent::Finished { session_id, report } => {
                    self.consecutive_errors = 0;
                    match report {
                        None => self.stop(StopReason::ParseError),
                        Some(r) => match r.status {
                            OperatorStatus::Completed => {
                                self.stage = Stage::Top;
                                RunAction::ItemDone { item: r.item, message: r.message }
                            },
                            OperatorStatus::ProjectDone => self.stop(StopReason::ProjectDone),
                            OperatorStatus::NeedsInput => {
                                self.stage = Stage::Asking;
                                self.session = session_id;
                                self.item = r.item.clone();
                                RunAction::Ask { question: r.message, item: r.item }
                            },
                            OperatorStatus::Error => self.stop(StopReason::OperatorError),
                        },
                    }
                },
                RunEvent::Killed => self.stop(StopReason::Killed),
                RunEvent::Failed { auth_expired, error } => {
                    if auth_expired && !self.auth_refreshed {
                        self.stage = Stage::Refreshing(Origin::Fresh);
                        RunAction::RefreshAuth
                    } else {
                        self.fresh_failure(error.as_str(), max_retries, false)
                    }
                },
                _ => RunAction::Continue { warning: false },
            },
            Stage::Asking => match event {
                RunEvent::QuestionFailed => self.stop(StopReason::QuestionFailed),
                RunEvent::Replied { reply } => {
                    self.stage = Stage::Resuming;
                    RunAction::Resume { session: self.session.clone(), reply }
                },
                RunEvent::Killed => self.stop(StopReason::Killed),
                RunEvent::ReplyTimedOut => self.stop(StopReason::ReplyTimedOut),
                _ => RunAction::Continue { warning: false },
            },
            Stage::Resuming => match event {
                RunEvent::SpawnFailed { .. } => self.stop(StopReason::ResumeSpawnFailed),
                RunEvent::Finished { session_id, report } => match report {
                    None => self.stop(StopReason::ParseError),
                    Some(r) => match r.status {
                        OperatorStatus::NeedsInput => {
                            self.stage = Stage::Asking;
                            self.session = session_id;
                            RunAction::Ask { question: r.message, item: self.item.clone() }
                        },
                        OperatorStatus::Completed => {
                            self.stage = Stage::Top;
                            RunAction::ItemDone { item: r.item, message: r.message }
                        },
                        OperatorStatus::ProjectDone => self.stop(StopReason::ProjectDone),
                        OperatorStatus::Error => self.stop(StopReason::OperatorError),
                    },
                },
                RunEvent::Killed => self.stop(StopReason::Killed),
                RunEvent::Failed { auth_expired, error } => {
                    if auth_expired && !self.auth_refreshed {
                        self.stage = Stage::Refreshing(Origin::Resume);
                        RunAction::RefreshAuth
                    } else if is_retryable(error.as_str()) && self.consecutive_errors < max_retries {
                        self.consecutive_errors = self.consecutive_errors + 1;
                        self.stage = Stage::Top;
                        RunAction::Retry { attempt: self.consecutive_errors, delay_secs: retry_delay(self.consecutive_errors) }
                    } else {
                        self.stop(StopReason::ResumeFailed)
                    }
                },
                _ => RunAction::Continue { warning: false },
            },
            Stage::Refreshing(origin) => match event {
                RunEvent::AuthConfirmed => {
                    if origin != Origin::RecoveryAction {
                        self.auth_refreshed = true;
                    }
                    self.stage = Stage::Top;
                    RunAction::Continue { warning: false }
                },
                RunEvent::AuthTimedOut => self.stop(StopReason::AuthTimedOut),
                RunEvent::AuthFailed => {
                    if origin == Origin::Fresh {
                        self.stop(StopReason::AuthFailed)
                    } else {
                        self.stop(StopReason::AuthRefreshError)
                    }
                },
                RunEvent::Killed => self.stop(StopReason::Killed),
                _ => RunAction::Continue { warning: false },
            },
            Stage::RecoverAsking => match event {
                RunEvent::QuestionFailed => self.stop(StopReason::QuestionFailed),
                RunEvent::Replied { reply } => {
                    self.stage = Stage::RecoverResuming;
                    RunAction::Resume { session: self.session.clone(), reply }
                },
                RunEvent::Killed => self.stop(StopReason::Killed),
                RunEvent::ReplyTimedOut => self.stop(StopReason::ReplyTimedOut),
                _ => RunAction::Continue { warning: false },
            },
            Stage::RecoverResuming => match event {
                RunEvent::SpawnFailed { .. } => self.stop(StopReason::ResumeSpawnFailed),
                RunEvent::Finished { report, .. } => {
                    let done = match &report {
                        Some(r) => r.status == OperatorStatus::ProjectDone,
                        None => false,
                    };
                    if done {
                        self.stop(StopReason::ProjectDone)
                    } else {
                        self.invocations = self.invocations + 1;
                        self.stage = Stage::Top;
                        RunAction::Continue { warning: false }
                    }
                },
                RunEvent::Killed => self.stop(StopReason::Killed),
                RunEvent::Failed { auth_expired, .. } => {
                    if auth_expired {
                        self.stage = Stage::Refreshing(Origin::RecoveryAction);
                        RunAction::RefreshAuth
                    } else {
                        self.stage = Stage::Top;
                        RunAction::Continue { warning: true }
                    }
                },
                _ => RunAction::Continue { warning: false },
            },
            Stage::Stopped => RunAction::Continue { warning: false },
        }
    }

    /// Stop for `reason`.
    fn stop(&mut self, reason: StopReason) -> (r: RunAction)
        ensures
            (final(self)@, r@) == stop(old(self)@, reason),
    {
        self.stage = Stage::Stopped;
        RunAction::Exit { reason }
    }

    /// A failed fresh invocation (see `fresh_failure`).
    fn fresh_failure(&mut self, error: &str, max_retries: u32, spawn: bool) -> (r: RunAction)
        requires
            old(self).consecutive_errors < u32::MAX,
        ensures
            (final(self)@, r@) == fresh_failure(old(self)@, error@, max_retries, spawn),
    {
        self.consecutive_errors = self.consecutive_errors + 1;
        if is_retryable(error) && self.consecutive_errors <= max_retries {
            self.stage = Stage::Top;
            RunAction::Retry { attempt: self.consecutive_errors, delay_secs: retry_delay(self.consecutive_errors) }
        } else if self.consecutive_errors > max_retries {
            self.stop(StopReason::RetriesExhausted)
        } else if spawn {
            self.stop(StopReason::SpawnFailed)
        } else {
            self.stop(StopReason::Fatal)
        }
    }
}

// ── laws ────────────────────────────────────────────────────────────────────

/// Retries stay within the limit: from a state whose failure count is
/// within the limit, a retry carries an attempt number from 1 to the limit,
/// equal to the new failure count, with the capped doubling delay; and a run
/// that goes on keeps its failure count within the limit.
pub proof fn law_retries_bounded(s: RunStateV, e: RunEventV, max_retries: u32)
    requires
        s.consecutive_errors <= max_retries,
        s.consecutive_errors < u32::MAX,
        expects(s.stage, e),
    ensures
        ({
            let (s2, a) = run_step(s, e, max_retries);
            &&& a matches RunActionV::Retry { attempt, delay_secs } ==> 1 <= attempt <= max_retries
                && s2.consecutive_errors == attempt && delay_secs as int == capped_backoff(30, 480, attempt)
            &&& s2.stage != Stage::Stopped ==> s2.consecutive_errors <= max_retries
        }),
{
}

/// Authorization is refreshed at most once from the main loop: the flag
/// never goes back to false, and a refresh from a fresh invocation or a
/// resumed session is only asked for while it is false.
pub proof fn law_auth_refreshed_once(s: RunStateV, e: RunEventV, max_retries: u32)
    requires
        expects(s.stage, e),
    ensures
        ({
            let (s2, a) = run_step(s, e, max_retries);
            &&& s.auth_refreshed ==> s2.auth_refreshed
            &&& a is RefreshAuth && s.stage != Stage::RecoverResuming ==> !s.auth_refreshed
        }),
{
}

/// A run stops exactly when the action is to exit, and then with one of the
/// documented exit codes; an invocation is numbered one past the count so far.
pub proof fn law_stops_and_numbering(s: RunStateV, e: RunEventV, max_retries: u32)
    requires
        expects(s.stage, e),
        s.invocations < u32::MAX,
    ensures
        ({
            let (s2, a) = run_step(s, e, max_retries);
            &&& (s2.stage == Stage::Stopped <==> a is Exit)
            &&& a matches RunActionV::Exit { reason } ==> {
                let c = exit_code_of(reason);
                c == 0 || c == 1 || c == 2 || c == 3 || c == 5 || c == 6
            }
            &&& a matches RunActionV::Invoke { n } ==> n == s.invocations + 1 && s2.invocations == n
        }),
{
}

/// A finished agent run that reports the project done ends the run with
/// exit code 0, whether the run was fresh, resumed after a reply, or resumed
/// on recovery; the invocation count is kept.
pub proof fn law_project_done_stops_the_run(s: RunStateV, session_id: Seq<char>, r: ReportV, max_retries: u32)
    requires
        s.stage is Invoking || s.stage is Resuming || s.stage is RecoverResuming,
        r.status == OperatorStatus::ProjectDone,
    ensures
        ({
            let (s2, a) = run_step(s, RunEventV::Finished { session_id, report: Some(r) }, max_retries);
            &&& a == RunActionV::Exit { reason: StopReason::ProjectDone }
            &&& exit_code_of(StopReason::ProjectDone) == 0
            &&& s2.stage == Stage::Stopped
            &&& s2.invocations == s.invocations
        }),
{
}

/// What a finished fresh or resumed agent run leads to, by the status it
/// reports: a completed item is reported and the run goes back to the top
/// for the next invocation; a question is asked about the reported item (a
/// resumed run keeps asking about the item it was resumed for); an error
/// report stops with the operator-error code, and no report at all stops
/// with the parse-error code. None of these touches the invocation count.
pub proof fn law_finished_run_outcomes(s: RunStateV, session_id: Seq<char>, r: ReportV, max_retries: u32)
    requires
        s.stage is Invoking || s.stage is Resuming,
    ensures
        ({
            let (s2, a) = run_step(s, RunEventV::Finished { session_id, report: Some(r) }, max_retries);
            &&& s2.invocations == s.invocations
            &&& r.status == OperatorStatus::Completed ==> a == RunActionV::ItemDone { item: r.item, message: r.message }
                && s2.stage == Stage::Top
            &&& r.status == OperatorStatus::NeedsInput ==> a == RunActionV::Ask {
                question: r.message,
                item: if s.stage is Invoking { r.item } else { s.item },
            } && s2.stage == Stage::Asking && s2.session == session_id
            &&& r.status == OperatorStatus::Error ==> a == RunActionV::Exit { reason: StopReason::OperatorError }
                && s2.stage == Stage::Stopped
        }),
        ({
            let (s2, a) = run_step(s, RunEventV::Finished { session_id, report: None }, max_retries);
            &&& a == RunActionV::Exit { reason: StopReason::ParseError }
            &&& s2.stage == Stage::Stopped
        }),
{
}

} // verus!
