use vstd::prelude::*;

use crate::text::{char_at, same_text};

verus! {

/// Lifecycle of one scheduler turn.
#[derive(Debug, Clone, Copy, PartialEq, Eq, Structural)]
pub enum TurnStatus {
    Pending,
    Running,
    WaitingForUser,
    Completed,
    Silence,
    BudgetExhausted,
    FailureBudgetExhausted,
    Cancelled,
    Superseded,
    Failed,
}

/// The persisted name of a TurnStatus.
pub open spec fn turn_status_text(s: TurnStatus) -> Seq<char> {
    match s {
        TurnStatus::Pending => "pending"@,
        TurnStatus::Running => "running"@,
        TurnStatus::WaitingForUser => "waiting_for_user"@,
        TurnStatus::Completed => "completed"@,
        TurnStatus::Silence => "silence"@,
        TurnStatus::BudgetExhausted => "budget_exhausted"@,
        TurnStatus::FailureBudgetExhausted => "failure_budget_exhausted"@,
        TurnStatus::Cancelled => "cancelled"@,
        TurnStatus::Superseded => "superseded"@,
        TurnStatus::Failed => "failed"@,
    }
}

/// The TurnStatus a persisted name denotes, if any.
pub open spec fn turn_status_from_text(t: Seq<char>) -> Option<TurnStatus> {
    if t == "pending"@ { Some(TurnStatus::Pending) }
    else if t == "running"@ { Some(TurnStatus::Running) }
    else if t == "waiting_for_user"@ { Some(TurnStatus::WaitingForUser) }
    else if t == "completed"@ { Some(TurnStatus::Completed) }
    else if t == "silence"@ { Some(TurnStatus::Silence) }
    else if t == "budget_exhausted"@ { Some(TurnStatus::BudgetExhausted) }
    else if t == "failure_budget_exhausted"@ { Some(TurnStatus::FailureBudgetExhausted) }
    else if t == "cancelled"@ { Some(TurnStatus::Cancelled) }
    else if t == "superseded"@ { Some(TurnStatus::Superseded) }
    else if t == "failed"@ { Some(TurnStatus::Failed) }
    else { None }
}

impl TurnStatus {
    pub fn as_str(self) -> (r: &'static str)
        ensures
            r@ == turn_status_text(self),
    {
        match self {
            TurnStatus::Pending => "pending",
            TurnStatus::Running => "running",
            TurnStatus::WaitingForUser => "waiting_for_user",
            TurnStatus::Completed => "completed",
            TurnStatus::Silence => "silence",
            TurnStatus::BudgetExhausted => "budget_exhausted",
            TurnStatus::FailureBudgetExhausted => "failure_budget_exhausted",
            TurnStatus::Cancelled => "cancelled",
            TurnStatus::Superseded => "superseded",
            TurnStatus::Failed => "failed",
        }
    }
}

impl<'a> vstd::std_specs::convert::TryFromSpecImpl<&'a str> for TurnStatus {
    open spec fn obeys_try_from_spec() -> bool {
        false
    }

    open spec fn try_from_spec(v: &'a str) -> Result<TurnStatus, SchedulerStateError> {
        arbitrary()
    }
}

impl<'a> TryFrom<&'a str> for TurnStatus {
    type Error = SchedulerStateError;

    fn try_from(value: &'a str) -> (r: Result<TurnStatus, SchedulerStateError>)
        ensures
            match turn_status_from_text(value@) {
                Some(s) => r == Ok::<TurnStatus, SchedulerStateError>(s),
                None => r matches Err(SchedulerStateError::UnknownTurnStatus(t)) && t@ == value@,
            },
    {
        if same_text(value, "pending") {
            Ok(TurnStatus::Pending)
        } else if same_text(value, "running") {
            Ok(TurnStatus::Running)
        } else if same_text(value, "waiting_for_user") {
            Ok(TurnStatus::WaitingForUser)
        } else if same_text(value, "completed") {
            Ok(TurnStatus::Completed)
        } else if same_text(value, "silence") {
            Ok(TurnStatus::Silence)
        } else if same_text(value, "budget_exhausted") {
            Ok(TurnStatus::BudgetExhausted)
        } else if same_text(value, "failure_budget_exhausted") {
            Ok(TurnStatus::FailureBudgetExhausted)
        } else if same_text(value, "cancelled") {
            Ok(TurnStatus::Cancelled)
        } else if same_text(value, "superseded") {
            Ok(TurnStatus::Superseded)
        } else if same_text(value, "failed") {
            Ok(TurnStatus::Failed)
        } else {
            Err(SchedulerStateError::UnknownTurnStatus(value.to_owned()))
        }
    }
}

/// Every TurnStatus is read back from its persisted name.
pub proof fn lemma_turn_status_round_trip(s: TurnStatus)
    ensures
        turn_status_from_text(turn_status_text(s)) == Some(s),
{
    reveal_strlit("pending");
    reveal_strlit("running");
    reveal_strlit("waiting_for_user");
    reveal_strlit("completed");
    reveal_strlit("silence");
    reveal_strlit("budget_exhausted");
    reveal_strlit("failure_budget_exhausted");
    reveal_strlit("cancelled");
    reveal_strlit("superseded");
    reveal_strlit("failed");
    assert(char_at("pending"@, 0) == 'p');
    assert(char_at("running"@, 0) == 'r');
    assert(char_at("waiting_for_user"@, 0) == 'w');
    assert(char_at("completed"@, 0) == 'c');
    assert(char_at("completed"@, 1) == 'o');
    assert(char_at("silence"@, 0) == 's');
    assert(char_at("silence"@, 1) == 'i');
    assert(char_at("budget_exhausted"@, 0) == 'b');
    assert(char_at("failure_budget_exhausted"@, 0) == 'f');
    assert(char_at("failure_budget_exhausted"@, 1) == 'a');
    assert(char_at("failure_budget_exhausted"@, 2) == 'i');
    assert(char_at("failure_budget_exhausted"@, 3) == 'l');
    assert(char_at("failure_budget_exhausted"@, 4) == 'u');
    assert(char_at("cancelled"@, 0) == 'c');
    assert(char_at("cancelled"@, 1) == 'a');
    assert(char_at("superseded"@, 0) == 's');
    assert(char_at("superseded"@, 1) == 'u');
    assert(char_at("failed"@, 0) == 'f');
    assert(char_at("failed"@, 1) == 'a');
    assert(char_at("failed"@, 2) == 'i');
    assert(char_at("failed"@, 3) == 'l');
    assert(char_at("failed"@, 4) == 'e');
    match s {
        TurnStatus::Pending => assert("pending"@ =~= turn_status_text(s)),
        TurnStatus::Running => assert("running"@ =~= turn_status_text(s)),
        TurnStatus::WaitingForUser => assert("waiting_for_user"@ =~= turn_status_text(s)),
        TurnStatus::Completed => assert("completed"@ =~= turn_status_text(s)),
        TurnStatus::Silence => assert("silence"@ =~= turn_status_text(s)),
        TurnStatus::BudgetExhausted => assert("budget_exhausted"@ =~= turn_status_text(s)),
        TurnStatus::FailureBudgetExhausted => assert("failure_budget_exhausted"@ =~= turn_status_text(s)),
        TurnStatus::Cancelled => assert("cancelled"@ =~= turn_status_text(s)),
        TurnStatus::Superseded => assert("superseded"@ =~= turn_status_text(s)),
        TurnStatus::Failed => assert("failed"@ =~= turn_status_text(s)),
    }
}

/// Lifecycle of one dispatch to an agent inside a turn.
#[derive(Debug, Clone, Copy, PartialEq, Eq, Structural)]
pub enum DispatchStatus {
    Queued,
    Running,
    Completed,
    Silent,
    WaitingForUser,
    Interrupted,
    Cancelled,
    Failed,
}

/// The persisted name of a DispatchStatus.
pub open spec fn dispatch_status_text(s: DispatchStatus) -> Seq<char> {
    match s {
        DispatchStatus::Queued => "queued"@,
        DispatchStatus::Running => "running"@,
        DispatchStatus::Completed => "completed"@,
        DispatchStatus::Silent => "silent"@,
        DispatchStatus::WaitingForUser => "waiting_for_user"@,
        DispatchStatus::Interrupted => "interrupted"@,
        DispatchStatus::Cancelled => "cancelled"@,
        DispatchStatus::Failed => "failed"@,
    }
}

/// The DispatchStatus a persisted name denotes, if any.
pub open spec fn dispatch_status_from_text(t: Seq<char>) -> Option<DispatchStatus> {
    if t == "queued"@ { Some(DispatchStatus::Queued) }
    else if t == "running"@ { Some(DispatchStatus::Running) }
    else if t == "completed"@ { Some(DispatchStatus::Completed) }
    else if t == "silent"@ { Some(DispatchStatus::Silent) }
    else if t == "waiting_for_user"@ { Some(DispatchStatus::WaitingForUser) }
    else if t == "interrupted"@ { Some(DispatchStatus::Interrupted) }
    else if t == "cancelled"@ { Some(DispatchStatus::Cancelled) }
    else if t == "failed"@ { Some(DispatchStatus::Failed) }
    else { None }
}

impl DispatchStatus {
    pub fn as_str(self) -> (r: &'static str)
        ensures
            r@ == dispatch_status_text(self),
    {
        match self {
            DispatchStatus::Queued => "queued",
            DispatchStatus::Running => "running",
            DispatchStatus::Completed => "completed",
            DispatchStatus::Silent => "silent",
            DispatchStatus::WaitingForUser => "waiting_for_user",
            DispatchStatus::Interrupted => "interrupted",
            DispatchStatus::Cancelled => "cancelled",
            DispatchStatus::Failed => "failed",
        }
    }
}

impl<'a> vstd::std_specs::convert::TryFromSpecImpl<&'a str> for DispatchStatus {
    open spec fn obeys_try_from_spec() -> bool {
        false
    }

    open spec fn try_from_spec(v: &'a str) -> Result<DispatchStatus, SchedulerStateError> {
        arbitrary()
    }
}

impl<'a> TryFrom<&'a str> for DispatchStatus {
    type Error = SchedulerStateError;

    fn try_from(value: &'a str) -> (r: Result<DispatchStatus, SchedulerStateError>)
        ensures
            match dispatch_status_from_text(value@) {
                Some(s) => r == Ok::<DispatchStatus, SchedulerStateError>(s),
                None => r matches Err(SchedulerStateError::UnknownDispatchStatus(t)) && t@ == value@,
            },
    {
        if same_text(value, "queued") {
            Ok(DispatchStatus::Queued)
        } else if same_text(value, "running") {
            Ok(DispatchStatus::Running)
        } else if same_text(value, "completed") {
            Ok(DispatchStatus::Completed)
        } else if same_text(value, "silent") {
            Ok(DispatchStatus::Silent)
        } else if same_text(value, "waiting_for_user") {
            Ok(DispatchStatus::WaitingForUser)
        } else if same_text(value, "interrupted") {
            Ok(DispatchStatus::Interrupted)
        } else if same_text(value, "cancelled") {
            Ok(DispatchStatus::Cancelled)
        } else if same_text(value, "failed") {
            Ok(DispatchStatus::Failed)
        } else {
            Err(SchedulerStateError::UnknownDispatchStatus(value.to_owned()))
        }
    }
}

/// Every DispatchStatus is read back from its persisted name.
pub proof fn lemma_dispatch_status_round_trip(s: DispatchStatus)
    ensures
        dispatch_status_from_text(dispatch_status_text(s)) == Some(s),
{
    reveal_strlit("queued");
    reveal_strlit("running");
    reveal_strlit("completed");
    reveal_strlit("silent");
    reveal_strlit("waiting_for_user");
    reveal_strlit("interrupted");
    reveal_strlit("cancelled");
    reveal_strlit("failed");
    assert(char_at("queued"@, 0) == 'q');
    assert(char_at("running"@, 0) == 'r');
    assert(char_at("completed"@, 0) == 'c');
    assert(char_at("completed"@, 1) == 'o');
    assert(char_at("silent"@, 0) == 's');
    assert(char_at("waiting_for_user"@, 0) == 'w');
    assert(char_at("interrupted"@, 0) == 'i');
    assert(char_at("cancelled"@, 0) == 'c');
    assert(char_at("cancelled"@, 1) == 'a');
    assert(char_at("failed"@, 0) == 'f');
    match s {
        DispatchStatus::Queued => assert("queued"@ =~= dispatch_status_text(s)),
        DispatchStatus::Running => assert("running"@ =~= dispatch_status_text(s)),
        DispatchStatus::Completed => assert("completed"@ =~= dispatch_status_text(s)),
        DispatchStatus::Silent => assert("silent"@ =~= dispatch_status_text(s)),
        DispatchStatus::WaitingForUser => assert("waiting_for_user"@ =~= dispatch_status_text(s)),
        DispatchStatus::Interrupted => assert("interrupted"@ =~= dispatch_status_text(s)),
        DispatchStatus::Cancelled => assert("cancelled"@ =~= dispatch_status_text(s)),
        DispatchStatus::Failed => assert("failed"@ =~= dispatch_status_text(s)),
    }
}

/// Errors of the scheduler's state vocabulary and transitions.
#[derive(Debug, PartialEq, Eq)]
pub enum SchedulerStateError {
    UnknownTurnStatus(String),
    UnknownDispatchStatus(String),
    InvalidTurnTransition { from: &'static str, to: &'static str },
    InvalidDispatchTransition { from: &'static str, to: &'static str },
}

/// The turn transitions the scheduler permits.
pub open spec fn turn_transition_allowed(from: TurnStatus, to: TurnStatus) -> bool {
    match (from, to) {
        (TurnStatus::Pending, TurnStatus::Running)
        | (TurnStatus::Pending, TurnStatus::Cancelled)
        | (TurnStatus::Pending, TurnStatus::Superseded)
        | (TurnStatus::Pending, TurnStatus::Failed)
        | (TurnStatus::Running, TurnStatus::WaitingForUser)
        | (TurnStatus::Running, TurnStatus::Completed)
        | (TurnStatus::Running, TurnStatus::Silence)
        | (TurnStatus::Running, TurnStatus::BudgetExhausted)
        | (TurnStatus::Running, TurnStatus::FailureBudgetExhausted)
        | (TurnStatus::Running, TurnStatus::Cancelled)
        | (TurnStatus::Running, TurnStatus::Superseded)
        | (TurnStatus::Running, TurnStatus::Failed)
        | (TurnStatus::WaitingForUser, TurnStatus::Running)
        | (TurnStatus::WaitingForUser, TurnStatus::Cancelled)
        | (TurnStatus::WaitingForUser, TurnStatus::Superseded)
        | (TurnStatus::WaitingForUser, TurnStatus::Failed) => true,
        _ => false,
    }
}

/// The dispatch transitions the scheduler permits.
pub open spec fn dispatch_transition_allowed(from: DispatchStatus, to: DispatchStatus) -> bool {
    match (from, to) {
        (DispatchStatus::Queued, DispatchStatus::Running)
        | (DispatchStatus::Queued, DispatchStatus::Cancelled)
        | (DispatchStatus::Queued, DispatchStatus::Failed)
        | (DispatchStatus::Running, DispatchStatus::Completed)
        | (DispatchStatus::Running, DispatchStatus::Silent)
        | (DispatchStatus::Running, DispatchStatus::WaitingForUser)
        | (DispatchStatus::Running, DispatchStatus::Interrupted)
        | (DispatchStatus::Running, DispatchStatus::Cancelled)
        | (DispatchStatus::Running, DispatchStatus::Failed) => true,
        _ => false,
    }
}

/// Statuses a turn never leaves.
pub open spec fn turn_is_terminal(s: TurnStatus) -> bool {
    match s {
        TurnStatus::Completed
        | TurnStatus::Silence
        | TurnStatus::BudgetExhausted
        | TurnStatus::FailureBudgetExhausted
        | TurnStatus::Cancelled
        | TurnStatus::Superseded
        | TurnStatus::Failed => true,
        _ => false,
    }
}

/// Statuses a dispatch never leaves.
pub open spec fn dispatch_is_terminal(s: DispatchStatus) -> bool {
    !(s is Queued || s is Running)
}

/// Check that a turn may move from `from` to `to`.
pub fn validate_turn_transition(from: TurnStatus, to: TurnStatus) -> (r: Result<(), SchedulerStateError>)
    ensures
        turn_transition_allowed(from, to) ==> r is Ok,
        !turn_transition_allowed(from, to) ==> (r matches Err(
            SchedulerStateError::InvalidTurnTransition { from: f, to: t },
        ) && f@ == turn_status_text(from) && t@ == turn_status_text(to)),
{
    let allowed = match (from, to) {
        (TurnStatus::Pending, TurnStatus::Running)
        | (TurnStatus::Pending, TurnStatus::Cancelled)
        | (TurnStatus::Pending, TurnStatus::Superseded)
        | (TurnStatus::Pending, TurnStatus::Failed)
        | (TurnStatus::Running, TurnStatus::WaitingForUser)
        | (TurnStatus::Running, TurnStatus::Completed)
        | (TurnStatus::Running, TurnStatus::Silence)
        | (TurnStatus::Running, TurnStatus::BudgetExhausted)
        | (TurnStatus::Running, TurnStatus::FailureBudgetExhausted)
        | (TurnStatus::Running, TurnStatus::Cancelled)
        | (TurnStatus::Running, TurnStatus::Superseded)
        | (TurnStatus::Running, TurnStatus::Failed)
        | (TurnStatus::WaitingForUser, TurnStatus::Running)
        | (TurnStatus::WaitingForUser, TurnStatus::Cancelled)
        | (TurnStatus::WaitingForUser, TurnStatus::Superseded)
        | (TurnStatus::WaitingForUser, TurnStatus::Failed) => true,
        _ => false,
    };
    if allowed {
        Ok(())
    } else {
        Err(SchedulerStateError::InvalidTurnTransition { from: from.as_str(), to: to.as_str() })
    }
}

/// Check that a dispatch may move from `from` to `to`.
pub fn validate_dispatch_transition(from: DispatchStatus, to: DispatchStatus) -> (r: Result<(), SchedulerStateError>)
    ensures
        dispatch_transition_allowed(from, to) ==> r is Ok,
        !dispatch_transition_allowed(from, to) ==> (r matches Err(
            SchedulerStateError::InvalidDispatchTransition { from: f, to: t },
        ) && f@ == dispatch_status_text(from) && t@ == dispatch_status_text(to)),
{
    let allowed = match (from, to) {
        (DispatchStatus::Queued, DispatchStatus::Running)
        | (DispatchStatus::Queued, DispatchStatus::Cancelled)
        | (DispatchStatus::Queued, DispatchStatus::Failed)
        | (DispatchStatus::Running, DispatchStatus::Completed)
        | (DispatchStatus::Running, DispatchStatus::Silent)
        | (DispatchStatus::Running, DispatchStatus::WaitingForUser)
        | (DispatchStatus::Running, DispatchStatus::Interrupted)
        | (DispatchStatus::Running, DispatchStatus::Cancelled)
        | (DispatchStatus::Running, DispatchStatus::Failed) => true,
        _ => false,
    };
    if allowed {
        Ok(())
    } else {
        Err(SchedulerStateError::InvalidDispatchTransition { from: from.as_str(), to: to.as_str() })
    }
}

/// Whether a turn status is final.
pub fn is_terminal_turn(status: TurnStatus) -> (r: bool)
    ensures
        r == turn_is_terminal(status),
{
    match status {
        TurnStatus::Completed
        | TurnStatus::Silence
        | TurnStatus::BudgetExhausted
        | TurnStatus::FailureBudgetExhausted
        | TurnStatus::Cancelled
        | TurnStatus::Superseded
        | TurnStatus::Failed => true,
        _ => false,
    }
}

/// A finished turn is never reopened: no transition leaves a terminal status,
/// and none re-enters `Pending`.
pub proof fn lemma_terminal_turns_are_final(from: TurnStatus, to: TurnStatus)
    ensures
        turn_is_terminal(from) ==> !turn_transition_allowed(from, to),
        !turn_transition_allowed(from, TurnStatus::Pending),
        turn_transition_allowed(from, to) ==> from != to,
        turn_transition_allowed(from, to) ==> !turn_is_terminal(from),
{
}

/// A finished dispatch is never restarted: no transition leaves a terminal
/// status, none re-enters `Queued`, and `Running` is only reached from `Queued`.
pub proof fn lemma_terminal_dispatches_are_final(from: DispatchStatus, to: DispatchStatus)
    ensures
        dispatch_is_terminal(from) ==> !dispatch_transition_allowed(from, to),
        !dispatch_transition_allowed(from, DispatchStatus::Queued),
        dispatch_transition_allowed(from, DispatchStatus::Running) ==> from == DispatchStatus::Queued,
        dispatch_transition_allowed(from, to) ==> from != to,
{
}

} // verus!
