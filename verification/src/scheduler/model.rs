use vstd::prelude::*;

use crate::scheduler::state::TurnStatus;
use crate::text::{char_at, same_text};

verus! {

/// One agent chosen to speak next.
#[derive(Debug, Clone, PartialEq, Eq)]
pub struct SchedulerDispatch {
    pub target_agent_id: String,
    pub selection_reason: SelectionReason,
    pub action_kind: ActionKind,
    pub hop: u32,
}

/// What the scheduler does next in a turn.
#[derive(Debug, Clone, PartialEq, Eq)]
pub enum SchedulerDecision {
    Dispatch(SchedulerDispatch),
    RequestModerator,
    Finish { status: TurnStatus, reason: TurnReason },
}

/// Errors reading the scheduler's persisted vocabulary.
#[derive(Debug, PartialEq, Eq)]
pub enum SchedulerModelError {
    UnknownSelectionReason(String),
    UnknownTurnReason(String),
    UnknownActionKind(String),
}

/// A dispatch about to be queued.
pub struct NewDispatch {
    pub id: String,
    pub turn_id: String,
    pub parent_dispatch_id: Option<String>,
    pub source_agent_id: Option<String>,
    pub target_agent_id: String,
    pub selection_reason: SelectionReason,
    pub action_kind: ActionKind,
    pub hop: i64,
    pub input_message_id: Option<String>,
}

/// Why an agent was chosen to speak.
#[derive(Debug, Clone, Copy, PartialEq, Eq, Structural)]
pub enum SelectionReason {
    UserMention,
    AgentCall,
    AgentHandoff,
    AgentTextMention,
    DeterministicOrder,
    Moderator,
    ModeratorFallback,
}

/// The persisted name of a SelectionReason.
pub open spec fn selection_reason_text(s: SelectionReason) -> Seq<char> {
    match s {
        SelectionReason::UserMention => "user_mention"@,
        SelectionReason::AgentCall => "agent_call"@,
        SelectionReason::AgentHandoff => "agent_handoff"@,
        SelectionReason::AgentTextMention => "agent_text_mention"@,
        SelectionReason::DeterministicOrder => "deterministic_order"@,
        SelectionReason::Moderator => "moderator"@,
        SelectionReason::ModeratorFallback => "moderator_fallback"@,
    }
}

/// The SelectionReason a persisted name denotes, if any.
pub open spec fn selection_reason_from_text(t: Seq<char>) -> Option<SelectionReason> {
    if t == "user_mention"@ { Some(SelectionReason::UserMention) }
    else if t == "agent_call"@ { Some(SelectionReason::AgentCall) }
    else if t == "agent_handoff"@ { Some(SelectionReason::AgentHandoff) }
    else if t == "agent_text_mention"@ { Some(SelectionReason::AgentTextMention) }
    else if t == "deterministic_order"@ { Some(SelectionReason::DeterministicOrder) }
    else if t == "moderator"@ { Some(SelectionReason::Moderator) }
    else if t == "moderator_fallback"@ { Some(SelectionReason::ModeratorFallback) }
    else { None }
}

impl SelectionReason {
    pub fn as_str(self) -> (r: &'static str)
        ensures
            r@ == selection_reason_text(self),
    {
        match self {
            SelectionReason::UserMention => "user_mention",
            SelectionReason::AgentCall => "agent_call",
            SelectionReason::AgentHandoff => "agent_handoff",
            SelectionReason::AgentTextMention => "agent_text_mention",
            SelectionReason::DeterministicOrder => "deterministic_order",
            SelectionReason::Moderator => "moderator",
            SelectionReason::ModeratorFallback => "moderator_fallback",
        }
    }
}

impl<'a> vstd::std_specs::convert::TryFromSpecImpl<&'a str> for SelectionReason {
    open spec fn obeys_try_from_spec() -> bool {
        false
    }

    open spec fn try_from_spec(v: &'a str) -> Result<SelectionReason, SchedulerModelError> {
        arbitrary()
    }
}

impl<'a> TryFrom<&'a str> for SelectionReason {
    type Error = SchedulerModelError;

    fn try_from(value: &'a str) -> (r: Result<SelectionReason, SchedulerModelError>)
        ensures
            match selection_reason_from_text(value@) {
                Some(s) => r == Ok::<SelectionReason, SchedulerModelError>(s),
                None => r matches Err(SchedulerModelError::UnknownSelectionReason(t)) && t@ == value@,
            },
    {
        if same_text(value, "user_mention") {
            Ok(SelectionReason::UserMention)
        } else if same_text(value, "agent_call") {
            Ok(SelectionReason::AgentCall)
        } else if same_text(value, "agent_handoff") {
            Ok(SelectionReason::AgentHandoff)
        } else if same_text(value, "agent_text_mention") {
            Ok(SelectionReason::AgentTextMention)
        } else if same_text(value, "deterministic_order") {
            Ok(SelectionReason::DeterministicOrder)
        } else if same_text(value, "moderator") {
            Ok(SelectionReason::Moderator)
        } else if same_text(value, "moderator_fallback") {
            Ok(SelectionReason::ModeratorFallback)
        } else {
            Err(SchedulerModelError::UnknownSelectionReason(value.to_owned()))
        }
    }
}

/// Every SelectionReason is read back from its persisted name.
pub proof fn lemma_selection_reason_round_trip(s: SelectionReason)
    ensures
        selection_reason_from_text(selection_reason_text(s)) == Some(s),
{
    reveal_strlit("user_mention");
    reveal_strlit("agent_call");
    reveal_strlit("agent_handoff");
    reveal_strlit("agent_text_mention");
    reveal_strlit("deterministic_order");
    reveal_strlit("moderator");
    reveal_strlit("moderator_fallback");
    assert(char_at("user_mention"@, 0) == 'u');
    assert(char_at("agent_call"@, 0) == 'a');
    assert(char_at("agent_call"@, 1) == 'g');
    assert(char_at("agent_call"@, 2) == 'e');
    assert(char_at("agent_call"@, 3) == 'n');
    assert(char_at("agent_call"@, 4) == 't');
    assert(char_at("agent_call"@, 5) == '_');
    assert(char_at("agent_call"@, 6) == 'c');
    assert(char_at("agent_handoff"@, 0) == 'a');
    assert(char_at("agent_handoff"@, 1) == 'g');
    assert(char_at("agent_handoff"@, 2) == 'e');
    assert(char_at("agent_handoff"@, 3) == 'n');
    assert(char_at("agent_handoff"@, 4) == 't');
    assert(char_at("agent_handoff"@, 5) == '_');
    assert(char_at("agent_handoff"@, 6) == 'h');
    assert(char_at("agent_text_mention"@, 0) == 'a');
    assert(char_at("agent_text_mention"@, 1) == 'g');
    assert(char_at("agent_text_mention"@, 2) == 'e');
    assert(char_at("agent_text_mention"@, 3) == 'n');
    assert(char_at("agent_text_mention"@, 4) == 't');
    assert(char_at("agent_text_mention"@, 5) == '_');
    assert(char_at("agent_text_mention"@, 6) == 't');
    assert(char_at("deterministic_order"@, 0) == 'd');
    assert(char_at("moderator"@, 0) == 'm');
    assert(char_at("moderator_fallback"@, 0) == 'm');
    match s {
        SelectionReason::UserMention => assert("user_mention"@ =~= selection_reason_text(s)),
        SelectionReason::AgentCall => assert("agent_call"@ =~= selection_reason_text(s)),
        SelectionReason::AgentHandoff => assert("agent_handoff"@ =~= selection_reason_text(s)),
        SelectionReason::AgentTextMention => assert("agent_text_mention"@ =~= selection_reason_text(s)),
        SelectionReason::DeterministicOrder => assert("deterministic_order"@ =~= selection_reason_text(s)),
        SelectionReason::Moderator => assert("moderator"@ =~= selection_reason_text(s)),
        SelectionReason::ModeratorFallback => assert("moderator_fallback"@ =~= selection_reason_text(s)),
    }
}

/// Why a turn ended or paused.
#[derive(Debug, Clone, Copy, PartialEq, Eq, Structural)]
pub enum TurnReason {
    WaitingForUser,
    BudgetExhausted,
    FailureBudgetExhausted,
    UserCancelled,
    Superseded,
    ServerRestart,
    PersistenceFailed,
    Silence,
}

/// The persisted name of a TurnReason.
pub open spec fn turn_reason_text(s: TurnReason) -> Seq<char> {
    match s {
        TurnReason::WaitingForUser => "waiting_for_user"@,
        TurnReason::BudgetExhausted => "budget_exhausted"@,
        TurnReason::FailureBudgetExhausted => "failure_budget_exhausted"@,
        TurnReason::UserCancelled => "user_cancelled"@,
        TurnReason::Superseded => "superseded"@,
        TurnReason::ServerRestart => "server_restart"@,
        TurnReason::PersistenceFailed => "persistence_failed"@,
        TurnReason::Silence => "silence"@,
    }
}

/// The TurnReason a persisted name denotes, if any.
pub open spec fn turn_reason_from_text(t: Seq<char>) -> Option<TurnReason> {
    if t == "waiting_for_user"@ { Some(TurnReason::WaitingForUser) }
    else if t == "budget_exhausted"@ { Some(TurnReason::BudgetExhausted) }
    else if t == "failure_budget_exhausted"@ { Some(TurnReason::FailureBudgetExhausted) }
    else if t == "user_cancelled"@ { Some(TurnReason::UserCancelled) }
    else if t == "superseded"@ { Some(TurnReason::Superseded) }
    else if t == "server_restart"@ { Some(TurnReason::ServerRestart) }
    else if t == "persistence_failed"@ { Some(TurnReason::PersistenceFailed) }
    else if t == "silence"@ { Some(TurnReason::Silence) }
    else { None }
}

impl TurnReason {
    pub fn as_str(self) -> (r: &'static str)
        ensures
            r@ == turn_reason_text(self),
    {
        match self {
            TurnReason::WaitingForUser => "waiting_for_user",
            TurnReason::BudgetExhausted => "budget_exhausted",
            TurnReason::FailureBudgetExhausted => "failure_budget_exhausted",
            TurnReason::UserCancelled => "user_cancelled",
            TurnReason::Superseded => "superseded",
            TurnReason::ServerRestart => "server_restart",
            TurnReason::PersistenceFailed => "persistence_failed",
            TurnReason::Silence => "silence",
        }
    }
}

impl<'a> vstd::std_specs::convert::TryFromSpecImpl<&'a str> for TurnReason {
    open spec fn obeys_try_from_spec() -> bool {
        false
    }

    open spec fn try_from_spec(v: &'a str) -> Result<TurnReason, SchedulerModelError> {
        arbitrary()
    }
}

impl<'a> TryFrom<&'a str> for TurnReason {
    type Error = SchedulerModelError;

    fn try_from(value: &'a str) -> (r: Result<TurnReason, SchedulerModelError>)
        ensures
            match turn_reason_from_text(value@) {
                Some(s) => r == Ok::<TurnReason, SchedulerModelError>(s),
                None => r matches Err(SchedulerModelError::UnknownTurnReason(t)) && t@ == value@,
            },
    {
        if same_text(value, "waiting_for_user") {
            Ok(TurnReason::WaitingForUser)
        } else if same_text(value, "budget_exhausted") {
            Ok(TurnReason::BudgetExhausted)
        } else if same_text(value, "failure_budget_exhausted") {
            Ok(TurnReason::FailureBudgetExhausted)
        } else if same_text(value, "user_cancelled") {
            Ok(TurnReason::UserCancelled)
        } else if same_text(value, "superseded") {
            Ok(TurnReason::Superseded)
        } else if same_text(value, "server_restart") {
            Ok(TurnReason::ServerRestart)
        } else if same_text(value, "persistence_failed") {
            Ok(TurnReason::PersistenceFailed)
        } else if same_text(value, "silence") {
            Ok(TurnReason::Silence)
        } else {
            Err(SchedulerModelError::UnknownTurnReason(value.to_owned()))
        }
    }
}

/// Every TurnReason is read back from its persisted name.
pub proof fn lemma_turn_reason_round_trip(s: TurnReason)
    ensures
        turn_reason_from_text(turn_reason_text(s)) == Some(s),
{
    reveal_strlit("waiting_for_user");
    reveal_strlit("budget_exhausted");
    reveal_strlit("failure_budget_exhausted");
    reveal_strlit("user_cancelled");
    reveal_strlit("superseded");
    reveal_strlit("server_restart");
    reveal_strlit("persistence_failed");
    reveal_strlit("silence");
    assert(char_at("waiting_for_user"@, 0) == 'w');
    assert(char_at("budget_exhausted"@, 0) == 'b');
    assert(char_at("failure_budget_exhausted"@, 0) == 'f');
    assert(char_at("user_cancelled"@, 0) == 'u');
    assert(char_at("superseded"@, 0) == 's');
    assert(char_at("superseded"@, 1) == 'u');
    assert(char_at("server_restart"@, 0) == 's');
    assert(char_at("server_restart"@, 1) == 'e');
    assert(char_at("persistence_failed"@, 0) == 'p');
    assert(char_at("silence"@, 0) == 's');
    assert(char_at("silence"@, 1) == 'i');
    match s {
        TurnReason::WaitingForUser => assert("waiting_for_user"@ =~= turn_reason_text(s)),
        TurnReason::BudgetExhausted => assert("budget_exhausted"@ =~= turn_reason_text(s)),
        TurnReason::FailureBudgetExhausted => assert("failure_budget_exhausted"@ =~= turn_reason_text(s)),
        TurnReason::UserCancelled => assert("user_cancelled"@ =~= turn_reason_text(s)),
        TurnReason::Superseded => assert("superseded"@ =~= turn_reason_text(s)),
        TurnReason::ServerRestart => assert("server_restart"@ =~= turn_reason_text(s)),
        TurnReason::PersistenceFailed => assert("persistence_failed"@ =~= turn_reason_text(s)),
        TurnReason::Silence => assert("silence"@ =~= turn_reason_text(s)),
    }
}

/// What a dispatched agent is asked to do.
#[derive(Debug, Clone, Copy, PartialEq, Eq, Structural)]
pub enum ActionKind {
    Speak,
    Call,
    Handoff,
    Wait,
    Silent,
}

/// The persisted name of a ActionKind.
pub open spec fn action_kind_text(s: ActionKind) -> Seq<char> {
    match s {
        ActionKind::Speak => "speak"@,
        ActionKind::Call => "call"@,
        ActionKind::Handoff => "handoff"@,
        ActionKind::Wait => "wait"@,
        ActionKind::Silent => "silent"@,
    }
}

/// The ActionKind a persisted name denotes, if any.
pub open spec fn action_kind_from_text(t: Seq<char>) -> Option<ActionKind> {
    if t == "speak"@ { Some(ActionKind::Speak) }
    else if t == "call"@ { Some(ActionKind::Call) }
    else if t == "handoff"@ { Some(ActionKind::Handoff) }
    else if t == "wait"@ { Some(ActionKind::Wait) }
    else if t == "silent"@ { Some(ActionKind::Silent) }
    else { None }
}

impl ActionKind {
    pub fn as_str(self) -> (r: &'static str)
        ensures
            r@ == action_kind_text(self),
    {
        match self {
            ActionKind::Speak => "speak",
            ActionKind::Call => "call",
            ActionKind::Handoff => "handoff",
            ActionKind::Wait => "wait",
            ActionKind::Silent => "silent",
        }
    }
}

impl<'a> vstd::std_specs::convert::TryFromSpecImpl<&'a str> for ActionKind {
    open spec fn obeys_try_from_spec() -> bool {
        false
    }

    open spec fn try_from_spec(v: &'a str) -> Result<ActionKind, SchedulerModelError> {
        arbitrary()
    }
}

impl<'a> TryFrom<&'a str> for ActionKind {
    type Error = SchedulerModelError;

    fn try_from(value: &'a str) -> (r: Result<ActionKind, SchedulerModelError>)
        ensures
            match action_kind_from_text(value@) {
                Some(s) => r == Ok::<ActionKind, SchedulerModelError>(s),
                None => r matches Err(SchedulerModelError::UnknownActionKind(t)) && t@ == value@,
            },
    {
        if same_text(value, "speak") {
            Ok(ActionKind::Speak)
        } else if same_text(value, "call") {
            Ok(ActionKind::Call)
        } else if same_text(value, "handoff") {
            Ok(ActionKind::Handoff)
        } else if same_text(value, "wait") {
            Ok(ActionKind::Wait)
        } else if same_text(value, "silent") {
            Ok(ActionKind::Silent)
        } else {
            Err(SchedulerModelError::UnknownActionKind(value.to_owned()))
        }
    }
}

/// Every ActionKind is read back from its persisted name.
pub proof fn lemma_action_kind_round_trip(s: ActionKind)
    ensures
        action_kind_from_text(action_kind_text(s)) == Some(s),
{
    reveal_strlit("speak");
    reveal_strlit("call");
    reveal_strlit("handoff");
    reveal_strlit("wait");
    reveal_strlit("silent");
    assert(char_at("speak"@, 0) == 's');
    assert(char_at("speak"@, 1) == 'p');
    assert(char_at("call"@, 0) == 'c');
    assert(char_at("handoff"@, 0) == 'h');
    assert(char_at("wait"@, 0) == 'w');
    assert(char_at("silent"@, 0) == 's');
    assert(char_at("silent"@, 1) == 'i');
    match s {
        ActionKind::Speak => assert("speak"@ =~= action_kind_text(s)),
        ActionKind::Call => assert("call"@ =~= action_kind_text(s)),
        ActionKind::Handoff => assert("handoff"@ =~= action_kind_text(s)),
        ActionKind::Wait => assert("wait"@ =~= action_kind_text(s)),
        ActionKind::Silent => assert("silent"@ =~= action_kind_text(s)),
    }
}

} // verus!
