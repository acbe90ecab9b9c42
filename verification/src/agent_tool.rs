use vstd::prelude::*;

use crate::text::{
    chars_of, chars_range, is_blank, lowercase, push_decimal, same_text, string_from_chars, to_lowercase, trim_chars,
    trim_spec,
};
use crate::group::text::{json_field_text, read_json_field_text};
use crate::scheduler::mentions::{lemma_run_of, run_length, run_of};

verus! {

/// The name of the tool through which an agent dispatches assistants.
pub const AGENT_AS_TOOL_NAME: &'static str = "AgentAsTool";

/// The most assistants one fan-out call may name.
pub const MAX_FAN_OUT_TARGETS: usize = 8;

/// How a dispatch runs: one assistant whose result comes back, one assistant
/// the turn is handed to, or several assistants each with its own task.
#[derive(Debug, Clone, Copy, PartialEq, Eq, Structural)]
pub enum AgentAsToolMode {
    Call,
    Handoff,
    FanOut,
}

/// One assistant and the work meant for it.
#[derive(Debug, Clone, PartialEq, Eq)]
pub struct AgentAsToolTarget {
    pub requested_agent: String,
    pub task: String,
    pub instructions: Option<String>,
}

/// A dispatch the model asked for.
#[derive(Debug, Clone, PartialEq, Eq)]
pub struct AgentAsToolCall {
    pub tool_call_id: String,
    pub mode: AgentAsToolMode,
    pub targets: Vec<AgentAsToolTarget>,
}

/// Why a dispatch did not happen: a status for the model and a message.
#[derive(Debug, Clone, PartialEq, Eq)]
pub struct AgentAsToolFailure {
    pub status: &'static str,
    pub message: String,
}

impl AgentAsToolFailure {
    /// A request that could not be carried out as asked.
    pub fn failed(message: String) -> (r: Self)
        ensures
            r.status@ == "failed"@,
            r.message == message,
    {
        AgentAsToolFailure { status: "failed", message: message }
    }

    /// An assistant this caller cannot reach.
    pub fn unavailable(message: String) -> (r: Self)
        ensures
            r.status@ == "unavailable"@,
            r.message == message,
    {
        AgentAsToolFailure { status: "unavailable", message: message }
    }

    /// An assistant that already runs in this turn.
    pub fn already_scheduled(message: String) -> (r: Self)
        ensures
            r.status@ == "already_scheduled"@,
            r.message == message,
    {
        AgentAsToolFailure { status: "already_scheduled", message: message }
    }
}

/// Whether an assistant selection without an `enabled` field is enabled.
pub fn enabled_default() -> (r: bool)
    ensures
        r,
{
    true
}

/// An assistant of the group a caller may dispatch to.
#[derive(Debug, Clone, PartialEq, Eq)]
pub struct AssistantMember {
    pub agent_id: String,
    pub name: String,
    pub display_name: String,
}

/// `c` with an ASCII capital turned into its small letter.
pub open spec fn ascii_lower(c: char) -> char {
    if 'A' <= c && c <= 'Z' {
        ((c as u32) + 32) as char
    } else {
        c
    }
}

/// Whether two texts are equal ignoring ASCII case.
pub open spec fn eq_ignore_ascii_case(a: Seq<char>, b: Seq<char>) -> bool {
    a.len() == b.len() && forall|i: int| 0 <= i < a.len() ==> ascii_lower(#[trigger] a[i]) == ascii_lower(b[i])
}

fn lower_ascii(c: char) -> (r: char)
    ensures
        r == ascii_lower(c),
{
    if 'A' <= c && c <= 'Z' {
        ((c as u8) + 32) as char
    } else {
        c
    }
}

fn ascii_case_eq(a: &str, b: &str) -> (r: bool)
    ensures
        r == eq_ignore_ascii_case(a@, b@),
{
    let x = chars_of(a);
    let y = chars_of(b);
    if x.len() != y.len() {
        return false;
    }
    let mut i: usize = 0;
    while i < x.len()
        invariant
            x@ == a@,
            y@ == b@,
            x@.len() == y@.len(),
            i <= x@.len(),
            forall|k: int| 0 <= k < i ==> ascii_lower(#[trigger] x@[k]) == ascii_lower(y@[k]),
        decreases x@.len() - i,
    {
        if lower_ascii(x[i]) != lower_ascii(y[i]) {
            return false;
        }
        i = i + 1;
    }
    true
}

/// Whether `helper` is the assistant asked for: its id ignoring ASCII case,
/// or its name or display name lowercased.
pub open spec fn requested_matches(helper: AssistantMember, requested: Seq<char>, folded: Seq<char>) -> bool {
    eq_ignore_ascii_case(helper.agent_id@, requested) || lowercase(helper.name@) == folded || lowercase(
        helper.display_name@,
    ) == folded
}

/// Whether `helper` is the assistant asked for; `requested_folded` is the
/// request lowercased.
pub fn matches_requested(helper: &AssistantMember, requested: &str, requested_folded: &str) -> (r: bool)
    ensures
        r == requested_matches(*helper, requested@, requested_folded@),
{
    ascii_case_eq(helper.agent_id.as_str(), requested) || same_text(
        to_lowercase(helper.name.as_str()).as_str(),
        requested_folded,
    ) || same_text(to_lowercase(helper.display_name.as_str()).as_str(), requested_folded)
}

/// The message a dispatched assistant receives: the task addressed to it,
/// and the caller's instructions after a blank line when there are any.
pub open spec fn dispatch_content(helper: Seq<char>, caller: Seq<char>, task: Seq<char>, instructions: Option<Seq<char>>) -> Seq<char> {
    "@"@ + helper + " "@ + trim_spec(task) + match instructions {
        Some(i) => if trim_spec(i).len() > 0 {
            "\n\n"@ + "Instructions from @"@ + caller + ": "@ + trim_spec(i)
        } else {
            Seq::empty()
        },
        None => Seq::empty(),
    }
}

/// Build the message a dispatched assistant receives; a blank task fails.
pub fn build_dispatch_content(helper_display: &str, caller_display: &str, task: &str, instructions: Option<&str>) -> (r:
    Result<String, AgentAsToolFailure>)
    ensures
        trim_spec(task@).len() == 0 ==> (r matches Err(f) && f.status@ == "failed"@ && f.message@ == "task must not be empty"@),
        trim_spec(task@).len() > 0 ==> (r matches Ok(s) && s@ == dispatch_content(
            helper_display@,
            caller_display@,
            task@,
            match instructions {
                Some(i) => Some(i@),
                None => None,
            },
        )),
{
    let task_chars = chars_of(task);
    let trimmed_task = trim_chars(task_chars.as_slice());
    if trimmed_task.len() == 0 {
        return Err(AgentAsToolFailure::failed("task must not be empty".to_owned()));
    }
    let mut content = "@".to_owned();
    content.append(helper_display);
    content.append(" ");
    content.append(string_from_chars(trimmed_task.as_slice()).as_str());
    match instructions {
        Some(i) => {
            let iv = chars_of(i);
            let ti = trim_chars(iv.as_slice());
            if ti.len() > 0 {
                content.append("\n\n");
                content.append("Instructions from @");
                content.append(caller_display);
                content.append(": ");
                content.append(string_from_chars(ti.as_slice()).as_str());
            }
        },
        None => {},
    }
    Ok(content)
}

/// The fields one dispatch target was given: the first of the selector
/// fields that holds a string, the task and the instructions, each when it
/// holds a string.
#[derive(Debug, Clone, PartialEq, Eq)]
pub struct TargetFields {
    pub selector: Option<String>,
    pub task: Option<String>,
    pub instructions: Option<String>,
}

/// An optional text, as the contracts see it.
pub open spec fn opt_text(s: Option<String>) -> Option<Seq<char>> {
    match s {
        Some(t) => Some(t@),
        None => None,
    }
}

/// `s` without leading `@` signs.
pub open spec fn without_at(s: Seq<char>) -> Seq<char> {
    s.skip(run_of(s, 0, '@'))
}

/// The fields of one target as the contracts see them:
/// `(selector, task, instructions)`.
pub open spec fn fields_view(f: TargetFields) -> (Option<Seq<char>>, Option<Seq<char>>, Option<Seq<char>>) {
    (opt_text(f.selector), opt_text(f.task), opt_text(f.instructions))
}

/// A target read from its fields `(selector, task, instructions)`, as
/// `(assistant, task, instructions)`, or the message of the first missing or
/// blank field.
pub open spec fn target_spec(f: (Option<Seq<char>>, Option<Seq<char>>, Option<Seq<char>>)) -> Result<
    (Seq<char>, Seq<char>, Option<Seq<char>>),
    Seq<char>,
> {
    match f.0 {
        None => Err("assistant selector is required"@),
        Some(sel) => match f.1 {
            None => Err("task is required"@),
            Some(task) => {
                let requested = trim_spec(without_at(trim_spec(sel)));
                if requested.len() == 0 {
                    Err("assistant selector must not be empty"@)
                } else if trim_spec(task).len() == 0 {
                    Err("task must not be empty"@)
                } else {
                    Ok(
                        (
                            requested,
                            trim_spec(task),
                            match f.2 {
                                Some(i) => if trim_spec(i).len() > 0 {
                                    Some(i)
                                } else {
                                    None
                                },
                                None => None,
                            },
                        ),
                    )
                }
            },
        },
    }
}

/// A target, as the contracts see it.
pub open spec fn target_view(t: AgentAsToolTarget) -> (Seq<char>, Seq<char>, Option<Seq<char>>) {
    (t.requested_agent@, t.task@, opt_text(t.instructions))
}

fn trimmed(v: &[char]) -> (r: Vec<char>)
    ensures
        r@ == trim_spec(v@),
{
    trim_chars(v)
}

/// Read one target from its fields.
pub fn parse_target(fields: &TargetFields) -> (r: Result<AgentAsToolTarget, AgentAsToolFailure>)
    ensures
        match target_spec(fields_view(*fields)) {
            Ok(t) => r matches Ok(target) && target_view(target) == t,
            Err(m) => r matches Err(f) && f.status@ == "failed"@ && f.message@ == m,
        },
{
    let sel = match &fields.selector {
        Some(s) => s,
        None => return Err(AgentAsToolFailure::failed("assistant selector is required".to_owned())),
    };
    let task = match &fields.task {
        Some(t) => t,
        None => return Err(AgentAsToolFailure::failed("task is required".to_owned())),
    };
    let instructions = match &fields.instructions {
        Some(i) => if is_blank(i.as_str()) {
            None
        } else {
            Some(i.as_str().to_owned())
        },
        None => None,
    };
    let first = trimmed(chars_of(sel.as_str()).as_slice());
    let ats = run_length(first.as_slice(), 0, '@');
    proof {
        lemma_run_of(first@, 0, '@');
    }
    let rest = chars_range(first.as_slice(), ats, first.len());
    assert(rest@ =~= without_at(first@));
    let requested = trimmed(rest.as_slice());
    if requested.len() == 0 {
        return Err(AgentAsToolFailure::failed("assistant selector must not be empty".to_owned()));
    }
    let task_trimmed = trimmed(chars_of(task.as_str()).as_slice());
    if task_trimmed.len() == 0 {
        return Err(AgentAsToolFailure::failed("task must not be empty".to_owned()));
    }
    Ok(
        AgentAsToolTarget {
            requested_agent: string_from_chars(requested.as_slice()),
            task: string_from_chars(task_trimmed.as_slice()),
            instructions: instructions,
        },
    )
}

/// A mode field as the contracts see it: missing, or present and holding a
/// string or not.
pub open spec fn mode_view(mode: Option<Option<String>>) -> Option<Option<Seq<char>>> {
    match mode {
        None => None,
        Some(m) => Some(opt_text(m)),
    }
}

/// A dispatch list as the contracts see it.
pub open spec fn dispatch_views(dispatches: Option<Vec<TargetFields>>) -> Option<
    Seq<(Option<Seq<char>>, Option<Seq<char>>, Option<Seq<char>>)>,
> {
    match dispatches {
        Some(v) => Some(v@.map_values(|f: TargetFields| fields_view(f))),
        None => None,
    }
}

/// The targets of a fan-out from entry `k` on, given the lowercased names
/// already seen, or the message of the first entry that fails or repeats an
/// assistant.
pub open spec fn fan_out_from(
    entries: Seq<(Option<Seq<char>>, Option<Seq<char>>, Option<Seq<char>>)>,
    k: int,
    seen: Seq<Seq<char>>,
) -> Result<
    Seq<(Seq<char>, Seq<char>, Option<Seq<char>>)>,
    Seq<char>,
>
    decreases entries.len() - k,
{
    if k < 0 || k >= entries.len() {
        Ok(Seq::empty())
    } else {
        match target_spec(entries[k]) {
            Err(m) => Err(m),
            Ok(t) => if seen.contains(lowercase(t.0)) {
                Err("fan_out must name each assistant once, but '"@ + t.0 + "' appears twice"@)
            } else {
                match fan_out_from(entries, k + 1, seen.push(lowercase(t.0))) {
                    Ok(rest) => Ok(seq![t] + rest),
                    Err(m) => Err(m),
                }
            },
        }
    }
}

/// The targets a fan-out names, or why it is refused: no list, fewer than two
/// entries, more than eight, or a failing or repeated entry.
pub open spec fn fan_out_spec(dispatches: Option<Seq<(Option<Seq<char>>, Option<Seq<char>>, Option<Seq<char>>)>>) -> Result<
    Seq<(Seq<char>, Seq<char>, Option<Seq<char>>)>,
    Seq<char>,
> {
    match dispatches {
        None => Err("fan_out requires dispatches: a list of {assistant, task} entries"@),
        Some(entries) => if entries.len() < 2 {
            Err("fan_out requires at least two dispatches; use call for a single assistant"@)
        } else if entries.len() > MAX_FAN_OUT_TARGETS {
            Err("fan_out accepts at most 8 dispatches"@)
        } else {
            fan_out_from(entries, 0, Seq::empty())
        },
    }
}

/// The mode a mode field names: a missing field and an unknown name are
/// refused with their own messages.
pub open spec fn mode_spec(mode: Option<Option<Seq<char>>>) -> Result<AgentAsToolMode, Seq<char>> {
    match mode {
        None => Err("mode is required: use call, handoff, or fan_out"@),
        Some(None) => Err("mode must be call, handoff, or fan_out"@),
        Some(Some(m)) => if m == "call"@ {
            Ok(AgentAsToolMode::Call)
        } else if m == "handoff"@ {
            Ok(AgentAsToolMode::Handoff)
        } else if m == "fan_out"@ {
            Ok(AgentAsToolMode::FanOut)
        } else {
            Err("mode must be call, handoff, or fan_out"@)
        },
    }
}

/// The dispatch the arguments of a call describe, or the message it is
/// refused with.
pub open spec fn call_spec(
    mode: Option<Option<Seq<char>>>,
    top: (Option<Seq<char>>, Option<Seq<char>>, Option<Seq<char>>),
    dispatches: Option<Seq<(Option<Seq<char>>, Option<Seq<char>>, Option<Seq<char>>)>>,
) -> Result<
    (AgentAsToolMode, Seq<(Seq<char>, Seq<char>, Option<Seq<char>>)>),
    Seq<char>,
> {
    match mode_spec(mode) {
        Err(m) => Err(m),
        Ok(AgentAsToolMode::FanOut) => match fan_out_spec(dispatches) {
            Ok(ts) => Ok((AgentAsToolMode::FanOut, ts)),
            Err(m) => Err(m),
        },
        Ok(md) => match target_spec(top) {
            Ok(t) => Ok((md, seq![t])),
            Err(m) => Err(m),
        },
    }
}

fn seen_contains(seen: &Vec<String>, name: &str) -> (r: bool)
    ensures
        r == seen@.map_values(|s: String| s@).contains(name@),
{
    let ghost view = seen@.map_values(|s: String| s@);
    let mut i: usize = 0;
    while i < seen.len()
        invariant
            i <= seen@.len(),
            view == seen@.map_values(|s: String| s@),
            forall|k: int| 0 <= k < i ==> view[k] != name@,
        decreases seen@.len() - i,
    {
        if same_text(seen[i].as_str(), name) {
            assert(view[i as int] == name@);
            return true;
        }
        i = i + 1;
    }
    false
}

fn parse_fan_out(dispatches: &Option<Vec<TargetFields>>) -> (r: Result<Vec<AgentAsToolTarget>, AgentAsToolFailure>)
    ensures
        match fan_out_spec(dispatch_views(*dispatches)) {
            Ok(ts) => r matches Ok(v) && v@.map_values(|t: AgentAsToolTarget| target_view(t)) == ts,
            Err(m) => r matches Err(f) && f.status@ == "failed"@ && f.message@ == m,
        },
{
    let entries = match dispatches {
        Some(v) => v,
        None => return Err(
            AgentAsToolFailure::failed("fan_out requires dispatches: a list of {assistant, task} entries".to_owned()),
        ),
    };
    if entries.len() < 2 {
        return Err(
            AgentAsToolFailure::failed(
                "fan_out requires at least two dispatches; use call for a single assistant".to_owned(),
            ),
        );
    }
    if entries.len() > MAX_FAN_OUT_TARGETS {
        let mut message = "fan_out accepts at most ".to_owned();
        push_decimal(&mut message, MAX_FAN_OUT_TARGETS as u64);
        message.append(" dispatches");
        proof {
            reveal_strlit("fan_out accepts at most ");
            reveal_strlit(" dispatches");
            reveal_strlit("fan_out accepts at most 8 dispatches");
            assert(crate::text::decimal(8) =~= seq!['8']);
        }
        assert(message@ =~= "fan_out accepts at most 8 dispatches"@);
        return Err(AgentAsToolFailure::failed(message));
    }
    let ghost es = entries@.map_values(|f: TargetFields| fields_view(f));
    let mut targets: Vec<AgentAsToolTarget> = Vec::new();
    let mut seen: Vec<String> = Vec::new();
    let mut k: usize = 0;
    assert(seen@.map_values(|s: String| s@) =~= Seq::<Seq<char>>::empty());
    assert(targets@.map_values(|t: AgentAsToolTarget| target_view(t)) =~= Seq::<(Seq<char>, Seq<char>, Option<Seq<char>>)>::empty());
    while k < entries.len()
        invariant
            es == entries@.map_values(|f: TargetFields| fields_view(f)),
            es.len() == entries@.len(),
            dispatches matches Some(v) && v@ == entries@,
            k <= es.len(),
            2 <= es.len() <= MAX_FAN_OUT_TARGETS,
            match fan_out_from(es, 0, Seq::empty()) {
                Ok(all) => match fan_out_from(es, k as int, seen@.map_values(|s: String| s@)) {
                    Ok(rest) => all == targets@.map_values(|t: AgentAsToolTarget| target_view(t)) + rest,
                    Err(_) => false,
                },
                Err(m) => fan_out_from(es, k as int, seen@.map_values(|s: String| s@)) == Err::<
                    Seq<(Seq<char>, Seq<char>, Option<Seq<char>>)>,
                    Seq<char>,
                >(m),
            },
        decreases es.len() - k,
    {
        let ghost seen_view = seen@.map_values(|s: String| s@);
        assert(es[k as int] == fields_view(entries@[k as int]));
        let target = match parse_target(&entries[k]) {
            Ok(t) => t,
            Err(f) => {
                assert(fan_out_from(es, k as int, seen_view) == Err::<Seq<(Seq<char>, Seq<char>, Option<Seq<char>>)>, Seq<char>>(f.message@));
                return Err(f);
            },
        };
        let folded = to_lowercase(target.requested_agent.as_str());
        if seen_contains(&seen, folded.as_str()) {
            let mut message = "fan_out must name each assistant once, but '".to_owned();
            message.append(target.requested_agent.as_str());
            message.append("' appears twice");
            assert(fan_out_from(es, k as int, seen_view) == Err::<Seq<(Seq<char>, Seq<char>, Option<Seq<char>>)>, Seq<char>>(message@));
            return Err(AgentAsToolFailure::failed(message));
        }
        let ghost prev_targets = targets@;
        let ghost tv = target_view(target);
        seen.push(folded);
        assert(seen@.map_values(|s: String| s@) =~= seen_view.push(lowercase(tv.0)));
        targets.push(target);
        assert(targets@.map_values(|t: AgentAsToolTarget| target_view(t)) =~= prev_targets.map_values(
            |t: AgentAsToolTarget| target_view(t),
        ).push(tv));
        proof {
            match fan_out_from(es, k as int + 1, seen@.map_values(|s: String| s@)) {
                Ok(rest) => {
                    assert(seq![tv] + rest =~= seq![tv] + rest);
                    assert(prev_targets.map_values(|t: AgentAsToolTarget| target_view(t)) + (seq![tv] + rest) =~= targets@.map_values(
                        |t: AgentAsToolTarget| target_view(t),
                    ) + rest);
                },
                Err(_) => {},
            }
        }
        k = k + 1;
    }
    Ok(targets)
}

/// Read a dispatch from its arguments: the mode field (missing, or holding a
/// string or not), the top-level target fields, and for a fan-out the
/// entries of its dispatch list (`None` when there is no list). Every
/// refusal fails with a message naming what is wrong.
pub fn from_fields(tool_call_id: String, mode: Option<Option<String>>, top: TargetFields, dispatches: Option<Vec<TargetFields>>) -> (r:
    Result<AgentAsToolCall, AgentAsToolFailure>)
    ensures
        match call_spec(mode_view(mode), fields_view(top), dispatch_views(dispatches)) {
            Ok((md, ts)) => r matches Ok(call) && call.tool_call_id == tool_call_id && call.mode == md
                && call.targets@.map_values(|t: AgentAsToolTarget| target_view(t)) == ts,
            Err(m) => r matches Err(f) && f.status@ == "failed"@ && f.message@ == m,
        },
{
    let parsed_mode = match &mode {
        None => return Err(AgentAsToolFailure::failed("mode is required: use call, handoff, or fan_out".to_owned())),
        Some(None) => return Err(AgentAsToolFailure::failed("mode must be call, handoff, or fan_out".to_owned())),
        Some(Some(m)) => {
            if same_text(m.as_str(), "call") {
                AgentAsToolMode::Call
            } else if same_text(m.as_str(), "handoff") {
                AgentAsToolMode::Handoff
            } else if same_text(m.as_str(), "fan_out") {
                AgentAsToolMode::FanOut
            } else {
                return Err(AgentAsToolFailure::failed("mode must be call, handoff, or fan_out".to_owned()));
            }
        },
    };
    let targets = match parsed_mode {
        AgentAsToolMode::FanOut => match parse_fan_out(&dispatches) {
            Ok(ts) => ts,
            Err(f) => return Err(f),
        },
        _ => match parse_target(&top) {
            Ok(t) => {
                let mut v: Vec<AgentAsToolTarget> = Vec::new();
                let ghost tv = target_view(t);
                v.push(t);
                assert(v@.map_values(|x: AgentAsToolTarget| target_view(x)) =~= seq![tv]);
                v
            },
            Err(f) => return Err(f),
        },
    };
    Ok(AgentAsToolCall { tool_call_id: tool_call_id, mode: parsed_mode, targets: targets })
}

/// What `serde_json` reads as a string under `key` at the top level of the
/// JSON text `raw`: `None` when the text is not JSON, has no such field, or
/// the field does not hold a string.
pub uninterp spec fn json_string_field(raw: Seq<char>, key: Seq<char>) -> Option<Seq<char>>;

/// `serde_json::from_str::<Value>`, `Value::get` and the `String` variant:
/// the string under `key` at the top level of `raw`. The contract only
/// names the result.
#[verifier::external_body]
fn read_json_string_field(raw: &str, key: &str) -> (r: Option<String>)
    ensures
        match json_string_field(raw@, key@) {
            Some(t) => r matches Some(s) && s@ == t,
            None => r is None,
        },
{
    let value: serde_json::Value = match serde_json::from_str(raw) {
        Ok(v) => v,
        Err(_) => return None,
    };
    match value.get(key) {
        Some(serde_json::Value::String(text)) => Some(text.clone()),
        _ => None,
    }
}

/// The items of the array under `key` at the top level of the JSON text
/// `raw`, each as `serde_json` writes it back: `None` when the text is not
/// JSON, has no such field, or the field does not hold an array.
pub uninterp spec fn json_array_items(raw: Seq<char>, key: Seq<char>) -> Option<Seq<Seq<char>>>;

/// `serde_json::from_str::<Value>`, `Value::get`, the `Array` variant and
/// `Value::to_string` on each item. The contract only names the result.
#[verifier::external_body]
fn read_json_array_items(raw: &str, key: &str) -> (r: Option<Vec<String>>)
    ensures
        match json_array_items(raw@, key@) {
            Some(items) => r matches Some(v) && v@.map_values(|s: String| s@) == items,
            None => r is None,
        },
{
    let value: serde_json::Value = match serde_json::from_str(raw) {
        Ok(v) => v,
        Err(_) => return None,
    };
    match value.get(key) {
        Some(serde_json::Value::Array(items)) => Some(items.iter().map(|item| item.to_string()).collect()),
        _ => None,
    }
}

/// `a` when it holds a value, else `b`.
pub open spec fn or_else(a: Option<Seq<char>>, b: Option<Seq<char>>) -> Option<Seq<char>> {
    if a is Some {
        a
    } else {
        b
    }
}

/// The assistant a JSON target names: the first of `agent_id`,
/// `assistant_agent_id`, `assistant_id`, `assistant`, `name` and
/// `display_name` that holds a string.
pub open spec fn json_selector(raw: Seq<char>) -> Option<Seq<char>> {
    or_else(
        json_string_field(raw, "agent_id"@),
        or_else(
            json_string_field(raw, "assistant_agent_id"@),
            or_else(
                json_string_field(raw, "assistant_id"@),
                or_else(
                    json_string_field(raw, "assistant"@),
                    or_else(json_string_field(raw, "name"@), json_string_field(raw, "display_name"@)),
                ),
            ),
        ),
    )
}

/// The target fields of the JSON object `raw`.
pub open spec fn json_target(raw: Seq<char>) -> (Option<Seq<char>>, Option<Seq<char>>, Option<Seq<char>>) {
    (json_selector(raw), json_string_field(raw, "task"@), json_string_field(raw, "instructions"@))
}

/// The mode field of the JSON object `raw`: missing, or present and holding
/// a string or not.
pub open spec fn json_mode(raw: Seq<char>) -> Option<Option<Seq<char>>> {
    match json_field_text(raw, "mode"@) {
        None => None,
        Some(_) => Some(json_string_field(raw, "mode"@)),
    }
}

/// The target fields of each entry of the `dispatches` list of the JSON
/// object `raw`, or `None` when it has no such list.
pub open spec fn json_dispatches(raw: Seq<char>) -> Option<Seq<(Option<Seq<char>>, Option<Seq<char>>, Option<Seq<char>>)>> {
    match json_array_items(raw, "dispatches"@) {
        None => None,
        Some(items) => Some(items.map_values(|t: Seq<char>| json_target(t))),
    }
}

fn first_string_of(raw: &str) -> (r: Option<String>)
    ensures
        opt_text(r) == json_selector(raw@),
{
    match read_json_string_field(raw, "agent_id") {
        Some(s) => return Some(s),
        None => {},
    }
    match read_json_string_field(raw, "assistant_agent_id") {
        Some(s) => return Some(s),
        None => {},
    }
    match read_json_string_field(raw, "assistant_id") {
        Some(s) => return Some(s),
        None => {},
    }
    match read_json_string_field(raw, "assistant") {
        Some(s) => return Some(s),
        None => {},
    }
    match read_json_string_field(raw, "name") {
        Some(s) => return Some(s),
        None => {},
    }
    read_json_string_field(raw, "display_name")
}

fn target_fields_of(raw: &str) -> (r: TargetFields)
    ensures
        fields_view(r) == json_target(raw@),
{
    TargetFields {
        selector: first_string_of(raw),
        task: read_json_string_field(raw, "task"),
        instructions: read_json_string_field(raw, "instructions"),
    }
}

/// Read a dispatch from the JSON text of the tool call's arguments: the mode
/// field, the top-level target fields, and for a fan-out the `dispatches`
/// list, each entry read as a target of its own. Text that is not a JSON
/// object has none of these fields.
pub fn agent_call_from_json(tool_call_id: String, args: &str) -> (r: Result<AgentAsToolCall, AgentAsToolFailure>)
    ensures
        match call_spec(json_mode(args@), json_target(args@), json_dispatches(args@)) {
            Ok((md, ts)) => r matches Ok(call) && call.tool_call_id == tool_call_id && call.mode == md
                && call.targets@.map_values(|t: AgentAsToolTarget| target_view(t)) == ts,
            Err(m) => r matches Err(f) && f.status@ == "failed"@ && f.message@ == m,
        },
{
    let mode = match read_json_field_text(args, "mode") {
        None => None,
        Some(_) => Some(read_json_string_field(args, "mode")),
    };
    assert(mode_view(mode) == json_mode(args@));
    let top = target_fields_of(args);
    let dispatches = match read_json_array_items(args, "dispatches") {
        None => None,
        Some(items) => {
            let ghost texts = items@.map_values(|s: String| s@);
            let mut entries: Vec<TargetFields> = Vec::new();
            let mut k: usize = 0;
            while k < items.len()
                invariant
                    k <= items@.len(),
                    texts == items@.map_values(|s: String| s@),
                    entries@.map_values(|f: TargetFields| fields_view(f)) == texts.take(k as int).map_values(
                        |t: Seq<char>| json_target(t),
                    ),
                decreases items@.len() - k,
            {
                let entry = target_fields_of(items[k].as_str());
                let ghost before = entries@;
                entries.push(entry);
                assert(texts[k as int] == items@[k as int]@);
                assert(entries@.map_values(|f: TargetFields| fields_view(f)) =~= texts.take(k as int + 1).map_values(
                    |t: Seq<char>| json_target(t),
                )) by {
                    assert(before.push(entry).map_values(|f: TargetFields| fields_view(f)) =~= before.map_values(
                        |f: TargetFields| fields_view(f),
                    ).push(fields_view(entry)));
                }
                k = k + 1;
            }
            assert(texts.take(k as int) =~= texts);
            Some(entries)
        },
    };
    assert(dispatch_views(dispatches) == json_dispatches(args@));
    from_fields(tool_call_id, mode, top, dispatches)
}

/// One assistant a caller's tool configuration binds, and whether the
/// binding is on (it is when the configuration does not say).
#[derive(Debug, Clone, PartialEq, Eq)]
pub struct AssistantSelection {
    pub agent_id: String,
    pub enabled: bool,
}

/// A caller's assistant configuration as read from its stored tool
/// configuration: none stored, stored but unreadable, or its list of
/// assistant selections (empty when the list is absent).
#[derive(Debug, Clone, PartialEq, Eq)]
pub enum AssistantConfig {
    Absent,
    Invalid,
    Parsed(Vec<AssistantSelection>),
}

/// The ids of the enabled selections, in order.
pub open spec fn enabled_ids(selections: Seq<AssistantSelection>) -> Seq<Seq<char>>
    decreases selections.len(),
{
    if selections.len() == 0 {
        Seq::empty()
    } else if selections.last().enabled {
        enabled_ids(selections.drop_last()).push(selections.last().agent_id@)
    } else {
        enabled_ids(selections.drop_last())
    }
}

/// The assistants a caller has bound and enabled: none without a
/// configuration, and a failure when the configuration cannot be read.
pub fn enabled_assistant_ids(config: &AssistantConfig) -> (r: Result<Vec<String>, AgentAsToolFailure>)
    ensures
        match config {
            AssistantConfig::Absent => r matches Ok(ids) && ids@.len() == 0,
            AssistantConfig::Invalid => r matches Err(f) && f.status@ == "failed"@ && f.message@
                == "invalid assistant tool configuration"@,
            AssistantConfig::Parsed(selections) => r matches Ok(ids) && ids@.map_values(|s: String| s@)
                == enabled_ids(selections@),
        },
{
    match config {
        AssistantConfig::Absent => Ok(Vec::new()),
        AssistantConfig::Invalid => Err(AgentAsToolFailure::failed("invalid assistant tool configuration".to_owned())),
        AssistantConfig::Parsed(selections) => {
            let mut ids: Vec<String> = Vec::new();
            let mut i: usize = 0;
            while i < selections.len()
                invariant
                    i <= selections@.len(),
                    ids@.map_values(|s: String| s@) == enabled_ids(selections@.take(i as int)),
                decreases selections@.len() - i,
            {
                assert(selections@.take(i as int + 1).drop_last() =~= selections@.take(i as int));
                if selections[i].enabled {
                    ids.push(selections[i].agent_id.clone());
                }
                i = i + 1;
                assert(ids@.map_values(|s: String| s@) =~= enabled_ids(selections@.take(i as int)));
            }
            assert(selections@.take(i as int) =~= selections@);
            Ok(ids)
        },
    }
}

/// The assistants a caller can dispatch to, and how many it has bound.
#[derive(Debug, Clone, PartialEq, Eq)]
pub struct AssistantRoster {
    pub bound: usize,
    pub dispatchable: Vec<AssistantMember>,
}

/// The members that are not the caller itself, in order.
pub open spec fn others_than(members: Seq<AssistantMember>, caller_id: Seq<char>) -> Seq<AssistantMember>
    decreases members.len(),
{
    if members.len() == 0 {
        Seq::empty()
    } else if members.last().agent_id@ == caller_id {
        others_than(members.drop_last(), caller_id)
    } else {
        others_than(members.drop_last(), caller_id).push(members.last())
    }
}

/// The roster that describes the dispatch tool to a caller: of the bound
/// members found active in the group, every one but the caller itself,
/// with the number of assistants it has bound.
pub fn assistant_roster(bound: usize, members: &[AssistantMember], caller_id: &str) -> (r: AssistantRoster)
    ensures
        r.bound == bound,
        r.dispatchable@ == others_than(members@, caller_id@),
{
    let mut dispatchable: Vec<AssistantMember> = Vec::new();
    let mut i: usize = 0;
    while i < members.len()
        invariant
            i <= members@.len(),
            dispatchable@ == others_than(members@.take(i as int), caller_id@),
        decreases members@.len() - i,
    {
        assert(members@.take(i as int + 1).drop_last() =~= members@.take(i as int));
        let m = &members[i];
        if !same_text(m.agent_id.as_str(), caller_id) {
            dispatchable.push(
                AssistantMember {
                    agent_id: m.agent_id.clone(),
                    name: m.name.clone(),
                    display_name: m.display_name.clone(),
                },
            );
        }
        i = i + 1;
        assert(dispatchable@ =~= others_than(members@.take(i as int), caller_id@));
    }
    assert(members@.take(i as int) =~= members@);
    AssistantRoster { bound: bound, dispatchable: dispatchable }
}

/// The message a caller gets when it has no assistant bound that answers to
/// the request.
pub const NOT_ENABLED_MESSAGE: &'static str = "assistant is not enabled for this agent";

/// The message a caller gets when the assistant it asked for is bound to it
/// but not a member of this group.
pub const NOT_IN_GROUP_MESSAGE: &'static str = "assistant agent must be added to this group before AgentAsTool can dispatch to it";

/// The message a caller gets when it asks for itself.
pub const SELF_DISPATCH_MESSAGE: &'static str = "agent cannot delegate to itself";

/// A caller with nothing bound cannot dispatch at all.
pub fn require_bound(bound_ids: &[String]) -> (r: Result<(), AgentAsToolFailure>)
    ensures
        bound_ids@.len() == 0 ==> (r matches Err(f) && f.status@ == "unavailable"@ && f.message@ == NOT_ENABLED_MESSAGE@),
        bound_ids@.len() > 0 ==> r is Ok,
{
    if bound_ids.len() == 0 {
        Err(AgentAsToolFailure::unavailable(NOT_ENABLED_MESSAGE.to_owned()))
    } else {
        Ok(())
    }
}

/// The index of the first member that answers to the request, if any.
pub open spec fn first_requested(members: Seq<AssistantMember>, requested: Seq<char>, folded: Seq<char>) -> Option<int>
    decreases members.len(),
{
    if members.len() == 0 {
        None
    } else {
        match first_requested(members.drop_last(), requested, folded) {
            Some(k) => Some(k),
            None => if requested_matches(members.last(), requested, folded) {
                Some(members.len() - 1)
            } else {
                None
            },
        }
    }
}

proof fn lemma_first_requested(members: Seq<AssistantMember>, requested: Seq<char>, folded: Seq<char>)
    ensures
        match first_requested(members, requested, folded) {
            Some(k) => 0 <= k < members.len() && requested_matches(members[k], requested, folded) && forall|j: int|
                0 <= j < k ==> !requested_matches(#[trigger] members[j], requested, folded),
            None => forall|j: int| 0 <= j < members.len() ==> !requested_matches(#[trigger] members[j], requested, folded),
        },
    decreases members.len(),
{
    if members.len() > 0 {
        lemma_first_requested(members.drop_last(), requested, folded);
        assert forall|j: int| 0 <= j < members.len() - 1 implies #[trigger] members[j] == members.drop_last()[j] by {}
    }
}

/// Whether one of the bound ids names the request, ignoring ASCII case.
pub open spec fn bound_id_requested(bound_ids: Seq<String>, requested: Seq<char>) -> bool {
    exists|i: int| 0 <= i < bound_ids.len() && eq_ignore_ascii_case(#[trigger] bound_ids[i]@, requested)
}

/// Where resolving a dispatch among the group's bound members leads: to a
/// member (with the message it receives), to a refusal, or, when no member
/// answers and no bound id names the request, to a lookup of the caller's
/// bound agents by name.
#[derive(Debug)]
pub enum DispatchResolution {
    Dispatch { helper: AssistantMember, content: String },
    Refused(AgentAsToolFailure),
    LookUpByName,
}

fn copy_member(m: &AssistantMember) -> (r: AssistantMember)
    ensures
        r == *m,
{
    AssistantMember { agent_id: m.agent_id.clone(), name: m.name.clone(), display_name: m.display_name.clone() }
}

/// Resolve a dispatch among the caller's bound members that are active in
/// the group (in binding order): the first member answering to the request
/// (its id ignoring ASCII case, or its name or display name lowercased)
/// receives the task, unless that member is the caller itself. When none
/// answers, a bound id naming the request means the assistant is bound but
/// not in the group.
pub fn resolve_in_group(
    bound_ids: &[String],
    members: &[AssistantMember],
    caller_id: &str,
    caller_display: &str,
    target: &AgentAsToolTarget,
) -> (r: DispatchResolution)
    ensures
        ({
            let requested = trim_spec(target.requested_agent@);
            let folded = lowercase(requested);
            match first_requested(members@, requested, folded) {
                Some(k) => if members@[k].agent_id@ == caller_id@ {
                    r matches DispatchResolution::Refused(f) && f.status@ == "unavailable"@ && f.message@
                        == SELF_DISPATCH_MESSAGE@
                } else if trim_spec(target.task@).len() == 0 {
                    r matches DispatchResolution::Refused(f) && f.status@ == "failed"@ && f.message@
                        == "task must not be empty"@
                } else {
                    r matches DispatchResolution::Dispatch { helper, content } && helper == members@[k] && content@
                        == dispatch_content(
                        members@[k].display_name@,
                        caller_display@,
                        target.task@,
                        match target.instructions {
                            Some(i) => Some(i@),
                            None => None,
                        },
                    )
                },
                None => if bound_id_requested(bound_ids@, requested) {
                    r matches DispatchResolution::Refused(f) && f.status@ == "unavailable"@ && f.message@
                        == NOT_IN_GROUP_MESSAGE@
                } else {
                    r is LookUpByName
                },
            }
        }),
{
    let requested_chars = trim_chars(chars_of(target.requested_agent.as_str()).as_slice());
    let requested = string_from_chars(requested_chars.as_slice());
    let folded = to_lowercase(requested.as_str());
    proof {
        lemma_first_requested(members@, requested@, folded@);
    }
    let mut i: usize = 0;
    while i < members.len()
        invariant
            i <= members@.len(),
            requested@ == trim_spec(target.requested_agent@),
            folded@ == lowercase(requested@),
            forall|j: int| 0 <= j < i ==> !requested_matches(#[trigger] members@[j], requested@, folded@),
            match first_requested(members@, requested@, folded@) {
                Some(k) => 0 <= k < members@.len() && requested_matches(members@[k], requested@, folded@)
                    && forall|j: int| 0 <= j < k ==> !requested_matches(#[trigger] members@[j], requested@, folded@),
                None => forall|j: int|
                    0 <= j < members@.len() ==> !requested_matches(#[trigger] members@[j], requested@, folded@),
            },
        decreases members@.len() - i,
    {
        let helper = &members[i];
        if matches_requested(helper, requested.as_str(), folded.as_str()) {
            assert(first_requested(members@, requested@, folded@) == Some(i as int));
            if same_text(helper.agent_id.as_str(), caller_id) {
                return DispatchResolution::Refused(AgentAsToolFailure::unavailable(SELF_DISPATCH_MESSAGE.to_owned()));
            }
            let instructions = match &target.instructions {
                Some(text) => Some(text.as_str()),
                None => None,
            };
            return match build_dispatch_content(
                helper.display_name.as_str(),
                caller_display,
                target.task.as_str(),
                instructions,
            ) {
                Ok(content) => DispatchResolution::Dispatch { helper: copy_member(helper), content },
                Err(f) => DispatchResolution::Refused(f),
            };
        }
        i = i + 1;
    }
    let mut b: usize = 0;
    while b < bound_ids.len()
        invariant
            b <= bound_ids@.len(),
            requested@ == trim_spec(target.requested_agent@),
            folded@ == lowercase(requested@),
            forall|j: int| 0 <= j < members@.len() ==> !requested_matches(#[trigger] members@[j], requested@, folded@),
            first_requested(members@, requested@, folded@) is None,
            forall|j: int| 0 <= j < b ==> !eq_ignore_ascii_case(#[trigger] bound_ids@[j]@, requested@),
        decreases bound_ids@.len() - b,
    {
        if ascii_case_eq(bound_ids[b].as_str(), requested.as_str()) {
            return DispatchResolution::Refused(AgentAsToolFailure::unavailable(NOT_IN_GROUP_MESSAGE.to_owned()));
        }
        b = b + 1;
    }
    DispatchResolution::LookUpByName
}

/// The refusal after the lookup by name: a bound agent of that name is not
/// in the group; otherwise nothing the caller has bound answers to the
/// request.
pub fn refusal_after_name_lookup(found: bool) -> (r: AgentAsToolFailure)
    ensures
        r.status@ == "unavailable"@,
        r.message@ == if found { NOT_IN_GROUP_MESSAGE@ } else { NOT_ENABLED_MESSAGE@ },
{
    if found {
        AgentAsToolFailure::unavailable(NOT_IN_GROUP_MESSAGE.to_owned())
    } else {
        AgentAsToolFailure::unavailable(NOT_ENABLED_MESSAGE.to_owned())
    }
}

} // verus!
