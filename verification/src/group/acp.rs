use vstd::prelude::*;

verus! {

/// The ACP runtimes an agent can be bound to, as far as the context window
/// depends on which one it is.
#[derive(Clone, Copy, Debug, PartialEq, Eq, Structural)]
pub enum AcpRuntimeProfile {
    Dsh,
    Codex,
    Custom,
}

/// The context window a `dsh` agent runs against: `dsh` leaves the window to
/// its model adapter's default rather than reporting it over ACP.
pub const DSH_CONTEXT_WINDOW_TOKENS: i64 = 1_000_000;

/// What `serde_json` reads as the integer under `key` at the top level of the
/// JSON text `raw`: `None` when the text is not JSON, has no such field, or the
/// field is not an integer that fits `i64`.
pub uninterp spec fn json_i64_field(raw: Seq<char>, key: Seq<char>) -> Option<i64>;

/// `serde_json::from_str::<Value>`, then `Value::get` and `Value::as_i64`: the
/// integer under `key` at the top level of `raw`. The contract only names the
/// result; which texts parse is left to `serde_json`.
#[verifier::external_body]
fn read_json_i64_field(raw: &str, key: &str) -> (r: Option<i64>)
    ensures
        r == json_i64_field(raw@, key@),
{
    serde_json::from_str::<serde_json::Value>(raw).ok().and_then(
        |value| value.get(key).and_then(serde_json::Value::as_i64),
    )
}

/// An override counts only when it is a positive number of tokens.
pub open spec fn positive_window(field: Option<i64>) -> Option<i64> {
    match field {
        Some(w) => if w > 0 {
            Some(w)
        } else {
            None
        },
        None => None,
    }
}

/// The override field as read from an agent's model configuration.
pub open spec fn override_field(model_config_json: Option<Seq<char>>) -> Option<i64> {
    match model_config_json {
        Some(raw) => json_i64_field(raw, "context_window_tokens"@),
        None => None,
    }
}

/// The window an ACP agent is measured against, given what its configuration
/// holds: its own positive override first, else the window its profile is known
/// to run with, else none.
pub open spec fn acp_window(profile: AcpRuntimeProfile, field: Option<i64>) -> Option<i64> {
    match positive_window(field) {
        Some(w) => Some(w),
        None => match profile {
            AcpRuntimeProfile::Dsh => Some(DSH_CONTEXT_WINDOW_TOKENS),
            _ => None,
        },
    }
}

/// The override field of the JSON text, kept only when positive.
pub fn window_override_from_field(field: Option<i64>) -> (r: Option<i64>)
    ensures
        r == positive_window(field),
{
    match field {
        Some(w) => if w > 0 {
            Some(w)
        } else {
            None
        },
        None => None,
    }
}

/// An agent's context-window override, read from the `context_window_tokens`
/// field at the top level of its model configuration.
pub fn context_window_override(model_config_json: Option<&str>) -> (r: Option<i64>)
    ensures
        r == positive_window(
            override_field(
                match model_config_json {
                    Some(raw) => Some(raw@),
                    None => None,
                },
            ),
        ),
{
    match model_config_json {
        Some(raw) => {
            let field = read_json_i64_field(raw, "context_window_tokens");
            window_override_from_field(field)
        },
        None => None,
    }
}

/// The window chosen once the override field is known; a guessed window would
/// be worse than none, so only `dsh` has a default.
pub fn resolve_acp_context_window(profile: AcpRuntimeProfile, field: Option<i64>) -> (r: Option<
    i64,
>)
    ensures
        r == acp_window(profile, field),
{
    match window_override_from_field(field) {
        Some(w) => Some(w),
        None => match profile {
            AcpRuntimeProfile::Dsh => Some(DSH_CONTEXT_WINDOW_TOKENS),
            _ => None,
        },
    }
}

/// The context window to measure an ACP agent's estimated usage against.
pub fn acp_context_window(profile: AcpRuntimeProfile, model_config_json: Option<&str>) -> (r:
    Option<i64>)
    ensures
        r == acp_window(
            profile,
            override_field(
                match model_config_json {
                    Some(raw) => Some(raw@),
                    None => None,
                },
            ),
        ),
{
    let field = match model_config_json {
        Some(raw) => read_json_i64_field(raw, "context_window_tokens"),
        None => None,
    };
    resolve_acp_context_window(profile, field)
}

} // verus!
