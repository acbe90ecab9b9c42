use vstd::prelude::*;

use crate::text::{chars_of, same_text, string_from_chars, trim_chars, trim_spec};
use crate::group::routing::ids_view;
use crate::group::tools::{builtin_name, builtin_tool_name, McpToolBinding};

verus! {

/// What `serde_json` reads as the boolean under `key` at the top level of the
/// JSON text `raw`: `None` when the text is not JSON, has no such field, or
/// the field is not a boolean.
pub uninterp spec fn json_bool_field(raw: Seq<char>, key: Seq<char>) -> Option<bool>;

/// `serde_json::from_str::<Value>`, then `Value::get` and `Value::as_bool`:
/// the boolean under `key` at the top level of `raw`. The contract only names
/// the result.
#[verifier::external_body]
fn read_json_bool_field(raw: &str, key: &str) -> (r: Option<bool>)
    ensures
        r == json_bool_field(raw@, key@),
{
    serde_json::from_str::<serde_json::Value>(raw).ok().and_then(|value| value.get(key).and_then(serde_json::Value::as_bool))
}

/// What `serde_json` reads from `raw` as a list of strings: `None` unless the
/// whole text is a JSON array of strings.
pub uninterp spec fn json_string_array(raw: Seq<char>) -> Option<Seq<Seq<char>>>;

/// `serde_json::from_str::<Vec<String>>`: the strings of a JSON array. The
/// contract only names the result.
#[verifier::external_body]
fn read_json_string_array(raw: &str) -> (r: Option<Vec<String>>)
    ensures
        match json_string_array(raw@) {
            Some(items) => r matches Some(v) && ids_view(v@) == items,
            None => r is None,
        },
{
    serde_json::from_str::<Vec<String>>(raw).ok()
}

/// Whether an agent runs unattended, given the `bypass_approvals` field of its
/// tool configuration; absent or not a boolean means it does not.
pub open spec fn bypass_from(field: Option<bool>) -> bool {
    match field {
        Some(b) => b,
        None => false,
    }
}

/// The `bypass_approvals` field of an agent's tool configuration text.
pub open spec fn bypass_field(raw: Option<Seq<char>>) -> Option<bool> {
    match raw {
        Some(t) => json_bool_field(t, "bypass_approvals"@),
        None => None,
    }
}

/// Whether an agent runs unattended: every approval gate off. Absent means
/// off, so a configuration that never mentions it cannot end up with it.
pub fn bypass_approvals(raw: Option<&str>) -> (r: bool)
    ensures
        r == bypass_from(
            bypass_field(
                match raw {
                    Some(t) => Some(t@),
                    None => None,
                },
            ),
        ),
{
    let field = match raw {
        Some(t) => read_json_bool_field(t, "bypass_approvals"),
        None => None,
    };
    match field {
        Some(b) => b,
        None => false,
    }
}

/// The strings a JSON list holds, each once, in order of first appearance.
pub open spec fn distinct_strings(items: Seq<Seq<char>>) -> Seq<Seq<char>>
    decreases items.len(),
{
    if items.len() == 0 {
        Seq::empty()
    } else if distinct_strings(items.drop_last()).contains(items.last()) {
        distinct_strings(items.drop_last())
    } else {
        distinct_strings(items.drop_last()).push(items.last())
    }
}

/// The set of strings a stored JSON list holds: empty when the text is
/// missing or is not a list of strings.
pub open spec fn string_set(raw: Option<Seq<char>>) -> Seq<Seq<char>> {
    match raw {
        Some(t) => match json_string_array(t) {
            Some(items) => distinct_strings(items),
            None => Seq::empty(),
        },
        None => Seq::empty(),
    }
}

fn listed(list: &Vec<String>, id: &str) -> (r: bool)
    ensures
        r == ids_view(list@).contains(id@),
{
    let mut i: usize = 0;
    while i < list.len()
        invariant
            i <= list@.len(),
            forall|k: int| 0 <= k < i ==> list@[k]@ != id@,
        decreases list@.len() - i,
    {
        if same_text(list[i].as_str(), id) {
            assert(ids_view(list@)[i as int] == id@);
            return true;
        }
        i = i + 1;
    }
    proof {
        if ids_view(list@).contains(id@) {
            let k = choose|k: int| 0 <= k < ids_view(list@).len() && ids_view(list@)[k] == id@;
            assert(ids_view(list@)[k] == list@[k]@);
        }
    }
    false
}

/// Read a stored JSON list of strings as a set, each string once.
pub fn parse_string_set(raw: Option<&str>) -> (r: Vec<String>)
    ensures
        ids_view(r@) == string_set(
            match raw {
                Some(t) => Some(t@),
                None => None,
            },
        ),
{
    let items = match raw {
        Some(t) => match read_json_string_array(t) {
            Some(v) => v,
            None => return Vec::new(),
        },
        None => return Vec::new(),
    };
    let ghost all = ids_view(items@);
    let mut out: Vec<String> = Vec::new();
    let mut i: usize = 0;
    assert(all.take(0) =~= Seq::<Seq<char>>::empty());
    while i < items.len()
        invariant
            i <= items@.len(),
            all == ids_view(items@),
            ids_view(out@) == distinct_strings(all.take(i as int)),
        decreases items@.len() - i,
    {
        assert(all.take(i as int + 1).drop_last() =~= all.take(i as int));
        let ghost prev = out@;
        if !listed(&out, items[i].as_str()) {
            out.push(items[i].as_str().to_owned());
            assert(ids_view(out@) =~= ids_view(prev).push(all[i as int]));
        }
        i = i + 1;
    }
    assert(all.take(i as int) =~= all);
    out
}

/// Whether an agent counts as muted in its group, given the group's stored
/// muted list (`None` when no active group was found, which counts as
/// muted).
pub fn muted_in_group(stored: Option<Option<&str>>, agent_id: &str) -> (r: bool)
    ensures
        r == match stored {
            None => true,
            Some(raw) => string_set(
                match raw {
                    Some(t) => Some(t@),
                    None => None,
                },
            ).contains(agent_id@),
        },
{
    match stored {
        None => true,
        Some(raw) => {
            let set = parse_string_set(raw);
            listed(&set, agent_id)
        },
    }
}

/// No string of a set occurs twice.
pub proof fn lemma_string_set_is_distinct(items: Seq<Seq<char>>)
    ensures
        forall|a: int, b: int|
            0 <= a < b < distinct_strings(items).len() ==> distinct_strings(items)[a] != distinct_strings(items)[b],
        forall|x: Seq<char>| distinct_strings(items).contains(x) <==> items.contains(x),
    decreases items.len(),
{
    if items.len() > 0 {
        let init = items.drop_last();
        lemma_string_set_is_distinct(init);
        let d = distinct_strings(init);
        let l = items.last();
        let ds = distinct_strings(items);
        assert forall|x: Seq<char>| ds.contains(x) <==> items.contains(x) by {
            if items.contains(x) {
                let k = choose|k: int| 0 <= k < items.len() && items[k] == x;
                if k < init.len() {
                    assert(init[k] == x);
                }
            }
            if init.contains(x) {
                let k = choose|k: int| 0 <= k < init.len() && init[k] == x;
                assert(items[k] == x);
            }
            if x == l {
                assert(items[items.len() - 1] == x);
            }
            if !d.contains(l) {
                assert(ds == d.push(l));
                if ds.contains(x) {
                    let k = choose|k: int| 0 <= k < ds.len() && ds[k] == x;
                    if k < d.len() {
                        assert(d[k] == x);
                    }
                }
                if d.contains(x) {
                    let k = choose|k: int| 0 <= k < d.len() && d[k] == x;
                    assert(ds[k] == x);
                }
                if x == l {
                    assert(ds[d.len() as int] == x);
                }
            }
        }
        if !d.contains(items.last()) {
            assert forall|a: int, b: int|
                0 <= a < b < distinct_strings(items).len() implies distinct_strings(items)[a] != distinct_strings(items)[b] by {
                if b == d.len() {
                    assert(distinct_strings(items)[a] == d[a]);
                }
            }
        }
    }
}

/// An agent's tool configuration, as far as its builtin tool list is read
/// from it: the entries of the `tools` object with their `enabled` field
/// when it is a boolean, the entries of the `enabled` list (`None` for one
/// that is not a string), and, when there is an `assistant_agents` list, each
/// entry's `enabled` field when it is a boolean.
#[derive(Debug, Clone, PartialEq, Eq)]
pub struct ToolConfig {
    pub tools: Vec<(String, Option<bool>)>,
    pub enabled: Vec<Option<String>>,
    pub assistant_agents: Option<Vec<Option<bool>>>,
}

/// Every name the builtin tool list can hold, in byte order.
pub open spec fn all_tool_names() -> Seq<Seq<char>> {
    seq![
        "AgentAsTool"@,
        "AppDocs"@,
        "AppGet"@,
        "AppList"@,
        "AppPrefill"@,
        "AppPropose"@,
        "AppState"@,
        "AskUser"@,
        "Bash"@,
        "DeleteFile"@,
        "Edit"@,
        "ExitPlanMode"@,
        "Fetch"@,
        "GenerateImage"@,
        "GenerateVideo"@,
        "Glob"@,
        "Grep"@,
        "Read"@,
        "SkillManager"@,
        "TodoWrite"@,
        "WebSearch"@,
        "Write"@,
    ]
}

/// Whether the configuration enables the tool `name`: a `tools` entry
/// switched on, or an `enabled` entry, whose id names it; or, for the
/// agent-as-tool tool, an assistant list with an entry not switched off.
pub open spec fn tool_selected(config: ToolConfig, name: Seq<char>) -> bool {
    ||| exists|k: int|
        0 <= k < config.tools@.len() && #[trigger] config.tools@[k].1 == Some(true) && builtin_name(
            config.tools@[k].0@,
        ) == Some(name)
    ||| exists|k: int|
        0 <= k < config.enabled@.len() && (#[trigger] config.enabled@[k] matches Some(id) && builtin_name(id@)
            == Some(name))
    ||| name == "AgentAsTool"@ && (config.assistant_agents matches Some(list) && exists|k: int|
        0 <= k < list@.len() && #[trigger] list@[k] != Some(false))
}

/// The names in `names` the configuration enables, in order.
pub open spec fn selected_names(config: ToolConfig, names: Seq<Seq<char>>) -> Seq<Seq<char>>
    decreases names.len(),
{
    if names.len() == 0 {
        Seq::empty()
    } else if tool_selected(config, names.last()) {
        selected_names(config, names.drop_last()).push(names.last())
    } else {
        selected_names(config, names.drop_last())
    }
}

/// The builtin tools an agent's configuration enables, sorted and each once;
/// an unreadable configuration gives the read-only default set.
pub open spec fn enabled_names(config: Option<ToolConfig>) -> Seq<Seq<char>> {
    match config {
        Some(c) => selected_names(c, all_tool_names()),
        None => seq!["Read"@, "Glob"@, "Grep"@],
    }
}

fn named(candidate: Option<&'static str>, name: &str) -> (r: bool)
    ensures
        r == (candidate matches Some(s) && s@ == name@),
{
    match candidate {
        Some(s) => same_text(s, name),
        None => false,
    }
}

fn selects(config: &ToolConfig, name: &str) -> (r: bool)
    ensures
        r == tool_selected(*config, name@),
{
    let mut i: usize = 0;
    while i < config.tools.len()
        invariant
            i <= config.tools@.len(),
            forall|k: int|
                0 <= k < i ==> !(#[trigger] config.tools@[k].1 == Some(true) && builtin_name(config.tools@[k].0@)
                    == Some(name@)),
        decreases config.tools@.len() - i,
    {
        if config.tools[i].1 == Some(true) && named(builtin_tool_name(config.tools[i].0.as_str()), name) {
            return true;
        }
        i = i + 1;
    }
    let mut j: usize = 0;
    while j < config.enabled.len()
        invariant
            j <= config.enabled@.len(),
            forall|k: int|
                0 <= k < config.tools@.len() ==> !(#[trigger] config.tools@[k].1 == Some(true) && builtin_name(
                    config.tools@[k].0@,
                ) == Some(name@)),
            forall|k: int|
                0 <= k < j ==> !(#[trigger] config.enabled@[k] matches Some(id) && builtin_name(id@) == Some(name@)),
        decreases config.enabled@.len() - j,
    {
        match &config.enabled[j] {
            Some(id) => if named(builtin_tool_name(id.as_str()), name) {
                return true;
            },
            None => {},
        }
        j = j + 1;
    }
    if !same_text(name, "AgentAsTool") {
        return false;
    }
    match &config.assistant_agents {
        Some(list) => {
            let mut k: usize = 0;
            while k < list.len()
                invariant
                    k <= list@.len(),
                    config.assistant_agents == Some(*list),
                    name@ == "AgentAsTool"@,
                    forall|m: int| 0 <= m < k ==> #[trigger] list@[m] == Some(false),
                decreases list@.len() - k,
            {
                if list[k] != Some(false) {
                    assert(list@[k as int] != Some(false));
                    assert(config.assistant_agents == Some(*list));
                    return true;
                }
                k = k + 1;
            }
            false
        },
        None => false,
    }
}

/// The builtin tool names an agent's configuration enables, sorted and each
/// once; `None` (a configuration that could not be read) gives `Read`,
/// `Glob` and `Grep`.
pub fn enabled_tool_names(config: Option<&ToolConfig>) -> (r: Vec<String>)
    ensures
        ids_view(r@) == enabled_names(
            match config {
                Some(c) => Some(*c),
                None => None,
            },
        ),
{
    let c = match config {
        Some(c) => c,
        None => {
            let mut defaults: Vec<String> = Vec::new();
            defaults.push("Read".to_owned());
            defaults.push("Glob".to_owned());
            defaults.push("Grep".to_owned());
            assert(ids_view(defaults@) =~= seq!["Read"@, "Glob"@, "Grep"@]);
            return defaults;
        },
    };
    let names: [&'static str; 22] = [
        "AgentAsTool",
        "AppDocs",
        "AppGet",
        "AppList",
        "AppPrefill",
        "AppPropose",
        "AppState",
        "AskUser",
        "Bash",
        "DeleteFile",
        "Edit",
        "ExitPlanMode",
        "Fetch",
        "GenerateImage",
        "GenerateVideo",
        "Glob",
        "Grep",
        "Read",
        "SkillManager",
        "TodoWrite",
        "WebSearch",
        "Write",
    ];
    let ghost universe = all_tool_names();
    assert(names@.map_values(|s: &'static str| s@) =~= universe);
    let mut out: Vec<String> = Vec::new();
    let mut i: usize = 0;
    while i < 22
        invariant
            i <= 22,
            universe == all_tool_names(),
            names@.map_values(|s: &'static str| s@) == universe,
            ids_view(out@) == selected_names(*c, universe.take(i as int)),
        decreases 22 - i,
    {
        assert(universe.take(i as int + 1).drop_last() =~= universe.take(i as int));
        assert(names@[i as int]@ == universe[i as int]);
        let ghost prev = out@;
        if selects(c, names[i]) {
            out.push(names[i].to_owned());
            assert(ids_view(out@) =~= ids_view(prev).push(universe[i as int]));
        }
        i = i + 1;
    }
    assert(universe.take(22) =~= universe);
    out
}

/// One entry of an agent's `mcp_servers` list: a bare server id, an object
/// with its `enabled` boolean, its `server_id` string and its `tools` list
/// (each entry `None` when not a string), or anything else.
#[derive(Debug, Clone, PartialEq, Eq)]
pub enum McpServerEntry {
    Id(String),
    Object { enabled: Option<bool>, server_id: Option<String>, tools: Option<Vec<Option<String>>> },
    Other,
}

/// One agent's selection of a configured MCP server; an empty tool list
/// means every tool the server has.
#[derive(Debug, Clone, PartialEq, Eq)]
pub struct McpSelection {
    pub server_id: String,
    pub tools: Vec<String>,
}

/// The string entries of a list, in order.
pub open spec fn strings_of(tools: Seq<Option<String>>) -> Seq<Seq<char>>
    decreases tools.len(),
{
    if tools.len() == 0 {
        Seq::empty()
    } else {
        match tools.last() {
            Some(t) => strings_of(tools.drop_last()).push(t@),
            None => strings_of(tools.drop_last()),
        }
    }
}

/// The selection one entry makes, if any: a bare id selects all of that
/// server's tools; an object not switched off selects its trimmed, nonempty
/// server id with the named tools.
pub open spec fn entry_selection(e: McpServerEntry) -> Option<(Seq<char>, Seq<Seq<char>>)> {
    match e {
        McpServerEntry::Id(id) => Some((id@, Seq::empty())),
        McpServerEntry::Object { enabled, server_id, tools } => if enabled == Some(false) {
            None
        } else {
            match server_id {
                Some(id) => if trim_spec(id@).len() == 0 {
                    None
                } else {
                    Some(
                        (
                            trim_spec(id@),
                            match tools {
                                Some(list) => strings_of(list@),
                                None => Seq::empty(),
                            },
                        ),
                    )
                },
                None => None,
            }
        },
        McpServerEntry::Other => None,
    }
}

/// The selections of the entries, in order, the first selection of a server
/// winning over later ones.
pub open spec fn selections_of(entries: Seq<McpServerEntry>) -> Seq<(Seq<char>, Seq<Seq<char>>)>
    decreases entries.len(),
{
    if entries.len() == 0 {
        Seq::empty()
    } else {
        let before = selections_of(entries.drop_last());
        match entry_selection(entries.last()) {
            Some(sel) => if exists|k: int| 0 <= k < before.len() && #[trigger] before[k].0 == sel.0 {
                before
            } else {
                before.push(sel)
            },
            None => before,
        }
    }
}

/// A selection, as the contracts see it.
pub open spec fn selection_view(s: McpSelection) -> (Seq<char>, Seq<Seq<char>>) {
    (s.server_id@, ids_view(s.tools@))
}

/// Selections, as the contracts see them.
pub open spec fn selections_view(v: Seq<McpSelection>) -> Seq<(Seq<char>, Seq<Seq<char>>)> {
    v.map_values(|s: McpSelection| selection_view(s))
}

fn string_entries(tools: &Option<Vec<Option<String>>>) -> (r: Vec<String>)
    ensures
        ids_view(r@) == (match tools {
            Some(list) => strings_of(list@),
            None => Seq::empty(),
        }),
{
    let mut out: Vec<String> = Vec::new();
    match tools {
        Some(list) => {
            let mut i: usize = 0;
            while i < list.len()
                invariant
                    i <= list@.len(),
                    ids_view(out@) == strings_of(list@.take(i as int)),
                decreases list@.len() - i,
            {
                assert(list@.take(i as int + 1).drop_last() =~= list@.take(i as int));
                let ghost prev = out@;
                match &list[i] {
                    Some(t) => {
                        out.push(t.as_str().to_owned());
                        assert(ids_view(out@) =~= ids_view(prev).push(t@));
                    },
                    None => {},
                }
                i = i + 1;
            }
            assert(list@.take(i as int) =~= list@);
        },
        None => {},
    }
    out
}

fn selected_server(out: &Vec<McpSelection>, id: &str) -> (r: bool)
    ensures
        r == (exists|k: int|
            0 <= k < out@.len() && #[trigger] selections_view(out@)[k].0 == id@),
{
    let ghost view = selections_view(out@);
    let mut i: usize = 0;
    while i < out.len()
        invariant
            i <= out@.len(),
            view == selections_view(out@),
            forall|k: int| 0 <= k < i ==> view[k].0 != id@,
        decreases out@.len() - i,
    {
        if same_text(out[i].server_id.as_str(), id) {
            assert(view[i as int].0 == id@);
            return true;
        }
        i = i + 1;
    }
    false
}

/// The MCP servers an agent's configuration selects, each once, in order;
/// `None` (no readable `mcp_servers` list) selects none.
pub fn enabled_mcp_selections(entries: Option<&Vec<McpServerEntry>>) -> (r: Vec<McpSelection>)
    ensures
        selections_view(r@) == (match entries {
            Some(es) => selections_of(es@),
            None => Seq::empty(),
        }),
{
    let es = match entries {
        Some(es) => es,
        None => {
            let none: Vec<McpSelection> = Vec::new();
            assert(selections_view(none@) =~= Seq::<(Seq<char>, Seq<Seq<char>>)>::empty());
            return none;
        },
    };
    let mut out: Vec<McpSelection> = Vec::new();
    let mut i: usize = 0;
    assert(selections_view(out@) =~= selections_of(es@.take(0)));
    while i < es.len()
        invariant
            i <= es@.len(),
            selections_view(out@) == selections_of(es@.take(i as int)),
        decreases es@.len() - i,
    {
        assert(es@.take(i as int + 1).drop_last() =~= es@.take(i as int));
        assert(es@.take(i as int + 1).last() == es@[i as int]);
        let ghost prev = out@;
        let candidate: Option<McpSelection> = match &es[i] {
            McpServerEntry::Id(id) => {
                let none: Vec<String> = Vec::new();
                assert(ids_view(none@) =~= Seq::<Seq<char>>::empty());
                Some(McpSelection { server_id: id.as_str().to_owned(), tools: none })
            },
            McpServerEntry::Object { enabled, server_id, tools } => {
                if *enabled == Some(false) {
                    None
                } else {
                    match server_id {
                        Some(id) => {
                            let v = chars_of(id.as_str());
                            let t = trim_chars(v.as_slice());
                            if t.len() == 0 {
                                None
                            } else {
                                Some(McpSelection { server_id: string_from_chars(t.as_slice()), tools: string_entries(tools) })
                            }
                        },
                        None => None,
                    }
                }
            },
            McpServerEntry::Other => None,
        };
        match candidate {
            Some(sel) => {
                if !selected_server(&out, sel.server_id.as_str()) {
                    let ghost sv = selection_view(sel);
                    out.push(sel);
                    assert(selections_view(out@) =~= selections_view(prev).push(sv));
                }
            },
            None => {},
        }
        i = i + 1;
    }
    assert(es@.take(i as int) =~= es@);
    out
}

/// The bindings one server's listing leaves for an agent: all of them when
/// the agent selected no tool names, else those it named.
pub open spec fn narrowed(bindings: Seq<McpToolBinding>, allowed: Seq<String>) -> Seq<McpToolBinding>
    decreases bindings.len(),
{
    if bindings.len() == 0 {
        Seq::empty()
    } else if allowed.len() == 0 || ids_view(allowed).contains(bindings.last().tool_name@) {
        narrowed(bindings.drop_last(), allowed).push(bindings.last())
    } else {
        narrowed(bindings.drop_last(), allowed)
    }
}

/// Narrow a server's tools to an agent's selection, keeping their order.
pub fn narrow_bindings(bindings: Vec<McpToolBinding>, allowed: &Vec<String>) -> (r: Vec<McpToolBinding>)
    ensures
        r@ == narrowed(bindings@, allowed@),
{
    let ghost all = bindings@;
    let mut source = bindings;
    let mut kept: Vec<McpToolBinding> = Vec::new();
    let mut rest: Vec<McpToolBinding> = Vec::new();
    let n = source.len();
    let mut i: usize = 0;
    while i < n
        invariant
            n == all.len(),
            i <= n,
            source@ == all.take(n - i as int),
            rest@ == all.skip(n - i as int).reverse(),
        decreases n - i,
    {
        let b = source.pop().unwrap();
        assert(all.take(n - i as int).drop_last() =~= all.take(n - i - 1));
        assert(all.skip(n - i - 1) =~= seq![b] + all.skip(n - i as int));
        rest.push(b);
        assert(rest@ =~= all.skip(n - i - 1).reverse());
        i = i + 1;
    }
    let mut j: usize = 0;
    while j < n
        invariant
            n == all.len(),
            j <= n,
            rest@ == all.skip(j as int).reverse(),
            kept@ == narrowed(all.take(j as int), allowed@),
        decreases n - j,
    {
        let b = rest.pop().unwrap();
        assert(all.skip(j as int).reverse().last() == all[j as int]);
        assert(all.skip(j as int + 1).reverse() =~= all.skip(j as int).reverse().drop_last());
        assert(all.take(j as int + 1).drop_last() =~= all.take(j as int));
        if allowed.len() == 0 || listed(allowed, b.tool_name.as_str()) {
            kept.push(b);
        }
        j = j + 1;
    }
    assert(all.take(n as int) =~= all);
    kept
}

} // verus!
