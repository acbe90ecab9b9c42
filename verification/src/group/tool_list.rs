use vstd::prelude::*;

use crate::agent_tool::{AssistantMember, AssistantRoster, AGENT_AS_TOOL_NAME};
use crate::compaction::tokens::ToolDefinition;
use crate::group::schemas::{
    agent_as_tool_definition, agent_tool_spec, defined, definition_view, definitions_spec, shell_spec, tool_definition,
    tool_definitions_for,
};
use crate::group::tools::{mcp_description, mcp_tool_definition, McpToolBinding};
use crate::text::{chars_of, same_text};

verus! {

/// Whether `a` comes no later than `b` in the order `String::cmp` gives:
/// character by character, a prefix first.
pub open spec fn text_le(a: Seq<char>, b: Seq<char>) -> bool
    decreases a.len(),
{
    if a.len() == 0 {
        true
    } else if b.len() == 0 {
        false
    } else if a[0] != b[0] {
        a[0] < b[0]
    } else {
        text_le(a.drop_first(), b.drop_first())
    }
}

/// Any two texts are ordered one way or the other.
pub proof fn lemma_text_le_total(a: Seq<char>, b: Seq<char>)
    ensures
        text_le(a, b) || text_le(b, a),
    decreases a.len(),
{
    if a.len() > 0 && b.len() > 0 && a[0] == b[0] {
        lemma_text_le_total(a.drop_first(), b.drop_first());
    }
}

/// The order is transitive.
pub proof fn lemma_text_le_transitive(a: Seq<char>, b: Seq<char>, c: Seq<char>)
    requires
        text_le(a, b),
        text_le(b, c),
    ensures
        text_le(a, c),
    decreases a.len(),
{
    if a.len() > 0 && b.len() > 0 && c.len() > 0 && a[0] == b[0] && b[0] == c[0] {
        lemma_text_le_transitive(a.drop_first(), b.drop_first(), c.drop_first());
    }
}

/// `x` placed into the name-ordered `sorted` after every definition whose
/// name does not come after its own.
pub open spec fn insert_by_name(
    sorted: Seq<(Seq<char>, Seq<char>, Seq<char>)>,
    x: (Seq<char>, Seq<char>, Seq<char>),
) -> Seq<(Seq<char>, Seq<char>, Seq<char>)>
    decreases sorted.len(),
{
    if sorted.len() == 0 {
        seq![x]
    } else if text_le(sorted.last().0, x.0) {
        sorted.push(x)
    } else {
        insert_by_name(sorted.drop_last(), x).push(sorted.last())
    }
}

/// Definitions ordered by name, those of equal name in their given order.
pub open spec fn sort_by_name(s: Seq<(Seq<char>, Seq<char>, Seq<char>)>) -> Seq<(Seq<char>, Seq<char>, Seq<char>)>
    decreases s.len(),
{
    if s.len() == 0 {
        s
    } else {
        insert_by_name(sort_by_name(s.drop_last()), s.last())
    }
}

/// Whether definitions are ordered by name.
pub open spec fn names_sorted(s: Seq<(Seq<char>, Seq<char>, Seq<char>)>) -> bool {
    forall|i: int, j: int| 0 <= i < j < s.len() ==> text_le(#[trigger] s[i].0, #[trigger] s[j].0)
}

proof fn lemma_insert_by_name(sorted: Seq<(Seq<char>, Seq<char>, Seq<char>)>, x: (Seq<char>, Seq<char>, Seq<char>))
    requires
        names_sorted(sorted),
    ensures
        names_sorted(insert_by_name(sorted, x)),
        insert_by_name(sorted, x).to_multiset() == sorted.to_multiset().insert(x),
        insert_by_name(sorted, x).len() == sorted.len() + 1,
        forall|k: int| 0 <= k < insert_by_name(sorted, x).len() ==> #[trigger] insert_by_name(sorted, x)[k] == x
            || sorted.contains(insert_by_name(sorted, x)[k]),
    decreases sorted.len(),
{
    broadcast use vstd::seq_lib::group_to_multiset_ensures;

    let r = insert_by_name(sorted, x);
    if sorted.len() == 0 {
        assert(r =~= seq![x]);
        assert(seq![x] =~= Seq::<(Seq<char>, Seq<char>, Seq<char>)>::empty().push(x));
    } else if text_le(sorted.last().0, x.0) {
        assert forall|i: int, j: int| 0 <= i < j < r.len() implies text_le(#[trigger] r[i].0, #[trigger] r[j].0) by {
            if j == r.len() - 1 && i < sorted.len() - 1 {
                lemma_text_le_transitive(r[i].0, sorted.last().0, x.0);
            }
        }
        assert forall|k: int| 0 <= k < r.len() implies #[trigger] r[k] == x || sorted.contains(r[k]) by {
            if k < sorted.len() {
                assert(sorted[k] == r[k]);
            }
        }
    } else {
        let init = sorted.drop_last();
        let last = sorted.last();
        assert(names_sorted(init));
        lemma_insert_by_name(init, x);
        let inner = insert_by_name(init, x);
        lemma_text_le_total(last.0, x.0);
        assert(text_le(x.0, last.0));
        assert forall|i: int, j: int| 0 <= i < j < r.len() implies text_le(#[trigger] r[i].0, #[trigger] r[j].0) by {
            if j == r.len() - 1 {
                assert(r[j] == last);
                assert(r[i] == inner[i]);
                if inner[i] != x {
                    assert(init.contains(inner[i]));
                    let w = choose|w: int| 0 <= w < init.len() && init[w] == inner[i];
                    assert(sorted[w] == init[w]);
                    assert(text_le(sorted[w].0, sorted[sorted.len() - 1].0));
                }
            }
        }
        assert(sorted =~= init.push(last));
        assert forall|k: int| 0 <= k < r.len() implies #[trigger] r[k] == x || sorted.contains(r[k]) by {
            if k < r.len() - 1 {
                assert(r[k] == inner[k]);
                if inner[k] != x {
                    let w = choose|w: int| 0 <= w < init.len() && init[w] == inner[k];
                    assert(sorted[w] == init[w]);
                }
            } else {
                assert(sorted[sorted.len() - 1] == last);
            }
        }
    }
}

/// Ordering definitions by name keeps every definition and puts them in
/// order: the list a provider sees is the same whatever order the tools
/// were gathered in.
pub proof fn lemma_sorted_by_name(s: Seq<(Seq<char>, Seq<char>, Seq<char>)>)
    ensures
        names_sorted(sort_by_name(s)),
        sort_by_name(s).to_multiset() == s.to_multiset(),
    decreases s.len(),
{
    broadcast use vstd::seq_lib::group_to_multiset_ensures;

    if s.len() > 0 {
        lemma_sorted_by_name(s.drop_last());
        lemma_insert_by_name(sort_by_name(s.drop_last()), s.last());
        assert(s =~= s.drop_last().push(s.last()));
    }
}

/// Whether `a` comes no later than `b` by name.
pub fn name_le(a: &str, b: &str) -> (r: bool)
    ensures
        r == text_le(a@, b@),
{
    let x = chars_of(a);
    let y = chars_of(b);
    let mut i: usize = 0;
    assert(x@.skip(0) =~= x@);
    assert(y@.skip(0) =~= y@);
    while i < x.len() && i < y.len() && x[i] == y[i]
        invariant
            i <= x@.len(),
            i <= y@.len(),
            x@ == a@,
            y@ == b@,
            text_le(a@, b@) == text_le(x@.skip(i as int), y@.skip(i as int)),
        decreases x@.len() - i,
    {
        assert(x@.skip(i as int).drop_first() =~= x@.skip(i as int + 1));
        assert(y@.skip(i as int).drop_first() =~= y@.skip(i as int + 1));
        i = i + 1;
    }
    if i == x.len() {
        return true;
    }
    if i == y.len() {
        return false;
    }
    x[i] < y[i]
}

/// Definitions as the contracts see them.
pub open spec fn definition_views(v: Seq<ToolDefinition>) -> Seq<(Seq<char>, Seq<char>, Seq<char>)> {
    v.map_values(|d: ToolDefinition| definition_view(d))
}

fn insert_definition(sorted: &mut Vec<ToolDefinition>, x: ToolDefinition)
    ensures
        definition_views(final(sorted)@) == insert_by_name(definition_views(old(sorted)@), definition_view(x)),
{
    let ghost s = definition_views(sorted@);
    let ghost n = sorted@.len();
    let mut moved: Vec<ToolDefinition> = Vec::new();
    let mut stop = false;
    assert(s.take(n as int) =~= s);
    assert(s.skip(n as int) =~= Seq::<(Seq<char>, Seq<char>, Seq<char>)>::empty());
    assert(insert_by_name(s, definition_view(x)) + s.skip(n as int) =~= insert_by_name(s, definition_view(x)));
    while !stop && sorted.len() > 0
        invariant
            s == definition_views(old(sorted)@),
            n == old(sorted)@.len(),
            sorted@.len() + moved@.len() == n,
            definition_views(sorted@) == s.take(sorted@.len() as int),
            forall|k: int| 0 <= k < moved@.len() ==> #[trigger] definition_view(moved@[k]) == s[n - 1 - k],
            insert_by_name(s, definition_view(x)) == insert_by_name(s.take(sorted@.len() as int), definition_view(x))
                + s.skip(sorted@.len() as int),
            stop ==> sorted@.len() > 0 && text_le(s[sorted@.len() - 1].0, x.name@),
        decreases sorted@.len() + (if stop { 0int } else { 1int }),
    {
        let j = sorted.len();
        if name_le(sorted[j - 1].name.as_str(), x.name.as_str()) {
            stop = true;
        } else {
            let ghost prefix = s.take(j as int);
            assert(prefix.drop_last() =~= s.take(j - 1));
            assert(prefix.last() == s[j - 1]);
            assert(s.skip(j - 1) =~= seq![s[j - 1]] + s.skip(j as int));
            assert(insert_by_name(prefix, definition_view(x)) == insert_by_name(s.take(j - 1), definition_view(x)).push(
                s[j - 1],
            ));
            assert(insert_by_name(s.take(j - 1), definition_view(x)).push(s[j - 1]) + s.skip(j as int)
                =~= insert_by_name(s.take(j - 1), definition_view(x)) + s.skip(j - 1));
            let last = sorted.pop().unwrap();
            moved.push(last);
            assert(definition_views(sorted@) =~= s.take(sorted@.len() as int));
        }
    }
    let j = sorted.len();
    proof {
        if j == 0 {
            assert(s.take(0) =~= Seq::<(Seq<char>, Seq<char>, Seq<char>)>::empty());
        } else {
            assert(s.take(j as int).last() == s[j - 1]);
        }
    }
    let ghost base = definition_views(sorted@).push(definition_view(x));
    assert(base == insert_by_name(s.take(j as int), definition_view(x)));
    sorted.push(x);
    assert(definition_views(sorted@) =~= base);
    while moved.len() > 0
        invariant
            n == old(sorted)@.len(),
            s.len() == n,
            j + moved@.len() <= n,
            sorted@.len() + moved@.len() == n + 1,
            forall|k: int| 0 <= k < moved@.len() ==> #[trigger] definition_view(moved@[k]) == s[n - 1 - k],
            definition_views(sorted@) == base + s.subrange(j as int, n - moved@.len()),
            insert_by_name(s, definition_view(x)) == base + s.skip(j as int),
        decreases moved@.len(),
    {
        let m = moved.len();
        let item = moved.pop().unwrap();
        assert(definition_view(item) == s[n - m]);
        let ghost before = definition_views(sorted@);
        sorted.push(item);
        assert(definition_views(sorted@) =~= before.push(definition_view(item)));
        assert(s.subrange(j as int, n - m + 1) =~= s.subrange(j as int, n - m).push(s[n - m]));
    }
    assert(s.subrange(j as int, n as int) =~= s.skip(j as int));
}

fn copy_definition(d: &ToolDefinition) -> (r: ToolDefinition)
    ensures
        definition_view(r) == definition_view(*d),
{
    ToolDefinition { name: d.name.clone(), description: d.description.clone(), input_schema: d.input_schema.clone() }
}

/// Order definitions by name, keeping the given order among equal names.
pub fn sort_definitions(defs: &Vec<ToolDefinition>) -> (r: Vec<ToolDefinition>)
    ensures
        definition_views(r@) == sort_by_name(definition_views(defs@)),
{
    let ghost all = definition_views(defs@);
    let mut out: Vec<ToolDefinition> = Vec::new();
    let mut i: usize = 0;
    while i < defs.len()
        invariant
            i <= defs@.len(),
            all == definition_views(defs@),
            definition_views(out@) == sort_by_name(all.take(i as int)),
        decreases defs@.len() - i,
    {
        assert(all.take(i as int + 1).drop_last() =~= all.take(i as int));
        assert(all.take(i as int + 1).last() == definition_view(defs@[i as int]));
        insert_definition(&mut out, copy_definition(&defs[i]));
        i = i + 1;
    }
    assert(all.take(i as int) =~= all);
    out
}

/// The definitions of the enabled tools other than the dispatch tool, each
/// tool in turn (the shell brings its job tools).
pub open spec fn enabled_definitions(
    enabled: Seq<Seq<char>>,
    shell: (Seq<char>, Seq<char>, Seq<char>),
) -> Seq<(Seq<char>, Seq<char>, Seq<char>)>
    decreases enabled.len(),
{
    if enabled.len() == 0 {
        Seq::empty()
    } else {
        enabled_definitions(enabled.drop_last(), shell) + if enabled.last() == AGENT_AS_TOOL_NAME@ {
            Seq::empty()
        } else {
            definitions_spec(enabled.last(), shell)
        }
    }
}

/// The MCP tools as definitions.
pub open spec fn mcp_definitions(bindings: Seq<McpToolBinding>) -> Seq<(Seq<char>, Seq<char>, Seq<char>)> {
    bindings.map_values(|b: McpToolBinding| (b.exposed_name@, mcp_description(b), b.input_schema@))
}

/// Every tool a turn offers, as gathered: the enabled tools, the dispatch
/// tool when it is enabled and some assistant is reachable, the MCP tools,
/// and the group-note tools when the group keeps notes.
pub open spec fn gathered_tools(
    enabled: Seq<Seq<char>>,
    shell: (Seq<char>, Seq<char>, Seq<char>),
    dispatchable: Seq<AssistantMember>,
    bindings: Seq<McpToolBinding>,
    has_group_notes: bool,
) -> Seq<(Seq<char>, Seq<char>, Seq<char>)> {
    enabled_definitions(enabled, shell) + (if enabled.contains(AGENT_AS_TOOL_NAME@) && dispatchable.len() > 0 {
        seq![agent_tool_spec(dispatchable)]
    } else {
        Seq::empty()
    }) + mcp_definitions(bindings) + if has_group_notes {
        defined("ReadGroupNotes"@) + defined("EditGroupNote"@)
    } else {
        Seq::empty()
    }
}

/// The warning that the dispatch tool is offered to nobody: assistants are
/// bound, but none of them is an active member of the group.
pub open spec fn unreachable_assistants_warning(display_name: Seq<char>) -> Seq<char> {
    "@"@ + display_name
        + " has assistant agents bound for delegation, but none of them are active members of this group, so AgentAsTool is unavailable this turn."@
}

/// Texts as the contracts see them.
pub open spec fn texts_of(v: Seq<String>) -> Seq<Seq<char>> {
    v.map_values(|s: String| s@)
}

fn lists(names: &[String], name: &str) -> (r: bool)
    ensures
        r == texts_of(names@).contains(name@),
{
    let mut i: usize = 0;
    while i < names.len()
        invariant
            i <= names@.len(),
            forall|k: int| 0 <= k < i ==> names@[k]@ != name@,
        decreases names@.len() - i,
    {
        if same_text(names[i].as_str(), name) {
            assert(texts_of(names@)[i as int] == name@);
            return true;
        }
        i = i + 1;
    }
    proof {
        if texts_of(names@).contains(name@) {
            let k = choose|k: int| 0 <= k < texts_of(names@).len() && texts_of(names@)[k] == name@;
            assert(texts_of(names@)[k] == names@[k]@);
        }
    }
    false
}

fn append_definitions(out: &mut Vec<ToolDefinition>, more: Vec<ToolDefinition>)
    ensures
        definition_views(final(out)@) == definition_views(old(out)@) + definition_views(more@),
{
    let mut more = more;
    let ghost added = more@;
    out.append(&mut more);
    assert(definition_views(out@) =~= definition_views(old(out)@) + definition_views(added));
}

/// The tools a turn offers the provider, ordered by name so that the list
/// stays the same from turn to turn, and the warnings the turn shows: the
/// enabled tools (the shell under its dialect's tool name, guidance and
/// label), the dispatch tool naming the reachable assistants, the MCP
/// tools, and the group-note tools when the group keeps notes.
pub fn invocation_tools(
    enabled: &[String],
    shell_tool_name: &str,
    guidance: &str,
    label: &str,
    roster: &AssistantRoster,
    agent_display_name: &str,
    bindings: &[McpToolBinding],
    has_group_notes: bool,
) -> (r: (Vec<ToolDefinition>, Vec<String>))
    ensures
        definition_views(r.0@) == sort_by_name(
            gathered_tools(
                texts_of(enabled@),
                shell_spec(shell_tool_name@, guidance@, label@),
                roster.dispatchable@,
                bindings@,
                has_group_notes,
            ),
        ),
        texts_of(r.1@) == if texts_of(enabled@).contains(AGENT_AS_TOOL_NAME@) && roster.dispatchable@.len() == 0
            && roster.bound > 0 {
            seq![unreachable_assistants_warning(agent_display_name@)]
        } else {
            Seq::<Seq<char>>::empty()
        },
{
    let ghost names = texts_of(enabled@);
    let ghost shell = shell_spec(shell_tool_name@, guidance@, label@);
    let mut tools: Vec<ToolDefinition> = Vec::new();
    let mut i: usize = 0;
    while i < enabled.len()
        invariant
            i <= enabled@.len(),
            names == texts_of(enabled@),
            shell == shell_spec(shell_tool_name@, guidance@, label@),
            definition_views(tools@) == enabled_definitions(names.take(i as int), shell),
        decreases enabled@.len() - i,
    {
        assert(names.take(i as int + 1).drop_last() =~= names.take(i as int));
        assert(names.take(i as int + 1).last() == enabled@[i as int]@);
        if !same_text(enabled[i].as_str(), AGENT_AS_TOOL_NAME) {
            let defs = tool_definitions_for(enabled[i].as_str(), shell_tool_name, guidance, label);
            assert(definition_views(defs@) == definitions_spec(enabled@[i as int]@, shell));
            append_definitions(&mut tools, defs);
        } else {
            assert(definition_views(tools@) =~= definition_views(tools@) + Seq::empty());
        }
        i = i + 1;
    }
    assert(names.take(i as int) =~= names);
    let ghost first = definition_views(tools@);
    let mut warnings: Vec<String> = Vec::new();
    if lists(enabled, AGENT_AS_TOOL_NAME) {
        if roster.dispatchable.len() == 0 {
            if roster.bound > 0 {
                let mut warning = "@".to_owned();
                warning.append(agent_display_name);
                warning.append(
                    " has assistant agents bound for delegation, but none of them are active members of this group, so AgentAsTool is unavailable this turn.",
                );
                warnings.push(warning);
            }
        } else {
            tools.push(agent_as_tool_definition(roster.dispatchable.as_slice()));
        }
    }
    let ghost second = definition_views(tools@);
    assert(second =~= first + (if names.contains(AGENT_AS_TOOL_NAME@) && roster.dispatchable@.len() > 0 {
        seq![agent_tool_spec(roster.dispatchable@)]
    } else {
        Seq::empty()
    }));
    assert(texts_of(warnings@) =~= if names.contains(AGENT_AS_TOOL_NAME@) && roster.dispatchable@.len() == 0
        && roster.bound > 0 {
        seq![unreachable_assistants_warning(agent_display_name@)]
    } else {
        Seq::<Seq<char>>::empty()
    });
    let mut b: usize = 0;
    while b < bindings.len()
        invariant
            b <= bindings@.len(),
            definition_views(tools@) == second + mcp_definitions(bindings@.take(b as int)),
        decreases bindings@.len() - b,
    {
        let ghost before = definition_views(tools@);
        tools.push(mcp_tool_definition(&bindings[b]));
        assert(mcp_definitions(bindings@.take(b as int + 1)) =~= mcp_definitions(bindings@.take(b as int)).push(
            (bindings@[b as int].exposed_name@, mcp_description(bindings@[b as int]), bindings@[b as int].input_schema@),
        ));
        assert(definition_views(tools@) =~= before.push(definition_view(tools@.last())));
        b = b + 1;
    }
    assert(bindings@.take(b as int) =~= bindings@);
    let ghost third = definition_views(tools@);
    if has_group_notes {
        let ghost before = definition_views(tools@);
        match tool_definition("ReadGroupNotes") {
            Some(d) => tools.push(d),
            None => {},
        }
        assert(definition_views(tools@) =~= before + defined("ReadGroupNotes"@));
        let ghost mid = definition_views(tools@);
        match tool_definition("EditGroupNote") {
            Some(d) => tools.push(d),
            None => {},
        }
        assert(definition_views(tools@) =~= mid + defined("EditGroupNote"@));
    }
    assert(definition_views(tools@) =~= gathered_tools(names, shell, roster.dispatchable@, bindings@, has_group_notes));
    (sort_definitions(&tools), warnings)
}

/// Which settings a turn has to load for its enabled tools: the web search
/// settings when `WebSearch` is enabled, the media generation settings
/// when image or video generation is.
pub fn settings_needed(enabled: &[String]) -> (r: (bool, bool))
    ensures
        r.0 == texts_of(enabled@).contains("WebSearch"@),
        r.1 == (texts_of(enabled@).contains("GenerateImage"@) || texts_of(enabled@).contains("GenerateVideo"@)),
{
    (lists(enabled, "WebSearch"), lists(enabled, "GenerateImage") || lists(enabled, "GenerateVideo"))
}

} // verus!
