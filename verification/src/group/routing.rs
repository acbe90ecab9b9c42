use vstd::prelude::*;

use crate::text::{chars_of, lowercase, same_text, to_lowercase};
use crate::scheduler::topology::{
    TopologyError, TopologySnapshot, all_distinct, allows_agent_edge, contains_id, edge_allowed, has_empty, member,
    topology_error_text, topology_validity, uniqueness, validate_topology,
};
use crate::scheduler::moderator::{ModeratorCandidate, ModeratorMessage, opt_view};
use crate::scheduler::mentions::{is_name_char, name_char};
use crate::scheduler::state::{TurnStatus, is_terminal_turn, turn_is_terminal};

verus! {

/// The ids of `list`, as the contracts see them.
pub open spec fn ids_view(list: Seq<String>) -> Seq<Seq<char>> {
    list.map_values(|s: String| s@)
}

/// The ids of `ids` the topology lets `source` address, in order.
pub open spec fn reachable_from(topology: TopologySnapshot, source: Seq<char>, ids: Seq<String>) -> Seq<Seq<char>>
    decreases ids.len(),
{
    if ids.len() == 0 {
        Seq::empty()
    } else if edge_allowed(topology, source, ids.last()@) {
        reachable_from(topology, source, ids.drop_last()).push(ids.last()@)
    } else {
        reachable_from(topology, source, ids.drop_last())
    }
}

/// The ids of `ids` that are also in `group`, in order.
pub open spec fn members_of(group: Seq<String>, ids: Seq<String>) -> Seq<Seq<char>>
    decreases ids.len(),
{
    if ids.len() == 0 {
        Seq::empty()
    } else if member(group, ids.last()@) {
        members_of(group, ids.drop_last()).push(ids.last()@)
    } else {
        members_of(group, ids.drop_last())
    }
}

/// The first id of `ordered` from `i` on that is one of `ids`.
pub open spec fn first_member(ordered: Seq<String>, ids: Seq<String>, i: int) -> Option<Seq<char>>
    decreases ordered.len() - i,
{
    if i < 0 || i >= ordered.len() {
        None
    } else if member(ids, ordered[i]@) {
        Some(ordered[i]@)
    } else {
        first_member(ordered, ids, i + 1)
    }
}

/// Who may speak next. After a speaker, everyone in a mesh, otherwise those
/// the topology lets the speaker address. At the start of a turn: everyone in
/// a mesh; the hub of a star when it is available (everyone otherwise); the
/// available leaders of a hierarchy (everyone when none is); the first
/// available agent of a ring.
pub open spec fn frontier(topology: TopologySnapshot, ids: Seq<String>, previous: Option<Seq<char>>) -> Seq<Seq<char>> {
    match previous {
        Some(source) => match topology {
            TopologySnapshot::Mesh { .. } => ids_view(ids),
            _ => reachable_from(topology, source, ids),
        },
        None => match topology {
            TopologySnapshot::Mesh { .. } => ids_view(ids),
            TopologySnapshot::Star { hub, .. } => if member(ids, hub@) {
                seq![hub@]
            } else {
                ids_view(ids)
            },
            TopologySnapshot::Hierarchical { leaders, .. } => if members_of(leaders@, ids).len() == 0 {
                ids_view(ids)
            } else {
                members_of(leaders@, ids)
            },
            TopologySnapshot::Ring { ordered } => match first_member(ordered@, ids, 0) {
                Some(id) => seq![id],
                None => Seq::empty(),
            },
        },
    }
}

fn copy_ids(ids: &[String]) -> (r: Vec<String>)
    ensures
        ids_view(r@) == ids_view(ids@),
{
    let mut out: Vec<String> = Vec::new();
    let mut i: usize = 0;
    while i < ids.len()
        invariant
            i <= ids@.len(),
            ids_view(out@) == ids_view(ids@.take(i as int)),
        decreases ids@.len() - i,
    {
        let ghost prev = out@;
        out.push(ids[i].as_str().to_owned());
        assert(ids_view(out@) =~= ids_view(prev).push(ids@[i as int]@));
        assert(ids_view(ids@.take(i as int + 1)) =~= ids_view(ids@.take(i as int)).push(ids@[i as int]@));
        i = i + 1;
    }
    assert(ids@.take(i as int) =~= ids@);
    out
}

fn reachable_ids(topology: &TopologySnapshot, source: &str, candidate_ids: &[String]) -> (r: Vec<String>)
    ensures
        ids_view(r@) == reachable_from(*topology, source@, candidate_ids@),
{
    let mut out: Vec<String> = Vec::new();
    let mut i: usize = 0;
    while i < candidate_ids.len()
        invariant
            i <= candidate_ids@.len(),
            ids_view(out@) == reachable_from(*topology, source@, candidate_ids@.take(i as int)),
        decreases candidate_ids@.len() - i,
    {
        assert(candidate_ids@.take(i as int + 1).drop_last() =~= candidate_ids@.take(i as int));
        let ghost prev = out@;
        if allows_agent_edge(topology, source, candidate_ids[i].as_str()) {
            out.push(candidate_ids[i].as_str().to_owned());
            assert(ids_view(out@) =~= ids_view(prev).push(candidate_ids@[i as int]@));
        }
        i = i + 1;
    }
    assert(candidate_ids@.take(i as int) =~= candidate_ids@);
    out
}

proof fn lemma_reachable_from(topology: TopologySnapshot, source: Seq<char>, ids: Seq<String>)
    ensures
        forall|k: int|
            0 <= k < reachable_from(topology, source, ids).len() ==> edge_allowed(
                topology,
                source,
                #[trigger] reachable_from(topology, source, ids)[k],
            ),
    decreases ids.len(),
{
    if ids.len() > 0 {
        lemma_reachable_from(topology, source, ids.drop_last());
        let rest = reachable_from(topology, source, ids.drop_last());
        assert forall|k: int|
            0 <= k < reachable_from(topology, source, ids).len() implies edge_allowed(
            topology,
            source,
            #[trigger] reachable_from(topology, source, ids)[k],
        ) by {
            if k < rest.len() {
                if edge_allowed(topology, source, ids.last()@) {
                    assert(reachable_from(topology, source, ids)[k] == rest[k]);
                }
            }
        }
    }
}

/// Outside a mesh, everyone offered to speak after a speaker is someone the
/// topology lets that speaker address.
pub proof fn lemma_frontier_after_a_speaker_is_reachable(topology: TopologySnapshot, ids: Seq<String>, source: Seq<char>)
    requires
        !(topology is Mesh),
    ensures
        forall|k: int|
            0 <= k < frontier(topology, ids, Some(source)).len() ==> edge_allowed(
                topology,
                source,
                #[trigger] frontier(topology, ids, Some(source))[k],
            ),
{
    lemma_reachable_from(topology, source, ids);
}

/// Two lists with the same ids hold the same members.
pub proof fn lemma_member_same_view(a: Seq<String>, b: Seq<String>, id: Seq<char>)
    requires
        ids_view(a) == ids_view(b),
    ensures
        member(a, id) == member(b, id),
{
    assert(ids_view(a).len() == a.len());
    assert(ids_view(b).len() == b.len());
    if member(a, id) {
        let k = choose|k: int| 0 <= k < a.len() && a[k]@ == id;
        assert(ids_view(a)[k] == a[k]@);
        assert(ids_view(b)[k] == b[k]@);
    }
    if member(b, id) {
        let k = choose|k: int| 0 <= k < b.len() && b[k]@ == id;
        assert(ids_view(a)[k] == a[k]@);
        assert(ids_view(b)[k] == b[k]@);
    }
}

/// An optional text, as the contracts see it.
pub open spec fn str_view(s: Option<&str>) -> Option<Seq<char>> {
    match s {
        Some(t) => Some(t@),
        None => None,
    }
}

/// Who may speak next under `topology`, among `candidate_ids`, after
/// `previous_speaker` (or at the start of a turn).
pub fn topology_frontier(topology: &TopologySnapshot, candidate_ids: &[String], previous_speaker: Option<&str>) -> (r:
    Vec<String>)
    ensures
        ids_view(r@) == frontier(*topology, candidate_ids@, str_view(previous_speaker)),
{
    let ids = copy_ids(candidate_ids);
    assert(ids_view(ids@).len() == ids@.len());
    assert(ids@.len() == candidate_ids@.len());
    match previous_speaker {
        Some(source) => {
            match topology {
                TopologySnapshot::Mesh { .. } => ids,
                _ => reachable_ids(topology, source, candidate_ids),
            }
        },
        None => {
            match topology {
                TopologySnapshot::Mesh { .. } => ids,
                TopologySnapshot::Star { hub, .. } => {
                    proof {
                        lemma_member_same_view(ids@, candidate_ids@, hub@);
                    }
                    if contains_id(&ids, hub.as_str()) {
                        let mut out: Vec<String> = Vec::new();
                        out.push(hub.as_str().to_owned());
                        assert(ids_view(out@) =~= seq![hub@]);
                        out
                    } else {
                        ids
                    }
                },
                TopologySnapshot::Hierarchical { leaders, .. } => {
                    let mut out: Vec<String> = Vec::new();
                    let mut i: usize = 0;
                    while i < candidate_ids.len()
                        invariant
                            i <= candidate_ids@.len(),
                            previous_speaker is None,
                            *topology == (TopologySnapshot::Hierarchical { leaders: *leaders, workers: topology->workers }),
                            ids_view(out@) == members_of(leaders@, candidate_ids@.take(i as int)),
                        decreases candidate_ids@.len() - i,
                    {
                        assert(candidate_ids@.take(i as int + 1).drop_last() =~= candidate_ids@.take(i as int));
                        let ghost prev = out@;
                        if contains_id(leaders, candidate_ids[i].as_str()) {
                            out.push(candidate_ids[i].as_str().to_owned());
                            assert(ids_view(out@) =~= ids_view(prev).push(candidate_ids@[i as int]@));
                        }
                        i = i + 1;
                    }
                    assert(candidate_ids@.take(i as int) =~= candidate_ids@);
                    if out.len() == 0 {
                        ids
                    } else {
                        out
                    }
                },
                TopologySnapshot::Ring { ordered } => {
                    let mut i: usize = 0;
                    while i < ordered.len()
                        invariant
                            i <= ordered@.len(),
                            previous_speaker is None,
                            *topology == (TopologySnapshot::Ring { ordered: *ordered }),
                            ids_view(ids@) == ids_view(candidate_ids@),
                            ids@.len() == candidate_ids@.len(),
                            first_member(ordered@, candidate_ids@, i as int) == first_member(ordered@, candidate_ids@, 0),
                        decreases ordered@.len() - i,
                    {
                        if contains_id(&ids, ordered[i].as_str()) {
                            proof {
                                let k = choose|k: int| 0 <= k < ids@.len() && ids@[k]@ == ordered@[i as int]@;
                                assert(ids_view(ids@)[k] == ordered@[i as int]@);
                                assert(candidate_ids@[k]@ == ordered@[i as int]@);
                            }
                            let mut out: Vec<String> = Vec::new();
                            out.push(ordered[i].as_str().to_owned());
                            assert(ids_view(out@) =~= seq![ordered@[i as int]@]);
                            assert(first_member(ordered@, candidate_ids@, i as int) == Some(ordered@[i as int]@));
                            return out;
                        }
                        proof {
                            if member(candidate_ids@, ordered@[i as int]@) {
                                let k = choose|k: int| 0 <= k < candidate_ids@.len() && candidate_ids@[k]@ == ordered@[i as int]@;
                                assert(ids_view(candidate_ids@)[k] == ordered@[i as int]@);
                                assert(ids@[k]@ == ordered@[i as int]@);
                            }
                        }
                        i = i + 1;
                    }
                    let out: Vec<String> = Vec::new();
                    assert(ids_view(out@) =~= Seq::<Seq<char>>::empty());
                    out
                },
            }
        },
    }
}

/// Whether a turn in `status` is over, as the scheduler sees it.
pub fn is_terminal_scheduler_turn(status: TurnStatus) -> (r: bool)
    ensures
        r == turn_is_terminal(status),
{
    is_terminal_turn(status)
}

/// The ids of `candidates` other than `preferred`, in order.
pub open spec fn ids_except(candidates: Seq<ModeratorCandidate>, preferred: Option<Seq<char>>) -> Seq<Seq<char>>
    decreases candidates.len(),
{
    if candidates.len() == 0 {
        Seq::empty()
    } else if preferred == Some(candidates.last().agent_id@) {
        ids_except(candidates.drop_last(), preferred)
    } else {
        ids_except(candidates.drop_last(), preferred).push(candidates.last().agent_id@)
    }
}

/// Whether some candidate has the id `id`.
pub open spec fn has_candidate(candidates: Seq<ModeratorCandidate>, id: Seq<char>) -> bool {
    exists|k: int| 0 <= k < candidates.len() && #[trigger] candidates[k].agent_id@ == id
}

/// The order the moderator's candidates are tried in: the preferred agent
/// first when it is a candidate, then every other candidate in order.
pub open spec fn moderator_order(candidates: Seq<ModeratorCandidate>, preferred: Option<Seq<char>>) -> Seq<Seq<char>> {
    match preferred {
        Some(p) => if has_candidate(candidates, p) {
            seq![p] + ids_except(candidates, preferred)
        } else {
            ids_except(candidates, preferred)
        },
        None => ids_except(candidates, preferred),
    }
}

fn is_candidate_id(candidates: &[ModeratorCandidate], id: &str) -> (r: bool)
    ensures
        r == has_candidate(candidates@, id@),
{
    let mut i: usize = 0;
    while i < candidates.len()
        invariant
            i <= candidates@.len(),
            forall|k: int| 0 <= k < i ==> candidates@[k].agent_id@ != id@,
        decreases candidates@.len() - i,
    {
        if same_text(candidates[i].agent_id.as_str(), id) {
            return true;
        }
        i = i + 1;
    }
    false
}

/// The moderator's candidate ids in the order they are tried.
pub fn ordered_moderator_candidate_ids(candidates: &[ModeratorCandidate], preferred_agent_id: Option<&str>) -> (r: Vec<
    String,
>)
    ensures
        ids_view(r@) == moderator_order(candidates@, str_view(preferred_agent_id)),
{
    let ghost pref = str_view(preferred_agent_id);
    let mut out: Vec<String> = Vec::new();
    let mut present = false;
    match preferred_agent_id {
        Some(p) => {
            present = is_candidate_id(candidates, p);
            if present {
                out.push(p.to_owned());
            }
        },
        None => {},
    }
    assert(ids_view(out@) =~= (if present { seq![str_view(preferred_agent_id)->0] } else { Seq::empty() }));
    let ghost head = ids_view(out@);
    let mut j: usize = 0;
    while j < candidates.len()
        invariant
            j <= candidates@.len(),
            pref == str_view(preferred_agent_id),
            ids_view(out@) == head + ids_except(candidates@.take(j as int), pref),
        decreases candidates@.len() - j,
    {
        assert(candidates@.take(j as int + 1).drop_last() =~= candidates@.take(j as int));
        let ghost prev = out@;
        let skip = match preferred_agent_id {
            Some(p) => same_text(candidates[j].agent_id.as_str(), p),
            None => false,
        };
        if !skip {
            out.push(candidates[j].agent_id.as_str().to_owned());
            assert(ids_view(out@) =~= ids_view(prev).push(candidates@[j as int].agent_id@));
        }
        j = j + 1;
    }
    assert(candidates@.take(j as int) =~= candidates@);
    out
}

/// Messages the moderator keeps in view.
pub const MAX_RECENT_VISIBLE_MESSAGES: usize = 4;

/// A recent message, as the contracts see it.
pub open spec fn message_view(m: ModeratorMessage) -> (Seq<char>, Seq<char>, Option<Seq<char>>, Option<Seq<char>>, Option<Seq<char>>) {
    (m.role@, m.content@, opt_view(m.agent_id), opt_view(m.display_name), opt_view(m.outcome))
}

/// Recent messages, as the contracts see them.
pub open spec fn messages_view(ms: Seq<ModeratorMessage>) -> Seq<(Seq<char>, Seq<char>, Option<Seq<char>>, Option<Seq<char>>, Option<Seq<char>>)> {
    ms.map_values(|m: ModeratorMessage| message_view(m))
}

/// The last `n` elements of `s` (all of them when shorter).
pub open spec fn last_n<A>(s: Seq<A>, n: int) -> Seq<A> {
    if s.len() > n { s.skip(s.len() - n) } else { s }
}

/// Record a message the moderator should see, keeping only the last four.
pub fn record_moderator_visible_message(recent_visible_messages: &mut Vec<ModeratorMessage>, role: &str, content: &str)
    ensures
        messages_view(final(recent_visible_messages)@) == last_n(
            messages_view(old(recent_visible_messages)@).push((role@, content@, None, None, None)),
            MAX_RECENT_VISIBLE_MESSAGES as int,
        ),
{
    let ghost all = messages_view(recent_visible_messages@).push((role@, content@, None, None, None));
    let mut taken: Vec<ModeratorMessage> = Vec::new();
    std::mem::swap(&mut taken, recent_visible_messages);
    taken.push(
        ModeratorMessage {
            role: role.to_owned(),
            content: content.to_owned(),
            agent_id: None,
            display_name: None,
            outcome: None,
        },
    );
    assert(messages_view(taken@) =~= all);
    let n = taken.len();
    let start = if n > MAX_RECENT_VISIBLE_MESSAGES { n - MAX_RECENT_VISIBLE_MESSAGES } else { 0 };
    let mut kept: Vec<ModeratorMessage> = Vec::new();
    let mut i: usize = 0;
    while i < n
        invariant
            n == taken@.len(),
            start <= n,
            i <= n,
            forall|k: int| i <= k < n ==> #[trigger] message_view(taken@[k]) == all[k],
            all.len() == n,
            messages_view(kept@) == (if i <= start { Seq::empty() } else { all.subrange(start as int, i as int) }),
        decreases n - i,
    {
        let ghost prev = kept@;
        assert(message_view(taken@[i as int]) == all[i as int]);
        let m = take_moderator_message(&mut taken, i);
        assert(message_view(m) == all[i as int]);
        if i >= start {
            kept.push(m);
            assert(messages_view(kept@) =~= messages_view(prev).push(message_view(m)));
            if i == start {
                assert(messages_view(prev) =~= Seq::empty());
            } else {
                assert(messages_view(prev) == all.subrange(start as int, i as int));
            }
            assert(all.subrange(start as int, i as int + 1) =~= (if i == start { Seq::empty() } else { all.subrange(start as int, i as int) }).push(all[i as int]));
            assert(messages_view(kept@) =~= all.subrange(start as int, i as int + 1));
        }
        i = i + 1;
    }
    assert(all.subrange(start as int, n as int) =~= last_n(all, MAX_RECENT_VISIBLE_MESSAGES as int));
    *recent_visible_messages = kept;
}

fn take_moderator_message(v: &mut Vec<ModeratorMessage>, i: usize) -> (r: ModeratorMessage)
    requires
        i < old(v)@.len(),
    ensures
        r == old(v)@[i as int],
        final(v)@.len() == old(v)@.len(),
        forall|j: int| 0 <= j < old(v)@.len() && j != i ==> final(v)@[j] == old(v)@[j],
{
    let mut m = ModeratorMessage { role: String::new(), content: String::new(), agent_id: None, display_name: None, outcome: None };
    std::mem::swap(&mut m, &mut v[i]);
    m
}

/// A candidate speaker of a group turn.
#[derive(Debug, Clone)]
pub struct Candidate {
    pub agent_id: String,
    pub owner_id: String,
    pub display_name: String,
    pub system_prompt: String,
    pub runtime_kind: String,
    pub provider_id: Option<String>,
    pub model_config_json: Option<String>,
    pub tool_config_json: Option<String>,
    pub external_runtime_json: Option<String>,
    pub skill_ids_json: Option<String>,
    pub workspace_id: Option<String>,
    pub is_system: bool,
    pub response_mode: String,
    pub topology_role: Option<String>,
    pub speaking_order: Option<i64>,
}

/// Why a candidate could not be loaded again: it is no longer eligible
/// (with the reason), or the store failed (with its message).
#[derive(Debug, Clone, PartialEq, Eq)]
pub enum CandidateLoadError {
    Ineligible(&'static str),
    Persistence(String),
}

/// What a failed candidate load does to the turn.
#[derive(Debug, Clone, Copy, PartialEq, Eq, Structural)]
pub enum CandidateLoadDisposition {
    Skip,
    FailTurn,
}

impl CandidateLoadError {
    /// An ineligible candidate is skipped; a store failure fails the turn.
    pub fn disposition(&self) -> (r: CandidateLoadDisposition)
        ensures
            r == match self {
                CandidateLoadError::Ineligible(_) => CandidateLoadDisposition::Skip,
                CandidateLoadError::Persistence(_) => CandidateLoadDisposition::FailTurn,
            },
    {
        match self {
            CandidateLoadError::Ineligible(_) => CandidateLoadDisposition::Skip,
            CandidateLoadError::Persistence(_) => CandidateLoadDisposition::FailTurn,
        }
    }
}

/// A group member row as stored.
#[derive(Debug, Clone)]
pub struct CandidateRow {
    pub id: String,
    pub owner_id: String,
    pub display_name: Option<String>,
    pub name: String,
    pub system_prompt: String,
    pub runtime_kind: String,
    pub provider_id: Option<String>,
    pub model_config_json: Option<String>,
    pub tool_config_json: Option<String>,
    pub external_runtime_json: Option<String>,
    pub skill_ids_json: Option<String>,
    pub workspace_id: Option<String>,
    pub is_system: i64,
    pub response_mode: String,
    pub topology_role: Option<String>,
    pub speaking_order: Option<i64>,
}

/// A candidate from its stored row: the group display name, or the agent's
/// own name when the group gives none.
pub fn candidate_from_row(row: CandidateRow) -> (r: Candidate)
    ensures
        r.agent_id == row.id,
        r.owner_id == row.owner_id,
        r.display_name == (match row.display_name {
            Some(d) => d,
            None => row.name,
        }),
        r.system_prompt == row.system_prompt,
        r.runtime_kind == row.runtime_kind,
        r.provider_id == row.provider_id,
        r.model_config_json == row.model_config_json,
        r.tool_config_json == row.tool_config_json,
        r.external_runtime_json == row.external_runtime_json,
        r.skill_ids_json == row.skill_ids_json,
        r.workspace_id == row.workspace_id,
        r.is_system == (row.is_system != 0),
        r.response_mode == row.response_mode,
        r.topology_role == row.topology_role,
        r.speaking_order == row.speaking_order,
{
    let display = match row.display_name {
        Some(d) => d,
        None => row.name,
    };
    Candidate {
        agent_id: row.id,
        owner_id: row.owner_id,
        display_name: display,
        system_prompt: row.system_prompt,
        runtime_kind: row.runtime_kind,
        provider_id: row.provider_id,
        model_config_json: row.model_config_json,
        tool_config_json: row.tool_config_json,
        external_runtime_json: row.external_runtime_json,
        skill_ids_json: row.skill_ids_json,
        workspace_id: row.workspace_id,
        is_system: row.is_system != 0,
        response_mode: row.response_mode,
        topology_role: row.topology_role,
        speaking_order: row.speaking_order,
    }
}

/// A topology by the ids it holds.
pub enum ShapeView {
    Mesh(Seq<Seq<char>>),
    Star(Seq<char>, Seq<Seq<char>>),
    Hierarchical(Seq<Seq<char>>, Seq<Seq<char>>),
    Ring(Seq<Seq<char>>),
}

/// A topology, as the contracts see it.
pub open spec fn shape_of(t: TopologySnapshot) -> ShapeView {
    match t {
        TopologySnapshot::Mesh { agents } => ShapeView::Mesh(ids_view(agents@)),
        TopologySnapshot::Star { hub, spokes } => ShapeView::Star(hub@, ids_view(spokes@)),
        TopologySnapshot::Hierarchical { leaders, workers } => ShapeView::Hierarchical(ids_view(leaders@), ids_view(workers@)),
        TopologySnapshot::Ring { ordered } => ShapeView::Ring(ids_view(ordered@)),
    }
}

/// What `ensure_unique` reports for a list of ids.
pub open spec fn ids_uniqueness(ids: Seq<Seq<char>>) -> Result<(), TopologyError> {
    if exists|k: int| 0 <= k < ids.len() && #[trigger] ids[k].len() == 0 {
        Err(TopologyError::InvalidAgent)
    } else if !(forall|a: int, b: int| 0 <= a < b < ids.len() ==> #[trigger] ids[a] != #[trigger] ids[b]) {
        Err(TopologyError::DuplicateAgent)
    } else {
        Ok(())
    }
}

/// Whether a topology by its ids is well formed.
pub open spec fn shape_validity(s: ShapeView) -> Result<(), TopologyError> {
    match s {
        ShapeView::Mesh(agents) => ids_uniqueness(agents),
        ShapeView::Star(hub, spokes) => if spokes.contains(hub) {
            Err(TopologyError::DuplicateAgent)
        } else if hub.len() == 0 {
            Err(TopologyError::MissingRequiredRole)
        } else {
            ids_uniqueness(spokes)
        },
        ShapeView::Hierarchical(leaders, workers) => if leaders.len() == 0 {
            Err(TopologyError::MissingRequiredRole)
        } else {
            ids_uniqueness(leaders + workers)
        },
        ShapeView::Ring(ordered) => if ordered.len() < 2 {
            Err(TopologyError::InvalidRing)
        } else {
            ids_uniqueness(ordered)
        },
    }
}

proof fn lemma_uniqueness_view(list: Seq<String>)
    ensures
        uniqueness(list) == ids_uniqueness(ids_view(list)),
{
    let v = ids_view(list);
    assert(v.len() == list.len());
    assert(has_empty(list) == (exists|k: int| 0 <= k < v.len() && #[trigger] v[k].len() == 0)) by {
        if has_empty(list) {
            let k = choose|k: int| 0 <= k < list.len() && list[k]@.len() == 0;
            assert(v[k] == list[k]@);
        }
        if exists|k: int| 0 <= k < v.len() && #[trigger] v[k].len() == 0 {
            let k = choose|k: int| 0 <= k < v.len() && #[trigger] v[k].len() == 0;
            assert(v[k] == list[k]@);
        }
    }
    assert(all_distinct(list) == (forall|a: int, b: int| 0 <= a < b < v.len() ==> #[trigger] v[a] != #[trigger] v[b])) by {
        if all_distinct(list) {
            assert forall|a: int, b: int| 0 <= a < b < v.len() implies #[trigger] v[a] != #[trigger] v[b] by {
                assert(v[a] == list[a]@);
                assert(v[b] == list[b]@);
            }
        }
        if forall|a: int, b: int| 0 <= a < b < v.len() ==> #[trigger] v[a] != #[trigger] v[b] {
            assert forall|a: int, b: int| 0 <= a < b < list.len() implies list[a]@ != list[b]@ by {
                assert(v[a] == list[a]@);
                assert(v[b] == list[b]@);
            }
        }
    }
}

/// Whether a topology is well formed depends on its ids alone.
pub proof fn lemma_validity_by_ids(t: TopologySnapshot)
    ensures
        topology_validity(t) == shape_validity(shape_of(t)),
{
    match t {
        TopologySnapshot::Mesh { agents } => lemma_uniqueness_view(agents@),
        TopologySnapshot::Star { hub, spokes } => {
            lemma_uniqueness_view(spokes@);
            lemma_member_contains(spokes@, hub@);
        },
        TopologySnapshot::Hierarchical { leaders, workers } => {
            lemma_uniqueness_view(leaders@ + workers@);
            assert(ids_view(leaders@ + workers@) =~= ids_view(leaders@) + ids_view(workers@));
        },
        TopologySnapshot::Ring { ordered } => lemma_uniqueness_view(ordered@),
    }
}

proof fn lemma_member_contains(list: Seq<String>, id: Seq<char>)
    ensures
        member(list, id) == ids_view(list).contains(id),
{
    if member(list, id) {
        let k = choose|k: int| 0 <= k < list.len() && list[k]@ == id;
        assert(ids_view(list)[k] == id);
    }
    if ids_view(list).contains(id) {
        let k = choose|k: int| 0 <= k < ids_view(list).len() && ids_view(list)[k] == id;
        assert(ids_view(list)[k] == list[k]@);
    }
}

/// The ids of the candidates, in order.
pub open spec fn cand_ids(cs: Seq<Candidate>) -> Seq<Seq<char>> {
    cs.map_values(|c: Candidate| c.agent_id@)
}

/// The first candidate from `i` on holding `role`.
pub open spec fn role_holder(cs: Seq<Candidate>, role: Seq<char>, i: int) -> Option<Seq<char>>
    decreases cs.len() - i,
{
    if i < 0 || i >= cs.len() {
        None
    } else if opt_view(cs[i].topology_role) == Some(role) {
        Some(cs[i].agent_id@)
    } else {
        role_holder(cs, role, i + 1)
    }
}

/// The ids of the candidates other than `id`, in order.
pub open spec fn ids_without(cs: Seq<Candidate>, id: Seq<char>) -> Seq<Seq<char>>
    decreases cs.len(),
{
    if cs.len() == 0 {
        Seq::empty()
    } else if cs.last().agent_id@ != id {
        ids_without(cs.drop_last(), id).push(cs.last().agent_id@)
    } else {
        ids_without(cs.drop_last(), id)
    }
}

/// The ids of the candidates holding `role`, in order.
pub open spec fn ids_with_role(cs: Seq<Candidate>, role: Seq<char>) -> Seq<Seq<char>>
    decreases cs.len(),
{
    if cs.len() == 0 {
        Seq::empty()
    } else if opt_view(cs.last().topology_role) == Some(role) {
        ids_with_role(cs.drop_last(), role).push(cs.last().agent_id@)
    } else {
        ids_with_role(cs.drop_last(), role)
    }
}

/// The ids of the candidates not in `ids`, in order.
pub open spec fn ids_not_in(cs: Seq<Candidate>, ids: Seq<Seq<char>>) -> Seq<Seq<char>>
    decreases cs.len(),
{
    if cs.len() == 0 {
        Seq::empty()
    } else if !ids.contains(cs.last().agent_id@) {
        ids_not_in(cs.drop_last(), ids).push(cs.last().agent_id@)
    } else {
        ids_not_in(cs.drop_last(), ids)
    }
}

/// The topology a communication mode asks for over the available candidates,
/// with why it differs from the mode, or the reason it falls back to a mesh.
pub open spec fn topology_plan(mode: Seq<char>, cs: Seq<Candidate>) -> Result<(ShapeView, Option<Seq<char>>), Seq<char>> {
    let all = cand_ids(cs);
    if mode == "mesh"@ {
        Ok((ShapeView::Mesh(all), None))
    } else if mode == "star"@ {
        let hub = match role_holder(cs, "hub"@, 0) {
            Some(h) => Some(h),
            None => if all.len() > 0 {
                Some(all[0])
            } else {
                None
            },
        };
        match hub {
            None => Err("star mode has no available agent to act as hub"@),
            Some(h) => Ok(
                (
                    ShapeView::Star(h, ids_without(cs, h)),
                    if role_holder(cs, "hub"@, 0) != Some(h) {
                        Some("star mode has no hub available; "@ + h + " is standing in"@)
                    } else {
                        None
                    },
                ),
            ),
        }
    } else if mode == "hierarchical"@ {
        let configured = ids_with_role(cs, "leader"@);
        if configured.len() == 0 {
            if all.len() == 0 {
                Err("hierarchical mode has no available agents"@)
            } else {
                Ok(
                    (
                        ShapeView::Hierarchical(seq![all[0]], ids_not_in(cs, seq![all[0]])),
                        Some("hierarchical mode has no leader available; "@ + all[0] + " is standing in"@),
                    ),
                )
            }
        } else {
            Ok((ShapeView::Hierarchical(configured, ids_not_in(cs, configured)), None))
        }
    } else if mode == "ring"@ {
        if all.len() < 2 {
            Err("ring mode needs at least two available agents"@)
        } else {
            Ok((ShapeView::Ring(all), None))
        }
    } else {
        Err("unsupported group topology "@ + mode)
    }
}

/// The topology a turn runs under and why it differs from the mode: the
/// planned one when it is well formed, a mesh of everyone otherwise.
pub open spec fn resolved_spec(mode: Seq<char>, cs: Seq<Candidate>) -> (ShapeView, Option<Seq<char>>) {
    match topology_plan(mode, cs) {
        Err(reason) => (ShapeView::Mesh(cand_ids(cs)), Some(reason)),
        Ok((shape, degraded)) => match shape_validity(shape) {
            Ok(_) => (shape, degraded),
            Err(e) => (ShapeView::Mesh(cand_ids(cs)), Some(mode + " topology is not usable: "@ + topology_error_text(e))),
        },
    }
}

/// Whatever the mode asks for, a turn over candidates with distinct, nonempty
/// ids runs under a well-formed topology: the planned one when it is valid,
/// else the mesh of everyone.
pub proof fn lemma_resolved_topology_is_valid(mode: Seq<char>, cs: Seq<Candidate>)
    requires
        ids_uniqueness(cand_ids(cs)) is Ok,
    ensures
        shape_validity(resolved_spec(mode, cs).0) is Ok,
{
}

/// The topology one turn runs under, and why it differs from the configured
/// mode when it does.
pub struct ResolvedTopology {
    pub snapshot: TopologySnapshot,
    pub degraded_reason: Option<String>,
}

fn all_ids(candidates: &[Candidate]) -> (r: Vec<String>)
    ensures
        ids_view(r@) == cand_ids(candidates@),
{
    let mut out: Vec<String> = Vec::new();
    let mut i: usize = 0;
    while i < candidates.len()
        invariant
            i <= candidates@.len(),
            ids_view(out@) == cand_ids(candidates@.take(i as int)),
        decreases candidates@.len() - i,
    {
        let ghost prev = out@;
        out.push(candidates[i].agent_id.as_str().to_owned());
        assert(ids_view(out@) =~= ids_view(prev).push(candidates@[i as int].agent_id@));
        assert(cand_ids(candidates@.take(i as int + 1)) =~= cand_ids(candidates@.take(i as int)).push(candidates@[i as int].agent_id@));
        i = i + 1;
    }
    assert(candidates@.take(i as int) =~= candidates@);
    out
}

fn holder_of(candidates: &[Candidate], role: &str) -> (r: Option<String>)
    ensures
        opt_view(r) == role_holder(candidates@, role@, 0),
{
    let mut i: usize = 0;
    while i < candidates.len()
        invariant
            i <= candidates@.len(),
            role_holder(candidates@, role@, i as int) == role_holder(candidates@, role@, 0),
        decreases candidates@.len() - i,
    {
        let found = match &candidates[i].topology_role {
            Some(r) => same_text(r.as_str(), role),
            None => false,
        };
        if found {
            return Some(candidates[i].agent_id.as_str().to_owned());
        }
        i = i + 1;
    }
    None
}

fn ids_without_exec(candidates: &[Candidate], id: &str) -> (r: Vec<String>)
    ensures
        ids_view(r@) == ids_without(candidates@, id@),
{
    let mut out: Vec<String> = Vec::new();
    let mut i: usize = 0;
    while i < candidates.len()
        invariant
            i <= candidates@.len(),
            ids_view(out@) == ids_without(candidates@.take(i as int), id@),
        decreases candidates@.len() - i,
    {
        assert(candidates@.take(i as int + 1).drop_last() =~= candidates@.take(i as int));
        let ghost prev = out@;
        if !same_text(candidates[i].agent_id.as_str(), id) {
            out.push(candidates[i].agent_id.as_str().to_owned());
            assert(ids_view(out@) =~= ids_view(prev).push(candidates@[i as int].agent_id@));
        }
        i = i + 1;
    }
    assert(candidates@.take(i as int) =~= candidates@);
    out
}

fn ids_with_role_exec(candidates: &[Candidate], role: &str) -> (r: Vec<String>)
    ensures
        ids_view(r@) == ids_with_role(candidates@, role@),
{
    let mut out: Vec<String> = Vec::new();
    let mut i: usize = 0;
    while i < candidates.len()
        invariant
            i <= candidates@.len(),
            ids_view(out@) == ids_with_role(candidates@.take(i as int), role@),
        decreases candidates@.len() - i,
    {
        assert(candidates@.take(i as int + 1).drop_last() =~= candidates@.take(i as int));
        let ghost prev = out@;
        let has = match &candidates[i].topology_role {
            Some(r) => same_text(r.as_str(), role),
            None => false,
        };
        if has {
            out.push(candidates[i].agent_id.as_str().to_owned());
            assert(ids_view(out@) =~= ids_view(prev).push(candidates@[i as int].agent_id@));
        }
        i = i + 1;
    }
    assert(candidates@.take(i as int) =~= candidates@);
    out
}

fn ids_not_in_exec(candidates: &[Candidate], ids: &Vec<String>) -> (r: Vec<String>)
    ensures
        ids_view(r@) == ids_not_in(candidates@, ids_view(ids@)),
{
    let mut out: Vec<String> = Vec::new();
    let mut i: usize = 0;
    while i < candidates.len()
        invariant
            i <= candidates@.len(),
            ids_view(out@) == ids_not_in(candidates@.take(i as int), ids_view(ids@)),
        decreases candidates@.len() - i,
    {
        assert(candidates@.take(i as int + 1).drop_last() =~= candidates@.take(i as int));
        let ghost prev = out@;
        proof {
            lemma_member_contains(ids@, candidates@[i as int].agent_id@);
        }
        if !contains_id(ids, candidates[i].agent_id.as_str()) {
            out.push(candidates[i].agent_id.as_str().to_owned());
            assert(ids_view(out@) =~= ids_view(prev).push(candidates@[i as int].agent_id@));
        }
        i = i + 1;
    }
    assert(candidates@.take(i as int) =~= candidates@);
    out
}

fn mesh_of(candidates: &[Candidate], reason: String) -> (r: ResolvedTopology)
    ensures
        shape_of(r.snapshot) == ShapeView::Mesh(cand_ids(candidates@)),
        opt_view(r.degraded_reason) == Some(reason@),
{
    ResolvedTopology { snapshot: TopologySnapshot::Mesh { agents: all_ids(candidates) }, degraded_reason: Some(reason) }
}


/// Build the topology for one turn from the agents available. A mode that
/// lacks a role it needs gets the closest usable topology and a reason, and
/// one that is unknown or cannot be built falls back to a mesh of everyone.
pub fn resolve_topology(communication_mode: &str, candidates: &[Candidate]) -> (r: ResolvedTopology)
    ensures
        shape_of(r.snapshot) == resolved_spec(communication_mode@, candidates@).0,
        opt_view(r.degraded_reason) == resolved_spec(communication_mode@, candidates@).1,
{
    let ghost all = cand_ids(candidates@);
    let mode = communication_mode;
    let resolved: ResolvedTopology;
    if same_text(mode, "mesh") {
        resolved = ResolvedTopology { snapshot: TopologySnapshot::Mesh { agents: all_ids(candidates) }, degraded_reason: None };
    } else if same_text(mode, "star") {
        let holder = holder_of(candidates, "hub");
        let (hub, degraded_reason) = match holder {
            Some(h) => (h, None),
            None => {
                if candidates.len() == 0 {
                    return mesh_of(candidates, "star mode has no available agent to act as hub".to_owned());
                }
                let first = candidates[0].agent_id.as_str().to_owned();
                let mut reason = "star mode has no hub available; ".to_owned();
                reason.append(first.as_str());
                reason.append(" is standing in");
                (first, Some(reason))
            },
        };
        let spokes = ids_without_exec(candidates, hub.as_str());
        resolved = ResolvedTopology { snapshot: TopologySnapshot::Star { hub: hub, spokes: spokes }, degraded_reason: degraded_reason };
    } else if same_text(mode, "hierarchical") {
        let configured = ids_with_role_exec(candidates, "leader");
        if configured.len() == 0 {
            if candidates.len() == 0 {
                return mesh_of(candidates, "hierarchical mode has no available agents".to_owned());
            }
            let stand_in = candidates[0].agent_id.as_str().to_owned();
            let mut reason = "hierarchical mode has no leader available; ".to_owned();
            reason.append(stand_in.as_str());
            reason.append(" is standing in");
            let mut leaders: Vec<String> = Vec::new();
            leaders.push(stand_in);
            assert(ids_view(leaders@) =~= seq![all[0]]);
            let workers = ids_not_in_exec(candidates, &leaders);
            resolved = ResolvedTopology {
                snapshot: TopologySnapshot::Hierarchical { leaders: leaders, workers: workers },
                degraded_reason: Some(reason),
            };
        } else {
            let workers = ids_not_in_exec(candidates, &configured);
            resolved = ResolvedTopology { snapshot: TopologySnapshot::Hierarchical { leaders: configured, workers: workers }, degraded_reason: None };
        }
    } else if same_text(mode, "ring") {
        if candidates.len() < 2 {
            return mesh_of(candidates, "ring mode needs at least two available agents".to_owned());
        }
        resolved = ResolvedTopology { snapshot: TopologySnapshot::Ring { ordered: all_ids(candidates) }, degraded_reason: None };
    } else {
        let mut reason = "unsupported group topology ".to_owned();
        reason.append(mode);
        return mesh_of(candidates, reason);
    }
    proof {
        lemma_validity_by_ids(resolved.snapshot);
    }
    match validate_topology(&resolved.snapshot) {
        Ok(()) => resolved,
        Err(error) => {
            let mut reason = mode.to_owned();
            reason.append(" topology is not usable: ");
            reason.append(error.message());
            mesh_of(candidates, reason)
        },
    }
}

} // verus!
