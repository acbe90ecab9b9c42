use vstd::prelude::*;

use crate::text::same_text;

verus! {

/// Who may address whom inside a group.
#[derive(Debug, Clone, PartialEq, Eq)]
pub enum TopologySnapshot {
    Mesh { agents: Vec<String> },
    Star { hub: String, spokes: Vec<String> },
    Hierarchical { leaders: Vec<String>, workers: Vec<String> },
    Ring { ordered: Vec<String> },
}

/// Why a topology is malformed.
#[derive(Debug, Clone, Copy, PartialEq, Eq, Structural)]
pub enum TopologyError {
    MissingRequiredRole,
    DuplicateAgent,
    InvalidAgent,
    InvalidRing,
}

/// `id` is one of `list`.
pub open spec fn member(list: Seq<String>, id: Seq<char>) -> bool {
    exists|k: int| 0 <= k < list.len() && list[k]@ == id
}

/// Some id in `list` is empty.
pub open spec fn has_empty(list: Seq<String>) -> bool {
    exists|k: int| 0 <= k < list.len() && list[k]@.len() == 0
}

/// No id occurs twice in `list`.
pub open spec fn all_distinct(list: Seq<String>) -> bool {
    forall|a: int, b: int| 0 <= a < b < list.len() ==> list[a]@ != list[b]@
}

/// What `ensure_unique` reports for `list`.
pub open spec fn uniqueness(list: Seq<String>) -> Result<(), TopologyError> {
    if has_empty(list) {
        Err(TopologyError::InvalidAgent)
    } else if !all_distinct(list) {
        Err(TopologyError::DuplicateAgent)
    } else {
        Ok(())
    }
}

/// Whether a topology is well formed, and the first problem when it is not.
pub open spec fn topology_validity(snapshot: TopologySnapshot) -> Result<(), TopologyError> {
    match snapshot {
        TopologySnapshot::Mesh { agents } => uniqueness(agents@),
        TopologySnapshot::Star { hub, spokes } => if member(spokes@, hub@) {
            Err(TopologyError::DuplicateAgent)
        } else if hub@.len() == 0 {
            Err(TopologyError::MissingRequiredRole)
        } else {
            uniqueness(spokes@)
        },
        TopologySnapshot::Hierarchical { leaders, workers } => if leaders@.len() == 0 {
            Err(TopologyError::MissingRequiredRole)
        } else {
            uniqueness(leaders@ + workers@)
        },
        TopologySnapshot::Ring { ordered } => if ordered@.len() < 2 {
            Err(TopologyError::InvalidRing)
        } else {
            uniqueness(ordered@)
        },
    }
}

/// The index of the first occurrence of `id` in `list` at or after `i`.
pub open spec fn position_from(list: Seq<String>, id: Seq<char>, i: int) -> Option<int>
    decreases list.len() - i,
{
    if i < 0 || i >= list.len() {
        None
    } else if list[i]@ == id {
        Some(i)
    } else {
        position_from(list, id, i + 1)
    }
}

/// Whether `source` may address `target` directly.
pub open spec fn edge_allowed(snapshot: TopologySnapshot, source: Seq<char>, target: Seq<char>) -> bool {
    if source == target {
        false
    } else {
        match snapshot {
            TopologySnapshot::Mesh { agents } => member(agents@, source) && member(agents@, target),
            TopologySnapshot::Star { hub, spokes } => (source == hub@ && member(spokes@, target)) || (
            target == hub@ && member(spokes@, source)),
            TopologySnapshot::Hierarchical { leaders, workers } => (member(leaders@, source) && (member(
                leaders@,
                target,
            ) || member(workers@, target))) || (member(workers@, source) && member(leaders@, target)),
            TopologySnapshot::Ring { ordered } => match position_from(ordered@, source, 0) {
                Some(p) => ordered@[(p + 1) % (ordered@.len() as int)]@ == target,
                None => false,
            },
        }
    }
}

proof fn lemma_position(list: Seq<String>, id: Seq<char>, i: int)
    requires
        0 <= i,
    ensures
        position_from(list, id, i) matches Some(p) ==> i <= p < list.len() && list[p]@ == id && (forall|
            m: int,
        | i <= m < p ==> list[m]@ != id),
        position_from(list, id, i) is None ==> forall|m: int| i <= m < list.len() ==> list[m]@ != id,
    decreases list.len() - i,
{
    if i < list.len() {
        lemma_position(list, id, i + 1);
    }
}

/// The index of the first occurrence of `id` in `list`.
fn position_of(list: &Vec<String>, id: &str) -> (r: Option<usize>)
    ensures
        match r {
            Some(p) => position_from(list@, id@, 0) == Some(p as int),
            None => position_from(list@, id@, 0) is None,
        },
{
    let mut i: usize = 0;
    while i < list.len()
        invariant
            i <= list@.len(),
            position_from(list@, id@, 0) == position_from(list@, id@, i as int),
        decreases list@.len() - i,
    {
        if same_text(list[i].as_str(), id) {
            return Some(i);
        }
        i = i + 1;
    }
    None
}

/// Whether `id` is one of `list`.
pub fn contains_id(list: &Vec<String>, id: &str) -> (r: bool)
    ensures
        r == member(list@, id@),
{
    proof {
        lemma_position(list@, id@, 0);
    }
    position_of(list, id).is_some()
}

fn any_empty(list: &Vec<String>) -> (r: bool)
    ensures
        r == has_empty(list@),
{
    let mut i: usize = 0;
    while i < list.len()
        invariant
            i <= list@.len(),
            forall|k: int| 0 <= k < i ==> list@[k]@.len() != 0,
        decreases list@.len() - i,
    {
        if list[i].as_str().is_empty() {
            return true;
        }
        i = i + 1;
    }
    false
}

/// Every id is non-empty and occurs once.
fn ensure_unique(agents: &Vec<String>) -> (r: Result<(), TopologyError>)
    ensures
        r == uniqueness(agents@),
{
    if any_empty(agents) {
        return Err(TopologyError::InvalidAgent);
    }
    let mut j: usize = 0;
    while j < agents.len()
        invariant
            j <= agents@.len(),
            !has_empty(agents@),
            forall|a: int, b: int| 0 <= a < b < j ==> agents@[a]@ != agents@[b]@,
        decreases agents@.len() - j,
    {
        let mut i: usize = 0;
        while i < j
            invariant
                i <= j < agents@.len(),
                !has_empty(agents@),
                forall|a: int| 0 <= a < i ==> agents@[a]@ != agents@[j as int]@,
            decreases j - i,
        {
            if same_text(agents[i].as_str(), agents[j].as_str()) {
                assert(agents@[i as int]@ == agents@[j as int]@);
                assert(!all_distinct(agents@));
                return Err(TopologyError::DuplicateAgent);
            }
            i = i + 1;
        }
        j = j + 1;
    }
    Ok(())
}

/// No agent may address itself, and mesh and star edges run both ways.
pub proof fn lemma_edges_are_irreflexive_and_mesh_star_symmetric(
    snapshot: TopologySnapshot,
    a: Seq<char>,
    b: Seq<char>,
)
    ensures
        !edge_allowed(snapshot, a, a),
        (snapshot is Mesh || snapshot is Star) ==> (edge_allowed(snapshot, a, b) == edge_allowed(snapshot, b, a)),
{
}

/// In a hierarchy, two workers who are not leaders never address each other.
pub proof fn lemma_workers_only_reach_leaders(leaders: Vec<String>, workers: Vec<String>, a: Seq<char>, b: Seq<char>)
    requires
        !member(leaders@, a),
        !member(leaders@, b),
    ensures
        !edge_allowed(TopologySnapshot::Hierarchical { leaders, workers }, a, b),
{
}

/// The edges each shape grants between two different agents: in a
/// hierarchy a leader addresses every other leader and every worker, and a
/// worker addresses every leader; a star's hub addresses every spoke and
/// every spoke the hub; in a mesh every member addresses every other member.
pub proof fn lemma_granted_edges(shape: TopologySnapshot, a: Seq<char>, b: Seq<char>)
    requires
        a != b,
    ensures
        shape matches TopologySnapshot::Hierarchical { leaders, workers } ==> {
            &&& (exists|i: int| 0 <= i < leaders@.len() && leaders@[i]@ == a) && (exists|j: int|
                0 <= j < leaders@.len() && leaders@[j]@ == b) ==> edge_allowed(shape, a, b)
            &&& (exists|i: int| 0 <= i < leaders@.len() && leaders@[i]@ == a) && (exists|j: int|
                0 <= j < workers@.len() && workers@[j]@ == b) ==> edge_allowed(shape, a, b)
            &&& (exists|i: int| 0 <= i < workers@.len() && workers@[i]@ == a) && (exists|j: int|
                0 <= j < leaders@.len() && leaders@[j]@ == b) ==> edge_allowed(shape, a, b)
        },
        shape matches TopologySnapshot::Star { hub, spokes } ==> {
            &&& a == hub@ && (exists|j: int| 0 <= j < spokes@.len() && spokes@[j]@ == b) ==> edge_allowed(shape, a, b)
            &&& b == hub@ && (exists|i: int| 0 <= i < spokes@.len() && spokes@[i]@ == a) ==> edge_allowed(shape, a, b)
        },
        shape matches TopologySnapshot::Mesh { agents } ==> ((exists|i: int| 0 <= i < agents@.len() && agents@[i]@ == a)
            && (exists|j: int| 0 <= j < agents@.len() && agents@[j]@ == b) ==> edge_allowed(shape, a, b)),
{
}

/// The edges each shape withholds: two spokes of a star never address each
/// other, and in a mesh an agent outside the mesh neither addresses nor is
/// addressed.
pub proof fn lemma_withheld_edges(shape: TopologySnapshot, a: Seq<char>, b: Seq<char>)
    ensures
        shape matches TopologySnapshot::Star { hub, .. } ==> (a != hub@ && b != hub@ ==> !edge_allowed(shape, a, b)),
        shape matches TopologySnapshot::Mesh { agents } ==> ((forall|i: int| 0 <= i < agents@.len() ==> agents@[i]@ != a)
            ==> !edge_allowed(shape, a, b) && !edge_allowed(shape, b, a)),
{
}

/// In a valid ring each member addresses exactly its successor.
pub proof fn lemma_ring_member_addresses_only_its_successor(ordered: Vec<String>, i: int, target: Seq<char>)
    requires
        topology_validity(TopologySnapshot::Ring { ordered }) is Ok,
        0 <= i < ordered@.len(),
    ensures
        edge_allowed(TopologySnapshot::Ring { ordered }, ordered@[i]@, target)
            <==> target == ordered@[(i + 1) % (ordered@.len() as int)]@,
{
    let n = ordered@.len() as int;
    lemma_position(ordered@, ordered@[i]@, 0);
    let p = position_from(ordered@, ordered@[i]@, 0)->0;
    assert(p == i) by {
        if p < i {
            assert(ordered@[p]@ == ordered@[i]@);
        }
    }
    let next = (i + 1) % n;
    vstd::arithmetic::div_mod::lemma_mod_bound(i + 1, n);
    assert(next != i) by {
        if i + 1 < n {
            vstd::arithmetic::div_mod::lemma_small_mod((i + 1) as nat, n as nat);
        } else {
            vstd::arithmetic::div_mod::lemma_mod_self_0(n);
        }
    }
    if target == ordered@[next]@ {
        if next < i {
            assert(ordered@[next]@ != ordered@[i]@);
        } else {
            assert(ordered@[i]@ != ordered@[next]@);
        }
    }
}

/// Check that a topology names each agent once, with no empty ids, and has the
/// roles its shape requires.
pub fn validate_topology(snapshot: &TopologySnapshot) -> (r: Result<(), TopologyError>)
    ensures
        r == topology_validity(*snapshot),
{
    match snapshot {
        TopologySnapshot::Mesh { agents } => {
            if any_empty(agents) {
                return Err(TopologyError::InvalidAgent);
            }
            ensure_unique(agents)
        },
        TopologySnapshot::Star { hub, spokes } => {
            if contains_id(spokes, hub.as_str()) {
                return Err(TopologyError::DuplicateAgent);
            }
            if hub.as_str().is_empty() {
                return Err(TopologyError::MissingRequiredRole);
            }
            ensure_unique(spokes)
        },
        TopologySnapshot::Hierarchical { leaders, workers } => {
            if leaders.len() == 0 {
                return Err(TopologyError::MissingRequiredRole);
            }
            let mut all = leaders.clone();
            let mut k: usize = 0;
            while k < workers.len()
                invariant
                    k <= workers@.len(),
                    all@ == leaders@ + workers@.subrange(0, k as int),
                decreases workers@.len() - k,
            {
                all.push(workers[k].clone());
                k = k + 1;
                assert(all@ =~= leaders@ + workers@.subrange(0, k as int));
            }
            assert(workers@.subrange(0, workers@.len() as int) =~= workers@);
            ensure_unique(&all)
        },
        TopologySnapshot::Ring { ordered } => {
            if ordered.len() < 2 {
                return Err(TopologyError::InvalidRing);
            }
            ensure_unique(ordered)
        },
    }
}

/// Whether `source` may address `target` directly under `snapshot`.
pub fn allows_agent_edge(snapshot: &TopologySnapshot, source: &str, target: &str) -> (r: bool)
    ensures
        r == edge_allowed(*snapshot, source@, target@),
{
    if same_text(source, target) {
        return false;
    }
    match snapshot {
        TopologySnapshot::Mesh { agents } => contains_id(agents, source) && contains_id(agents, target),
        TopologySnapshot::Star { hub, spokes } => (same_text(source, hub.as_str()) && contains_id(spokes, target))
            || (same_text(target, hub.as_str()) && contains_id(spokes, source)),
        TopologySnapshot::Hierarchical { leaders, workers } => (contains_id(leaders, source) && (contains_id(
            leaders,
            target,
        ) || contains_id(workers, target))) || (contains_id(workers, source) && contains_id(leaders, target)),
        TopologySnapshot::Ring { ordered } => match position_of(ordered, source) {
            Some(p) => {
                proof {
                    lemma_position(ordered@, source@, 0);
                }
                let n = ordered.len();
                assert(p < n);
                let next = (p + 1) % n;
                same_text(ordered[next].as_str(), target)
            },
            None => false,
        },
    }
}

/// What a topology error says.
pub open spec fn topology_error_text(e: TopologyError) -> Seq<char> {
    match e {
        TopologyError::MissingRequiredRole => "topology must contain the required role"@,
        TopologyError::DuplicateAgent => "topology contains duplicate agents"@,
        TopologyError::InvalidAgent => "topology contains an invalid agent id"@,
        TopologyError::InvalidRing => "ring topology needs at least two agents"@,
    }
}

impl TopologyError {
    /// What the error says, as it is shown to people.
    pub fn message(&self) -> (r: &'static str)
        ensures
            r@ == topology_error_text(*self),
    {
        match self {
            TopologyError::MissingRequiredRole => "topology must contain the required role",
            TopologyError::DuplicateAgent => "topology contains duplicate agents",
            TopologyError::InvalidAgent => "topology contains an invalid agent id",
            TopologyError::InvalidRing => "ring topology needs at least two agents",
        }
    }
}

} // verus!
