use vstd::prelude::*;

use std::collections::hash_map::DefaultHasher;
use std::hash::{Hash, Hasher};

use crate::text::{push_char, same_text};
use crate::context::{sanitize_acp_agent_brief, sanitized_brief, AttachmentAccess};
use vstd::std_specs::hash::DefaultHasherAdditionalSpecFns;

verus! {

/// Which workspaces an agent's turn addresses.
#[derive(Debug, Clone, Copy, PartialEq, Eq, Structural)]
pub enum WorkspaceMode {
    Group,
    GroupAndSelf,
    SelfOnly,
}

/// A secondary root a turn may address under a name prefix.
#[derive(Debug, Clone, PartialEq, Eq)]
pub struct WorkspaceMount {
    pub name: String,
    pub root: String,
}

/// A mount, as the contracts see it.
pub open spec fn mount_view(m: WorkspaceMount) -> (Seq<char>, Seq<char>) {
    (m.name@, m.root@)
}

/// Mounts, as the contracts see them.
pub open spec fn mounts_view(ms: Seq<WorkspaceMount>) -> Seq<(Seq<char>, Seq<char>)> {
    ms.map_values(|m: WorkspaceMount| mount_view(m))
}

/// The workspace roots one agent turn may address.
#[derive(Debug, Clone)]
pub struct ResolvedWorkspaces {
    /// The root plain relative paths resolve against, when one is configured.
    pub primary: Option<String>,
    /// Explicitly granted secondary roots.
    pub mounts: Vec<WorkspaceMount>,
    /// The shared notes root, available even when the agent's own workspace is
    /// isolated.
    pub notes_root: Option<String>,
}

fn copy_mount(m: &WorkspaceMount) -> (r: WorkspaceMount)
    ensures
        mount_view(r) == mount_view(*m),
{
    WorkspaceMount { name: m.name.as_str().to_owned(), root: m.root.as_str().to_owned() }
}

impl ResolvedWorkspaces {
    /// The mounts to hand the tool executor.
    pub fn mounts(&self) -> (r: Vec<WorkspaceMount>)
        ensures
            mounts_view(r@) == mounts_view(self.mounts@),
    {
        let mut out: Vec<WorkspaceMount> = Vec::new();
        let mut i: usize = 0;
        while i < self.mounts.len()
            invariant
                i <= self.mounts@.len(),
                mounts_view(out@) == mounts_view(self.mounts@.take(i as int)),
            decreases self.mounts@.len() - i,
        {
            let ghost prev = out@;
            out.push(copy_mount(&self.mounts[i]));
            assert(mounts_view(out@) =~= mounts_view(prev).push(mount_view(self.mounts@[i as int])));
            assert(mounts_view(self.mounts@.take(i as int + 1)) =~= mounts_view(self.mounts@.take(i as int)).push(
                mount_view(self.mounts@[i as int]),
            ));
            i = i + 1;
        }
        assert(self.mounts@.take(i as int) =~= self.mounts@);
        out
    }
}

/// Whether two paths are equal as `std::path::Path` compares them, by their
/// components.
pub uninterp spec fn paths_equal(a: Seq<char>, b: Seq<char>) -> bool;

/// `<Path as PartialEq>::eq` from std on two paths given as text. The
/// contract only names the result.
#[verifier::external_body]
fn same_path(a: &str, b: &str) -> (r: bool)
    ensures
        r == paths_equal(a@, b@),
{
    std::path::Path::new(a) == std::path::Path::new(b)
}

/// Whether attachment paths, which are relative to the conversation
/// workspace, address the same root as the agent's plain relative paths: only
/// when its primary workspace is the conversation workspace.
pub open spec fn access_spec(primary: Option<Seq<char>>, conversation_root: Option<Seq<char>>) -> AttachmentAccess {
    match (primary, conversation_root) {
        (Some(p), Some(c)) => if paths_equal(p, c) {
            AttachmentAccess::Readable
        } else {
            AttachmentAccess::Unreachable
        },
        _ => AttachmentAccess::Unreachable,
    }
}

/// The optional text a contract sees.
pub open spec fn opt_text(s: Option<&str>) -> Option<Seq<char>> {
    match s {
        Some(t) => Some(t@),
        None => None,
    }
}

/// Whether the agent can read the conversation workspace that attachment
/// paths are relative to.
pub fn attachment_access(primary: Option<&str>, conversation_root: Option<&str>) -> (r: AttachmentAccess)
    ensures
        r == access_spec(opt_text(primary), opt_text(conversation_root)),
{
    match (primary, conversation_root) {
        (Some(p), Some(c)) => if same_path(p, c) {
            AttachmentAccess::Readable
        } else {
            AttachmentAccess::Unreachable
        },
        _ => AttachmentAccess::Unreachable,
    }
}

/// The lowercase hexadecimal digit of `d`.
pub open spec fn hex_digit(d: nat) -> char {
    if d < 10 {
        ((d + 48) as u32) as char
    } else {
        ((d + 87) as u32) as char
    }
}

/// The last `k` hexadecimal digits of `n`, most significant first.
pub open spec fn hex_digits(n: nat, k: nat) -> Seq<char>
    decreases k,
{
    if k == 0 {
        Seq::empty()
    } else {
        hex_digits(n / 16, (k - 1) as nat).push(hex_digit(n % 16))
    }
}

fn push_hex(out: &mut String, n: u64, k: usize)
    ensures
        final(out)@ == old(out)@ + hex_digits(n as nat, k as nat),
    decreases k,
{
    if k > 0 {
        push_hex(out, n / 16, k - 1);
        let d = n % 16;
        let c: char = if d < 10 { ((d + 48) as u8) as char } else { ((d + 87) as u8) as char };
        assert(c == hex_digit(d as nat));
        push_char(out, c);
    }
}

/// `n` as sixteen lowercase hexadecimal digits.
pub fn hex16(n: u64) -> (r: String)
    ensures
        r@ == hex_digits(n as nat, 16),
{
    let mut out = String::new();
    push_hex(&mut out, n, 16);
    out
}

/// The writes `<String as Hash>::hash` makes into a hasher for the text `s`:
/// its bytes, then a terminating byte. The writes depend on the text alone.
pub uninterp spec fn brief_writes(s: Seq<char>) -> Seq<Seq<u8>>;

/// `<String as Hash>::hash` from std, feeding a brief into a hasher: the
/// hasher's writes grow by the brief's writes, which the contract names.
#[verifier::external_body]
fn hash_brief(brief: &String, state: &mut DefaultHasher)
    ensures
        final(state)@ == old(state)@ + brief_writes(brief@),
{
    brief.hash(state)
}

/// A fingerprint of the brief an external agent is given: the hash std's
/// default hasher (unseeded) gives the sanitized brief, as sixteen
/// hexadecimal digits. Equal briefs give equal fingerprints.
pub fn acp_context_hash(system_prompt: &str) -> (r: String)
    ensures
        r@ == hex_digits(
            DefaultHasher::spec_finish(brief_writes(sanitized_brief(system_prompt@))) as nat,
            16,
        ),
{
    let brief = sanitize_acp_agent_brief(system_prompt);
    let mut hasher = DefaultHasher::new();
    hash_brief(&brief, &mut hasher);
    let h = hasher.finish();
    hex16(h)
}

/// The name the prompt gives a workspace mode: in a direct chat the group
/// workspace is the conversation's.
pub open spec fn mode_label(mode: WorkspaceMode, mode_name: Seq<char>, direct_chat: bool) -> Seq<char> {
    if direct_chat {
        match mode {
            WorkspaceMode::Group => "conversation"@,
            WorkspaceMode::GroupAndSelf => "conversation_and_self"@,
            WorkspaceMode::SelfOnly => "self"@,
        }
    } else {
        mode_name
    }
}

/// The lines describing each mount.
pub open spec fn mount_lines(mounts: Seq<(Seq<char>, Seq<char>)>, self_mount: Seq<char>) -> Seq<char>
    decreases mounts.len(),
{
    if mounts.len() == 0 {
        Seq::empty()
    } else {
        let m = mounts.last();
        mount_lines(mounts.drop_last(), self_mount) + "\n- mount "@ + m.0 + "/"@ + (if m.0 == self_mount {
            " (your own workspace)"@
        } else {
            Seq::empty()
        }) + ": "@ + m.1
    }
}

/// The workspace section of a system prompt: which root plain relative paths
/// address, what else is mounted and how to address it, and where the shell
/// runs.
pub open spec fn workspace_section(
    label: Seq<char>,
    group_workspace: bool,
    direct_chat: bool,
    primary: Option<Seq<char>>,
    mounts: Seq<(Seq<char>, Seq<char>)>,
    self_mount: Seq<char>,
) -> Seq<char> {
    match primary {
        None => "Workspace:\n- mode: "@ + label
            + "\n- source: none\n- location: not configured\nNo workspace is configured, so file and shell tools are unavailable this turn."@,
        Some(p) => "Workspace:\n- mode: "@ + label + "\n- source: "@ + (if group_workspace {
            if direct_chat {
                "conversation"@
            } else {
                "group"@
            }
        } else {
            "agent"@
        }) + "\n- primary (plain relative paths resolve here): "@ + p + (if mounts.len() == 0 {
            "\n- mounts: none"@
        } else {
            mount_lines(mounts, self_mount) + "\nAddress a mounted file by keeping its prefix, e.g. `Read` with path `"@
                + mounts[0].0
                + "/notes.md`. Glob and Grep return mounted matches with the same prefix. Bash runs in the primary root only and cannot reach mounts."@
        }),
    }
}

/// Render the workspace section of a system prompt. `mode_name` is the
/// mode's stored name, `group_workspace` whether the mode uses the group
/// workspace, and `self_mount_name` the name the agent's own workspace is
/// mounted under.
pub fn render_workspace_section(
    mode: WorkspaceMode,
    mode_name: &str,
    group_workspace: bool,
    direct_chat: bool,
    primary: Option<&str>,
    mounts: &[WorkspaceMount],
    self_mount_name: &str,
) -> (r: String)
    ensures
        r@ == workspace_section(
            mode_label(mode, mode_name@, direct_chat),
            group_workspace,
            direct_chat,
            opt_text(primary),
            mounts_view(mounts@),
            self_mount_name@,
        ),
{
    let label: &str = if direct_chat {
        match mode {
            WorkspaceMode::Group => "conversation",
            WorkspaceMode::GroupAndSelf => "conversation_and_self",
            WorkspaceMode::SelfOnly => "self",
        }
    } else {
        mode_name
    };
    let mut out = "Workspace:\n- mode: ".to_owned();
    out.append(label);
    let root = match primary {
        Some(p) => p,
        None => {
            out.append(
                "\n- source: none\n- location: not configured\nNo workspace is configured, so file and shell tools are unavailable this turn.",
            );
            return out;
        },
    };
    out.append("\n- source: ");
    out.append(if group_workspace {
        if direct_chat {
            "conversation"
        } else {
            "group"
        }
    } else {
        "agent"
    });
    out.append("\n- primary (plain relative paths resolve here): ");
    out.append(root);
    if mounts.len() == 0 {
        out.append("\n- mounts: none");
        return out;
    }
    let ghost head = out@;
    let mut i: usize = 0;
    while i < mounts.len()
        invariant
            i <= mounts@.len(),
            out@ == head + mount_lines(mounts_view(mounts@.take(i as int)), self_mount_name@),
        decreases mounts@.len() - i,
    {
        assert(mounts_view(mounts@.take(i as int + 1)).drop_last() =~= mounts_view(mounts@.take(i as int)));
        assert(mounts_view(mounts@.take(i as int + 1)).last() == mount_view(mounts@[i as int]));
        out.append("\n- mount ");
        out.append(mounts[i].name.as_str());
        out.append("/");
        if same_text(mounts[i].name.as_str(), self_mount_name) {
            out.append(" (your own workspace)");
        }
        out.append(": ");
        out.append(mounts[i].root.as_str());
        i = i + 1;
    }
    assert(mounts@.take(i as int) =~= mounts@);
    out.append("\nAddress a mounted file by keeping its prefix, e.g. `Read` with path `");
    out.append(mounts[0].name.as_str());
    out.append(
        "/notes.md`. Glob and Grep return mounted matches with the same prefix. Bash runs in the primary root only and cannot reach mounts.",
    );
    out
}

/// Whether a mode addresses the group's workspace.
pub open spec fn uses_group(mode: WorkspaceMode) -> bool {
    mode == WorkspaceMode::Group || mode == WorkspaceMode::GroupAndSelf
}

impl WorkspaceMode {
    /// Whether this mode addresses the group's workspace.
    pub fn uses_group_workspace(self) -> (r: bool)
        ensures
            r == uses_group(self),
    {
        match self {
            WorkspaceMode::Group | WorkspaceMode::GroupAndSelf => true,
            WorkspaceMode::SelfOnly => false,
        }
    }
}

/// The name a workspace of the agent's own is mounted under.
pub open spec fn own_mount_name(id: Seq<char>) -> Seq<char> {
    "~ws-"@ + id
}

/// The agent's own workspaces from the `from`-th on, each mounted under its
/// own name; the first of them is mounted as the agent's own workspace when
/// `self_first` holds.
pub open spec fn own_mounts(
    roots: Seq<(Seq<char>, Seq<char>)>,
    self_first: bool,
    self_mount_name: Seq<char>,
) -> Seq<(Seq<char>, Seq<char>)>
    decreases roots.len(),
{
    if roots.len() == 0 {
        Seq::empty()
    } else {
        let last = roots.last();
        let name = if roots.len() == 1 && self_first { self_mount_name } else { own_mount_name(last.0) };
        own_mounts(roots.drop_last(), self_first, self_mount_name).push((name, last.1))
    }
}

/// Where a turn's plain paths resolve and what it mounts, given the mode,
/// the conversation's bound root, the task's worktree, the agent's own
/// workspaces `(id, root)` in order, and the agent's configured workspace:
/// the group modes resolve against the task's worktree (else the bound
/// root); the isolated mode resolves against the agent's first workspace
/// and mounts the rest; the mixed mode also mounts every own workspace
/// (the configured one, when it comes first, under the self name), but
/// only when it has a group root.
pub open spec fn workspace_plan_spec(
    mode: WorkspaceMode,
    conversation_root: Option<Seq<char>>,
    task_worktree: Option<Seq<char>>,
    own_roots: Seq<(Seq<char>, Seq<char>)>,
    workspace_id: Option<Seq<char>>,
    self_mount_name: Seq<char>,
) -> (Option<Seq<char>>, Seq<(Seq<char>, Seq<char>)>) {
    let group_root = if uses_group(mode) {
        if task_worktree is Some { task_worktree } else { conversation_root }
    } else {
        None
    };
    match mode {
        WorkspaceMode::Group => (group_root, Seq::empty()),
        WorkspaceMode::SelfOnly => (
            if own_roots.len() > 0 { Some(own_roots[0].1) } else { None },
            if own_roots.len() > 0 { own_mounts(own_roots.drop_first(), false, self_mount_name) } else { Seq::empty() },
        ),
        WorkspaceMode::GroupAndSelf => (
            group_root,
            if group_root is Some {
                own_mounts(
                    own_roots,
                    own_roots.len() > 0 && workspace_id == Some(own_roots[0].0),
                    self_mount_name,
                )
            } else {
                Seq::empty()
            },
        ),
    }
}

/// Own workspace roots, as the contracts see them.
pub open spec fn roots_view(roots: Seq<(String, String)>) -> Seq<(Seq<char>, Seq<char>)> {
    roots.map_values(|r: (String, String)| (r.0@, r.1@))
}

fn owned_text(o: Option<&str>) -> (r: Option<String>)
    ensures
        match opt_text(o) {
            Some(t) => r matches Some(s) && s@ == t,
            None => r is None,
        },
{
    match o {
        Some(t) => Some(t.to_owned()),
        None => None,
    }
}

fn mounts_of(
    roots: &[(String, String)],
    from: usize,
    self_first: bool,
    self_mount_name: &str,
) -> (r: Vec<WorkspaceMount>)
    requires
        from <= roots@.len(),
    ensures
        mounts_view(r@) == own_mounts(roots_view(roots@).subrange(from as int, roots@.len() as int), self_first, self_mount_name@),
{
    let ghost all = roots_view(roots@).subrange(from as int, roots@.len() as int);
    let mut out: Vec<WorkspaceMount> = Vec::new();
    let mut i: usize = from;
    while i < roots.len()
        invariant
            from <= i <= roots@.len(),
            all == roots_view(roots@).subrange(from as int, roots@.len() as int),
            mounts_view(out@) == own_mounts(all.take(i - from), self_first, self_mount_name@),
        decreases roots@.len() - i,
    {
        assert(all.take(i - from + 1).drop_last() =~= all.take(i - from));
        assert(all.take(i - from + 1).last() == (roots@[i as int].0@, roots@[i as int].1@));
        let name = if i == from && self_first {
            self_mount_name.to_owned()
        } else {
            let mut n = "~ws-".to_owned();
            n.append(roots[i].0.as_str());
            n
        };
        let ghost prev = out@;
        out.push(WorkspaceMount { name: name, root: roots[i].1.clone() });
        assert(mounts_view(out@) =~= mounts_view(prev).push(mount_view(out@.last())));
        i = i + 1;
    }
    assert(all.take(i - from) =~= all);
    out
}

/// Decide where a turn's plain paths resolve and what it mounts (see
/// `workspace_plan_spec`). The task's worktree only matters to the group
/// modes, and the own roots only to the others.
pub fn workspace_plan(
    mode: WorkspaceMode,
    conversation_root: Option<&str>,
    task_worktree: Option<&str>,
    own_roots: &[(String, String)],
    workspace_id: Option<&str>,
    self_mount_name: &str,
) -> (r: (Option<String>, Vec<WorkspaceMount>))
    ensures
        ({
            let (p, m) = workspace_plan_spec(
                mode,
                opt_text(conversation_root),
                opt_text(task_worktree),
                roots_view(own_roots@),
                opt_text(workspace_id),
                self_mount_name@,
            );
            &&& match p {
                Some(t) => r.0 matches Some(s) && s@ == t,
                None => r.0 is None,
            }
            &&& mounts_view(r.1@) == m
        }),
{
    let group_root = if mode.uses_group_workspace() {
        match task_worktree {
            Some(t) => Some(t.to_owned()),
            None => owned_text(conversation_root),
        }
    } else {
        None
    };
    match mode {
        WorkspaceMode::Group => {
            let none: Vec<WorkspaceMount> = Vec::new();
            assert(mounts_view(none@) =~= Seq::empty());
            (group_root, none)
        },
        WorkspaceMode::SelfOnly => {
            if own_roots.len() == 0 {
                let none: Vec<WorkspaceMount> = Vec::new();
                assert(mounts_view(none@) =~= Seq::empty());
                (None, none)
            } else {
                let mounts = mounts_of(own_roots, 1, false, self_mount_name);
                assert(roots_view(own_roots@).subrange(1, own_roots@.len() as int) =~= roots_view(own_roots@).drop_first());
                (Some(own_roots[0].1.clone()), mounts)
            }
        },
        WorkspaceMode::GroupAndSelf => {
            if group_root.is_none() {
                let none: Vec<WorkspaceMount> = Vec::new();
                assert(mounts_view(none@) =~= Seq::empty());
                return (group_root, none);
            }
            let self_first = own_roots.len() > 0 && match workspace_id {
                Some(id) => same_text(id, own_roots[0].0.as_str()),
                None => false,
            };
            let mounts = mounts_of(own_roots, 0, self_first, self_mount_name);
            assert(roots_view(own_roots@).subrange(0, own_roots@.len() as int) =~= roots_view(own_roots@));
            (group_root, mounts)
        },
    }
}

} // verus!
