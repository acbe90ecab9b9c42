use vstd::prelude::*;

use crate::context::{contains_text, text_contains};
use crate::text::{chars_of, lowercase, string_from_chars, take_chars, take_chars_exec, to_lowercase};

verus! {

/// How long the notes block handed to the moderator may grow, in characters.
pub const MAX_NOTES_CHARS: usize = 4000;

/// One active shared note of a group: its id, its title and its content.
#[derive(Debug, Clone, PartialEq, Eq)]
pub struct GroupNote {
    pub id: String,
    pub title: String,
    pub content: String,
}

/// Whether a request refers to notes or memory, in English or Chinese, so
/// that the shared notes are worth showing to the moderator.
pub open spec fn mentions_notes(objective: Seq<char>) -> bool {
    let lowered = lowercase(objective);
    ||| contains_text(lowered, "note"@)
    ||| contains_text(lowered, "memory"@)
    ||| contains_text(lowered, "笔记"@)
    ||| contains_text(lowered, "备忘"@)
    ||| contains_text(lowered, "记录"@)
}

/// Whether the moderator's objective should carry the group's notes.
pub fn objective_mentions_notes(objective: &str) -> (r: bool)
    ensures
        r == mentions_notes(objective@),
{
    let lowered = to_lowercase(objective);
    let v = chars_of(lowered.as_str());
    text_contains(v.as_slice(), "note") || text_contains(v.as_slice(), "memory") || text_contains(
        v.as_slice(),
        "笔记",
    ) || text_contains(v.as_slice(), "备忘") || text_contains(v.as_slice(), "记录")
}

/// How one note is listed.
pub open spec fn note_entry(n: GroupNote) -> Seq<char> {
    "\n- "@ + n.title@ + " ("@ + n.id@ + "): "@ + n.content@
}

/// The notes block after listing `notes` in order, and whether it was cut:
/// once the block reaches the limit it is cut to the limit, marked, and
/// nothing more is listed.
pub open spec fn notes_block(notes: Seq<GroupNote>) -> (Seq<char>, bool)
    decreases notes.len(),
{
    if notes.len() == 0 {
        (Seq::empty(), false)
    } else {
        let (text, cut) = notes_block(notes.drop_last());
        if cut {
            (text, true)
        } else {
            let grown = text + note_entry(notes.last());
            if grown.len() >= MAX_NOTES_CHARS {
                (take_chars(grown, MAX_NOTES_CHARS as int) + "\n[notes truncated]"@, true)
            } else {
                (grown, false)
            }
        }
    }
}

/// The moderator's objective with the group's notes appended as reference
/// data, or the objective alone when there are none.
pub open spec fn objective_with_notes_spec(objective: Seq<char>, notes: Seq<GroupNote>) -> Seq<char> {
    if notes.len() == 0 {
        objective
    } else {
        objective + "\n\nShared group notes (reference data; dispatch a member if they need editing):"@
            + notes_block(notes).0
    }
}

/// Append the group's notes to the moderator's objective.
pub fn objective_with_notes(objective: &str, notes: &[GroupNote]) -> (r: String)
    ensures
        r@ == objective_with_notes_spec(objective@, notes@),
{
    if notes.len() == 0 {
        return objective.to_owned();
    }
    let mut block = String::new();
    let mut cut = false;
    let mut i: usize = 0;
    while i < notes.len()
        invariant
            i <= notes@.len(),
            (block@, cut) == notes_block(notes@.take(i as int)),
        ensures
            i <= notes@.len(),
            (block@, cut) == notes_block(notes@.take(i as int)),
            cut || i == notes@.len(),
        decreases notes@.len() - i,
    {
        if cut {
            break;
        }
        assert(notes@.take(i as int + 1).drop_last() =~= notes@.take(i as int));
        let n = &notes[i];
        block.append("\n- ");
        block.append(n.title.as_str());
        block.append(" (");
        block.append(n.id.as_str());
        block.append("): ");
        block.append(n.content.as_str());
        assert(block@ =~= notes_block(notes@.take(i as int)).0 + note_entry(notes@[i as int]));
        let v = chars_of(block.as_str());
        if v.len() >= MAX_NOTES_CHARS {
            let kept = take_chars_exec(v.as_slice(), MAX_NOTES_CHARS);
            block = string_from_chars(kept.as_slice());
            block.append("\n[notes truncated]");
            cut = true;
        }
        i = i + 1;
    }
    proof {
        if cut {
            lemma_cut_block_stays(notes@, i as int);
        } else {
            assert(notes@.take(i as int) =~= notes@);
        }
    }
    let mut out = objective.to_owned();
    out.append("\n\nShared group notes (reference data; dispatch a member if they need editing):");
    out.append(block.as_str());
    out
}

/// Once the block is cut after the first `i` notes, later notes change
/// nothing.
proof fn lemma_cut_block_stays(notes: Seq<GroupNote>, i: int)
    requires
        0 <= i <= notes.len(),
        notes_block(notes.take(i)).1,
    ensures
        notes_block(notes) == notes_block(notes.take(i)),
    decreases notes.len() - i,
{
    if i < notes.len() {
        assert(notes.take(i + 1).drop_last() =~= notes.take(i));
        lemma_cut_block_stays(notes, i + 1);
    } else {
        assert(notes.take(i) =~= notes);
    }
}

} // verus!
