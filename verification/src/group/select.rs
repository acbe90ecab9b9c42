use vstd::prelude::*;

use crate::text::{chars_of, lowercase, same_text, to_lowercase};
use crate::scheduler::mentions::{is_name_char, name_char};
use crate::group::routing::Candidate;

verus! {

/// Whether `name` follows the `@` at `index` and ends at a name boundary.
pub open spec fn follows_at(chars: Seq<char>, lower: Seq<char>, name: Seq<char>, index: int) -> bool {
    let end = index + 1 + name.len();
    &&& end <= lower.len()
    &&& lower.subrange(index + 1, end) == name
    &&& !(end != chars.len() && name_char(chars[end]))
}

/// Among the first `n` names, the longest that follows the `@` at `index`,
/// the earliest of equally long ones.
pub open spec fn longest_at(chars: Seq<char>, lower: Seq<char>, names: Seq<Seq<char>>, index: int, n: int) -> Option<int>
    decreases n,
{
    if n <= 0 {
        None
    } else {
        let prev = longest_at(chars, lower, names, index, n - 1);
        if follows_at(chars, lower, names[n - 1], index) && (prev is None || names[n - 1].len() > names[prev->0].len()) {
            Some(n - 1)
        } else {
            prev
        }
    }
}

pub proof fn lemma_longest_at(chars: Seq<char>, lower: Seq<char>, names: Seq<Seq<char>>, index: int, n: int)
    ensures
        longest_at(chars, lower, names, index, n) matches Some(k) ==> 0 <= k < n && follows_at(chars, lower, names[k], index),
    decreases n,
{
    if n > 0 {
        lemma_longest_at(chars, lower, names, index, n - 1);
    }
}

/// The candidate indices mentioned from `index` on, in textual order,
/// repeats included.
pub open spec fn mentioned_from(chars: Seq<char>, lower: Seq<char>, names: Seq<Seq<char>>, index: int) -> Seq<int>
    decreases chars.len() - index,
{
    if index < 0 || index >= chars.len() {
        Seq::empty()
    } else if chars[index] != '@' {
        mentioned_from(chars, lower, names, index + 1)
    } else {
        match longest_at(chars, lower, names, index, names.len() as int) {
            Some(k) => {
                let next = index + 1 + names[k].len();
                seq![k] + if next < chars.len() {
                    mentioned_from(chars, lower, names, next)
                } else {
                    Seq::empty()
                }
            },
            None => mentioned_from(chars, lower, names, index + 1),
        }
    }
}

/// `s` with every repeat of an earlier element removed.
pub open spec fn first_occurrences(s: Seq<int>) -> Seq<int>
    decreases s.len(),
{
    if s.len() == 0 {
        Seq::empty()
    } else if first_occurrences(s.drop_last()).contains(s.last()) {
        first_occurrences(s.drop_last())
    } else {
        first_occurrences(s.drop_last()).push(s.last())
    }
}

/// The lowercase display names of the candidates.
pub open spec fn lower_names(cs: Seq<Candidate>) -> Seq<Seq<char>> {
    cs.map_values(|c: Candidate| lowercase(c.display_name@))
}

/// The candidates `text` mentions, by index, in textual order, each once.
pub open spec fn mentions_of(text: Seq<char>, cs: Seq<Candidate>) -> Seq<int> {
    if cs.len() == 0 {
        Seq::empty()
    } else {
        first_occurrences(mentioned_from(text, lowercase(text), lower_names(cs), 0))
    }
}

/// Whether no name that follows an `@` runs past the end of the text. Only
/// when lowercasing makes the text longer can a name seem to, and the scan
/// would then read past the text's last character.
pub open spec fn mentions_in_bounds(text: Seq<char>, cs: Seq<Candidate>) -> bool {
    forall|i: int, k: int|
        #![trigger text[i], lower_names(cs)[k]]
        0 <= i < text.len() && 0 <= k < cs.len() && text[i] == '@' && i + 1 + lower_names(cs)[k].len() <= lowercase(
            text,
        ).len() && lowercase(text).subrange(i + 1, i + 1 + lower_names(cs)[k].len()) == lower_names(cs)[k] ==> i + 1
            + lower_names(cs)[k].len() <= text.len()
}

fn equal_at(hay: &[char], start: usize, needle: &[char]) -> (r: bool)
    requires
        start + needle@.len() <= hay@.len(),
    ensures
        r == (hay@.subrange(start as int, start + needle@.len()) == needle@),
{
    let hay_len = hay.len();
    let mut k: usize = 0;
    while k < needle.len()
        invariant
            k <= needle@.len(),
            hay_len == hay@.len(),
            start + needle@.len() <= hay@.len(),
            forall|j: int| 0 <= j < k ==> hay@[start + j] == needle@[j],
        decreases needle@.len() - k,
    {
        if hay[start + k] != needle[k] {
            assert(hay@.subrange(start as int, start + needle@.len())[k as int] != needle@[k as int]);
            return false;
        }
        k = k + 1;
    }
    assert(hay@.subrange(start as int, start + needle@.len()) =~= needle@);
    true
}

fn contains_index(v: &Vec<usize>, x: usize) -> (r: bool)
    ensures
        r == v@.map_values(|i: usize| i as int).contains(x as int),
{
    let ghost view = v@.map_values(|i: usize| i as int);
    let mut i: usize = 0;
    while i < v.len()
        invariant
            i <= v@.len(),
            view == v@.map_values(|i: usize| i as int),
            forall|k: int| 0 <= k < i ==> view[k] != x as int,
        decreases v@.len() - i,
    {
        if v[i] == x {
            assert(view[i as int] == x as int);
            return true;
        }
        i = i + 1;
    }
    false
}

/// The candidates `text` `@mentions`, by index, in textual order, each once.
/// At each `@` the longest matching display name wins, compared without case,
/// and it must end at a name boundary.
pub fn scan_mentions(text: &str, candidates: &[Candidate]) -> (r: Vec<usize>)
    requires
        mentions_in_bounds(text@, candidates@),
    ensures
        r@.map_values(|i: usize| i as int) == mentions_of(text@, candidates@),
{
    if candidates.len() == 0 {
        let empty: Vec<usize> = Vec::new();
        assert(empty@.map_values(|i: usize| i as int) =~= Seq::<int>::empty());
        return empty;
    }
    let ghost nl = lower_names(candidates@);
    let mut names: Vec<Vec<char>> = Vec::new();
    let mut c: usize = 0;
    while c < candidates.len()
        invariant
            c <= candidates@.len(),
            nl == lower_names(candidates@),
            names@.len() == c,
            forall|j: int| 0 <= j < c ==> #[trigger] names@[j]@ == nl[j],
        decreases candidates@.len() - c,
    {
        let lowered = to_lowercase(candidates[c].display_name.as_str());
        names.push(chars_of(lowered.as_str()));
        c = c + 1;
    }
    let chars = chars_of(text);
    let lowered_text = to_lowercase(text);
    let lower = chars_of(lowered_text.as_str());
    let ghost cs = chars@;
    let ghost ls = lower@;
    let n = chars.len();
    let lower_len = lower.len();
    let mut out: Vec<usize> = Vec::new();
    let ghost mut acc: Seq<int> = Seq::empty();
    let mut i: usize = 0;
    while i < n
        invariant
            n == cs.len(),
            cs == chars@,
            cs == text@,
            ls == lower@,
            ls == lowercase(text@),
            lower_len == ls.len(),
            nl == lower_names(candidates@),
            names@.len() == nl.len(),
            nl.len() == candidates@.len(),
            forall|j: int| 0 <= j < names@.len() ==> #[trigger] names@[j]@ == nl[j],
            mentions_in_bounds(text@, candidates@),
            acc + mentioned_from(cs, ls, nl, i as int) == mentioned_from(cs, ls, nl, 0),
            out@.map_values(|x: usize| x as int) == first_occurrences(acc),
            forall|k: int| 0 <= k < acc.len() ==> 0 <= #[trigger] acc[k] < nl.len(),
        decreases n - i,
    {
        if chars[i] != '@' {
            i = i + 1;
            continue;
        }
        let mut best: Option<usize> = None;
        let mut j: usize = 0;
        while j < names.len()
            invariant
                j <= names@.len(),
                i < n,
                n == cs.len(),
                cs == chars@,
                cs == text@,
                ls == lower@,
                ls == lowercase(text@),
                lower_len == ls.len(),
                nl == lower_names(candidates@),
                names@.len() == nl.len(),
                nl.len() == candidates@.len(),
                chars@[i as int] == '@',
                mentions_in_bounds(text@, candidates@),
                forall|q: int| 0 <= q < names@.len() ==> #[trigger] names@[q]@ == nl[q],
                match longest_at(cs, ls, nl, i as int, j as int) {
                    Some(b) => best == Some(b as usize),
                    None => best is None,
                },
                best matches Some(b) ==> b < j,
            decreases names@.len() - j,
        {
            assert(names@[j as int]@ == nl[j as int]);
            proof {
                lemma_longest_at(cs, ls, nl, i as int, j as int);
            }
            let ghost prev_best = longest_at(cs, ls, nl, i as int, j as int);
            let name = names[j].as_slice();
            let fits = i + 1 <= lower_len && name.len() <= lower_len - (i + 1);
            let mut matched = false;
            if fits {
                let end = i + 1 + name.len();
                if equal_at(lower.as_slice(), i + 1, name) {
                    assert(end <= n);
                    matched = !(end != n && is_name_char(chars[end]));
                }
            }
            assert(matched == follows_at(cs, ls, nl[j as int], i as int));
            let longer = match best {
                None => true,
                Some(b) => {
                    assert(names@[b as int]@ == nl[b as int]);
                    name.len() > names[b].len()
                },
            };
            assert(longer == (prev_best is None || nl[j as int].len() > nl[prev_best->0].len()));
            if matched && longer {
                best = Some(j);
            }
            j = j + 1;
        }
        proof {
            lemma_longest_at(cs, ls, nl, i as int, nl.len() as int);
        }
        match best {
            Some(b) => {
                assert(names@[b as int]@ == nl[b as int]);
                let ghost before = out@.map_values(|x: usize| x as int);
                if !contains_index(&out, b) {
                    out.push(b);
                    assert(out@.map_values(|x: usize| x as int) =~= before.push(b as int));
                }
                proof {
                    let next = i + 1 + nl[b as int].len();
                    assert(acc.push(b as int).drop_last() =~= acc);
                    assert(mentioned_from(cs, ls, nl, n as int) =~= Seq::<int>::empty());
                    assert(acc + mentioned_from(cs, ls, nl, i as int) =~= acc.push(b as int) + mentioned_from(
                        cs,
                        ls,
                        nl,
                        if next < n { next } else { n as int },
                    ));
                    acc = acc.push(b as int);
                }
                let next = i + 1 + names[b].len();
                i = if next < n { next } else { n };
            },
            None => {
                i = i + 1;
            },
        }
    }
    proof {
        assert(acc + mentioned_from(cs, ls, nl, i as int) =~= acc);
    }
    out
}

/// Whether every name that follows an `@` ends within the text.
pub fn mentions_within_text(text: &str, candidates: &[Candidate]) -> (r: bool)
    ensures
        r == mentions_in_bounds(text@, candidates@),
{
    let ghost nl = lower_names(candidates@);
    let mut names: Vec<Vec<char>> = Vec::new();
    let mut c: usize = 0;
    while c < candidates.len()
        invariant
            c <= candidates@.len(),
            nl == lower_names(candidates@),
            names@.len() == c,
            forall|j: int| 0 <= j < c ==> #[trigger] names@[j]@ == nl[j],
        decreases candidates@.len() - c,
    {
        let lowered = to_lowercase(candidates[c].display_name.as_str());
        names.push(chars_of(lowered.as_str()));
        c = c + 1;
    }
    let chars = chars_of(text);
    let lowered_text = to_lowercase(text);
    let lower = chars_of(lowered_text.as_str());
    let n = chars.len();
    let lower_len = lower.len();
    let mut i: usize = 0;
    while i < n
        invariant
            n == text@.len(),
            chars@ == text@,
            lower@ == lowercase(text@),
            lower_len == lower@.len(),
            nl == lower_names(candidates@),
            names@.len() == candidates@.len(),
            nl.len() == candidates@.len(),
            forall|j: int| 0 <= j < names@.len() ==> #[trigger] names@[j]@ == nl[j],
            i <= n,
            forall|a: int, k: int|
                #![trigger text@[a], nl[k]]
                0 <= a < i && 0 <= k < candidates@.len() && text@[a] == '@' && a + 1 + nl[k].len() <= lower@.len()
                    && lower@.subrange(a + 1, a + 1 + nl[k].len()) == nl[k] ==> a + 1 + nl[k].len() <= text@.len(),
        decreases n - i,
    {
        if chars[i] == '@' {
            let mut k: usize = 0;
            while k < names.len()
                invariant
                    k <= names@.len(),
                    i < n,
                    n == text@.len(),
                    chars@ == text@,
                    chars@[i as int] == '@',
                    lower@ == lowercase(text@),
                    lower_len == lower@.len(),
                    nl == lower_names(candidates@),
                    names@.len() == candidates@.len(),
                    nl.len() == candidates@.len(),
                    forall|j: int| 0 <= j < names@.len() ==> #[trigger] names@[j]@ == nl[j],
                    forall|q: int|
                        #![trigger nl[q]]
                        0 <= q < k && i + 1 + nl[q].len() <= lower@.len() && lower@.subrange(
                            i + 1,
                            i + 1 + nl[q].len(),
                        ) == nl[q] ==> i + 1 + nl[q].len() <= text@.len(),
                decreases names@.len() - k,
            {
                assert(names@[k as int]@ == nl[k as int]);
                let name = names[k].as_slice();
                if i + 1 <= lower_len && name.len() <= lower_len - (i + 1) {
                    if equal_at(lower.as_slice(), i + 1, name) && i + 1 + name.len() > n {
                        assert(text@[i as int] == '@');
                        assert(lower@.subrange(i + 1, i + 1 + nl[k as int].len()) == nl[k as int]);
                        assert(!(i + 1 + nl[k as int].len() <= text@.len()));
                        return false;
                    }
                }
                k = k + 1;
            }
        }
        i = i + 1;
    }
    true
}

proof fn lemma_mentioned_from_bounds(chars: Seq<char>, lower: Seq<char>, names: Seq<Seq<char>>, index: int)
    ensures
        forall|a: int| 0 <= a < mentioned_from(chars, lower, names, index).len() ==> 0 <= #[trigger] mentioned_from(
            chars,
            lower,
            names,
            index,
        )[a] < names.len(),
    decreases chars.len() - index,
{
    if !(index < 0 || index >= chars.len()) {
        if chars[index] != '@' {
            lemma_mentioned_from_bounds(chars, lower, names, index + 1);
            assert(mentioned_from(chars, lower, names, index) == mentioned_from(chars, lower, names, index + 1));
        } else {
            lemma_longest_at(chars, lower, names, index, names.len() as int);
            match longest_at(chars, lower, names, index, names.len() as int) {
                Some(k) => {
                    let next = index + 1 + names[k].len();
                    if next < chars.len() {
                        lemma_mentioned_from_bounds(chars, lower, names, next);
                    }
                    let rest = if next < chars.len() {
                        mentioned_from(chars, lower, names, next)
                    } else {
                        Seq::<int>::empty()
                    };
                    assert(mentioned_from(chars, lower, names, index) == seq![k] + rest);
                    assert forall|a: int| 0 <= a < (seq![k] + rest).len() implies 0 <= #[trigger] (seq![k] + rest)[a] < names.len() by {
                        if a > 0 {
                            assert((seq![k] + rest)[a] == rest[a - 1]);
                        }
                    }
                },
                None => {
                    lemma_mentioned_from_bounds(chars, lower, names, index + 1);
                    assert(mentioned_from(chars, lower, names, index) == mentioned_from(chars, lower, names, index + 1));
                },
            }
        }
    }
}

proof fn lemma_first_occurrences(s: Seq<int>)
    ensures
        forall|a: int, b: int| 0 <= a < b < first_occurrences(s).len() ==> #[trigger] first_occurrences(s)[a] != #[trigger] first_occurrences(s)[b],
        forall|a: int| 0 <= a < first_occurrences(s).len() ==> s.contains(#[trigger] first_occurrences(s)[a]),
    decreases s.len(),
{
    if s.len() > 0 {
        let init = s.drop_last();
        lemma_first_occurrences(init);
        let f = first_occurrences(init);
        assert forall|a: int| 0 <= a < first_occurrences(s).len() implies s.contains(#[trigger] first_occurrences(s)[a]) by {
            if a < f.len() {
                assert(first_occurrences(s)[a] == f[a]);
                let k = choose|k: int| 0 <= k < init.len() && init[k] == f[a];
                assert(s[k] == init[k]);
            } else {
                assert(s[s.len() - 1] == s.last());
            }
        }
    }
}

/// Whether a candidate joins a free-speech turn: not one that only answers
/// explicit mentions, is muted, or only speaks when asked by hand.
pub open spec fn joins_freely(c: Candidate) -> bool {
    c.response_mode@ != "explicit_only"@ && c.response_mode@ != "muted"@ && c.response_mode@ != "manual_only"@
}

/// The candidates that join a free-speech turn, in order.
pub open spec fn free_speakers(cs: Seq<Candidate>) -> Seq<Candidate>
    decreases cs.len(),
{
    if cs.len() == 0 {
        Seq::empty()
    } else if joins_freely(cs.last()) {
        free_speakers(cs.drop_last()).push(cs.last())
    } else {
        free_speakers(cs.drop_last())
    }
}

/// Who answers `text`: the mentioned candidates in mention order when it
/// mentions any; otherwise everyone who joins freely in a free-speech or
/// proactive group; otherwise nobody.
pub open spec fn selection(cs: Seq<Candidate>, text: Seq<char>, free_speech: bool, proactive_mode: bool) -> Seq<Candidate> {
    if text.contains('@') && mentions_of(text, cs).len() > 0 {
        mentions_of(text, cs).map_values(|i: int| cs[i])
    } else if free_speech || proactive_mode {
        free_speakers(cs)
    } else {
        Seq::empty()
    }
}

fn placeholder() -> (r: Candidate)
    ensures
        r.agent_id@.len() == 0,
        r.owner_id@.len() == 0,
        r.display_name@.len() == 0,
        r.system_prompt@.len() == 0,
        r.runtime_kind@.len() == 0,
        r.provider_id is None,
        r.model_config_json is None,
        r.tool_config_json is None,
        r.external_runtime_json is None,
        r.skill_ids_json is None,
        r.workspace_id is None,
        !r.is_system,
        r.response_mode@.len() == 0,
        r.topology_role is None,
        r.speaking_order is None,
{
    Candidate {
        agent_id: String::new(),
        owner_id: String::new(),
        display_name: String::new(),
        system_prompt: String::new(),
        runtime_kind: String::new(),
        provider_id: None,
        model_config_json: None,
        tool_config_json: None,
        external_runtime_json: None,
        skill_ids_json: None,
        workspace_id: None,
        is_system: false,
        response_mode: String::new(),
        topology_role: None,
        speaking_order: None,
    }
}

fn take_candidate(v: &mut Vec<Candidate>, i: usize) -> (r: Candidate)
    requires
        i < old(v)@.len(),
    ensures
        r == old(v)@[i as int],
        final(v)@.len() == old(v)@.len(),
        forall|j: int| 0 <= j < old(v)@.len() && j != i ==> final(v)@[j] == old(v)@[j],
{
    let mut c = placeholder();
    std::mem::swap(&mut c, &mut v[i]);
    c
}

fn contains_at_sign(text: &str) -> (r: bool)
    ensures
        r == text@.contains('@'),
{
    let v = chars_of(text);
    let mut i: usize = 0;
    while i < v.len()
        invariant
            i <= v@.len(),
            v@ == text@,
            forall|k: int| 0 <= k < i ==> v@[k] != '@',
        decreases v@.len() - i,
    {
        if v[i] == '@' {
            return true;
        }
        i = i + 1;
    }
    false
}

/// Pick the responders for `text`: explicit mentions win; otherwise a
/// free-speech or proactive group fans out to everyone who joins freely;
/// otherwise nobody.
pub fn select_agents(candidates: Vec<Candidate>, text: &str, free_speech: bool, proactive_mode: bool) -> (r: Vec<Candidate>)
    requires
        text@.contains('@') ==> mentions_in_bounds(text@, candidates@),
    ensures
        r@ == selection(candidates@, text@, free_speech, proactive_mode),
{
    let ghost cs = candidates@;
    let mut candidates = candidates;
    if contains_at_sign(text) {
        let mentioned = scan_mentions(text, candidates.as_slice());
        let ghost m = mentions_of(text@, cs);
        if mentioned.len() > 0 {
            proof {
                let all = mentioned_from(text@, lowercase(text@), lower_names(cs), 0);
                lemma_first_occurrences(all);
                lemma_mentioned_from_bounds(text@, lowercase(text@), lower_names(cs), 0);
                assert forall|a: int| 0 <= a < m.len() implies 0 <= #[trigger] m[a] < cs.len() by {
                    assert(all.contains(m[a]));
                    let k = choose|k: int| 0 <= k < all.len() && all[k] == m[a];
                    assert(0 <= all[k] < lower_names(cs).len());
                }
            }
            assert(cs.len() > 0);
            let mut out: Vec<Candidate> = Vec::new();
            let mut j: usize = 0;
            while j < mentioned.len()
                invariant
                    j <= mentioned@.len(),
                    mentioned@.map_values(|x: usize| x as int) == m,
                    m == mentions_of(text@, cs),
                    candidates@.len() == cs.len(),
                    forall|a: int, b: int| 0 <= a < b < m.len() ==> #[trigger] m[a] != #[trigger] m[b],
                    forall|a: int| 0 <= a < m.len() ==> 0 <= #[trigger] m[a] < cs.len(),
                    forall|a: int| j <= a < m.len() ==> #[trigger] candidates@[m[a]] == cs[m[a]],
                    out@ == m.take(j as int).map_values(|i: int| cs[i]),
                decreases mentioned@.len() - j,
            {
                let index = mentioned[j];
                assert(m[j as int] == index as int);
                let c = take_candidate(&mut candidates, index);
                let ghost prev = out@;
                out.push(c);
                assert(out@ =~= m.take(j as int + 1).map_values(|i: int| cs[i]));
                j = j + 1;
            }
            assert(m.take(j as int) =~= m);
            return out;
        }
    }
    if free_speech || proactive_mode {
        let n = candidates.len();
        let mut out: Vec<Candidate> = Vec::new();
        let mut i: usize = 0;
        while i < n
            invariant
                n == cs.len(),
                candidates@.len() == n,
                i <= n,
                forall|k: int| i <= k < n ==> #[trigger] candidates@[k] == cs[k],
                out@ == free_speakers(cs.take(i as int)),
            decreases n - i,
        {
            assert(cs.take(i as int + 1).drop_last() =~= cs.take(i as int));
            let c = take_candidate(&mut candidates, i);
            let joins = !same_text(c.response_mode.as_str(), "explicit_only") && !same_text(
                c.response_mode.as_str(),
                "muted",
            ) && !same_text(c.response_mode.as_str(), "manual_only");
            if joins {
                out.push(c);
            }
            i = i + 1;
        }
        assert(cs.take(i as int) =~= cs);
        return out;
    }
    Vec::new()
}

/// Pick the responders for `text`, or `None` when some mentioned name would
/// run past the end of the text (which only a text whose lowercase form is
/// longer than itself can make happen).
pub fn select_responders(candidates: Vec<Candidate>, text: &str, free_speech: bool, proactive_mode: bool) -> (r: Option<
    Vec<Candidate>,
>)
    ensures
        match r {
            Some(v) => (text@.contains('@') ==> mentions_in_bounds(text@, candidates@)) && v@ == selection(
                candidates@,
                text@,
                free_speech,
                proactive_mode,
            ),
            None => text@.contains('@') && !mentions_in_bounds(text@, candidates@),
        },
{
    if contains_at_sign(text) && !mentions_within_text(text, candidates.as_slice()) {
        return None;
    }
    Some(select_agents(candidates, text, free_speech, proactive_mode))
}

} // verus!
