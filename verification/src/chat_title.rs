use vstd::prelude::*;

use crate::text::{
    char_is_whitespace, first_non_ws, last_non_ws_end, trim_end_spec,
    is_blank, same_text,
    chars_eq, chars_of, chars_range, collapse_whitespace, collapse_ws, string_from_chars, take_chars,
    take_chars_exec, trim_chars, trim_spec, trim_start_chars, trim_start_spec, lemma_first_non_ws,
    lemma_last_non_ws_end,
};

verus! {

/// Hard cap on a generated title, counted in characters rather than bytes so
/// CJK titles are not cut four times shorter than Latin ones.
pub const MAX_TITLE_CHARS: usize = 60;

/// `content` collapsed onto one line and capped at `max_chars` characters.
pub fn excerpt(content: &str, max_chars: usize) -> (r: String)
    ensures
        r@ == take_chars(collapse_ws(content@), max_chars as int),
{
    let normalized = collapse_whitespace(content);
    let capped = take_chars_exec(normalized.as_slice(), max_chars);
    string_from_chars(capped.as_slice())
}

/// The quote pairs a model wraps titles in.
pub open spec fn is_quote_pair(open: char, close: char) -> bool {
    ||| open == '"' && close == '"'
    ||| open == '\'' && close == '\''
    ||| open == '\u{201c}' && close == '\u{201d}'
    ||| open == '\u{2018}' && close == '\u{2019}'
    ||| open == '\u{300c}' && close == '\u{300d}'
    ||| open == '\u{300e}' && close == '\u{300f}'
    ||| open == '\u{300a}' && close == '\u{300b}'
}

/// `s` trimmed, with one layer of matched wrapping quotes removed.
pub open spec fn strip_quotes_spec(s: Seq<char>) -> Seq<char> {
    let t = trim_spec(s);
    if t.len() < 2 {
        t
    } else if is_quote_pair(t[0], t[t.len() - 1]) {
        trim_spec(t.subrange(1, t.len() - 1))
    } else {
        t
    }
}

/// The length of the title label `t` starts with: `title:` in any ASCII
/// case, or the Chinese label with a full-width or ASCII colon; zero if none.
pub open spec fn label_len(t: Seq<char>) -> int {
    if t.len() >= 6 && (t[0] == 't' || t[0] == 'T') && (t[1] == 'i' || t[1] == 'I') && (t[2] == 't'
        || t[2] == 'T') && (t[3] == 'l' || t[3] == 'L') && (t[4] == 'e' || t[4] == 'E') && t[5] == ':' {
        6
    } else if t.len() >= 3 && t[0] == '\u{6807}' && t[1] == '\u{9898}' && (t[2] == '\u{ff1a}' || t[2]
        == ':') {
        3
    } else {
        0
    }
}

/// `s` trimmed, with a leading title label (and the space after it) removed.
pub open spec fn strip_label_spec(s: Seq<char>) -> Seq<char> {
    let t = trim_spec(s);
    let n = label_len(t);
    if n > 0 {
        trim_start_spec(t.subrange(n, t.len() as int))
    } else {
        t
    }
}

/// One cleaning round: unwrap quotes, then drop a label.
pub open spec fn clean_round(s: Seq<char>) -> Seq<char> {
    strip_label_spec(strip_quotes_spec(s))
}

/// Up to `n` cleaning rounds, stopping once a round changes nothing.
pub open spec fn clean_rounds(s: Seq<char>, n: nat) -> Seq<char>
    decreases n,
{
    if n == 0 {
        s
    } else {
        let next = clean_round(s);
        if next == s {
            s
        } else {
            clean_rounds(next, (n - 1) as nat)
        }
    }
}

/// The bare title a raw model answer reduces to.
pub open spec fn sanitized_title(raw: Seq<char>) -> Seq<char> {
    trim_spec(take_chars(clean_rounds(collapse_ws(raw), 4), MAX_TITLE_CHARS as int))
}

/// A sanitized title never holds more than [`MAX_TITLE_CHARS`] characters,
/// whatever the model answered.
pub proof fn lemma_title_is_capped(raw: Seq<char>)
    ensures
        sanitized_title(raw).len() <= MAX_TITLE_CHARS,
{
    let capped = take_chars(clean_rounds(collapse_ws(raw), 4), MAX_TITLE_CHARS as int);
    assert(capped.len() <= MAX_TITLE_CHARS);
    let start = trim_start_spec(capped);
    lemma_first_non_ws(capped, 0);
    lemma_last_non_ws_end(start, start.len() as int);
}

/// One of the characters a title may be wrapped in.
pub open spec fn quote_char(c: char) -> bool {
    c == '"' || c == '\'' || c == '\u{201c}' || c == '\u{201d}' || c == '\u{2018}' || c == '\u{2019}'
        || c == '\u{300c}' || c == '\u{300d}' || c == '\u{300e}' || c == '\u{300f}' || c == '\u{300a}'
        || c == '\u{300b}'
}

proof fn lemma_trim_unspaced(s: Seq<char>)
    requires
        forall|k: int| 0 <= k < s.len() ==> !char_is_whitespace(#[trigger] s[k]),
    ensures
        trim_spec(s) == s,
        trim_start_spec(s) == s,
{
    lemma_first_non_ws(s, 0);
    assert(first_non_ws(s, 0) == s.len() || !char_is_whitespace(s[first_non_ws(s, 0)]));
    if s.len() > 0 {
        assert(first_non_ws(s, 0) == 0);
    }
    assert(trim_start_spec(s) =~= s);
    lemma_last_non_ws_end(s, s.len() as int);
    if s.len() > 0 {
        assert(last_non_ws_end(s, s.len() as int) == s.len());
    }
    assert(trim_end_spec(s) =~= s);
}

proof fn lemma_collapse_unspaced(s: Seq<char>)
    requires
        forall|k: int| 0 <= k < s.len() ==> !char_is_whitespace(#[trigger] s[k]),
    ensures
        collapse_ws(s) == s,
    decreases s.len(),
{
    if s.len() > 0 {
        let init = s.drop_last();
        assert forall|k: int| 0 <= k < init.len() implies !char_is_whitespace(#[trigger] init[k]) by {
            assert(init[k] == s[k]);
        }
        lemma_collapse_unspaced(init);
        assert(!char_is_whitespace(s[s.len() - 1]));
        if init.len() > 0 {
            assert(!char_is_whitespace(init[init.len() - 1]));
        }
        assert(init.push(s.last()) =~= s);
    }
}

proof fn lemma_plain_is_clean(t: Seq<char>)
    requires
        forall|k: int| 0 <= k < t.len() ==> !char_is_whitespace(#[trigger] t[k]) && !quote_char(t[k]),
        label_len(t) == 0,
    ensures
        clean_round(t) == t,
        forall|n: nat| #[trigger] clean_rounds(t, n) == t,
{
    lemma_trim_unspaced(t);
    if t.len() >= 2 {
        assert(!quote_char(t[0]));
    }
    assert(strip_quotes_spec(t) == t);
    assert(clean_round(t) == t);
    assert forall|n: nat| #[trigger] clean_rounds(t, n) == t by {
        if n > 0 {
            assert(clean_round(t) == t);
        }
    }
}

/// A title wrapped in any of the quote pairs models use (straight double and
/// single quotes, curly double and single quotes, 「」, 『』 and 《》) comes
/// back without them: for plain title text `t` (no whitespace, no quote
/// characters, no title label), the wrapped answer sanitizes to what `t`
/// sanitizes to, which is `t` capped.
pub proof fn lemma_wrapping_quotes_are_peeled(open: char, close: char, t: Seq<char>)
    requires
        (open == '"' && close == '"') || (open == '\'' && close == '\'') || (open == '\u{201c}' && close
            == '\u{201d}') || (open == '\u{2018}' && close == '\u{2019}') || (open == '\u{300c}' && close
            == '\u{300d}') || (open == '\u{300e}' && close == '\u{300f}') || (open == '\u{300a}' && close
            == '\u{300b}'),
        forall|k: int| 0 <= k < t.len() ==> !char_is_whitespace(#[trigger] t[k]) && !quote_char(t[k]),
        label_len(t) == 0,
    ensures
        sanitized_title(seq![open] + t + seq![close]) == sanitized_title(t),
        sanitized_title(t) == take_chars(t, MAX_TITLE_CHARS as int),
{
    let w = seq![open] + t + seq![close];
    assert(!char_is_whitespace(open) && !char_is_whitespace(close));
    assert forall|k: int| 0 <= k < w.len() implies !char_is_whitespace(#[trigger] w[k]) by {
        if 0 < k < w.len() - 1 {
            assert(w[k] == t[k - 1]);
        }
    }
    lemma_collapse_unspaced(w);
    lemma_collapse_unspaced(t);
    lemma_trim_unspaced(w);
    lemma_plain_is_clean(t);
    assert(w.subrange(1, w.len() - 1) =~= t);
    assert(w[0] == open && w[w.len() - 1] == close);
    assert(strip_quotes_spec(w) == t);
    assert(clean_round(w) == t);
    assert(w.len() != t.len());
    assert(clean_rounds(w, 4) == clean_rounds(t, 3));
    let capped = take_chars(t, MAX_TITLE_CHARS as int);
    assert forall|k: int| 0 <= k < capped.len() implies !char_is_whitespace(#[trigger] capped[k]) by {
        assert(capped[k] == t[k]);
    }
    lemma_trim_unspaced(capped);
}

/// Remove one layer of matched wrapping quotes.
pub fn strip_wrapping_quotes(input: &[char]) -> (r: Vec<char>)
    ensures
        r@ == strip_quotes_spec(input@),
{
    let trimmed = trim_chars(input);
    let n = trimmed.len();
    if n < 2 {
        return trimmed;
    }
    let first = trimmed[0];
    let last = trimmed[n - 1];
    let pair = (first == '"' && last == '"') || (first == '\'' && last == '\'') || (first == '\u{201c}'
        && last == '\u{201d}') || (first == '\u{2018}' && last == '\u{2019}') || (first == '\u{300c}'
        && last == '\u{300d}') || (first == '\u{300e}' && last == '\u{300f}') || (first == '\u{300a}'
        && last == '\u{300b}');
    if pair {
        let inner = chars_range(trimmed.as_slice(), 1, n - 1);
        trim_chars(inner.as_slice())
    } else {
        trimmed
    }
}

/// Remove a leading `Title:` label, matched without regard to ASCII case, or
/// its Chinese equivalent.
pub fn strip_title_label(input: &[char]) -> (r: Vec<char>)
    ensures
        r@ == strip_label_spec(input@),
{
    let t = trim_chars(input);
    let n = t.len();
    let label: usize = if n >= 6 && (t[0] == 't' || t[0] == 'T') && (t[1] == 'i' || t[1] == 'I') && (t[2]
        == 't' || t[2] == 'T') && (t[3] == 'l' || t[3] == 'L') && (t[4] == 'e' || t[4] == 'E') && t[5]
        == ':' {
        6
    } else if n >= 3 && t[0] == '\u{6807}' && t[1] == '\u{9898}' && (t[2] == '\u{ff1a}' || t[2] == ':') {
        3
    } else {
        0
    };
    if label > 0 {
        let rest = chars_range(t.as_slice(), label, n);
        trim_start_chars(rest.as_slice())
    } else {
        t
    }
}

/// Clean a model's answer down to bare title text: whitespace collapsed,
/// wrapping quotes and title labels peeled (at most four rounds), capped at
/// [`MAX_TITLE_CHARS`] characters and trimmed.
pub fn sanitize_title(raw: &str) -> (r: String)
    ensures
        r@ == sanitized_title(raw@),
{
    let mut current = collapse_whitespace(raw);
    let ghost start = current@;
    let mut round: usize = 0;
    while round < 4
        invariant
            round <= 4,
            clean_rounds(start, 4) == clean_rounds(current@, (4 - round) as nat),
        ensures
            clean_rounds(start, 4) == current@,
        decreases 4 - round,
    {
        let quoted = strip_wrapping_quotes(current.as_slice());
        let next = strip_title_label(quoted.as_slice());
        if chars_eq(next.as_slice(), current.as_slice()) {
            break;
        }
        current = next;
        round = round + 1;
    }
    let capped = take_chars_exec(current.as_slice(), MAX_TITLE_CHARS);
    let trimmed = trim_chars(capped.as_slice());
    string_from_chars(trimmed.as_slice())
}

/// How much of the opening message the naming request quotes, in characters.
pub const USER_EXCERPT_CHARS: usize = 2000;

/// Whether a direct chat gets a generated title: its title is still the
/// automatic one, it is a chat with an agent, the user has written exactly
/// one message and it is not blank, the agent belongs to the chat's owner,
/// and a provider is bound to ask. A manual name, a second message, an
/// external agent or a missing provider keeps the placeholder.
pub fn direct_title_eligible(
    title_source: &str,
    direct_agent_id: Option<&str>,
    user_messages: u64,
    opening: Option<&str>,
    agent_owner: Option<&str>,
    group_owner: &str,
    provider_bound: bool,
) -> (r: bool)
    ensures
        r == (title_source@ == "automatic"@ && direct_agent_id is Some && user_messages == 1 && (opening matches Some(
            m,
        ) && trim_spec(m@).len() > 0) && (agent_owner matches Some(o) && o@ == group_owner@) && provider_bound),
{
    if !same_text(title_source, "automatic") || direct_agent_id.is_none() || user_messages != 1 {
        return false;
    }
    let spoken = match opening {
        Some(m) => !is_blank(m),
        None => false,
    };
    let owned = match agent_owner {
        Some(o) => same_text(o, group_owner),
        None => false,
    };
    spoken && owned && provider_bound
}

/// The user message of the naming request: the opening message, collapsed
/// onto one line and capped.
pub fn title_prompt(user_content: &str) -> (r: String)
    ensures
        r@ == "First user message:\n"@ + take_chars(collapse_ws(user_content@), USER_EXCERPT_CHARS as int),
{
    let mut out = "First user message:\n".to_owned();
    out.append(excerpt(user_content, USER_EXCERPT_CHARS).as_str());
    out
}

/// The title a model's answer gives, once sanitized; `None` when nothing is
/// left of it.
pub fn accept_title(raw: &str) -> (r: Option<String>)
    ensures
        (r is Some) <==> sanitized_title(raw@).len() > 0,
        r matches Some(t) ==> t@ == sanitized_title(raw@),
{
    let title = sanitize_title(raw);
    if title.as_str().is_empty() {
        None
    } else {
        Some(title)
    }
}

} // verus!
