use vstd::prelude::*;

use crate::text::chars_of;
use crate::compaction::message::{ChatMessage, ContentPart, MessageModel, ToolCall, models};

verus! {

/// Whether `c` is ASCII.
pub open spec fn is_ascii_char(c: char) -> bool {
    (c as u32) < 128
}

/// The number of ASCII characters in `s`.
pub open spec fn ascii_count(s: Seq<char>) -> int
    decreases s.len(),
{
    if s.len() == 0 {
        0
    } else {
        ascii_count(s.drop_last()) + if is_ascii_char(s.last()) { 1int } else { 0int }
    }
}

/// Estimated tokens of a run of text: four ASCII characters per token, one
/// token per other character.
pub open spec fn text_tokens(s: Seq<char>) -> int {
    ascii_count(s) / 4 + (s.len() - ascii_count(s))
}

proof fn lemma_ascii_count_bounds(s: Seq<char>)
    ensures
        0 <= ascii_count(s) <= s.len(),
    decreases s.len(),
{
    if s.len() > 0 {
        lemma_ascii_count_bounds(s.drop_last());
    }
}

/// `x` capped at the largest `i64`.
pub open spec fn cap_i64(x: int) -> int {
    if x > i64::MAX { i64::MAX as int } else { x }
}

/// `x` capped at the largest `u64`.
pub open spec fn cap_u64(x: int) -> int {
    if x > u64::MAX { u64::MAX as int } else { x }
}

fn to_i64_capped(x: u64) -> (r: i64)
    ensures
        r == cap_i64(x as int),
{
    if x > i64::MAX as u64 {
        i64::MAX
    } else {
        x as i64
    }
}

/// Token estimate of `text` as an unsigned count, capped at the largest `u64`.
fn text_tokens_u64(text: &str) -> (r: u64)
    ensures
        r == cap_u64(text_tokens(text@)),
        text_tokens(text@) >= 0,
{
    let v = chars_of(text);
    let mut ascii: usize = 0;
    let mut i: usize = 0;
    while i < v.len()
        invariant
            i <= v@.len(),
            ascii as int == ascii_count(v@.take(i as int)),
            ascii <= i,
        decreases v@.len() - i,
    {
        assert(v@.take(i as int + 1).drop_last() =~= v@.take(i as int));
        if (v[i] as u32) < 128 {
            ascii = ascii + 1;
        }
        i = i + 1;
    }
    assert(v@.take(i as int) =~= v@);
    let wide = v.len() - ascii;
    proof {
        lemma_ascii_count_bounds(v@);
    }
    let quarter = (ascii / 4) as u64;
    quarter.saturating_add(wide as u64)
}

/// Estimate the token cost of one run of text, counting ASCII at four
/// characters per token and every other character as a token of its own.
pub fn estimate_text_tokens(text: &str) -> (r: i64)
    ensures
        r == cap_i64(text_tokens(text@)),
{
    to_i64_capped(text_tokens_u64(text))
}


/// Estimated tokens of an inline image whose base64 text is `byte_len` long.
pub open spec fn image_tokens(byte_len: int) -> int {
    let decoded = byte_len * 3 / 4;
    let units = decoded / 600;
    if units < 85 { 85 } else if units > 1600 { 1600 } else { units }
}

/// Estimated tokens of one content part.
pub open spec fn part_tokens(p: ContentPart) -> int {
    match p {
        ContentPart::Text { text } => text_tokens(text@),
        ContentPart::Image { data_base64, .. } => image_tokens(data_base64@.len() as int),
    }
}

/// Estimated tokens of a list of content parts.
pub open spec fn parts_tokens(parts: Seq<ContentPart>) -> int
    decreases parts.len(),
{
    if parts.len() == 0 { 0 } else { parts_tokens(parts.drop_last()) + part_tokens(parts.last()) }
}

/// Estimated tokens of a list of tool calls: their names and arguments.
pub open spec fn calls_tokens(calls: Seq<ToolCall>) -> int
    decreases calls.len(),
{
    if calls.len() == 0 {
        0
    } else {
        calls_tokens(calls.drop_last()) + text_tokens(calls.last().name@) + text_tokens(calls.last().args@)
    }
}

/// Estimated tokens of an optional run of text.
pub open spec fn opt_tokens(s: Option<String>) -> int {
    match s {
        Some(t) => text_tokens(t@),
        None => 0,
    }
}

/// Estimated tokens of one message: framing, its text (from the parts when it
/// has any, so text is not counted twice), its calls, tool name and reasoning.
pub open spec fn message_tokens(m: MessageModel) -> int {
    8 + (if m.parts.len() == 0 { text_tokens(m.content) } else { parts_tokens(m.parts) }) + calls_tokens(m.tool_calls)
        + opt_tokens(m.tool_name) + opt_tokens(m.reasoning)
}

/// Estimated tokens of a list of messages.
pub open spec fn messages_tokens(ms: Seq<MessageModel>) -> int
    decreases ms.len(),
{
    if ms.len() == 0 { 0 } else { messages_tokens(ms.drop_last()) + message_tokens(ms.last()) }
}

proof fn lemma_text_tokens_nonneg(s: Seq<char>)
    ensures
        text_tokens(s) >= 0,
{
    lemma_ascii_count_bounds(s);
}

proof fn lemma_parts_tokens_nonneg(parts: Seq<ContentPart>)
    ensures
        parts_tokens(parts) >= 0,
    decreases parts.len(),
{
    if parts.len() > 0 {
        lemma_parts_tokens_nonneg(parts.drop_last());
        match parts.last() {
            ContentPart::Text { text } => lemma_text_tokens_nonneg(text@),
            _ => {},
        }
    }
}

proof fn lemma_calls_tokens_nonneg(calls: Seq<ToolCall>)
    ensures
        calls_tokens(calls) >= 0,
    decreases calls.len(),
{
    if calls.len() > 0 {
        lemma_calls_tokens_nonneg(calls.drop_last());
        lemma_text_tokens_nonneg(calls.last().name@);
        lemma_text_tokens_nonneg(calls.last().args@);
    }
}

proof fn lemma_message_tokens_nonneg(m: MessageModel)
    ensures
        message_tokens(m) >= 8,
{
    lemma_text_tokens_nonneg(m.content);
    lemma_parts_tokens_nonneg(m.parts);
    lemma_calls_tokens_nonneg(m.tool_calls);
    match m.tool_name {
        Some(t) => lemma_text_tokens_nonneg(t@),
        None => {},
    }
    match m.reasoning {
        Some(t) => lemma_text_tokens_nonneg(t@),
        None => {},
    }
}

pub proof fn lemma_messages_tokens_nonneg(ms: Seq<MessageModel>)
    ensures
        messages_tokens(ms) >= 0,
    decreases ms.len(),
{
    if ms.len() > 0 {
        lemma_messages_tokens_nonneg(ms.drop_last());
        lemma_message_tokens_nonneg(ms.last());
    }
}

fn add_capped(a: u64, b: u64) -> (r: u64)
    ensures
        r == cap_u64(a + b),
{
    a.saturating_add(b)
}

/// Estimate the token cost of one inline image from its base64 text: a coarse
/// proxy over the decoded size, bounded to what vision models bill. Base64 text
/// is ASCII, so its length in characters is its length in bytes.
pub fn estimate_image_tokens(data_base64: &str) -> (r: i64)
    ensures
        r == image_tokens(data_base64@.len() as int),
{
    let bytes = chars_of(data_base64).len();
    let decoded: u128 = (bytes as u128) * 3 / 4;
    let units = decoded / 600;
    if units < 85 {
        85
    } else if units > 1600 {
        1600
    } else {
        units as i64
    }
}

fn part_tokens_u64(p: &ContentPart) -> (r: u64)
    ensures
        r == cap_u64(part_tokens(*p)),
{
    match p {
        ContentPart::Text { text } => text_tokens_u64(text.as_str()),
        ContentPart::Image { data_base64, .. } => estimate_image_tokens(data_base64.as_str()) as u64,
    }
}

fn opt_tokens_u64(s: &Option<String>) -> (r: u64)
    ensures
        r == cap_u64(opt_tokens(*s)),
        opt_tokens(*s) >= 0,
{
    match s {
        Some(t) => text_tokens_u64(t.as_str()),
        None => 0,
    }
}

fn message_tokens_u64(m: &ChatMessage) -> (r: u64)
    ensures
        r == cap_u64(message_tokens(m@)),
{
    proof {
        lemma_message_tokens_nonneg(m@);
        lemma_parts_tokens_nonneg(m.parts@);
        lemma_calls_tokens_nonneg(m.tool_calls@);
    }
    let mut tokens: u64 = 8;
    if m.parts.len() == 0 {
        tokens = add_capped(tokens, text_tokens_u64(m.content.as_str()));
    } else {
        let mut sum: u64 = 0;
        let mut i: usize = 0;
        while i < m.parts.len()
            invariant
                i <= m.parts@.len(),
                sum == cap_u64(parts_tokens(m.parts@.take(i as int))),
            decreases m.parts@.len() - i,
        {
            assert(m.parts@.take(i as int + 1).drop_last() =~= m.parts@.take(i as int));
            proof {
                lemma_parts_tokens_nonneg(m.parts@.take(i as int));
                lemma_parts_tokens_nonneg(m.parts@.take(i as int + 1));
                match m.parts@[i as int] {
                    ContentPart::Text { text } => lemma_text_tokens_nonneg(text@),
                    _ => {},
                }
            }
            sum = add_capped(sum, part_tokens_u64(&m.parts[i]));
            i = i + 1;
        }
        assert(m.parts@.take(i as int) =~= m.parts@);
        tokens = add_capped(tokens, sum);
    }
    let mut calls: u64 = 0;
    let mut k: usize = 0;
    while k < m.tool_calls.len()
        invariant
            k <= m.tool_calls@.len(),
            calls == cap_u64(calls_tokens(m.tool_calls@.take(k as int))),
        decreases m.tool_calls@.len() - k,
    {
        assert(m.tool_calls@.take(k as int + 1).drop_last() =~= m.tool_calls@.take(k as int));
        proof {
            lemma_calls_tokens_nonneg(m.tool_calls@.take(k as int));
        }
        let name = text_tokens_u64(m.tool_calls[k].name.as_str());
        let args = text_tokens_u64(m.tool_calls[k].args.as_str());
        calls = add_capped(add_capped(calls, name), args);
        k = k + 1;
    }
    assert(m.tool_calls@.take(k as int) =~= m.tool_calls@);
    tokens = add_capped(tokens, calls);
    tokens = add_capped(tokens, opt_tokens_u64(&m.tool_name));
    tokens = add_capped(tokens, opt_tokens_u64(&m.reasoning_content));
    tokens
}

/// Estimate the token cost of one message.
pub fn estimate_message_tokens(message: &ChatMessage) -> (r: i64)
    ensures
        r == cap_i64(message_tokens(message@)),
{
    to_i64_capped(message_tokens_u64(message))
}

/// Estimated tokens of `messages[from..]`.
pub fn estimate_tokens_from(messages: &[ChatMessage], from: usize) -> (r: i64)
    requires
        from <= messages@.len(),
    ensures
        r == cap_i64(messages_tokens(models(messages@).subrange(from as int, messages@.len() as int))),
{
    let mut sum: u64 = 0;
    let mut i: usize = from;
    while i < messages.len()
        invariant
            from <= i <= messages@.len(),
            sum == cap_u64(messages_tokens(models(messages@).subrange(from as int, i as int))),
        decreases messages@.len() - i,
    {
        assert(models(messages@).subrange(from as int, i as int + 1).drop_last() =~= models(messages@).subrange(
            from as int,
            i as int,
        ));
        proof {
            lemma_messages_tokens_nonneg(models(messages@).subrange(from as int, i as int));
            lemma_message_tokens_nonneg(messages@[i as int]@);
        }
        sum = add_capped(sum, message_tokens_u64(&messages[i]));
        i = i + 1;
    }
    to_i64_capped(sum)
}

/// Estimate the token cost of `messages`: a heuristic, not a tokenizer.
pub fn estimate_tokens(messages: &[ChatMessage]) -> (r: i64)
    ensures
        r == cap_i64(messages_tokens(models(messages@))),
{
    assert(models(messages@).subrange(0, messages@.len() as int) =~= models(messages@));
    estimate_tokens_from(messages, 0)
}


/// One tool definition sent with every request; `input_schema` is the JSON
/// schema in its serialized form.
#[derive(Debug, Clone, PartialEq, Eq)]
pub struct ToolDefinition {
    pub name: String,
    pub description: String,
    pub input_schema: String,
}

/// Estimated tokens of one tool definition: framing, name, description and
/// schema.
pub open spec fn definition_tokens(t: ToolDefinition) -> int {
    8 + text_tokens(t.name@) + text_tokens(t.description@) + text_tokens(t.input_schema@)
}

/// Estimated tokens of a list of tool definitions.
pub open spec fn definitions_tokens(ts: Seq<ToolDefinition>) -> int
    decreases ts.len(),
{
    if ts.len() == 0 {
        0
    } else {
        definitions_tokens(ts.drop_last()) + definition_tokens(ts.last())
    }
}

proof fn lemma_definitions_tokens_nonneg(ts: Seq<ToolDefinition>)
    ensures
        definitions_tokens(ts) >= 0,
    decreases ts.len(),
{
    if ts.len() > 0 {
        lemma_definitions_tokens_nonneg(ts.drop_last());
        lemma_text_tokens_nonneg(ts.last().name@);
        lemma_text_tokens_nonneg(ts.last().description@);
        lemma_text_tokens_nonneg(ts.last().input_schema@);
    }
}

/// Estimate the token cost of the tool definitions sent with every request:
/// fixed for a turn, so it belongs in the limits rather than in the number
/// measured against them.
pub fn estimate_tool_schema_tokens(tools: &[ToolDefinition]) -> (r: i64)
    ensures
        r == cap_i64(definitions_tokens(tools@)),
{
    let mut sum: u64 = 0;
    let mut i: usize = 0;
    while i < tools.len()
        invariant
            i <= tools@.len(),
            sum == cap_u64(definitions_tokens(tools@.take(i as int))),
        decreases tools@.len() - i,
    {
        assert(tools@.take(i as int + 1).drop_last() =~= tools@.take(i as int));
        proof {
            lemma_definitions_tokens_nonneg(tools@.take(i as int));
            lemma_text_tokens_nonneg(tools@[i as int].name@);
            lemma_text_tokens_nonneg(tools@[i as int].description@);
            lemma_text_tokens_nonneg(tools@[i as int].input_schema@);
        }
        let name = text_tokens_u64(tools[i].name.as_str());
        let description = text_tokens_u64(tools[i].description.as_str());
        let schema = text_tokens_u64(tools[i].input_schema.as_str());
        sum = add_capped(add_capped(add_capped(add_capped(sum, 8), name), description), schema);
        i = i + 1;
    }
    assert(tools@.take(i as int) =~= tools@);
    to_i64_capped(sum)
}

} // verus!
