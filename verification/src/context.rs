use vstd::prelude::*;

use crate::text::{
    chars_of, chars_range, is_blank, join_lines, push_char, push_signed_decimal, signed_decimal, split_lines,
    split_lines_exec, string_from_chars, trim_chars, trim_spec,
};
use crate::compaction::checklist::{find_chars, find_from};
use crate::compaction::message::ChatMessage;

verus! {

/// A file shared in a conversation, by its path inside the conversation
/// workspace.
#[derive(Debug, Clone, PartialEq, Eq)]
pub struct ConversationAttachment {
    pub id: String,
    pub path: String,
    pub name: String,
    pub mime_type: String,
    pub size: i64,
}

/// Whether the agent being prompted can read the conversation workspace that
/// attachment paths are relative to.
#[derive(Debug, Clone, Copy, PartialEq, Eq, Structural)]
pub enum AttachmentAccess {
    /// The conversation workspace is addressable; the path is rendered.
    Readable,
    /// The agent runs elsewhere; the attachment is rendered as metadata only.
    Unreachable,
}

/// Who said something in a conversation.
#[derive(Debug, Clone, PartialEq, Eq)]
pub enum ConversationActor {
    Human { id: String, display_name: String },
    Agent { id: String, display_name: String },
}

/// A rendered conversation, and for each input row the index of the message
/// carrying its own text, when it produced one.
pub struct RenderedConversation {
    pub messages: Vec<ChatMessage>,
    pub message_index_by_row: Vec<Option<usize>>,
}

/// `value`, unless it is missing or blank.
pub fn non_empty(value: Option<String>) -> (r: Option<String>)
    ensures
        r == (match value {
            Some(v) => if trim_spec(v@).len() > 0 {
                Some(v)
            } else {
                None
            },
            None => None,
        }),
{
    match value {
        Some(v) => if is_blank(v.as_str()) {
            None
        } else {
            Some(v)
        },
        None => None,
    }
}

/// The name to show for an actor: its id, or `unknown` when it has none.
pub fn fallback_display_name(id: &str, unknown: &str) -> (r: String)
    ensures
        r@ == (if id@.len() == 0 { unknown@ } else { id@ }),
{
    if id.is_empty() {
        unknown.to_owned()
    } else {
        id.to_owned()
    }
}

/// The escape of one character for XML text and attributes.
pub open spec fn escape_char(c: char) -> Seq<char> {
    if c == '&' {
        "&amp;"@
    } else if c == '<' {
        "&lt;"@
    } else if c == '>' {
        "&gt;"@
    } else if c == '"' {
        "&quot;"@
    } else if c == '\'' {
        "&apos;"@
    } else {
        seq![c]
    }
}

/// `s` with the five XML special characters escaped.
pub open spec fn escaped(s: Seq<char>) -> Seq<char>
    decreases s.len(),
{
    if s.len() == 0 {
        Seq::empty()
    } else {
        escaped(s.drop_last()) + escape_char(s.last())
    }
}

/// Escaped text holds no angle bracket and no quote, so it can neither close
/// nor open an element, nor end an attribute, of the envelope around it.
pub proof fn lemma_escaped_text_cannot_break_out(s: Seq<char>)
    ensures
        forall|k: int|
            0 <= k < escaped(s).len() ==> escaped(s)[k] != '<' && escaped(s)[k] != '>' && escaped(s)[k] != '"'
                && escaped(s)[k] != '\'',
    decreases s.len(),
{
    reveal_strlit("&amp;");
    reveal_strlit("&lt;");
    reveal_strlit("&gt;");
    reveal_strlit("&quot;");
    reveal_strlit("&apos;");
    if s.len() > 0 {
        lemma_escaped_text_cannot_break_out(s.drop_last());
        let head = escaped(s.drop_last());
        let tail = escape_char(s.last());
        assert forall|k: int| 0 <= k < escaped(s).len() implies escaped(s)[k] != '<' && escaped(s)[k] != '>'
            && escaped(s)[k] != '"' && escaped(s)[k] != '\'' by {
            if k >= head.len() {
                assert(escaped(s)[k] == tail[k - head.len()]);
            } else {
                assert(escaped(s)[k] == head[k]);
            }
        }
    }
}

/// Escape `text` for XML text and attributes.
pub fn escape_xml(text: &str) -> (r: String)
    ensures
        r@ == escaped(text@),
{
    let v = chars_of(text);
    let mut out = String::new();
    let mut i: usize = 0;
    while i < v.len()
        invariant
            i <= v@.len(),
            v@ == text@,
            out@ == escaped(v@.take(i as int)),
        decreases v@.len() - i,
    {
        assert(v@.take(i as int + 1).drop_last() =~= v@.take(i as int));
        let c = v[i];
        if c == '&' {
            out.append("&amp;");
        } else if c == '<' {
            out.append("&lt;");
        } else if c == '>' {
            out.append("&gt;");
        } else if c == '"' {
            out.append("&quot;");
        } else if c == '\'' {
            out.append("&apos;");
        } else {
            push_char(&mut out, c);
        }
        i = i + 1;
    }
    assert(v@.take(i as int) =~= v@);
    out
}

/// The reference to one attachment a prompt carries.
pub open spec fn attachment_reference(a: ConversationAttachment, access: AttachmentAccess) -> Seq<char> {
    let image = a.mime_type@.len() >= 6 && a.mime_type@.take(6) == "image/"@;
    let common = "name=\""@ + escaped(a.name@) + "\" mime_type=\""@ + escaped(a.mime_type@) + "\" size=\""@
        + signed_decimal(a.size as int) + "\""@;
    match access {
        AttachmentAccess::Unreachable => "<workspace-attachment "@ + common + " accessible=\"false\">"@ + if image {
            "This image was shared in the conversation workspace, which your isolated workspace cannot address. Judge it only from a separately supplied native image input; never infer its content from this metadata."@
        } else {
            "This file lives in the conversation workspace, which your isolated workspace cannot address. Do not guess its contents; say you cannot read it, or ask for it to be shared another way."@
        } + "</workspace-attachment>"@,
        AttachmentAccess::Readable => "<workspace-attachment "@ + common + " path=\""@ + escaped(a.path@) + "\">"@ + if image {
            "Image pixels are not represented by this metadata. Make visual or OCR claims only from a separately supplied native image input; never infer image content from its name, path, or metadata."@
        } else {
            "Use workspace tools to read this file when its contents are needed."@
        } + "</workspace-attachment>"@,
    }
}

/// Render one attachment. An unreachable one carries no path: it means
/// something only inside the conversation workspace.
pub fn render_attachment_reference(attachment: &ConversationAttachment, access: AttachmentAccess) -> (r: String)
    ensures
        r@ == attachment_reference(*attachment, access),
{
    let mime = chars_of(attachment.mime_type.as_str());
    let image = mime.len() >= 6 && mime[0] == 'i' && mime[1] == 'm' && mime[2] == 'a' && mime[3] == 'g' && mime[4] == 'e'
        && mime[5] == '/';
    proof {
        reveal_strlit("image/");
        if mime@.len() >= 6 && mime@.take(6) == "image/"@ {
            assert(mime@.take(6)[0] == mime@[0]);
            assert(mime@.take(6)[1] == mime@[1]);
            assert(mime@.take(6)[2] == mime@[2]);
            assert(mime@.take(6)[3] == mime@[3]);
            assert(mime@.take(6)[4] == mime@[4]);
            assert(mime@.take(6)[5] == mime@[5]);
        }
        if image {
            assert(mime@.take(6) =~= "image/"@);
        }
    }
    let mut out = "<workspace-attachment ".to_owned();
    let ghost start = out@;
    out.append("name=\"");
    out.append(escape_xml(attachment.name.as_str()).as_str());
    out.append("\" mime_type=\"");
    out.append(escape_xml(attachment.mime_type.as_str()).as_str());
    out.append("\" size=\"");
    push_signed_decimal(&mut out, attachment.size);
    out.append("\"");
    let ghost common = "name=\""@ + escaped(attachment.name@) + "\" mime_type=\""@ + escaped(attachment.mime_type@)
        + "\" size=\""@ + signed_decimal(attachment.size as int) + "\""@;
    assert(out@ =~= start + common);
    match access {
        AttachmentAccess::Unreachable => {
            out.append(" accessible=\"false\">");
            if image {
                out.append(
                    "This image was shared in the conversation workspace, which your isolated workspace cannot address. Judge it only from a separately supplied native image input; never infer its content from this metadata.",
                );
            } else {
                out.append(
                    "This file lives in the conversation workspace, which your isolated workspace cannot address. Do not guess its contents; say you cannot read it, or ask for it to be shared another way.",
                );
            }
        },
        AttachmentAccess::Readable => {
            out.append(" path=\"");
            out.append(escape_xml(attachment.path.as_str()).as_str());
            out.append("\">");
            if image {
                out.append(
                    "Image pixels are not represented by this metadata. Make visual or OCR claims only from a separately supplied native image input; never infer image content from its name, path, or metadata.",
                );
            } else {
                out.append("Use workspace tools to read this file when its contents are needed.");
            }
        },
    }
    out.append("</workspace-attachment>");
    assert(out@ =~= attachment_reference(*attachment, access));
    out
}

/// The references of a list of attachments, one per line.
pub open spec fn references(attachments: Seq<ConversationAttachment>, access: AttachmentAccess) -> Seq<char>
    decreases attachments.len(),
{
    if attachments.len() == 0 {
        Seq::empty()
    } else if attachments.len() == 1 {
        attachment_reference(attachments[0], access)
    } else {
        references(attachments.drop_last(), access) + "\n"@ + attachment_reference(attachments.last(), access)
    }
}

/// The attachment block appended to a message: nothing without attachments,
/// otherwise the references inside a workspace-attachments element.
pub open spec fn attachment_block(attachments: Seq<ConversationAttachment>, access: AttachmentAccess) -> Seq<char> {
    if attachments.len() == 0 {
        Seq::empty()
    } else {
        "\n<workspace-attachments>\n"@ + references(attachments, access) + "\n</workspace-attachments>"@
    }
}

/// Render the attachments of a message.
pub fn render_attachment_references(attachments: &[ConversationAttachment], access: AttachmentAccess) -> (r: String)
    ensures
        r@ == attachment_block(attachments@, access),
{
    if attachments.len() == 0 {
        return String::new();
    }
    let mut out = "\n<workspace-attachments>\n".to_owned();
    let ghost head = out@;
    let mut i: usize = 0;
    while i < attachments.len()
        invariant
            i <= attachments@.len(),
            out@ == head + references(attachments@.take(i as int), access),
        decreases attachments@.len() - i,
    {
        assert(attachments@.take(i as int + 1).drop_last() =~= attachments@.take(i as int));
        if i > 0 {
            out.append("\n");
        }
        let entry = render_attachment_reference(&attachments[i], access);
        out.append(entry.as_str());
        i = i + 1;
        assert(out@ =~= head + references(attachments@.take(i as int), access));
    }
    assert(attachments@.take(i as int) =~= attachments@);
    out.append("\n</workspace-attachments>");
    out
}

/// `line` without one trailing carriage return.
pub open spec fn strip_cr(line: Seq<char>) -> Seq<char> {
    if line.len() > 0 && line.last() == '\r' {
        line.drop_last()
    } else {
        line
    }
}

/// The lines of `s` as `str::lines` yields them: split at newlines, a
/// carriage return before a newline dropped, and no empty line after a
/// final newline.
pub open spec fn std_lines(s: Seq<char>) -> Seq<Seq<char>> {
    let pieces = split_lines(s);
    let n = pieces.len() as int;
    let kept = if pieces.last().len() == 0 { pieces.drop_last() } else { pieces };
    Seq::new(kept.len(), |i: int| if i < n - 1 { strip_cr(kept[i]) } else { kept[i] })
}

/// Whether `pat` occurs in `s`.
pub open spec fn contains_text(s: Seq<char>, pat: Seq<char>) -> bool {
    find_from(s, pat, 0) is Some
}

/// Whether `s` begins with `p`.
pub open spec fn starts_with(s: Seq<char>, p: Seq<char>) -> bool {
    s.len() >= p.len() && s.take(p.len() as int) == p
}

/// The lines of an agent brief that survive, from `k` on: system reminder
/// blocks and the host's own tool-list lines are dropped.
pub open spec fn brief_lines(lines: Seq<Seq<char>>, k: int, in_reminder: bool) -> Seq<Seq<char>>
    decreases lines.len() - k,
{
    if k < 0 || k >= lines.len() {
        Seq::empty()
    } else {
        let t = trim_spec(lines[k]);
        if contains_text(t, "<system-reminder"@) {
            brief_lines(lines, k + 1, !contains_text(t, "</system-reminder>"@))
        } else if in_reminder {
            brief_lines(lines, k + 1, !contains_text(t, "</system-reminder>"@))
        } else if starts_with(t, "Enabled provider-native tools:"@) || t
            == "Only provider-native tool calls listed above may execute. Literal XML or pseudo-tool text is not executable tool work."@ {
            brief_lines(lines, k + 1, in_reminder)
        } else {
            seq![lines[k]] + brief_lines(lines, k + 1, in_reminder)
        }
    }
}

/// An agent's system prompt as a brief for an external agent: without system
/// reminders or the host's tool-list lines, trimmed.
pub open spec fn sanitized_brief(s: Seq<char>) -> Seq<char> {
    trim_spec(join_lines(brief_lines(std_lines(s), 0, false)))
}

pub(crate) fn text_contains(s: &[char], pat: &str) -> (r: bool)
    ensures
        r == contains_text(s@, pat@),
{
    let p = chars_of(pat);
    find_chars(s, p.as_slice()).is_some()
}

fn text_starts_with(s: &[char], p: &str) -> (r: bool)
    ensures
        r == starts_with(s@, p@),
{
    let q = chars_of(p);
    if s.len() < q.len() {
        return false;
    }
    let head = chars_range(s, 0, q.len());
    assert(head@ =~= s@.take(q@.len() as int));
    crate::text::chars_eq(head.as_slice(), q.as_slice())
}

/// Strip an agent's system prompt down to the brief an external agent is
/// given.
pub fn sanitize_acp_agent_brief(system_prompt: &str) -> (r: String)
    ensures
        r@ == sanitized_brief(system_prompt@),
{
    let v = chars_of(system_prompt);
    let pieces = split_lines_exec(v.as_slice());
    let ghost ps = split_lines(v@);
    proof {
        crate::text::lemma_split_lines_nonempty(v@);
    }
    let n = pieces.len();
    let kept_len = if pieces[n - 1].len() == 0 { n - 1 } else { n };
    let ghost lines = std_lines(v@);
    assert(lines.len() == kept_len);
    let mut out: Vec<Vec<char>> = Vec::new();
    let mut in_reminder = false;
    let mut k: usize = 0;
    while k < kept_len
        invariant
            n == ps.len(),
            n >= 1,
            kept_len <= n,
            lines == std_lines(v@),
            lines.len() == kept_len,
            ps == split_lines(v@),
            pieces@.len() == n,
            forall|j: int| 0 <= j < n ==> #[trigger] pieces@[j]@ == ps[j],
            k <= kept_len,
            out@.map_values(|l: Vec<char>| l@) + brief_lines(lines, k as int, in_reminder) == brief_lines(lines, 0, false),
        decreases kept_len - k,
    {
        let piece = pieces[k].as_slice();
        let line: Vec<char> = if k + 1 < n && piece.len() > 0 && piece[piece.len() - 1] == '\r' {
            chars_range(piece, 0, piece.len() - 1)
        } else {
            chars_range(piece, 0, piece.len())
        };
        assert(line@ == lines[k as int]) by {
            assert(piece@ == ps[k as int]);
            if kept_len < n {
                assert(ps.drop_last()[k as int] == ps[k as int]);
            }
            if k + 1 < n && piece@.len() > 0 && piece@.last() == '\r' {
                assert(line@ =~= piece@.drop_last());
            } else {
                assert(line@ =~= piece@);
            }
        }
        let t = trim_chars(line.as_slice());
        let ghost before = out@.map_values(|l: Vec<char>| l@);
        let ghost was = in_reminder;
        if text_contains(t.as_slice(), "<system-reminder") {
            in_reminder = !text_contains(t.as_slice(), "</system-reminder>");
        } else if in_reminder {
            in_reminder = !text_contains(t.as_slice(), "</system-reminder>");
        } else if text_starts_with(t.as_slice(), "Enabled provider-native tools:") || crate::text::chars_eq(
            t.as_slice(),
            chars_of(
                "Only provider-native tool calls listed above may execute. Literal XML or pseudo-tool text is not executable tool work.",
            ).as_slice(),
        ) {
        } else {
            out.push(line);
            assert(out@.map_values(|l: Vec<char>| l@) =~= before.push(lines[k as int]));
        }
        assert(brief_lines(lines, k as int, was) == (if contains_text(trim_spec(lines[k as int]), "<system-reminder"@) {
            brief_lines(lines, k + 1, !contains_text(trim_spec(lines[k as int]), "</system-reminder>"@))
        } else if was {
            brief_lines(lines, k + 1, !contains_text(trim_spec(lines[k as int]), "</system-reminder>"@))
        } else if starts_with(trim_spec(lines[k as int]), "Enabled provider-native tools:"@) || trim_spec(lines[k as int])
            == "Only provider-native tool calls listed above may execute. Literal XML or pseudo-tool text is not executable tool work."@ {
            brief_lines(lines, k + 1, was)
        } else {
            seq![lines[k as int]] + brief_lines(lines, k + 1, was)
        }));
        k = k + 1;
    }
    assert(brief_lines(lines, k as int, in_reminder) =~= Seq::<Seq<char>>::empty());
    let joined = crate::text::join_lines_exec(&out);
    let jv = chars_of(joined.as_str());
    let trimmed = trim_chars(jv.as_slice());
    string_from_chars(trimmed.as_slice())
}

} // verus!
