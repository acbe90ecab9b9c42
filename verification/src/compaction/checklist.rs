use vstd::prelude::*;

use crate::text::{
    char_is_whitespace, chars_of, chars_range, first_non_ws, join_lines, last_non_ws_end, lemma_join_concat,
    lemma_split_lines_nonempty,
    split_lines, split_lines_exec, string_from_range, trim_chars, trim_spec,
};
use crate::compaction::message::{
    ChatMessage, MessageModel, TodoItem, TodoStatus, items_view, lemma_status_label_round_trip, models, role_is, status_label, status_of_label,
};

verus! {

/// Opens a checklist restated inside a summary message.
pub const CHECKLIST_OPEN: &'static str = "<qunica-todo-checklist>";

/// Closes a checklist restated inside a summary message.
pub const CHECKLIST_CLOSE: &'static str = "</qunica-todo-checklist>";

/// The opening marker, as characters.
pub open spec fn checklist_open() -> Seq<char> {
    "<qunica-todo-checklist>"@
}

/// The closing marker, as characters.
pub open spec fn checklist_close() -> Seq<char> {
    "</qunica-todo-checklist>"@
}

/// The words between the opening marker and the items.
pub open spec fn checklist_note() -> Seq<char> {
    "\nThe checklist you were keeping when the messages above were compacted away. It is still current and still yours; call TodoWrite to change it.\n\n"@
}

/// One item as a line: `- [status] content`.
pub open spec fn item_line(item: (Seq<char>, TodoStatus)) -> Seq<char> {
    "- ["@ + status_label(item.1) + "] "@ + item.0
}

/// The block a model reads in place of a checklist tool result.
pub open spec fn rendered_checklist(items: Seq<(Seq<char>, TodoStatus)>) -> Seq<char> {
    checklist_open() + checklist_note() + join_lines(items.map_values(|i: (Seq<char>, TodoStatus)| item_line(i)))
        + "\n"@ + checklist_close()
}

/// The first index from `i` on where `pat` occurs in `s`.
pub open spec fn find_from(s: Seq<char>, pat: Seq<char>, i: int) -> Option<int>
    decreases s.len() + 1 - i,
{
    if i < 0 || i + pat.len() > s.len() {
        None
    } else if s.subrange(i, i + pat.len()) == pat {
        Some(i)
    } else {
        find_from(s, pat, i + 1)
    }
}

/// The item a line reads as: a trimmed line `- [status] content` with a
/// non-blank content, the content trimmed.
pub open spec fn parse_line(line: Seq<char>) -> Option<(Seq<char>, TodoStatus)> {
    let t = trim_spec(line);
    if t.len() >= 3 && t.take(3) == "- ["@ {
        let rest = t.skip(3);
        match find_from(rest, "] "@, 0) {
            Some(k) => {
                let content = trim_spec(rest.skip(k + 2));
                if content.len() > 0 {
                    Some((content, status_of_label(rest.take(k))))
                } else {
                    None
                }
            },
            None => None,
        }
    } else {
        None
    }
}

/// The items the lines read as, in order.
pub open spec fn parse_lines(lines: Seq<Seq<char>>) -> Seq<(Seq<char>, TodoStatus)>
    decreases lines.len(),
{
    if lines.len() == 0 {
        Seq::empty()
    } else {
        match parse_line(lines.last()) {
            Some(item) => parse_lines(lines.drop_last()).push(item),
            None => parse_lines(lines.drop_last()),
        }
    }
}

/// The checklist restated in `text`: the items between the first opening
/// marker and the first closing marker after it, if there are any.
pub open spec fn parse_spec(text: Seq<char>) -> Option<Seq<(Seq<char>, TodoStatus)>> {
    match find_from(text, checklist_open(), 0) {
        None => None,
        Some(a) => {
            let rest = text.skip(a + checklist_open().len());
            match find_from(rest, checklist_close(), 0) {
                None => None,
                Some(b) => {
                    let items = parse_lines(split_lines(rest.take(b)));
                    if items.len() > 0 {
                        Some(items)
                    } else {
                        None
                    }
                },
            }
        },
    }
}

proof fn lemma_find_from(s: Seq<char>, pat: Seq<char>, i: int)
    requires
        0 <= i,
    ensures
        find_from(s, pat, i) matches Some(k) ==> i <= k && k + pat.len() <= s.len() && s.subrange(k, k + pat.len())
            == pat,
    decreases s.len() + 1 - i,
{
    if !(i < 0 || i + pat.len() > s.len()) && s.subrange(i, i + pat.len()) != pat {
        lemma_find_from(s, pat, i + 1);
    }
}

/// The first index where `pat` occurs in `s`.
pub fn find_chars(s: &[char], pat: &[char]) -> (r: Option<usize>)
    ensures
        match find_from(s@, pat@, 0) {
            Some(k) => r matches Some(x) && x == k,
            None => r is None,
        },
{
    let n = s.len();
    let m = pat.len();
    if m > n {
        return None;
    }
    let mut i: usize = 0;
    loop
        invariant
            n == s@.len(),
            m == pat@.len(),
            m <= n,
            i <= n - m,
            find_from(s@, pat@, i as int) == find_from(s@, pat@, 0),
        decreases n - m - i,
    {
        let mut k: usize = 0;
        let mut same = true;
        assert(s@.subrange(i as int, i as int) =~= pat@.take(0));
        while k < m
            invariant
                n == s@.len(),
                m == pat@.len(),
                i + m <= n,
                k <= m,
                same == (s@.subrange(i as int, i + k) == pat@.take(k as int)),
            decreases m - k,
        {
            let ghost prev_same = same;
            if s[i + k] != pat[k] {
                same = false;
            }
            proof {
                let x = s@.subrange(i as int, i + k + 1);
                let y = pat@.take(k + 1);
                assert(x.take(k as int) =~= s@.subrange(i as int, i + k));
                assert(y.take(k as int) =~= pat@.take(k as int));
                assert(x[k as int] == s@[i + k]);
                assert(y[k as int] == pat@[k as int]);
                if same {
                    assert(x =~= y);
                } else if x == y {
                    assert(x.take(k as int) == y.take(k as int));
                    assert(x[k as int] == y[k as int]);
                }
            }
            k = k + 1;
        }
        assert(pat@.take(m as int) =~= pat@);
        if same {
            return Some(i);
        }
        if i == n - m {
            assert(find_from(s@, pat@, i as int + 1) == None::<int>);
            return None;
        }
        i = i + 1;
    }
}

fn parse_line_exec(line: &[char]) -> (r: Option<TodoItem>)
    ensures
        match parse_line(line@) {
            Some(item) => r matches Some(t) && t@ == item,
            None => r is None,
        },
{
    let t = trim_chars(line);
    proof {
        reveal_strlit("- [");
    }
    if t.len() >= 3 && t[0] == '-' && t[1] == ' ' && t[2] == '[' {
        assert(t@.take(3) =~= "- ["@);
        let rest = chars_range(t.as_slice(), 3, t.len());
        assert(rest@ =~= t@.skip(3));
        let sep = chars_of("] ");
        proof {
            reveal_strlit("] ");
        }
        match find_chars(rest.as_slice(), sep.as_slice()) {
            Some(k) => {
                proof {
                    lemma_find_from(rest@, "] "@, 0);
                }
                let after = chars_range(rest.as_slice(), k + 2, rest.len());
                assert(after@ =~= rest@.skip(k + 2));
                let content = trim_chars(after.as_slice());
                if content.len() > 0 {
                    let label = string_from_range(rest.as_slice(), 0, k);
                    assert(label@ =~= rest@.take(k as int));
                    let status = TodoStatus::parse(label.as_str());
                    let text = string_from_range(content.as_slice(), 0, content.len());
                    assert(text@ =~= content@);
                    Some(TodoItem { content: text, status: status })
                } else {
                    None
                }
            },
            None => None,
        }
    } else {
        proof {
            if t@.len() >= 3 && t@.take(3) == "- ["@ {
                assert(t@.take(3)[0] == '-');
                assert(t@.take(3)[1] == ' ');
                assert(t@.take(3)[2] == '[');
            }
        }
        None
    }
}

/// Read back a checklist [`render_checklist`] wrote: `None` when the text holds
/// no marked block or the block holds no item.
pub fn parse_checklist(text: &str) -> (r: Option<Vec<TodoItem>>)
    ensures
        match parse_spec(text@) {
            Some(items) => r matches Some(v) && items_view(v@) == items,
            None => r is None,
        },
{
    let v = chars_of(text);
    let open = chars_of(CHECKLIST_OPEN);
    assert(open@ == checklist_open());
    let found = find_chars(v.as_slice(), open.as_slice());
    proof {
        lemma_find_from(v@, open@, 0);
    }
    let a = match found {
        Some(a) => a,
        None => return None,
    };
    let vlen = v.len();
    let rest = chars_range(v.as_slice(), a + open.len(), vlen);
    assert(rest@ =~= text@.skip(a + checklist_open().len()));
    let close = chars_of(CHECKLIST_CLOSE);
    assert(close@ == checklist_close());
    let b = match find_chars(rest.as_slice(), close.as_slice()) {
        Some(b) => b,
        None => return None,
    };
    proof {
        lemma_find_from(rest@, close@, 0);
    }
    let block = chars_range(rest.as_slice(), 0, b);
    assert(block@ =~= rest@.take(b as int));
    let lines = split_lines_exec(block.as_slice());
    let ghost ls = split_lines(block@);
    let mut items: Vec<TodoItem> = Vec::new();
    let mut i: usize = 0;
    while i < lines.len()
        invariant
            i <= lines@.len(),
            lines@.len() == ls.len(),
            forall|k: int| 0 <= k < lines@.len() ==> #[trigger] lines@[k]@ == ls[k],
            items_view(items@) == parse_lines(ls.take(i as int)),
        decreases lines@.len() - i,
    {
        assert(ls.take(i as int + 1).drop_last() =~= ls.take(i as int));
        assert(lines@[i as int]@ == ls[i as int]);
        match parse_line_exec(lines[i].as_slice()) {
            Some(item) => {
                let ghost prev = items@;
                items.push(item);
                assert(items_view(items@) =~= items_view(prev).push(item@));
            },
            None => {},
        }
        i = i + 1;
    }
    assert(ls.take(i as int) =~= ls);
    if items.len() > 0 {
        Some(items)
    } else {
        None
    }
}

/// Render a checklist as the block a model reads instead of a tool result.
pub fn render_checklist(todos: &[TodoItem]) -> (r: String)
    ensures
        r@ == rendered_checklist(items_view(todos@)),
{
    let ghost lines = items_view(todos@).map_values(|i: (Seq<char>, TodoStatus)| item_line(i));
    let mut out = CHECKLIST_OPEN.to_owned();
    out.append(
        "\nThe checklist you were keeping when the messages above were compacted away. It is still current and still yours; call TodoWrite to change it.\n\n",
    );
    let ghost head = out@;
    let mut i: usize = 0;
    while i < todos.len()
        invariant
            i <= todos@.len(),
            lines == items_view(todos@).map_values(|i: (Seq<char>, TodoStatus)| item_line(i)),
            lines.len() == todos@.len(),
            out@ == head + join_lines(lines.take(i as int)),
        decreases todos@.len() - i,
    {
        assert(lines.take(i as int + 1).drop_last() =~= lines.take(i as int));
        if i > 0 {
            out.append("\n");
        }
        out.append("- [");
        out.append(todos[i].status.as_str());
        out.append("] ");
        out.append(todos[i].content.as_str());
        proof {
            reveal_strlit("\n");
            assert(lines[i as int] == item_line(todos@[i as int]@));
        }
        i = i + 1;
        assert(out@ =~= head + join_lines(lines.take(i as int)));
    }
    assert(lines.take(i as int) =~= lines);
    out.append("\n");
    out.append(CHECKLIST_CLOSE);
    out
}

/// The checklist a message shows: a checklist tool result's items, or the
/// block an earlier compaction restated in any other message.
pub open spec fn checklist_of(m: MessageModel) -> Option<Seq<(Seq<char>, TodoStatus)>> {
    if m.role == "tool"@ {
        m.todos
    } else {
        parse_spec(m.content)
    }
}

/// The most recent checklist among `ms`.
pub open spec fn latest_in(ms: Seq<MessageModel>) -> Option<Seq<(Seq<char>, TodoStatus)>>
    decreases ms.len(),
{
    if ms.len() == 0 {
        None
    } else {
        match checklist_of(ms.last()) {
            Some(items) => Some(items),
            None => latest_in(ms.drop_last()),
        }
    }
}

/// The checklist a summary of `ms[..t]` restates: none when the tail from `t`
/// still shows one (that copy is current), and none when the latest one
/// before `t` is empty.
pub open spec fn carried_spec(ms: Seq<MessageModel>, t: int) -> Option<Seq<(Seq<char>, TodoStatus)>> {
    if latest_in(ms.skip(t)) is Some {
        None
    } else {
        match latest_in(ms.take(t)) {
            Some(items) => if items.len() > 0 {
                Some(items)
            } else {
                None
            },
            None => None,
        }
    }
}

fn copy_items(items: &Vec<TodoItem>) -> (r: Vec<TodoItem>)
    ensures
        items_view(r@) == items_view(items@),
{
    let mut out: Vec<TodoItem> = Vec::new();
    let mut i: usize = 0;
    while i < items.len()
        invariant
            i <= items@.len(),
            items_view(out@) == items_view(items@).take(i as int),
        decreases items@.len() - i,
    {
        let ghost prev = out@;
        let item = TodoItem { content: items[i].content.as_str().to_owned(), status: items[i].status };
        assert(item@ == items@[i as int]@);
        out.push(item);
        assert(items_view(out@) =~= items_view(prev).push(item@));
        i = i + 1;
        assert(items_view(out@) =~= items_view(items@).take(i as int));
    }
    assert(items_view(items@).take(i as int) =~= items_view(items@));
    out
}

fn checklist_of_message(m: &ChatMessage) -> (r: Option<Vec<TodoItem>>)
    ensures
        match checklist_of(m@) {
            Some(items) => r matches Some(v) && items_view(v@) == items,
            None => r is None,
        },
{
    if role_is(m, "tool") {
        match &m.todos {
            Some(items) => Some(copy_items(items)),
            None => None,
        }
    } else {
        parse_checklist(m.content.as_str())
    }
}

fn latest_between(messages: &[ChatMessage], lo: usize, hi: usize) -> (r: Option<Vec<TodoItem>>)
    requires
        lo <= hi <= messages@.len(),
    ensures
        match latest_in(models(messages@).subrange(lo as int, hi as int)) {
            Some(items) => r matches Some(v) && items_view(v@) == items,
            None => r is None,
        },
{
    let ghost ms = models(messages@);
    let mut i: usize = hi;
    while i > lo
        invariant
            lo <= i <= hi <= messages@.len(),
            ms == models(messages@),
            latest_in(ms.subrange(lo as int, i as int)) == latest_in(ms.subrange(lo as int, hi as int)),
        decreases i,
    {
        let ghost sub = ms.subrange(lo as int, i as int);
        assert(sub.drop_last() =~= ms.subrange(lo as int, i - 1));
        assert(sub.last() == messages@[i - 1]@);
        match checklist_of_message(&messages[i - 1]) {
            Some(items) => {
                return Some(items);
            },
            None => {},
        }
        i = i - 1;
    }
    assert(ms.subrange(lo as int, i as int).len() == 0);
    None
}

/// The most recent checklist visible in `messages`, in either form it can
/// take.
pub fn latest_checklist(messages: &[ChatMessage]) -> (r: Option<Vec<TodoItem>>)
    ensures
        match latest_in(models(messages@)) {
            Some(items) => r matches Some(v) && items_view(v@) == items,
            None => r is None,
        },
{
    assert(models(messages@).subrange(0, messages@.len() as int) =~= models(messages@));
    latest_between(messages, 0, messages.len())
}

/// The checklist a summary of `messages[..tail_start]` should restate, if any.
pub fn carried_checklist(messages: &[ChatMessage], tail_start: usize) -> (r: Option<Vec<TodoItem>>)
    requires
        tail_start <= messages@.len(),
    ensures
        match carried_spec(models(messages@), tail_start as int) {
            Some(items) => r matches Some(v) && items_view(v@) == items,
            None => r is None,
        },
{
    let ghost ms = models(messages@);
    assert(ms.subrange(tail_start as int, messages@.len() as int) =~= ms.skip(tail_start as int));
    assert(ms.subrange(0, tail_start as int) =~= ms.take(tail_start as int));
    if latest_between(messages, tail_start, messages.len()).is_some() {
        return None;
    }
    match latest_between(messages, 0, tail_start) {
        Some(items) => if items.len() > 0 {
            Some(items)
        } else {
            None
        },
        None => None,
    }
}

/// Whether `pat` occurs in `s` at `j`.
pub open spec fn occurs_at(s: Seq<char>, pat: Seq<char>, j: int) -> bool {
    0 <= j && j + pat.len() <= s.len() && s.subrange(j, j + pat.len()) == pat
}

/// Whether `s` holds no newline.
pub open spec fn no_newline(s: Seq<char>) -> bool {
    forall|k: int| 0 <= k < s.len() ==> s[k] != '\n'
}

/// Whether `pat` occurs nowhere in `s`.
pub open spec fn never_occurs(s: Seq<char>, pat: Seq<char>) -> bool {
    forall|j: int| !occurs_at(s, pat, j)
}

/// What a checklist item's content must be for the item to read back as
/// written: not blank at either end, on one line, and free of the closing
/// marker.
pub open spec fn item_reads_back(content: Seq<char>) -> bool {
    &&& content.len() > 0
    &&& !char_is_whitespace(content[0])
    &&& !char_is_whitespace(content.last())
    &&& no_newline(content)
    &&& never_occurs(content, checklist_close())
}

proof fn lemma_find_first(s: Seq<char>, pat: Seq<char>, i: int, p: int)
    requires
        0 <= i <= p,
        occurs_at(s, pat, p),
        forall|j: int| i <= j < p ==> !occurs_at(s, pat, j),
    ensures
        find_from(s, pat, i) == Some(p),
    decreases p - i,
{
    if i < p {
        assert(!occurs_at(s, pat, i));
        lemma_find_first(s, pat, i + 1, p);
    }
}

proof fn lemma_no_occ_across_newline(x: Seq<char>, y: Seq<char>, pat: Seq<char>)
    requires
        pat.len() >= 1,
        no_newline(pat),
        never_occurs(x, pat),
        never_occurs(y, pat),
    ensures
        never_occurs(x + seq!['\n'] + y, pat),
{
    let s = x + seq!['\n'] + y;
    let n = pat.len() as int;
    assert forall|j: int| !occurs_at(s, pat, j) by {
        if occurs_at(s, pat, j) {
            if j + n <= x.len() {
                assert(s.subrange(j, j + n) =~= x.subrange(j, j + n));
                assert(occurs_at(x, pat, j));
            } else if j > x.len() {
                let k = j - x.len() - 1;
                assert(s.subrange(j, j + n) =~= y.subrange(k, k + n));
                assert(occurs_at(y, pat, k));
            } else {
                let d = x.len() - j;
                assert(s[x.len() as int] == '\n');
                assert(s.subrange(j, j + n)[d] == s[x.len() as int]);
                assert(pat[d] == '\n');
            }
        }
    }
}

proof fn lemma_no_occ_after_prefix(x: Seq<char>, y: Seq<char>, pat: Seq<char>)
    requires
        pat.len() >= 1,
        forall|k: int| 0 <= k < x.len() ==> x[k] != pat[0],
        never_occurs(y, pat),
    ensures
        never_occurs(x + y, pat),
{
    let s = x + y;
    let n = pat.len() as int;
    assert forall|j: int| !occurs_at(s, pat, j) by {
        if occurs_at(s, pat, j) {
            if j < x.len() {
                assert(s.subrange(j, j + n)[0] == x[j]);
            } else {
                let k = j - x.len();
                assert(s.subrange(j, j + n) =~= y.subrange(k, k + n));
                assert(occurs_at(y, pat, k));
            }
        }
    }
}

proof fn lemma_first_after_newline(x: Seq<char>, y: Seq<char>, pat: Seq<char>)
    requires
        pat.len() >= 1,
        no_newline(pat),
        never_occurs(x, pat),
        occurs_at(y, pat, 0),
    ensures
        find_from(x + seq!['\n'] + y, pat, 0) == Some(x.len() + 1int),
{
    let s = x + seq!['\n'] + y;
    let n = pat.len() as int;
    assert forall|j: int| 0 <= j < x.len() + 1 implies !occurs_at(s, pat, j) by {
        if occurs_at(s, pat, j) {
            if j + n <= x.len() {
                assert(s.subrange(j, j + n) =~= x.subrange(j, j + n));
                assert(occurs_at(x, pat, j));
            } else {
                let d = x.len() - j;
                assert(s.subrange(j, j + n)[d] == s[x.len() as int]);
            }
        }
    }
    assert(s.subrange(x.len() + 1int, x.len() + 1 + n) =~= y.subrange(0, n));
    lemma_find_first(s, pat, 0, x.len() + 1int);
}

proof fn lemma_join_never_occurs(pieces: Seq<Seq<char>>, pat: Seq<char>)
    requires
        pat.len() >= 1,
        no_newline(pat),
        forall|k: int| 0 <= k < pieces.len() ==> never_occurs(#[trigger] pieces[k], pat),
    ensures
        never_occurs(join_lines(pieces), pat),
    decreases pieces.len(),
{
    if pieces.len() == 0 {
        assert forall|j: int| !occurs_at(join_lines(pieces), pat, j) by {}
    } else if pieces.len() > 1 {
        let init = pieces.drop_last();
        assert forall|k: int| 0 <= k < init.len() implies never_occurs(#[trigger] init[k], pat) by {
            assert(init[k] == pieces[k]);
        }
        lemma_join_never_occurs(init, pat);
        assert(never_occurs(pieces[pieces.len() - 1], pat));
        lemma_no_occ_across_newline(join_lines(init), pieces.last(), pat);
    } else {
        assert(never_occurs(pieces[0], pat));
    }
}


proof fn lemma_split_append_plain(a: Seq<char>, b: Seq<char>)
    requires
        no_newline(b),
    ensures
        split_lines(a + b) == split_lines(a).update(
            split_lines(a).len() - 1,
            split_lines(a).last() + b,
        ),
    decreases b.len(),
{
    lemma_split_lines_nonempty(a);
    if b.len() == 0 {
        assert(a + b =~= a);
        assert(split_lines(a).last() + b =~= split_lines(a).last());
        assert(split_lines(a).update(split_lines(a).len() - 1, split_lines(a).last()) =~= split_lines(a));
    } else {
        let b0 = b.drop_last();
        assert forall|k: int| 0 <= k < b0.len() implies b0[k] != '\n' by {
            assert(b0[k] == b[k]);
        }
        lemma_split_append_plain(a, b0);
        assert((a + b).drop_last() =~= a + b0);
        assert((a + b).last() == b.last());
        assert(b.last() != '\n');
        let prev = split_lines(a + b0);
        assert(split_lines(a + b) == prev.update(prev.len() - 1, prev.last().push(b.last())));
        assert(b0.push(b.last()) =~= b);
        assert(split_lines(a + b) =~= split_lines(a).update(split_lines(a).len() - 1, split_lines(a).last() + b));
    }
}

proof fn lemma_split_join(pieces: Seq<Seq<char>>)
    requires
        pieces.len() >= 1,
        forall|k: int| 0 <= k < pieces.len() ==> no_newline(#[trigger] pieces[k]),
    ensures
        split_lines(join_lines(pieces)) == pieces,
    decreases pieces.len(),
{
    if pieces.len() == 1 {
        assert(no_newline(pieces[0]));
        lemma_split_append_plain(Seq::empty(), pieces[0]);
        assert(Seq::<char>::empty() + pieces[0] =~= pieces[0]);
        assert(split_lines(Seq::<char>::empty()) =~= seq![Seq::<char>::empty()]);
        assert(split_lines(pieces[0]) =~= pieces);
    } else {
        let init = pieces.drop_last();
        assert forall|k: int| 0 <= k < init.len() implies no_newline(#[trigger] init[k]) by {
            assert(init[k] == pieces[k]);
        }
        lemma_split_join(init);
        let a = join_lines(init).push('\n');
        assert(join_lines(init) + seq!['\n'] =~= a);
        assert(a.drop_last() =~= join_lines(init));
        assert(split_lines(a) == init.push(Seq::empty()));
        assert(no_newline(pieces[pieces.len() - 1]));
        lemma_split_append_plain(a, pieces.last());
        assert(join_lines(pieces) =~= a + pieces.last());
        assert(Seq::<char>::empty() + pieces.last() =~= pieces.last());
        assert(split_lines(join_lines(pieces)) =~= pieces);
    }
}

proof fn lemma_parse_lines_concat(a: Seq<Seq<char>>, b: Seq<Seq<char>>)
    ensures
        parse_lines(a + b) == parse_lines(a) + parse_lines(b),
    decreases b.len(),
{
    if b.len() == 0 {
        assert(a + b =~= a);
        assert(parse_lines(a) + parse_lines(b) =~= parse_lines(a));
    } else {
        lemma_parse_lines_concat(a, b.drop_last());
        assert((a + b).drop_last() =~= a + b.drop_last());
        assert((a + b).last() == b.last());
        match parse_line(b.last()) {
            Some(item) => {
                assert(parse_lines(a + b) =~= parse_lines(a) + parse_lines(b.drop_last()).push(item));
            },
            None => {},
        }
    }
}

proof fn lemma_trim_unchanged(s: Seq<char>)
    requires
        s.len() > 0,
        !char_is_whitespace(s[0]),
        !char_is_whitespace(s.last()),
    ensures
        trim_spec(s) == s,
{
    assert(first_non_ws(s, 0) == 0);
    assert(s.subrange(0, s.len() as int) =~= s);
    assert(last_non_ws_end(s, s.len() as int) == s.len());
}

proof fn lemma_label_facts(s: TodoStatus)
    ensures
        forall|k: int| 0 <= k < status_label(s).len() ==> status_label(s)[k] != ']' && status_label(s)[k] != '\n'
            && status_label(s)[k] != '<',
{
    reveal_strlit("pending");
    reveal_strlit("in_progress");
    reveal_strlit("completed");
}

#[verifier::spinoff_prover]
#[verifier::rlimit(30)]
proof fn lemma_item_line_reads_back(item: (Seq<char>, TodoStatus))
    requires
        item_reads_back(item.0),
    ensures
        parse_line(item_line(item)) == Some(item),
        no_newline(item_line(item)),
        never_occurs(item_line(item), checklist_close()),
{
    let label = status_label(item.1);
    let c = item.0;
    let head = "- ["@ + label + "] "@;
    let line = item_line(item);
    reveal_strlit("- [");
    reveal_strlit("] ");
    reveal_strlit("</qunica-todo-checklist>");
    lemma_label_facts(item.1);
    assert(line =~= head + c);
    assert(line[0] == '-');
    assert(line.last() == c.last());
    lemma_trim_unchanged(line);
    assert(line.take(3) =~= "- ["@);
    let rest = line.skip(3);
    assert(rest =~= label + "] "@ + c);
    let sep = "] "@;
    assert(rest.subrange(label.len() as int, label.len() + 2int) =~= sep);
    assert forall|j: int| 0 <= j < label.len() implies !occurs_at(rest, sep, j) by {
        if occurs_at(rest, sep, j) {
            assert(rest.subrange(j, j + 2)[0] == rest[j]);
            assert(rest[j] == label[j]);
        }
    }
    lemma_find_first(rest, sep, 0, label.len() as int);
    assert(rest.take(label.len() as int) =~= label);
    assert(rest.skip(label.len() + 2int) =~= c);
    lemma_trim_unchanged(c);
    lemma_status_label_round_trip(item.1);
    assert forall|k: int| 0 <= k < line.len() implies line[k] != '\n' by {
        if k >= head.len() {
            assert(line[k] == c[k - head.len()]);
        } else {
            assert(line[k] == head[k]);
        }
    }
    assert forall|k: int| 0 <= k < head.len() implies head[k] != checklist_close()[0] by {}
    lemma_no_occ_after_prefix(head, c, checklist_close());
}

proof fn lemma_item_lines_read_back(items: Seq<(Seq<char>, TodoStatus)>)
    requires
        forall|k: int| 0 <= k < items.len() ==> item_reads_back(#[trigger] items[k].0),
    ensures
        parse_lines(items.map_values(|i: (Seq<char>, TodoStatus)| item_line(i))) == items,
    decreases items.len(),
{
    if items.len() > 0 {
        let init = items.drop_last();
        assert forall|k: int| 0 <= k < init.len() implies item_reads_back(#[trigger] init[k].0) by {
            assert(init[k] == items[k]);
        }
        lemma_item_lines_read_back(init);
        let lines = items.map_values(|i: (Seq<char>, TodoStatus)| item_line(i));
        assert(lines.drop_last() =~= init.map_values(|i: (Seq<char>, TodoStatus)| item_line(i)));
        assert(item_reads_back(items[items.len() - 1].0));
        lemma_item_line_reads_back(items.last());
        assert(parse_lines(lines) =~= items);
    }
}

/// A checklist rendered for a summary reads back as the same items, whenever
/// there is at least one item and every item's content is non-blank at both
/// ends, on one line, and free of the closing marker.
pub proof fn lemma_rendered_checklist_reads_back(items: Seq<(Seq<char>, TodoStatus)>)
    requires
        items.len() > 0,
        forall|k: int| 0 <= k < items.len() ==> item_reads_back(#[trigger] items[k].0),
    ensures
        parse_spec(rendered_checklist(items)) == Some(items),
{
    let open = checklist_open();
    let close = checklist_close();
    let note = "The checklist you were keeping when the messages above were compacted away. It is still current and still yours; call TodoWrite to change it."@;
    let e = Seq::<char>::empty();
    let lines = items.map_values(|i: (Seq<char>, TodoStatus)| item_line(i));
    let front = seq![e, note, e];
    let pieces = front + lines;
    let text = rendered_checklist(items);
    reveal_strlit("<qunica-todo-checklist>");
    reveal_strlit("</qunica-todo-checklist>");
    reveal_strlit(
        "\nThe checklist you were keeping when the messages above were compacted away. It is still current and still yours; call TodoWrite to change it.\n\n",
    );
    reveal_strlit(
        "The checklist you were keeping when the messages above were compacted away. It is still current and still yours; call TodoWrite to change it.",
    );
    reveal_strlit("\n");
    assert(checklist_note() =~= seq!['\n'] + note + seq!['\n', '\n']);
    assert(join_lines(front) =~= seq!['\n'] + note + seq!['\n']) by {
        let two = seq![e, note];
        assert(front.drop_last() =~= two);
        assert(front.last() == e);
        assert(two.drop_last() =~= seq![e]);
        assert(two.last() == note);
        assert(join_lines(seq![e]) == e);
        assert(join_lines(two) =~= e + seq!['\n'] + note);
        assert(join_lines(front) =~= join_lines(two) + seq!['\n'] + e);
    }
    lemma_join_concat(front, lines);
    let joined = join_lines(pieces);
    assert(joined =~= checklist_note() + join_lines(lines));
    assert(text =~= open + (joined + seq!['\n'] + close));
    assert(text.subrange(0, open.len() as int) =~= open);
    lemma_find_first(text, open, 0, 0);
    let rest = text.skip(open.len() as int);
    assert(rest =~= joined + seq!['\n'] + close);
    assert forall|k: int| 0 <= k < note.len() implies note[k] != '<' && note[k] != '\n' by {}
    assert(no_newline(close));
    assert forall|k: int| 0 <= k < pieces.len() implies never_occurs(#[trigger] pieces[k], close) && no_newline(
        pieces[k],
    ) by {
        if k == 1 {
            assert(pieces[k] == note);
            assert(note + e =~= note);
            assert forall|j: int| !occurs_at(e, close, j) by {}
            lemma_no_occ_after_prefix(note, e, close);
        } else if k >= 3 {
            assert(pieces[k] == lines[k - 3]);
            assert(item_reads_back(items[k - 3].0));
            lemma_item_line_reads_back(items[k - 3]);
        } else {
            assert(pieces[k] == e);
            assert forall|j: int| !occurs_at(e, close, j) by {}
        }
    }
    lemma_join_never_occurs(pieces, close);
    assert(close.subrange(0, close.len() as int) =~= close);
    lemma_first_after_newline(joined, close, close);
    let block = rest.take(joined.len() + 1int);
    lemma_join_concat(pieces, seq![e]);
    assert(block =~= join_lines(pieces + seq![e]));
    assert forall|k: int| 0 <= k < (pieces + seq![e]).len() implies no_newline(#[trigger] (pieces + seq![e])[k]) by {
        if k < pieces.len() {
            assert((pieces + seq![e])[k] == pieces[k]);
        }
    }
    lemma_split_join(pieces + seq![e]);
    lemma_parse_lines_concat(pieces, seq![e]);
    lemma_parse_lines_concat(front, lines);
    lemma_item_lines_read_back(items);
    assert(parse_line(note) is None) by {
        assert(note[0] == 'T');
        lemma_trim_unchanged(note);
        reveal_strlit("- [");
        if note.len() >= 3 && note.take(3) == "- ["@ {
            assert(note.take(3)[0] == note[0]);
        }
    }
    assert(parse_line(e) is None) by {
        assert(first_non_ws(e, 0) == 0);
        assert(trim_spec(e).len() == 0);
    }
    assert(parse_lines(seq![e]) =~= Seq::<(Seq<char>, TodoStatus)>::empty()) by {
        let z = Seq::<Seq<char>>::empty();
        assert(parse_lines(z) =~= Seq::<(Seq<char>, TodoStatus)>::empty());
        assert(seq![e].drop_last() =~= z);
        assert(seq![e].last() == e);
        assert(parse_lines(seq![e]) == parse_lines(z));
    }
    assert(parse_lines(front) =~= Seq::<(Seq<char>, TodoStatus)>::empty()) by {
        let two = seq![e, note];
        assert(front.drop_last() =~= two);
        assert(front.last() == e);
        assert(two.drop_last() =~= seq![e]);
        assert(two.last() == note);
        assert(parse_lines(two) == parse_lines(seq![e]));
        assert(parse_lines(front) == parse_lines(two));
    }
    assert(parse_lines(split_lines(block)) =~= items);
}

} // verus!
