use vstd::prelude::*;

use crate::text::{
    char_is_alphanumeric, char_is_whitespace, chars_of, chars_range, first_non_ws, is_alphanumeric, is_whitespace,
    join_lines, join_lines_exec, lemma_first_non_ws, lemma_join_concat, lemma_join_split, lemma_split_lines_nonempty,
    fold_case, fold_case_exec, same_text, split_lines, split_lines_exec, string_from_chars,
};

verus! {

/// An agent that can be mentioned, by id and by the name people write.
pub struct MentionTarget<'a> {
    pub agent_id: &'a str,
    pub display_name: &'a str,
}

/// Whether `c` can be part of a name: alphanumeric, `_`, `-`, or a CJK
/// unified ideograph.
pub open spec fn name_char(c: char) -> bool {
    char_is_alphanumeric(c) || c == '_' || c == '-' || ('\u{4e00}' <= c && c <= '\u{9fff}')
}

/// Whether `ch` can be part of a name.
pub fn is_name_char(ch: char) -> (r: bool)
    ensures
        r == name_char(ch),
{
    is_alphanumeric(ch) || ch == '_' || ch == '-' || ('\u{4e00}' <= ch && ch <= '\u{9fff}')
}

/// The length of the run of `c` starting at `i`.
pub open spec fn run_of(s: Seq<char>, i: int, c: char) -> int
    decreases s.len() - i,
{
    if 0 <= i < s.len() && s[i] == c {
        1 + run_of(s, i + 1, c)
    } else {
        0
    }
}

pub proof fn lemma_run_of(s: Seq<char>, i: int, c: char)
    requires
        0 <= i <= s.len(),
    ensures
        0 <= run_of(s, i, c) <= s.len() - i,
        forall|k: int| i <= k < i + run_of(s, i, c) ==> s[k] == c,
        i + run_of(s, i, c) < s.len() ==> s[i + run_of(s, i, c)] != c,
    decreases s.len() - i,
{
    if i < s.len() && s[i] == c {
        lemma_run_of(s, i + 1, c);
    }
}

/// The length of the run of `c` in `s` starting at `i`.
pub fn run_length(s: &[char], i: usize, c: char) -> (r: usize)
    requires
        i <= s@.len(),
    ensures
        r == run_of(s@, i as int, c),
{
    let mut j: usize = i;
    while j < s.len() && s[j] == c
        invariant
            i <= j <= s@.len(),
            run_of(s@, i as int, c) == (j - i) + run_of(s@, j as int, c),
        decreases s@.len() - j,
    {
        j = j + 1;
    }
    j - i
}

/// The number of backslashes right before index `i`.
pub open spec fn slashes_before(s: Seq<char>, i: int) -> int
    decreases i,
{
    if 0 < i <= s.len() && s[i - 1] == '\\' {
        1 + slashes_before(s, i - 1)
    } else {
        0
    }
}

/// Whether the character at `i` is escaped by an odd run of backslashes.
pub open spec fn escaped(s: Seq<char>, i: int) -> bool {
    slashes_before(s, i) % 2 == 1
}

/// Whether the character at `index` is escaped.
pub fn is_escaped(chars: &[char], index: usize) -> (r: bool)
    requires
        index <= chars@.len(),
    ensures
        r == escaped(chars@, index as int),
{
    let mut k: usize = index;
    while k > 0 && chars[k - 1] == '\\'
        invariant
            k <= index <= chars@.len(),
            slashes_before(chars@, index as int) == (index - k) + slashes_before(chars@, k as int),
        decreases k,
    {
        k = k - 1;
    }
    (index - k) % 2 == 1
}

/// Whether a run of exactly `expected` unescaped backticks starts at or after
/// `i` in `s`.
pub open spec fn tick_match(s: Seq<char>, i: int, expected: int) -> bool
    decreases s.len() - i,
{
    if i < 0 || i >= s.len() {
        false
    } else if s[i] != '`' || escaped(s, i) {
        tick_match(s, i + 1, expected)
    } else {
        let run = run_of(s, i, '`');
        proof {
            lemma_run_of(s, i, '`');
        }
        run == expected || tick_match(s, i + run, expected)
    }
}

/// Whether a backtick run of length `expected` closes, in the rest of the line
/// after `start` followed directly by the rest of the document.
pub fn has_matching_tick_run(line: &[char], start: usize, md: &[char], from: usize, expected: usize) -> (r: bool)
    requires
        start <= line@.len(),
        from <= md@.len(),
    ensures
        r == tick_match(line@.skip(start as int) + md@.skip(from as int), 0, expected as int),
{
    let mut chars: Vec<char> = Vec::new();
    let mut a: usize = start;
    while a < line.len()
        invariant
            start <= a <= line@.len(),
            chars@ == line@.subrange(start as int, a as int),
        decreases line@.len() - a,
    {
        chars.push(line[a]);
        a = a + 1;
        assert(chars@ =~= line@.subrange(start as int, a as int));
    }
    let mut b: usize = from;
    while b < md.len()
        invariant
            from <= b <= md@.len(),
            chars@ == line@.skip(start as int) + md@.subrange(from as int, b as int),
        decreases md@.len() - b,
    {
        chars.push(md[b]);
        b = b + 1;
        assert(chars@ =~= line@.skip(start as int) + md@.subrange(from as int, b as int));
    }
    assert(chars@ =~= line@.skip(start as int) + md@.skip(from as int));
    let ghost s = chars@;
    let n = chars.len();
    let mut index: usize = 0;
    while index < n
        invariant
            n == s.len(),
            s == chars@,
            s == line@.skip(start as int) + md@.skip(from as int),
            index <= n,
            tick_match(s, index as int, expected as int) == tick_match(s, 0, expected as int),
        decreases n - index,
    {
        if chars[index] != '`' || is_escaped(chars.as_slice(), index) {
            index = index + 1;
        } else {
            let run = run_length(chars.as_slice(), index, '`');
            proof {
                lemma_run_of(s, index as int, '`');
            }
            if run == expected {
                assert(tick_match(s, index as int, expected as int));
                return true;
            }
            index = index + run;
        }
    }
    false
}

/// The fence a trimmed line opens: three or more backticks or tildes, and for
/// backticks no further backtick on the line.
pub open spec fn fence_open(t: Seq<char>) -> Option<(char, int)> {
    if t.len() == 0 {
        None
    } else {
        let m = t[0];
        let n = run_of(t, 0, m);
        if m != '`' && m != '~' {
            None
        } else if n < 3 || (m == '`' && t.skip(n).contains('`')) {
            None
        } else {
            Some((m, n))
        }
    }
}

/// The fence a trimmed line opens, if any.
pub fn opening_fence(line: &[char]) -> (r: Option<(char, usize)>)
    ensures
        match fence_open(line@) {
            Some((m, n)) => r matches Some((c, k)) && c == m && k == n,
            None => r is None,
        },
{
    if line.len() == 0 {
        return None;
    }
    let marker = line[0];
    if marker != '`' && marker != '~' {
        return None;
    }
    let len = run_length(line, 0, marker);
    proof {
        lemma_run_of(line@, 0, marker);
    }
    if len < 3 {
        return None;
    }
    if marker == '`' {
        let mut k: usize = len;
        while k < line.len()
            invariant
                len <= k <= line@.len(),
                line@.len() > 0,
                marker == line@[0],
                marker == '`',
                len == run_of(line@, 0, marker),
                forall|j: int| len <= j < k ==> line@[j] != '`',
            decreases line@.len() - k,
        {
            if line[k] == '`' {
                assert(line@.skip(len as int)[k - len] == '`');
                assert(line@.skip(len as int).contains('`'));
                return None;
            }
            k = k + 1;
        }
        assert forall|j: int| 0 <= j < line@.skip(len as int).len() implies line@.skip(len as int)[j] != '`' by {
            assert(line@.skip(len as int)[j] == line@[len + j]);
        }
    }
    Some((marker, len))
}

/// Whether a trimmed line closes a fence of `marker` opened with `n` of them:
/// at least as many markers, then only whitespace.
pub open spec fn fence_closes(t: Seq<char>, marker: char, n: int) -> bool {
    &&& t.len() > 0
    &&& t[0] == marker
    &&& run_of(t, 0, marker) >= n
    &&& forall|k: int| run_of(t, 0, marker) <= k < t.len() ==> char_is_whitespace(#[trigger] t[k])
}

/// Whether a trimmed line closes the open fence.
pub fn is_closing_fence(line: &[char], marker: char, opening_len: usize) -> (r: bool)
    ensures
        r == fence_closes(line@, marker, opening_len as int),
{
    if line.len() == 0 || line[0] != marker {
        return false;
    }
    let len = run_length(line, 0, marker);
    proof {
        lemma_run_of(line@, 0, marker);
    }
    if len < opening_len {
        return false;
    }
    let mut k: usize = len;
    while k < line.len()
        invariant
            len <= k <= line@.len(),
            len == run_of(line@, 0, marker),
            forall|j: int| len <= j < k ==> char_is_whitespace(#[trigger] line@[j]),
        decreases line@.len() - k,
    {
        if !is_whitespace(line[k]) {
            return false;
        }
        k = k + 1;
    }
    true
}

/// The first unescaped `]` at or after `i`.
pub open spec fn label_end(t: Seq<char>, i: int) -> Option<int>
    decreases t.len() - i,
{
    if i < 0 || i >= t.len() {
        None
    } else if t[i] == ']' && !escaped(t, i) {
        Some(i)
    } else {
        label_end(t, i + 1)
    }
}

/// Whether a trimmed line is a link reference definition: `[label]:`, with a
/// non-empty label.
pub open spec fn ref_def(t: Seq<char>) -> bool {
    t.len() > 0 && t[0] == '[' && match label_end(t, 1) {
        Some(e) => e != 1 && e + 1 < t.len() && t[e + 1] == ':',
        None => false,
    }
}

/// Whether a trimmed line is a link reference definition.
pub fn is_reference_definition(line: &[char]) -> (r: bool)
    ensures
        r == ref_def(line@),
{
    if line.len() == 0 || line[0] != '[' {
        return false;
    }
    let mut i: usize = 1;
    while i < line.len()
        invariant
            1 <= i <= line@.len(),
            line@[0] == '[',
            label_end(line@, i as int) == label_end(line@, 1),
        decreases line@.len() - i,
    {
        if line[i] == ']' && !is_escaped(line, i) {
            assert(label_end(line@, i as int) == Some(i as int));
            if i == 1 {
                return false;
            }
            return i + 1 < line.len() && line[i + 1] == ':';
        }
        i = i + 1;
    }
    false
}

/// `out` with positions `[a, b)` replaced by spaces.
pub open spec fn blank(out: Seq<char>, a: int, b: int) -> Seq<char> {
    Seq::new(out.len(), |k: int| if a <= k < b { ' ' } else { out[k] })
}

/// Where a link destination that opens at a `(` ends: one past the `)` that
/// balances it, or the end of the line. `depth` counts the parentheses open.
pub open spec fn paren_scan(line: Seq<char>, end: int, depth: int) -> int
    decreases line.len() - end,
{
    if end < 0 || end >= line.len() {
        end
    } else if line[end] == '(' && !escaped(line, end) {
        paren_scan(line, end + 1, depth + 1)
    } else if line[end] == ')' && !escaped(line, end) {
        if depth - 1 == 0 {
            end + 1
        } else {
            paren_scan(line, end + 1, depth - 1)
        }
    } else {
        paren_scan(line, end + 1, depth)
    }
}

pub proof fn lemma_paren_scan(line: Seq<char>, end: int, depth: int)
    requires
        0 <= end <= line.len(),
    ensures
        end <= paren_scan(line, end, depth) <= line.len(),
        end < line.len() ==> end < paren_scan(line, end, depth),
    decreases line.len() - end,
{
    if end < line.len() {
        if line[end] == '(' && !escaped(line, end) {
            lemma_paren_scan(line, end + 1, depth + 1);
        } else if line[end] == ')' && !escaped(line, end) {
            if depth - 1 != 0 {
                lemma_paren_scan(line, end + 1, depth - 1);
            }
        } else {
            lemma_paren_scan(line, end + 1, depth);
        }
    }
}

/// A line with inline code and link destinations blanked out, from `index`
/// on: `ticks` is the length of the backtick run of an open code span (zero
/// for none), `out` what has been produced so far, and `rest` the document
/// after the line. A backtick run opens a span only when a run of the same
/// length follows in the rest of the line or the document. Returns the line
/// and the code span still open at its end.
pub open spec fn mask_from(line: Seq<char>, rest: Seq<char>, index: int, ticks: int, out: Seq<char>) -> (Seq<char>, int)
    decreases line.len() - index,
{
    if index < 0 || index >= line.len() {
        (out, ticks)
    } else if line[index] == '`' && !escaped(line, index) {
        let run = run_of(line, index, '`');
        proof {
            lemma_run_of(line, index, '`');
        }
        if ticks == 0 {
            if !tick_match(line.skip(index + run) + rest, 0, run) {
                mask_from(line, rest, index + run, ticks, out)
            } else {
                mask_from(line, rest, index + run, run, blank(out, index, index + run))
            }
        } else {
            mask_from(line, rest, index + run, if run == ticks { 0 } else { ticks }, blank(out, index, index + run))
        }
    } else if ticks > 0 {
        mask_from(line, rest, index + 1, ticks, out.update(index, ' '))
    } else if line[index] == ']' {
        let dest = first_non_ws(line, index + 1);
        proof {
            lemma_first_non_ws(line, index + 1);
        }
        if dest < line.len() && line[dest] == '(' && !escaped(line, dest) {
            let end = paren_scan(line, dest, 0);
            proof {
                lemma_paren_scan(line, dest, 0);
            }
            mask_from(line, rest, end, ticks, blank(out, dest, end))
        } else {
            mask_from(line, rest, index + 1, ticks, out)
        }
    } else {
        mask_from(line, rest, index + 1, ticks, out)
    }
}

fn fill_spaces(out: &mut Vec<char>, a: usize, b: usize)
    requires
        a <= b <= old(out)@.len(),
    ensures
        final(out)@ == blank(old(out)@, a as int, b as int),
{
    let mut k: usize = a;
    while k < b
        invariant
            a <= k <= b <= out@.len(),
            out@.len() == old(out)@.len(),
            out@ == blank(old(out)@, a as int, k as int),
        decreases b - k,
    {
        out.set(k, ' ');
        k = k + 1;
        assert(out@ =~= blank(old(out)@, a as int, k as int));
    }
}

fn first_non_space(v: &[char], from: usize) -> (r: usize)
    requires
        from <= v@.len(),
    ensures
        r == first_non_ws(v@, from as int),
{
    let mut i: usize = from;
    while i < v.len() && is_whitespace(v[i])
        invariant
            from <= i <= v@.len(),
            first_non_ws(v@, i as int) == first_non_ws(v@, from as int),
        decreases v@.len() - i,
    {
        i = i + 1;
    }
    i
}

fn destination_end(line: &[char], dest: usize) -> (r: usize)
    requires
        dest < line@.len(),
        line@[dest as int] == '(',
        !escaped(line@, dest as int),
    ensures
        r == paren_scan(line@, dest as int, 0),
{
    let mut depth: usize = 0;
    let mut end: usize = dest;
    while end < line.len()
        invariant
            dest <= end <= line@.len(),
            line@[dest as int] == '(',
            !escaped(line@, dest as int),
            end > dest ==> depth >= 1,
            depth <= end - dest,
            paren_scan(line@, end as int, depth as int) == paren_scan(line@, dest as int, 0),
        decreases line@.len() - end,
    {
        if line[end] == '(' && !is_escaped(line, end) {
            depth = depth + 1;
        } else if line[end] == ')' && !is_escaped(line, end) {
            depth = depth - 1;
            if depth == 0 {
                return end + 1;
            }
        }
        end = end + 1;
    }
    end
}

/// Blank out the inline code spans and link destinations of one line. `md`
/// from `from` on is the document after the line; `inline_ticks` carries an
/// open code span from line to line.
pub fn mask_inline_and_destinations(line: &[char], md: &[char], from: usize, inline_ticks: &mut usize) -> (r: Vec<char>)
    requires
        from <= md@.len(),
    ensures
        (r@, *final(inline_ticks) as int) == mask_from(line@, md@.skip(from as int), 0, *old(inline_ticks) as int, line@),
{
    let ghost rest = md@.skip(from as int);
    let ghost ticks0 = *inline_ticks as int;
    let mut output: Vec<char> = Vec::new();
    let mut c: usize = 0;
    while c < line.len()
        invariant
            c <= line@.len(),
            output@ == line@.take(c as int),
        decreases line@.len() - c,
    {
        output.push(line[c]);
        c = c + 1;
        assert(output@ =~= line@.take(c as int));
    }
    assert(line@.take(c as int) =~= line@);
    let n = line.len();
    let mut index: usize = 0;
    while index < n
        invariant
            n == line@.len(),
            from <= md@.len(),
            rest == md@.skip(from as int),
            index <= n,
            output@.len() == n,
            mask_from(line@, rest, index as int, *inline_ticks as int, output@) == mask_from(line@, rest, 0, ticks0, line@),
        decreases n - index,
    {
        if line[index] == '`' && !is_escaped(line, index) {
            let run = run_length(line, index, '`');
            proof {
                lemma_run_of(line@, index as int, '`');
            }
            if *inline_ticks == 0 {
                if !has_matching_tick_run(line, index + run, md, from, run) {
                    index = index + run;
                    continue;
                }
                *inline_ticks = run;
            } else if run == *inline_ticks {
                *inline_ticks = 0;
            }
            fill_spaces(&mut output, index, index + run);
            index = index + run;
            continue;
        }
        if *inline_ticks > 0 {
            output.set(index, ' ');
            index = index + 1;
            continue;
        }
        if line[index] == ']' {
            let destination = first_non_space(line, index + 1);
            proof {
                lemma_first_non_ws(line@, index as int + 1);
            }
            if destination < n && line[destination] == '(' && !is_escaped(line, destination) {
                let end = destination_end(line, destination);
                proof {
                    lemma_paren_scan(line@, destination as int, 0);
                }
                fill_spaces(&mut output, destination, end);
                index = end;
                continue;
            }
        }
        index = index + 1;
    }
    output
}

/// A line of `n` spaces.
pub open spec fn spaces(n: int) -> Seq<char> {
    Seq::new(n as nat, |k: int| ' ')
}

fn spaces_exec(n: usize) -> (r: Vec<char>)
    ensures
        r@ == spaces(n as int),
{
    let mut out: Vec<char> = Vec::new();
    let mut k: usize = 0;
    while k < n
        invariant
            k <= n,
            out@ == spaces(k as int),
        decreases n - k,
    {
        out.push(' ');
        k = k + 1;
        assert(out@ =~= spaces(k as int));
    }
    out
}

/// One line of visible prose: blank inside a fence, on a block quote, on a
/// fence line and on a reference definition (at most three spaces of
/// indent), masked otherwise. Returns the line, the fence open after it and
/// the code span open after it.
pub open spec fn visible_line(content: Seq<char>, rest: Seq<char>, fence: Option<(char, int)>, ticks: int) -> (
    Seq<char>,
    Option<(char, int)>,
    int,
) {
    let indent = run_of(content, 0, ' ');
    let trimmed = content.skip(indent);
    let blankline = spaces(content.len() as int);
    match fence {
        Some((m, n)) => (blankline, if indent <= 3 && fence_closes(trimmed, m, n) {
            None
        } else {
            fence
        }, ticks),
        None => if indent <= 3 && trimmed.len() > 0 && trimmed[0] == '>' {
            (blankline, None, ticks)
        } else if indent <= 3 && fence_open(trimmed) is Some {
            (blankline, fence_open(trimmed), ticks)
        } else if ticks == 0 && indent <= 3 && ref_def(trimmed) {
            (blankline, None, ticks)
        } else {
            let masked = mask_from(content, rest, 0, ticks, content);
            (masked.0, None, masked.1)
        },
    }
}

/// The visible forms of the lines from `k` on, given the state before line
/// `k`.
pub open spec fn visible_lines(pieces: Seq<Seq<char>>, k: int, fence: Option<(char, int)>, ticks: int) -> Seq<
    Seq<char>,
>
    decreases pieces.len() - k,
{
    if k < 0 || k >= pieces.len() {
        Seq::empty()
    } else {
        let step = visible_line(pieces[k], join_lines(pieces.skip(k + 1)), fence, ticks);
        seq![step.0] + visible_lines(pieces, k + 1, step.1, step.2)
    }
}

/// The prose of a Markdown text a reader sees, with fenced code, block
/// quotes, reference definitions, inline code and link destinations blanked
/// to spaces, line by line, so that positions are kept.
pub open spec fn visible_spec(md: Seq<char>) -> Seq<char> {
    join_lines(visible_lines(split_lines(md), 0, None, 0))
}

proof fn lemma_join_skip(pieces: Seq<Seq<char>>, k: int)
    requires
        0 <= k,
        k + 1 < pieces.len(),
    ensures
        join_lines(pieces.skip(k)) == pieces[k] + seq!['\n'] + join_lines(pieces.skip(k + 1)),
{
    assert(pieces.skip(k) =~= seq![pieces[k]] + pieces.skip(k + 1));
    lemma_join_concat(seq![pieces[k]], pieces.skip(k + 1));
}

/// The visible prose of a Markdown text.
pub fn visible_markdown(markdown: &str) -> (r: String)
    ensures
        r@ == visible_spec(markdown@),
{
    let v = chars_of(markdown);
    let pieces = split_lines_exec(v.as_slice());
    let ghost ps = split_lines(v@);
    proof {
        lemma_join_split(v@);
        lemma_split_lines_nonempty(v@);
    }
    let n = pieces.len();
    let len = v.len();
    let mut out_lines: Vec<Vec<char>> = Vec::new();
    let mut fence: Option<(char, usize)> = None;
    let mut ticks: usize = 0;
    let mut pos: usize = 0;
    let mut k: usize = 0;
    assert(ps.skip(0) =~= ps);
    while k < n
        invariant
            n == pieces@.len(),
            n == ps.len(),
            len == v@.len(),
            ps == split_lines(v@),
            forall|j: int| 0 <= j < n ==> #[trigger] pieces@[j]@ == ps[j],
            k <= n,
            pos <= len,
            k < n ==> v@.subrange(pos as int, len as int) == join_lines(ps.skip(k as int)),
            out_lines@.map_values(|l: Vec<char>| l@) + visible_lines(
                ps,
                k as int,
                match fence {
                    Some((m, f)) => Some((m, f as int)),
                    None => None,
                },
                ticks as int,
            ) == visible_lines(ps, 0, None, 0),
        decreases n - k,
    {
        let content = pieces[k].as_slice();
        assert(content@ == ps[k as int]);
        let ghost rest = join_lines(ps.skip(k as int + 1));
        let ghost whole = v@.subrange(pos as int, len as int);
        let next = if k + 1 < n {
            proof {
                lemma_join_skip(ps, k as int);
                assert(whole == content@ + seq!['\n'] + rest);
                assert(whole.len() == len - pos);
            }
            pos + content.len() + 1
        } else {
            len
        };
        proof {
            if k + 1 < n {
                let c = content@.len() as int;
                assert(v@.subrange(next as int, len as int) =~= whole.subrange(c + 1, whole.len() as int));
                assert(whole.subrange(c + 1, whole.len() as int) =~= rest);
            } else {
                assert(ps.skip(k as int + 1) =~= Seq::<Seq<char>>::empty());
                assert(rest =~= Seq::<char>::empty());
                assert(v@.subrange(next as int, len as int) =~= rest);
            }
        }
        assert(v@.skip(next as int) =~= v@.subrange(next as int, len as int));
        let indent = run_length(content, 0, ' ');
        proof {
            lemma_run_of(content@, 0, ' ');
        }
        let trimmed = chars_range(content, indent, content.len());
        assert(trimmed@ =~= content@.skip(indent as int));
        let ghost state = match fence {
            Some((m, f)) => Some((m, f as int)),
            None => None,
        };
        let ghost ticks0 = ticks as int;
        let ghost step = visible_line(content@, rest, state, ticks0);
        let line_out: Vec<char>;
        match fence {
            Some((marker, fence_len)) => {
                if indent <= 3 && is_closing_fence(trimmed.as_slice(), marker, fence_len) {
                    fence = None;
                }
                line_out = spaces_exec(content.len());
            },
            None => {
                let opened = opening_fence(trimmed.as_slice());
                if indent <= 3 && trimmed.len() > 0 && trimmed[0] == '>' {
                    line_out = spaces_exec(content.len());
                } else if indent <= 3 && opened.is_some() {
                    fence = opened;
                    line_out = spaces_exec(content.len());
                } else if ticks == 0 && indent <= 3 && is_reference_definition(trimmed.as_slice()) {
                    line_out = spaces_exec(content.len());
                } else {
                    line_out = mask_inline_and_destinations(content, v.as_slice(), next, &mut ticks);
                }
            },
        }
        assert(line_out@ == step.0);
        assert(match fence {
            Some((m, f)) => Some((m, f as int)),
            None => None,
        } == step.1);
        assert(ticks as int == step.2);
        let ghost before = out_lines@;
        out_lines.push(line_out);
        assert(out_lines@.map_values(|l: Vec<char>| l@) =~= before.map_values(|l: Vec<char>| l@).push(step.0));
        assert(visible_lines(ps, k as int, state, ticks0) == seq![step.0] + visible_lines(ps, k as int + 1, step.1, step.2));
        pos = next;
        k = k + 1;
    }
    assert(visible_lines(ps, n as int, None, 0) =~= Seq::<Seq<char>>::empty());
    let text = join_lines_exec(&out_lines);
    text
}

/// The candidates with a non-empty display name, as pairs of the agent id and
/// the name folded to lower case, in order.
pub open spec fn name_list<'a>(cands: Seq<MentionTarget<'a>>) -> Seq<(Seq<char>, Seq<char>)>
    decreases cands.len(),
{
    if cands.len() == 0 {
        Seq::empty()
    } else if cands.last().display_name@.len() > 0 {
        name_list(cands.drop_last()).push((cands.last().agent_id@, fold_case(cands.last().display_name@)))
    } else {
        name_list(cands.drop_last())
    }
}

/// Whether `name` follows the `@` at `index`: the folded text right after
/// it is the name, and the name ends at a name boundary.
pub open spec fn name_matches(chars: Seq<char>, lower: Seq<char>, name: Seq<char>, index: int) -> bool {
    let end = index + 1 + name.len();
    &&& end <= lower.len()
    &&& lower.subrange(index + 1, end) == name
    &&& !(end < chars.len() && name_char(chars[end]))
}

/// Among the first `n` names, the longest that follows the `@` at `index`,
/// the earliest of equally long ones.
pub open spec fn best_name(chars: Seq<char>, lower: Seq<char>, names: Seq<(Seq<char>, Seq<char>)>, index: int, n: int) -> Option<int>
    decreases n,
{
    if n <= 0 {
        None
    } else {
        let prev = best_name(chars, lower, names, index, n - 1);
        if name_matches(chars, lower, names[n - 1].1, index) && (prev is None || names[n - 1].1.len() > names[prev->0].1.len()) {
            Some(n - 1)
        } else {
            prev
        }
    }
}

pub proof fn lemma_best_name(chars: Seq<char>, lower: Seq<char>, names: Seq<(Seq<char>, Seq<char>)>, index: int, n: int)
    ensures
        best_name(chars, lower, names, index, n) matches Some(k) ==> 0 <= k < n && name_matches(
            chars,
            lower,
            names[k].1,
            index,
        ),
    decreases n,
{
    if n > 0 {
        lemma_best_name(chars, lower, names, index, n - 1);
    }
}

/// The ids mentioned from `index` on, in textual order, repeats included: an
/// `@` that does not follow a name character, followed by the longest
/// matching name.
pub open spec fn scan_spec(chars: Seq<char>, lower: Seq<char>, names: Seq<(Seq<char>, Seq<char>)>, index: int) -> Seq<Seq<char>>
    decreases chars.len() - index,
{
    if index < 0 || index >= chars.len() {
        Seq::empty()
    } else if chars[index] != '@' || (index > 0 && name_char(chars[index - 1])) {
        scan_spec(chars, lower, names, index + 1)
    } else {
        match best_name(chars, lower, names, index, names.len() as int) {
            Some(k) => {
                let next = index + 1 + names[k].1.len();
                seq![names[k].0] + if next < chars.len() {
                    scan_spec(chars, lower, names, next)
                } else {
                    Seq::empty()
                }
            },
            None => scan_spec(chars, lower, names, index + 1),
        }
    }
}

/// `s` with every repeat of an earlier element removed.
pub open spec fn dedupe(s: Seq<Seq<char>>) -> Seq<Seq<char>>
    decreases s.len(),
{
    if s.len() == 0 {
        Seq::empty()
    } else if dedupe(s.drop_last()).contains(s.last()) {
        dedupe(s.drop_last())
    } else {
        dedupe(s.drop_last()).push(s.last())
    }
}

proof fn lemma_dedupe_distinct(s: Seq<Seq<char>>)
    ensures
        forall|a: int, b: int| 0 <= a < b < dedupe(s).len() ==> dedupe(s)[a] != dedupe(s)[b],
    decreases s.len(),
{
    if s.len() > 0 {
        lemma_dedupe_distinct(s.drop_last());
        let d = dedupe(s.drop_last());
        if !d.contains(s.last()) {
            assert forall|a: int, b: int| 0 <= a < b < dedupe(s).len() implies dedupe(s)[a] != dedupe(s)[b] by {
                if b == d.len() {
                    assert(dedupe(s)[a] == d[a]);
                }
            }
        }
    }
}

/// No agent is reported twice, however often it is mentioned.
pub proof fn lemma_each_agent_is_mentioned_once<'a>(md: Seq<char>, cands: Seq<MentionTarget<'a>>)
    ensures
        forall|a: int, b: int|
            0 <= a < b < mentions_spec(md, cands).len() ==> mentions_spec(md, cands)[a] != mentions_spec(md, cands)[b],
{
    if cands.len() > 0 && md.contains('@') {
        let visible = visible_spec(md);
        lemma_dedupe_distinct(scan_spec(visible, fold_case(visible), name_list(cands), 0));
    }
}

/// The agents mentioned in the visible prose of `md`, in textual order, each
/// once.
pub open spec fn mentions_spec<'a>(md: Seq<char>, cands: Seq<MentionTarget<'a>>) -> Seq<Seq<char>> {
    if cands.len() == 0 || !md.contains('@') {
        Seq::empty()
    } else {
        let visible = visible_spec(md);
        dedupe(scan_spec(visible, fold_case(visible), name_list(cands), 0))
    }
}

/// Whether `c` ends a name: it is not alphanumeric, not `_` or `-`, and not
/// a CJK unified ideograph.
pub open spec fn ends_a_name(c: char) -> bool {
    !char_is_alphanumeric(c) && c != '_' && c != '-' && !('\u{4e00}' <= c && c <= '\u{9fff}')
}

/// `text` holds a mention of `name` at `i`: an `@` that does not follow a
/// name character, then `name` compared character by character without
/// case, ending at the end of the text or before a character that ends a
/// name.
pub open spec fn mention_at(text: Seq<char>, i: int, name: Seq<char>) -> bool {
    let end = i + 1 + name.len();
    &&& 0 <= i
    &&& end <= text.len()
    &&& text[i] == '@'
    &&& (i == 0 || ends_a_name(text[i - 1]))
    &&& fold_case(text).subrange(i + 1, end) == name
    &&& (end == text.len() || ends_a_name(text[end]))
}

spec fn scanned(chars: Seq<char>, lower: Seq<char>, names: Seq<(Seq<char>, Seq<char>)>, x: Seq<char>, j: int, k: int) -> bool {
    &&& 0 <= j < chars.len()
    &&& 0 <= k < names.len()
    &&& names[k].0 == x
    &&& chars[j] == '@'
    &&& (j == 0 || !name_char(chars[j - 1]))
    &&& name_matches(chars, lower, names[k].1, j)
}

proof fn lemma_scan_found(chars: Seq<char>, lower: Seq<char>, names: Seq<(Seq<char>, Seq<char>)>, idx: int, m: int)
    requires
        0 <= idx,
        0 <= m < scan_spec(chars, lower, names, idx).len(),
    ensures
        exists|j: int, k: int| #[trigger] scanned(chars, lower, names, scan_spec(chars, lower, names, idx)[m], j, k),
    decreases chars.len() - idx,
{
    let s = scan_spec(chars, lower, names, idx);
    if idx >= chars.len() {
        assert(s.len() == 0);
    } else if chars[idx] != '@' || (idx > 0 && name_char(chars[idx - 1])) {
        assert(s == scan_spec(chars, lower, names, idx + 1));
        lemma_scan_found(chars, lower, names, idx + 1, m);
    } else {
        lemma_best_name(chars, lower, names, idx, names.len() as int);
        match best_name(chars, lower, names, idx, names.len() as int) {
            Some(k) => {
                let next = idx + 1 + names[k].1.len();
                let rest = if next < chars.len() {
                    scan_spec(chars, lower, names, next)
                } else {
                    Seq::empty()
                };
                assert(s == seq![names[k].0] + rest);
                if m == 0 {
                    assert(s[0] == names[k].0);
                    assert(scanned(chars, lower, names, s[m], idx, k));
                } else {
                    assert(s[m] == rest[m - 1]);
                    lemma_scan_found(chars, lower, names, next, m - 1);
                }
            },
            None => {
                assert(s == scan_spec(chars, lower, names, idx + 1));
                lemma_scan_found(chars, lower, names, idx + 1, m);
            },
        }
    }
}

proof fn lemma_dedupe_from(s: Seq<Seq<char>>)
    ensures
        forall|m: int|
            #![trigger dedupe(s)[m]]
            0 <= m < dedupe(s).len() ==> exists|n: int| 0 <= n < s.len() && #[trigger] s[n] == dedupe(s)[m],
    decreases s.len(),
{
    if s.len() > 0 {
        let init = s.drop_last();
        lemma_dedupe_from(init);
        assert forall|m: int| #![trigger dedupe(s)[m]] 0 <= m < dedupe(s).len() implies exists|n: int| 0 <= n < s.len() && #[trigger] s[n]
            == dedupe(s)[m] by {
            if m < dedupe(init).len() {
                assert(dedupe(s)[m] == dedupe(init)[m]);
                let n = choose|n: int| 0 <= n < init.len() && #[trigger] init[n] == dedupe(init)[m];
                assert(s[n] == init[n]);
            } else {
                assert(s[s.len() - 1] == dedupe(s)[m]);
            }
        }
    }
}

proof fn lemma_name_list_from<'a>(cands: Seq<MentionTarget<'a>>)
    ensures
        forall|k: int|
            #![trigger name_list(cands)[k]]
            0 <= k < name_list(cands).len() ==> exists|c: int|
                0 <= c < cands.len() && cands[c].agent_id@ == #[trigger] name_list(cands)[k].0
                    && cands[c].display_name@.len() > 0 && name_list(cands)[k].1 == fold_case(cands[c].display_name@),
    decreases cands.len(),
{
    if cands.len() > 0 {
        let init = cands.drop_last();
        lemma_name_list_from(init);
        let nl = name_list(cands);
        assert forall|k: int| #![trigger nl[k]] 0 <= k < nl.len() implies exists|c: int|
            0 <= c < cands.len() && cands[c].agent_id@ == #[trigger] nl[k].0 && cands[c].display_name@.len() > 0
                && nl[k].1 == fold_case(cands[c].display_name@) by {
            if k < name_list(init).len() {
                assert(nl[k] == name_list(init)[k]);
                let c = choose|c: int|
                    0 <= c < init.len() && init[c].agent_id@ == #[trigger] name_list(init)[k].0
                        && init[c].display_name@.len() > 0 && name_list(init)[k].1 == fold_case(init[c].display_name@);
                assert(cands[c] == init[c]);
            } else {
                assert(cands[cands.len() - 1] == cands.last());
            }
        }
    }
}

/// Some candidate with the id `id` and a display name is mentioned in `text`
/// at some position.
pub open spec fn mentioned_in<'a>(text: Seq<char>, cands: Seq<MentionTarget<'a>>, id: Seq<char>) -> bool {
    exists|i: int, c: int|
        0 <= c < cands.len() && cands[c].agent_id@ == id && cands[c].display_name@.len() > 0 && #[trigger] mention_at(
            text,
            i,
            fold_case(cands[c].display_name@),
        )
}

/// Every agent reported as mentioned is mentioned in the visible text: at
/// some position the text holds an `@` followed by that agent's display
/// name, compared without case, and the name ends there (at the end of the
/// text or before a character that cannot continue a name), so a longer
/// word that merely starts with the name is no mention of it.
pub proof fn lemma_mentions_end_at_a_boundary<'a>(md: Seq<char>, cands: Seq<MentionTarget<'a>>)
    ensures
        forall|m: int|
            0 <= m < mentions_spec(md, cands).len() ==> mentioned_in(visible_spec(md), cands, #[trigger] mentions_spec(md, cands)[m]),
{
    if cands.len() > 0 && md.contains('@') {
        let visible = visible_spec(md);
        let lower = fold_case(visible);
        let nl = name_list(cands);
        let sc = scan_spec(visible, lower, nl, 0);
        let found = mentions_spec(md, cands);
        assert(found == dedupe(sc));
        lemma_dedupe_from(sc);
        lemma_name_list_from(cands);
        assert forall|m: int| 0 <= m < found.len() implies mentioned_in(visible, cands, #[trigger] found[m]) by {
            let n = choose|n: int| 0 <= n < sc.len() && #[trigger] sc[n] == dedupe(sc)[m];
            lemma_scan_found(visible, lower, nl, 0, n);
            let (j, k) = choose|j: int, k: int| #[trigger] scanned(visible, lower, nl, sc[n], j, k);
            let c = choose|c: int|
                0 <= c < cands.len() && cands[c].agent_id@ == #[trigger] nl[k].0 && cands[c].display_name@.len() > 0
                    && nl[k].1 == fold_case(cands[c].display_name@);
            assert(lower.len() == visible.len());
            assert(mention_at(visible, j, fold_case(cands[c].display_name@)));
        }
    }
}

fn contains_at(text: &str) -> (r: bool)
    ensures
        r == text@.contains('@'),
{
    let v = chars_of(text);
    let mut i: usize = 0;
    while i < v.len()
        invariant
            i <= v@.len(),
            v@ == text@,
            forall|k: int| 0 <= k < i ==> v@[k] != '@',
        decreases v@.len() - i,
    {
        if v[i] == '@' {
            return true;
        }
        i = i + 1;
    }
    false
}

fn equal_at(hay: &[char], start: usize, needle: &[char]) -> (r: bool)
    requires
        start + needle@.len() <= hay@.len(),
    ensures
        r == (hay@.subrange(start as int, start + needle@.len()) == needle@),
{
    let hay_len = hay.len();
    let mut k: usize = 0;
    while k < needle.len()
        invariant
            k <= needle@.len(),
            hay_len == hay@.len(),
            start + needle@.len() <= hay@.len(),
            forall|j: int| 0 <= j < k ==> hay@[start + j] == needle@[j],
        decreases needle@.len() - k,
    {
        if hay[start + k] != needle[k] {
            assert(hay@.subrange(start as int, start + needle@.len())[k as int] != needle@[k as int]);
            return false;
        }
        k = k + 1;
    }
    assert(hay@.subrange(start as int, start + needle@.len()) =~= needle@);
    true
}

fn contains_text(found: &Vec<String>, id: &str) -> (r: bool)
    ensures
        r == found@.map_values(|s: String| s@).contains(id@),
{
    let ghost view = found@.map_values(|s: String| s@);
    let mut i: usize = 0;
    while i < found.len()
        invariant
            i <= found@.len(),
            view == found@.map_values(|s: String| s@),
            forall|k: int| 0 <= k < i ==> view[k] != id@,
        decreases found@.len() - i,
    {
        if same_text(found[i].as_str(), id) {
            assert(view[i as int] == id@);
            return true;
        }
        i = i + 1;
    }
    false
}

/// Find agent mentions in visible Markdown prose, in textual order, each
/// agent once. At each `@` that does not follow a name character the longest
/// matching display name wins, compared without case character by
/// character, and must end at a name boundary; text in code, quotes and link destinations does not count.
pub fn scan_visible_mentions(markdown: &str, candidates: &[MentionTarget<'_>]) -> (r: Vec<String>)
    ensures
        r@.map_values(|s: String| s@) == mentions_spec(markdown@, candidates@),
{
    if candidates.len() == 0 || !contains_at(markdown) {
        let empty: Vec<String> = Vec::new();
        assert(empty@.map_values(|s: String| s@) =~= Seq::<Seq<char>>::empty());
        return empty;
    }
    let visible = visible_markdown(markdown);
    let chars = chars_of(visible.as_str());
    let lower = fold_case_exec(chars.as_slice());
    let ghost cs = chars@;
    let ghost ls = lower@;
    let ghost nl = name_list(candidates@);
    let mut names: Vec<(usize, Vec<char>)> = Vec::new();
    let ghost mut built: Seq<(Seq<char>, Seq<char>)> = Seq::empty();
    let mut c: usize = 0;
    while c < candidates.len()
        invariant
            c <= candidates@.len(),
            built == name_list(candidates@.take(c as int)),
            names@.len() == built.len(),
            forall|j: int| 0 <= j < names@.len() ==> (#[trigger] names@[j]).0 < candidates@.len(),
            forall|j: int| 0 <= j < names@.len() ==> (#[trigger] built[j]) == (candidates@[names@[j].0 as int].agent_id@, names@[j].1@),
        decreases candidates@.len() - c,
    {
        let ghost prev = candidates@.take(c as int);
        assert(candidates@.take(c as int + 1).drop_last() =~= prev);
        assert(candidates@.take(c as int + 1).last() == candidates@[c as int]);
        let display = chars_of(candidates[c].display_name);
        let ghost old_names = names@;
        let ghost old_built = built;
        if display.len() > 0 {
            let display_chars = chars_of(candidates[c].display_name);
            let name_chars = fold_case_exec(display_chars.as_slice());
            names.push((c, name_chars));
            proof {
                built = built.push((candidates@[c as int].agent_id@, fold_case(candidates@[c as int].display_name@)));
            }
        }
        assert(built == name_list(candidates@.take(c as int + 1)));
        assert forall|j: int| 0 <= j < names@.len() implies (#[trigger] names@[j]).0 < candidates@.len() && built[j] == (
            candidates@[names@[j].0 as int].agent_id@,
            names@[j].1@,
        ) by {
            if j < old_names.len() {
                assert(names@[j] == old_names[j]);
                assert(built[j] == old_built[j]);
            }
        }
        c = c + 1;
    }
    assert(candidates@.take(c as int) =~= candidates@);
    assert(built == nl);
    let n = chars.len();
    let lower_len = lower.len();
    let mut found: Vec<String> = Vec::new();
    let ghost mut acc: Seq<Seq<char>> = Seq::empty();
    let mut index: usize = 0;
    while index < n
        invariant
            n == cs.len(),
            cs == chars@,
            ls == lower@,
            lower_len == ls.len(),
            nl == name_list(candidates@),
            names@.len() == nl.len(),
            forall|j: int| 0 <= j < names@.len() ==> (#[trigger] names@[j]).0 < candidates@.len(),
            forall|j: int| 0 <= j < names@.len() ==> (#[trigger] nl[j]) == (candidates@[names@[j].0 as int].agent_id@, names@[j].1@),
            acc + scan_spec(cs, ls, nl, index as int) == scan_spec(cs, ls, nl, 0),
            found@.map_values(|s: String| s@) == dedupe(acc),
        decreases n - index,
    {
        if chars[index] != '@' || (index > 0 && is_name_char(chars[index - 1])) {
            index = index + 1;
            continue;
        }
        let mut best: Option<usize> = None;
        let mut j: usize = 0;
        while j < names.len()
            invariant
                j <= names@.len(),
                index < n,
                n == cs.len(),
                cs == chars@,
                ls == lower@,
                names@.len() == nl.len(),
                forall|q: int| 0 <= q < names@.len() ==> (#[trigger] nl[q]).1 == names@[q].1@,
                match best_name(cs, ls, nl, index as int, j as int) {
                    Some(b) => best == Some(b as usize),
                    None => best is None,
                },
                best matches Some(b) ==> b < j,
            decreases names@.len() - j,
        {
            assert(nl[j as int].1 == names@[j as int].1@);
            proof {
                lemma_best_name(cs, ls, nl, index as int, j as int);
                lemma_best_name(cs, ls, nl, index as int, j as int + 1);
            }
            let ghost prev_best = best_name(cs, ls, nl, index as int, j as int);
            let name = names[j].1.as_slice();
            let fits = index + 1 <= lower.len() && name.len() <= lower.len() - (index + 1);
            let mut matched = false;
            if fits {
                let end = index + 1 + name.len();
                if equal_at(lower.as_slice(), index + 1, name) {
                    matched = !(end < n && is_name_char(chars[end]));
                }
            }
            assert(matched == name_matches(cs, ls, nl[j as int].1, index as int));
            let longer = match best {
                None => true,
                Some(b) => {
                    assert(nl[b as int].1 == names@[b as int].1@);
                    name.len() > names[b].1.len()
                },
            };
            assert(longer == (prev_best is None || nl[j as int].1.len() > nl[prev_best->0].1.len()));
            if matched && longer {
                best = Some(j);
            }
            j = j + 1;
        }
        proof {
            lemma_best_name(cs, ls, nl, index as int, nl.len() as int);
        }
        match best {
            Some(b) => {
                assert(nl[b as int].1 == names@[b as int].1@);
                let target = candidates[names[b].0].agent_id;
                assert(nl[b as int].0 == target@);
                let ghost before = found@;
                if !contains_text(&found, target) {
                    found.push(target.to_owned());
                    assert(found@.map_values(|s: String| s@) =~= before.map_values(|s: String| s@).push(target@));
                }
                proof {
                    assert(acc.push(target@).drop_last() =~= acc);
                    let next = index + 1 + nl[b as int].1.len();
                    assert(scan_spec(cs, ls, nl, n as int) =~= Seq::<Seq<char>>::empty());
                    assert(acc + scan_spec(cs, ls, nl, index as int) =~= acc.push(target@) + scan_spec(
                        cs,
                        ls,
                        nl,
                        next,
                    ));
                    acc = acc.push(target@);
                }
                let next = index + 1 + names[b].1.len();
                index = if next < n { next } else { n };
            },
            None => {
                index = index + 1;
            },
        }
    }
    proof {
        assert(acc + scan_spec(cs, ls, nl, index as int) =~= acc);
    }
    found
}

} // verus!
