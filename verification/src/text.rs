use vstd::prelude::*;

verus! {

/// The character at index `i`.
pub open spec fn char_at(t: Seq<char>, i: int) -> char {
    t[i]
}

/// Whether two strings hold the same characters.
pub fn same_text(a: &str, b: &str) -> (r: bool)
    ensures
        r == (a@ == b@),
{
    let x = a.to_owned();
    let y = b.to_owned();
    x == y
}

/// The characters of `s`, in order.
pub fn chars_of(s: &str) -> (r: Vec<char>)
    ensures
        r@ == s@,
{
    let mut out: Vec<char> = Vec::new();
    for c in it: s.chars()
        invariant
            out@ == it.seq().take(it.index() as int),
    {
        out.push(c);
    }
    out
}


/// Whether `c` has the Unicode `White_Space` property, which is what
/// `char::is_whitespace` reports: the ASCII controls from tab to carriage
/// return, space, next line, no-break space, Ogham space mark, the spaces from
/// en quad to hair space, the line and paragraph separators, narrow no-break
/// space, medium mathematical space and ideographic space.
pub open spec fn char_is_whitespace(c: char) -> bool {
    let u = c as u32;
    ||| 0x09 <= u <= 0x0D
    ||| u == 0x20
    ||| u == 0x85
    ||| u == 0xA0
    ||| u == 0x1680
    ||| 0x2000 <= u <= 0x200A
    ||| u == 0x2028
    ||| u == 0x2029
    ||| u == 0x202F
    ||| u == 0x205F
    ||| u == 0x3000
}

/// What `char::is_alphanumeric` reports for `c` (the Unicode `Alphabetic` or
/// `Numeric` property).
pub uninterp spec fn char_is_alphanumeric(c: char) -> bool;

/// The characters `str::to_lowercase` turns `s` into.
pub uninterp spec fn lowercase(s: Seq<char>) -> Seq<char>;

/// Whether `c` is whitespace in the sense of `char::is_whitespace`.
pub fn is_whitespace(c: char) -> (r: bool)
    ensures
        r == char_is_whitespace(c),
{
    let u = c as u32;
    (0x09 <= u && u <= 0x0D) || u == 0x20 || u == 0x85 || u == 0xA0 || u == 0x1680 || (0x2000 <= u && u <= 0x200A)
        || u == 0x2028 || u == 0x2029 || u == 0x202F || u == 0x205F || u == 0x3000
}

/// `char::is_alphanumeric` from std; the contract names its result.
#[verifier::external_body]
pub(crate) fn is_alphanumeric(c: char) -> (r: bool)
    ensures
        r == char_is_alphanumeric(c),
{
    c.is_alphanumeric()
}

/// `str::to_lowercase` from std; the contract names its result.
#[verifier::external_body]
pub(crate) fn to_lowercase(s: &str) -> (r: String)
    ensures
        r@ == lowercase(s@),
{
    s.to_lowercase()
}

/// `String::push` from std: appends one character.
#[verifier::external_body]
pub(crate) fn push_char(s: &mut String, c: char)
    ensures
        final(s)@ == old(s)@.push(c),
{
    s.push(c)
}

/// `c` on its own in lower case: what `str::to_lowercase` makes of the
/// one-character string `c` where that is a single character, else `c`.
pub open spec fn fold_char(c: char) -> char {
    let l = lowercase(seq![c]);
    if l.len() == 1 {
        l[0]
    } else {
        c
    }
}

/// `s` folded to lower case character by character; unlike `lowercase`, it
/// keeps every character at its place.
pub open spec fn fold_case(s: Seq<char>) -> Seq<char> {
    Seq::new(s.len(), |i: int| fold_char(s[i]))
}

/// `c` in lower case where that is one character, else `c`.
pub fn fold_char_exec(c: char) -> (r: char)
    ensures
        r == fold_char(c),
{
    let mut one = String::new();
    push_char(&mut one, c);
    assert(one@ =~= seq![c]);
    let lowered = to_lowercase(one.as_str());
    let l = chars_of(lowered.as_str());
    if l.len() == 1 {
        l[0]
    } else {
        c
    }
}

/// `s` folded to lower case character by character.
pub fn fold_case_exec(s: &[char]) -> (r: Vec<char>)
    ensures
        r@ == fold_case(s@),
{
    let mut out: Vec<char> = Vec::new();
    let mut i: usize = 0;
    while i < s.len()
        invariant
            i <= s@.len(),
            out@ == fold_case(s@).take(i as int),
        decreases s@.len() - i,
    {
        let f = fold_char_exec(s[i]);
        out.push(f);
        i = i + 1;
        assert(out@ =~= fold_case(s@).take(i as int));
    }
    assert(fold_case(s@).take(i as int) =~= fold_case(s@));
    out
}

/// A string holding exactly the characters of `v`.
pub fn string_from_chars(v: &[char]) -> (r: String)
    ensures
        r@ == v@,
{
    let mut out = String::new();
    let mut i: usize = 0;
    while i < v.len()
        invariant
            i <= v@.len(),
            out@ == v@.take(i as int),
        decreases v@.len() - i,
    {
        push_char(&mut out, v[i]);
        i = i + 1;
        assert(out@ =~= v@.take(i as int));
    }
    assert(v@.take(i as int) =~= v@);
    out
}

/// A string holding the characters of `v` from `start` up to `end`.
pub fn string_from_range(v: &[char], start: usize, end: usize) -> (r: String)
    requires
        start <= end <= v@.len(),
    ensures
        r@ == v@.subrange(start as int, end as int),
{
    let mut out = String::new();
    let mut i: usize = start;
    while i < end
        invariant
            start <= i <= end <= v@.len(),
            out@ == v@.subrange(start as int, i as int),
        decreases end - i,
    {
        push_char(&mut out, v[i]);
        i = i + 1;
        assert(out@ =~= v@.subrange(start as int, i as int));
    }
    out
}

/// `a` followed by `b`.
pub fn concat(a: &str, b: &str) -> (r: String)
    ensures
        r@ == a@ + b@,
{
    let mut out = a.to_owned();
    out.append(b);
    out
}

/// Index of the first non-whitespace character at or after `i` (or the length).
pub open spec fn first_non_ws(s: Seq<char>, i: int) -> int
    decreases s.len() - i,
{
    if i < 0 || i >= s.len() {
        s.len() as int
    } else if !char_is_whitespace(s[i]) {
        i
    } else {
        first_non_ws(s, i + 1)
    }
}

/// One past the last non-whitespace character before `j` (or zero).
pub open spec fn last_non_ws_end(s: Seq<char>, j: int) -> int
    decreases j,
{
    if j <= 0 || j > s.len() {
        0
    } else if !char_is_whitespace(s[j - 1]) {
        j
    } else {
        last_non_ws_end(s, j - 1)
    }
}

/// `s` without leading whitespace, as `str::trim_start` gives it.
pub open spec fn trim_start_spec(s: Seq<char>) -> Seq<char> {
    s.subrange(first_non_ws(s, 0), s.len() as int)
}

/// `s` without trailing whitespace, as `str::trim_end` gives it.
pub open spec fn trim_end_spec(s: Seq<char>) -> Seq<char> {
    s.subrange(0, last_non_ws_end(s, s.len() as int))
}

/// `s` without leading or trailing whitespace, as `str::trim` gives it.
pub open spec fn trim_spec(s: Seq<char>) -> Seq<char> {
    trim_end_spec(trim_start_spec(s))
}

pub proof fn lemma_first_non_ws(s: Seq<char>, i: int)
    requires
        0 <= i <= s.len(),
    ensures
        i <= first_non_ws(s, i) <= s.len(),
        forall|k: int| i <= k < first_non_ws(s, i) ==> char_is_whitespace(s[k]),
        first_non_ws(s, i) < s.len() ==> !char_is_whitespace(s[first_non_ws(s, i)]),
    decreases s.len() - i,
{
    if i < s.len() {
        lemma_first_non_ws(s, i + 1);
    }
}

pub proof fn lemma_last_non_ws_end(s: Seq<char>, j: int)
    requires
        0 <= j <= s.len(),
    ensures
        0 <= last_non_ws_end(s, j) <= j,
        forall|k: int| last_non_ws_end(s, j) <= k < j ==> char_is_whitespace(s[k]),
        last_non_ws_end(s, j) > 0 ==> !char_is_whitespace(s[last_non_ws_end(s, j) - 1]),
    decreases j,
{
    if j > 0 {
        lemma_last_non_ws_end(s, j - 1);
    }
}

fn leading_ws_end(v: &[char], from: usize) -> (r: usize)
    requires
        from <= v@.len(),
    ensures
        r as int == first_non_ws(v@, from as int),
{
    let mut i = from;
    while i < v.len() && is_whitespace(v[i])
        invariant
            from <= i <= v@.len(),
            first_non_ws(v@, from as int) == first_non_ws(v@, i as int),
        decreases v@.len() - i,
    {
        i = i + 1;
    }
    i
}

fn trailing_ws_start(v: &[char], to: usize) -> (r: usize)
    requires
        to <= v@.len(),
    ensures
        r as int == last_non_ws_end(v@, to as int),
{
    let mut j = to;
    while j > 0 && is_whitespace(v[j - 1])
        invariant
            j <= to <= v@.len(),
            last_non_ws_end(v@, to as int) == last_non_ws_end(v@, j as int),
        decreases j,
    {
        j = j - 1;
    }
    j
}

/// The bounds of `v` with surrounding whitespace removed.
pub fn trim_bounds(v: &[char]) -> (r: (usize, usize))
    ensures
        r.0 <= r.1 <= v@.len(),
        v@.subrange(r.0 as int, r.1 as int) == trim_spec(v@),
{
    let start = leading_ws_end(v, 0);
    proof {
        lemma_first_non_ws(v@, 0);
    }
    let ghost tail = v@.subrange(start as int, v@.len() as int);
    let end = trailing_ws_start(v, v.len());
    proof {
        lemma_last_non_ws_end(v@, v@.len() as int);
        lemma_last_non_ws_end(tail, tail.len() as int);
        let e = last_non_ws_end(v@, v@.len() as int);
        let te = last_non_ws_end(tail, tail.len() as int);
        if start < v@.len() {
            assert(e >= start + 1) by {
                if e < start + 1 {
                    assert(char_is_whitespace(v@[start as int]));
                }
            }
            assert(te == e - start) by {
                if te < e - start {
                    assert(tail[e - start - 1] == v@[e - 1]);
                } else if te > e - start {
                    assert(tail[te - 1] == v@[start + te - 1]);
                }
            }
        } else {
            assert(tail.len() == 0);
        }
    }
    if start >= end {
        assert(trim_spec(v@) =~= v@.subrange(start as int, start as int));
        (start, start)
    } else {
        assert(trim_spec(v@) =~= v@.subrange(start as int, end as int));
        (start, end)
    }
}

/// `s` with surrounding whitespace removed, as `str::trim` gives it.
pub fn trim(s: &str) -> (r: String)
    ensures
        r@ == trim_spec(s@),
{
    let v = chars_of(s);
    let (a, b) = trim_bounds(v.as_slice());
    string_from_range(v.as_slice(), a, b)
}

/// Whether `s` is empty once surrounding whitespace is removed.
pub fn is_blank(s: &str) -> (r: bool)
    ensures
        r == (trim_spec(s@).len() == 0),
{
    let v = chars_of(s);
    let (a, b) = trim_bounds(v.as_slice());
    a == b
}


/// The words of `s` (maximal runs without whitespace) joined by single
/// spaces, as `split_whitespace().join(" ")` gives it.
pub open spec fn collapse_ws(s: Seq<char>) -> Seq<char>
    decreases s.len(),
{
    if s.len() == 0 {
        s
    } else {
        let init = s.drop_last();
        let c = s.last();
        let before = collapse_ws(init);
        if char_is_whitespace(c) {
            before
        } else if init.len() > 0 && char_is_whitespace(init.last()) && before.len() > 0 {
            before.push(' ').push(c)
        } else {
            before.push(c)
        }
    }
}

/// `s` with its whitespace runs collapsed to single spaces and the ends
/// trimmed: `split_whitespace().join(" ")`.
pub fn collapse_whitespace(s: &str) -> (r: Vec<char>)
    ensures
        r@ == collapse_ws(s@),
{
    let v = chars_of(s);
    let mut out: Vec<char> = Vec::new();
    let mut i: usize = 0;
    while i < v.len()
        invariant
            i <= v@.len(),
            v@ == s@,
            out@ == collapse_ws(v@.take(i as int)),
        decreases v@.len() - i,
    {
        let c = v[i];
        let ghost prefix = v@.take(i as int);
        assert(v@.take(i as int + 1).drop_last() =~= prefix);
        if is_whitespace(c) {
        } else if i > 0 && is_whitespace(v[i - 1]) && out.len() > 0 {
            out.push(' ');
            out.push(c);
        } else {
            out.push(c);
        }
        i = i + 1;
    }
    assert(v@.take(i as int) =~= v@);
    out
}

/// The first `n` characters of `s` (all of it when shorter).
pub open spec fn take_chars(s: Seq<char>, n: int) -> Seq<char> {
    if s.len() <= n { s } else { s.take(n) }
}


/// The characters of `v` from `start` up to `end`.
pub fn chars_range(v: &[char], start: usize, end: usize) -> (r: Vec<char>)
    requires
        start <= end <= v@.len(),
    ensures
        r@ == v@.subrange(start as int, end as int),
{
    let mut out: Vec<char> = Vec::new();
    let mut i: usize = start;
    while i < end
        invariant
            start <= i <= end <= v@.len(),
            out@ == v@.subrange(start as int, i as int),
        decreases end - i,
    {
        out.push(v[i]);
        i = i + 1;
        assert(out@ =~= v@.subrange(start as int, i as int));
    }
    out
}

/// `v` with surrounding whitespace removed.
pub fn trim_chars(v: &[char]) -> (r: Vec<char>)
    ensures
        r@ == trim_spec(v@),
{
    let (a, b) = trim_bounds(v);
    chars_range(v, a, b)
}

/// `v` without leading whitespace.
pub fn trim_start_chars(v: &[char]) -> (r: Vec<char>)
    ensures
        r@ == trim_start_spec(v@),
{
    let a = leading_ws_end(v, 0);
    proof {
        lemma_first_non_ws(v@, 0);
    }
    chars_range(v, a, v.len())
}

/// The first `n` characters of `v`.
pub fn take_chars_exec(v: &[char], n: usize) -> (r: Vec<char>)
    ensures
        r@ == take_chars(v@, n as int),
{
    if v.len() <= n {
        chars_range(v, 0, v.len())
    } else {
        chars_range(v, 0, n)
    }
}

/// Whether two character sequences are equal.
pub fn chars_eq(a: &[char], b: &[char]) -> (r: bool)
    ensures
        r == (a@ == b@),
{
    if a.len() != b.len() {
        return false;
    }
    let mut i: usize = 0;
    while i < a.len()
        invariant
            a@.len() == b@.len(),
            i <= a@.len(),
            forall|k: int| 0 <= k < i ==> a@[k] == b@[k],
        decreases a@.len() - i,
    {
        if a[i] != b[i] {
            return false;
        }
        i = i + 1;
    }
    assert(a@ =~= b@);
    true
}


/// The ASCII digit for `d < 10`.
pub open spec fn digit_char(d: nat) -> char {
    if d == 0 { '0' }
    else if d == 1 { '1' }
    else if d == 2 { '2' }
    else if d == 3 { '3' }
    else if d == 4 { '4' }
    else if d == 5 { '5' }
    else if d == 6 { '6' }
    else if d == 7 { '7' }
    else if d == 8 { '8' }
    else { '9' }
}

/// The decimal digits of `n`, most significant first, as `Display` prints it.
pub open spec fn decimal(n: nat) -> Seq<char>
    decreases n,
{
    if n < 10 {
        seq![digit_char(n)]
    } else {
        decimal(n / 10).push(digit_char(n % 10))
    }
}

/// `n` in decimal with a leading `-` when negative, as `Display` prints it.
pub open spec fn signed_decimal(n: int) -> Seq<char> {
    if n < 0 {
        seq!['-'] + decimal((-n) as nat)
    } else {
        decimal(n as nat)
    }
}

fn digit(d: u64) -> (c: char)
    requires
        d < 10,
    ensures
        c == digit_char(d as nat),
{
    if d == 0 { '0' }
    else if d == 1 { '1' }
    else if d == 2 { '2' }
    else if d == 3 { '3' }
    else if d == 4 { '4' }
    else if d == 5 { '5' }
    else if d == 6 { '6' }
    else if d == 7 { '7' }
    else if d == 8 { '8' }
    else { '9' }
}

/// Append the decimal digits of `n` to `out`.
pub fn push_decimal(out: &mut String, n: u64)
    ensures
        final(out)@ == old(out)@ + decimal(n as nat),
    decreases n,
{
    if n >= 10 {
        push_decimal(out, n / 10);
    }
    push_char(out, digit(n % 10));
    assert(decimal(n as nat) =~= if n < 10 { seq![digit_char(n as nat)] } else { decimal((n / 10) as nat).push(digit_char((n % 10) as nat)) });
}

/// Append `n` in decimal, with a leading `-` when negative.
pub fn push_signed_decimal(out: &mut String, n: i64)
    ensures
        final(out)@ == old(out)@ + signed_decimal(n as int),
{
    if n < 0 {
        push_char(out, '-');
        let magnitude: u64 = ((-(n + 1)) as u64) + 1;
        push_decimal(out, magnitude);
        assert(final(out)@ =~= old(out)@ + signed_decimal(n as int));
    } else {
        push_decimal(out, n as u64);
    }
}


/// The pieces of `s` between newlines, as `str::split('\n')` yields them: one
/// more piece than there are newlines.
pub open spec fn split_lines(s: Seq<char>) -> Seq<Seq<char>>
    decreases s.len(),
{
    if s.len() == 0 {
        seq![Seq::empty()]
    } else {
        let prev = split_lines(s.drop_last());
        if s.last() == '\n' {
            prev.push(Seq::empty())
        } else {
            prev.update(prev.len() - 1, prev.last().push(s.last()))
        }
    }
}

/// The pieces joined with newlines between them.
pub open spec fn join_lines(lines: Seq<Seq<char>>) -> Seq<char>
    decreases lines.len(),
{
    if lines.len() == 0 {
        Seq::empty()
    } else if lines.len() == 1 {
        lines[0]
    } else {
        join_lines(lines.drop_last()) + seq!['\n'] + lines.last()
    }
}

pub proof fn lemma_split_lines_nonempty(s: Seq<char>)
    ensures
        split_lines(s).len() >= 1,
    decreases s.len(),
{
    if s.len() > 0 {
        lemma_split_lines_nonempty(s.drop_last());
    }
}

proof fn lemma_join_update_last(lines: Seq<Seq<char>>, c: char)
    requires
        lines.len() >= 1,
    ensures
        join_lines(lines.update(lines.len() - 1, lines.last().push(c))) == join_lines(lines).push(c),
{
    let u = lines.update(lines.len() - 1, lines.last().push(c));
    if lines.len() == 1 {
        assert(u[0] == lines[0].push(c));
    } else {
        assert(u.drop_last() =~= lines.drop_last());
        assert(join_lines(u) =~= join_lines(lines).push(c));
    }
}

/// Splitting on newlines and joining back gives the text unchanged.
pub proof fn lemma_join_split(s: Seq<char>)
    ensures
        join_lines(split_lines(s)) == s,
    decreases s.len(),
{
    if s.len() > 0 {
        let init = s.drop_last();
        lemma_join_split(init);
        lemma_split_lines_nonempty(init);
        let prev = split_lines(init);
        if s.last() == '\n' {
            assert(prev.push(Seq::empty()).drop_last() =~= prev);
            assert(join_lines(prev.push(Seq::empty())) =~= s);
        } else {
            lemma_join_update_last(prev, s.last());
            assert(init.push(s.last()) =~= s);
        }
    }
}

/// Split `v` on newlines.
pub fn split_lines_exec(v: &[char]) -> (r: Vec<Vec<char>>)
    ensures
        r@.len() == split_lines(v@).len(),
        forall|k: int| 0 <= k < r@.len() ==> #[trigger] r@[k]@ == split_lines(v@)[k],
{
    let mut lines: Vec<Vec<char>> = Vec::new();
    lines.push(Vec::new());
    let mut i: usize = 0;
    while i < v.len()
        invariant
            i <= v@.len(),
            lines@.len() == split_lines(v@.take(i as int)).len(),
            lines@.len() >= 1,
            forall|k: int| 0 <= k < lines@.len() ==> #[trigger] lines@[k]@ == split_lines(v@.take(i as int))[k],
        decreases v@.len() - i,
    {
        let c = v[i];
        let ghost before = split_lines(v@.take(i as int));
        assert(v@.take(i as int + 1).drop_last() =~= v@.take(i as int));
        if c == '\n' {
            lines.push(Vec::new());
        } else {
            let last = lines.len() - 1;
            let mut line = lines.pop().unwrap();
            line.push(c);
            lines.push(line);
            assert(lines@.len() == before.len());
            assert forall|k: int| 0 <= k < lines@.len() implies #[trigger] lines@[k]@ == before.update(
                before.len() - 1,
                before.last().push(c),
            )[k] by {
                if k < last as int {
                } else {
                }
            }
        }
        i = i + 1;
    }
    assert(v@.take(i as int) =~= v@);
    lines
}

/// The pieces joined with newlines between them, as a string.
pub fn join_lines_exec(lines: &Vec<Vec<char>>) -> (r: String)
    ensures
        r@ == join_lines(lines@.map_values(|l: Vec<char>| l@)),
{
    let ghost views = lines@.map_values(|l: Vec<char>| l@);
    let mut out = String::new();
    let mut i: usize = 0;
    while i < lines.len()
        invariant
            i <= lines@.len(),
            views == lines@.map_values(|l: Vec<char>| l@),
            out@ == join_lines(views.take(i as int)),
        decreases lines@.len() - i,
    {
        assert(views.take(i as int + 1).drop_last() =~= views.take(i as int));
        if i > 0 {
            push_char(&mut out, '\n');
        }
        let line = &lines[i];
        let mut k: usize = 0;
        let ghost base = out@;
        while k < line.len()
            invariant
                k <= line@.len(),
                out@ == base + line@.take(k as int),
            decreases line@.len() - k,
        {
            push_char(&mut out, line[k]);
            k = k + 1;
            assert(out@ =~= base + line@.take(k as int));
        }
        assert(line@.take(k as int) =~= line@);
        i = i + 1;
        assert(out@ =~= join_lines(views.take(i as int)));
    }
    assert(views.take(i as int) =~= views);
    out
}


/// Joining two non-empty lists of pieces is joining each and putting a
/// newline between.
pub proof fn lemma_join_concat(a: Seq<Seq<char>>, b: Seq<Seq<char>>)
    requires
        a.len() >= 1,
        b.len() >= 1,
    ensures
        join_lines(a + b) == join_lines(a) + seq!['\n'] + join_lines(b),
    decreases b.len(),
{
    if b.len() == 1 {
        assert((a + b).drop_last() =~= a);
        assert((a + b).last() == b[0]);
    } else {
        lemma_join_concat(a, b.drop_last());
        assert((a + b).drop_last() =~= a + b.drop_last());
        assert((a + b).last() == b.last());
        assert(join_lines(a + b) =~= join_lines(a) + seq!['\n'] + join_lines(b));
    }
}

/// A number has at most one decimal digit more than a tenth of its value.
pub proof fn lemma_decimal_len(n: nat)
    ensures
        decimal(n).len() <= n / 10 + 1,
    decreases n,
{
    if n >= 10 {
        lemma_decimal_len(n / 10);
    }
}

} // verus!
