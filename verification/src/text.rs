//! Text as sequences of characters: searching, splitting, lines and trimming.
//!
//! Every function here is stated over `Seq<char>`, the view of `str`, `String`
//! and `Vec<char>` alike. The executable functions work on `Vec<char>`, which
//! can be indexed in constant time.

use vstd::prelude::*;
use vstd::string::*;

verus! {

/// `String::push` appends the character to the end of the string.
pub assume_specification[ String::push ](s: &mut String, c: char)
    ensures
        final(s)@ == old(s)@.push(c),
;

/// The characters of `s`, in order.
pub fn to_chars(s: &str) -> (v: Vec<char>)
    ensures
        v@ == s@,
{
    broadcast use vstd::string::group_string_axioms;

    let mut v: Vec<char> = Vec::new();
    for c in it: s.chars()
        invariant
            it.seq() == s@,
            v@ == it.seq().take(it.index() as int),
    {
        v.push(c);
    }
    v
}

/// The string made of the characters `v[start..end]`.
pub fn to_text(v: &Vec<char>, start: usize, end: usize) -> (s: String)
    requires
        start <= end <= v.len(),
    ensures
        s@ == v@.subrange(start as int, end as int),
{
    let mut s = String::new();
    let mut i: usize = start;
    while i < end
        invariant
            start <= i <= end <= v.len(),
            s@ == v@.subrange(start as int, i as int),
        decreases end - i,
    {
        s.push(v[i]);
        i += 1;
    }
    s
}

/// The characters `v[start..end]` as a vector of their own.
pub fn copy_range(v: &Vec<char>, start: usize, end: usize) -> (r: Vec<char>)
    requires
        start <= end <= v.len(),
    ensures
        r@ == v@.subrange(start as int, end as int),
{
    let mut r: Vec<char> = Vec::new();
    let mut i: usize = start;
    while i < end
        invariant
            start <= i <= end <= v.len(),
            r@ == v@.subrange(start as int, i as int),
        decreases end - i,
    {
        r.push(v[i]);
        i += 1;
    }
    r
}

/// Whether two texts hold the same characters.
pub fn same_chars(a: &Vec<char>, b: &Vec<char>) -> (r: bool)
    ensures
        r == (a@ == b@),
{
    if a.len() != b.len() {
        return false;
    }
    let mut i: usize = 0;
    while i < a.len()
        invariant
            i <= a.len(),
            a.len() == b.len(),
            a@.take(i as int) == b@.take(i as int),
        decreases a.len() - i,
    {
        if a[i] != b[i] {
            return false;
        }
        i += 1;
    }
    assert(a@.take(a.len() as int) == a@);
    assert(b@.take(b.len() as int) == b@);
    true
}

/// Whether `v` reads as `word`.
pub fn is_text(v: &Vec<char>, word: &str) -> (r: bool)
    ensures
        r == (v@ == word@),
{
    let w = to_chars(word);
    same_chars(v, &w)
}

/// The views of the items of a sequence, one for one.
pub open spec fn views_of<T: View>(items: Seq<T>) -> Seq<T::V> {
    Seq::new(items.len(), |i: int| items[i]@)
}

/// The views of the two parts of each pair, one pair for one.
pub open spec fn pair_views(pairs: Seq<(String, String)>) -> Seq<(Seq<char>, Seq<char>)> {
    Seq::new(pairs.len(), |i: int| (pairs[i].0@, pairs[i].1@))
}

/// Whether `c` is white space: the characters that Unicode classes as
/// `White_Space`.
pub open spec fn is_whitespace(c: char) -> bool {
    let n = c as u32;
    ||| 0x09 <= n <= 0x0D
    ||| n == 0x20
    ||| n == 0x85
    ||| n == 0xA0
    ||| n == 0x1680
    ||| 0x2000 <= n <= 0x200A
    ||| n == 0x2028
    ||| n == 0x2029
    ||| n == 0x202F
    ||| n == 0x205F
    ||| n == 0x3000
}

/// Whether `pat` stands in `s` at index `i`.
pub open spec fn occurs_at(s: Seq<char>, pat: Seq<char>, i: int) -> bool {
    0 <= i && i + pat.len() <= s.len() && s.subrange(i, i + pat.len()) == pat
}

/// The least index at or after `from` at which `pat` stands in `s`.
pub open spec fn find_from(s: Seq<char>, pat: Seq<char>, from: int) -> Option<int>
    decreases s.len() - from,
    via find_from_decreases
{
    if from < 0 || from + pat.len() > s.len() {
        None
    } else if occurs_at(s, pat, from) {
        Some(from)
    } else {
        find_from(s, pat, from + 1)
    }
}

#[via_fn]
proof fn find_from_decreases(s: Seq<char>, pat: Seq<char>, from: int) {
    if pat.len() == 0 && 0 <= from <= s.len() {
        assert(s.subrange(from, from + pat.len()) =~= pat);
    }
}

/// The least index at which `pat` stands in `s`.
pub open spec fn find(s: Seq<char>, pat: Seq<char>) -> Option<int> {
    find_from(s, pat, 0)
}

/// `find_from` gives the first occurrence at or after `from`, and `None` only
/// where there is none.
pub proof fn lemma_find_from(s: Seq<char>, pat: Seq<char>, from: int)
    requires
        0 <= from,
    ensures
        match find_from(s, pat, from) {
            Some(i) => from <= i && occurs_at(s, pat, i) && forall|j: int|
                from <= j < i ==> !occurs_at(s, pat, j),
            None => forall|j: int| from <= j ==> !occurs_at(s, pat, j),
        },
    decreases s.len() - from,
{
    if from + pat.len() <= s.len() && !occurs_at(s, pat, from) {
        if pat.len() == 0 {
            assert(s.subrange(from, from + pat.len()) =~= pat);
        }
        lemma_find_from(s, pat, from + 1);
    }
}

/// The pieces of `s[from..]` between the occurrences of `pat`, taken from the
/// left and without overlap. An empty `pat` splits nothing.
pub open spec fn split_from(s: Seq<char>, pat: Seq<char>, from: int) -> Seq<Seq<char>>
    decreases s.len() - from,
    via split_from_decreases
{
    match find_from(s, pat, from) {
        Some(i) => if pat.len() > 0 && 0 <= from {
            seq![s.subrange(from, i)] + split_from(s, pat, i + pat.len())
        } else {
            seq![s.subrange(from, s.len() as int)]
        },
        None => seq![s.subrange(from, s.len() as int)],
    }
}

#[via_fn]
proof fn split_from_decreases(s: Seq<char>, pat: Seq<char>, from: int) {
    if 0 <= from {
        lemma_find_from(s, pat, from);
    }
}

/// The pieces of `s` between the occurrences of `pat`.
pub open spec fn split(s: Seq<char>, pat: Seq<char>) -> Seq<Seq<char>> {
    split_from(s, pat, 0)
}

/// `line` without the carriage return at its end, if it has one.
pub open spec fn strip_cr(line: Seq<char>) -> Seq<char> {
    if line.len() > 0 && line.last() == '\r' {
        line.drop_last()
    } else {
        line
    }
}

/// The lines of `s`. A line ends at a line feed; the line feed, and a carriage
/// return just before it, are not part of the line. What follows the last
/// line feed is a line only if it is not empty.
pub open spec fn lines(s: Seq<char>) -> Seq<Seq<char>> {
    let parts = split(s, seq!['\n']);
    let ended = Seq::new((parts.len() - 1) as nat, |i: int| strip_cr(parts[i]));
    if parts.last().len() > 0 {
        ended.push(parts.last())
    } else {
        ended
    }
}

/// The index of the first character at or after `from` that is not white
/// space, or the length of `s`.
pub open spec fn skip_whitespace(s: Seq<char>, from: int) -> int
    decreases s.len() - from,
{
    if 0 <= from < s.len() && is_whitespace(s[from]) {
        skip_whitespace(s, from + 1)
    } else {
        from
    }
}

/// The end of `s[from..to]` once the white space at its end is dropped.
pub open spec fn drop_whitespace(s: Seq<char>, from: int, to: int) -> int
    decreases to - from,
{
    if from < to <= s.len() && is_whitespace(s[to - 1]) {
        drop_whitespace(s, from, to - 1)
    } else {
        to
    }
}

/// `s` without the white space at its start and at its end.
pub open spec fn trim(s: Seq<char>) -> Seq<char> {
    let start = skip_whitespace(s, 0);
    s.subrange(start, drop_whitespace(s, start, s.len() as int))
}

/// Whether `c` is white space.
pub fn whitespace(c: char) -> (r: bool)
    ensures
        r == is_whitespace(c),
{
    let n: u32 = c as u32;
    (0x09 <= n && n <= 0x0D) || n == 0x20 || n == 0x85 || n == 0xA0 || n == 0x1680 || (0x2000 <= n
        && n <= 0x200A) || n == 0x2028 || n == 0x2029 || n == 0x202F || n == 0x205F || n == 0x3000
}

/// Whether `pat` stands in `hay` at index `i`.
pub fn stands_at(hay: &Vec<char>, pat: &Vec<char>, i: usize) -> (r: bool)
    ensures
        r == occurs_at(hay@, pat@, i as int),
{
    if pat.len() > hay.len() || i > hay.len() - pat.len() {
        return false;
    }
    let mut k: usize = 0;
    while k < pat.len()
        invariant
            k <= pat.len(),
            i + pat.len() <= hay.len(),
            hay@.subrange(i as int, i + k) == pat@.take(k as int),
        decreases pat.len() - k,
    {
        if hay[i + k] != pat[k] {
            return false;
        }
        k += 1;
    }
    assert(pat@.take(pat.len() as int) == pat@);
    true
}

/// The first index at or after `from` at which `pat` stands in `hay`.
pub fn find_first(hay: &Vec<char>, pat: &Vec<char>, from: usize) -> (r: Option<usize>)
    ensures
        match r {
            Some(i) => find_from(hay@, pat@, from as int) == Some(i as int),
            None => find_from(hay@, pat@, from as int) is None,
        },
{
    if pat.len() > hay.len() || from > hay.len() - pat.len() {
        return None;
    }
    let last: usize = hay.len() - pat.len();
    let mut i: usize = from;
    loop
        invariant
            from <= i <= last,
            last == hay.len() - pat.len(),
            find_from(hay@, pat@, from as int) == find_from(hay@, pat@, i as int),
        decreases last - i,
    {
        if stands_at(hay, pat, i) {
            return Some(i);
        }
        if i == last {
            assert(find_from(hay@, pat@, i + 1) is None);
            return None;
        }
        i += 1;
    }
}

/// The pieces of `hay` between the occurrences of `pat`.
pub fn split_on(hay: &Vec<char>, pat: &Vec<char>) -> (parts: Vec<Vec<char>>)
    ensures
        views_of(parts@) == split(hay@, pat@),
{
    let mut parts: Vec<Vec<char>> = Vec::new();
    let mut pos: usize = 0;
    loop
        invariant_except_break
            pos <= hay.len(),
            split(hay@, pat@) == views_of(parts@) + split_from(hay@, pat@, pos as int),
        ensures
            views_of(parts@) == split(hay@, pat@),
        decreases hay.len() - pos,
    {
        let found = find_first(hay, pat, pos);
        proof {
            lemma_find_from(hay@, pat@, pos as int);
        }
        let mut end: usize = hay.len();
        let mut more: bool = false;
        if let Some(i) = found {
            if pat.len() > 0 {
                end = i;
                more = true;
            }
        }
        parts.push(copy_range(hay, pos, end));
        if !more {
            break ;
        }
        pos = end + pat.len();
    }
    parts
}

/// The lines of `text`.
pub fn split_lines(text: &Vec<char>) -> (out: Vec<Vec<char>>)
    ensures
        views_of(out@) == lines(text@),
{
    let mut sep: Vec<char> = Vec::new();
    sep.push('\n');
    let parts = split_on(text, &sep);
    assert(split(text@, sep@).len() >= 1);
    let ghost pieces = views_of(parts@);
    let mut out: Vec<Vec<char>> = Vec::new();
    let mut i: usize = 0;
    while i + 1 < parts.len()
        invariant
            parts.len() >= 1,
            i + 1 <= parts.len(),
            pieces == views_of(parts@),
            views_of(out@) == Seq::new(i as nat, |k: int| strip_cr(pieces[k])),
        decreases parts.len() - i,
    {
        let part = &parts[i];
        let n = part.len();
        let ghost before = views_of(out@);
        if n > 0 && part[n - 1] == '\r' {
            out.push(copy_range(part, 0, n - 1));
        } else {
            out.push(copy_range(part, 0, n));
            assert(part@.subrange(0, n as int) == part@);
        }
        assert(views_of(out@) == before.push(strip_cr(pieces[i as int])));
        i += 1;
    }
    let last = &parts[parts.len() - 1];
    if last.len() > 0 {
        out.push(copy_range(last, 0, last.len()));
        assert(last@.subrange(0, last.len() as int) == last@);
    }
    out
}

/// The lines of `text`, as strings.
pub fn text_lines(text: &str) -> (out: Vec<String>)
    ensures
        views_of(out@) == lines(text@),
{
    let chars = to_chars(text);
    let found = split_lines(&chars);
    let mut out: Vec<String> = Vec::new();
    let mut i: usize = 0;
    while i < found.len()
        invariant
            i <= found.len(),
            views_of(out@) == views_of(found@).take(i as int),
        decreases found.len() - i,
    {
        let line = &found[i];
        out.push(to_text(line, 0, line.len()));
        assert(line@.subrange(0, line.len() as int) == line@);
        assert(views_of(found@).take(i + 1) == views_of(found@).take(i as int).push(line@));
        i += 1;
    }
    out
}

/// `text` without the white space at its start and at its end.
pub fn trim_chars(text: &Vec<char>) -> (r: Vec<char>)
    ensures
        r@ == trim(text@),
{
    let mut start: usize = 0;
    while start < text.len() && whitespace(text[start])
        invariant
            start <= text.len(),
            skip_whitespace(text@, 0) == skip_whitespace(text@, start as int),
        decreases text.len() - start,
    {
        start += 1;
    }
    let mut end: usize = text.len();
    while end > start && whitespace(text[end - 1])
        invariant
            start <= end <= text.len(),
            drop_whitespace(text@, start as int, text.len() as int) == drop_whitespace(
                text@,
                start as int,
                end as int,
            ),
        decreases end - start,
    {
        end -= 1;
    }
    copy_range(text, start, end)
}

} // verus!
