//! Character-level text helpers shared by the parsers and renderers.
//!
//! Every routine is specified over `Seq<char>`, the view of `str` and
//! `String`, and implemented over `Vec<char>`.

use vstd::prelude::*;

verus! {

/// What `str::to_lowercase` returns for a string with the given characters.
pub uninterp spec fn unicode_lowercase(s: Seq<char>) -> Seq<char>;

/// `String::push` appends one character.
pub assume_specification[ String::push ](s: &mut String, c: char)
    ensures
        final(s)@ == old(s)@.push(c),
;

/// `str::to_lowercase` is a function of the characters alone: it applies the
/// Unicode lowercase mapping, whose result is named [`unicode_lowercase`].
/// On a text of ASCII characters that mapping turns the capitals `A` to `Z`
/// into their small letters and leaves every other character as it is.
pub assume_specification[ str::to_lowercase ](s: &str) -> (r: String)
    ensures
        r@ == unicode_lowercase(s@),
        is_ascii_text(s@) ==> r@ == ascii_lowercase(s@),
;

/// The text `@` is the one character `@`.
pub proof fn lemma_literal_at()
    ensures
        "@"@ == seq!['@'],
{
    reveal_strlit("@");
    assert("@"@ =~= seq!['@']);
}

/// Characters carrying the Unicode `White_Space` property.
pub open spec fn is_whitespace(c: char) -> bool {
    ||| '\u{9}' <= c <= '\u{d}'
    ||| c == ' '
    ||| c == '\u{85}'
    ||| c == '\u{a0}'
    ||| c == '\u{1680}'
    ||| '\u{2000}' <= c <= '\u{200a}'
    ||| c == '\u{2028}'
    ||| c == '\u{2029}'
    ||| c == '\u{202f}'
    ||| c == '\u{205f}'
    ||| c == '\u{3000}'
}

/// Every character of `s` is an ASCII character.
pub open spec fn is_ascii_text(s: Seq<char>) -> bool {
    forall|i: int| 0 <= i < s.len() ==> (#[trigger] s[i] as u32) < 128
}

/// The ASCII lowercase counterpart of `c`; other characters map to themselves.
pub open spec fn ascii_lower(c: char) -> char {
    if 'A' <= c <= 'Z' {
        ((c as u8) + 32) as char
    } else {
        c
    }
}

/// `s` with every ASCII capital replaced by its lowercase letter.
pub open spec fn ascii_lowercase(s: Seq<char>) -> Seq<char> {
    Seq::new(s.len(), |i: int| ascii_lower(s[i]))
}

/// Equality up to ASCII letter case.
pub open spec fn eq_ignoring_ascii_case(a: Seq<char>, b: Seq<char>) -> bool {
    ascii_lowercase(a) == ascii_lowercase(b)
}

/// `s` begins with `prefix`.
pub open spec fn starts_with(s: Seq<char>, prefix: Seq<char>) -> bool {
    prefix.len() <= s.len() && s.subrange(0, prefix.len() as int) == prefix
}

/// `s` ends with `suffix`.
pub open spec fn ends_with(s: Seq<char>, suffix: Seq<char>) -> bool {
    suffix.len() <= s.len() && s.subrange(s.len() - suffix.len(), s.len() as int) == suffix
}

/// `needle` occurs in `s` at offset `k`.
pub open spec fn occurs_at(s: Seq<char>, needle: Seq<char>, k: int) -> bool {
    0 <= k && k + needle.len() <= s.len() && s.subrange(k, k + needle.len()) == needle
}

/// `needle` occurs somewhere in `s`.
pub open spec fn contains(s: Seq<char>, needle: Seq<char>) -> bool {
    exists|k: int| occurs_at(s, needle, k)
}

/// Index of the first character at or after `i` that is not whitespace, or
/// the length of `s` when there is none.
pub open spec fn skip_whitespace(s: Seq<char>, i: int) -> int
    decreases s.len() - i,
{
    if 0 <= i < s.len() && is_whitespace(s[i]) {
        skip_whitespace(s, i + 1)
    } else {
        i
    }
}

/// One past the index of the last character before `j` and not before `lo`
/// that is not whitespace, or `lo` when there is none.
pub open spec fn skip_whitespace_back(s: Seq<char>, lo: int, j: int) -> int
    decreases j,
{
    if lo < j <= s.len() && 0 <= lo && is_whitespace(s[j - 1]) {
        skip_whitespace_back(s, lo, j - 1)
    } else {
        j
    }
}

/// `s` without its leading and trailing whitespace.
pub open spec fn trim(s: Seq<char>) -> Seq<char> {
    let start = skip_whitespace(s, 0);
    s.subrange(start, skip_whitespace_back(s, start, s.len() as int))
}

/// Index of the first occurrence of `c` at or after `i`, or the length of
/// `s` when there is none.
pub open spec fn find_char(s: Seq<char>, c: char, i: int) -> int
    decreases s.len() - i,
{
    if 0 <= i < s.len() && s[i] != c {
        find_char(s, c, i + 1)
    } else {
        i
    }
}

/// [`find_char`] stops at the first `c` at or after `i`, or at the end.
pub proof fn lemma_find_char(s: Seq<char>, c: char, i: int)
    requires
        0 <= i <= s.len(),
    ensures
        i <= find_char(s, c, i) <= s.len(),
        find_char(s, c, i) < s.len() ==> s[find_char(s, c, i)] == c,
        forall|j: int| i <= j < find_char(s, c, i) ==> s[j] != c,
    decreases s.len() - i,
{
    if i < s.len() && s[i] != c {
        lemma_find_char(s, c, i + 1);
    }
}

/// The lines of `s` from offset `start` on: the pieces between line feeds,
/// without them. A final line feed ends the last line and opens no new one.
pub open spec fn lines_from(s: Seq<char>, start: int) -> Seq<Seq<char>>
    decreases s.len() - start,
{
    if 0 <= start < s.len() {
        let end = find_char(s, '\n', start);
        if end < s.len() {
            proof {
                lemma_find_char(s, '\n', start);
            }
            seq![s.subrange(start, end)] + lines_from(s, end + 1)
        } else {
            seq![s.subrange(start, end)]
        }
    } else {
        Seq::empty()
    }
}

/// The lines of `s`.
pub open spec fn lines(s: Seq<char>) -> Seq<Seq<char>> {
    lines_from(s, 0)
}

/// The pieces of `s` from offset `start` on that `c` separates. Unlike
/// [`lines_from`], a separator at the very end opens one more, empty piece.
pub open spec fn split_from(s: Seq<char>, c: char, start: int) -> Seq<Seq<char>>
    decreases s.len() - start,
{
    let end = find_char(s, c, start);
    if 0 <= start && end < s.len() {
        proof {
            lemma_find_char(s, c, start);
        }
        seq![s.subrange(start, end)] + split_from(s, c, end + 1)
    } else if 0 <= start <= s.len() {
        seq![s.subrange(start, s.len() as int)]
    } else {
        Seq::empty()
    }
}

/// The pieces of `s` that `c` separates; never empty.
pub open spec fn split(s: Seq<char>, c: char) -> Seq<Seq<char>> {
    split_from(s, c, 0)
}

/// The pieces joined with a line feed between neighbours.
pub open spec fn join_lines(pieces: Seq<Seq<char>>) -> Seq<char>
    decreases pieces.len(),
{
    if pieces.len() == 0 {
        Seq::empty()
    } else if pieces.len() == 1 {
        pieces[0]
    } else {
        join_lines(pieces.drop_last()) + seq!['\n'] + pieces.last()
    }
}

/// `s` without the characters equal to `c`.
pub open spec fn without_char(s: Seq<char>, c: char) -> Seq<char>
    decreases s.len(),
{
    if s.len() == 0 {
        s
    } else if s.last() == c {
        without_char(s.drop_last(), c)
    } else {
        without_char(s.drop_last(), c).push(s.last())
    }
}

/// `s` with every `from` replaced by `to`.
pub open spec fn replace_char(s: Seq<char>, from: char, to: char) -> Seq<char> {
    Seq::new(s.len(), |i: int| if s[i] == from { to } else { s[i] })
}

/// The characters of each element.
pub open spec fn views(v: Seq<Vec<char>>) -> Seq<Seq<char>> {
    Seq::new(v.len(), |i: int| v[i]@)
}

/// Whether `c` is white space.
pub fn char_is_whitespace(c: char) -> (r: bool)
    ensures
        r == is_whitespace(c),
{
    ('\u{9}' <= c && c <= '\u{d}') || c == ' ' || c == '\u{85}' || c == '\u{a0}' || c == '\u{1680}'
        || ('\u{2000}' <= c && c <= '\u{200a}') || c == '\u{2028}' || c == '\u{2029}' || c
        == '\u{202f}' || c == '\u{205f}' || c == '\u{3000}'
}

/// The ASCII lowercase counterpart of `c`.
pub fn char_ascii_lower(c: char) -> (r: char)
    ensures
        r == ascii_lower(c),
{
    if 'A' <= c && c <= 'Z' {
        ((c as u8) + 32) as char
    } else {
        c
    }
}

/// Copies the characters of `s` into a vector.
pub fn to_chars(s: &str) -> (out: Vec<char>)
    ensures
        out@ == s@,
{
    let mut out: Vec<char> = Vec::new();
    for c in it: s.chars()
        invariant
            out@ == it.seq().take(it.index() as int),
    {
        out.push(c);
    }
    out
}

/// Builds a string from the characters of `v`.
pub fn from_chars(v: &Vec<char>) -> (s: String)
    ensures
        s@ == v@,
{
    let mut s = String::new();
    let mut i: usize = 0;
    while i < v.len()
        invariant
            i <= v.len(),
            s@ == v@.take(i as int),
        decreases v.len() - i,
    {
        s.push(v[i]);
        i += 1;
    }
    assert(v@.take(v.len() as int) == v@);
    s
}

/// Copies `v[start..end]`.
pub fn slice_chars(v: &Vec<char>, start: usize, end: usize) -> (out: Vec<char>)
    requires
        start <= end <= v.len(),
    ensures
        out@ == v@.subrange(start as int, end as int),
{
    let mut out: Vec<char> = Vec::new();
    let mut i: usize = start;
    while i < end
        invariant
            start <= i <= end <= v.len(),
            out@ == v@.subrange(start as int, i as int),
        decreases end - i,
    {
        out.push(v[i]);
        i += 1;
    }
    out
}

/// Appends the characters of `tail` to `out`.
pub fn append_chars(out: &mut Vec<char>, tail: &Vec<char>)
    ensures
        final(out)@ == old(out)@ + tail@,
{
    let mut i: usize = 0;
    while i < tail.len()
        invariant
            i <= tail.len(),
            out@ == old(out)@ + tail@.take(i as int),
        decreases tail.len() - i,
    {
        out.push(tail[i]);
        i += 1;
    }
    assert(tail@.take(tail.len() as int) == tail@);
}

/// Whether `a` and `b` hold the same characters.
pub fn chars_equal(a: &Vec<char>, b: &Vec<char>) -> (r: bool)
    ensures
        r == (a@ == b@),
{
    if a.len() != b.len() {
        return false;
    }
    let mut i: usize = 0;
    while i < a.len()
        invariant
            i <= a.len(),
            a.len() == b.len(),
            a@.take(i as int) == b@.take(i as int),
        decreases a.len() - i,
    {
        if a[i] != b[i] {
            return false;
        }
        assert(a@.take(i + 1) == a@.take(i as int).push(a@[i as int]));
        assert(b@.take(i + 1) == b@.take(i as int).push(b@[i as int]));
        i += 1;
    }
    assert(a@.take(a.len() as int) == a@);
    assert(b@.take(b.len() as int) == b@);
    true
}

/// `s` in ASCII lower case.
pub fn chars_ascii_lowercase(s: &Vec<char>) -> (out: Vec<char>)
    ensures
        out@ == ascii_lowercase(s@),
{
    let mut out: Vec<char> = Vec::new();
    let mut i: usize = 0;
    while i < s.len()
        invariant
            i <= s.len(),
            out@ == ascii_lowercase(s@).take(i as int),
        decreases s.len() - i,
    {
        out.push(char_ascii_lower(s[i]));
        i += 1;
    }
    out
}

/// Whether `a` and `b` are equal up to ASCII letter case.
pub fn chars_eq_ignoring_ascii_case(a: &Vec<char>, b: &Vec<char>) -> (r: bool)
    ensures
        r == eq_ignoring_ascii_case(a@, b@),
{
    let la = chars_ascii_lowercase(a);
    let lb = chars_ascii_lowercase(b);
    chars_equal(&la, &lb)
}

/// Whether `needle` stands in `s` at offset `k`.
pub fn chars_occur_at(s: &Vec<char>, needle: &Vec<char>, k: usize) -> (r: bool)
    ensures
        r == occurs_at(s@, needle@, k as int),
{
    if needle.len() > s.len() || k > s.len() - needle.len() {
        return false;
    }
    let mut i: usize = 0;
    while i < needle.len()
        invariant
            i <= needle.len(),
            k + needle.len() <= s.len(),
            s@.subrange(k as int, k + i) == needle@.take(i as int),
        decreases needle.len() - i,
    {
        if s[k + i] != needle[i] {
            assert(s@.subrange(k as int, k + needle.len())[i as int] != needle@[i as int]);
            return false;
        }
        assert(s@.subrange(k as int, k + i + 1) == s@.subrange(k as int, k + i).push(
            s@[k + i],
        ));
        assert(needle@.take(i + 1) == needle@.take(i as int).push(needle@[i as int]));
        i += 1;
    }
    assert(needle@.take(needle.len() as int) == needle@);
    true
}

/// Whether `s` begins with `prefix`.
pub fn chars_start_with(s: &Vec<char>, prefix: &Vec<char>) -> (r: bool)
    ensures
        r == starts_with(s@, prefix@),
{
    chars_occur_at(s, prefix, 0)
}

/// Whether `s` ends with `suffix`.
pub fn chars_end_with(s: &Vec<char>, suffix: &Vec<char>) -> (r: bool)
    ensures
        r == ends_with(s@, suffix@),
{
    if suffix.len() > s.len() {
        return false;
    }
    chars_occur_at(s, suffix, s.len() - suffix.len())
}

/// Whether `needle` occurs in `s`.
pub fn chars_contain(s: &Vec<char>, needle: &Vec<char>) -> (r: bool)
    ensures
        r == contains(s@, needle@),
{
    chars_find(s, needle).is_some()
}

/// Offset of the first `needle` in `s`, if there is one.
pub fn chars_find(s: &Vec<char>, needle: &Vec<char>) -> (r: Option<usize>)
    ensures
        r is Some <==> contains(s@, needle@),
        r matches Some(k) ==> occurs_at(s@, needle@, k as int) && forall|j: int|
            0 <= j < k ==> !occurs_at(s@, needle@, j),
{
    if needle.len() > s.len() {
        return None;
    }
    let last: usize = s.len() - needle.len();
    let mut k: usize = 0;
    loop
        invariant
            k <= last,
            last == s.len() - needle.len(),
            forall|j: int| 0 <= j < k ==> !occurs_at(s@, needle@, j),
        decreases last - k,
    {
        if chars_occur_at(s, needle, k) {
            return Some(k);
        }
        if k == last {
            return None;
        }
        k += 1;
    }
}

/// Offset of the first `c` at or after `start`, or the length of `s`.
pub fn chars_find_char(s: &Vec<char>, c: char, start: usize) -> (end: usize)
    requires
        start <= s.len(),
    ensures
        end == find_char(s@, c, start as int),
        start <= end <= s.len(),
{
    let mut i: usize = start;
    while i < s.len() && s[i] != c
        invariant
            start <= i <= s.len(),
            find_char(s@, c, i as int) == find_char(s@, c, start as int),
        decreases s.len() - i,
    {
        i += 1;
    }
    i
}

/// `s` without its leading and trailing white space.
pub fn chars_trim(s: &Vec<char>) -> (out: Vec<char>)
    ensures
        out@ == trim(s@),
{
    let mut start: usize = 0;
    while start < s.len() && char_is_whitespace(s[start])
        invariant
            start <= s.len(),
            skip_whitespace(s@, start as int) == skip_whitespace(s@, 0),
        decreases s.len() - start,
    {
        start += 1;
    }
    let mut end: usize = s.len();
    while end > start && char_is_whitespace(s[end - 1])
        invariant
            start <= end <= s.len(),
            skip_whitespace_back(s@, start as int, end as int) == skip_whitespace_back(
                s@,
                start as int,
                s@.len() as int,
            ),
        decreases end,
    {
        end -= 1;
    }
    slice_chars(s, start, end)
}

/// The lines of `s`.
pub fn chars_lines(s: &Vec<char>) -> (out: Vec<Vec<char>>)
    ensures
        views(out@) == lines(s@),
{
    let mut out: Vec<Vec<char>> = Vec::new();
    let mut start: usize = 0;
    while start < s.len()
        invariant
            start <= s.len(),
            views(out@) + lines_from(s@, start as int) == lines(s@),
        decreases s.len() - start,
    {
        let end = chars_find_char(s, '\n', start);
        let line = slice_chars(s, start, end);
        proof {
            assert(views(out@.push(line)) == views(out@) + seq![line@]);
        }
        out.push(line);
        if end == s.len() {
            return out;
        }
        start = end + 1;
    }
    assert(lines_from(s@, start as int) == Seq::<Seq<char>>::empty());
    out
}

/// The pieces of `s` that `c` separates.
pub fn chars_split(s: &Vec<char>, c: char) -> (out: Vec<Vec<char>>)
    ensures
        views(out@) == split(s@, c),
        out@.len() > 0,
{
    let mut out: Vec<Vec<char>> = Vec::new();
    let mut start: usize = 0;
    loop
        invariant
            start <= s.len(),
            views(out@) + split_from(s@, c, start as int) == split(s@, c),
        decreases s.len() - start,
    {
        let end = chars_find_char(s, c, start);
        let piece = slice_chars(s, start, end);
        proof {
            assert(views(out@.push(piece)) == views(out@) + seq![piece@]);
        }
        out.push(piece);
        if end >= s.len() {
            return out;
        }
        start = end + 1;
    }
}

/// The pieces joined with line feeds.
pub fn chars_join_lines(pieces: &Vec<Vec<char>>) -> (out: Vec<char>)
    ensures
        out@ == join_lines(views(pieces@)),
{
    let mut out: Vec<char> = Vec::new();
    let mut i: usize = 0;
    while i < pieces.len()
        invariant
            i <= pieces.len(),
            out@ == join_lines(views(pieces@).take(i as int)),
        decreases pieces.len() - i,
    {
        if i > 0 {
            out.push('\n');
        }
        append_chars(&mut out, &pieces[i]);
        proof {
            let next = views(pieces@).take(i + 1);
            assert(next.drop_last() == views(pieces@).take(i as int));
            assert(next.last() == pieces@[i as int]@);
        }
        i += 1;
    }
    assert(views(pieces@).take(pieces.len() as int) == views(pieces@));
    out
}

/// `s` without the characters equal to `c`.
pub fn chars_without(s: &Vec<char>, c: char) -> (out: Vec<char>)
    ensures
        out@ == without_char(s@, c),
{
    let mut out: Vec<char> = Vec::new();
    let mut i: usize = 0;
    while i < s.len()
        invariant
            i <= s.len(),
            out@ == without_char(s@.take(i as int), c),
        decreases s.len() - i,
    {
        assert(s@.take(i + 1).drop_last() == s@.take(i as int));
        if s[i] != c {
            out.push(s[i]);
        }
        i += 1;
    }
    assert(s@.take(s.len() as int) == s@);
    out
}

/// `s` with every `from` replaced by `to`.
pub fn chars_replace(s: &Vec<char>, from: char, to: char) -> (out: Vec<char>)
    ensures
        out@ == replace_char(s@, from, to),
{
    let mut out: Vec<char> = Vec::new();
    let mut i: usize = 0;
    while i < s.len()
        invariant
            i <= s.len(),
            out@ == replace_char(s@, from, to).take(i as int),
        decreases s.len() - i,
    {
        if s[i] == from {
            out.push(to);
        } else {
            out.push(s[i]);
        }
        i += 1;
    }
    out
}

/// The Unicode lowercase form of `s`.
pub fn chars_unicode_lowercase(s: &Vec<char>) -> (out: Vec<char>)
    ensures
        out@ == unicode_lowercase(s@),
        is_ascii_text(s@) ==> out@ == ascii_lowercase(s@),
{
    let owned = from_chars(s);
    let lowered = owned.as_str().to_lowercase();
    to_chars(lowered.as_str())
}

} // verus!
