//! The first paragraph with text is its own first paragraph with text.

use vstd::prelude::*;
use crate::reply::{
    find_blank_line,
    first_text_from,
    is_quoted,
    paragraph_text,
    paragraphs_from,
    unquoted,
};
use crate::reply_laws::{
    blank,
    lacks,
    lemma_join_front,
    lemma_join_lacks,
    lemma_lines_are_lines,
    lemma_lines_of_join,
    lemma_skip_whitespace,
    lemma_skip_whitespace_back,
    lemma_trim_is_trimmed,
    lemma_trim_trimmed,
};
use crate::text::{
    find_char,
    is_whitespace,
    join_lines,
    lemma_find_char,
    lines,
    lines_from,
    skip_whitespace,
    skip_whitespace_back,
    trim,
};

verus! {

/// `s` without its leading white space.
pub open spec fn trim_start(s: Seq<char>) -> Seq<char> {
    s.subrange(skip_whitespace(s, 0), s.len() as int)
}

/// `s` without its trailing white space.
pub open spec fn trim_end(s: Seq<char>) -> Seq<char> {
    s.subrange(0, skip_whitespace_back(s, 0, s.len() as int))
}

/// The first character of `line` after white space is `>`.
pub open spec fn opens_quoted(line: Seq<char>) -> bool {
    skip_whitespace(line, 0) < line.len() && line[skip_whitespace(line, 0)] == '>'
}

/// A line that stays in a paragraph's text: on one line, and not quoted.
pub open spec fn open_line(line: Seq<char>) -> bool {
    lacks(line, '\n') && lacks(line, '\r') && !opens_quoted(line)
}

/// Every line is an open line.
pub open spec fn all_open(lines: Seq<Seq<char>>) -> bool {
    forall|i: int| 0 <= i < lines.len() ==> open_line(#[trigger] lines[i])
}

/// No line is empty.
pub open spec fn solid(lines: Seq<Seq<char>>) -> bool {
    forall|i: int| 0 <= i < lines.len() ==> (#[trigger] lines[i]).len() > 0
}

/// No line but the first is empty.
pub open spec fn tail_solid(lines: Seq<Seq<char>>) -> bool {
    forall|i: int| 1 <= i < lines.len() ==> (#[trigger] lines[i]).len() > 0
}

/// `s` holds no empty line: no two line feeds in a row.
pub open spec fn tight(s: Seq<char>) -> bool {
    forall|k: int| 0 <= k && k + 1 < s.len() ==> !(#[trigger] s[k] == '\n' && s[k + 1] == '\n')
}

/// The lines without the blank ones at the front, the first of the others
/// without its leading white space.
pub open spec fn strip_front(lines: Seq<Seq<char>>) -> Seq<Seq<char>>
    decreases lines.len(),
{
    if lines.len() == 0 {
        lines
    } else if blank(lines[0]) {
        strip_front(lines.drop_first())
    } else {
        seq![trim_start(lines[0])] + lines.drop_first()
    }
}

/// The lines without the blank ones at the end, the last of the others
/// without its trailing white space.
pub open spec fn strip_back(lines: Seq<Seq<char>>) -> Seq<Seq<char>>
    decreases lines.len(),
{
    if lines.len() == 0 {
        lines
    } else if blank(lines.last()) {
        strip_back(lines.drop_last())
    } else {
        lines.drop_last().push(trim_end(lines.last()))
    }
}

proof fn lemma_skip_to(s: Seq<char>, from: int, to: int)
    requires
        0 <= from <= to <= s.len(),
        forall|j: int| from <= j < to ==> is_whitespace(s[j]),
        to < s.len() ==> !is_whitespace(s[to]),
    ensures
        skip_whitespace(s, from) == to,
    decreases to - from,
{
    if from < to {
        lemma_skip_to(s, from + 1, to);
    }
}

proof fn lemma_skip_back_to(s: Seq<char>, lo: int, keep: int, hi: int)
    requires
        0 <= lo <= keep <= hi <= s.len(),
        forall|j: int| keep <= j < hi ==> is_whitespace(s[j]),
        keep > lo ==> !is_whitespace(s[keep - 1]),
    ensures
        skip_whitespace_back(s, lo, hi) == keep,
    decreases hi - keep,
{
    if keep < hi {
        lemma_skip_back_to(s, lo, keep, hi - 1);
    }
}

proof fn lemma_skipped(s: Seq<char>, from: int)
    requires
        0 <= from <= s.len(),
    ensures
        forall|j: int| from <= j < skip_whitespace(s, from) ==> is_whitespace(s[j]),
    decreases s.len() - from,
{
    if from < s.len() && is_whitespace(s[from]) {
        lemma_skipped(s, from + 1);
    }
}

proof fn lemma_skipped_back(s: Seq<char>, lo: int, hi: int)
    requires
        0 <= lo <= hi <= s.len(),
    ensures
        forall|j: int| skip_whitespace_back(s, lo, hi) <= j < hi ==> is_whitespace(s[j]),
    decreases hi,
{
    if lo < hi && is_whitespace(s[hi - 1]) {
        lemma_skipped_back(s, lo, hi - 1);
    }
}

/// What is known of the two ends of a trimmed text.
proof fn lemma_ends(s: Seq<char>)
    ensures
        0 <= skip_whitespace(s, 0) <= s.len(),
        0 <= skip_whitespace_back(s, 0, s.len() as int) <= s.len(),
        blank(s) <==> skip_whitespace(s, 0) == s.len(),
        blank(s) <==> skip_whitespace_back(s, 0, s.len() as int) == 0,
        !blank(s) ==> skip_whitespace(s, 0) < skip_whitespace_back(s, 0, s.len() as int),
        !blank(s) ==> !is_whitespace(s[skip_whitespace(s, 0)]) && !is_whitespace(
            s[skip_whitespace_back(s, 0, s.len() as int) - 1],
        ),
        forall|j: int| 0 <= j < skip_whitespace(s, 0) ==> is_whitespace(s[j]),
        forall|j: int|
            skip_whitespace_back(s, 0, s.len() as int) <= j < s.len() ==> is_whitespace(s[j]),
{
    lemma_skip_whitespace(s, 0);
    lemma_skip_whitespace_back(s, 0, s.len() as int);
    lemma_skipped(s, 0);
    lemma_skipped_back(s, 0, s.len() as int);
    let start = skip_whitespace(s, 0);
    let end = skip_whitespace_back(s, 0, s.len() as int);
    if start < s.len() {
        assert(!is_whitespace(s[start]));
        if end <= start {
            assert(is_whitespace(s[start]));
        }
    }
    if end > 0 {
        assert(!is_whitespace(s[end - 1]));
    }
}

/// Trimming is trimming the start and then the end.
proof fn lemma_trim_both(s: Seq<char>)
    ensures
        trim(s) == trim_end(trim_start(s)),
{
    lemma_ends(s);
    let start = skip_whitespace(s, 0);
    let rest = trim_start(s);
    lemma_skip_whitespace_back(s, start, s.len() as int);
    lemma_skipped_back(s, start, s.len() as int);
    let end = skip_whitespace_back(s, start, s.len() as int);
    assert forall|j: int| end - start <= j < rest.len() implies is_whitespace(rest[j]) by {
        assert(rest[j] == s[start + j]);
    }
    if end > start {
        assert(rest[end - start - 1] == s[end - 1]);
    }
    lemma_skip_back_to(rest, 0, end - start, rest.len() as int);
    assert(rest.subrange(0, end - start) == s.subrange(start, end));
}

/// Blank text at the front does not count for the start.
proof fn lemma_trim_start_after_blank(front: Seq<char>, s: Seq<char>)
    requires
        blank(front),
    ensures
        trim_start(front + s) == trim_start(s),
{
    lemma_ends(s);
    let whole = front + s;
    let start = skip_whitespace(s, 0);
    assert forall|j: int| 0 <= j < front.len() + start implies is_whitespace(whole[j]) by {
        if j < front.len() {
            assert(whole[j] == front[j]);
        } else {
            assert(whole[j] == s[j - front.len()]);
        }
    }
    if start < s.len() {
        assert(whole[front.len() + start] == s[start]);
    }
    lemma_skip_to(whole, 0, front.len() + start);
    assert(whole.subrange(front.len() + start, whole.len() as int) == s.subrange(
        start,
        s.len() as int,
    ));
}

/// What follows a text that is not blank does not count for the start.
proof fn lemma_trim_start_before(s: Seq<char>, back: Seq<char>)
    requires
        !blank(s),
    ensures
        trim_start(s + back) == trim_start(s) + back,
{
    lemma_ends(s);
    let whole = s + back;
    let start = skip_whitespace(s, 0);
    assert forall|j: int| 0 <= j < start implies is_whitespace(whole[j]) by {
        assert(whole[j] == s[j]);
    }
    assert(whole[start] == s[start]);
    lemma_skip_to(whole, 0, start);
    assert(whole.subrange(start, whole.len() as int) == s.subrange(start, s.len() as int) + back);
}

/// Blank text at the end does not count for the end.
proof fn lemma_trim_end_before_blank(s: Seq<char>, back: Seq<char>)
    requires
        blank(back),
    ensures
        trim_end(s + back) == trim_end(s),
{
    lemma_ends(s);
    let whole = s + back;
    let end = skip_whitespace_back(s, 0, s.len() as int);
    assert forall|j: int| end <= j < whole.len() implies is_whitespace(whole[j]) by {
        if j < s.len() {
            assert(whole[j] == s[j]);
        } else {
            assert(whole[j] == back[j - s.len()]);
        }
    }
    if end > 0 {
        assert(whole[end - 1] == s[end - 1]);
    }
    lemma_skip_back_to(whole, 0, end, whole.len() as int);
    assert(whole.subrange(0, end) == s.subrange(0, end));
}

/// What stands before a text that is not blank does not count for the end.
proof fn lemma_trim_end_after(front: Seq<char>, s: Seq<char>)
    requires
        !blank(s),
    ensures
        trim_end(front + s) == front + trim_end(s),
{
    lemma_ends(s);
    let whole = front + s;
    let end = skip_whitespace_back(s, 0, s.len() as int);
    assert forall|j: int| front.len() + end <= j < whole.len() implies is_whitespace(whole[j]) by {
        assert(whole[j] == s[j - front.len()]);
    }
    assert(whole[front.len() + end - 1] == s[end - 1]);
    lemma_skip_back_to(whole, 0, front.len() + end, whole.len() as int);
    assert(whole.subrange(0, front.len() + end) == front + s.subrange(0, end));
}

/// A line is quoted after trimming exactly when `>` is its first character
/// after white space.
proof fn lemma_quoted_after_trim(line: Seq<char>)
    ensures
        is_quoted(trim(line)) == opens_quoted(line),
{
    lemma_ends(line);
    lemma_trim_both(line);
    let start = skip_whitespace(line, 0);
    lemma_skip_whitespace_back(line, start, line.len() as int);
    lemma_skipped_back(line, start, line.len() as int);
    let end = skip_whitespace_back(line, start, line.len() as int);
    if start < line.len() {
        if end <= start {
            assert(is_whitespace(line[start]));
        }
        assert(trim(line)[0] == line[start]);
    }
}

/// The ends of an open line that is not blank are open lines, and not
/// empty.
proof fn lemma_open_ends(line: Seq<char>)
    requires
        open_line(line),
        !blank(line),
    ensures
        open_line(trim_start(line)),
        open_line(trim_end(line)),
        trim_start(line).len() > 0,
        trim_end(line).len() > 0,
        !blank(trim_start(line)),
{
    lemma_ends(line);
    let start = skip_whitespace(line, 0);
    let end = skip_whitespace_back(line, 0, line.len() as int);
    let front = trim_start(line);
    let back = trim_end(line);
    assert(front[0] == line[start]);
    assert(skip_whitespace(front, 0) == 0);
    assert forall|j: int| 0 <= j < front.len() implies front[j] != '\n' && front[j] != '\r' by {
        assert(front[j] == line[start + j]);
    }
    assert forall|j: int| 0 <= j < back.len() implies back[j] != '\n' && back[j] != '\r' by {
        assert(back[j] == line[j]);
    }
    assert forall|j: int| 0 <= j < start implies is_whitespace(back[j]) by {
        assert(back[j] == line[j]);
    }
    assert(back[start] == line[start]);
    lemma_skip_to(back, 0, start);
    assert(!blank(front)) by {
        assert(!is_whitespace(front[0]));
    }
}

/// The text of joined lines, without its leading white space, is the text
/// of the lines stripped at the front.
proof fn lemma_trim_start_of_join(lines: Seq<Seq<char>>)
    ensures
        trim_start(join_lines(lines)) == join_lines(strip_front(lines)),
    decreases lines.len(),
{
    let nothing = Seq::<char>::empty();
    if lines.len() == 0 {
        assert(join_lines(lines) == nothing);
        assert(trim_start(nothing) == nothing);
    } else {
        let first = lines[0];
        let rest = lines.drop_first();
        if lines.len() == 1 {
            assert(join_lines(lines) == first);
            if blank(first) {
                lemma_ends(first);
                assert(trim_start(first) == nothing);
                assert(strip_front(rest) == rest);
                assert(join_lines(rest) == nothing);
            } else {
                let stripped = seq![trim_start(first)] + rest;
                assert(stripped.len() == 1);
                assert(join_lines(stripped) == stripped[0]);
            }
        } else {
            lemma_join_front(lines);
            let tail = join_lines(rest);
            if blank(first) {
                let front = first + seq!['\n'];
                assert(blank(front)) by {
                    assert forall|j: int| 0 <= j < front.len() implies is_whitespace(front[j]) by {
                        if j < first.len() {
                            assert(front[j] == first[j]);
                        }
                    }
                }
                lemma_trim_start_after_blank(front, tail);
                lemma_trim_start_of_join(rest);
            } else {
                let back = seq!['\n'] + tail;
                assert(join_lines(lines) == first + back);
                lemma_trim_start_before(first, back);
                let stripped = seq![trim_start(first)] + rest;
                assert(stripped.drop_first() == rest);
                lemma_join_front(stripped);
                assert(join_lines(stripped) == trim_start(first) + seq!['\n'] + tail);
                assert(trim_start(first) + back == trim_start(first) + seq!['\n'] + tail);
            }
        }
    }
}

/// The text of joined lines, without its trailing white space, is the text
/// of the lines stripped at the end.
proof fn lemma_trim_end_of_join(lines: Seq<Seq<char>>)
    ensures
        trim_end(join_lines(lines)) == join_lines(strip_back(lines)),
    decreases lines.len(),
{
    let nothing = Seq::<char>::empty();
    if lines.len() == 0 {
        assert(join_lines(lines) == nothing);
        assert(trim_end(nothing) == nothing);
    } else {
        let last = lines.last();
        let init = lines.drop_last();
        if lines.len() == 1 {
            assert(join_lines(lines) == last);
            if blank(last) {
                lemma_ends(last);
                assert(trim_end(last) == nothing);
                assert(strip_back(init) == init);
                assert(join_lines(init) == nothing);
            } else {
                let stripped = init.push(trim_end(last));
                assert(stripped.len() == 1);
                assert(join_lines(stripped) == stripped[0]);
            }
        } else {
            let head = join_lines(init);
            assert(join_lines(lines) == head + seq!['\n'] + last);
            if blank(last) {
                let back = seq!['\n'] + last;
                assert(blank(back)) by {
                    assert forall|j: int| 0 <= j < back.len() implies is_whitespace(back[j]) by {
                        if j > 0 {
                            assert(back[j] == last[j - 1]);
                        }
                    }
                }
                assert(join_lines(lines) == head + back);
                lemma_trim_end_before_blank(head, back);
                lemma_trim_end_of_join(init);
            } else {
                let front = head + seq!['\n'];
                lemma_trim_end_after(front, last);
                let stripped = init.push(trim_end(last));
                assert(stripped.drop_last() == init);
                assert(join_lines(stripped) == head + seq!['\n'] + trim_end(last));
            }
        }
    }
}

/// Stripping the front of open lines of which none but the first is empty
/// leaves open lines of which none is empty.
proof fn lemma_strip_front(lines: Seq<Seq<char>>)
    requires
        all_open(lines),
        tail_solid(lines),
    ensures
        all_open(strip_front(lines)),
        solid(strip_front(lines)),
    decreases lines.len(),
{
    if lines.len() > 0 {
        let rest = lines.drop_first();
        assert(all_open(rest) && solid(rest)) by {
            assert forall|i: int| 0 <= i < rest.len() implies open_line(#[trigger] rest[i])
                && rest[i].len() > 0 by {
                assert(rest[i] == lines[i + 1]);
            }
        }
        if blank(lines[0]) {
            lemma_strip_front(rest);
        } else {
            assert(open_line(lines[0]));
            lemma_open_ends(lines[0]);
            let stripped = seq![trim_start(lines[0])] + rest;
            assert forall|i: int| 0 <= i < stripped.len() implies open_line(#[trigger] stripped[i])
                && stripped[i].len() > 0 by {
                if i > 0 {
                    assert(stripped[i] == rest[i - 1]);
                }
            }
        }
    }
}

/// Stripping the end of open lines of which none is empty leaves such
/// lines.
proof fn lemma_strip_back(lines: Seq<Seq<char>>)
    requires
        all_open(lines),
        solid(lines),
    ensures
        all_open(strip_back(lines)),
        solid(strip_back(lines)),
    decreases lines.len(),
{
    if lines.len() > 0 {
        let init = lines.drop_last();
        assert(all_open(init) && solid(init)) by {
            assert forall|i: int| 0 <= i < init.len() implies open_line(#[trigger] init[i])
                && init[i].len() > 0 by {
                assert(init[i] == lines[i]);
            }
        }
        if blank(lines.last()) {
            lemma_strip_back(init);
        } else {
            assert(open_line(lines.last()));
            lemma_open_ends(lines.last());
            let stripped = init.push(trim_end(lines.last()));
            assert forall|i: int| 0 <= i < stripped.len() implies open_line(#[trigger] stripped[i])
                && stripped[i].len() > 0 by {
                if i < init.len() {
                    assert(stripped[i] == init[i]);
                }
            }
        }
    }
}

/// Open lines are all kept.
proof fn lemma_unquoted_open(lines: Seq<Seq<char>>)
    requires
        all_open(lines),
    ensures
        unquoted(lines) == lines,
    decreases lines.len(),
{
    if lines.len() > 0 {
        let init = lines.drop_last();
        assert(all_open(init)) by {
            assert forall|i: int| 0 <= i < init.len() implies open_line(#[trigger] init[i]) by {
                assert(init[i] == lines[i]);
            }
        }
        lemma_unquoted_open(init);
        assert(open_line(lines.last()));
        lemma_quoted_after_trim(lines.last());
        assert(init.push(lines.last()) == lines);
    }
}

/// Of lines on one line each, of which none but the first is empty, the
/// kept ones are open lines of which none but the first is empty.
proof fn lemma_unquoted_lines(lines: Seq<Seq<char>>)
    requires
        tail_solid(lines),
        forall|i: int| 0 <= i < lines.len() ==> lacks(#[trigger] lines[i], '\n'),
        forall|i: int| 0 <= i < lines.len() ==> lacks(#[trigger] lines[i], '\r'),
    ensures
        all_open(unquoted(lines)),
        tail_solid(unquoted(lines)),
    decreases lines.len(),
{
    if lines.len() > 0 {
        let init = lines.drop_last();
        let last = lines.last();
        assert forall|i: int| 0 <= i < init.len() implies lacks(#[trigger] init[i], '\n') && lacks(
            init[i],
            '\r',
        ) by {
            assert(init[i] == lines[i]);
        }
        assert(tail_solid(init)) by {
            assert forall|i: int| 1 <= i < init.len() implies (#[trigger] init[i]).len() > 0 by {
                assert(init[i] == lines[i]);
            }
        }
        lemma_unquoted_lines(init);
        let kept = unquoted(init);
        if !is_quoted(trim(last)) {
            lemma_quoted_after_trim(last);
            assert(lacks(last, '\n') && lacks(last, '\r'));
            let all = kept.push(last);
            assert forall|i: int| 0 <= i < all.len() implies open_line(#[trigger] all[i]) by {
                if i < kept.len() {
                    assert(all[i] == kept[i]);
                }
            }
            assert forall|i: int| 1 <= i < all.len() implies (#[trigger] all[i]).len() > 0 by {
                if i < kept.len() {
                    assert(all[i] == kept[i]);
                } else {
                    lemma_unquoted_shorter(init);
                    assert(lines.len() >= 2);
                    assert(last == lines[lines.len() - 1]);
                }
            }
        }
    }
}

/// No more lines are kept than there are.
proof fn lemma_unquoted_shorter(lines: Seq<Seq<char>>)
    ensures
        unquoted(lines).len() <= lines.len(),
    decreases lines.len(),
{
    if lines.len() > 0 {
        lemma_unquoted_shorter(lines.drop_last());
    }
}

/// Joined lines, none empty and each on one line, hold no empty line and
/// neither begin nor end with a line feed.
proof fn lemma_join_tight(lines: Seq<Seq<char>>)
    requires
        solid(lines),
        forall|i: int| 0 <= i < lines.len() ==> lacks(#[trigger] lines[i], '\n'),
    ensures
        tight(join_lines(lines)),
        lines.len() > 0 ==> join_lines(lines).len() > 0 && join_lines(lines)[0] != '\n'
            && join_lines(lines).last() != '\n',
    decreases lines.len(),
{
    if lines.len() == 1 {
        let only = lines[0];
        assert(lacks(only, '\n'));
        assert(only.len() > 0);
        assert(only.last() == only[only.len() - 1]);
    } else if lines.len() >= 2 {
        let init = lines.drop_last();
        let last = lines.last();
        assert forall|i: int| 0 <= i < init.len() implies lacks(#[trigger] init[i], '\n')
            && init[i].len() > 0 by {
            assert(init[i] == lines[i]);
        }
        lemma_join_tight(init);
        let head = join_lines(init);
        let joined = join_lines(lines);
        assert(joined == head + seq!['\n'] + last);
        assert(lacks(last, '\n'));
        assert(last.len() > 0);
        assert(last == lines[lines.len() - 1]);
        assert(joined[0] == head[0]);
        assert(joined.last() == last[last.len() - 1]);
        assert forall|k: int| 0 <= k && k + 1 < joined.len() implies !(#[trigger] joined[k] == '\n'
            && joined[k + 1] == '\n') by {
            if k + 1 < head.len() {
                assert(joined[k] == head[k]);
                assert(joined[k + 1] == head[k + 1]);
            } else if k + 1 == head.len() {
                assert(joined[k] == head[head.len() - 1]);
                assert(head.last() == head[head.len() - 1]);
            } else if k == head.len() {
                assert(joined[k + 1] == last[0]);
            } else {
                assert(joined[k] == last[k - head.len() - 1]);
            }
        }
    }
}

/// A text without an empty line is one paragraph.
proof fn lemma_tight_is_one_paragraph(s: Seq<char>, from: int)
    requires
        tight(s),
        0 <= from <= s.len(),
    ensures
        find_blank_line(s, from) == s.len(),
    decreases s.len() - from,
{
    if from + 1 < s.len() {
        assert(!(s[from] == '\n' && s[from + 1] == '\n'));
        lemma_tight_is_one_paragraph(s, from + 1);
    }
}

/// No empty line stands before the first empty line.
proof fn lemma_before_blank_line(s: Seq<char>, from: int)
    requires
        0 <= from <= s.len(),
    ensures
        forall|k: int|
            from <= k < find_blank_line(s, from) && k + 1 < s.len() ==> !(#[trigger] s[k] == '\n'
                && s[k + 1] == '\n'),
        from <= find_blank_line(s, from) <= s.len(),
    decreases s.len() - from,
{
    if from + 1 < s.len() && !(s[from] == '\n' && s[from + 1] == '\n') {
        lemma_before_blank_line(s, from + 1);
    }
}

/// Every paragraph is without an empty line, and lacks what the text lacks.
proof fn lemma_paragraphs_are_tight(s: Seq<char>, from: int, c: char)
    requires
        0 <= from <= s.len(),
    ensures
        forall|i: int|
            0 <= i < paragraphs_from(s, from).len() ==> tight(#[trigger] paragraphs_from(s, from)[i]),
        lacks(s, c) ==> forall|i: int|
            0 <= i < paragraphs_from(s, from).len() ==> lacks(
                #[trigger] paragraphs_from(s, from)[i],
                c,
            ),
    decreases s.len() - from,
{
    let end = find_blank_line(s, from);
    lemma_before_blank_line(s, from);
    let all = paragraphs_from(s, from);
    let piece = s.subrange(from, if end < s.len() {
        end
    } else {
        s.len() as int
    });
    assert(tight(piece)) by {
        assert forall|k: int| 0 <= k && k + 1 < piece.len() implies !(#[trigger] piece[k] == '\n'
            && piece[k + 1] == '\n') by {
            assert(piece[k] == s[from + k]);
            assert(piece[k + 1] == s[from + k + 1]);
            assert(!(s[from + k] == '\n' && s[from + k + 1] == '\n'));
        }
    }
    if lacks(s, c) {
        assert forall|k: int| 0 <= k < piece.len() implies piece[k] != c by {
            assert(piece[k] == s[from + k]);
        }
    }
    if end < s.len() {
        crate::reply::lemma_find_blank_line(s, from);
        lemma_paragraphs_are_tight(s, end + 2, c);
        let rest = paragraphs_from(s, end + 2);
        assert(all == seq![piece] + rest);
        assert forall|i: int| 0 <= i < all.len() implies tight(#[trigger] all[i]) by {
            if i > 0 {
                assert(all[i] == rest[i - 1]);
            }
        }
        if lacks(s, c) {
            assert forall|i: int| 0 <= i < all.len() implies lacks(#[trigger] all[i], c) by {
                if i > 0 {
                    assert(all[i] == rest[i - 1]);
                }
            }
        }
    } else {
        assert(all == seq![piece]);
    }
}

/// After a line feed, a text without an empty line has no empty line
/// among its lines.
proof fn lemma_lines_after_feed(s: Seq<char>, start: int)
    requires
        tight(s),
        1 <= start,
        start <= s.len() ==> s[start - 1] == '\n',
    ensures
        solid(lines_from(s, start)),
    decreases s.len() - start,
{
    if start < s.len() {
        let end = find_char(s, '\n', start);
        lemma_find_char(s, '\n', start);
        let line = s.subrange(start, end);
        assert(!(s[start - 1] == '\n' && s[start] == '\n'));
        assert(end > start);
        let all = lines_from(s, start);
        if end < s.len() {
            lemma_lines_after_feed(s, end + 1);
            let rest = lines_from(s, end + 1);
            assert(all == seq![line] + rest);
            assert forall|i: int| 0 <= i < all.len() implies (#[trigger] all[i]).len() > 0 by {
                if i > 0 {
                    assert(all[i] == rest[i - 1]);
                }
            }
        } else {
            assert(all == seq![line]);
        }
    }
}

/// Of the lines of a text without an empty line, none but the first is
/// empty.
proof fn lemma_lines_of_tight(s: Seq<char>)
    requires
        tight(s),
    ensures
        tail_solid(lines(s)),
{
    if 0 < s.len() {
        let end = find_char(s, '\n', 0);
        lemma_find_char(s, '\n', 0);
        let line = s.subrange(0, end);
        let all = lines(s);
        if end < s.len() {
            lemma_lines_after_feed(s, end + 1);
            let rest = lines_from(s, end + 1);
            assert(all == seq![line] + rest);
            assert forall|i: int| 1 <= i < all.len() implies (#[trigger] all[i]).len() > 0 by {
                assert(all[i] == rest[i - 1]);
            }
        } else {
            assert(all == seq![line]);
        }
    }
}

/// The text of a paragraph without an empty line is one paragraph, and its
/// own text.
proof fn lemma_paragraph_text_is_fixed(paragraph: Seq<char>)
    requires
        tight(paragraph),
        lacks(paragraph, '\r'),
    ensures
        lacks(paragraph_text(paragraph), '\r'),
        first_text_from(paragraphs_from(paragraph_text(paragraph), 0), 0) == paragraph_text(
            paragraph,
        ),
{
    let all = lines(paragraph);
    lemma_lines_are_lines(paragraph, 0, '\r');
    lemma_lines_of_tight(paragraph);
    lemma_unquoted_lines(all);
    let kept = unquoted(all);
    let joined = join_lines(kept);
    let text = paragraph_text(paragraph);
    assert(text == trim(joined));
    lemma_trim_both(joined);
    lemma_trim_start_of_join(kept);
    let front = strip_front(kept);
    lemma_strip_front(kept);
    lemma_trim_end_of_join(front);
    let core = strip_back(front);
    lemma_strip_back(front);
    assert(text == join_lines(core));
    assert forall|i: int| 0 <= i < core.len() implies lacks(#[trigger] core[i], '\n') && lacks(
        core[i],
        '\r',
    ) by {
        assert(open_line(core[i]));
    }
    lemma_join_lacks(core, '\r');
    lemma_join_tight(core);
    lemma_tight_is_one_paragraph(text, 0);
    let paragraphs = paragraphs_from(text, 0);
    assert(text.subrange(0, text.len() as int) == text);
    assert(paragraphs == seq![text]);
    if core.len() == 0 {
        assert(text.len() == 0);
        assert(lines(text) == Seq::<Seq<char>>::empty());
        assert(unquoted(lines(text)) == Seq::<Seq<char>>::empty());
        assert(join_lines(Seq::<Seq<char>>::empty()) == text);
        assert(trim(text) == text);
        assert(paragraph_text(text) == text);
    } else {
        assert(core.last() == core[core.len() - 1]);
        assert(Seq::<char>::empty() + join_lines(core) == join_lines(core));
        lemma_lines_of_join(Seq::empty(), core);
        assert(lines(text) == core);
        lemma_unquoted_open(core);
        lemma_trim_is_trimmed(joined);
        lemma_trim_trimmed(text);
        assert(paragraph_text(text) == text);
    }
    assert(first_text_from(paragraphs, 1) == Seq::<char>::empty());
}

/// The first text among paragraphs is the text of one of them, or nothing.
proof fn lemma_first_text(paragraphs: Seq<Seq<char>>, from: int) -> (at: int)
    requires
        0 <= from,
    ensures
        first_text_from(paragraphs, from).len() > 0 ==> from <= at < paragraphs.len()
            && first_text_from(paragraphs, from) == paragraph_text(paragraphs[at]),
    decreases paragraphs.len() - from,
{
    if from < paragraphs.len() {
        if paragraph_text(paragraphs[from]).len() > 0 {
            from
        } else {
            lemma_first_text(paragraphs, from + 1)
        }
    } else {
        from
    }
}

/// The first paragraph with text of a message is its own first paragraph
/// with text.
pub(crate) proof fn lemma_first_paragraph_is_fixed(body: Seq<char>)
    requires
        lacks(body, '\r'),
    ensures
        lacks(first_text_from(paragraphs_from(body, 0), 0), '\r'),
        first_text_from(paragraphs_from(first_text_from(paragraphs_from(body, 0), 0), 0), 0)
            == first_text_from(paragraphs_from(body, 0), 0),
{
    let paragraphs = paragraphs_from(body, 0);
    let text = first_text_from(paragraphs, 0);
    let at = lemma_first_text(paragraphs, 0);
    if text.len() > 0 {
        lemma_paragraphs_are_tight(body, 0, '\r');
        lemma_paragraph_text_is_fixed(paragraphs[at]);
    } else {
        assert(tight(text));
        lemma_paragraph_text_is_fixed_for_nothing();
        assert(text == Seq::<char>::empty());
    }
}

/// Nothing is its own first paragraph with text.
proof fn lemma_paragraph_text_is_fixed_for_nothing()
    ensures
        first_text_from(paragraphs_from(Seq::<char>::empty(), 0), 0) == Seq::<char>::empty(),
{
    let nothing = Seq::<char>::empty();
    let paragraphs = paragraphs_from(nothing, 0);
    assert(nothing.subrange(0, 0) == nothing);
    assert(paragraphs == seq![nothing]);
    assert(first_text_from(paragraphs, 1) == nothing);
    assert(lines(nothing) == Seq::<Seq<char>>::empty());
    assert(unquoted(Seq::<Seq<char>>::empty()) == Seq::<Seq<char>>::empty());
    assert(join_lines(Seq::<Seq<char>>::empty()) == nothing);
    assert(trim(nothing) == nothing);
    assert(paragraph_text(nothing) == nothing);
}

} // verus!
