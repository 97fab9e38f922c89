//! Cutting the reply out of a reply changes nothing.

use vstd::prelude::*;
use crate::reply::{
    direct_reply,
    ends_reply,
    is_quoted,
    is_quoted_header,
    kept_from,
    reply_in,
    reply_text,
};
use crate::text::{
    find_char,
    is_whitespace,
    join_lines,
    lemma_find_char,
    lines,
    lines_from,
    skip_whitespace,
    skip_whitespace_back,
    trim,
    unicode_lowercase,
    without_char,
};

verus! {

/// `c` does not occur in `s`.
pub open spec fn lacks(s: Seq<char>, c: char) -> bool {
    forall|i: int| 0 <= i < s.len() ==> s[i] != c
}

/// `s` is empty, or begins and ends with something other than white space.
pub open spec fn trimmed(s: Seq<char>) -> bool {
    s.len() > 0 ==> !is_whitespace(s[0]) && !is_whitespace(s.last())
}

/// Every character of `s` is white space.
pub open spec fn blank(s: Seq<char>) -> bool {
    forall|i: int| 0 <= i < s.len() ==> is_whitespace(s[i])
}

/// A kept line: trimmed, on one line, and, where it is not empty, neither
/// quoted nor the end of a reply.
pub open spec fn kept_line(line: Seq<char>) -> bool {
    &&& trimmed(line)
    &&& lacks(line, '\n')
    &&& lacks(line, '\r')
    &&& line.len() > 0 ==> !ends_reply(line) && !is_quoted(line)
}

/// What the pass over the lines keeps: kept lines, of which the first is
/// not empty and no later one opens a block of quoted headers.
pub open spec fn kept_lines(kept: Seq<Seq<char>>) -> bool {
    &&& forall|i: int| 0 <= i < kept.len() ==> kept_line(#[trigger] kept[i])
    &&& kept.len() > 0 ==> kept[0].len() > 0
    &&& forall|i: int|
        0 < i < kept.len() && (#[trigger] kept[i]).len() > 0 ==> !is_quoted_header(
            unicode_lowercase(kept[i]),
        )
}

/// `kept` without the empty lines at its end.
pub open spec fn without_empty_tail(kept: Seq<Seq<char>>) -> Seq<Seq<char>>
    decreases kept.len(),
{
    if kept.len() > 0 && kept.last().len() == 0 {
        without_empty_tail(kept.drop_last())
    } else {
        kept
    }
}

pub(crate) proof fn lemma_skip_whitespace(s: Seq<char>, i: int)
    requires
        0 <= i <= s.len(),
    ensures
        i <= skip_whitespace(s, i) <= s.len(),
        skip_whitespace(s, i) < s.len() ==> !is_whitespace(s[skip_whitespace(s, i)]),
    decreases s.len() - i,
{
    if i < s.len() && is_whitespace(s[i]) {
        lemma_skip_whitespace(s, i + 1);
    }
}

pub(crate) proof fn lemma_skip_whitespace_back(s: Seq<char>, lo: int, j: int)
    requires
        0 <= lo <= j <= s.len(),
    ensures
        lo <= skip_whitespace_back(s, lo, j) <= j,
        skip_whitespace_back(s, lo, j) > lo ==> !is_whitespace(
            s[skip_whitespace_back(s, lo, j) - 1],
        ),
    decreases j,
{
    if lo < j && is_whitespace(s[j - 1]) {
        lemma_skip_whitespace_back(s, lo, j - 1);
    }
}

/// What is left after trimming is trimmed, and is a part of the text.
pub(crate) proof fn lemma_trim_is_trimmed(s: Seq<char>)
    ensures
        trimmed(trim(s)),
        forall|c: char| lacks(s, c) ==> lacks(trim(s), c),
{
    let start = skip_whitespace(s, 0);
    lemma_skip_whitespace(s, 0);
    lemma_skip_whitespace_back(s, start, s.len() as int);
    let end = skip_whitespace_back(s, start, s.len() as int);
    assert forall|c: char| lacks(s, c) implies lacks(trim(s), c) by {
        assert forall|i: int| 0 <= i < trim(s).len() implies trim(s)[i] != c by {
            assert(trim(s)[i] == s[start + i]);
        }
    }
}

pub(crate) proof fn lemma_skip_back_over_blank(s: Seq<char>, keep: int, j: int)
    requires
        0 < keep <= j <= s.len(),
        !is_whitespace(s[keep - 1]),
        forall|i: int| keep <= i < j ==> is_whitespace(s[i]),
    ensures
        skip_whitespace_back(s, 0, j) == keep,
    decreases j,
{
    if keep < j {
        lemma_skip_back_over_blank(s, keep, j - 1);
    }
}

/// Trimming takes white space off the end of a trimmed text, and nothing
/// else.
pub(crate) proof fn lemma_trim_blank_tail(s: Seq<char>, tail: Seq<char>)
    requires
        trimmed(s),
        s.len() > 0,
        blank(tail),
    ensures
        trim(s + tail) == s,
{
    let whole = s + tail;
    assert(whole[0] == s[0]);
    assert(skip_whitespace(whole, 0) == 0);
    assert(whole[s.len() - 1] == s.last());
    assert forall|i: int| s.len() <= i < whole.len() implies is_whitespace(whole[i]) by {
        assert(whole[i] == tail[i - s.len()]);
    }
    lemma_skip_back_over_blank(whole, s.len() as int, whole.len() as int);
    assert(whole.subrange(0, s.len() as int) == s);
}

/// Trimming a trimmed text changes nothing.
pub(crate) proof fn lemma_trim_trimmed(s: Seq<char>)
    requires
        trimmed(s),
    ensures
        trim(s) == s,
{
    if s.len() > 0 {
        assert(s + Seq::<char>::empty() == s);
        lemma_trim_blank_tail(s, Seq::empty());
    } else {
        assert(trim(s) == s);
    }
}

/// A text without a character is left as it is when that character is
/// taken out; and no text holds a character that was taken out of it.
pub(crate) proof fn lemma_without_char(s: Seq<char>, c: char)
    ensures
        lacks(without_char(s, c), c),
        lacks(s, c) ==> without_char(s, c) == s,
        forall|d: char| lacks(s, d) ==> lacks(without_char(s, c), d),
    decreases s.len(),
{
    if s.len() > 0 {
        let init = s.drop_last();
        lemma_without_char(init, c);
        if lacks(s, c) {
            assert(lacks(init, c)) by {
                assert forall|i: int| 0 <= i < init.len() implies init[i] != c by {
                    assert(init[i] == s[i]);
                }
            }
            assert(s.last() != c);
            assert(init.push(s.last()) == s);
        }
        assert forall|d: char| lacks(s, d) implies lacks(without_char(s, c), d) by {
            assert(lacks(init, d)) by {
                assert forall|i: int| 0 <= i < init.len() implies init[i] != d by {
                    assert(init[i] == s[i]);
                }
            }
            assert(s.last() == s[s.len() - 1]);
        }
    }
}

/// No line holds a line feed, nor a character that the text lacks.
pub(crate) proof fn lemma_lines_are_lines(s: Seq<char>, start: int, c: char)
    requires
        0 <= start,
    ensures
        forall|i: int|
            0 <= i < lines_from(s, start).len() ==> lacks(
                #[trigger] lines_from(s, start)[i],
                '\n',
            ),
        lacks(s, c) ==> forall|i: int|
            0 <= i < lines_from(s, start).len() ==> lacks(#[trigger] lines_from(s, start)[i], c),
    decreases s.len() - start,
{
    if start < s.len() {
        let end = find_char(s, '\n', start);
        lemma_find_char(s, '\n', start);
        let line = s.subrange(start, end);
        assert(lacks(line, '\n')) by {
            assert forall|i: int| 0 <= i < line.len() implies line[i] != '\n' by {
                assert(line[i] == s[start + i]);
            }
        }
        if lacks(s, c) {
            assert forall|i: int| 0 <= i < line.len() implies line[i] != c by {
                assert(line[i] == s[start + i]);
            }
        }
        let all = lines_from(s, start);
        if end < s.len() {
            lemma_lines_are_lines(s, end + 1, c);
            let rest = lines_from(s, end + 1);
            assert(all == seq![line] + rest);
            assert forall|i: int| 0 <= i < all.len() implies lacks(#[trigger] all[i], '\n') by {
                if i > 0 {
                    assert(all[i] == rest[i - 1]);
                }
            }
            if lacks(s, c) {
                assert forall|i: int| 0 <= i < all.len() implies lacks(#[trigger] all[i], c) by {
                    if i > 0 {
                        assert(all[i] == rest[i - 1]);
                    }
                }
            }
        } else {
            assert(all == seq![line]);
        }
    }
}

/// The pass over lines without line feeds and carriage returns keeps
/// kept lines.
pub(crate) proof fn lemma_kept_from_keeps(all: Seq<Seq<char>>, i: int, kept: Seq<Seq<char>>)
    requires
        0 <= i,
        kept_lines(kept),
        forall|k: int| 0 <= k < all.len() ==> lacks(#[trigger] all[k], '\n'),
        forall|k: int| 0 <= k < all.len() ==> lacks(#[trigger] all[k], '\r'),
    ensures
        kept_lines(kept_from(all, i, kept)),
    decreases all.len() - i,
{
    if i < all.len() {
        let line = trim(all[i]);
        lemma_trim_is_trimmed(all[i]);
        assert(lacks(all[i], '\n'));
        assert(lacks(all[i], '\r'));
        if line.len() == 0 {
            if kept.len() > 0 {
                let next = kept.push(line);
                assert(kept_lines(next)) by {
                    assert forall|k: int| 0 <= k < next.len() implies kept_line(
                        #[trigger] next[k],
                    ) by {
                        if k < kept.len() {
                            assert(next[k] == kept[k]);
                        }
                    }
                    assert forall|k: int| 0 < k < next.len() && (#[trigger] next[k]).len()
                        > 0 implies !is_quoted_header(unicode_lowercase(next[k])) by {
                        if k < kept.len() {
                            assert(next[k] == kept[k]);
                        }
                    }
                    assert(next[0] == kept[0]);
                }
                lemma_kept_from_keeps(all, i + 1, next);
            } else {
                lemma_kept_from_keeps(all, i + 1, kept);
            }
        } else if ends_reply(line) {
        } else if is_quoted_header(unicode_lowercase(line)) && kept.len() > 0 {
        } else if is_quoted(line) {
            lemma_kept_from_keeps(all, i + 1, kept);
        } else {
            let next = kept.push(line);
            assert(kept_lines(next)) by {
                assert forall|k: int| 0 <= k < next.len() implies kept_line(#[trigger] next[k]) by {
                    if k < kept.len() {
                        assert(next[k] == kept[k]);
                    }
                }
                assert forall|k: int| 0 < k < next.len() && (#[trigger] next[k]).len()
                    > 0 implies !is_quoted_header(unicode_lowercase(next[k])) by {
                    if k < kept.len() {
                        assert(next[k] == kept[k]);
                    }
                }
                if kept.len() > 0 {
                    assert(next[0] == kept[0]);
                }
            }
            lemma_kept_from_keeps(all, i + 1, next);
        }
    }
}

/// The pass over kept lines keeps them all.
pub(crate) proof fn lemma_kept_lines_are_kept(kept: Seq<Seq<char>>, i: int)
    requires
        kept_lines(kept),
        0 <= i <= kept.len(),
    ensures
        kept_from(kept, i, kept.take(i)) == kept,
    decreases kept.len() - i,
{
    if i < kept.len() {
        let line = kept[i];
        assert(kept_line(line));
        lemma_trim_trimmed(line);
        assert(kept.take(i).push(line) == kept.take(i + 1));
        if i == 0 {
            assert(line.len() > 0);
        }
        lemma_kept_lines_are_kept(kept, i + 1);
    } else {
        assert(kept.take(i) == kept);
    }
}

/// Kept lines without the empty ones at their end are kept lines that do
/// not end in an empty one.
pub(crate) proof fn lemma_without_empty_tail(kept: Seq<Seq<char>>)
    requires
        kept_lines(kept),
    ensures
        kept_lines(without_empty_tail(kept)),
        without_empty_tail(kept).len() > 0 ==> without_empty_tail(kept).last().len() > 0,
        kept.len() > 0 ==> without_empty_tail(kept).len() > 0,
    decreases kept.len(),
{
    if kept.len() > 0 && kept.last().len() == 0 {
        let init = kept.drop_last();
        assert(kept.len() > 1);
        assert(kept_lines(init)) by {
            assert forall|k: int| 0 <= k < init.len() implies kept_line(#[trigger] init[k]) by {
                assert(init[k] == kept[k]);
            }
            assert forall|k: int| 0 < k < init.len() && (#[trigger] init[k]).len()
                > 0 implies !is_quoted_header(unicode_lowercase(init[k])) by {
                assert(init[k] == kept[k]);
            }
            assert(init[0] == kept[0]);
        }
        lemma_without_empty_tail(init);
    }
}

/// Joined lines lack what every line lacks, but for the line feed.
pub(crate) proof fn lemma_join_lacks(pieces: Seq<Seq<char>>, c: char)
    requires
        c != '\n',
        forall|i: int| 0 <= i < pieces.len() ==> lacks(#[trigger] pieces[i], c),
    ensures
        lacks(join_lines(pieces), c),
    decreases pieces.len(),
{
    if pieces.len() >= 2 {
        let init = pieces.drop_last();
        assert forall|i: int| 0 <= i < init.len() implies lacks(#[trigger] init[i], c) by {
            assert(init[i] == pieces[i]);
        }
        lemma_join_lacks(init, c);
        let joined = join_lines(pieces);
        let head = join_lines(init) + seq!['\n'];
        assert(lacks(pieces.last(), c));
        assert forall|i: int| 0 <= i < joined.len() implies joined[i] != c by {
            if i < join_lines(init).len() {
                assert(joined[i] == join_lines(init)[i]);
            } else if i == join_lines(init).len() {
                assert(joined[i] == '\n');
            } else {
                assert(joined[i] == pieces.last()[i - head.len()]);
            }
        }
    } else if pieces.len() == 1 {
        assert(lacks(pieces[0], c));
    }
}

/// Joined kept lines that do not end in an empty one are trimmed and not
/// empty.
pub(crate) proof fn lemma_join_trimmed(kept: Seq<Seq<char>>)
    requires
        kept_lines(kept),
        kept.len() > 0,
        kept.last().len() > 0,
    ensures
        join_lines(kept).len() > 0,
        trimmed(join_lines(kept)),
        join_lines(kept)[0] == kept[0][0],
    decreases kept.len(),
{
    assert(kept_line(kept.last()));
    assert(kept_line(kept[0]));
    if kept.len() >= 2 {
        let init = kept.drop_last();
        lemma_join_first(init, kept[0]);
        let joined = join_lines(kept);
        assert(joined[0] == join_lines(init)[0]);
        assert(joined.last() == kept.last().last());
    }
}

/// Joined lines of which the first is not empty begin as that line begins.
pub(crate) proof fn lemma_join_first(pieces: Seq<Seq<char>>, first: Seq<char>)
    requires
        pieces.len() > 0,
        pieces[0] == first,
        first.len() > 0,
    ensures
        join_lines(pieces).len() > 0,
        join_lines(pieces)[0] == first[0],
    decreases pieces.len(),
{
    if pieces.len() >= 2 {
        lemma_join_first(pieces.drop_last(), first);
    }
}

/// Joined kept lines differ from the same without the empty ones at the
/// end by line feeds at the end.
pub(crate) proof fn lemma_join_empty_tail(kept: Seq<Seq<char>>) -> (tail: Seq<char>)
    requires
        kept_lines(kept),
    ensures
        blank(tail),
        join_lines(kept) == join_lines(without_empty_tail(kept)) + tail,
    decreases kept.len(),
{
    if kept.len() > 0 && kept.last().len() == 0 {
        let init = kept.drop_last();
        assert(kept.len() > 1);
        assert(kept_lines(init)) by {
            assert forall|k: int| 0 <= k < init.len() implies kept_line(#[trigger] init[k]) by {
                assert(init[k] == kept[k]);
            }
            assert forall|k: int| 0 < k < init.len() && (#[trigger] init[k]).len()
                > 0 implies !is_quoted_header(unicode_lowercase(init[k])) by {
                assert(init[k] == kept[k]);
            }
            assert(init[0] == kept[0]);
        }
        let shorter = lemma_join_empty_tail(init);
        let tail = shorter + seq!['\n'];
        assert(join_lines(kept) == join_lines(init) + seq!['\n'] + kept.last());
        assert(join_lines(kept) == join_lines(without_empty_tail(kept)) + tail);
        tail
    } else {
        assert(join_lines(kept) + Seq::<char>::empty() == join_lines(kept));
        Seq::empty()
    }
}

/// The lines of joined lines are those lines, where none holds a line
/// feed and the last is not empty.
pub(crate) proof fn lemma_lines_of_join(before: Seq<char>, pieces: Seq<Seq<char>>)
    requires
        pieces.len() > 0,
        pieces.last().len() > 0,
        forall|i: int| 0 <= i < pieces.len() ==> lacks(#[trigger] pieces[i], '\n'),
    ensures
        lines_from(before + join_lines(pieces), before.len() as int) == pieces,
    decreases pieces.len(),
{
    let s = before + join_lines(pieces);
    let start = before.len() as int;
    let first = pieces[0];
    assert(lacks(first, '\n'));
    if pieces.len() == 1 {
        assert(s.len() > start);
        assert forall|j: int| start <= j < s.len() implies s[j] != '\n' by {
            assert(s[j] == first[j - start]);
        }
        lemma_find_end(s, start);
        assert(s.subrange(start, s.len() as int) == first);
        assert(lines_from(s, start) == seq![first]);
    } else {
        let rest = pieces.drop_first();
        lemma_join_front(pieces);
        let joined = join_lines(pieces);
        assert(joined == first + seq!['\n'] + join_lines(rest));
        let end = start + first.len();
        assert(s[end] == '\n');
        assert forall|j: int| start <= j < end implies s[j] != '\n' by {
            assert(s[j] == first[j - start]);
        }
        lemma_find_here(s, start, end);
        assert(s.subrange(start, end) == first);
        let longer = before + first + seq!['\n'];
        assert(s == longer + join_lines(rest));
        assert(rest.last() == pieces.last());
        assert forall|i: int| 0 <= i < rest.len() implies lacks(#[trigger] rest[i], '\n') by {
            assert(rest[i] == pieces[i + 1]);
        }
        lemma_lines_of_join(longer, rest);
        assert(lines_from(s, start) == seq![first] + lines_from(s, end + 1));
        assert(seq![first] + rest == pieces);
    }
}

pub(crate) proof fn lemma_find_here(s: Seq<char>, from: int, at: int)
    requires
        0 <= from <= at < s.len(),
        s[at] == '\n',
        forall|j: int| from <= j < at ==> s[j] != '\n',
    ensures
        find_char(s, '\n', from) == at,
    decreases at - from,
{
    if from < at {
        lemma_find_here(s, from + 1, at);
    }
}

pub(crate) proof fn lemma_find_end(s: Seq<char>, from: int)
    requires
        0 <= from <= s.len(),
        forall|j: int| from <= j < s.len() ==> s[j] != '\n',
    ensures
        find_char(s, '\n', from) == s.len(),
    decreases s.len() - from,
{
    if from < s.len() {
        lemma_find_end(s, from + 1);
    }
}

/// Joining two lines or more is joining the first to the rest.
pub(crate) proof fn lemma_join_front(pieces: Seq<Seq<char>>)
    requires
        pieces.len() >= 2,
    ensures
        join_lines(pieces) == pieces[0] + seq!['\n'] + join_lines(pieces.drop_first()),
    decreases pieces.len(),
{
    let init = pieces.drop_last();
    let rest = pieces.drop_first();
    if pieces.len() == 2 {
        assert(init.len() == 1);
        assert(rest.len() == 1);
        assert(join_lines(init) == pieces[0]);
        assert(join_lines(rest) == pieces[1]);
    } else {
        lemma_join_front(init);
        assert(init.drop_first() == rest.drop_last());
        assert(init[0] == pieces[0]);
        assert(rest.last() == pieces.last());
        assert(join_lines(rest) == join_lines(rest.drop_last()) + seq!['\n'] + rest.last());
        assert(join_lines(pieces) == pieces[0] + seq!['\n'] + join_lines(rest));
    }
}

/// The reply found by the pass over the lines is its own reply.
pub(crate) proof fn lemma_direct_reply_is_fixed(body: Seq<char>)
    requires
        lacks(body, '\r'),
        direct_reply(body).len() > 0,
    ensures
        lacks(direct_reply(body), '\r'),
        direct_reply(direct_reply(body)) == direct_reply(body),
{
    let all = lines(body);
    lemma_lines_are_lines(body, 0, '\r');
    assert(kept_lines(Seq::<Seq<char>>::empty()));
    lemma_kept_from_keeps(all, 0, Seq::empty());
    let kept = kept_from(all, 0, Seq::empty());
    let core = without_empty_tail(kept);
    lemma_without_empty_tail(kept);
    let tail = lemma_join_empty_tail(kept);
    let reply = direct_reply(body);
    if kept.len() == 0 {
        assert(join_lines(kept).len() == 0);
        assert(trim(join_lines(kept)).len() == 0);
    }
    lemma_join_trimmed(core);
    lemma_trim_blank_tail(join_lines(core), tail);
    assert(reply == join_lines(core));

    assert forall|i: int| 0 <= i < core.len() implies lacks(#[trigger] core[i], '\r') by {
        assert(kept_line(core[i]));
    }
    lemma_join_lacks(core, '\r');

    assert forall|i: int| 0 <= i < core.len() implies lacks(#[trigger] core[i], '\n') by {
        assert(kept_line(core[i]));
    }
    assert(Seq::<char>::empty() + join_lines(core) == join_lines(core));
    lemma_lines_of_join(Seq::empty(), core);
    assert(lines(reply) == core);
    lemma_kept_lines_are_kept(core, 0);
    assert(core.take(0) == Seq::<Seq<char>>::empty());
    assert(kept_from(core, 0, Seq::empty()) == core);
    lemma_trim_trimmed(join_lines(core));
}

/// What the reply of a message is, when the message is the reply of
/// another: the reply that the pass over its lines finds, or else itself.
pub(crate) proof fn lemma_reply_of_reply(input: Seq<char>)
    ensures
        direct_reply(without_char(input, '\r')).len() > 0 ==> reply_text(reply_text(input))
            == reply_text(input),
        reply_text(reply_text(input)) == if direct_reply(reply_text(input)).len() > 0 {
            direct_reply(reply_text(input))
        } else {
            reply_text(input)
        },
{
    let body = without_char(input, '\r');
    lemma_without_char(input, '\r');
    let reply = reply_text(input);
    if direct_reply(body).len() > 0 {
        lemma_direct_reply_is_fixed(body);
        lemma_without_char(reply, '\r');
    } else {
        crate::paragraph_laws::lemma_first_paragraph_is_fixed(body);
        lemma_without_char(reply, '\r');
    }
    assert(without_char(reply, '\r') == reply);
    assert(reply_text(reply) == reply_in(reply));
}

/// Cutting the reply out of a reply gives the same reply.
///
/// This holds of every message in which the pass over the lines finds a
/// reply. Where the reply is a paragraph instead, it holds unless the
/// pass over the lines of that paragraph finds a reply that is only a part
/// of it.
pub proof fn lemma_reply_text_idempotent(input: Seq<char>)
    requires
        direct_reply(without_char(input, '\r')).len() > 0 || direct_reply(
            reply_text(input),
        ).len() == 0 || direct_reply(reply_text(input)) == reply_text(input),
    ensures
        reply_text(reply_text(input)) == reply_text(input),
{
    lemma_reply_of_reply(input);
}

/// On every other message, cutting the reply out of the reply gives
/// another text: the part of it that the pass over its lines finds.
pub proof fn lemma_reply_text_shrinks(input: Seq<char>)
    requires
        direct_reply(without_char(input, '\r')).len() == 0,
        direct_reply(reply_text(input)).len() > 0,
        direct_reply(reply_text(input)) != reply_text(input),
    ensures
        reply_text(reply_text(input)) == direct_reply(reply_text(input)),
        reply_text(reply_text(input)) != reply_text(input),
{
    lemma_reply_of_reply(input);
}

} // verus!
