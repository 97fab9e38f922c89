//! Cuts the text of a reply out of a message body: what the sender wrote,
//! without the message that the reply quotes.

use vstd::prelude::*;
use crate::text::{
    append_chars,
    chars_contain,
    chars_end_with,
    chars_join_lines,
    chars_lines,
    chars_start_with,
    chars_trim,
    chars_unicode_lowercase,
    chars_without,
    contains,
    ends_with,
    from_chars,
    join_lines,
    lines,
    slice_chars,
    starts_with,
    to_chars,
    trim,
    unicode_lowercase,
    views,
    without_char,
};

verus! {

/// The line with which a mail client introduces the quoted message:
/// `On <date>, <someone> wrote:`. `lower` is the line in lower case.
pub open spec fn is_attribution(lower: Seq<char>) -> bool {
    starts_with(lower, "on "@) && ends_with(lower, " wrote:"@)
}

/// The line that marks a forwarded or original message. `lower` is the line
/// in lower case.
pub open spec fn is_original_marker(lower: Seq<char>) -> bool {
    ||| contains(lower, "original message"@)
    ||| contains(lower, "пересылаемое сообщение"@)
    ||| contains(lower, "исходное сообщение"@)
}

/// The line opens a block of quoted headers. `lower` is the line in lower
/// case.
pub open spec fn is_quoted_header(lower: Seq<char>) -> bool {
    ||| starts_with(lower, "from:"@)
    ||| starts_with(lower, "от кого:"@)
    ||| starts_with(lower, "subject:"@)
    ||| starts_with(lower, "тема:"@)
    ||| starts_with(lower, "to:"@)
    ||| starts_with(lower, "кому:"@)
    ||| starts_with(lower, "date:"@)
    ||| starts_with(lower, "дата:"@)
}

/// The line is quoted: it begins with `>`.
pub open spec fn is_quoted(line: Seq<char>) -> bool {
    line.len() > 0 && line[0] == '>'
}

/// The reply ends before this trimmed line.
pub open spec fn ends_reply(line: Seq<char>) -> bool {
    is_attribution(unicode_lowercase(line)) || is_original_marker(unicode_lowercase(line))
}

/// The lines of the reply among `lines` from index `i` on, after `kept`
/// were taken from the lines before.
///
/// Each line is trimmed. An empty line is kept once something was kept, a
/// quoted line never. The reply ends at an attribution line, at a marker of
/// the original message, and at a quoted header that follows kept text.
pub open spec fn kept_from(lines: Seq<Seq<char>>, i: int, kept: Seq<Seq<char>>) -> Seq<Seq<char>>
    decreases lines.len() - i,
{
    if 0 <= i < lines.len() {
        let line = trim(lines[i]);
        if line.len() == 0 {
            kept_from(
                lines,
                i + 1,
                if kept.len() > 0 {
                    kept.push(line)
                } else {
                    kept
                },
            )
        } else if ends_reply(line) {
            kept
        } else if is_quoted_header(unicode_lowercase(line)) && kept.len() > 0 {
            kept
        } else if is_quoted(line) {
            kept_from(lines, i + 1, kept)
        } else {
            kept_from(lines, i + 1, kept.push(line))
        }
    } else {
        kept
    }
}

/// The reply in `body`, a text without carriage returns, as the pass over
/// its lines finds it.
pub open spec fn direct_reply(body: Seq<char>) -> Seq<char> {
    trim(join_lines(kept_from(lines(body), 0, Seq::empty())))
}

/// Index of the first empty line at or after `i`, that is of two line feeds
/// in a row, or the length of `s` when there is none.
pub open spec fn find_blank_line(s: Seq<char>, i: int) -> int
    decreases s.len() - i,
{
    if 0 <= i && i + 1 < s.len() {
        if s[i] == '\n' && s[i + 1] == '\n' {
            i
        } else {
            find_blank_line(s, i + 1)
        }
    } else {
        s.len() as int
    }
}

/// [`find_blank_line`] stops at or after `i`.
pub proof fn lemma_find_blank_line(s: Seq<char>, i: int)
    requires
        0 <= i <= s.len(),
    ensures
        i <= find_blank_line(s, i) <= s.len(),
        find_blank_line(s, i) < s.len() ==> find_blank_line(s, i) + 2 <= s.len(),
    decreases s.len() - i,
{
    if i + 1 < s.len() && !(s[i] == '\n' && s[i + 1] == '\n') {
        lemma_find_blank_line(s, i + 1);
    }
}

/// The paragraphs of `s` from offset `start` on: the pieces between empty
/// lines.
pub open spec fn paragraphs_from(s: Seq<char>, start: int) -> Seq<Seq<char>>
    decreases s.len() - start,
{
    if 0 <= start <= s.len() {
        let end = find_blank_line(s, start);
        if end < s.len() {
            proof {
                lemma_find_blank_line(s, start);
            }
            seq![s.subrange(start, end)] + paragraphs_from(s, end + 2)
        } else {
            seq![s.subrange(start, s.len() as int)]
        }
    } else {
        Seq::empty()
    }
}

/// The lines among `lines` that are not quoted, also not after white space.
pub open spec fn unquoted(lines: Seq<Seq<char>>) -> Seq<Seq<char>>
    decreases lines.len(),
{
    if lines.len() == 0 {
        lines
    } else if is_quoted(trim(lines.last())) {
        unquoted(lines.drop_last())
    } else {
        unquoted(lines.drop_last()).push(lines.last())
    }
}

/// The paragraph without its quoted lines, trimmed.
pub open spec fn paragraph_text(paragraph: Seq<char>) -> Seq<char> {
    trim(join_lines(unquoted(lines(paragraph))))
}

/// The text of the first paragraph from index `i` on that has any, or
/// nothing.
pub open spec fn first_text_from(paragraphs: Seq<Seq<char>>, i: int) -> Seq<char>
    decreases paragraphs.len() - i,
{
    if 0 <= i < paragraphs.len() {
        if paragraph_text(paragraphs[i]).len() > 0 {
            paragraph_text(paragraphs[i])
        } else {
            first_text_from(paragraphs, i + 1)
        }
    } else {
        Seq::empty()
    }
}

/// The reply in `body`, a text without carriage returns: what the pass
/// over the lines finds, or else the first paragraph with unquoted text.
pub open spec fn reply_in(body: Seq<char>) -> Seq<char> {
    if direct_reply(body).len() > 0 {
        direct_reply(body)
    } else {
        first_text_from(paragraphs_from(body, 0), 0)
    }
}

/// The reply that a message body holds.
pub open spec fn reply_text(input: Seq<char>) -> Seq<char> {
    reply_in(without_char(input, '\r'))
}

fn starts_with_text(s: &Vec<char>, prefix: &str) -> (b: bool)
    ensures
        b == starts_with(s@, prefix@),
{
    let prefix = to_chars(prefix);
    chars_start_with(s, &prefix)
}

fn ends_with_text(s: &Vec<char>, suffix: &str) -> (b: bool)
    ensures
        b == ends_with(s@, suffix@),
{
    let suffix = to_chars(suffix);
    chars_end_with(s, &suffix)
}

fn contains_text(s: &Vec<char>, needle: &str) -> (b: bool)
    ensures
        b == contains(s@, needle@),
{
    let needle = to_chars(needle);
    chars_contain(s, &needle)
}

fn line_is_attribution(lower: &Vec<char>) -> (b: bool)
    ensures
        b == is_attribution(lower@),
{
    starts_with_text(lower, "on ") && ends_with_text(lower, " wrote:")
}

fn line_is_original_marker(lower: &Vec<char>) -> (b: bool)
    ensures
        b == is_original_marker(lower@),
{
    contains_text(lower, "original message") || contains_text(lower, "пересылаемое сообщение")
        || contains_text(lower, "исходное сообщение")
}

fn line_is_quoted_header(lower: &Vec<char>) -> (b: bool)
    ensures
        b == is_quoted_header(lower@),
{
    starts_with_text(lower, "from:") || starts_with_text(lower, "от кого:") || starts_with_text(
        lower,
        "subject:",
    ) || starts_with_text(lower, "тема:") || starts_with_text(lower, "to:") || starts_with_text(
        lower,
        "кому:",
    ) || starts_with_text(lower, "date:") || starts_with_text(lower, "дата:")
}

fn line_is_quoted(line: &Vec<char>) -> (b: bool)
    ensures
        b == is_quoted(line@),
{
    line.len() > 0 && line[0] == '>'
}

fn scan_lines(body: &Vec<char>) -> (reply: Vec<char>)
    ensures
        reply@ == direct_reply(body@),
{
    let all = chars_lines(body);
    let mut kept: Vec<Vec<char>> = Vec::new();
    let mut i: usize = 0;
    assert(views(kept@) == Seq::<Seq<char>>::empty());
    while i < all.len()
        invariant
            i <= all.len(),
            views(all@) == lines(body@),
            kept_from(lines(body@), i as int, views(kept@)) == kept_from(
                lines(body@),
                0,
                Seq::empty(),
            ),
        ensures
            views(kept@) == kept_from(lines(body@), 0, Seq::empty()),
        decreases all.len() - i,
    {
        assert(views(all@)[i as int] == all@[i as int]@);
        let line = chars_trim(&all[i]);
        if line.len() == 0 {
            if kept.len() > 0 {
                assert(views(kept@.push(line)) == views(kept@).push(line@));
                kept.push(line);
            }
        } else {
            let lower = chars_unicode_lowercase(&line);
            if line_is_attribution(&lower) || line_is_original_marker(&lower) {
                break ;
            }
            if line_is_quoted_header(&lower) && kept.len() > 0 {
                break ;
            }
            if !line_is_quoted(&line) {
                assert(views(kept@.push(line)) == views(kept@).push(line@));
                kept.push(line);
            }
        }
        i += 1;
    }
    let joined = chars_join_lines(&kept);
    chars_trim(&joined)
}

fn split_paragraphs(body: &Vec<char>) -> (out: Vec<Vec<char>>)
    ensures
        views(out@) == paragraphs_from(body@, 0),
{
    let mut out: Vec<Vec<char>> = Vec::new();
    let mut start: usize = 0;
    loop
        invariant
            start <= body.len(),
            views(out@) + paragraphs_from(body@, start as int) == paragraphs_from(body@, 0),
        decreases body.len() - start,
    {
        let mut end: usize = start;
        while end < body.len() && !(end + 1 < body.len() && body[end] == '\n' && body[end + 1]
            == '\n')
            invariant
                start <= end <= body.len(),
                find_blank_line(body@, end as int) == find_blank_line(body@, start as int),
            decreases body.len() - end,
        {
            end += 1;
        }
        let piece = slice_chars(body, start, end);
        proof {
            assert(views(out@.push(piece)) == views(out@) + seq![piece@]);
        }
        out.push(piece);
        if end >= body.len() {
            return out;
        }
        start = end + 2;
    }
}

fn text_of_paragraph(paragraph: &Vec<char>) -> (text: Vec<char>)
    ensures
        text@ == paragraph_text(paragraph@),
{
    let all = chars_lines(paragraph);
    let mut kept: Vec<Vec<char>> = Vec::new();
    let mut i: usize = 0;
    assert(views(kept@) == unquoted(views(all@).take(0)));
    while i < all.len()
        invariant
            i <= all.len(),
            views(kept@) == unquoted(views(all@).take(i as int)),
        decreases all.len() - i,
    {
        proof {
            assert(views(all@).take(i + 1).drop_last() == views(all@).take(i as int));
            assert(views(all@).take(i + 1).last() == all@[i as int]@);
        }
        let trimmed = chars_trim(&all[i]);
        if !line_is_quoted(&trimmed) {
            let mut line: Vec<char> = Vec::new();
            append_chars(&mut line, &all[i]);
            assert(line@ == all@[i as int]@);
            assert(views(kept@.push(line)) == views(kept@).push(line@));
            kept.push(line);
        }
        i += 1;
    }
    assert(views(all@).take(all.len() as int) == views(all@));
    let joined = chars_join_lines(&kept);
    chars_trim(&joined)
}

fn first_paragraph(body: &Vec<char>) -> (text: Vec<char>)
    ensures
        text@ == first_text_from(paragraphs_from(body@, 0), 0),
{
    let paragraphs = split_paragraphs(body);
    let mut i: usize = 0;
    while i < paragraphs.len()
        invariant
            i <= paragraphs.len(),
            views(paragraphs@) == paragraphs_from(body@, 0),
            first_text_from(paragraphs_from(body@, 0), i as int) == first_text_from(
                paragraphs_from(body@, 0),
                0,
            ),
        decreases paragraphs.len() - i,
    {
        assert(views(paragraphs@)[i as int] == paragraphs@[i as int]@);
        let text = text_of_paragraph(&paragraphs[i]);
        if text.len() > 0 {
            return text;
        }
        i += 1;
    }
    Vec::new()
}

/// The text of the reply in a message body.
///
/// Carriage returns are dropped. The lines are then read in order, each
/// trimmed: quoted lines are left out, empty lines are kept once text was
/// kept, and the reading ends at the line that introduces the quoted
/// message, at a marker of the original message, or at a quoted header
/// after kept text. The kept lines, joined and trimmed, are the reply.
/// Where that leaves nothing, the reply is the first paragraph that has
/// text outside quoted lines.
pub fn extract_reply_text(input: &str) -> (reply: String)
    ensures
        reply@ == reply_text(input@),
{
    let chars = to_chars(input);
    let body = chars_without(&chars, '\r');
    let direct = scan_lines(&body);
    if direct.len() > 0 {
        from_chars(&direct)
    } else {
        from_chars(&first_paragraph(&body))
    }
}

} // verus!
