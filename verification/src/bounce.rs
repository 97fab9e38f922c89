//! Finds the address that a delivery-status notification reports.

use vstd::prelude::*;
use crate::text::{
    ascii_lowercase,
    chars_ascii_lowercase,
    chars_contain,
    chars_find_char,
    chars_lines,
    chars_start_with,
    chars_trim,
    contains,
    find_char,
    from_chars,
    lines,
    slice_chars,
    starts_with,
    to_chars,
    trim,
    views,
};

verus! {

/// The first match of the regular expression `pattern` in `text`, as the
/// `regex` crate finds it: the leftmost one. `None` when `pattern` is no
/// regular expression or nothing matches.
pub uninterp spec fn regex_first_match(pattern: Seq<char>, text: Seq<char>) -> Option<Seq<char>>;

/// The characters of an optional string.
pub open spec fn match_text(m: Option<String>) -> Option<Seq<char>> {
    match m {
        Some(m) => Some(m@),
        None => None,
    }
}

/// `Regex::new`, then `Regex::find` and `Match::as_str`. The result depends
/// on `pattern` and `text` alone.
#[verifier::external_body]
fn first_match(pattern: &str, text: &str) -> (r: Option<String>)
    ensures
        match_text(r) == regex_first_match(pattern@, text@),
{
    let expression = regex::Regex::new(pattern).ok()?;
    expression.find(text).map(|found| found.as_str().to_string())
}

/// Something in the shape of a mailbox: a local part, `@`, a domain and a
/// top-level domain of two letters or more; letter case does not matter.
pub open spec fn email_pattern() -> Seq<char> {
    "(?i)[a-z0-9._%+-]+@[a-z0-9.-]+\\.[a-z]{2,}"@
}

/// The first thing in `text` in the shape of a mailbox.
pub open spec fn email_in(text: Seq<char>) -> Option<Seq<char>> {
    regex_first_match(email_pattern(), text)
}

/// The status line names a recipient. `lower` is the line in ASCII lower
/// case.
pub open spec fn names_recipient(lower: Seq<char>) -> bool {
    starts_with(lower, "final-recipient"@) || starts_with(lower, "original-recipient"@)
}

/// The part of a status field in which the mailbox stands: what follows
/// the first semicolon, trimmed, or the whole line where it has none.
pub open spec fn status_value(line: Seq<char>) -> Seq<char> {
    let at = find_char(line, ';', 0);
    if at < line.len() {
        trim(line.subrange(at + 1, line.len() as int))
    } else {
        line
    }
}

/// The address reported by the first status line from index `i` on that
/// names a recipient and holds a mailbox.
pub open spec fn status_recipient_from(lines: Seq<Seq<char>>, i: int) -> Option<Seq<char>>
    decreases lines.len() - i,
{
    if 0 <= i < lines.len() {
        let line = trim(lines[i]);
        if line.len() > 0 && names_recipient(ascii_lowercase(line)) && email_in(status_value(line))
            is Some {
            email_in(status_value(line))
        } else {
            status_recipient_from(lines, i + 1)
        }
    } else {
        None
    }
}

/// The line of a bounce message points at the failed recipient. `lower`
/// is the line in ASCII lower case.
pub open spec fn points_at_recipient(lower: Seq<char>) -> bool {
    ||| contains(lower, "final-recipient"@)
    ||| contains(lower, "original-recipient"@)
    ||| contains(lower, "for <"@)
    ||| contains(lower, "for "@)
    ||| contains(lower, "recipient:"@)
}

/// The line speaks of the mail system itself. `lower` is the line in ASCII
/// lower case.
pub open spec fn names_mailer_daemon(lower: Seq<char>) -> bool {
    contains(lower, "mailer-daemon"@)
}

/// The address that the text of a bounce message reports, read from line
/// `i` on: the mailbox of the first line that points at the recipient, or
/// else `fallback`, which is the mailbox of the first line that holds one
/// and does not speak of the mail system.
pub open spec fn text_recipient_from(
    lines: Seq<Seq<char>>,
    i: int,
    fallback: Option<Seq<char>>,
) -> Option<Seq<char>>
    decreases lines.len() - i,
{
    if 0 <= i < lines.len() {
        let line = trim(lines[i]);
        let lower = ascii_lowercase(line);
        if line.len() > 0 && email_in(line) is Some {
            if points_at_recipient(lower) {
                email_in(line)
            } else if fallback is None && !names_mailer_daemon(lower) {
                text_recipient_from(lines, i + 1, email_in(line))
            } else {
                text_recipient_from(lines, i + 1, fallback)
            }
        } else {
            text_recipient_from(lines, i + 1, fallback)
        }
    } else {
        fallback
    }
}

fn find_email(text: &Vec<char>) -> (r: Option<Vec<char>>)
    ensures
        match r {
            Some(m) => email_in(text@) == Some(m@),
            None => email_in(text@) is None,
        },
{
    let text = from_chars(text);
    match first_match("(?i)[a-z0-9._%+-]+@[a-z0-9.-]+\\.[a-z]{2,}", text.as_str()) {
        Some(found) => Some(to_chars(found.as_str())),
        None => None,
    }
}

fn has_prefix(s: &Vec<char>, prefix: &str) -> (b: bool)
    ensures
        b == starts_with(s@, prefix@),
{
    let prefix = to_chars(prefix);
    chars_start_with(s, &prefix)
}

fn has_part(s: &Vec<char>, needle: &str) -> (b: bool)
    ensures
        b == contains(s@, needle@),
{
    let needle = to_chars(needle);
    chars_contain(s, &needle)
}

fn value_of_status(line: &Vec<char>) -> (value: Vec<char>)
    ensures
        value@ == status_value(line@),
{
    let at = chars_find_char(line, ';', 0);
    if at < line.len() {
        let rest = slice_chars(line, at + 1, line.len());
        chars_trim(&rest)
    } else {
        slice_chars(line, 0, line.len())
    }
}

/// The first thing in `input` in the shape of a mailbox.
pub fn extract_email_address(input: &str) -> (address: Option<String>)
    ensures
        match_text(address) == email_in(input@),
{
    first_match("(?i)[a-z0-9._%+-]+@[a-z0-9.-]+\\.[a-z]{2,}", input)
}

/// The address that a `message/delivery-status` part reports: the mailbox
/// of the first `Final-Recipient` or `Original-Recipient` field that holds
/// one, taken from behind the field's semicolon where it has one.
pub fn extract_bounce_from_status(input: &str) -> (address: Option<String>)
    ensures
        match_text(address) == status_recipient_from(lines(input@), 0),
{
    let chars = to_chars(input);
    let all = chars_lines(&chars);
    let mut i: usize = 0;
    while i < all.len()
        invariant
            i <= all.len(),
            views(all@) == lines(input@),
            status_recipient_from(lines(input@), i as int) == status_recipient_from(
                lines(input@),
                0,
            ),
        decreases all.len() - i,
    {
        assert(views(all@)[i as int] == all@[i as int]@);
        let line = chars_trim(&all[i]);
        if line.len() > 0 {
            let lower = chars_ascii_lowercase(&line);
            if has_prefix(&lower, "final-recipient") || has_prefix(&lower, "original-recipient") {
                let value = value_of_status(&line);
                if let Some(found) = find_email(&value) {
                    return Some(from_chars(&found));
                }
            }
        }
        i += 1;
    }
    None
}

/// The address that the text of a bounce message reports: the mailbox of
/// the first line that points at the failed recipient, or else the mailbox
/// of the first line that holds one and does not speak of the mail system.
pub fn extract_bounce_from_text(input: &str) -> (address: Option<String>)
    ensures
        match_text(address) == text_recipient_from(lines(input@), 0, None),
{
    let chars = to_chars(input);
    let all = chars_lines(&chars);
    let mut fallback: Option<Vec<char>> = None;
    let mut i: usize = 0;
    while i < all.len()
        invariant
            i <= all.len(),
            views(all@) == lines(input@),
            text_recipient_from(
                lines(input@),
                i as int,
                match fallback {
                    Some(f) => Some(f@),
                    None => None,
                },
            ) == text_recipient_from(lines(input@), 0, None),
        decreases all.len() - i,
    {
        assert(views(all@)[i as int] == all@[i as int]@);
        let line = chars_trim(&all[i]);
        if line.len() > 0 {
            if let Some(found) = find_email(&line) {
                let lower = chars_ascii_lowercase(&line);
                if has_part(&lower, "final-recipient") || has_part(&lower, "original-recipient")
                    || has_part(&lower, "for <") || has_part(&lower, "for ") || has_part(
                    &lower,
                    "recipient:",
                ) {
                    return Some(from_chars(&found));
                }
                if fallback.is_none() && !has_part(&lower, "mailer-daemon") {
                    fallback = Some(found);
                }
            }
        }
        i += 1;
    }
    match fallback {
        Some(found) => Some(from_chars(&found)),
        None => None,
    }
}

} // verus!
