//! `{key}` substitution in message templates.

use vstd::prelude::*;
use crate::domain::TemplateField;
use crate::text::{append_chars, chars_equal, from_chars, to_chars};

verus! {

/// The first match of the regular expression `pattern` in `text`, as the
/// `regex` crate finds it, with its first capture group: what stands before
/// the match, the match, the group, and what stands after the match. `None`
/// when `pattern` is no regular expression, when nothing matches, or when
/// the group took no part in the match.
pub uninterp spec fn regex_first_capture(pattern: Seq<char>, text: Seq<char>) -> Option<
    (Seq<char>, Seq<char>, Seq<char>, Seq<char>),
>;

/// The characters of the four parts of a capture.
pub open spec fn capture_text(c: Option<(String, String, String, String)>) -> Option<
    (Seq<char>, Seq<char>, Seq<char>, Seq<char>),
> {
    match c {
        Some(c) => Some((c.0@, c.1@, c.2@, c.3@)),
        None => None,
    }
}

/// `Regex::new`, then `Regex::captures`, `Captures::get` for the groups 0
/// and 1, and the offsets of group 0. The result depends on `pattern` and
/// `text` alone. The match is a part of `text`: before, match and after,
/// put together, are `text` again.
#[verifier::external_body]
fn first_capture(pattern: &str, text: &str) -> (r: Option<(String, String, String, String)>)
    ensures
        capture_text(r) == regex_first_capture(pattern@, text@),
        r matches Some(c) ==> c.0@ + c.1@ + c.3@ == text@,
{
    let expression = regex::Regex::new(pattern).ok()?;
    let captures = expression.captures(text)?;
    let whole = captures.get(0)?;
    let group = captures.get(1)?;
    Some(
        (
            text[..whole.start()].to_string(),
            whole.as_str().to_string(),
            group.as_str().to_string(),
            text[whole.end()..].to_string(),
        ),
    )
}

/// A token: an opening brace, one or more letters, digits or underscores,
/// and a closing brace.
pub open spec fn placeholder_pattern() -> Seq<char> {
    "\\{([\\p{L}\\p{N}_]+?)\\}"@
}

/// The keys and values of the fields.
pub open spec fn field_texts(fields: Seq<TemplateField>) -> Seq<(Seq<char>, Seq<char>)> {
    Seq::new(fields.len(), |i: int| (fields[i].key@, fields[i].value@))
}

/// The value of the first field from index `i` on whose key is `key`.
pub open spec fn lookup_from(fields: Seq<(Seq<char>, Seq<char>)>, key: Seq<char>, i: int) -> Option<
    Seq<char>,
>
    decreases fields.len() - i,
{
    if 0 <= i < fields.len() {
        if fields[i].0 == key {
            Some(fields[i].1)
        } else {
            lookup_from(fields, key, i + 1)
        }
    } else {
        None
    }
}

/// No key occurs twice among the fields: they are a map from keys to
/// values, written down as a list.
pub open spec fn unique_keys(fields: Seq<(Seq<char>, Seq<char>)>) -> bool {
    forall|i: int, j: int|
        0 <= i < j < fields.len() ==> (#[trigger] fields[i]).0 != (#[trigger] fields[j]).0
}

/// Among fields of which no key occurs twice, a key has the value of the
/// one field that holds it, wherever that field stands.
pub proof fn lemma_lookup_unique(fields: Seq<(Seq<char>, Seq<char>)>, key: Seq<char>, at: int)
    requires
        unique_keys(fields),
        0 <= at < fields.len(),
        fields[at].0 == key,
    ensures
        lookup_from(fields, key, 0) == Some(fields[at].1),
{
    lemma_lookup_from(fields, key, at, 0);
}

proof fn lemma_lookup_from(fields: Seq<(Seq<char>, Seq<char>)>, key: Seq<char>, at: int, from: int)
    requires
        unique_keys(fields),
        0 <= from <= at < fields.len(),
        fields[at].0 == key,
    ensures
        lookup_from(fields, key, from) == Some(fields[at].1),
    decreases at - from,
{
    if from < at {
        assert(fields[from].0 != fields[at].0);
        lemma_lookup_from(fields, key, at, from + 1);
    }
}

/// What stands in place of the token `whole` with the key `key`: the value
/// of that key, or the token itself when no field has the key.
pub open spec fn replacement(
    fields: Seq<(Seq<char>, Seq<char>)>,
    key: Seq<char>,
    whole: Seq<char>,
) -> Seq<char> {
    match lookup_from(fields, key, 0) {
        Some(value) => value,
        None => whole,
    }
}

/// `template` with every token replaced, from left to right. A value that
/// was put in is not looked through again.
pub open spec fn filled(template: Seq<char>, fields: Seq<(Seq<char>, Seq<char>)>) -> Seq<char>
    decreases template.len(),
{
    match regex_first_capture(placeholder_pattern(), template) {
        Some((before, whole, key, after)) => if after.len() < template.len() {
            before + replacement(fields, key, whole) + filled(after, fields)
        } else {
            template
        },
        None => template,
    }
}

fn lookup(fields: &Vec<TemplateField>, key: &Vec<char>) -> (value: Option<Vec<char>>)
    ensures
        match value {
            Some(v) => lookup_from(field_texts(fields@), key@, 0) == Some(v@),
            None => lookup_from(field_texts(fields@), key@, 0) is None,
        },
{
    let mut i: usize = 0;
    while i < fields.len()
        invariant
            i <= fields.len(),
            lookup_from(field_texts(fields@), key@, i as int) == lookup_from(
                field_texts(fields@),
                key@,
                0,
            ),
        decreases fields.len() - i,
    {
        let candidate = to_chars(fields[i].key.as_str());
        if chars_equal(&candidate, key) {
            return Some(to_chars(fields[i].value.as_str()));
        }
        i += 1;
    }
    None
}

/// Whether no key occurs twice among the fields.
pub fn has_unique_keys(fields: &Vec<TemplateField>) -> (unique: bool)
    ensures
        unique == unique_keys(field_texts(fields@)),
{
    let mut j: usize = 0;
    while j < fields.len()
        invariant
            j <= fields.len(),
            forall|a: int, b: int|
                0 <= a < b < j ==> (#[trigger] field_texts(fields@)[a]).0 != (#[trigger] field_texts(
                    fields@,
                )[b]).0,
        decreases fields.len() - j,
    {
        let key = to_chars(fields[j].key.as_str());
        let mut i: usize = 0;
        while i < j
            invariant
                i <= j < fields.len(),
                key@ == field_texts(fields@)[j as int].0,
                forall|a: int|
                    0 <= a < i ==> (#[trigger] field_texts(fields@)[a]).0 != field_texts(
                        fields@,
                    )[j as int].0,
            decreases j - i,
        {
            let other = to_chars(fields[i].key.as_str());
            if chars_equal(&other, &key) {
                assert(field_texts(fields@)[i as int].0 == field_texts(fields@)[j as int].0);
                return false;
            }
            i += 1;
        }
        j += 1;
    }
    true
}

/// Replaces each `{key}` in `template` by the value of `key` among `fields`.
/// A token whose key no field has stays as it is. Of fields with one key
/// the first counts; see [`unique_keys`].
pub fn fill_template(template: &str, fields: &Vec<TemplateField>) -> (out: String)
    ensures
        out@ == filled(template@, field_texts(fields@)),
{
    let ghost texts = field_texts(fields@);
    let mut out: Vec<char> = Vec::new();
    let mut rest: String = template.to_owned();
    loop
        invariant
            texts == field_texts(fields@),
            out@ + filled(rest@, texts) == filled(template@, texts),
        decreases rest@.len(),
    {
        let remaining = to_chars(rest.as_str());
        match first_capture("\\{([\\p{L}\\p{N}_]+?)\\}", rest.as_str()) {
            Some((before, whole, key, after)) => {
                let after_chars = to_chars(after.as_str());
                if after_chars.len() < remaining.len() {
                    let before_chars = to_chars(before.as_str());
                    let whole_chars = to_chars(whole.as_str());
                    let key_chars = to_chars(key.as_str());
                    let value = match lookup(fields, &key_chars) {
                        Some(value) => value,
                        None => whole_chars,
                    };
                    proof {
                        assert(filled(rest@, texts) == before@ + replacement(texts, key@, whole@)
                            + filled(after@, texts));
                        assert(out@ + before@ + value@ + filled(after@, texts) == out@ + (before@
                            + value@ + filled(after@, texts)));
                    }
                    append_chars(&mut out, &before_chars);
                    append_chars(&mut out, &value);
                    rest = after;
                } else {
                    append_chars(&mut out, &remaining);
                    return from_chars(&out);
                }
            },
            None => {
                append_chars(&mut out, &remaining);
                return from_chars(&out);
            },
        }
    }
}

} // verus!
