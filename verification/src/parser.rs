//! Reads an incoming RFC 822 message: who sent it, which recipient it
//! answers, the text of the reply, and the address that a bounce reports.

use vstd::prelude::*;
use crate::bounce::{
    extract_bounce_from_status,
    extract_bounce_from_text,
    status_recipient_from,
    text_recipient_from,
};
use crate::decimal::{parse_i32, parse_i32_spec};
use crate::domain::{clone_optional, optional_text};
use crate::errors::Error;
use crate::reply::{extract_reply_text, reply_text};
use crate::text::{
    ascii_lowercase,
    chars_ascii_lowercase,
    chars_eq_ignoring_ascii_case,
    chars_equal,
    chars_replace,
    chars_split,
    chars_start_with,
    eq_ignoring_ascii_case,
    from_chars,
    lines,
    replace_char,
    split,
    starts_with,
    to_chars,
    views,
};

verus! {

/// The error of the `mailparse` crate.
#[verifier::external_type_specification]
#[verifier::external_body]
pub struct ExMailParseError(mailparse::MailParseError);

/// One entry of an address header.
#[derive(Debug)]
pub enum MailAddress {
    /// One mailbox.
    Single(String),
    /// A named group, with the mailboxes of its members.
    Group(Vec<String>),
}

/// One part of a MIME message. A message is the list of its parts in the
/// order of the document: each part is followed by the parts below it.
#[derive(Debug)]
pub struct MimePart {
    /// The media type, such as `text/plain`.
    pub mimetype: String,
    /// The value of the first `Content-Disposition` header.
    pub disposition: Option<String>,
    /// The body as text, with the transfer encoding undone and the
    /// character set decoded; absent where that fails.
    pub body: Option<String>,
    /// The number of parts directly below this one.
    pub children: usize,
}

/// One entry of an address header in mathematical terms.
pub enum MailAddressText {
    Single(Seq<char>),
    Group(Seq<Seq<char>>),
}

/// One part of a MIME message in mathematical terms.
pub struct MimePartText {
    pub mimetype: Seq<char>,
    pub disposition: Option<Seq<char>>,
    pub body: Option<Seq<char>>,
    pub children: nat,
}

impl View for MailAddress {
    type V = MailAddressText;

    open spec fn view(&self) -> MailAddressText {
        match *self {
            MailAddress::Single(address) => MailAddressText::Single(address@),
            MailAddress::Group(members) => MailAddressText::Group(
                Seq::new(members@.len(), |i: int| members@[i]@),
            ),
        }
    }
}

impl View for MimePart {
    type V = MimePartText;

    open spec fn view(&self) -> MimePartText {
        MimePartText {
            mimetype: self.mimetype@,
            disposition: optional_text(self.disposition),
            body: optional_text(self.body),
            children: self.children as nat,
        }
    }
}

/// The parts in mathematical terms.
pub open spec fn part_texts(parts: Seq<MimePart>) -> Seq<MimePartText> {
    Seq::new(parts.len(), |i: int| parts[i]@)
}

/// The addresses in mathematical terms.
pub open spec fn address_texts(list: Seq<MailAddress>) -> Seq<MailAddressText> {
    Seq::new(list.len(), |i: int| list[i]@)
}

/// The addresses of an optional list in mathematical terms.
pub open spec fn optional_addresses(list: Option<Vec<MailAddress>>) -> Option<Seq<MailAddressText>> {
    match list {
        Some(list) => Some(address_texts(list@)),
        None => None,
    }
}

/// The fields of an incoming message that decide what is done with it.
#[derive(Debug, PartialEq, Eq)]
pub struct ParsedEmail {
    /// The value of the first `Subject` header.
    pub subject: Option<String>,
    /// The first mailbox of `Sender`, or else of `From`.
    pub sender_email: Option<String>,
    /// The recipient that `In-Reply-To` names.
    pub recipient_id: Option<i32>,
    /// The text of the reply, without what it quotes.
    pub reply: Option<String>,
    /// The address that a delivery-status notification reports.
    pub bounce_recipient: Option<String>,
}

/// A parsed message in mathematical terms.
pub struct ParsedEmailText {
    pub subject: Option<Seq<char>>,
    pub sender_email: Option<Seq<char>>,
    pub recipient_id: Option<i32>,
    pub reply: Option<Seq<char>>,
    pub bounce_recipient: Option<Seq<char>>,
}

impl View for ParsedEmail {
    type V = ParsedEmailText;

    open spec fn view(&self) -> ParsedEmailText {
        ParsedEmailText {
            subject: optional_text(self.subject),
            sender_email: optional_text(self.sender_email),
            recipient_id: self.recipient_id,
            reply: optional_text(self.reply),
            bounce_recipient: optional_text(self.bounce_recipient),
        }
    }
}

impl Default for ParsedEmail {
    fn default() -> (parsed: ParsedEmail)
        ensures
            parsed == (ParsedEmail {
                subject: None,
                sender_email: None,
                recipient_id: None,
                reply: None,
                bounce_recipient: None,
            }),
    {
        ParsedEmail {
            subject: None,
            sender_email: None,
            recipient_id: None,
            reply: None,
            bounce_recipient: None,
        }
    }
}

/// The parts that `mailparse` reads out of `raw`, in the order of the
/// document, each with the value of its first header named
/// `disposition_header`. `None` when `raw` does not parse.
pub uninterp spec fn mime_parts_of(raw: Seq<u8>, disposition_header: Seq<char>) -> Option<
    Seq<MimePartText>,
>;

/// The value of the first header of `raw` named `name`, decoded and
/// unfolded as `mailparse` does. `None` when `raw` does not parse or has no
/// such header.
pub uninterp spec fn header_value_of(raw: Seq<u8>, name: Seq<char>) -> Option<Seq<char>>;

/// The addresses in the first header of `raw` named `name`, as `mailparse`
/// reads them. `None` when `raw` does not parse, has no such header, or the
/// header holds no list of addresses.
pub uninterp spec fn addresses_of(raw: Seq<u8>, name: Seq<char>) -> Option<
    Seq<MailAddressText>,
>;

/// The text that `html2text` renders `html` to, in lines of at most
/// `width` columns. `None` when it gives up.
pub uninterp spec fn rendered_html(html: Seq<char>, width: usize) -> Option<Seq<char>>;

/// `mailparse::parse_mail`, then `ParsedMail::parts`, which walks the parts
/// depth first, each part before those below it. Of each part the result
/// holds `ctype.mimetype`, what `get_first_value` gives for
/// `disposition_header`, what `get_body` gives where it is `Ok`, and the
/// length of `subparts`. The result depends on `raw` and
/// `disposition_header` alone.
#[verifier::external_body]
fn mime_parts(raw: &[u8], disposition_header: &str) -> (r: Result<
    Vec<MimePart>,
    mailparse::MailParseError,
>)
    ensures
        match r {
            Ok(parts) => mime_parts_of(raw@, disposition_header@) == Some(part_texts(parts@)),
            Err(_) => mime_parts_of(raw@, disposition_header@) is None,
        },
{
    let mail = mailparse::parse_mail(raw)?;
    Ok(mail.parts().map(|part| MimePart {
        mimetype: part.ctype.mimetype.clone(),
        disposition: mailparse::MailHeaderMap::get_first_value(
            part.headers.as_slice(),
            disposition_header,
        ),
        body: part.get_body().ok(),
        children: part.subparts.len(),
    }).collect())
}

/// `mailparse::parse_mail`, then `MailHeaderMap::get_first_value` on the
/// headers of the message. The result depends on `raw` and `name` alone.
#[verifier::external_body]
fn header_value(raw: &[u8], name: &str) -> (r: Option<String>)
    ensures
        optional_text(r) == header_value_of(raw@, name@),
{
    let mail = mailparse::parse_mail(raw).ok()?;
    mailparse::MailHeaderMap::get_first_value(mail.headers.as_slice(), name)
}

/// `mailparse::parse_mail`, then `MailHeaderMap::get_first_header` and
/// `mailparse::addrparse_header`, with the mailbox of each address. The
/// result depends on `raw` and `name` alone.
#[verifier::external_body]
fn header_addresses(raw: &[u8], name: &str) -> (r: Option<Vec<MailAddress>>)
    ensures
        match r {
            Some(list) => addresses_of(raw@, name@) == Some(address_texts(list@)),
            None => addresses_of(raw@, name@) is None,
        },
{
    let mail = mailparse::parse_mail(raw).ok()?;
    let header = mailparse::MailHeaderMap::get_first_header(mail.headers.as_slice(), name)?;
    let list = mailparse::addrparse_header(header).ok()?;
    Some(list.iter().map(|address| match address {
        mailparse::MailAddr::Single(single) => MailAddress::Single(single.addr.clone()),
        mailparse::MailAddr::Group(group) => MailAddress::Group(
            group.addrs.iter().map(|member| member.addr.clone()).collect(),
        ),
    }).collect())
}

/// The words of a `MailParseError`, as its `Display` gives them.
#[verifier::external_body]
fn parse_error_text(error: &mailparse::MailParseError) -> String {
    format!("{}", error)
}

/// `html2text::from_read` on the bytes of `html`. The result depends on
/// `html` and `width` alone.
#[verifier::external_body]
fn render_html(html: &str, width: usize) -> (r: Option<String>)
    ensures
        optional_text(r) == rendered_html(html@, width),
{
    html2text::from_read(html.as_bytes(), width).ok()
}

/// The text of an HTML document: what `html2text` renders in lines of any
/// length, or the document itself where that fails, with each no-break
/// space replaced by a space.
pub open spec fn html_text(html: Seq<char>) -> Seq<char> {
    replace_char(
        match rendered_html(html, usize::MAX) {
            Some(text) => text,
            None => html,
        },
        '\u{a0}',
        ' ',
    )
}

/// The part is an attachment: its disposition begins with `attachment`,
/// in any letter case.
pub open spec fn is_attachment_spec(part: MimePartText) -> bool {
    part.disposition matches Some(d) && starts_with(ascii_lowercase(d), "attachment"@)
}

/// The body of the part, if it has no parts below it, is no attachment,
/// has the media type `mimetype`, and a body that could be decoded.
pub open spec fn leaf_body(part: MimePartText, mimetype: Seq<char>) -> Option<Seq<char>> {
    if part.children == 0 && !is_attachment_spec(part) && eq_ignoring_ascii_case(
        part.mimetype,
        mimetype,
    ) {
        part.body
    } else {
        None
    }
}

/// The body of the first part from index `i` on that has a [`leaf_body`].
pub open spec fn first_body_from(parts: Seq<MimePartText>, mimetype: Seq<char>, i: int) -> Option<
    Seq<char>,
>
    decreases parts.len() - i,
{
    if 0 <= i < parts.len() {
        match leaf_body(parts[i], mimetype) {
            Some(body) => Some(body),
            None => first_body_from(parts, mimetype, i + 1),
        }
    } else {
        None
    }
}

/// The reply in a message: the reply text of its first plain-text body,
/// or, where that is missing or empty, of its first HTML body.
pub open spec fn reply_of(parts: Seq<MimePartText>) -> Option<Seq<char>> {
    let plain = match first_body_from(parts, "text/plain"@, 0) {
        Some(body) => reply_text(body),
        None => Seq::empty(),
    };
    let html = match first_body_from(parts, "text/html"@, 0) {
        Some(body) => reply_text(html_text(body)),
        None => Seq::empty(),
    };
    if plain.len() > 0 {
        Some(plain)
    } else if html.len() > 0 {
        Some(html)
    } else {
        None
    }
}

/// The address that one part reports as bounced: that of its status
/// fields where it is a delivery status, and that of its text where it is
/// plain text or HTML.
pub open spec fn bounce_of_part(part: MimePartText) -> Option<Seq<char>> {
    let mimetype = ascii_lowercase(part.mimetype);
    match part.body {
        Some(body) => if mimetype == "message/delivery-status"@ {
            status_recipient_from(lines(body), 0)
        } else if mimetype == "text/plain"@ {
            text_recipient_from(lines(body), 0, None)
        } else if mimetype == "text/html"@ {
            text_recipient_from(lines(html_text(body)), 0, None)
        } else {
            None
        },
        None => None,
    }
}

/// Index of the part that is number `k` among those directly below part
/// `i`, counted from 0, or the number of parts where there is none.
pub open spec fn child_start(parts: Seq<MimePartText>, i: int, k: nat) -> int
    decreases parts.len() - i, 0nat, k,
{
    if k == 0 {
        i + 1
    } else {
        let previous = child_start(parts, i, (k - 1) as nat);
        if 0 <= i < previous < parts.len() {
            subtree_end(parts, previous)
        } else {
            parts.len() as int
        }
    }
}

/// Index of the first part after part `i` and all parts below it.
pub open spec fn subtree_end(parts: Seq<MimePartText>, i: int) -> int
    decreases parts.len() - i, 1nat, 0nat,
{
    if 0 <= i < parts.len() {
        child_start(parts, i, parts[i].children)
    } else {
        parts.len() as int
    }
}

/// The address that part `i` or a part below it reports as bounced: that
/// of the part itself, or else of the last of the parts directly below it
/// that reports one, each of them read in the same way.
pub open spec fn bounce_from(parts: Seq<MimePartText>, i: int) -> Option<Seq<char>>
    decreases parts.len() - i, 1nat, 0nat,
{
    if 0 <= i < parts.len() {
        match bounce_of_part(parts[i]) {
            Some(address) => Some(address),
            None => bounce_below(parts, i, parts[i].children),
        }
    } else {
        None
    }
}

/// [`bounce_from`] of the last of the first `k` parts directly below part
/// `i` that reports an address.
pub open spec fn bounce_below(parts: Seq<MimePartText>, i: int, k: nat) -> Option<Seq<char>>
    decreases parts.len() - i, 0nat, k,
{
    if k == 0 {
        None
    } else {
        let start = child_start(parts, i, (k - 1) as nat);
        let found = if 0 <= i < start < parts.len() {
            bounce_from(parts, start)
        } else {
            None
        };
        match found {
            Some(address) => Some(address),
            None => bounce_below(parts, i, (k - 1) as nat),
        }
    }
}

/// The address that a message reports as bounced.
pub open spec fn bounce_of(parts: Seq<MimePartText>) -> Option<Seq<char>> {
    bounce_from(parts, 0)
}

/// The parts below a part follow it, and end within the message.
pub proof fn lemma_child_start(parts: Seq<MimePartText>, i: int, k: nat)
    requires
        0 <= i < parts.len(),
    ensures
        i < child_start(parts, i, k) <= parts.len(),
    decreases parts.len() - i, k,
{
    if k > 0 {
        lemma_child_start(parts, i, (k - 1) as nat);
        let previous = child_start(parts, i, (k - 1) as nat);
        if previous < parts.len() {
            lemma_child_start(parts, previous, parts[previous].children);
            assert(subtree_end(parts, previous) == child_start(
                parts,
                previous,
                parts[previous].children,
            ));
            assert(child_start(parts, i, k) == subtree_end(parts, previous));
        }
    }
}

/// Where the message ends, no further part stands below a part.
proof fn lemma_child_start_at_end(parts: Seq<MimePartText>, i: int, m: nat, k: nat)
    requires
        0 <= i < parts.len(),
        m <= k,
        child_start(parts, i, m) >= parts.len(),
    ensures
        child_start(parts, i, k) >= parts.len(),
        bounce_below(parts, i, k) == bounce_below(parts, i, m),
    decreases k,
{
    if k > m {
        lemma_child_start_at_end(parts, i, m, (k - 1) as nat);
        lemma_child_start(parts, i, k);
    }
}

/// The mailbox of the first address from index `i` on that has one: a
/// single mailbox, or the first member of a group.
pub open spec fn first_mailbox_from(list: Seq<MailAddressText>, i: int) -> Option<Seq<char>>
    decreases list.len() - i,
{
    if 0 <= i < list.len() {
        match list[i] {
            MailAddressText::Single(address) => Some(address),
            MailAddressText::Group(members) => if members.len() > 0 {
                Some(members[0])
            } else {
                first_mailbox_from(list, i + 1)
            },
        }
    } else {
        None
    }
}

/// The first mailbox of an address header, if the header is there.
pub open spec fn mailbox_of(list: Option<Seq<MailAddressText>>) -> Option<Seq<char>> {
    match list {
        Some(list) => first_mailbox_from(list, 0),
        None => None,
    }
}

/// The sender of a message: the first mailbox of `Sender`, or else of
/// `From`.
pub open spec fn sender_of(sender: Option<Seq<MailAddressText>>, from: Option<Seq<MailAddressText>>) -> Option<
    Seq<char>,
> {
    match mailbox_of(sender) {
        Some(address) => Some(address),
        None => mailbox_of(from),
    }
}

/// The recipient id in what follows one `<` of a message id list: the
/// text before `>` is cut at `@`; its second piece must be `domain`, and
/// its first a decimal number that is not negative.
pub open spec fn token_id(segment: Seq<char>, domain: Seq<char>) -> Option<i32> {
    let pieces = split(split(segment, '>')[0], '@');
    if pieces.len() >= 2 && pieces[1] == domain {
        match parse_i32_spec(pieces[0]) {
            Some(id) => if id >= 0 {
                Some(id)
            } else {
                None
            },
            None => None,
        }
    } else {
        None
    }
}

/// The recipient id of the first segment from index `i` on that holds one.
pub open spec fn recipient_id_from(segments: Seq<Seq<char>>, i: int, domain: Seq<char>) -> Option<
    i32,
>
    decreases segments.len() - i,
{
    if 0 <= i < segments.len() {
        match token_id(segments[i], domain) {
            Some(id) => Some(id),
            None => recipient_id_from(segments, i + 1, domain),
        }
    } else {
        None
    }
}

/// The recipient that an `In-Reply-To` value names: the id of the first
/// `<id@domain>` in it.
pub open spec fn recipient_id_in(header: Seq<char>, domain: Seq<char>) -> Option<i32> {
    recipient_id_from(split(header, '<'), 1, domain)
}

/// The recipient that a message answers, if its `In-Reply-To` names one.
pub open spec fn recipient_id_of(in_reply_to: Option<Seq<char>>, domain: Seq<char>) -> Option<i32> {
    match in_reply_to {
        Some(header) => recipient_id_in(header, domain),
        None => None,
    }
}

/// What is read out of the message `raw`, whose parts are `parts`.
pub open spec fn parsed_text(raw: Seq<u8>, parts: Seq<MimePartText>, domain: Seq<char>) -> ParsedEmailText {
    ParsedEmailText {
        subject: header_value_of(raw, "Subject"@),
        sender_email: sender_of(addresses_of(raw, "Sender"@), addresses_of(raw, "From"@)),
        recipient_id: recipient_id_of(header_value_of(raw, "In-Reply-To"@), domain),
        reply: reply_of(parts),
        bounce_recipient: bounce_of(parts),
    }
}

fn equals_ignoring_case(a: &str, b: &str) -> (r: bool)
    ensures
        r == eq_ignoring_ascii_case(a@, b@),
{
    let a = to_chars(a);
    let b = to_chars(b);
    chars_eq_ignoring_ascii_case(&a, &b)
}

fn lowercase_is(s: &str, expected: &str) -> (r: bool)
    ensures
        r == (ascii_lowercase(s@) == expected@),
{
    let lower = chars_ascii_lowercase(&to_chars(s));
    let expected = to_chars(expected);
    chars_equal(&lower, &expected)
}

/// Removes the markup from an HTML document and returns its text, with
/// each no-break space replaced by a space.
pub fn strip_html_tags(input: &str) -> (text: String)
    ensures
        text@ == html_text(input@),
{
    let plain = match render_html(input, usize::MAX) {
        Some(text) => to_chars(text.as_str()),
        None => to_chars(input),
    };
    from_chars(&chars_replace(&plain, '\u{a0}', ' '))
}

/// Whether the part is an attachment.
pub fn is_attachment(part: &MimePart) -> (r: bool)
    ensures
        r == is_attachment_spec(part@),
{
    match &part.disposition {
        Some(d) => {
            let lower = chars_ascii_lowercase(&to_chars(d.as_str()));
            let prefix = to_chars("attachment");
            chars_start_with(&lower, &prefix)
        },
        None => false,
    }
}

/// The first body of the media type `mimetype` among the parts of a
/// message: that of the first part that has no parts below it, is no
/// attachment, has that type, and a body that could be decoded.
pub fn find_first_body(parts: &Vec<MimePart>, mimetype: &str) -> (body: Option<String>)
    ensures
        optional_text(body) == first_body_from(part_texts(parts@), mimetype@, 0),
{
    let mut i: usize = 0;
    while i < parts.len()
        invariant
            i <= parts.len(),
            first_body_from(part_texts(parts@), mimetype@, i as int) == first_body_from(part_texts(parts@), mimetype@, 0),
        decreases parts.len() - i,
    {
        let part = &parts[i];
        if part.children == 0 && !is_attachment(part) && equals_ignoring_case(
            part.mimetype.as_str(),
            mimetype,
        ) && part.body.is_some() {
            return clone_optional(&part.body);
        }
        i += 1;
    }
    None
}

/// The reply that a message holds.
pub fn find_reply(parts: &Vec<MimePart>) -> (reply: Option<String>)
    ensures
        optional_text(reply) == reply_of(part_texts(parts@)),
{
    if let Some(body) = find_first_body(parts, "text/plain") {
        let cleaned = extract_reply_text(body.as_str());
        if cleaned.as_str().unicode_len() > 0 {
            return Some(cleaned);
        }
    }
    if let Some(body) = find_first_body(parts, "text/html") {
        let text = strip_html_tags(body.as_str());
        let cleaned = extract_reply_text(text.as_str());
        if cleaned.as_str().unicode_len() > 0 {
            return Some(cleaned);
        }
    }
    None
}

/// The address that one part reports as bounced.
pub fn bounce_from_part(part: &MimePart) -> (address: Option<String>)
    ensures
        optional_text(address) == bounce_of_part(part@),
{
    match &part.body {
        Some(body) => {
            let mimetype = part.mimetype.as_str();
            if lowercase_is(mimetype, "message/delivery-status") {
                extract_bounce_from_status(body.as_str())
            } else if lowercase_is(mimetype, "text/plain") {
                extract_bounce_from_text(body.as_str())
            } else if lowercase_is(mimetype, "text/html") {
                let text = strip_html_tags(body.as_str());
                extract_bounce_from_text(text.as_str())
            } else {
                None
            }
        },
        None => None,
    }
}

/// Index of the first part after part `i` and all parts below it.
fn end_of_subtree(parts: &Vec<MimePart>, i: usize) -> (end: usize)
    requires
        i < parts.len(),
    ensures
        end == subtree_end(part_texts(parts@), i as int),
        i < end <= parts.len(),
    decreases parts.len() - i,
{
    let children = parts[i].children;
    let mut at: usize = i + 1;
    let mut k: usize = 0;
    while k < children && at < parts.len()
        invariant
            i < at <= parts.len(),
            i < parts.len(),
            k <= children,
            children == parts@[i as int].children,
            part_texts(parts@)[i as int] == parts@[i as int]@,
            at == child_start(part_texts(parts@), i as int, k as nat),
        decreases parts.len() - at,
    {
        at = end_of_subtree(parts, at);
        k += 1;
    }
    proof {
        if at >= parts.len() {
            lemma_child_start_at_end(part_texts(parts@), i as int, k as nat, children as nat);
        }
        lemma_child_start(part_texts(parts@), i as int, children as nat);
    }
    at
}

/// The address that part `i` or a part below it reports as bounced.
fn bounce_at(parts: &Vec<MimePart>, i: usize) -> (address: Option<String>)
    requires
        i < parts.len(),
    ensures
        optional_text(address) == bounce_from(part_texts(parts@), i as int),
    decreases parts.len() - i,
{
    let own = bounce_from_part(&parts[i]);
    if own.is_some() {
        return own;
    }
    let children = parts[i].children;
    let mut starts: Vec<usize> = Vec::new();
    let mut at: usize = i + 1;
    while starts.len() < children && at < parts.len()
        invariant
            i < at <= parts.len(),
            i < parts.len(),
            starts@.len() <= children,
            children == parts@[i as int].children,
            part_texts(parts@)[i as int] == parts@[i as int]@,
            at == child_start(part_texts(parts@), i as int, starts@.len()),
            forall|k: int|
                0 <= k < starts@.len() ==> #[trigger] starts@[k] == child_start(
                    part_texts(parts@),
                    i as int,
                    k as nat,
                ) && i < starts@[k] < parts.len(),
        decreases parts.len() - at,
    {
        starts.push(at);
        at = end_of_subtree(parts, at);
    }
    proof {
        if at >= parts.len() {
            lemma_child_start_at_end(part_texts(parts@), i as int, starts@.len(), children as nat);
        }
    }
    let mut n: usize = starts.len();
    while n > 0
        invariant
            n <= starts@.len(),
            i < parts.len(),
            bounce_of_part(parts@[i as int]@) is None,
            bounce_below(part_texts(parts@), i as int, n as nat) == bounce_from(part_texts(parts@), i as int),
            forall|k: int|
                0 <= k < starts@.len() ==> #[trigger] starts@[k] == child_start(
                    part_texts(parts@),
                    i as int,
                    k as nat,
                ) && i < starts@[k] < parts.len(),
        decreases n,
    {
        let found = bounce_at(parts, starts[n - 1]);
        if found.is_some() {
            return found;
        }
        n -= 1;
    }
    None
}

/// The address that a message reports as bounced: that of the first part
/// that reports one, the parts read from the root down and, below each
/// part, from the last to the first.
pub fn find_bounce_recipient(parts: &Vec<MimePart>) -> (address: Option<String>)
    ensures
        optional_text(address) == bounce_of(part_texts(parts@)),
{
    if parts.len() == 0 {
        None
    } else {
        bounce_at(parts, 0)
    }
}

/// The first mailbox of a list of addresses.
pub fn first_mailbox(list: &Vec<MailAddress>) -> (address: Option<String>)
    ensures
        optional_text(address) == first_mailbox_from(address_texts(list@), 0),
{
    let mut i: usize = 0;
    while i < list.len()
        invariant
            i <= list.len(),
            first_mailbox_from(address_texts(list@), i as int) == first_mailbox_from(
                address_texts(list@),
                0,
            ),
        decreases list.len() - i,
    {
        match &list[i] {
            MailAddress::Single(address) => {
                return Some(address.clone());
            },
            MailAddress::Group(members) => {
                if members.len() > 0 {
                    return Some(members[0].clone());
                }
            },
        }
        i += 1;
    }
    None
}

fn mailbox(list: &Option<Vec<MailAddress>>) -> (address: Option<String>)
    ensures
        optional_text(address) == mailbox_of(optional_addresses(*list)),
{
    match list {
        Some(list) => first_mailbox(list),
        None => None,
    }
}

/// The sender of a message, from the addresses of its `Sender` and `From`
/// headers.
pub fn extract_sender_email(
    sender: &Option<Vec<MailAddress>>,
    from: &Option<Vec<MailAddress>>,
) -> (address: Option<String>)
    ensures
        optional_text(address) == sender_of(optional_addresses(*sender), optional_addresses(*from)),
{
    let first = mailbox(sender);
    if first.is_some() {
        first
    } else {
        mailbox(from)
    }
}

fn id_of_token(segment: &Vec<char>, domain: &Vec<char>) -> (id: Option<i32>)
    ensures
        id == token_id(segment@, domain@),
{
    let candidates = chars_split(segment, '>');
    assert(views(candidates@)[0] == candidates@[0]@);
    let pieces = chars_split(&candidates[0], '@');
    if pieces.len() >= 2 {
        assert(views(pieces@)[0] == pieces@[0]@);
        assert(views(pieces@)[1] == pieces@[1]@);
        if chars_equal(&pieces[1], domain) {
            match parse_i32(&pieces[0]) {
                Some(id) => if id >= 0 {
                    Some(id)
                } else {
                    None
                },
                None => None,
            }
        } else {
            None
        }
    } else {
        None
    }
}

/// The recipient that an `In-Reply-To` value names under `domain`.
pub fn extract_recipient_id(in_reply_to: &Option<String>, domain: &str) -> (id: Option<i32>)
    ensures
        id == recipient_id_of(optional_text(*in_reply_to), domain@),
{
    let header = match in_reply_to {
        Some(header) => to_chars(header.as_str()),
        None => {
            return None;
        },
    };
    let domain_chars = to_chars(domain);
    let segments = chars_split(&header, '<');
    let mut i: usize = 1;
    while i < segments.len()
        invariant
            1 <= i,
            optional_text(*in_reply_to) == Some(header@),
            domain_chars@ == domain@,
            views(segments@) == split(header@, '<'),
            recipient_id_from(split(header@, '<'), i as int, domain@) == recipient_id_from(
                split(header@, '<'),
                1,
                domain@,
            ),
        decreases segments.len() - i,
    {
        assert(views(segments@)[i as int] == segments@[i as int]@);
        let id = id_of_token(&segments[i], &domain_chars);
        if id.is_some() {
            assert(recipient_id_from(split(header@, '<'), i as int, domain@) == id);
            return id;
        }
        i += 1;
    }
    None
}

/// Reads the message `raw` as `mailparse` parses it.
///
/// Fails exactly when the message does not parse. Otherwise the subject
/// is that of the first `Subject` header, the sender the first mailbox of
/// `Sender` or else `From`, the recipient the one that `In-Reply-To` names
/// under `domain`, and reply and bounced address are read from the parts.
pub fn parse_email(raw: &[u8], domain: &str) -> (r: Result<ParsedEmail, Error>)
    ensures
        match mime_parts_of(raw@, "Content-Disposition"@) {
            Some(parts) => r matches Ok(parsed) && parsed@ == parsed_text(raw@, parts, domain@),
            None => r matches Err(e) && e is Parse,
        },
{
    let parts = match mime_parts(raw, "Content-Disposition") {
        Ok(parts) => parts,
        Err(e) => {
            return Err(Error::Parse(parse_error_text(&e)));
        },
    };
    let subject = header_value(raw, "Subject");
    let sender = header_addresses(raw, "Sender");
    let from = header_addresses(raw, "From");
    let in_reply_to = header_value(raw, "In-Reply-To");
    Ok(
        ParsedEmail {
            subject,
            sender_email: extract_sender_email(&sender, &from),
            recipient_id: extract_recipient_id(&in_reply_to, domain),
            reply: find_reply(&parts),
            bounce_recipient: find_bounce_recipient(&parts),
        },
    )
}

} // verus!
