//! Renders one outbound message for one recipient.

use vstd::prelude::*;
use crate::decimal::{i64_to_chars, signed_decimal};
use crate::domain::{
    string_or_empty,
    text_or_empty,
    unsubscribe_url_spec,
    Email,
    EmailRecipient,
    Hub,
    TemplateField,
};
use crate::template::{field_texts, fill_template, filled};
use crate::text::{append_chars, chars_contain, contains, from_chars, to_chars};

verus! {

/// The message builder of the `mail-builder` crate.
#[verifier::external_type_specification]
#[verifier::external_body]
pub struct ExMessageBuilder<'x>(mail_send::mail_builder::MessageBuilder<'x>);

/// A file sent along with a message.
#[derive(Debug)]
pub struct Attachment {
    pub mime: String,
    pub name: String,
    pub content: Vec<u8>,
}

/// A message for one recipient, addressed and rendered.
#[derive(Debug)]
pub struct OutboundMessage {
    /// The display name of the sender.
    pub from_name: String,
    /// The mailbox of the sender.
    pub from_address: String,
    pub to_address: String,
    pub subject: String,
    /// The rendered body, sent both as plain text and as HTML.
    pub body: String,
    /// The message id, without angle brackets: the recipient's id at the
    /// domain.
    pub message_id: String,
    /// The link of the `List-Unsubscribe` header.
    pub list_unsubscribe: String,
    pub attachment: Option<Attachment>,
}

/// The hub's template, or the bare message where it has none; a template
/// that names no message gets one at its end, after an empty line.
pub open spec fn outer_template(template: Option<String>) -> Seq<char> {
    let base = match template {
        Some(t) => t@,
        None => "{message}"@,
    };
    if contains(base, "{message}"@) {
        base
    } else {
        base + "\n\n{message}"@
    }
}

/// The fields that the hub's template is filled from.
pub open spec fn outer_fields(name: Seq<char>, unsubscribe_url: Seq<char>, message: Seq<char>) -> Seq<
    (Seq<char>, Seq<char>),
> {
    seq![("name"@, name), ("unsubscribe_url"@, unsubscribe_url), ("message"@, message)]
}

/// The image whose retrieval tells that recipient `id` opened the message.
pub open spec fn tracking_pixel(domain: Seq<char>, id: i32) -> Seq<char> {
    "<img height=\"1\" width=\"1\" border=\"0\" src=\"https://mail."@ + domain + "/track/"@
        + signed_decimal(id as int) + "\">"@
}

/// The id of the message to recipient `id`, by which a reply is told.
pub open spec fn message_id_spec(id: i32, domain: Seq<char>) -> Seq<char> {
    signed_decimal(id as int) + "@"@ + domain
}

/// The body of the message: the e-mail's text filled from the recipient's
/// fields, put into the hub's template, and the tracking pixel after it.
pub open spec fn body_spec(hub: Hub, email: Email, recipient: EmailRecipient, domain: Seq<char>) -> Seq<
    char,
> {
    let message = filled(email.message@, field_texts(recipient.fields@));
    filled(
        outer_template(hub.email_template),
        outer_fields(recipient.name@, unsubscribe_url_spec(hub.login), message),
    ) + tracking_pixel(domain, recipient.id)
}

/// The e-mail carries an attachment: type, name and content are there, and
/// neither name nor content is empty.
pub open spec fn has_attachment(email: Email) -> bool {
    &&& email.attachment_mime is Some
    &&& email.attachment_name matches Some(name) && name@.len() > 0
    &&& email.attachment matches Some(content) && content@.len() > 0
}

/// The bytes of the e-mail's attachment.
pub open spec fn content_of(email: Email) -> Option<Seq<u8>> {
    match email.attachment {
        Some(content) => Some(content@),
        None => None,
    }
}

/// `m` is the message of `email` to `recipient`, sent by `hub`.
pub open spec fn is_message_for(
    m: OutboundMessage,
    hub: Hub,
    email: Email,
    recipient: EmailRecipient,
    domain: Seq<char>,
) -> bool {
    &&& m.from_name@ == text_or_empty(hub.sender)
    &&& m.from_address@ == text_or_empty(hub.login)
    &&& m.to_address == recipient.address
    &&& m.subject@ == text_or_empty(email.subject)
    &&& m.body@ == body_spec(hub, email, recipient, domain)
    &&& m.message_id@ == message_id_spec(recipient.id, domain)
    &&& m.list_unsubscribe@ == unsubscribe_url_spec(hub.login)
    &&& m.attachment is Some <==> has_attachment(email)
    &&& m.attachment matches Some(a) ==> Some(a.mime) == email.attachment_mime && Some(a.name)
        == email.attachment_name && Some(a.content@) == content_of(email)
}

fn field(key: &str, value: String) -> (f: TemplateField)
    ensures
        f.key@ == key@,
        f.value == value,
{
    TemplateField { key: key.to_owned(), value }
}

fn copy_bytes(bytes: &Vec<u8>) -> (out: Vec<u8>)
    ensures
        out@ == bytes@,
{
    let mut out: Vec<u8> = Vec::new();
    let mut i: usize = 0;
    while i < bytes.len()
        invariant
            i <= bytes.len(),
            out@ == bytes@.take(i as int),
        decreases bytes.len() - i,
    {
        out.push(bytes[i]);
        i += 1;
    }
    assert(bytes@.take(bytes.len() as int) == bytes@);
    out
}

fn template_of(hub: &Hub) -> (template: String)
    ensures
        template@ == outer_template(hub.email_template),
{
    let mut base = match &hub.email_template {
        Some(t) => to_chars(t.as_str()),
        None => to_chars("{message}"),
    };
    let token = to_chars("{message}");
    if !chars_contain(&base, &token) {
        let tail = to_chars("\n\n{message}");
        append_chars(&mut base, &tail);
    }
    from_chars(&base)
}

fn attachment_of(email: &Email) -> (attachment: Option<Attachment>)
    ensures
        attachment is Some <==> has_attachment(*email),
        attachment matches Some(a) ==> Some(a.mime) == email.attachment_mime && Some(a.name)
            == email.attachment_name && Some(a.content@) == content_of(*email),
{
    match (&email.attachment_mime, &email.attachment_name, &email.attachment) {
        (Some(mime), Some(name), Some(content)) => {
            if name.as_str().unicode_len() > 0 && content.len() > 0 {
                Some(Attachment { mime: mime.clone(), name: name.clone(), content: copy_bytes(content) })
            } else {
                None
            }
        },
        _ => None,
    }
}

/// Builds the message of `email` to `recipient`: the rendered body with
/// the tracking pixel, the sender and the recipient, the message id by
/// which a reply is recognised, and the unsubscribe link.
#[must_use]
pub fn build_message(hub: &Hub, email: &Email, recipient: &EmailRecipient, domain: &str) -> (m:
    OutboundMessage)
    ensures
        is_message_for(m, *hub, *email, *recipient, domain@),
{
    let rendered = fill_template(email.message.as_str(), &recipient.fields);
    let template = template_of(hub);
    let unsubscribe_url = hub.unsubscribe_url();

    let mut fields: Vec<TemplateField> = Vec::new();
    fields.push(field("name", recipient.name.clone()));
    fields.push(field("unsubscribe_url", unsubscribe_url.clone()));
    fields.push(field("message", rendered));
    assert(field_texts(fields@) == outer_fields(
        recipient.name@,
        unsubscribe_url_spec(hub.login),
        filled(email.message@, field_texts(recipient.fields@)),
    ));

    let id = i64_to_chars(recipient.id as i64);
    let domain_chars = to_chars(domain);

    let mut body = to_chars(fill_template(template.as_str(), &fields).as_str());
    append_chars(&mut body, &to_chars("<img height=\"1\" width=\"1\" border=\"0\" src=\"https://mail."));
    append_chars(&mut body, &domain_chars);
    append_chars(&mut body, &to_chars("/track/"));
    append_chars(&mut body, &id);
    append_chars(&mut body, &to_chars("\">"));
    assert(body@ == body_spec(*hub, *email, *recipient, domain@));

    let mut message_id = i64_to_chars(recipient.id as i64);
    append_chars(&mut message_id, &to_chars("@"));
    append_chars(&mut message_id, &domain_chars);

    OutboundMessage {
        from_name: string_or_empty(&hub.sender),
        from_address: string_or_empty(&hub.login),
        to_address: recipient.address.clone(),
        subject: string_or_empty(&email.subject),
        body: from_chars(&body),
        message_id: from_chars(&message_id),
        list_unsubscribe: unsubscribe_url,
        attachment: attachment_of(email),
    }
}

/// The headers that a builder holds, in the order in which they were
/// added, each with its name and the texts of its value: of an address its
/// display name and its mailbox, of a list of addresses those of each
/// address in turn, and of a text, a message id or a URL the text it holds.
pub uninterp spec fn builder_headers(builder: mail_send::mail_builder::MessageBuilder<'_>) -> Seq<
    (Seq<char>, Seq<Seq<char>>),
>;

/// The text bodies that a builder holds: the text of each, under its media
/// type.
pub uninterp spec fn builder_bodies(builder: mail_send::mail_builder::MessageBuilder<'_>) -> Map<
    Seq<char>,
    Seq<char>,
>;

/// The attachments that a builder holds, in the order in which they were
/// added, each with its media type, its file name and its bytes.
pub uninterp spec fn builder_attachments(
    builder: mail_send::mail_builder::MessageBuilder<'_>,
) -> Seq<(Seq<char>, Seq<char>, Seq<u8>)>;

/// The headers of a message: sender, recipient, subject, message id and
/// unsubscribe link. The recipient has no display name.
pub open spec fn message_headers(m: OutboundMessage) -> Seq<(Seq<char>, Seq<Seq<char>>)> {
    seq![
        ("From"@, seq![m.from_name@, m.from_address@]),
        ("To"@, seq![Seq::empty(), m.to_address@]),
        ("Subject"@, seq![m.subject@]),
        ("Message-ID"@, seq![m.message_id@]),
        ("List-Unsubscribe"@, seq![m.list_unsubscribe@]),
    ]
}

/// The bodies of a message: the rendered body as plain text and as HTML.
pub open spec fn message_bodies(m: OutboundMessage) -> Map<Seq<char>, Seq<char>> {
    Map::empty().insert("text/plain"@, m.body@).insert("text/html"@, m.body@)
}

/// An attachment as a builder holds it: media type, file name and bytes.
pub open spec fn attachment_entry(a: Attachment) -> (Seq<char>, Seq<char>, Seq<u8>) {
    (a.mime@, a.name@, a.content@)
}

/// The attachments of a message: its attachment, where it has one.
pub open spec fn message_attachments(m: OutboundMessage) -> Seq<(Seq<char>, Seq<char>, Seq<u8>)> {
    match m.attachment {
        Some(a) => seq![attachment_entry(a)],
        None => Seq::empty(),
    }
}

/// `extended` holds what `builder` holds and, after its headers, the header
/// `name` with the texts `texts`.
pub open spec fn adds_header(
    extended: mail_send::mail_builder::MessageBuilder<'_>,
    builder: mail_send::mail_builder::MessageBuilder<'_>,
    name: Seq<char>,
    texts: Seq<Seq<char>>,
) -> bool {
    &&& builder_headers(extended) == builder_headers(builder).push((name, texts))
    &&& builder_bodies(extended) == builder_bodies(builder)
    &&& builder_attachments(extended) == builder_attachments(builder)
}

/// `extended` holds what `builder` holds, but `text` as its body of the
/// media type `media_type`.
pub open spec fn sets_body(
    extended: mail_send::mail_builder::MessageBuilder<'_>,
    builder: mail_send::mail_builder::MessageBuilder<'_>,
    media_type: Seq<char>,
    text: Seq<char>,
) -> bool {
    &&& builder_headers(extended) == builder_headers(builder)
    &&& builder_bodies(extended) == builder_bodies(builder).insert(media_type, text)
    &&& builder_attachments(extended) == builder_attachments(builder)
}

/// No text bodies.
pub open spec fn no_bodies() -> Map<Seq<char>, Seq<char>> {
    Map::empty()
}

/// `MessageBuilder::new`: a builder that holds nothing.
#[verifier::external_body]
fn new_builder<'a>() -> (fresh: mail_send::mail_builder::MessageBuilder<'a>)
    ensures
        builder_headers(fresh) == Seq::<(Seq<char>, Seq<Seq<char>>)>::empty(),
        builder_bodies(fresh) == no_bodies(),
        builder_attachments(fresh) == Seq::<(Seq<char>, Seq<char>, Seq<u8>)>::empty(),
{
    mail_send::mail_builder::MessageBuilder::new()
}

/// `MessageBuilder::from` with a display name and a mailbox: one more
/// header, `From`, with the address.
#[verifier::external_body]
fn with_from<'a>(
    builder: mail_send::mail_builder::MessageBuilder<'a>,
    name: &'a str,
    address: &'a str,
) -> (extended: mail_send::mail_builder::MessageBuilder<'a>)
    ensures
        adds_header(extended, builder, "From"@, seq![name@, address@]),
{
    builder.from((name, address))
}

/// `MessageBuilder::to` with a list of one address, given by display name
/// and mailbox: one more header, `To`, with the address.
#[verifier::external_body]
fn with_to<'a>(
    builder: mail_send::mail_builder::MessageBuilder<'a>,
    name: &'a str,
    address: &'a str,
) -> (extended: mail_send::mail_builder::MessageBuilder<'a>)
    ensures
        adds_header(extended, builder, "To"@, seq![name@, address@]),
{
    builder.to(vec![(name, address)])
}

/// `MessageBuilder::subject`: one more header, `Subject`, with the text.
#[verifier::external_body]
fn with_subject<'a>(builder: mail_send::mail_builder::MessageBuilder<'a>, subject: &'a str) -> (extended:
    mail_send::mail_builder::MessageBuilder<'a>)
    ensures
        adds_header(extended, builder, "Subject"@, seq![subject@]),
{
    builder.subject(subject)
}

/// `MessageBuilder::message_id`: one more header, `Message-ID`, with the id.
#[verifier::external_body]
fn with_message_id<'a>(builder: mail_send::mail_builder::MessageBuilder<'a>, id: &'a str) -> (extended:
    mail_send::mail_builder::MessageBuilder<'a>)
    ensures
        adds_header(extended, builder, "Message-ID"@, seq![id@]),
{
    builder.message_id(id)
}

/// `MessageBuilder::header` with a value made by `URL::new`: one more
/// header, named `name`, with the URL.
#[verifier::external_body]
fn with_url_header<'a>(
    builder: mail_send::mail_builder::MessageBuilder<'a>,
    name: &'a str,
    url: &'a str,
) -> (extended: mail_send::mail_builder::MessageBuilder<'a>)
    ensures
        adds_header(extended, builder, name@, seq![url@]),
{
    builder.header(name, mail_send::mail_builder::headers::url::URL::new(url))
}

/// `MessageBuilder::html_body`: the text is the body of the media type
/// `text/html`.
#[verifier::external_body]
fn with_html_body<'a>(builder: mail_send::mail_builder::MessageBuilder<'a>, text: &'a str) -> (extended:
    mail_send::mail_builder::MessageBuilder<'a>)
    ensures
        sets_body(extended, builder, "text/html"@, text@),
{
    builder.html_body(text)
}

/// `MessageBuilder::text_body`: the text is the body of the media type
/// `text/plain`.
#[verifier::external_body]
fn with_text_body<'a>(builder: mail_send::mail_builder::MessageBuilder<'a>, text: &'a str) -> (extended:
    mail_send::mail_builder::MessageBuilder<'a>)
    ensures
        sets_body(extended, builder, "text/plain"@, text@),
{
    builder.text_body(text)
}

/// `MessageBuilder::attachment`: the builder with one more attachment after
/// those that are there, and with the headers and bodies that it had.
#[verifier::external_body]
fn attach<'a>(
    builder: mail_send::mail_builder::MessageBuilder<'a>,
    attachment: &'a Attachment,
) -> (extended: mail_send::mail_builder::MessageBuilder<'a>)
    ensures
        builder_headers(extended) == builder_headers(builder),
        builder_bodies(extended) == builder_bodies(builder),
        builder_attachments(extended) == builder_attachments(builder).push(
            attachment_entry(*attachment),
        ),
{
    builder.attachment(
        attachment.mime.as_str(),
        attachment.name.as_str(),
        attachment.content.as_slice(),
    )
}

impl OutboundMessage {
    /// The message as a builder of the `mail-builder` crate, ready to be
    /// written out or handed to an SMTP client: it holds the message's
    /// headers, its body as plain text and as HTML, and its attachment
    /// where it has one.
    pub fn to_builder<'a>(&'a self) -> (builder: mail_send::mail_builder::MessageBuilder<'a>)
        ensures
            builder_headers(builder) == message_headers(*self),
            builder_bodies(builder) == message_bodies(*self),
            builder_attachments(builder) == message_attachments(*self),
    {
        proof {
            reveal_strlit("");
            assert(""@ == Seq::<char>::empty());
            assert(no_bodies().insert("text/html"@, self.body@).insert("text/plain"@, self.body@)
                =~= message_bodies(*self));
        }
        let builder = new_builder();
        let builder = with_from(builder, self.from_name.as_str(), self.from_address.as_str());
        let builder = with_to(builder, "", self.to_address.as_str());
        let builder = with_subject(builder, self.subject.as_str());
        let builder = with_html_body(builder, self.body.as_str());
        let builder = with_text_body(builder, self.body.as_str());
        let builder = with_message_id(builder, self.message_id.as_str());
        let builder = with_url_header(
            builder,
            "List-Unsubscribe",
            self.list_unsubscribe.as_str(),
        );
        match &self.attachment {
            Some(attachment) => {
                let extended = attach(builder, attachment);
                assert(Seq::<(Seq<char>, Seq<char>, Seq<u8>)>::empty().push(
                    attachment_entry(*attachment),
                ) == seq![attachment_entry(*attachment)]);
                extended
            },
            None => builder,
        }
    }
}

} // verus!
