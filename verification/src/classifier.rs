//! What is done with an incoming message once it is parsed.

use vstd::prelude::*;
use crate::domain::{clone_optional, string_or_empty, text_or_empty, UpdateEmailRecipient};
use crate::parser::ParsedEmail;
use crate::text::{chars_eq_ignoring_ascii_case, eq_ignoring_ascii_case, to_chars};

verus! {

/// The notice published when a recipient replied.
#[derive(Debug)]
pub struct ZMQReplyMessage {
    pub hub_id: i32,
    pub email: String,
    pub message: String,
    pub subject: Option<String>,
}

/// The notice published when an address unsubscribed or bounced.
#[derive(Debug)]
pub struct ZMQUnsubscribeMessage {
    pub hub_id: i32,
    pub email: String,
    pub reason: Option<String>,
}

/// What the monitor does with one message.
#[derive(Debug)]
pub enum Disposition {
    /// Store the unsubscribe of `request.email` in `request.hub_id` with
    /// `request.reason`, then publish the request.
    Unsubscribe { request: ZMQUnsubscribeMessage },
    /// Look `recipient_id` up among the recipients of the hub. Where it
    /// names one, apply `update` to it. What is published then, if anything,
    /// says [`reply_notice`]. Without a recipient nothing is done.
    Reply { recipient_id: Option<i32>, update: UpdateEmailRecipient },
}

/// The subject asks for no more mail.
pub open spec fn is_unsubscribe_subject(subject: Seq<char>) -> bool {
    eq_ignoring_ascii_case(subject, "unsubscribe"@)
}

/// The subject is that of a delivery-status notification.
pub open spec fn is_bounce_subject(subject: Seq<char>) -> bool {
    eq_ignoring_ascii_case(subject, "Undelivered Mail Returned to Sender"@)
}

/// The address to unsubscribe, if the message asks for that: the sender of
/// a message with the unsubscribe subject, or else the address that a
/// delivery-status notification reports.
pub open spec fn unsubscribed_address(parsed: ParsedEmail) -> Option<String> {
    match parsed.subject {
        Some(subject) => if is_unsubscribe_subject(subject@) {
            parsed.sender_email
        } else if is_bounce_subject(subject@) {
            parsed.bounce_recipient
        } else {
            None
        },
        None => None,
    }
}

/// `d` is what is done with `parsed` in hub `hub_id`.
pub open spec fn disposes(parsed: ParsedEmail, hub_id: i32, d: Disposition) -> bool {
    match unsubscribed_address(parsed) {
        Some(address) => d matches Disposition::Unsubscribe { request } && request.hub_id
            == hub_id && request.email == address && request.reason == parsed.subject,
        None => d matches Disposition::Reply { recipient_id, update } && recipient_id
            == parsed.recipient_id && update == (UpdateEmailRecipient {
            is_sent: Some(true),
            opened: Some(true),
            replied: Some(true),
            reply: parsed.reply,
        }),
    }
}

/// `notice` is what is published for the reply `parsed` in hub `hub_id`:
/// where the message answers a recipient of the hub and names a sender, the
/// reply under the sender's address; else nothing.
pub open spec fn is_reply_notice(
    parsed: ParsedEmail,
    hub_id: i32,
    recipient_found: bool,
    notice: Option<ZMQReplyMessage>,
) -> bool {
    match parsed.sender_email {
        Some(sender) => if recipient_found {
            notice matches Some(n) && n.hub_id == hub_id && n.email == sender && n.message@
                == text_or_empty(parsed.reply) && n.subject == parsed.subject
        } else {
            notice is None
        },
        None => notice is None,
    }
}

fn subject_is(subject: &String, expected: &str) -> (b: bool)
    ensures
        b == eq_ignoring_ascii_case(subject@, expected@),
{
    let subject = to_chars(subject.as_str());
    let expected = to_chars(expected);
    chars_eq_ignoring_ascii_case(&subject, &expected)
}

fn address_to_unsubscribe(parsed: &ParsedEmail) -> (address: Option<String>)
    ensures
        address == unsubscribed_address(*parsed),
{
    match &parsed.subject {
        Some(subject) => if subject_is(subject, "unsubscribe") {
            clone_optional(&parsed.sender_email)
        } else if subject_is(subject, "Undelivered Mail Returned to Sender") {
            clone_optional(&parsed.bounce_recipient)
        } else {
            None
        },
        None => None,
    }
}

/// Decides what is done with a parsed message of hub `hub_id`.
///
/// A message with the unsubscribe subject unsubscribes its sender, and a
/// delivery-status notification the address it reports. Every other
/// message, and one of these two without such an address, is a reply: the
/// recipient that it answers, if it answers one, is marked as sent, opened
/// and replied.
pub fn classify(parsed: &ParsedEmail, hub_id: i32) -> (d: Disposition)
    ensures
        disposes(*parsed, hub_id, d),
{
    match address_to_unsubscribe(parsed) {
        Some(email) => Disposition::Unsubscribe {
            request: ZMQUnsubscribeMessage {
                hub_id,
                email,
                reason: clone_optional(&parsed.subject),
            },
        },
        None => Disposition::Reply {
            recipient_id: parsed.recipient_id,
            update: UpdateEmailRecipient::replied(clone_optional(&parsed.reply)),
        },
    }
}

/// The notice to publish for a reply, once its recipient was looked up.
///
/// `recipient_found` says whether the message names a recipient and the
/// hub has it. Only then, and only where the message names a sender, the
/// reply is published: under the sender's address, with the text of the
/// reply, or none, and the subject.
pub fn reply_notice(parsed: &ParsedEmail, hub_id: i32, recipient_found: bool) -> (notice: Option<
    ZMQReplyMessage,
>)
    ensures
        is_reply_notice(*parsed, hub_id, recipient_found, notice),
        notice is Some <==> recipient_found && parsed.sender_email is Some,
{
    if !recipient_found {
        return None;
    }
    match &parsed.sender_email {
        Some(sender) => Some(
            ZMQReplyMessage {
                hub_id,
                email: sender.clone(),
                message: string_or_empty(&parsed.reply),
                subject: clone_optional(&parsed.subject),
            },
        ),
        None => None,
    }
}

} // verus!
