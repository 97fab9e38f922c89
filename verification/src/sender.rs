//! The decisions of the send worker: which e-mail a request means, which
//! recipients still get it, and as what a hub's mail is handed to SMTP.

use vstd::prelude::*;
use crate::domain::{
    EmailRecipient,
    EmailWithRecipients,
    Hub,
    NewEmail,
    SmtpSettings,
    UpdateEmailRecipient,
};
use crate::errors::Error;
use crate::message_builder::{build_message, is_message_for, OutboundMessage};

verus! {

/// A request to send, as it comes from the message bus.
#[derive(Debug)]
pub enum ZMQSendEmailMessage {
    /// Store this e-mail, then send it.
    NewEmail(NewEmail),
    /// Send what is still unsent of a stored e-mail.
    RetryEmail { email_id: i32, hub_id: i32 },
}

/// How the e-mail of a request is obtained.
#[derive(Debug)]
pub enum EmailSource {
    /// Read the stored e-mail `email_id` of hub `hub_id`.
    Load { email_id: i32, hub_id: i32 },
    /// Store this e-mail and take what was stored.
    Create(NewEmail),
}

/// One message to hand to SMTP.
#[derive(Debug)]
pub struct Delivery {
    /// The recipient's place among the e-mail's recipients.
    pub index: usize,
    /// The recipient to mark as sent once the message is accepted.
    pub recipient_id: i32,
    pub message: OutboundMessage,
}

/// Hands messages to a hub's SMTP server over implicit TLS.
#[derive(Clone, Copy, Debug)]
pub struct SmtpMailer;

/// Index of the first recipient at or after `from` that the e-mail was not
/// sent to, or the number of recipients when there is none.
pub open spec fn next_unsent(recipients: Seq<EmailRecipient>, from: int) -> int
    decreases recipients.len() - from,
{
    if 0 <= from < recipients.len() && recipients[from].is_sent {
        next_unsent(recipients, from + 1)
    } else {
        from
    }
}

/// [`next_unsent`] stops at or after `from`, and not beyond the end.
pub proof fn lemma_next_unsent(recipients: Seq<EmailRecipient>, from: int)
    requires
        0 <= from <= recipients.len(),
    ensures
        from <= next_unsent(recipients, from) <= recipients.len(),
        next_unsent(recipients, from) < recipients.len() ==> !recipients[next_unsent(
            recipients,
            from,
        )].is_sent,
        forall|i: int| from <= i < next_unsent(recipients, from) ==> recipients[i].is_sent,
    decreases recipients.len() - from,
{
    if from < recipients.len() && recipients[from].is_sent {
        lemma_next_unsent(recipients, from + 1);
    }
}

/// Says how the e-mail of a request is obtained: a new e-mail is stored
/// first, a stored one is read.
pub fn email_source(request: ZMQSendEmailMessage) -> (source: EmailSource)
    ensures
        match request {
            ZMQSendEmailMessage::NewEmail(email) => source == EmailSource::Create(email),
            ZMQSendEmailMessage::RetryEmail { email_id, hub_id } => source == (EmailSource::Load {
                email_id,
                hub_id,
            }),
        },
{
    match request {
        ZMQSendEmailMessage::NewEmail(email) => EmailSource::Create(email),
        ZMQSendEmailMessage::RetryEmail { email_id, hub_id } => EmailSource::Load {
            email_id,
            hub_id,
        },
    }
}

/// The e-mail that a retry asked for, or a configuration error when the
/// store has none.
pub fn loaded_email(found: Option<EmailWithRecipients>) -> (r: Result<EmailWithRecipients, Error>)
    ensures
        match found {
            Some(email) => r == Ok::<EmailWithRecipients, Error>(email),
            None => r matches Err(e) && e matches Error::Config(m) && m@ == "email not found"@,
        },
{
    match found {
        Some(email) => Ok(email),
        None => Err(Error::Config("email not found".to_owned())),
    }
}

/// `next` is the next message of `email` to send through `hub`, from
/// recipient `from` on: that for the first recipient whom the e-mail was
/// not sent to, or none when every recipient has it.
pub open spec fn is_next_delivery(
    next: Option<Delivery>,
    hub: Hub,
    email: EmailWithRecipients,
    from: int,
    domain: Seq<char>,
) -> bool {
    match next {
        Some(d) => {
            &&& d.index == next_unsent(email.recipients@, from)
            &&& from <= d.index < email.recipients@.len()
            &&& !email.recipients@[d.index as int].is_sent
            &&& forall|i: int| from <= i < d.index ==> email.recipients@[i].is_sent
            &&& d.recipient_id == email.recipients@[d.index as int].id
            &&& is_message_for(
                d.message,
                hub,
                email.email,
                email.recipients@[d.index as int],
                domain,
            )
        },
        None => forall|i: int| from <= i < email.recipients@.len() ==> email.recipients@[i].is_sent,
    }
}

/// The next message to send: that for the first recipient at or after
/// `from` whom the e-mail was not sent to. `None` when every recipient from
/// there on has it, and when the hub of the e-mail is missing: then the
/// e-mail is sent to nobody, and that is no failure.
pub fn next_delivery(
    hub: &Option<Hub>,
    email: &EmailWithRecipients,
    from: usize,
    domain: &str,
) -> (next: Option<Delivery>)
    ensures
        match *hub {
            Some(h) => is_next_delivery(next, h, *email, from as int, domain@),
            None => next is None,
        },
{
    let hub = match hub {
        Some(hub) => hub,
        None => {
            return None;
        },
    };
    if from >= email.recipients.len() {
        return None;
    }
    proof {
        lemma_next_unsent(email.recipients@, from as int);
    }
    let mut i: usize = from;
    while i < email.recipients.len() && email.recipients[i].is_sent
        invariant
            from <= i <= email.recipients.len(),
            next_unsent(email.recipients@, i as int) == next_unsent(email.recipients@, from as int),
        decreases email.recipients.len() - i,
    {
        i += 1;
    }
    if i < email.recipients.len() {
        let recipient = &email.recipients[i];
        Some(
            Delivery {
                index: i,
                recipient_id: recipient.id,
                message: build_message(hub, &email.email, recipient, domain),
            },
        )
    } else {
        None
    }
}

/// What follows the attempt to hand a message to SMTP: where the server
/// accepted it, the recipient to update and the update that marks the
/// delivery; where it did not, nothing, and the batch goes on.
pub fn after_send(delivery: &Delivery, accepted: bool) -> (update: Option<
    (i32, UpdateEmailRecipient),
>)
    ensures
        update is Some <==> accepted,
        update matches Some(u) ==> u.0 == delivery.recipient_id && u.1 == (UpdateEmailRecipient {
            is_sent: Some(true),
            opened: None,
            replied: None,
            reply: None,
        }),
{
    if accepted {
        Some((delivery.recipient_id, UpdateEmailRecipient::sent()))
    } else {
        None
    }
}

impl SmtpMailer {
    /// The server and the credentials for the mail of `hub`, or a
    /// configuration error when the hub names no server or no port.
    pub fn connection(&self, hub: &Hub) -> (r: Result<SmtpSettings, Error>)
        ensures
            r is Ok <==> hub.smtp_server is Some && hub.smtp_port is Some,
            r matches Ok(s) ==> Some(s.server) == hub.smtp_server && Some(s.port) == hub.smtp_port
                && s.login@ == crate::domain::text_or_empty(hub.login) && s.password@
                == crate::domain::text_or_empty(hub.password),
            r matches Err(e) ==> e matches Error::Config(m) && m@ == (if hub.smtp_server is None {
                "Missed SMTP server address"@
            } else {
                "Missed SMTP port"@
            }),
    {
        hub.smtp_settings()
    }
}

} // verus!
