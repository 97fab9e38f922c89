//! Hubs, e-mails and recipients as the workers see them.

use vstd::prelude::*;
use crate::decimal::{i64_to_chars, signed_decimal};
use crate::errors::Error;
use crate::text::{append_chars, from_chars, to_chars};

verus! {

/// A tenant: the owner of SMTP and IMAP credentials and of a template.
#[derive(Debug)]
pub struct Hub {
    pub id: i32,
    pub login: Option<String>,
    pub password: Option<String>,
    pub sender: Option<String>,
    pub smtp_server: Option<String>,
    pub smtp_port: Option<u16>,
    pub imap_server: Option<String>,
    pub imap_port: Option<u16>,
    pub email_template: Option<String>,
    /// The highest UID whose processing is known to be stored.
    pub imap_last_uid: i32,
}

/// Where and as whom to open a hub's mailbox.
#[derive(Debug)]
pub struct ImapSettings {
    pub server: String,
    pub port: u16,
    pub username: String,
    pub password: String,
}

/// Where and as whom to hand a hub's mail to SMTP.
#[derive(Debug)]
pub struct SmtpSettings {
    pub server: String,
    pub port: u16,
    pub login: String,
    pub password: String,
}

/// One variable of a recipient, by which a template token is replaced. The
/// variables of a recipient are a map from keys to values, kept as a list
/// in which no key occurs twice.
#[derive(Debug)]
pub struct TemplateField {
    pub key: String,
    pub value: String,
}

/// One outbound message to a set of recipients.
#[derive(Debug)]
pub struct Email {
    pub id: i32,
    pub hub_id: i32,
    pub message: String,
    pub subject: Option<String>,
    pub attachment: Option<Vec<u8>>,
    pub attachment_name: Option<String>,
    pub attachment_mime: Option<String>,
    pub num_sent: i32,
    pub num_opened: i32,
    pub num_replied: i32,
}

/// One delivery of an e-mail.
#[derive(Debug)]
pub struct EmailRecipient {
    pub id: i32,
    pub email_id: i32,
    pub address: String,
    pub name: String,
    pub fields: Vec<TemplateField>,
    pub is_sent: bool,
    pub opened: bool,
    pub replied: bool,
    pub reply: Option<String>,
}

/// An e-mail together with its deliveries.
#[derive(Debug)]
pub struct EmailWithRecipients {
    pub email: Email,
    pub recipients: Vec<EmailRecipient>,
}

/// A recipient of an e-mail that is still to be stored.
#[derive(Debug)]
pub struct NewEmailRecipient {
    pub address: String,
    pub name: String,
    pub fields: Vec<TemplateField>,
}

/// An e-mail that is still to be stored.
#[derive(Debug)]
pub struct NewEmail {
    pub hub_id: i32,
    pub message: String,
    pub subject: Option<String>,
    pub attachment: Option<Vec<u8>>,
    pub attachment_name: Option<String>,
    pub attachment_mime: Option<String>,
    pub recipients: Vec<NewEmailRecipient>,
}

/// The fields of a recipient to overwrite; an absent one is left as it is.
#[derive(Debug)]
pub struct UpdateEmailRecipient {
    pub is_sent: Option<bool>,
    pub opened: Option<bool>,
    pub replied: Option<bool>,
    pub reply: Option<String>,
}

/// An address that asked a hub for no more mail, or that bounced.
#[derive(Debug)]
pub struct Unsubscribe {
    pub email: String,
    pub hub_id: i32,
    pub reason: Option<String>,
}

/// The settings that both workers are started with.
#[derive(Debug)]
pub struct ServerConfig {
    pub domain: String,
    pub database_url: String,
    pub zmq_emailer_pub: String,
    pub zmq_emailer_sub: String,
    pub zmq_replier_pub: String,
    pub zmq_replier_sub: String,
}

/// One of the three delivery flags of a recipient.
#[derive(Clone, Copy, Debug, PartialEq, Eq, Structural)]
pub enum Flag {
    Sent,
    Opened,
    Replied,
}

/// The characters of an optional string, or none.
pub open spec fn text_or_empty(s: Option<String>) -> Seq<char> {
    match s {
        Some(s) => s@,
        None => Seq::empty(),
    }
}

/// The characters of an optional string.
pub open spec fn optional_text(s: Option<String>) -> Option<Seq<char>> {
    match s {
        Some(s) => Some(s@),
        None => None,
    }
}

/// The address at which a hub takes unsubscribe requests, as a `mailto:`
/// link: its own mailbox, with the subject that the reply monitor looks for.
pub open spec fn unsubscribe_url_spec(login: Option<String>) -> Seq<char> {
    "mailto:"@ + text_or_empty(login) + "?subject=unsubscribe"@
}

/// The words of the error for a hub without complete IMAP settings.
pub open spec fn imap_settings_missing(hub_id: i32) -> Seq<char> {
    "Cannot get imap server and port for the hub#"@ + signed_decimal(hub_id as int)
}

/// A copy of the string, or the empty string.
pub fn string_or_empty(s: &Option<String>) -> (out: String)
    ensures
        out@ == text_or_empty(*s),
{
    match s {
        Some(s) => s.clone(),
        None => String::new(),
    }
}

/// A copy of the optional string.
pub fn clone_optional(s: &Option<String>) -> (out: Option<String>)
    ensures
        out == *s,
{
    match s {
        Some(s) => Some(s.clone()),
        None => None,
    }
}

impl Hub {
    /// The `mailto:` link by which a recipient unsubscribes.
    pub fn unsubscribe_url(&self) -> (url: String)
        ensures
            url@ == unsubscribe_url_spec(self.login),
    {
        let mut out = to_chars("mailto:");
        match &self.login {
            Some(login) => {
                let login = to_chars(login.as_str());
                append_chars(&mut out, &login);
            },
            None => {
                assert(out@ + Seq::<char>::empty() == out@);
            },
        }
        let tail = to_chars("?subject=unsubscribe");
        append_chars(&mut out, &tail);
        from_chars(&out)
    }

    /// The hub has all four IMAP settings.
    pub open spec fn has_imap_settings(self) -> bool {
        self.imap_server is Some && self.imap_port is Some && self.login is Some
            && self.password is Some
    }

    /// The hub's IMAP settings, or a configuration error when one of
    /// server, port, login and password is missing.
    pub fn imap_settings(&self) -> (r: Result<ImapSettings, Error>)
        ensures
            r is Ok <==> self.has_imap_settings(),
            r matches Ok(s) ==> Some(s.server) == self.imap_server && Some(s.port)
                == self.imap_port && Some(s.username) == self.login && Some(s.password)
                == self.password,
            r matches Err(e) ==> e matches Error::Config(m) && m@ == imap_settings_missing(
                self.id,
            ),
    {
        match (&self.imap_server, self.imap_port, &self.login, &self.password) {
            (Some(server), Some(port), Some(username), Some(password)) => Ok(
                ImapSettings {
                    server: server.clone(),
                    port,
                    username: username.clone(),
                    password: password.clone(),
                },
            ),
            _ => {
                let mut out = to_chars("Cannot get imap server and port for the hub#");
                let id = i64_to_chars(self.id as i64);
                append_chars(&mut out, &id);
                Err(Error::Config(from_chars(&out)))
            },
        }
    }

    /// The hub's SMTP settings, or a configuration error when the server or
    /// the port is missing. A missing login or password is empty.
    pub fn smtp_settings(&self) -> (r: Result<SmtpSettings, Error>)
        ensures
            r is Ok <==> self.smtp_server is Some && self.smtp_port is Some,
            r matches Ok(s) ==> Some(s.server) == self.smtp_server && Some(s.port)
                == self.smtp_port && s.login@ == text_or_empty(self.login) && s.password@
                == text_or_empty(self.password),
            r matches Err(e) ==> e matches Error::Config(m) && m@ == (if self.smtp_server
                is None {
                "Missed SMTP server address"@
            } else {
                "Missed SMTP port"@
            }),
    {
        let server = match &self.smtp_server {
            Some(server) => server.clone(),
            None => {
                return Err(Error::Config("Missed SMTP server address".to_owned()));
            },
        };
        let port = match self.smtp_port {
            Some(port) => port,
            None => {
                return Err(Error::Config("Missed SMTP port".to_owned()));
            },
        };
        Ok(
            SmtpSettings {
                server,
                port,
                login: string_or_empty(&self.login),
                password: string_or_empty(&self.password),
            },
        )
    }
}

impl UpdateEmailRecipient {
    /// The update that records a delivery.
    pub fn sent() -> (u: UpdateEmailRecipient)
        ensures
            u == (UpdateEmailRecipient {
                is_sent: Some(true),
                opened: None,
                replied: None,
                reply: None,
            }),
            u.keeps_consistency(),
    {
        UpdateEmailRecipient { is_sent: Some(true), opened: None, replied: None, reply: None }
    }

    /// The update that records a reply: a reply proves delivery and opening.
    pub fn replied(reply: Option<String>) -> (u: UpdateEmailRecipient)
        ensures
            u == (UpdateEmailRecipient {
                is_sent: Some(true),
                opened: Some(true),
                replied: Some(true),
                reply,
            }),
            u.keeps_consistency(),
    {
        UpdateEmailRecipient {
            is_sent: Some(true),
            opened: Some(true),
            replied: Some(true),
            reply,
        }
    }

    /// The update leaves every consistent recipient consistent: it takes
    /// the reply back, or marks it together with delivery and opening, or
    /// leaves it alone and takes neither delivery nor opening back.
    pub open spec fn keeps_consistency(self) -> bool {
        match self.replied {
            Some(false) => true,
            Some(true) => self.is_sent == Some(true) && self.opened == Some(true),
            None => self.is_sent != Some(false) && self.opened != Some(false),
        }
    }
}

/// The new value of a field: the one provided, or else the old one.
pub open spec fn overwritten<T>(old: T, provided: Option<T>) -> T {
    match provided {
        Some(v) => v,
        None => old,
    }
}

impl EmailRecipient {
    /// A reply implies delivery and opening.
    pub open spec fn consistent(self) -> bool {
        self.replied ==> self.is_sent && self.opened
    }

    /// The recipient after `updates`.
    pub open spec fn updated(self, updates: UpdateEmailRecipient) -> EmailRecipient {
        EmailRecipient {
            is_sent: overwritten(self.is_sent, updates.is_sent),
            opened: overwritten(self.opened, updates.opened),
            replied: overwritten(self.replied, updates.replied),
            reply: match updates.reply {
                Some(r) => Some(r),
                None => self.reply,
            },
            ..self
        }
    }

    /// The value of one delivery flag.
    pub open spec fn flag(self, flag: Flag) -> bool {
        match flag {
            Flag::Sent => self.is_sent,
            Flag::Opened => self.opened,
            Flag::Replied => self.replied,
        }
    }

    /// A recipient as it is first stored: nothing sent, opened or replied.
    pub fn create(id: i32, email_id: i32, item: NewEmailRecipient) -> (r: EmailRecipient)
        ensures
            r == (EmailRecipient {
                id,
                email_id,
                address: item.address,
                name: item.name,
                fields: item.fields,
                is_sent: false,
                opened: false,
                replied: false,
                reply: None,
            }),
            r.consistent(),
    {
        EmailRecipient {
            id,
            email_id,
            address: item.address,
            name: item.name,
            fields: item.fields,
            is_sent: false,
            opened: false,
            replied: false,
            reply: None,
        }
    }

    /// Overwrites each field that `updates` provides.
    pub fn apply(&mut self, updates: &UpdateEmailRecipient)
        ensures
            *final(self) == old(self).updated(*updates),
            old(self).consistent() && updates.keeps_consistency() ==> final(self).consistent(),
    {
        if let Some(v) = updates.is_sent {
            self.is_sent = v;
        }
        if let Some(v) = updates.opened {
            self.opened = v;
        }
        if let Some(v) = updates.replied {
            self.replied = v;
        }
        if let Some(r) = &updates.reply {
            self.reply = Some(r.clone());
        }
    }
}

/// How many recipients of the e-mail `email_id` in `recipients` have `flag`.
pub open spec fn tally(recipients: Seq<EmailRecipient>, email_id: i32, flag: Flag) -> nat
    decreases recipients.len(),
{
    if recipients.len() == 0 {
        0
    } else {
        let r = recipients.last();
        tally(recipients.drop_last(), email_id, flag) + if r.email_id == email_id && r.flag(flag) {
            1nat
        } else {
            0nat
        }
    }
}

/// No more recipients are counted than there are.
pub proof fn lemma_tally_bound(recipients: Seq<EmailRecipient>, email_id: i32, flag: Flag)
    ensures
        tally(recipients, email_id, flag) <= recipients.len(),
    decreases recipients.len(),
{
    if recipients.len() > 0 {
        lemma_tally_bound(recipients.drop_last(), email_id, flag);
    }
}

fn has_flag(r: &EmailRecipient, flag: Flag) -> (b: bool)
    ensures
        b == r.flag(flag),
{
    match flag {
        Flag::Sent => r.is_sent,
        Flag::Opened => r.opened,
        Flag::Replied => r.replied,
    }
}

/// Counts the recipients of the e-mail `email_id` that have `flag`.
pub fn count_flag(recipients: &Vec<EmailRecipient>, email_id: i32, flag: Flag) -> (n: usize)
    ensures
        n == tally(recipients@, email_id, flag),
{
    let mut n: usize = 0;
    let mut i: usize = 0;
    while i < recipients.len()
        invariant
            i <= recipients.len(),
            n == tally(recipients@.take(i as int), email_id, flag),
            n <= i,
        decreases recipients.len() - i,
    {
        assert(recipients@.take(i + 1).drop_last() == recipients@.take(i as int));
        if recipients[i].email_id == email_id && has_flag(&recipients[i], flag) {
            n += 1;
        }
        i += 1;
    }
    assert(recipients@.take(recipients.len() as int) == recipients@);
    n
}

impl Email {
    /// The counters agree with the recipients' flags.
    pub open spec fn counts(self, recipients: Seq<EmailRecipient>) -> bool {
        &&& self.num_sent == tally(recipients, self.id, Flag::Sent)
        &&& self.num_opened == tally(recipients, self.id, Flag::Opened)
        &&& self.num_replied == tally(recipients, self.id, Flag::Replied)
    }

    /// Sets the three counters from the recipients' flags.
    pub fn recount(&mut self, recipients: &Vec<EmailRecipient>)
        requires
            recipients.len() <= i32::MAX,
        ensures
            final(self).counts(recipients@),
            *final(self) == (Email {
                num_sent: final(self).num_sent,
                num_opened: final(self).num_opened,
                num_replied: final(self).num_replied,
                ..*old(self)
            }),
    {
        proof {
            lemma_tally_bound(recipients@, self.id, Flag::Sent);
            lemma_tally_bound(recipients@, self.id, Flag::Opened);
            lemma_tally_bound(recipients@, self.id, Flag::Replied);
        }
        let id = self.id;
        self.num_sent = count_flag(recipients, id, Flag::Sent) as i32;
        self.num_opened = count_flag(recipients, id, Flag::Opened) as i32;
        self.num_replied = count_flag(recipients, id, Flag::Replied) as i32;
    }
}

} // verus!
