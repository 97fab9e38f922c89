use hedwig::classifier::{classify, reply_notice, Disposition};
use hedwig::domain::{
    count_flag, Email, EmailRecipient, EmailWithRecipients, Flag, Hub, NewEmail,
    NewEmailRecipient, TemplateField, UpdateEmailRecipient,
};
use hedwig::errors::Error;
use hedwig::parser::ParsedEmail;
use hedwig::sender::{
    after_send, email_source, loaded_email, next_delivery, EmailSource, SmtpMailer,
    ZMQSendEmailMessage,
};

fn hub() -> Hub {
    Hub {
        id: 1,
        login: Some("sender@example.com".to_string()),
        password: Some("pass".to_string()),
        sender: Some("sender@example.com".to_string()),
        smtp_server: None,
        smtp_port: None,
        imap_server: None,
        imap_port: None,
        email_template: Some("Hi {name}! {message}".to_string()),
        imap_last_uid: 0,
    }
}

fn recipient(id: i32, is_sent: bool) -> EmailRecipient {
    EmailRecipient {
        id,
        email_id: 1,
        address: format!("to{}@example.com", id),
        name: "Alice".to_string(),
        fields: Vec::new(),
        is_sent,
        opened: false,
        replied: false,
        reply: None,
    }
}

fn stored(recipients: Vec<EmailRecipient>) -> EmailWithRecipients {
    EmailWithRecipients {
        email: Email {
            id: 1,
            hub_id: 1,
            message: "Hello".to_string(),
            subject: None,
            attachment: None,
            attachment_name: None,
            attachment_mime: None,
            num_sent: 0,
            num_opened: 0,
            num_replied: 0,
        },
        recipients,
    }
}

/// Hands what is unsent of `email` to a mailer that accepts or refuses
/// everything, and applies every update that the library asks for.
/// Returns how many messages the mailer accepted.
fn send_all(email: &mut EmailWithRecipients, accept: bool) -> usize {
    let hub = Some(hub());
    let mut calls = 0;
    let mut from = 0;
    while let Some(delivery) = next_delivery(&hub, email, from, "example.com") {
        from = delivery.index + 1;
        if accept {
            calls += 1;
        }
        if let Some((recipient_id, update)) = after_send(&delivery, accept) {
            let target = email.recipients.iter_mut().find(|r| r.id == recipient_id).unwrap();
            target.apply(&update);
        }
    }
    calls
}

#[test]
fn send_email_updates_recipient_on_success() {
    let mut email = stored(vec![recipient(1, false)]);
    assert_eq!(send_all(&mut email, true), 1);
    assert!(email.recipients[0].is_sent);
}

#[test]
fn send_email_skips_update_on_failure() {
    let mut email = stored(vec![recipient(1, false)]);
    assert_eq!(send_all(&mut email, false), 0);
    assert!(!email.recipients[0].is_sent);
}

#[test]
fn only_unsent_recipients_get_the_message_in_order() {
    let email = stored(vec![recipient(1, true), recipient(2, false), recipient(3, true), recipient(4, false)]);
    let hub = Some(hub());
    let first = next_delivery(&hub, &email, 0, "example.com").unwrap();
    assert_eq!((first.index, first.recipient_id), (1, 2));
    assert_eq!(first.message.to_address, "to2@example.com");
    assert_eq!(first.message.message_id, "2@example.com");
    assert!(first.message.body.starts_with("Hi Alice! Hello<img "));
    let second = next_delivery(&hub, &email, 2, "example.com").unwrap();
    assert_eq!((second.index, second.recipient_id), (3, 4));
    assert!(next_delivery(&hub, &email, 4, "example.com").is_none());
    assert!(next_delivery(&hub, &email, 9, "example.com").is_none());
    assert!(next_delivery(&hub, &stored(vec![recipient(1, true)]), 0, "example.com").is_none());
    assert!(next_delivery(&hub, &stored(Vec::new()), 0, "example.com").is_none());
}

#[test]
fn missing_hub_sends_to_nobody() {
    let email = stored(vec![recipient(1, false), recipient(2, false)]);
    assert!(next_delivery(&None, &email, 0, "example.com").is_none());
}

#[test]
fn update_follows_an_accepted_message_only() {
    let email = stored(vec![recipient(7, false)]);
    let delivery = next_delivery(&Some(hub()), &email, 0, "example.com").unwrap();
    assert!(after_send(&delivery, false).is_none());
    let (recipient_id, update) = after_send(&delivery, true).unwrap();
    assert_eq!(recipient_id, 7);
    assert_eq!(update.is_sent, Some(true));
    assert_eq!((update.opened, update.replied, update.reply), (None, None, None));
}

#[test]
fn request_says_where_the_email_comes_from() {
    match email_source(ZMQSendEmailMessage::RetryEmail { email_id: 5, hub_id: 2 }) {
        EmailSource::Load { email_id, hub_id } => assert_eq!((email_id, hub_id), (5, 2)),
        other => panic!("unexpected source {:?}", other),
    }
    let new_email = NewEmail {
        hub_id: 2,
        message: "Hello".to_string(),
        subject: None,
        attachment: None,
        attachment_name: None,
        attachment_mime: None,
        recipients: vec![NewEmailRecipient {
            address: "to@example.com".to_string(),
            name: "".to_string(),
            fields: Vec::new(),
        }],
    };
    match email_source(ZMQSendEmailMessage::NewEmail(new_email)) {
        EmailSource::Create(email) => {
            assert_eq!(email.hub_id, 2);
            assert_eq!(email.recipients.len(), 1);
        }
        other => panic!("unexpected source {:?}", other),
    }
}

#[test]
fn missing_email_is_a_configuration_error() {
    match loaded_email(None) {
        Err(Error::Config(words)) => assert_eq!(words, "email not found"),
        other => panic!("unexpected result {:?}", other),
    }
    assert_eq!(loaded_email(Some(stored(Vec::new()))).unwrap().email.id, 1);
}

#[test]
fn smtp_settings_need_server_and_port() {
    let mut hub = hub();
    match SmtpMailer.connection(&hub) {
        Err(Error::Config(words)) => assert_eq!(words, "Missed SMTP server address"),
        other => panic!("unexpected result {:?}", other),
    }
    hub.smtp_server = Some("smtp.example.com".to_string());
    match hub.smtp_settings() {
        Err(Error::Config(words)) => assert_eq!(words, "Missed SMTP port"),
        other => panic!("unexpected result {:?}", other),
    }
    hub.smtp_port = Some(465);
    hub.password = None;
    let settings = SmtpMailer.connection(&hub).unwrap();
    assert_eq!(settings.server, "smtp.example.com");
    assert_eq!(settings.port, 465);
    assert_eq!(settings.login, "sender@example.com");
    assert_eq!(settings.password, "");
}

#[test]
fn imap_settings_need_all_four_fields() {
    let mut hub = hub();
    hub.id = -12;
    match hub.imap_settings() {
        Err(Error::Config(words)) => {
            assert_eq!(words, "Cannot get imap server and port for the hub#-12")
        }
        other => panic!("unexpected result {:?}", other),
    }
    hub.imap_server = Some("imap.example.com".to_string());
    hub.imap_port = Some(993);
    let settings = hub.imap_settings().unwrap();
    assert_eq!(settings.server, "imap.example.com");
    assert_eq!(settings.port, 993);
    assert_eq!(settings.username, "sender@example.com");
    assert_eq!(settings.password, "pass");
    hub.password = None;
    assert!(hub.imap_settings().is_err());
}

#[test]
fn unsubscribe_link_points_at_the_hub_mailbox() {
    assert_eq!(hub().unsubscribe_url(), "mailto:sender@example.com?subject=unsubscribe");
}

#[test]
fn applied_update_is_counted() {
    let mut stored = stored(vec![EmailRecipient::create(
        1,
        1,
        NewEmailRecipient {
            address: "to@example.com".to_string(),
            name: "Alice".to_string(),
            fields: vec![TemplateField { key: "k".to_string(), value: "v".to_string() }],
        },
    )]);
    assert!(!stored.recipients[0].is_sent && !stored.recipients[0].opened && !stored.recipients[0].replied);

    stored.recipients[0].apply(&UpdateEmailRecipient {
        is_sent: Some(true),
        opened: Some(true),
        replied: Some(true),
        reply: Some("Thanks".into()),
    });
    stored.email.recount(&stored.recipients);

    let rec = &stored.recipients[0];
    assert!(rec.is_sent && rec.opened && rec.replied);
    assert_eq!(rec.reply.as_deref(), Some("Thanks"));
    assert_eq!(stored.email.num_sent, 1);
    assert_eq!(stored.email.num_opened, 1);
    assert_eq!(stored.email.num_replied, 1);
}

#[test]
fn counters_count_the_recipients_of_the_email_only() {
    let mut other = recipient(9, true);
    other.email_id = 2;
    let mut opened = recipient(3, true);
    opened.opened = true;
    let recipients = vec![recipient(1, true), recipient(2, false), opened, other];
    assert_eq!(count_flag(&recipients, 1, Flag::Sent), 2);
    assert_eq!(count_flag(&recipients, 1, Flag::Opened), 1);
    assert_eq!(count_flag(&recipients, 1, Flag::Replied), 0);
    assert_eq!(count_flag(&recipients, 2, Flag::Sent), 1);
    let mut email = stored(Vec::new()).email;
    email.recount(&recipients);
    assert_eq!((email.num_sent, email.num_opened, email.num_replied), (2, 1, 0));
}

#[test]
fn absent_fields_of_an_update_are_left_alone() {
    let mut rec = recipient(1, false);
    rec.reply = Some("old".to_string());
    rec.apply(&UpdateEmailRecipient { is_sent: None, opened: Some(true), replied: None, reply: None });
    assert!(!rec.is_sent && rec.opened && !rec.replied);
    assert_eq!(rec.reply.as_deref(), Some("old"));
    rec.apply(&UpdateEmailRecipient::sent());
    assert!(rec.is_sent && rec.opened && !rec.replied);
}

#[test]
fn reply_update_marks_delivery_and_opening() {
    let mut rec = recipient(1, false);
    rec.apply(&UpdateEmailRecipient::replied(Some("Thanks".to_string())));
    assert!(rec.replied && rec.is_sent && rec.opened);
    assert_eq!(rec.reply.as_deref(), Some("Thanks"));
    let mut silent = recipient(2, false);
    silent.apply(&UpdateEmailRecipient::replied(None));
    assert!(silent.replied && silent.is_sent && silent.opened);
    assert_eq!(silent.reply, None);
}

fn parsed(subject: Option<&str>, sender: Option<&str>, bounce: Option<&str>) -> ParsedEmail {
    ParsedEmail {
        subject: subject.map(|s| s.to_string()),
        sender_email: sender.map(|s| s.to_string()),
        recipient_id: Some(42),
        reply: Some("Thanks!".to_string()),
        bounce_recipient: bounce.map(|s| s.to_string()),
    }
}

#[test]
fn unsubscribe_subject_unsubscribes_the_sender() {
    match classify(&parsed(Some("UnSubscribe"), Some("a@x.com"), Some("b@x.com")), 3) {
        Disposition::Unsubscribe { request } => {
            assert_eq!(request.hub_id, 3);
            assert_eq!(request.email, "a@x.com");
            assert_eq!(request.reason.as_deref(), Some("UnSubscribe"));
        }
        other => panic!("unexpected disposition {:?}", other),
    }
}

#[test]
fn bounce_unsubscribes_the_reported_address() {
    match classify(&parsed(Some("Undelivered Mail Returned to Sender"), Some("daemon@x.com"), Some("bounced@example.com")), 3) {
        Disposition::Unsubscribe { request } => {
            assert_eq!(request.hub_id, 3);
            assert_eq!(request.email, "bounced@example.com");
            assert_eq!(request.reason.as_deref(), Some("Undelivered Mail Returned to Sender"));
        }
        other => panic!("unexpected disposition {:?}", other),
    }
}

#[test]
fn other_messages_are_replies() {
    for message in [
        parsed(Some("Re: Hello"), Some("a@x.com"), Some("b@x.com")),
        parsed(Some("unsubscribe me"), Some("a@x.com"), None),
        parsed(Some("undelivered mail returned to sender"), Some("a@x.com"), None),
        parsed(None, Some("a@x.com"), Some("b@x.com")),
    ] {
        match classify(&message, 3) {
            Disposition::Reply { recipient_id, update } => {
                assert_eq!(recipient_id, Some(42));
                assert_eq!(update.is_sent, Some(true));
                assert_eq!(update.opened, Some(true));
                assert_eq!(update.replied, Some(true));
                assert_eq!(update.reply.as_deref(), Some("Thanks!"));
            }
            other => panic!("unexpected disposition {:?}", other),
        }
        let notice = reply_notice(&message, 3, true).unwrap();
        assert_eq!(notice.hub_id, 3);
        assert_eq!(notice.email, "a@x.com");
        assert_eq!(notice.message, "Thanks!");
        assert_eq!(notice.subject, message.subject);
    }
}

#[test]
fn reply_without_a_recipient_is_not_published() {
    let message = parsed(Some("Re: Hello"), Some("a@x.com"), None);
    assert!(reply_notice(&message, 3, false).is_none());
    let mut unknown = parsed(Some("Re: Hello"), Some("a@x.com"), None);
    unknown.recipient_id = None;
    match classify(&unknown, 3) {
        Disposition::Reply { recipient_id, .. } => assert_eq!(recipient_id, None),
        other => panic!("unexpected disposition {:?}", other),
    }
    assert!(reply_notice(&unknown, 3, false).is_none());
}

#[test]
fn reply_without_sender_or_text_publishes_accordingly() {
    let mut message = parsed(Some("unsubscribe"), None, None);
    message.reply = None;
    match classify(&message, 3) {
        Disposition::Reply { recipient_id, update } => {
            assert_eq!(recipient_id, Some(42));
            assert_eq!(update.reply, None);
        }
        other => panic!("unexpected disposition {:?}", other),
    }
    assert!(reply_notice(&message, 3, true).is_none());
    message.sender_email = Some("a@x.com".to_string());
    message.subject = None;
    let notice = reply_notice(&message, 3, true).unwrap();
    assert_eq!(notice.message, "");
    assert_eq!(notice.subject, None);
}

#[test]
fn errors_say_their_kind() {
    let words = |e: Error| e.message();
    assert_eq!(words(Error::Smtp("x".to_string())), "smtp error: x");
    assert_eq!(words(Error::Imap("x".to_string())), "imap error: x");
    assert_eq!(words(Error::Zmq("x".to_string())), "zmq error: x");
    assert_eq!(words(Error::Tls("x".to_string())), "tls error: x");
    assert_eq!(words(Error::Repository("x".to_string())), "repository error: x");
    assert_eq!(words(Error::Pool("x".to_string())), "database pool error: x");
    assert_eq!(words(Error::Config("x".to_string())), "configuration error: x");
    assert_eq!(words(Error::ZmqSender("x".to_string())), "zmq sender error: x");
    assert_eq!(words(Error::Parse("".to_string())), "parse error: ");
}
