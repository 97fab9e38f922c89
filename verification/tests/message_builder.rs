use mail_send::mail_builder::headers::address::Address;
use mail_send::mail_builder::headers::HeaderType;
use mail_send::mail_builder::mime::BodyPart;
use hedwig::domain::{Email, EmailRecipient, Hub, TemplateField};
use hedwig::message_builder::{build_message, Attachment, OutboundMessage};
use hedwig::template::{fill_template, has_unique_keys};

fn sample_hub() -> Hub {
    Hub {
        id: 1,
        login: Some("sender@example.com".to_string()),
        password: None,
        sender: Some("sender@example.com".to_string()),
        smtp_server: None,
        smtp_port: None,
        imap_server: None,
        imap_port: None,
        email_template: Some("Hi {name}! {message} Unsubscribe: {unsubscribe_url}".to_string()),
        imap_last_uid: 0,
    }
}

fn sample_email() -> Email {
    Email {
        id: 1,
        hub_id: 1,
        message: "Hello {favorite_color}, I have {favourite fruit}".to_string(),
        subject: Some("Subject".to_string()),
        attachment: None,
        attachment_name: None,
        attachment_mime: None,
        num_sent: 0,
        num_opened: 0,
        num_replied: 0,
    }
}

fn sample_recipient() -> EmailRecipient {
    EmailRecipient {
        id: 1,
        email_id: 1,
        address: "to@example.com".to_string(),
        name: "Alice".to_string(),
        fields: vec![field("favorite_color", "blue")],
        is_sent: false,
        opened: false,
        replied: false,
        reply: None,
    }
}

fn field(key: &str, value: &str) -> TemplateField {
    TemplateField { key: key.to_string(), value: value.to_string() }
}

fn written(message: &OutboundMessage) -> String {
    let mut out = Vec::new();
    message.to_builder().write_to(&mut out).unwrap();
    String::from_utf8(out).unwrap()
}

const PIXEL: &str = "<img height=\"1\" width=\"1\" border=\"0\" src=\"https://mail.example.com/track/1\">";

#[test]
fn builds_message_with_tracking_and_unsubscribe() {
    let hub = sample_hub();
    let email = sample_email();
    let recipient = sample_recipient();
    let message = build_message(&hub, &email, &recipient, "example.com");
    let msg = written(&message);

    assert!(msg.contains("List-Unsubscribe: <mailto:sender@example.com?subject=unsubscribe>"));
    assert!(msg.contains("track/1"));
    assert!(msg.contains("Message-ID: <1@example.com>"));
    assert!(msg.contains("Hi Alice! Hello blue, I have {favourite fruit}"));
    assert!(msg.contains("unsubscribe"));
}

#[test]
fn includes_attachment_when_provided() {
    let hub = sample_hub();
    let mut email = sample_email();
    email.attachment = Some(b"data".to_vec());
    email.attachment_name = Some("file.txt".to_string());
    email.attachment_mime = Some("text/plain".to_string());
    let recipient = sample_recipient();

    let message = build_message(&hub, &email, &recipient, "example.com");
    let msg = written(&message);

    assert!(msg.contains("Content-Type: text/plain"));
    assert!(msg.contains("name=\"file.txt\""));
}

#[test]
fn renders_template_with_unknown_token_kept() {
    let mut email = sample_email();
    email.message = "Hello {favorite_color}, fruit {unknown}".to_string();
    let message = build_message(&sample_hub(), &email, &sample_recipient(), "example.com");
    assert_eq!(
        message.body,
        format!(
            "Hi Alice! Hello blue, fruit {{unknown}} Unsubscribe: mailto:sender@example.com?subject=unsubscribe{}",
            PIXEL
        )
    );
    assert_eq!(message.message_id, "1@example.com");
    assert_eq!(message.list_unsubscribe, "mailto:sender@example.com?subject=unsubscribe");
    assert_eq!(message.from_name, "sender@example.com");
    assert_eq!(message.from_address, "sender@example.com");
    assert_eq!(message.to_address, "to@example.com");
    assert_eq!(message.subject, "Subject");
    assert!(message.attachment.is_none());
    let msg = written(&message);
    assert!(msg.contains("Hi Alice! Hello blue, fruit {unknown}"));
    assert!(msg.contains("track/1"));
    assert!(msg.contains("Message-ID: <1@example.com>"));
}

#[test]
fn template_without_message_token_gets_one_appended() {
    let mut hub = sample_hub();
    hub.email_template = Some("Dear {name},".to_string());
    let mut email = sample_email();
    email.message = "text".to_string();
    let message = build_message(&hub, &email, &sample_recipient(), "example.com");
    assert_eq!(message.body, format!("Dear Alice,\n\ntext{}", PIXEL));
}

#[test]
fn missing_template_sender_and_subject_default() {
    let mut hub = sample_hub();
    hub.email_template = None;
    hub.sender = None;
    hub.login = None;
    let mut email = sample_email();
    email.message = "text".to_string();
    email.subject = None;
    let mut recipient = sample_recipient();
    recipient.id = 250;
    let message = build_message(&hub, &email, &recipient, "mail.test");
    assert_eq!(
        message.body,
        "text<img height=\"1\" width=\"1\" border=\"0\" src=\"https://mail.mail.test/track/250\">"
    );
    assert_eq!(message.message_id, "250@mail.test");
    assert_eq!(message.list_unsubscribe, "mailto:?subject=unsubscribe");
    assert_eq!(message.from_name, "");
    assert_eq!(message.from_address, "");
    assert_eq!(message.subject, "");
}

#[test]
fn values_put_in_are_not_filled_again() {
    let mut email = sample_email();
    email.message = "{a}".to_string();
    let mut recipient = sample_recipient();
    recipient.fields = vec![field("a", "{name} {message}")];
    let mut hub = sample_hub();
    hub.email_template = Some("<{message}>".to_string());
    let message = build_message(&hub, &email, &recipient, "example.com");
    assert_eq!(message.body, format!("<{{name}} {{message}}>{}", PIXEL));
}

#[test]
fn attachment_needs_type_name_and_content() {
    let build = |mime: Option<&str>, name: Option<&str>, content: Option<&[u8]>| {
        let mut email = sample_email();
        email.attachment_mime = mime.map(|m| m.to_string());
        email.attachment_name = name.map(|n| n.to_string());
        email.attachment = content.map(|c| c.to_vec());
        build_message(&sample_hub(), &email, &sample_recipient(), "example.com").attachment
    };
    match build(Some("text/plain"), Some("file.txt"), Some(b"data")) {
        Some(Attachment { mime, name, content }) => {
            assert_eq!(mime, "text/plain");
            assert_eq!(name, "file.txt");
            assert_eq!(content, b"data");
        }
        None => panic!("attachment expected"),
    }
    assert!(build(None, Some("file.txt"), Some(b"data")).is_none());
    assert!(build(Some("text/plain"), None, Some(b"data")).is_none());
    assert!(build(Some("text/plain"), Some("file.txt"), None).is_none());
    assert!(build(Some("text/plain"), Some(""), Some(b"data")).is_none());
    assert!(build(Some("text/plain"), Some("file.txt"), Some(b"")).is_none());
    assert!(build(Some(""), Some("file.txt"), Some(b"data")).is_some());
}

#[test]
fn written_message_has_no_attachment_part_without_attachment() {
    let message = build_message(&sample_hub(), &sample_email(), &sample_recipient(), "example.com");
    let msg = written(&message);
    assert!(!msg.contains("name=\"file.txt\""));
    assert!(msg.contains("Subject: Subject"));
    assert!(msg.contains("<to@example.com>"));
}

#[test]
fn fills_tokens_of_letters_digits_and_underscores() {
    let fields = vec![
        field("a", "1"),
        field("имя", "Анна"),
        field("key_2", "two"),
        field("a", "ignored"),
        field("", "empty"),
    ];
    assert_eq!(fill_template("x {a} {b} {a}", &fields), "x 1 {b} 1");
    assert_eq!(fill_template("{имя}/{key_2}", &fields), "Анна/two");
    assert_eq!(fill_template("{} { a } {a b} {a-b} {{a}}", &fields), "{} { a } {a b} {a-b} {1}");
    assert_eq!(fill_template("no tokens", &fields), "no tokens");
    assert_eq!(fill_template("", &fields), "");
    assert_eq!(fill_template("{a}", &Vec::new()), "{a}");
}

#[test]
fn builder_holds_the_headers_in_order_the_body_twice_and_the_attachment() {
    let mut email = sample_email();
    email.attachment = Some(b"data".to_vec());
    email.attachment_name = Some("file.txt".to_string());
    email.attachment_mime = Some("text/plain".to_string());
    let message = build_message(&sample_hub(), &email, &sample_recipient(), "example.com");
    let builder = message.to_builder();

    let names: Vec<&str> = builder.headers.iter().map(|(name, _)| name.as_ref()).collect();
    assert_eq!(names, vec!["From", "To", "Subject", "Message-ID", "List-Unsubscribe"]);
    match &builder.headers[0].1 {
        HeaderType::Address(Address::Address(from)) => {
            assert_eq!(from.name.as_deref(), Some("sender@example.com"));
            assert_eq!(from.email, "sender@example.com");
        }
        other => panic!("unexpected sender {:?}", other),
    }
    match &builder.headers[1].1 {
        HeaderType::Address(Address::List(list)) => match list.as_slice() {
            [Address::Address(to)] => {
                assert_eq!(to.name.as_deref(), Some(""));
                assert_eq!(to.email, "to@example.com");
            }
            other => panic!("unexpected recipients {:?}", other),
        },
        other => panic!("unexpected recipient {:?}", other),
    }
    match &builder.headers[2].1 {
        HeaderType::Text(subject) => assert_eq!(subject.text, "Subject"),
        other => panic!("unexpected subject {:?}", other),
    }
    match &builder.headers[3].1 {
        HeaderType::MessageId(id) => assert_eq!(id.id, vec!["1@example.com"]),
        other => panic!("unexpected message id {:?}", other),
    }
    match &builder.headers[4].1 {
        HeaderType::URL(url) => {
            assert_eq!(url.url, vec!["mailto:sender@example.com?subject=unsubscribe"])
        }
        other => panic!("unexpected unsubscribe link {:?}", other),
    }

    for body in [&builder.text_body, &builder.html_body] {
        match body.as_ref().map(|part| &part.contents) {
            Some(BodyPart::Text(text)) => assert_eq!(text.as_ref(), message.body),
            other => panic!("unexpected body {:?}", other),
        }
    }

    let attachments = builder.attachments.as_ref().unwrap();
    assert_eq!(attachments.len(), 1);
    match &attachments[0].contents {
        BodyPart::Binary(bytes) => assert_eq!(bytes.as_ref(), b"data"),
        other => panic!("unexpected attachment {:?}", other),
    }

    let plain = build_message(&sample_hub(), &sample_email(), &sample_recipient(), "example.com");
    let bare = plain.to_builder();
    assert_eq!(bare.headers.len(), 5);
    assert!(bare.attachments.is_none());
}

#[test]
fn keys_of_fields_are_told_apart() {
    assert!(has_unique_keys(&Vec::new()));
    assert!(has_unique_keys(&vec![field("a", "1"), field("b", "1"), field("A", "2")]));
    assert!(!has_unique_keys(&vec![field("a", "1"), field("b", "1"), field("a", "2")]));
    assert!(!has_unique_keys(&vec![field("", "1"), field("", "1")]));
}
