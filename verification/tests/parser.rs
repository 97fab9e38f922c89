use hedwig::classifier::{classify, Disposition};
use hedwig::errors::Error;
use hedwig::parser::{
    extract_recipient_id, extract_sender_email, find_bounce_recipient, find_first_body, find_reply,
    first_mailbox, is_attachment, parse_email, strip_html_tags, MailAddress, MimePart, ParsedEmail,
};

const DOMAIN: &str = "example.com";

fn parse(raw: &str) -> ParsedEmail {
    match parse_email(raw.as_bytes(), DOMAIN) {
        Ok(parsed) => parsed,
        Err(e) => panic!("mail should parse: {}", e.message()),
    }
}

fn leaf(mimetype: &str, body: &str) -> MimePart {
    MimePart {
        mimetype: mimetype.to_string(),
        disposition: None,
        body: Some(body.to_string()),
        children: 0,
    }
}

fn multipart(children: usize) -> MimePart {
    MimePart {
        mimetype: "multipart/mixed".to_string(),
        disposition: None,
        body: Some(String::new()),
        children,
    }
}

#[test]
fn parses_plain_text_reply() {
    let raw = "Subject: Re: Hello\r\nFrom: Sender <sender@example.com>\r\nIn-Reply-To: <42@example.com>\r\nContent-Type: text/plain; charset=\"utf-8\"\r\n\r\nThanks!\r\n";
    let parsed = parse(raw);
    assert_eq!(parsed.subject.as_deref(), Some("Re: Hello"));
    assert_eq!(parsed.sender_email.as_deref(), Some("sender@example.com"));
    assert_eq!(parsed.recipient_id, Some(42));
    assert_eq!(parsed.reply.as_deref(), Some("Thanks!"));
    assert!(parsed.bounce_recipient.is_none());
}

#[test]
fn prefers_sender_header_for_email_extraction() {
    let raw = "Subject: Hi\r\nSender: sender@example.com\r\nFrom: other@example.com\r\nContent-Type: text/plain; charset=\"utf-8\"\r\n\r\nHello\r\n";
    let parsed = parse(raw);
    assert_eq!(parsed.sender_email.as_deref(), Some("sender@example.com"));
}

#[test]
fn decodes_base64_html_reply() {
    let raw = "Subject: Hi\r\nFrom: Sender <sender@example.com>\r\nContent-Type: text/html; charset=\"utf-8\"\r\nContent-Transfer-Encoding: base64\r\n\r\nPGRpdj5UaGFua3MhPC9kaXY+";
    let parsed = parse(raw);
    assert_eq!(parsed.reply.as_deref(), Some("Thanks!"));
}

#[test]
fn ignores_quoted_lines_and_separators() {
    let raw = "Subject: Re\r\nFrom: Sender <sender@example.com>\r\nContent-Type: text/html; charset=\"utf-8\"\r\n\r\n<div>Thanks!</div><div><br></div><div>> quoted</div><div>On Tue, Someone wrote:</div><blockquote><div>Original</div></blockquote>";
    let parsed = parse(raw);
    assert_eq!(parsed.reply.as_deref(), Some("Thanks!"));
}

#[test]
fn extracts_bounce_recipient_from_delivery_status() {
    let raw = "Subject: Undelivered\r\nFrom: Mailer <mailer@example.com>\r\nContent-Type: multipart/report; boundary=\"BOUNDARY\"\r\n\r\n--BOUNDARY\r\nContent-Type: message/delivery-status\r\n\r\nFinal-Recipient: rfc822; bounced@example.com\r\n--BOUNDARY--\r\n";
    let parsed = parse(raw);
    assert_eq!(parsed.bounce_recipient.as_deref(), Some("bounced@example.com"));
}

#[test]
fn extracts_recipient_id_from_in_reply_to() {
    let raw = "Subject: Hi\r\nFrom: Sender <sender@example.com>\r\nIn-Reply-To: <24@example.com>\r\nContent-Type: text/plain; charset=\"utf-8\"\r\n\r\nHi\r\n";
    let parsed = parse(raw);
    assert_eq!(parsed.recipient_id, Some(24));
}

#[test]
fn removes_tags_and_handles_malformed_html() {
    assert_eq!(strip_html_tags("<div><p>Hello</p></div>").trim(), "Hello");
    assert_eq!(strip_html_tags("<div><p>Hello").trim(), "Hello");
}

#[test]
fn handles_empty_and_multiple_tags() {
    assert_eq!(strip_html_tags("").trim(), "");
    assert_eq!(strip_html_tags("<p>First</p><p>Second</p>").trim(), "First\n\nSecond");
}

#[test]
fn plain_text_reply_with_bare_address() {
    let raw = "Subject: Re: Hello\r\nFrom: <a@x.com>\r\nIn-Reply-To: <42@example.com>\r\nContent-Type: text/plain\r\n\r\nThanks!";
    let parsed = parse(raw);
    assert_eq!(parsed.subject.as_deref(), Some("Re: Hello"));
    assert_eq!(parsed.sender_email.as_deref(), Some("a@x.com"));
    assert_eq!(parsed.recipient_id, Some(42));
    assert_eq!(parsed.reply.as_deref(), Some("Thanks!"));
}

#[test]
fn quoted_html_reply_is_cut_at_the_attribution() {
    let raw = "Subject: Re\r\nFrom: a@x.com\r\nContent-Type: text/html\r\n\r\n<div>Thanks!</div><br><div>On Tue, Someone wrote:</div><blockquote>Original</blockquote>";
    assert_eq!(parse(raw).reply.as_deref(), Some("Thanks!"));
}

#[test]
fn folded_subject_is_unfolded() {
    let raw = "Subject: Hello,\r\n sir\r\nFrom: a@x.com\r\n\r\nBody";
    assert_eq!(parse(raw).subject.as_deref(), Some("Hello, sir"));
}

#[test]
fn malformed_message_is_a_parse_error() {
    match parse_email(b" Leading: Space\r\n\r\nbody", DOMAIN) {
        Err(Error::Parse(words)) => assert!(!words.is_empty()),
        other => panic!("expected a parse error, got {:?}", other),
    }
}

#[test]
fn message_without_headers_of_interest_has_no_fields() {
    let parsed = parse("X-Other: 1\r\nContent-Type: application/octet-stream\r\n\r\n\u{1}\u{2}");
    assert_eq!(parsed.subject, None);
    assert_eq!(parsed.sender_email, None);
    assert_eq!(parsed.recipient_id, None);
    assert_eq!(parsed.reply, None);
    assert_eq!(parsed.bounce_recipient, None);
}

#[test]
fn default_parsed_email_is_empty() {
    let parsed = ParsedEmail::default();
    assert_eq!(
        parsed,
        ParsedEmail {
            subject: None,
            sender_email: None,
            recipient_id: None,
            reply: None,
            bounce_recipient: None
        }
    );
}

#[test]
fn unreadable_sender_falls_back_to_from() {
    let raw = "Sender: Group: ;\r\nFrom: Other <other@example.com>\r\n\r\nHi";
    assert_eq!(parse(raw).sender_email.as_deref(), Some("other@example.com"));
}

#[test]
fn group_address_resolves_to_first_member() {
    let raw = "From: Team: first@example.com, second@example.com;\r\n\r\nHi";
    assert_eq!(parse(raw).sender_email.as_deref(), Some("first@example.com"));
}

#[test]
fn first_mailbox_skips_empty_groups() {
    let list = vec![
        MailAddress::Group(Vec::new()),
        MailAddress::Group(vec!["m@example.com".to_string(), "n@example.com".to_string()]),
        MailAddress::Single("s@example.com".to_string()),
    ];
    assert_eq!(first_mailbox(&list).as_deref(), Some("m@example.com"));
    assert_eq!(first_mailbox(&vec![MailAddress::Group(Vec::new())]), None);
    assert_eq!(first_mailbox(&Vec::new()), None);
}

#[test]
fn sender_is_taken_before_from() {
    let sender = Some(vec![MailAddress::Single("s@example.com".to_string())]);
    let from = Some(vec![MailAddress::Single("f@example.com".to_string())]);
    assert_eq!(extract_sender_email(&sender, &from).as_deref(), Some("s@example.com"));
    assert_eq!(extract_sender_email(&None, &from).as_deref(), Some("f@example.com"));
    assert_eq!(extract_sender_email(&Some(Vec::new()), &from).as_deref(), Some("f@example.com"));
    assert_eq!(extract_sender_email(&None, &None), None);
}

#[test]
fn recipient_id_takes_the_first_matching_token() {
    let id = |header: &str| extract_recipient_id(&Some(header.to_string()), DOMAIN);
    assert_eq!(id("<7@example.com>"), Some(7));
    assert_eq!(id("<0@example.com>"), Some(0));
    assert_eq!(id("<x@other.org> <12@example.com> <13@example.com>"), Some(12));
    assert_eq!(id("<abc@example.com> <5@example.com>"), Some(5));
    assert_eq!(id("<+9@example.com>"), Some(9));
    assert_eq!(id("<007@example.com>"), Some(7));
    assert_eq!(id("<2147483647@example.com>"), Some(2147483647));
    assert_eq!(id("lead <3@example.com"), Some(3));
}

#[test]
fn recipient_id_is_absent_for_other_domains_and_non_numbers() {
    let id = |header: &str| extract_recipient_id(&Some(header.to_string()), DOMAIN);
    assert_eq!(id("<7@other.org>"), None);
    assert_eq!(id("<7@EXAMPLE.COM>"), None);
    assert_eq!(id("<seven@example.com>"), None);
    assert_eq!(id("<@example.com>"), None);
    assert_eq!(id("<-7@example.com>"), None);
    assert_eq!(id("<2147483648@example.com>"), None);
    assert_eq!(id("<7.5@example.com>"), None);
    assert_eq!(id("7@example.com"), None);
    assert_eq!(id("<7 @example.com>"), None);
    assert_eq!(id(""), None);
    assert_eq!(extract_recipient_id(&None, DOMAIN), None);
}

#[test]
fn written_message_id_is_read_back() {
    for id in [0, 1, 42, 99, 100, 2147483647] {
        let header = format!("<{}@{}>", id, DOMAIN);
        assert_eq!(extract_recipient_id(&Some(header), DOMAIN), Some(id));
    }
}

#[test]
fn attachment_is_told_by_its_disposition() {
    let mut part = leaf("text/plain", "x");
    assert!(!is_attachment(&part));
    part.disposition = Some("ATTACHMENT; filename=\"a.txt\"".to_string());
    assert!(is_attachment(&part));
    part.disposition = Some("inline".to_string());
    assert!(!is_attachment(&part));
    part.disposition = Some(" attachment".to_string());
    assert!(!is_attachment(&part));
}

#[test]
fn first_body_is_found_depth_first_and_skips_attachments() {
    let mut attached = leaf("text/plain", "attached");
    attached.disposition = Some("attachment".to_string());
    let mut undecoded = leaf("text/plain", "");
    undecoded.body = None;
    let message = vec![
        multipart(4),
        attached,
        undecoded,
        multipart(2),
        leaf("text/html", "<p>inner html</p>"),
        leaf("TEXT/PLAIN", "inner plain"),
        leaf("text/plain", "outer plain"),
    ];
    assert_eq!(find_first_body(&message, "text/plain").as_deref(), Some("inner plain"));
    assert_eq!(find_first_body(&message, "text/html").as_deref(), Some("<p>inner html</p>"));
    assert_eq!(find_first_body(&message, "text/calendar"), None);
    assert_eq!(find_first_body(&message, "multipart/mixed"), None);
    assert_eq!(find_first_body(&vec![multipart(0)], "multipart/mixed").as_deref(), Some(""));
    assert_eq!(find_first_body(&Vec::new(), "text/plain"), None);
}

#[test]
fn reply_prefers_plain_text_and_falls_back_to_html() {
    let both = vec![multipart(2), leaf("text/html", "<p>from html</p>"), leaf("text/plain", "from plain")];
    assert_eq!(find_reply(&both).as_deref(), Some("from plain"));
    let empty_plain = vec![multipart(2), leaf("text/plain", " \n"), leaf("text/html", "<p>from html</p>")];
    assert_eq!(find_reply(&empty_plain).as_deref(), Some("from html"));
    assert_eq!(find_reply(&vec![multipart(1), leaf("text/plain", "")]), None);
    assert_eq!(find_reply(&vec![leaf("image/png", "x")]), None);
    assert_eq!(find_reply(&Vec::new()), None);
}

#[test]
fn bounce_is_searched_from_the_last_part_backwards() {
    let message = vec![
        multipart(2),
        leaf("text/plain", "delivery for <first@example.com> failed"),
        leaf("message/delivery-status", "Final-Recipient: rfc822; second@example.com"),
    ];
    assert_eq!(find_bounce_recipient(&message).as_deref(), Some("second@example.com"));
    let text_only = vec![
        multipart(2),
        leaf("text/plain", "delivery for <first@example.com> failed"),
        leaf("message/delivery-status", "Action: failed"),
    ];
    assert_eq!(find_bounce_recipient(&text_only).as_deref(), Some("first@example.com"));
    let html = vec![leaf("text/html", "<p>Recipient: html@example.com</p>")];
    assert_eq!(find_bounce_recipient(&html).as_deref(), Some("html@example.com"));
    assert_eq!(find_bounce_recipient(&vec![leaf("image/png", "a@example.com")]), None);
    assert_eq!(find_bounce_recipient(&Vec::new()), None);
}

#[test]
fn bounce_search_follows_the_nesting_of_the_parts() {
    let named = |address: &str| leaf("text/plain", &format!("Recipient: {}", address));
    let silent = || leaf("text/plain", "nothing here");
    let nested = |a: MimePart, b: MimePart, c: MimePart| vec![multipart(2), multipart(2), a, b, c];
    let found = |message: Vec<MimePart>| find_bounce_recipient(&message);
    assert_eq!(
        found(nested(named("a@example.com"), named("b@example.com"), named("c@example.com"))).as_deref(),
        Some("c@example.com")
    );
    assert_eq!(
        found(nested(named("a@example.com"), named("b@example.com"), silent())).as_deref(),
        Some("b@example.com")
    );
    assert_eq!(
        found(nested(named("a@example.com"), silent(), silent())).as_deref(),
        Some("a@example.com")
    );
    assert_eq!(found(nested(silent(), silent(), silent())), None);
    let mut own = nested(named("a@example.com"), silent(), silent());
    own[0] = MimePart {
        mimetype: "text/plain".to_string(),
        disposition: None,
        body: Some("Recipient: root@example.com".to_string()),
        children: 2,
    };
    assert_eq!(found(own).as_deref(), Some("root@example.com"));
    let short = vec![multipart(5), named("a@example.com"), named("b@example.com")];
    assert_eq!(found(short).as_deref(), Some("b@example.com"));
}

#[test]
fn html_text_keeps_the_words_of_escaped_text() {
    assert_eq!(strip_html_tags("a &lt;b&gt; &amp; c").trim(), "a <b> & c");
    assert_eq!(strip_html_tags("<p>one&nbsp;two</p>").trim(), "one two");
    assert_eq!(strip_html_tags("plain words").trim(), "plain words");
}

#[test]
fn bounce_notification_unsubscribes_the_bounced_address() {
    let raw = "Subject: Undelivered Mail Returned to Sender\r\nFrom: MAILER-DAEMON@mx.example.org\r\nContent-Type: multipart/report; report-type=delivery-status; boundary=\"B\"\r\n\r\n--B\r\nContent-Type: text/plain\r\n\r\nThis is the mail system.\r\n--B\r\nContent-Type: message/delivery-status\r\n\r\nReporting-MTA: dns; mx.example.org\r\n\r\nFinal-Recipient: rfc822; bounced@example.com\r\nAction: failed\r\n--B--\r\n";
    match classify(&parse(raw), 6) {
        Disposition::Unsubscribe { request } => {
            assert_eq!(request.hub_id, 6);
            assert_eq!(request.email, "bounced@example.com");
            assert_eq!(request.reason.as_deref(), Some("Undelivered Mail Returned to Sender"));
        }
        other => panic!("unexpected disposition {:?}", other),
    }
}
