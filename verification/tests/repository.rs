use hedwig::domain::{Hub, NewEmail, NewEmailRecipient, TemplateField, UpdateEmailRecipient};
use hedwig::errors::Error;
use hedwig::repository::MemoryRepository;

fn insert_hub(repo: &mut MemoryRepository) {
    repo.add_hub(Hub {
        id: 1,
        login: Some("sender@example.com".to_string()),
        password: Some("pass".to_string()),
        sender: Some("sender@example.com".to_string()),
        smtp_server: None,
        smtp_port: None,
        imap_server: None,
        imap_port: None,
        email_template: Some("Hi {name}! {message}".to_string()),
        imap_last_uid: 0,
    });
}

fn new_email(hub_id: i32, addresses: &[&str]) -> NewEmail {
    NewEmail {
        message: "Hello".into(),
        subject: Some("Subject".into()),
        attachment: None,
        attachment_name: None,
        attachment_mime: None,
        hub_id,
        recipients: addresses
            .iter()
            .map(|address| NewEmailRecipient {
                address: address.to_string(),
                name: "Alice".into(),
                fields: Vec::new(),
            })
            .collect(),
    }
}

fn create_email(repo: &mut MemoryRepository) -> (i32, i32) {
    let stored = repo.create_email(new_email(1, &["to@example.com"])).unwrap();
    (stored.email_id, stored.recipient_ids[0])
}

#[test]
fn create_and_get_email() {
    let mut repo = MemoryRepository::new();
    insert_hub(&mut repo);
    let (email_id, recipient_id) = create_email(&mut repo);

    let fetched = repo.get_email_by_id(email_id, 1).unwrap();
    assert_eq!(fetched.recipients.len(), 1);
    assert_eq!(fetched.recipients[0].id, recipient_id);
}

#[test]
fn list_and_get_recipient() {
    let mut repo = MemoryRepository::new();
    insert_hub(&mut repo);
    let (email_id, recipient_id) = create_email(&mut repo);

    let list = repo.list_not_replied_email_recipients(1);
    assert_eq!(list.len(), 1);
    let rec = repo.get_email_recipient_by_id(recipient_id, 1).unwrap();
    assert_eq!(rec.email_id, email_id);
}

#[test]
fn update_recipient_updates_stats() {
    let mut repo = MemoryRepository::new();
    insert_hub(&mut repo);
    let (email_id, recipient_id) = create_email(&mut repo);

    repo.update_recipient(
        recipient_id,
        &UpdateEmailRecipient {
            is_sent: Some(true),
            opened: Some(true),
            replied: Some(true),
            reply: Some("Thanks".into()),
        },
    )
    .unwrap();

    let updated = repo.get_email_by_id(email_id, 1).unwrap();
    let rec = &updated.recipients[0];
    assert!(rec.is_sent && rec.opened && rec.replied);
    assert_eq!(rec.reply.as_deref(), Some("Thanks"));
    assert_eq!(updated.email.num_sent, 1);
    assert_eq!(updated.email.num_opened, 1);
    assert_eq!(updated.email.num_replied, 1);
}

#[test]
fn hub_queries() {
    let mut repo = MemoryRepository::new();
    insert_hub(&mut repo);

    let hub = repo.get_hub_by_id(1).unwrap();
    assert_eq!(hub.id, 1);
    let hubs = repo.list_hubs();
    assert_eq!(hubs.len(), 1);
}

#[test]
fn new_email_is_stored_with_fresh_ids_and_no_flags() {
    let mut repo = MemoryRepository::new();
    let mut email = new_email(4, &["a@example.com", "b@example.com"]);
    email.recipients[1].fields = vec![TemplateField { key: "k".into(), value: "v".into() }];
    let first = repo.create_email(email).unwrap();
    assert_eq!(first.email_id, 1);
    assert_eq!(first.recipient_ids, vec![1, 2]);
    let second = repo.create_email(new_email(4, &["c@example.com"])).unwrap();
    assert_eq!(second.email_id, 2);
    assert_eq!(second.recipient_ids, vec![3]);
    let empty = repo.create_email(new_email(5, &[])).unwrap();
    assert_eq!((empty.email_id, empty.recipient_ids.len()), (3, 0));

    let stored = repo.get_email_by_id(1, 4).unwrap();
    assert_eq!(stored.email.message, "Hello");
    assert_eq!(stored.email.subject.as_deref(), Some("Subject"));
    assert_eq!((stored.email.num_sent, stored.email.num_opened, stored.email.num_replied), (0, 0, 0));
    assert_eq!(stored.recipients[1].address, "b@example.com");
    assert_eq!(stored.recipients[1].fields[0].value, "v");
    for recipient in &stored.recipients {
        assert_eq!(recipient.email_id, 1);
        assert!(!recipient.is_sent && !recipient.opened && !recipient.replied);
        assert_eq!(recipient.reply, None);
    }
    assert!(repo.get_email_by_id(1, 5).is_none());
    assert!(repo.get_email_by_id(9, 4).is_none());
}

#[test]
fn ids_run_out_without_a_change() {
    let mut repo = MemoryRepository::new();
    repo.next_email_id = i32::MAX;
    match repo.create_email(new_email(1, &[])) {
        Err(Error::Repository(_)) => {}
        other => panic!("unexpected result {:?}", other),
    }
    assert!(repo.emails.is_empty());
    repo.next_email_id = 1;
    repo.next_recipient_id = i32::MAX;
    assert!(repo.create_email(new_email(1, &["a@example.com"])).is_err());
    assert_eq!(repo.create_email(new_email(1, &[])).unwrap().email_id, 1);
}

#[test]
fn update_of_unknown_recipient_fails() {
    let mut repo = MemoryRepository::new();
    create_email(&mut repo);
    match repo.update_recipient(99, &UpdateEmailRecipient::sent()) {
        Err(Error::Repository(words)) => assert_eq!(words, "Record not found"),
        other => panic!("unexpected result {:?}", other),
    }
    assert!(!repo.emails[0].recipients[0].is_sent);
}

#[test]
fn counters_follow_every_update() {
    let mut repo = MemoryRepository::new();
    let created = repo
        .create_email(new_email(1, &["a@example.com", "b@example.com", "c@example.com"]))
        .unwrap();
    let other = repo.create_email(new_email(1, &["d@example.com"])).unwrap();
    assert_eq!(repo.update_recipient(created.recipient_ids[0], &UpdateEmailRecipient::sent()).unwrap(), 1);
    assert_eq!(repo.update_recipient(created.recipient_ids[2], &UpdateEmailRecipient::sent()).unwrap(), 1);
    repo.update_recipient(created.recipient_ids[2], &UpdateEmailRecipient::replied(None)).unwrap();
    let email = &repo.get_email_by_id(created.email_id, 1).unwrap().email;
    assert_eq!((email.num_sent, email.num_opened, email.num_replied), (2, 1, 1));
    let untouched = &repo.get_email_by_id(other.email_id, 1).unwrap().email;
    assert_eq!((untouched.num_sent, untouched.num_opened, untouched.num_replied), (0, 0, 0));
    for stored in &repo.emails {
        for recipient in &stored.recipients {
            assert!(!recipient.replied || (recipient.is_sent && recipient.opened));
        }
    }
}

#[test]
fn recipients_are_scoped_to_their_hub() {
    let mut repo = MemoryRepository::new();
    let one = repo.create_email(new_email(1, &["a@example.com", "b@example.com"])).unwrap();
    let two = repo.create_email(new_email(2, &["c@example.com"])).unwrap();
    assert!(repo.get_email_recipient_by_id(one.recipient_ids[1], 1).is_some());
    assert!(repo.get_email_recipient_by_id(one.recipient_ids[1], 2).is_none());
    assert_eq!(repo.get_email_recipient_by_id(two.recipient_ids[0], 2).unwrap().address, "c@example.com");
    assert!(repo.get_email_recipient_by_id(77, 1).is_none());

    repo.update_recipient(one.recipient_ids[0], &UpdateEmailRecipient::replied(Some("ok".into()))).unwrap();
    let silent: Vec<&str> = repo
        .list_not_replied_email_recipients(1)
        .iter()
        .map(|r| r.address.as_str())
        .collect();
    assert_eq!(silent, vec!["b@example.com"]);
    assert_eq!(repo.list_not_replied_email_recipients(2).len(), 1);
    assert!(repo.list_not_replied_email_recipients(3).is_empty());
}

#[test]
fn unsubscribe_is_recorded_once_per_address_and_hub() {
    let mut repo = MemoryRepository::new();
    repo.unsubscribe_recipient("a@example.com", 1, Some("unsubscribe"));
    repo.unsubscribe_recipient("a@example.com", 1, Some("again"));
    repo.unsubscribe_recipient("a@example.com", 2, None);
    repo.unsubscribe_recipient("b@example.com", 1, None);
    repo.unsubscribe_recipient("a@example.com", 2, Some("late"));
    let on_record: Vec<(&str, i32, Option<&str>)> = repo
        .unsubscribes
        .iter()
        .map(|u| (u.email.as_str(), u.hub_id, u.reason.as_deref()))
        .collect();
    assert_eq!(
        on_record,
        vec![
            ("a@example.com", 1, Some("unsubscribe")),
            ("a@example.com", 2, None),
            ("b@example.com", 1, None)
        ]
    );
}

#[test]
fn watermark_is_stored_for_the_hub() {
    let mut repo = MemoryRepository::new();
    insert_hub(&mut repo);
    let mut other = Hub {
        id: 2,
        login: None,
        password: None,
        sender: None,
        smtp_server: None,
        smtp_port: None,
        imap_server: None,
        imap_port: None,
        email_template: None,
        imap_last_uid: 7,
    };
    other.imap_last_uid = 7;
    repo.add_hub(other);
    repo.set_imap_last_uid(1, 42);
    assert_eq!(repo.get_hub_by_id(1).unwrap().imap_last_uid, 42);
    assert_eq!(repo.get_hub_by_id(1).unwrap().login.as_deref(), Some("sender@example.com"));
    assert_eq!(repo.get_hub_by_id(2).unwrap().imap_last_uid, 7);
    assert!(repo.get_hub_by_id(3).is_none());
}
