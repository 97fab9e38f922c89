//! The store of hubs, e-mails, recipients and unsubscribes, kept in memory.
//!
//! Every write leaves the counters of an e-mail equal to the number of its
//! recipients with the flag, and keeps each unsubscribed address on record
//! once per hub.

use vstd::prelude::*;
use crate::domain::{
    optional_text,
    tally,
    Email,
    EmailRecipient,
    EmailWithRecipients,
    Flag,
    Hub,
    NewEmail,
    NewEmailRecipient,
    Unsubscribe,
    UpdateEmailRecipient,
};
use crate::errors::Error;
use crate::text::{chars_equal, to_chars};

verus! {

/// The store.
#[derive(Debug)]
pub struct MemoryRepository {
    pub hubs: Vec<Hub>,
    /// The e-mails in the order of their creation, each with its recipients.
    pub emails: Vec<EmailWithRecipients>,
    pub unsubscribes: Vec<Unsubscribe>,
    /// The id that the next e-mail gets.
    pub next_email_id: i32,
    /// The id that the next recipient gets.
    pub next_recipient_id: i32,
}

/// What a stored e-mail was given: its id and the ids of its recipients,
/// in their order.
#[derive(Debug)]
pub struct CreatedEmail {
    pub email_id: i32,
    pub recipient_ids: Vec<i32>,
}

/// Index of the first hub from `from` on with the id `id`, or the number
/// of hubs.
pub open spec fn hub_index(hubs: Seq<Hub>, id: i32, from: int) -> int
    decreases hubs.len() - from,
{
    if 0 <= from < hubs.len() && hubs[from].id != id {
        hub_index(hubs, id, from + 1)
    } else {
        from
    }
}

/// Index of the first recipient from `from` on with the id `id`, or the
/// number of recipients.
pub open spec fn recipient_index(recipients: Seq<EmailRecipient>, id: i32, from: int) -> int
    decreases recipients.len() - from,
{
    if 0 <= from < recipients.len() && recipients[from].id != id {
        recipient_index(recipients, id, from + 1)
    } else {
        from
    }
}

/// The e-mail has a recipient with the id `id`.
pub open spec fn holds_recipient(email: EmailWithRecipients, id: i32) -> bool {
    recipient_index(email.recipients@, id, 0) < email.recipients@.len()
}

/// Index of the first e-mail from `from` on that is the e-mail `id` of hub
/// `hub_id`, or the number of e-mails.
pub open spec fn email_index(emails: Seq<EmailWithRecipients>, id: i32, hub_id: i32, from: int) -> int
    decreases emails.len() - from,
{
    if 0 <= from < emails.len() && !(emails[from].email.id == id && emails[from].email.hub_id
        == hub_id) {
        email_index(emails, id, hub_id, from + 1)
    } else {
        from
    }
}

/// Index of the first e-mail from `from` on that has a recipient with the
/// id `id`, or the number of e-mails.
pub open spec fn holder_index(emails: Seq<EmailWithRecipients>, id: i32, from: int) -> int
    decreases emails.len() - from,
{
    if 0 <= from < emails.len() && !holds_recipient(emails[from], id) {
        holder_index(emails, id, from + 1)
    } else {
        from
    }
}

/// Index of the first e-mail of hub `hub_id` from `from` on that has a
/// recipient with the id `id`, or the number of e-mails.
pub open spec fn hub_holder_index(
    emails: Seq<EmailWithRecipients>,
    id: i32,
    hub_id: i32,
    from: int,
) -> int
    decreases emails.len() - from,
{
    if 0 <= from < emails.len() && !(emails[from].email.hub_id == hub_id && holds_recipient(
        emails[from],
        id,
    )) {
        hub_holder_index(emails, id, hub_id, from + 1)
    } else {
        from
    }
}

/// The recipients among `recipients` before index `n` that have not
/// replied, in their order.
pub open spec fn silent(recipients: Seq<EmailRecipient>, n: int) -> Seq<EmailRecipient>
    decreases n,
{
    if 0 < n <= recipients.len() {
        if recipients[n - 1].replied {
            silent(recipients, n - 1)
        } else {
            silent(recipients, n - 1).push(recipients[n - 1])
        }
    } else {
        Seq::empty()
    }
}

/// The recipients of the e-mails of hub `hub_id` before index `n` that
/// have not replied, in the order of the e-mails and of their recipients.
pub open spec fn silent_in_hub(emails: Seq<EmailWithRecipients>, hub_id: i32, n: int) -> Seq<
    EmailRecipient,
>
    decreases n,
{
    if 0 < n <= emails.len() {
        let email = emails[n - 1];
        if email.email.hub_id == hub_id {
            silent_in_hub(emails, hub_id, n - 1) + silent(
                email.recipients@,
                email.recipients@.len() as int,
            )
        } else {
            silent_in_hub(emails, hub_id, n - 1)
        }
    } else {
        Seq::empty()
    }
}

/// The address is on record for the hub.
pub open spec fn is_unsubscribed(list: Seq<Unsubscribe>, email: Seq<char>, hub_id: i32) -> bool {
    exists|i: int| 0 <= i < list.len() && (#[trigger] list[i]).email@ == email && list[i].hub_id == hub_id
}

/// No address is on record twice for one hub.
pub open spec fn unique_unsubscribes(list: Seq<Unsubscribe>) -> bool {
    forall|i: int, j: int|
        0 <= i < j < list.len() ==> !((#[trigger] list[i]).email@ == (#[trigger] list[j]).email@
            && list[i].hub_id == list[j].hub_id)
}

/// The counters of the e-mail agree with its recipients, all of which
/// belong to it.
pub open spec fn counted(email: EmailWithRecipients) -> bool {
    &&& email.email.counts(email.recipients@)
    &&& email.recipients@.len() <= i32::MAX
    &&& forall|j: int|
        0 <= j < email.recipients@.len() ==> (#[trigger] email.recipients@[j]).email_id
            == email.email.id
}

/// The recipient as it is first stored.
pub open spec fn created_recipient(id: i32, email_id: i32, item: NewEmailRecipient) -> EmailRecipient {
    EmailRecipient {
        id,
        email_id,
        address: item.address,
        name: item.name,
        fields: item.fields,
        is_sent: false,
        opened: false,
        replied: false,
        reply: None,
    }
}

/// `stored` is `email` as it is first stored, under the id `email_id` and
/// with its recipients numbered from `first_recipient_id` on.
pub open spec fn is_created(
    stored: EmailWithRecipients,
    email: NewEmail,
    email_id: i32,
    first_recipient_id: i32,
) -> bool {
    &&& stored.email == (Email {
        id: email_id,
        hub_id: email.hub_id,
        message: email.message,
        subject: email.subject,
        attachment: email.attachment,
        attachment_name: email.attachment_name,
        attachment_mime: email.attachment_mime,
        num_sent: 0,
        num_opened: 0,
        num_replied: 0,
    })
    &&& stored.recipients@.len() == email.recipients@.len()
    &&& forall|j: int|
        0 <= j < email.recipients@.len() ==> #[trigger] stored.recipients@[j] == created_recipient(
            (first_recipient_id + j) as i32,
            email_id,
            email.recipients@[j],
        )
}

/// `after` is `before` with the recipient at index `at` updated and the
/// counters set anew.
pub open spec fn is_updated(
    after: EmailWithRecipients,
    before: EmailWithRecipients,
    at: int,
    updates: UpdateEmailRecipient,
) -> bool {
    &&& after.recipients@ == before.recipients@.update(at, before.recipients@[at].updated(updates))
    &&& after.email.counts(after.recipients@)
    &&& after.email == (Email {
        num_sent: after.email.num_sent,
        num_opened: after.email.num_opened,
        num_replied: after.email.num_replied,
        ..before.email
    })
}

/// Recipients without flags are not counted.
proof fn lemma_tally_of_new(recipients: Seq<EmailRecipient>, email_id: i32, flag: Flag)
    requires
        forall|j: int|
            0 <= j < recipients.len() ==> !(#[trigger] recipients[j]).is_sent && !recipients[j].opened
                && !recipients[j].replied,
    ensures
        tally(recipients, email_id, flag) == 0,
    decreases recipients.len(),
{
    if recipients.len() > 0 {
        let init = recipients.drop_last();
        assert forall|j: int| 0 <= j < init.len() implies !(#[trigger] init[j]).is_sent
            && !init[j].opened && !init[j].replied by {
            assert(init[j] == recipients[j]);
        }
        lemma_tally_of_new(init, email_id, flag);
        assert(!recipients.last().flag(flag));
    }
}

/// The id of the e-mail at index `i`.
pub open spec fn email_id_at(emails: Seq<EmailWithRecipients>, i: int) -> int {
    emails[i].email.id as int
}

/// The id of recipient `j` of the e-mail at index `i`.
pub open spec fn recipient_id_at(emails: Seq<EmailWithRecipients>, i: int, j: int) -> int {
    emails[i].recipients@[j].id as int
}

/// `j` is the index of a recipient of the e-mail at index `i`.
pub open spec fn is_place(emails: Seq<EmailWithRecipients>, i: int, j: int) -> bool {
    0 <= i < emails.len() && 0 <= j < emails[i].recipients@.len()
}

/// The ids of the stored e-mails and of their recipients lie below the ids
/// that are given next, and rise in the order of storing: no e-mail and no
/// recipient has the id of another.
pub open spec fn ids_ascend(
    emails: Seq<EmailWithRecipients>,
    next_email_id: i32,
    next_recipient_id: i32,
) -> bool {
    &&& forall|i: int| 0 <= i < emails.len() ==> #[trigger] email_id_at(emails, i) < next_email_id
    &&& forall|i: int, k: int|
        0 <= i < k < emails.len() ==> #[trigger] email_id_at(emails, i) < #[trigger] email_id_at(
            emails,
            k,
        )
    &&& forall|i: int, j: int|
        is_place(emails, i, j) ==> #[trigger] recipient_id_at(emails, i, j) < next_recipient_id
    &&& forall|i: int, j: int, k: int, l: int|
        is_place(emails, i, j) && is_place(emails, k, l) && (i < k || (i == k && j < l))
            ==> #[trigger] recipient_id_at(emails, i, j) < #[trigger] recipient_id_at(emails, k, l)
}

/// Where ids rise, an id names one e-mail and one recipient at most.
pub proof fn lemma_ids_are_unique(
    emails: Seq<EmailWithRecipients>,
    next_email_id: i32,
    next_recipient_id: i32,
)
    requires
        ids_ascend(emails, next_email_id, next_recipient_id),
    ensures
        forall|i: int, k: int|
            0 <= i < emails.len() && 0 <= k < emails.len() && #[trigger] email_id_at(emails, i)
                == #[trigger] email_id_at(emails, k) ==> i == k,
        forall|i: int, j: int, k: int, l: int|
            is_place(emails, i, j) && is_place(emails, k, l) && #[trigger] recipient_id_at(
                emails,
                i,
                j,
            ) == #[trigger] recipient_id_at(emails, k, l) ==> i == k && j == l,
{
    assert forall|i: int, k: int|
        0 <= i < emails.len() && 0 <= k < emails.len() && #[trigger] email_id_at(emails, i)
            == #[trigger] email_id_at(emails, k) implies i == k by {
        if i < k {
            assert(email_id_at(emails, i) < email_id_at(emails, k));
        } else if k < i {
            assert(email_id_at(emails, k) < email_id_at(emails, i));
        }
    }
    assert forall|i: int, j: int, k: int, l: int|
        is_place(emails, i, j) && is_place(emails, k, l) && #[trigger] recipient_id_at(emails, i, j)
            == #[trigger] recipient_id_at(emails, k, l) implies i == k && j == l by {
        if i < k || (i == k && j < l) {
            assert(recipient_id_at(emails, i, j) < recipient_id_at(emails, k, l));
        } else if k < i || (i == k && l < j) {
            assert(recipient_id_at(emails, k, l) < recipient_id_at(emails, i, j));
        }
    }
}

impl MemoryRepository {
    /// The counters of every e-mail agree with its recipients, no address
    /// is on record twice for one hub, and ids are given from 1 on, each
    /// once: every stored id lies below the next one to give.
    pub open spec fn well_formed(self) -> bool {
        &&& forall|i: int| 0 <= i < self.emails@.len() ==> counted(#[trigger] self.emails@[i])
        &&& unique_unsubscribes(self.unsubscribes@)
        &&& self.next_email_id >= 1
        &&& self.next_recipient_id >= 1
        &&& ids_ascend(self.emails@, self.next_email_id, self.next_recipient_id)
    }

    /// A reply implies delivery and opening, for every recipient.
    pub open spec fn all_consistent(self) -> bool {
        forall|i: int, j: int|
            0 <= i < self.emails@.len() && 0 <= j < self.emails@[i].recipients@.len() ==> (
            #[trigger] self.emails@[i].recipients@[j]).consistent()
    }

    /// The empty store; ids are given from 1 on.
    pub fn new() -> (repo: MemoryRepository)
        ensures
            repo.hubs@.len() == 0,
            repo.emails@.len() == 0,
            repo.unsubscribes@.len() == 0,
            repo.next_email_id == 1,
            repo.next_recipient_id == 1,
            repo.well_formed(),
            repo.all_consistent(),
    {
        MemoryRepository {
            hubs: Vec::new(),
            emails: Vec::new(),
            unsubscribes: Vec::new(),
            next_email_id: 1,
            next_recipient_id: 1,
        }
    }

    /// Adds a hub to the store.
    pub fn add_hub(&mut self, hub: Hub)
        ensures
            *final(self) == (MemoryRepository { hubs: final(self).hubs, ..*old(self) }),
            final(self).hubs@ == old(self).hubs@.push(hub),
    {
        self.hubs.push(hub);
    }

    /// All hubs.
    pub fn list_hubs(&self) -> (hubs: &Vec<Hub>)
        ensures
            *hubs == self.hubs,
    {
        &self.hubs
    }

    /// The hub with the id `id`.
    pub fn get_hub_by_id(&self, id: i32) -> (hub: Option<&Hub>)
        ensures
            match hub {
                Some(h) => hub_index(self.hubs@, id, 0) < self.hubs@.len() && *h == self.hubs@[hub_index(
                    self.hubs@,
                    id,
                    0,
                )],
                None => hub_index(self.hubs@, id, 0) >= self.hubs@.len(),
            },
    {
        let mut i: usize = 0;
        while i < self.hubs.len() && self.hubs[i].id != id
            invariant
                i <= self.hubs.len(),
                hub_index(self.hubs@, id, i as int) == hub_index(self.hubs@, id, 0),
            decreases self.hubs.len() - i,
        {
            i += 1;
        }
        if i < self.hubs.len() {
            Some(&self.hubs[i])
        } else {
            None
        }
    }

    /// Stores `uid` as the watermark of every hub with the id `hub_id`.
    pub fn set_imap_last_uid(&mut self, hub_id: i32, uid: i32)
        ensures
            *final(self) == (MemoryRepository { hubs: final(self).hubs, ..*old(self) }),
            final(self).hubs@.len() == old(self).hubs@.len(),
            forall|i: int|
                0 <= i < old(self).hubs@.len() ==> #[trigger] final(self).hubs@[i] == if old(self).hubs@[i].id == hub_id {
                    Hub { imap_last_uid: uid, ..old(self).hubs@[i] }
                } else {
                    old(self).hubs@[i]
                },
    {
        let mut i: usize = 0;
        while i < self.hubs.len()
            invariant
                i <= self.hubs.len(),
                *self == (MemoryRepository { hubs: self.hubs, ..*old(self) }),
                self.hubs@.len() == old(self).hubs@.len(),
                forall|k: int|
                    0 <= k < i ==> #[trigger] self.hubs@[k] == if old(self).hubs@[k].id == hub_id {
                        Hub { imap_last_uid: uid, ..old(self).hubs@[k] }
                    } else {
                        old(self).hubs@[k]
                    },
                forall|k: int| i <= k < self.hubs@.len() ==> self.hubs@[k] == old(self).hubs@[k],
            decreases self.hubs.len() - i,
        {
            if self.hubs[i].id == hub_id {
                self.hubs[i].imap_last_uid = uid;
            }
            i += 1;
        }
    }

    /// The e-mail `id` of hub `hub_id`, with its recipients.
    pub fn get_email_by_id(&self, id: i32, hub_id: i32) -> (email: Option<&EmailWithRecipients>)
        ensures
            match email {
                Some(e) => email_index(self.emails@, id, hub_id, 0) < self.emails@.len() && *e
                    == self.emails@[email_index(self.emails@, id, hub_id, 0)],
                None => email_index(self.emails@, id, hub_id, 0) >= self.emails@.len(),
            },
    {
        let mut i: usize = 0;
        while i < self.emails.len() && !(self.emails[i].email.id == id && self.emails[i].email.hub_id
            == hub_id)
            invariant
                i <= self.emails.len(),
                email_index(self.emails@, id, hub_id, i as int) == email_index(
                    self.emails@,
                    id,
                    hub_id,
                    0,
                ),
            decreases self.emails.len() - i,
        {
            i += 1;
        }
        if i < self.emails.len() {
            Some(&self.emails[i])
        } else {
            None
        }
    }

    /// The recipient `id`, if an e-mail of hub `hub_id` has it.
    pub fn get_email_recipient_by_id(&self, id: i32, hub_id: i32) -> (recipient: Option<
        &EmailRecipient,
    >)
        ensures
            match recipient {
                Some(r) => {
                    let at = hub_holder_index(self.emails@, id, hub_id, 0);
                    &&& at < self.emails@.len()
                    &&& *r == self.emails@[at].recipients@[recipient_index(
                        self.emails@[at].recipients@,
                        id,
                        0,
                    )]
                    &&& r.id == id
                },
                None => hub_holder_index(self.emails@, id, hub_id, 0) >= self.emails@.len(),
            },
    {
        let mut i: usize = 0;
        while i < self.emails.len()
            invariant
                i <= self.emails.len(),
                hub_holder_index(self.emails@, id, hub_id, i as int) == hub_holder_index(
                    self.emails@,
                    id,
                    hub_id,
                    0,
                ),
            decreases self.emails.len() - i,
        {
            if self.emails[i].email.hub_id == hub_id {
                let at = find_recipient(&self.emails[i].recipients, id);
                if at < self.emails[i].recipients.len() {
                    return Some(&self.emails[i].recipients[at]);
                }
            }
            i += 1;
        }
        None
    }

    /// The recipients of hub `hub_id` that have not replied.
    pub fn list_not_replied_email_recipients(&self, hub_id: i32) -> (list: Vec<&EmailRecipient>)
        ensures
            list@.len() == silent_in_hub(self.emails@, hub_id, self.emails@.len() as int).len(),
            forall|k: int|
                0 <= k < list@.len() ==> *(#[trigger] list@[k]) == silent_in_hub(
                    self.emails@,
                    hub_id,
                    self.emails@.len() as int,
                )[k],
    {
        let mut list: Vec<&EmailRecipient> = Vec::new();
        let mut i: usize = 0;
        while i < self.emails.len()
            invariant
                i <= self.emails.len(),
                list@.len() == silent_in_hub(self.emails@, hub_id, i as int).len(),
                forall|k: int|
                    0 <= k < list@.len() ==> *(#[trigger] list@[k]) == silent_in_hub(
                        self.emails@,
                        hub_id,
                        i as int,
                    )[k],
            decreases self.emails.len() - i,
        {
            if self.emails[i].email.hub_id == hub_id {
                let recipients = &self.emails[i].recipients;
                let ghost before = silent_in_hub(self.emails@, hub_id, i as int);
                let mut j: usize = 0;
                while j < recipients.len()
                    invariant
                        j <= recipients.len(),
                        i < self.emails.len(),
                        *recipients == self.emails@[i as int].recipients,
                        before == silent_in_hub(self.emails@, hub_id, i as int),
                        list@.len() == (before + silent(recipients@, j as int)).len(),
                        forall|k: int|
                            0 <= k < list@.len() ==> *(#[trigger] list@[k]) == (before + silent(
                                recipients@,
                                j as int,
                            ))[k],
                    decreases recipients.len() - j,
                {
                    if !recipients[j].replied {
                        list.push(&recipients[j]);
                    }
                    j += 1;
                }
            }
            i += 1;
        }
        list
    }

    /// Stores a new e-mail with its recipients, none of them sent, opened
    /// or replied, and says which ids they were given.
    ///
    /// Fails, and stores nothing, when the ids are used up.
    pub fn create_email(&mut self, email: NewEmail) -> (r: Result<CreatedEmail, Error>)
        requires
            old(self).well_formed(),
        ensures
            final(self).well_formed(),
            old(self).all_consistent() ==> final(self).all_consistent(),
            final(self).hubs == old(self).hubs,
            final(self).unsubscribes == old(self).unsubscribes,
            r is Ok <==> old(self).next_email_id < i32::MAX && old(self).next_recipient_id
                + email.recipients@.len() <= i32::MAX,
            match r {
                Ok(created) => {
                    &&& final(self).emails@.len() == old(self).emails@.len() + 1
                    &&& final(self).emails@.drop_last() == old(self).emails@
                    &&& is_created(
                        final(self).emails@.last(),
                        email,
                        old(self).next_email_id,
                        old(self).next_recipient_id,
                    )
                    &&& final(self).next_email_id == old(self).next_email_id + 1
                    &&& final(self).next_recipient_id == old(self).next_recipient_id
                        + email.recipients@.len()
                    &&& created.email_id == old(self).next_email_id
                    &&& created.recipient_ids@.len() == email.recipients@.len()
                    &&& forall|j: int|
                        0 <= j < email.recipients@.len() ==> #[trigger] created.recipient_ids@[j]
                            == old(self).next_recipient_id + j
                },
                Err(e) => *final(self) == *old(self) && e is Repository,
            },
    {
        let count = email.recipients.len();
        if self.next_email_id == i32::MAX || count > 0x7fff_ffff || count > (0x7fff_ffff
            - self.next_recipient_id) as usize {
            return Err(Error::Repository("no ids left".to_owned()));
        }
        let email_id: i32 = self.next_email_id;
        let first_id: i32 = self.next_recipient_id;
        let mut recipients: Vec<EmailRecipient> = Vec::new();
        let mut recipient_ids: Vec<i32> = Vec::new();
        let ghost items = email.recipients@;
        for item in it: email.recipients
            invariant
                it.seq() == items,
                items.len() == count,
                first_id >= 1,
                first_id + count <= i32::MAX,
                recipients@.len() == it.index(),
                recipient_ids@.len() == it.index(),
                forall|j: int|
                    0 <= j < it.index() ==> #[trigger] recipients@[j] == created_recipient(
                        (first_id + j) as i32,
                        email_id,
                        items[j],
                    ),
                forall|j: int| 0 <= j < it.index() ==> #[trigger] recipient_ids@[j] == first_id + j,
        {
            let id: i32 = first_id + recipients.len() as i32;
            recipients.push(EmailRecipient::create(id, email_id, item));
            recipient_ids.push(id);
        }
        let stored = EmailWithRecipients {
            email: Email {
                id: email_id,
                hub_id: email.hub_id,
                message: email.message,
                subject: email.subject,
                attachment: email.attachment,
                attachment_name: email.attachment_name,
                attachment_mime: email.attachment_mime,
                num_sent: 0,
                num_opened: 0,
                num_replied: 0,
            },
            recipients,
        };
        proof {
            lemma_tally_of_new(stored.recipients@, email_id, Flag::Sent);
            lemma_tally_of_new(stored.recipients@, email_id, Flag::Opened);
            lemma_tally_of_new(stored.recipients@, email_id, Flag::Replied);
            assert(counted(stored));
        }
        self.emails.push(stored);
        self.next_email_id = email_id + 1;
        self.next_recipient_id = first_id + count as i32;
        proof {
            assert(final(self).emails@.drop_last() == old(self).emails@);
            assert forall|i: int| 0 <= i < self.emails@.len() implies counted(
                #[trigger] self.emails@[i],
            ) by {
                if i < old(self).emails@.len() {
                    assert(self.emails@[i] == old(self).emails@[i]);
                }
            }
            if old(self).all_consistent() {
                assert forall|i: int, j: int|
                    0 <= i < self.emails@.len() && 0 <= j < self.emails@[i].recipients@.len() implies (
                #[trigger] self.emails@[i].recipients@[j]).consistent() by {
                    if i < old(self).emails@.len() {
                        assert(self.emails@[i] == old(self).emails@[i]);
                    }
                }
            }
            let before = old(self).emails@;
            let after = self.emails@;
            let last = before.len() as int;
            assert forall|i: int| 0 <= i < after.len() implies #[trigger] email_id_at(after, i)
                < self.next_email_id by {
                if i < last {
                    assert(after[i] == before[i]);
                    assert(email_id_at(before, i) < old(self).next_email_id);
                }
            }
            assert forall|i: int, k: int| 0 <= i < k < after.len() implies #[trigger] email_id_at(
                after,
                i,
            ) < #[trigger] email_id_at(after, k) by {
                assert(after[i] == before[i]);
                assert(email_id_at(before, i) < old(self).next_email_id);
                if k < last {
                    assert(after[k] == before[k]);
                    assert(email_id_at(before, i) < email_id_at(before, k));
                }
            }
            assert forall|i: int, j: int| is_place(after, i, j) implies #[trigger] recipient_id_at(
                after,
                i,
                j,
            ) < self.next_recipient_id by {
                if i < last {
                    assert(after[i] == before[i]);
                    assert(is_place(before, i, j));
                    assert(recipient_id_at(before, i, j) < old(self).next_recipient_id);
                } else {
                    assert(after[i].recipients@[j].id == first_id + j);
                }
            }
            assert forall|i: int, j: int, k: int, l: int|
                is_place(after, i, j) && is_place(after, k, l) && (i < k || (i == k && j
                    < l)) implies #[trigger] recipient_id_at(after, i, j) < #[trigger] recipient_id_at(
                after,
                k,
                l,
            ) by {
                if k < last {
                    assert(after[i] == before[i]);
                    assert(after[k] == before[k]);
                    assert(is_place(before, i, j) && is_place(before, k, l));
                    assert(recipient_id_at(before, i, j) < recipient_id_at(before, k, l));
                } else {
                    assert(after[k].recipients@[l].id == first_id + l);
                    if i < last {
                        assert(after[i] == before[i]);
                        assert(is_place(before, i, j));
                        assert(recipient_id_at(before, i, j) < old(self).next_recipient_id);
                    } else {
                        assert(after[i].recipients@[j].id == first_id + j);
                    }
                }
            }
        }
        Ok(CreatedEmail { email_id, recipient_ids })
    }

    /// Overwrites the fields of recipient `recipient_id` that `updates`
    /// provides, and sets the counters of its e-mail anew. Returns the id of
    /// that e-mail.
    ///
    /// Fails, and changes nothing, when no e-mail has such a recipient.
    pub fn update_recipient(&mut self, recipient_id: i32, updates: &UpdateEmailRecipient) -> (r:
        Result<i32, Error>)
        requires
            old(self).well_formed(),
        ensures
            final(self).well_formed(),
            old(self).all_consistent() && updates.keeps_consistency() ==> final(self).all_consistent(),
            *final(self) == (MemoryRepository { emails: final(self).emails, ..*old(self) }),
            r is Ok <==> holder_index(old(self).emails@, recipient_id, 0) < old(self).emails@.len(),
            match r {
                Ok(email_id) => {
                    let at = holder_index(old(self).emails@, recipient_id, 0);
                    let before = old(self).emails@[at];
                    &&& final(self).emails@.len() == old(self).emails@.len()
                    &&& forall|i: int|
                        0 <= i < old(self).emails@.len() && i != at ==> #[trigger] final(self).emails@[i] == old(self).emails@[i]
                    &&& is_updated(
                        final(self).emails@[at],
                        before,
                        recipient_index(before.recipients@, recipient_id, 0),
                        *updates,
                    )
                    &&& email_id == before.email.id
                },
                Err(e) => *final(self) == *old(self) && e is Repository,
            },
    {
        let mut i: usize = 0;
        let mut at: usize = 0;
        while i < self.emails.len()
            invariant
                i <= self.emails.len(),
                *self == *old(self),
                holder_index(self.emails@, recipient_id, i as int) == holder_index(
                    self.emails@,
                    recipient_id,
                    0,
                ),
            ensures
                i <= self.emails.len(),
                *self == *old(self),
                i == holder_index(self.emails@, recipient_id, 0),
                i < self.emails.len() ==> at == recipient_index(
                    self.emails@[i as int].recipients@,
                    recipient_id,
                    0,
                ) && at < self.emails@[i as int].recipients@.len(),
            decreases self.emails.len() - i,
        {
            at = find_recipient(&self.emails[i].recipients, recipient_id);
            if at < self.emails[i].recipients.len() {
                break ;
            }
            i += 1;
        }
        if i >= self.emails.len() {
            return Err(Error::Repository("Record not found".to_owned()));
        }
        let ghost before = self.emails@[i as int];
        assert(counted(before));
        let mut entry = self.emails.remove(i);
        let mut target = entry.recipients.remove(at);
        target.apply(updates);
        entry.recipients.insert(at, target);
        assert(entry.recipients@ == before.recipients@.update(
            at as int,
            before.recipients@[at as int].updated(*updates),
        ));
        entry.email.recount(&entry.recipients);
        let email_id: i32 = entry.email.id;
        proof {
            assert forall|j: int| 0 <= j < entry.recipients@.len() implies (
            #[trigger] entry.recipients@[j]).email_id == entry.email.id by {
                if j != at {
                    assert(entry.recipients@[j] == before.recipients@[j]);
                } else {
                    assert(before.recipients@[at as int].email_id == before.email.id);
                }
            }
            assert(counted(entry));
        }
        self.emails.insert(i, entry);
        proof {
            assert forall|k: int| 0 <= k < self.emails@.len() implies counted(
                #[trigger] self.emails@[k],
            ) by {
                if k != i {
                    assert(self.emails@[k] == old(self).emails@[k]);
                }
            }
            assert forall|k: int| 0 <= k < old(self).emails@.len() && k != i implies #[trigger] self.emails@[k]
                == old(self).emails@[k] by {}
            let earlier = old(self).emails@;
            let after = self.emails@;
            assert forall|k: int| 0 <= k < after.len() implies email_id_at(after, k) == email_id_at(
                earlier,
                k,
            ) by {
                if k != i {
                    assert(after[k] == earlier[k]);
                }
            }
            assert forall|k: int, j: int| is_place(after, k, j) implies is_place(earlier, k, j)
                && recipient_id_at(after, k, j) == recipient_id_at(earlier, k, j) by {
                if k != i {
                    assert(after[k] == earlier[k]);
                } else if j != at {
                    assert(after[k].recipients@[j] == before.recipients@[j]);
                }
            }
            assert forall|k: int| 0 <= k < after.len() implies #[trigger] email_id_at(after, k)
                < self.next_email_id by {
                assert(email_id_at(earlier, k) < old(self).next_email_id);
            }
            assert forall|k: int, m: int| 0 <= k < m < after.len() implies #[trigger] email_id_at(
                after,
                k,
            ) < #[trigger] email_id_at(after, m) by {
                assert(email_id_at(earlier, k) < email_id_at(earlier, m));
            }
            assert forall|k: int, j: int| is_place(after, k, j) implies #[trigger] recipient_id_at(
                after,
                k,
                j,
            ) < self.next_recipient_id by {
                assert(recipient_id_at(earlier, k, j) < old(self).next_recipient_id);
            }
            assert forall|k: int, j: int, m: int, l: int|
                is_place(after, k, j) && is_place(after, m, l) && (k < m || (k == m && j
                    < l)) implies #[trigger] recipient_id_at(after, k, j) < #[trigger] recipient_id_at(
                after,
                m,
                l,
            ) by {
                assert(is_place(earlier, k, j) && is_place(earlier, m, l));
                assert(recipient_id_at(earlier, k, j) < recipient_id_at(earlier, m, l));
            }
            if old(self).all_consistent() && updates.keeps_consistency() {
                assert forall|k: int, j: int|
                    0 <= k < self.emails@.len() && 0 <= j < self.emails@[k].recipients@.len() implies (
                #[trigger] self.emails@[k].recipients@[j]).consistent() by {
                    if k != i {
                        assert(self.emails@[k] == old(self).emails@[k]);
                    } else if j != at {
                        assert(self.emails@[k].recipients@[j] == before.recipients@[j]);
                        assert(old(self).emails@[i as int].recipients@[j].consistent());
                    } else {
                        assert(old(self).emails@[i as int].recipients@[at as int].consistent());
                    }
                }
            }
        }
        Ok(email_id)
    }

    /// Puts the address on record for the hub, with the reason given.
    /// Does nothing when it is on record already.
    pub fn unsubscribe_recipient(&mut self, email: &str, hub_id: i32, reason: Option<&str>)
        requires
            old(self).well_formed(),
        ensures
            final(self).well_formed(),
            *final(self) == (MemoryRepository {
                unsubscribes: final(self).unsubscribes,
                ..*old(self)
            }),
            is_unsubscribed(final(self).unsubscribes@, email@, hub_id),
            is_unsubscribed(old(self).unsubscribes@, email@, hub_id) ==> final(self).unsubscribes
                == old(self).unsubscribes,
            !is_unsubscribed(old(self).unsubscribes@, email@, hub_id) ==> {
                &&& final(self).unsubscribes@.len() == old(self).unsubscribes@.len() + 1
                &&& final(self).unsubscribes@.drop_last() == old(self).unsubscribes@
                &&& final(self).unsubscribes@.last().email@ == email@
                &&& final(self).unsubscribes@.last().hub_id == hub_id
                &&& optional_text(final(self).unsubscribes@.last().reason) == match reason {
                    Some(words) => Some(words@),
                    None => None,
                }
            },
    {
        let wanted = to_chars(email);
        let mut i: usize = 0;
        while i < self.unsubscribes.len()
            invariant
                i <= self.unsubscribes.len(),
                *self == *old(self),
                old(self).well_formed(),
                wanted@ == email@,
                forall|k: int|
                    0 <= k < i ==> !((#[trigger] self.unsubscribes@[k]).email@ == email@
                        && self.unsubscribes@[k].hub_id == hub_id),
            decreases self.unsubscribes.len() - i,
        {
            if self.unsubscribes[i].hub_id == hub_id {
                let known = to_chars(self.unsubscribes[i].email.as_str());
                if chars_equal(&known, &wanted) {
                    assert(self.unsubscribes@[i as int].email@ == email@);
                    return ;
                }
            }
            i += 1;
        }
        let reason = match reason {
            Some(words) => Some(words.to_owned()),
            None => None,
        };
        self.unsubscribes.push(Unsubscribe { email: email.to_owned(), hub_id, reason });
        proof {
            let list = self.unsubscribes@;
            assert(list.drop_last() == old(self).unsubscribes@);
            assert(list[list.len() - 1].email@ == email@);
            assert forall|a: int, b: int| 0 <= a < b < list.len() implies !((#[trigger] list[a]).email@
                == (#[trigger] list[b]).email@ && list[a].hub_id == list[b].hub_id) by {
                if b < list.len() - 1 {
                    assert(list[a] == old(self).unsubscribes@[a]);
                    assert(list[b] == old(self).unsubscribes@[b]);
                } else {
                    assert(list[a] == old(self).unsubscribes@[a]);
                }
            }
        }
    }
}

/// Index of the first recipient with the id `id`, or the number of
/// recipients.
fn find_recipient(recipients: &Vec<EmailRecipient>, id: i32) -> (at: usize)
    ensures
        at == recipient_index(recipients@, id, 0),
        at <= recipients@.len(),
        at < recipients@.len() ==> recipients@[at as int].id == id,
{
    let mut i: usize = 0;
    while i < recipients.len() && recipients[i].id != id
        invariant
            i <= recipients.len(),
            recipient_index(recipients@, id, i as int) == recipient_index(recipients@, id, 0),
        decreases recipients.len() - i,
    {
        i += 1;
    }
    i
}

} // verus!
