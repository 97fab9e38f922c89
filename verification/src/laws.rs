//! Laws that hold across the functions of the library.

use vstd::prelude::*;
use crate::decimal::{lemma_parse_signed_decimal, parse_i32_spec, signed_decimal};
use crate::domain::{EmailRecipient, UpdateEmailRecipient};
use crate::message_builder::message_id_spec;
use crate::monitor::{
    in_hand,
    transition,
    well_formed,
    MonitorAction,
    MonitorEvent,
    MonitorState,
};
use crate::parser::{recipient_id_from, recipient_id_in, token_id};
use crate::text::{find_char, split, split_from};

verus! {

/// `c` does not occur in `s`.
pub open spec fn free_of(s: Seq<char>, c: char) -> bool {
    forall|i: int| 0 <= i < s.len() ==> s[i] != c
}

/// `s` holds none of the characters that delimit a message id.
pub open spec fn plain_token(s: Seq<char>) -> bool {
    free_of(s, '<') && free_of(s, '>') && free_of(s, '@')
}

/// The message id `<local@domain>`.
pub open spec fn message_id(local: Seq<char>, domain: Seq<char>) -> Seq<char> {
    seq!['<'] + local + seq!['@'] + domain + seq!['>']
}

/// The id that a local part denotes: a decimal number that fits in 32
/// signed bits and is not negative.
pub open spec fn id_of(local: Seq<char>) -> Option<i32> {
    match parse_i32_spec(local) {
        Some(id) => if id >= 0 {
            Some(id)
        } else {
            None
        },
        None => None,
    }
}

proof fn lemma_find_at(s: Seq<char>, c: char, from: int, at: int)
    requires
        0 <= from <= at < s.len(),
        s[at] == c,
        forall|j: int| from <= j < at ==> s[j] != c,
    ensures
        find_char(s, c, from) == at,
    decreases at - from,
{
    if from < at {
        lemma_find_at(s, c, from + 1, at);
    }
}

proof fn lemma_find_nowhere(s: Seq<char>, c: char, from: int)
    requires
        0 <= from <= s.len(),
        forall|j: int| from <= j < s.len() ==> s[j] != c,
    ensures
        find_char(s, c, from) == s.len(),
    decreases s.len() - from,
{
    if from < s.len() {
        lemma_find_nowhere(s, c, from + 1);
    }
}

/// A text in which the separator stands once is split into what stands
/// before it and what stands after it.
proof fn lemma_split_once(before: Seq<char>, c: char, after: Seq<char>)
    requires
        free_of(before, c),
        free_of(after, c),
    ensures
        split(before + seq![c] + after, c) == seq![before, after],
{
    let s = before + seq![c] + after;
    let at = before.len() as int;
    assert(s[at] == c);
    assert forall|j: int| 0 <= j < at implies s[j] != c by {
        assert(s[j] == before[j]);
    }
    lemma_find_at(s, c, 0, at);
    assert forall|j: int| at + 1 <= j < s.len() implies s[j] != c by {
        assert(s[j] == after[j - at - 1]);
    }
    lemma_find_nowhere(s, c, at + 1);
    assert(s.subrange(0, at) == before);
    assert(s.subrange(at + 1, s.len() as int) == after);
    assert(split_from(s, c, at + 1) == seq![after]);
    assert(split_from(s, c, 0) == seq![before] + split_from(s, c, at + 1));
    assert(seq![before] + seq![after] == seq![before, after]);
}

/// The message id `<local@given>` names a recipient under `domain` exactly
/// when `given` is `domain` and `local` is a decimal number that is not
/// negative; the recipient is that number.
pub proof fn lemma_recipient_id_of_message_id(
    local: Seq<char>,
    given: Seq<char>,
    domain: Seq<char>,
)
    requires
        plain_token(local),
        plain_token(given),
    ensures
        recipient_id_in(message_id(local, given), domain) == if given == domain {
            id_of(local)
        } else {
            None
        },
{
    let header = message_id(local, given);
    let candidate = local + seq!['@'] + given;
    let segment = candidate + seq!['>'];
    assert(header == Seq::<char>::empty() + seq!['<'] + segment);
    assert forall|i: int| 0 <= i < candidate.len() implies candidate[i] != '>' && candidate[i]
        != '<' by {
        if i < local.len() {
            assert(candidate[i] == local[i]);
        } else if i > local.len() {
            assert(candidate[i] == given[i - local.len() - 1]);
        }
    }
    assert(free_of(segment, '<')) by {
        assert forall|i: int| 0 <= i < segment.len() implies segment[i] != '<' by {
            if i < candidate.len() {
                assert(segment[i] == candidate[i]);
            }
        }
    }
    lemma_split_once(Seq::empty(), '<', segment);
    let segments = split(header, '<');
    assert(segments == seq![Seq::<char>::empty(), segment]);
    assert(segment == candidate + seq!['>'] + Seq::<char>::empty());
    lemma_split_once(candidate, '>', Seq::empty());
    assert(split(segment, '>')[0] == candidate);
    lemma_split_once(local, '@', given);
    assert(split(candidate, '@') == seq![local, given]);
    assert(token_id(segment, domain) == if given == domain {
        id_of(local)
    } else {
        None
    });
    assert(recipient_id_from(segments, 2, domain) is None);
    assert(recipient_id_from(segments, 1, domain) == token_id(segment, domain));
}

/// A reply to the message sent to recipient `id` names that recipient:
/// the id that the message builder writes into the message id is read
/// back from an `In-Reply-To` that quotes it in angle brackets.
pub proof fn lemma_recipient_id_round_trip(id: i32, domain: Seq<char>)
    requires
        id >= 0,
        plain_token(domain),
    ensures
        recipient_id_in(seq!['<'] + message_id_spec(id, domain) + seq!['>'], domain) == Some(id),
{
    let local = signed_decimal(id as int);
    crate::text::lemma_literal_at();
    assert(seq!['<'] + message_id_spec(id, domain) + seq!['>'] == message_id(local, domain));
    crate::decimal::lemma_decimal_round_trip(id as nat);
    lemma_parse_signed_decimal(id as int);
    assert(plain_token(local)) by {
        assert forall|i: int| 0 <= i < local.len() implies local[i] != '<' && local[i] != '>'
            && local[i] != '@' by {
            assert(crate::decimal::is_digit(local[i]));
        }
    }
    lemma_recipient_id_of_message_id(local, domain, domain);
}

/// The stored watermark of a hub never decreases: no transition of its
/// monitor lowers it, and none asks for a write at or below it.
pub proof fn lemma_watermark_never_decreases(
    state: MonitorState,
    event: MonitorEvent,
    next: (MonitorState, MonitorAction),
)
    requires
        transition(state, event, next),
    ensures
        next.0.persisted_uid >= state.persisted_uid,
        next.1 matches MonitorAction::Persist { watermark, .. } ==> watermark > state.persisted_uid,
{
}

/// Within one search, UIDs are processed in ascending order: from a
/// well-formed state every transition leads to a well-formed state, and
/// the UID handed out next is not below the one in hand.
pub proof fn lemma_uids_in_ascending_order(
    state: MonitorState,
    event: MonitorEvent,
    next: (MonitorState, MonitorAction),
)
    requires
        well_formed(state),
        transition(state, event, next),
    ensures
        well_formed(next.0),
        in_hand(state.stage) matches Some(uid) ==> (next.1 matches MonitorAction::Process {
            uid: following,
        } ==> uid <= following),
{
}

/// A reply implies delivery and opening, for every recipient and through
/// every update that keeps consistency.
pub proof fn lemma_reply_implies_delivery(recipient: EmailRecipient, updates: UpdateEmailRecipient)
    requires
        recipient.consistent(),
        updates.keeps_consistency(),
    ensures
        recipient.updated(updates).consistent(),
{
}

/// Every other update leads some recipient from a consistent state to one
/// with a reply but without delivery or opening: one with the fields
/// of `like` and suitable flags.
pub proof fn lemma_update_breaks_consistency(like: EmailRecipient, updates: UpdateEmailRecipient)
    requires
        !updates.keeps_consistency(),
    ensures
        exists|recipient: EmailRecipient|
            recipient.consistent() && !(#[trigger] recipient.updated(updates)).consistent(),
{
    let flagged = updates.replied is None;
    let recipient = EmailRecipient { is_sent: flagged, opened: flagged, replied: flagged, ..like };
    assert(recipient.consistent());
    assert(!recipient.updated(updates).consistent());
}

} // verus!
