//! Published events: their rendering and their fan-out.
//!
//! Every externally observable outcome leaves the library as a
//! `PublishMessage`.  This module pins each message's rendering to an exact
//! character sequence, decides which subscribers of which topic receive it,
//! and applies one received event to the store's per-topic event logs — the
//! step a fan-out task performs for each event it takes off its stream.

use vstd::prelude::*;

use crate::store::store_publish_message_in_db;
use crate::store::Store;
use crate::text::bytes_to_hex;
use crate::text::dec_digits;
use crate::text::hex_digits;
use crate::text::u32_to_dec;
use crate::text::u64_to_dec;
use crate::types::PublishMessage;
use crate::types::Topic;

verus! {

/// The topic a message belongs to.
pub open spec fn topic_of_spec(m: PublishMessage) -> Topic {
    match m {
        PublishMessage::HeaderVerified { .. } => Topic::HeaderVerified,
        PublishMessage::ConfidenceAchieved { .. } => Topic::ConfidenceAchieved,
        PublishMessage::DataVerified { .. } => Topic::DataVerified,
    }
}

/// Tells the topic a message belongs to.
pub fn topic_of(m: &PublishMessage) -> (r: Topic)
    ensures
        r == topic_of_spec(*m),
{
    match m {
        PublishMessage::HeaderVerified { .. } => Topic::HeaderVerified,
        PublishMessage::ConfidenceAchieved { .. } => Topic::ConfidenceAchieved,
        PublishMessage::DataVerified { .. } => Topic::DataVerified,
    }
}

/// Builds the header-verified event for a newly finalized header.
pub fn header_verified_message(header: &crate::types::BlockHeader) -> (m: PublishMessage)
    ensures
        (m matches PublishMessage::HeaderVerified { block_number, hash } && block_number
            == header.number && hash@ == header.hash@),
{
    let mut hash: Vec<u8> = Vec::new();
    let mut i: usize = 0;
    while i < header.hash.len()
        invariant
            i <= header.hash@.len(),
            hash@ =~= header.hash@.subrange(0, i as int),
        decreases header.hash@.len() - i,
    {
        hash.push(header.hash[i]);
        i = i + 1;
        proof {
            assert(hash@ =~= header.hash@.subrange(0, i as int));
        }
    }
    proof {
        assert(hash@ =~= header.hash@);
    }
    PublishMessage::HeaderVerified { block_number: header.number, hash }
}

/// The rendering of one published event.
pub open spec fn json_of_message(m: PublishMessage) -> Seq<char> {
    match m {
        PublishMessage::HeaderVerified { block_number, hash } => "{\"topic\":\"header-verified\",\"block_number\":"@
            + dec_digits(block_number as nat) + ",\"hash\":\""@ + hex_digits(hash@) + "\"}"@,
        PublishMessage::ConfidenceAchieved { block_number, confidence_ppm } => "{\"topic\":\"confidence-achieved\",\"block_number\":"@
            + dec_digits(block_number as nat) + ",\"confidence\":"@ + dec_digits(
            confidence_ppm as nat,
        ) + "}"@,
        PublishMessage::DataVerified { app_id, block_number, size } => "{\"topic\":\"data-verified\",\"app_id\":"@
            + dec_digits(app_id as nat) + ",\"block_number\":"@ + dec_digits(block_number as nat)
            + ",\"size\":"@ + dec_digits(size as nat) + "}"@,
    }
}

/// Renders one published event.
pub fn message_to_json(m: &PublishMessage) -> (r: String)
    ensures
        r@ == json_of_message(*m),
{
    match m {
        PublishMessage::HeaderVerified { block_number, hash } => {
            let mut s = "{\"topic\":\"header-verified\",\"block_number\":".to_owned();
            s.append(u32_to_dec(*block_number).as_str());
            s.append(",\"hash\":\"");
            s.append(bytes_to_hex(hash).as_str());
            s.append("\"}");
            proof {
                assert(s@ =~= json_of_message(*m));
            }
            s
        },
        PublishMessage::ConfidenceAchieved { block_number, confidence_ppm } => {
            let mut s = "{\"topic\":\"confidence-achieved\",\"block_number\":".to_owned();
            s.append(u32_to_dec(*block_number).as_str());
            s.append(",\"confidence\":");
            s.append(u64_to_dec(*confidence_ppm).as_str());
            s.append("}");
            proof {
                assert(s@ =~= json_of_message(*m));
            }
            s
        },
        PublishMessage::DataVerified { app_id, block_number, size } => {
            let mut s = "{\"topic\":\"data-verified\",\"app_id\":".to_owned();
            s.append(u32_to_dec(*app_id).as_str());
            s.append(",\"block_number\":");
            s.append(u32_to_dec(*block_number).as_str());
            s.append(",\"size\":");
            s.append(u64_to_dec(*size).as_str());
            s.append("}");
            proof {
                assert(s@ =~= json_of_message(*m));
            }
            s
        },
    }
}

/// The renderings of a run of events, comma-separated.
pub open spec fn joined_messages(msgs: Seq<PublishMessage>) -> Seq<char>
    decreases msgs.len(),
{
    if msgs.len() == 0 {
        Seq::empty()
    } else if msgs.len() == 1 {
        json_of_message(msgs[0])
    } else {
        joined_messages(msgs.drop_last()) + ","@ + json_of_message(msgs.last())
    }
}

/// The rendering of a whole event log.
pub open spec fn json_of_message_list(msgs: Seq<PublishMessage>) -> Seq<char> {
    "{\"message_list\":["@ + joined_messages(msgs) + "]}"@
}

/// Renders a whole event log.
pub fn message_list_to_json(msgs: &Vec<PublishMessage>) -> (r: String)
    ensures
        r@ == json_of_message_list(msgs@),
{
    let mut s = "{\"message_list\":[".to_owned();
    let mut i: usize = 0;
    while i < msgs.len()
        invariant
            i <= msgs@.len(),
            s@ == "{\"message_list\":["@ + joined_messages(msgs@.subrange(0, i as int)),
        decreases msgs@.len() - i,
    {
        if i > 0 {
            s.append(",");
        }
        s.append(message_to_json(&msgs[i]).as_str());
        i = i + 1;
        proof {
            let pre = msgs@.subrange(0, i as int);
            assert(pre.drop_last() =~= msgs@.subrange(0, i - 1));
            assert(pre.last() == msgs@[i - 1]);
            assert(s@ =~= "{\"message_list\":["@ + joined_messages(pre));
        }
    }
    s.append("]}");
    proof {
        assert(msgs@.subrange(0, msgs@.len() as int) =~= msgs@);
        assert(s@ =~= json_of_message_list(msgs@));
    }
    s
}

/// Applies one received event to the store's per-topic event logs: the log
/// of `topic` grows by the message exactly when the message belongs to that
/// topic, and nothing else changes.  The surrounding process runs this once
/// per event its subscription delivers.
pub fn store_publish_messages(db: &mut Store, topic: Topic, message: PublishMessage)
    requires
        old(db).wf(),
    ensures
        final(db).wf(),
        topic_of_spec(message) != topic ==> *final(db) == *old(db),
        topic_of_spec(message) == topic && topic is HeaderVerified ==> *final(db) == (Store {
            header_verified_messages: final(db).header_verified_messages,
            ..*old(db)
        }) && final(db).header_verified_messages@ =~= old(db).header_verified_messages@.push(
            message,
        ),
        topic_of_spec(message) == topic && topic is ConfidenceAchieved ==> *final(db) == (Store {
            confidence_achieved_messages: final(db).confidence_achieved_messages,
            ..*old(db)
        }) && final(db).confidence_achieved_messages@ =~= old(
            db,
        ).confidence_achieved_messages@.push(message),
        topic_of_spec(message) == topic && topic is DataVerified ==> *final(db) == (Store {
            data_verified_messages: final(db).data_verified_messages,
            ..*old(db)
        }) && final(db).data_verified_messages@ =~= old(db).data_verified_messages@.push(message),
{
    let message_topic = topic_of(&message);
    let matches_topic = match (message_topic, topic) {
        (Topic::HeaderVerified, Topic::HeaderVerified) => true,
        (Topic::ConfidenceAchieved, Topic::ConfidenceAchieved) => true,
        (Topic::DataVerified, Topic::DataVerified) => true,
        _ => false,
    };
    if matches_topic {
        store_publish_message_in_db(db, message, topic);
    }
}

/// Decides whether an event reaches the callback subscribed to `topic`, and
/// renders its payload if so.  Handing the payload to the foreign callback
/// is the surrounding process's step.
pub fn call_callbacks(topic: Topic, message: &PublishMessage) -> (r: Option<String>)
    ensures
        match r {
            Some(payload) => topic_of_spec(*message) == topic && payload@ == json_of_message(
                *message,
            ),
            None => topic_of_spec(*message) != topic,
        },
{
    let message_topic = topic_of(message);
    let matches_topic = match (message_topic, topic) {
        (Topic::HeaderVerified, Topic::HeaderVerified) => true,
        (Topic::ConfidenceAchieved, Topic::ConfidenceAchieved) => true,
        (Topic::DataVerified, Topic::DataVerified) => true,
        _ => false,
    };
    if matches_topic {
        Some(message_to_json(message))
    } else {
        None
    }
}

} // verus!
