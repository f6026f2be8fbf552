//! The pull-query surface: status answers rendered for external callers.
//!
//! External callers ask for the latest block, a block's confidence, the
//! client status and the published-event logs; each answer is a rendering
//! pinned to an exact character sequence of the store's content.  The
//! transports that carry the answers — sockets, foreign stacks — stay
//! outside.

use vstd::prelude::*;

use crate::confidence::confidence_ppm;
use crate::confidence::confidence_ppm_spec;
use crate::messages::json_of_message_list;
use crate::messages::message_list_to_json;
use crate::store::get_confidence_record_from_db;
use crate::store::get_latest_block;
use crate::store::get_publish_messages_from_db;
use crate::store::Store;
use crate::text::dec_digits;
use crate::text::u32_to_dec;
use crate::text::u64_to_dec;
use crate::types::ClientResponse;
use crate::types::LogLevel;
use crate::types::ParseLevelError;
use crate::types::PublishMessage;
use crate::types::Topic;

verus! {

/// The rendering of an error answer.
pub open spec fn error_json(msg: Seq<char>) -> Seq<char> {
    "{\"message\":\""@ + msg + "\"}"@
}

/// Renders an error answer around the given plain-text message.
pub fn string_to_error_resp_json(value: String) -> (r: String)
    ensures
        r@ == error_json(value@),
{
    let mut s = "{\"message\":\"".to_owned();
    s.append(value.as_str());
    s.append("\"}");
    proof {
        assert(s@ =~= error_json(value@));
    }
    s
}

/// Renders a pull-query answer: a normal answer passes through as it was
/// rendered, every other outcome becomes an error answer with its fixed
/// text.
pub fn process_client_response(response: ClientResponse<String>) -> (r: String)
    ensures
        match response {
            ClientResponse::Normal(s) => r@ == s@,
            ClientResponse::NotFound => r@ == error_json("Not found"@),
            ClientResponse::NotFinalized => r@ == error_json("Not Finalized"@),
            ClientResponse::InProcess => r@ == error_json("In process"@),
            ClientResponse::Error(e) => r@ == error_json(e@),
        },
{
    match response {
        ClientResponse::Normal(resolved_response) => resolved_response,
        ClientResponse::NotFound => string_to_error_resp_json("Not found".to_owned()),
        ClientResponse::NotFinalized => string_to_error_resp_json("Not Finalized".to_owned()),
        ClientResponse::InProcess => string_to_error_resp_json("In process".to_owned()),
        ClientResponse::Error(err) => string_to_error_resp_json(err),
    }
}

/// The rendering of the latest-block answer.
pub open spec fn latest_block_json(n: u32) -> Seq<char> {
    "{\"latest_block\":"@ + dec_digits(n as nat) + "}"@
}

/// Answers the latest-block query from the store: the newest recorded
/// block number, or not-found when none was recorded yet.
pub fn latest_block(db: &Store) -> (r: String)
    requires
        db.wf(),
    ensures
        match db.latest_block {
            Some(n) => r@ == latest_block_json(n),
            None => r@ == error_json("Not found"@),
        },
{
    match get_latest_block(db) {
        Some(n) => {
            let mut s = "{\"latest_block\":".to_owned();
            s.append(u32_to_dec(n).as_str());
            s.append("}");
            proof {
                assert(s@ =~= latest_block_json(n));
            }
            process_client_response(ClientResponse::Normal(s))
        },
        None => process_client_response(ClientResponse::<String>::NotFound),
    }
}

/// The serialised confidence of a block: the block number in the upper
/// thirty-two bits, the confidence in parts per million below.
pub open spec fn serialised_confidence(block: u32, ppm: u64) -> int {
    block * 0x1_0000_0000 + ppm
}

/// The rendering of the confidence answer.
pub open spec fn confidence_json(block: u32, ppm: u64) -> Seq<char> {
    "{\"block\":"@ + dec_digits(block as nat) + ",\"confidence\":"@ + dec_digits(ppm as nat)
        + ",\"serialised_confidence\":\""@ + dec_digits(serialised_confidence(block, ppm) as nat)
        + "\"}"@
}

/// Answers the confidence query for a block: the confidence its record
/// derives, or not-found when the block was not processed yet.
pub fn confidence(block: u32, db: &Store) -> (r: String)
    requires
        db.wf(),
    ensures
        db.confidence_map().dom().contains(block as u64) ==> r@ == confidence_json(
            block,
            confidence_ppm_spec(db.confidence_map()[block as u64].verified as nat) as u64,
        ),
        !db.confidence_map().dom().contains(block as u64) ==> r@ == error_json("Not found"@),
{
    match get_confidence_record_from_db(db, block) {
        Some(record) => {
            let ppm = confidence_ppm(record.verified);
            let serialised: u64 = (block as u64) * 0x1_0000_0000 + ppm;
            let mut s = "{\"block\":".to_owned();
            s.append(u32_to_dec(block).as_str());
            s.append(",\"confidence\":");
            s.append(u64_to_dec(ppm).as_str());
            s.append(",\"serialised_confidence\":\"");
            s.append(u64_to_dec(serialised).as_str());
            s.append("\"}");
            proof {
                assert(s@ =~= confidence_json(block, ppm));
            }
            process_client_response(ClientResponse::Normal(s))
        },
        None => process_client_response(ClientResponse::<String>::NotFound),
    }
}

/// The rendering of the status answer.
pub open spec fn status_json(block: u32, ppm: u64, app_id: u32) -> Seq<char> {
    "{\"block_num\":"@ + dec_digits(block as nat) + ",\"confidence\":"@ + dec_digits(ppm as nat)
        + ",\"app_id\":"@ + dec_digits(app_id as nat) + "}"@
}

/// Answers the status query for an application: the latest recorded block
/// and its confidence, or not-found while nothing is recorded.
pub fn status(app_id: u32, db: &Store) -> (r: String)
    requires
        db.wf(),
    ensures
        match db.latest_block {
            Some(n) => {
                &&& db.confidence_map().dom().contains(n as u64) ==> r@ == status_json(
                    n,
                    confidence_ppm_spec(db.confidence_map()[n as u64].verified as nat) as u64,
                    app_id,
                )
                &&& !db.confidence_map().dom().contains(n as u64) ==> r@ == error_json(
                    "Not found"@,
                )
            },
            None => r@ == error_json("Not found"@),
        },
{
    match get_latest_block(db) {
        Some(n) => {
            match get_confidence_record_from_db(db, n) {
                Some(record) => {
                    let ppm = confidence_ppm(record.verified);
                    let mut s = "{\"block_num\":".to_owned();
                    s.append(u32_to_dec(n).as_str());
                    s.append(",\"confidence\":");
                    s.append(u64_to_dec(ppm).as_str());
                    s.append(",\"app_id\":");
                    s.append(u32_to_dec(app_id).as_str());
                    s.append("}");
                    proof {
                        assert(s@ =~= status_json(n, ppm, app_id));
                    }
                    process_client_response(ClientResponse::Normal(s))
                },
                None => process_client_response(ClientResponse::<String>::NotFound),
            }
        },
        None => process_client_response(ClientResponse::<String>::NotFound),
    }
}

/// The answer for an event log never written to.
pub open spec fn empty_message_list() -> Seq<char> {
    "{'message_list':[]}"@
}

/// Reads one topic's event log rendered whole, or nothing while the log
/// was never written to.
pub fn get_existing_published_message_list_from_db(db: &Store, topic: Topic) -> (r: Option<
    String,
>)
    requires
        db.wf(),
    ensures
        match r {
            Some(s) => messages_of_topic(*db, topic).len() > 0 && s@ == json_of_message_list(
                messages_of_topic(*db, topic),
            ),
            None => messages_of_topic(*db, topic).len() == 0,
        },
{
    let messages = get_publish_messages_from_db(db, topic);
    if messages.len() == 0 {
        None
    } else {
        Some(message_list_to_json(messages))
    }
}

/// The event log of a topic.
pub open spec fn messages_of_topic(db: Store, topic: Topic) -> Seq<PublishMessage> {
    match topic {
        Topic::HeaderVerified => db.header_verified_messages@,
        Topic::ConfidenceAchieved => db.confidence_achieved_messages@,
        Topic::DataVerified => db.data_verified_messages@,
    }
}

/// Reads the confidence-achieved event log rendered whole, if any.
pub fn get_confidence_achieved_message_from_db(db: &Store) -> (r: Option<String>)
    requires
        db.wf(),
    ensures
        match r {
            Some(s) => db.confidence_achieved_messages@.len() > 0 && s@ == json_of_message_list(
                db.confidence_achieved_messages@,
            ),
            None => db.confidence_achieved_messages@.len() == 0,
        },
{
    get_existing_published_message_list_from_db(db, Topic::ConfidenceAchieved)
}

/// Reads the data-verified event log rendered whole, if any.
pub fn get_data_verified_message_from_db(db: &Store) -> (r: Option<String>)
    requires
        db.wf(),
    ensures
        match r {
            Some(s) => db.data_verified_messages@.len() > 0 && s@ == json_of_message_list(
                db.data_verified_messages@,
            ),
            None => db.data_verified_messages@.len() == 0,
        },
{
    get_existing_published_message_list_from_db(db, Topic::DataVerified)
}

/// Reads the header-verified event log rendered whole, if any.
pub fn get_header_verified_message_from_db(db: &Store) -> (r: Option<String>)
    requires
        db.wf(),
    ensures
        match r {
            Some(s) => db.header_verified_messages@.len() > 0 && s@ == json_of_message_list(
                db.header_verified_messages@,
            ),
            None => db.header_verified_messages@.len() == 0,
        },
{
    get_existing_published_message_list_from_db(db, Topic::HeaderVerified)
}

/// Answers the confidence-achieved event-log query: the whole log, or the
/// empty-list answer while nothing was logged.
pub fn get_confidence_message_list(db: &Store) -> (r: String)
    requires
        db.wf(),
    ensures
        db.confidence_achieved_messages@.len() == 0 ==> r@ == empty_message_list(),
        db.confidence_achieved_messages@.len() > 0 ==> r@ == json_of_message_list(
            db.confidence_achieved_messages@,
        ),
{
    match get_confidence_achieved_message_from_db(db) {
        Some(message_list) => message_list,
        None => "{'message_list':[]}".to_owned(),
    }
}

/// Answers the data-verified event-log query: the whole log, or the
/// empty-list answer while nothing was logged.
pub fn get_data_verified_message_list(db: &Store) -> (r: String)
    requires
        db.wf(),
    ensures
        db.data_verified_messages@.len() == 0 ==> r@ == empty_message_list(),
        db.data_verified_messages@.len() > 0 ==> r@ == json_of_message_list(
            db.data_verified_messages@,
        ),
{
    match get_data_verified_message_from_db(db) {
        Some(message_list) => message_list,
        None => "{'message_list':[]}".to_owned(),
    }
}

/// Answers the header-verified event-log query: the whole log, or the
/// empty-list answer while nothing was logged.
pub fn get_header_verified_message_list(db: &Store) -> (r: String)
    requires
        db.wf(),
    ensures
        db.header_verified_messages@.len() == 0 ==> r@ == empty_message_list(),
        db.header_verified_messages@.len() > 0 ==> r@ == json_of_message_list(
            db.header_verified_messages@,
        ),
{
    match get_header_verified_message_from_db(db) {
        Some(message_list) => message_list,
        None => "{'message_list':[]}".to_owned(),
    }
}

/// Whether a string spells a word, each character in either case.
pub open spec fn matches_ci(s: Seq<char>, lower: Seq<char>, upper: Seq<char>) -> bool {
    &&& s.len() == lower.len()
    &&& s.len() == upper.len()
    &&& forall|i: int| 0 <= i < s.len() ==> (#[trigger] s[i]) == lower[i] || s[i] == upper[i]
}

/// The verbosity level a string names: one of the five names in any
/// letter case, or its number — one for the severest up to five for the
/// chattiest; none when it names no level.
pub open spec fn log_level_of(s: Seq<char>) -> Option<LogLevel> {
    if matches_ci(s, "trace"@, "TRACE"@) || matches_ci(s, "5"@, "5"@) {
        Some(LogLevel::Trace)
    } else if matches_ci(s, "debug"@, "DEBUG"@) || matches_ci(s, "4"@, "4"@) {
        Some(LogLevel::Debug)
    } else if matches_ci(s, "info"@, "INFO"@) || matches_ci(s, "3"@, "3"@) {
        Some(LogLevel::Info)
    } else if matches_ci(s, "warn"@, "WARN"@) || matches_ci(s, "2"@, "2"@) {
        Some(LogLevel::Warn)
    } else if matches_ci(s, "error"@, "ERROR"@) || matches_ci(s, "1"@, "1"@) {
        Some(LogLevel::Error)
    } else {
        None
    }
}

/// Tells whether a string spells a word, comparing each character against
/// its two cases.
fn eq_ci(s: &str, lower: &str, upper: &str) -> (r: bool)
    ensures
        r == matches_ci(s@, lower@, upper@),
{
    let n = s.unicode_len();
    if n != lower.unicode_len() || n != upper.unicode_len() {
        return false;
    }
    let mut i: usize = 0;
    while i < n
        invariant
            n == s@.len(),
            n == lower@.len(),
            n == upper@.len(),
            i <= n,
            forall|j: int| 0 <= j < i ==> (#[trigger] s@[j]) == lower@[j] || s@[j] == upper@[j],
        decreases n - i,
    {
        let c = s.get_char(i);
        if c != lower.get_char(i) && c != upper.get_char(i) {
            return false;
        }
        i = i + 1;
    }
    true
}

/// Reads a verbosity level from its name, whatever the case it was written
/// in, or from its number; an unrecognized name falls back to the default
/// and reports the parse failure beside it.
pub fn parse_log_level(log_level: &str, default: LogLevel) -> (r: (LogLevel, Option<
    ParseLevelError,
>))
    ensures
        r == match log_level_of(log_level@) {
            Some(l) => (l, None::<ParseLevelError>),
            None => (default, Some(ParseLevelError {  })),
        },
{
    if eq_ci(log_level, "trace", "TRACE") || eq_ci(log_level, "5", "5") {
        (LogLevel::Trace, None)
    } else if eq_ci(log_level, "debug", "DEBUG") || eq_ci(log_level, "4", "4") {
        (LogLevel::Debug, None)
    } else if eq_ci(log_level, "info", "INFO") || eq_ci(log_level, "3", "3") {
        (LogLevel::Info, None)
    } else if eq_ci(log_level, "warn", "WARN") || eq_ci(log_level, "2", "2") {
        (LogLevel::Warn, None)
    } else if eq_ci(log_level, "error", "ERROR") || eq_ci(log_level, "1", "1") {
        (LogLevel::Error, None)
    } else {
        (default, Some(ParseLevelError {  }))
    }
}

} // verus!
