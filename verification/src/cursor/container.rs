//! The container of a conversation: its schema version, the turns it holds
//! or names, and the keys under which the store keeps them.

use vstd::prelude::*;
use vstd::string::*;
use serde_json::Value;
use crate::cursor::bubble::{bubble_to_message, message_of_bubble};
use crate::error::{ErrorModel, ProviderError};
use crate::fields::{i64_at, items_at, items_or_none, opt_i64, opt_str, text_of};
use crate::json::{self, json_model, member, models, parsed_json, JsonModel};
use crate::model::{all_wf, opt_json, opt_text, opt_texts, views, Message, MessageModel};
use crate::text::joined;

verus! {

/// The messages of a conversation whose turns are given slot by slot, a
/// slot being empty where its turn could not be had. A turn keeps the
/// position of its slot, whether or not earlier slots gave a message.
pub open spec fn slots_messages(slots: Seq<Option<JsonModel>>, session: Seq<char>) -> Seq<
    MessageModel,
>
    decreases slots.len(),
{
    if slots.len() == 0 {
        Seq::empty()
    } else {
        let before = slots_messages(slots.drop_last(), session);
        let decoded = match slots.last() {
            Some(bubble) => message_of_bubble(bubble, session, (slots.len() - 1) as u64),
            None => None,
        };
        match decoded {
            Some(m) => before.push(m),
            None => before,
        }
    }
}

/// The slots of a container that holds its turns inline, under
/// `conversation`.
pub open spec fn inline_slots(container: JsonModel) -> Seq<Option<JsonModel>> {
    items_or_none(member(container, "conversation"@)).map_values(|turn: JsonModel| Some(turn))
}

/// The turn behind one header of a container that holds headers only:
/// the record fetched for it, parsed. There is none where the header has no
/// `bubbleId`, where no record was found, and where the record does not
/// parse.
pub open spec fn split_slot(header: JsonModel, blob: Option<Seq<char>>) -> Option<JsonModel> {
    if opt_str(member(header, "bubbleId"@)) is Some {
        match blob {
            Some(text) => parsed_json(text),
            None => None,
        }
    } else {
        None
    }
}

/// The `i`th of the fetched records; none where `i` is out of range.
pub open spec fn fetched_at(fetched: Seq<Option<Seq<char>>>, i: int) -> Option<Seq<char>> {
    if 0 <= i < fetched.len() {
        fetched[i]
    } else {
        None
    }
}

/// The headers of a container that holds headers only.
pub open spec fn headers_of(container: JsonModel) -> Seq<JsonModel> {
    items_or_none(member(container, "fullConversationHeadersOnly"@))
}

/// The slots of a container that holds headers only, one for each header in
/// the order of the headers, given the records fetched for them.
pub open spec fn split_slots(container: JsonModel, blobs: Seq<Option<Seq<char>>>) -> Seq<
    Option<JsonModel>,
> {
    Seq::new(
        headers_of(container).len(),
        |i: int| split_slot(headers_of(container)[i], fetched_at(blobs, i)),
    )
}

/// Decodes the turns that a container holds inline.
pub fn load_messages_v1(composer_id: &str, val: &Value) -> (r: Vec<Message>)
    ensures
        views(r@) == slots_messages(inline_slots(json_model(*val)), composer_id@),
        all_wf(views(r@)),
{
    let mut messages: Vec<Message> = Vec::new();
    let ghost slots = inline_slots(json_model(*val));
    assert(views(messages@) =~= Seq::<MessageModel>::empty());
    match items_at(json::get(val, "conversation")) {
        Some(turns) => {
            let mut i: usize = 0;
            assert(slots.take(0) =~= Seq::<Option<JsonModel>>::empty());
            while i < turns.len()
                invariant
                    i <= turns.len(),
                    slots == models(turns@).map_values(|turn: JsonModel| Some(turn)),
                    views(messages@) == slots_messages(slots.take(i as int), composer_id@),
                    all_wf(views(messages@)),
                decreases turns.len() - i,
            {
                proof {
                    assert(slots.take(i + 1).drop_last() =~= slots.take(i as int));
                    assert(slots.take(i + 1).last() == Some(json_model(turns[i as int])));
                }
                let ghost before = messages@;
                match bubble_to_message(&turns[i], composer_id, i as u64) {
                    Some(message) => {
                        messages.push(message);
                        assert(views(messages@) =~= views(before).push(message@));
                    },
                    None => {},
                }
                i = i + 1;
            }
            assert(slots.take(turns.len() as int) =~= slots);
        },
        None => {
            assert(slots =~= Seq::<Option<JsonModel>>::empty());
        },
    }
    messages
}

fn split_turn(header: &Value, blob: Option<&String>) -> (r: Option<Value>)
    ensures
        crate::model::opt_json(r) == split_slot(json_model(*header), match blob {
            Some(text) => Some(text@),
            None => None,
        }),
{
    match text_of(json::get(header, "bubbleId")) {
        Some(_) => match blob {
            Some(text) => match json::parse(text.as_str()) {
                Ok(turn) => Some(turn),
                Err(_) => None,
            },
            None => None,
        },
        None => None,
    }
}

/// Decodes the turns of a container that holds headers only. `blobs` holds
/// what was fetched for each header, in the order of the headers; a header
/// with nothing fetched for it gives no message.
pub fn load_messages_v6(composer_id: &str, val: &Value, blobs: &Vec<Option<String>>) -> (r: Vec<
    Message,
>)
    ensures
        views(r@) == slots_messages(
            split_slots(json_model(*val), opt_texts(blobs@)),
            composer_id@,
        ),
        all_wf(views(r@)),
{
    let mut messages: Vec<Message> = Vec::new();
    let ghost slots = split_slots(json_model(*val), opt_texts(blobs@));
    assert(views(messages@) =~= Seq::<MessageModel>::empty());
    match items_at(json::get(val, "fullConversationHeadersOnly")) {
        Some(headers) => {
            let mut i: usize = 0;
            assert(slots.take(0) =~= Seq::<Option<JsonModel>>::empty());
            while i < headers.len()
                invariant
                    i <= headers.len(),
                    headers_of(json_model(*val)) == models(headers@),
                    slots == split_slots(json_model(*val), opt_texts(blobs@)),
                    views(messages@) == slots_messages(slots.take(i as int), composer_id@),
                    all_wf(views(messages@)),
                decreases headers.len() - i,
            {
                let blob = if i < blobs.len() {
                    blobs[i].as_ref()
                } else {
                    None
                };
                let turn = split_turn(&headers[i], blob);
                proof {
                    assert(slots.take(i + 1).drop_last() =~= slots.take(i as int));
                    assert(slots.take(i + 1).last() == slots[i as int]);
                    assert(crate::model::opt_json(turn) == slots[i as int]);
                }
                let ghost before = messages@;
                match turn {
                    Some(bubble) => match bubble_to_message(&bubble, composer_id, i as u64) {
                        Some(message) => {
                            messages.push(message);
                            assert(views(messages@) =~= views(before).push(message@));
                        },
                        None => {},
                    },
                    None => {},
                }
                i = i + 1;
            }
            assert(slots.take(headers.len() as int) =~= slots);
        },
        None => {
            assert(slots =~= Seq::<Option<JsonModel>>::empty());
        },
    }
    messages
}

/// The schema version from which on a container holds headers only.
pub const SPLIT_SCHEMA_VERSION: i64 = 6;

/// The schema version of a container: its member `_v`, or 0.
pub open spec fn schema_version_of(container: JsonModel) -> i64 {
    match opt_i64(member(container, "_v"@)) {
        Some(v) => v,
        None => 0,
    }
}

/// Reads the schema version of a container.
pub fn schema_version(val: &Value) -> (r: i64)
    ensures
        r == schema_version_of(json_model(*val)),
{
    match i64_at(json::get(val, "_v")) {
        Some(v) => v,
        None => 0,
    }
}

/// The key under which the container of a conversation is kept.
pub open spec fn composer_key_text(composer: Seq<char>) -> Seq<char> {
    "composerData:"@ + composer
}

/// The key under which the container of the conversation `composer_id` is
/// kept.
pub fn composer_key(composer_id: &str) -> (r: String)
    ensures
        r@ == composer_key_text(composer_id@),
{
    joined("composerData:", composer_id)
}

/// The key under which one turn of a conversation is kept.
pub open spec fn bubble_key_text(composer: Seq<char>, bubble: Seq<char>) -> Seq<char> {
    "bubbleId:"@ + composer + ":"@ + bubble
}

/// The key under which the turn `bubble_id` of the conversation
/// `composer_id` is kept.
pub fn bubble_key(composer_id: &str, bubble_id: &str) -> (r: String)
    ensures
        r@ == bubble_key_text(composer_id@, bubble_id@),
{
    let mut key = joined("bubbleId:", composer_id);
    key.append(":");
    key.append(bubble_id);
    key
}

/// The key to fetch for one header; none where the header has no `bubbleId`.
pub open spec fn slot_key(header: JsonModel, composer: Seq<char>) -> Option<Seq<char>> {
    match opt_str(member(header, "bubbleId"@)) {
        Some(bubble) => Some(bubble_key_text(composer, bubble)),
        None => None,
    }
}

/// The keys to fetch for a container: one for each header from schema
/// version 6 on, none below.
pub open spec fn slot_keys(container: JsonModel, composer: Seq<char>) -> Seq<Option<Seq<char>>> {
    if schema_version_of(container) >= SPLIT_SCHEMA_VERSION {
        headers_of(container).map_values(|header: JsonModel| slot_key(header, composer))
    } else {
        Seq::empty()
    }
}

/// The keys of the records that `load_messages` needs besides the
/// container, in the order in which it takes them.
pub fn bubble_keys(composer_id: &str, val: &Value) -> (r: Vec<Option<String>>)
    ensures
        opt_texts(r@) == slot_keys(json_model(*val), composer_id@),
{
    let mut keys: Vec<Option<String>> = Vec::new();
    assert(opt_texts(keys@) =~= Seq::<Option<Seq<char>>>::empty());
    if schema_version(val) < SPLIT_SCHEMA_VERSION {
        return keys;
    }
    let ghost wanted = slot_keys(json_model(*val), composer_id@);
    match items_at(json::get(val, "fullConversationHeadersOnly")) {
        Some(headers) => {
            let mut i: usize = 0;
            while i < headers.len()
                invariant
                    i <= headers.len(),
                    wanted == models(headers@).map_values(
                        |header: JsonModel| slot_key(header, composer_id@),
                    ),
                    opt_texts(keys@) == wanted.take(i as int),
                decreases headers.len() - i,
            {
                let ghost before = keys@;
                let key = match text_of(json::get(&headers[i], "bubbleId")) {
                    Some(bubble) => Some(bubble_key(composer_id, bubble)),
                    None => None,
                };
                keys.push(key);
                assert(opt_texts(keys@) =~= opt_texts(before).push(opt_text(key)));
                assert(wanted.take(i + 1) =~= wanted.take(i as int).push(wanted[i as int]));
                i = i + 1;
            }
            assert(wanted.take(headers.len() as int) =~= wanted);
        },
        None => {
            assert(wanted =~= Seq::<Option<Seq<char>>>::empty());
        },
    }
    keys
}

/// Parses the container that was fetched for the conversation
/// `composer_id`. A conversation without a container is not found; a
/// container that is not JSON is a decoding error.
pub fn read_container(composer_id: &str, fetched: Option<&str>) -> (r: Result<Value, ProviderError>)
    ensures
        match fetched {
            Some(text) => match parsed_json(text@) {
                Some(container) => r matches Ok(v) && json_model(v) == container,
                None => r matches Err(e) && e@ is Decode,
            },
            None => r matches Err(e) && e@ == ErrorModel::NotFound(
                "Composer not found: "@ + composer_id@,
            ),
        },
{
    match fetched {
        Some(text) => match json::parse(text) {
            Ok(container) => Ok(container),
            Err(message) => Err(ProviderError::Decode(message)),
        },
        None => Err(ProviderError::NotFound(joined("Composer not found: ", composer_id))),
    }
}

pub(crate) fn fetched_text(fetched: &Vec<Option<String>>, i: usize) -> (r: Option<&str>)
    ensures
        match r {
            Some(text) => fetched_at(opt_texts(fetched@), i as int) == Some(text@),
            None => fetched_at(opt_texts(fetched@), i as int) is None,
        },
{
    if i < fetched.len() {
        match &fetched[i] {
            Some(text) => Some(text.as_str()),
            None => None,
        }
    } else {
        None
    }
}

} // verus!
