//! The characteristic dispatcher.
//!
//! Requests arrive from the wireless transport tagged by the identity
//! of the characteristic they address. The dispatcher routes each one:
//! a battery read, a setting-list read, a setting read carried as a
//! write payload, a setting write of the shape `key=value`, or a
//! capture trigger. Every syntactically valid request is answered
//! exactly once; some also push data to subscribers. Two deliberate
//! asymmetries of the protocol are kept as they are: a failed
//! setting-list enumeration answers nothing at all, and a capture
//! trigger acknowledges success whether or not the capture itself
//! succeeded.

use vstd::prelude::*;
use vstd::slice::*;
use vstd::string::*;
use vstd::utf8::*;

use crate::camera_controller::{spec_get_config, spec_set_config_ok, spec_sim_ids, CameraController};
use crate::codec::{
    bytes_to_string, compressed_of, serialize_id_list, spec_encodable, spec_serialize,
    spec_serialize_str_list, try_encode_data,
};
use crate::data::{AstroData, CameraConfig, ConfigModel, EnvelopeModel};

verus! {

broadcast use vstd::seq_lib::group_seq_lib_default, vstd::seq::group_seq_axioms;

// ---------------------------------------------------------------------
// The configuration table of characteristic identities
// ---------------------------------------------------------------------
/// The identities of the services and characteristics the dispatcher
/// serves: process-wide constants, carried as one immutable table.
pub struct CharacteristicIds {
    pub battery_service: u128,
    pub battery_level: u128,
    pub config_service: u128,
    pub config_read: u128,
    pub config_write: u128,
    pub config_list: u128,
    pub capture: u128,
}

/// The stable identities of this bridge's services and
/// characteristics.
pub open spec fn spec_standard_ids() -> CharacteristicIds {
    CharacteristicIds {
        battery_service: 0x0000180F_0000_1000_8000_00805f9b34fb,
        battery_level: 0x00002A19_0000_1000_8000_00805f9b34fb,
        config_service: 0x6C7028E2DC4A11EF913475E88A34574D,
        config_read: 0x87BDECC4DC4A11EFAB7FB7E88A34574D,
        config_write: 0x994E9452DC4A11EFB90EF0E88A34574D,
        config_list: 0x9C39AB84DC4A11EF8C45FAE88A34574D,
        capture: 0x114fc821_6a6e_4e81_bd05_1dd5ab7a679b,
    }
}

impl CharacteristicIds {
    /// Builds the standard table.
    pub fn standard() -> (r: CharacteristicIds)
        ensures
            r == spec_standard_ids(),
    {
        CharacteristicIds {
            battery_service: 0x0000180F_0000_1000_8000_00805f9b34fb,
            battery_level: 0x00002A19_0000_1000_8000_00805f9b34fb,
            config_service: 0x6C7028E2DC4A11EF913475E88A34574D,
            config_read: 0x87BDECC4DC4A11EFAB7FB7E88A34574D,
            config_write: 0x994E9452DC4A11EFB90EF0E88A34574D,
            config_list: 0x9C39AB84DC4A11EF8C45FAE88A34574D,
            capture: 0x114fc821_6a6e_4e81_bd05_1dd5ab7a679b,
        }
    }
}

// ---------------------------------------------------------------------
// Events and outcomes
// ---------------------------------------------------------------------
/// One event from the wireless transport, already reduced to plain
/// values.
pub enum TransportEvent {
    StateUpdate { is_powered: bool },
    SubscriptionUpdate { subscribed: bool },
    ReadRequest { characteristic: u128, offset: u16 },
    WriteRequest { characteristic: u128, offset: u16, value: Vec<u8> },
}

/// The response code returned to the requesting client.
#[derive(Clone, Copy, Debug, PartialEq, Eq, Structural)]
pub enum ResponseCode {
    Success,
    RequestNotSupported,
    UnlikelyError,
}

/// The direct answer to a read request.
#[derive(Debug, PartialEq)]
pub struct ReadReply {
    pub value: Vec<u8>,
    pub code: ResponseCode,
}

/// The direct answer to a write request.
#[derive(Debug, PartialEq)]
pub struct WriteReply {
    pub code: ResponseCode,
}

/// Data pushed to the subscribers of one characteristic, besides any
/// direct answer.
#[derive(Debug, PartialEq)]
pub struct Push {
    pub characteristic: u128,
    pub value: Vec<u8>,
}

/// Everything one event asks of the transport: at most one direct
/// answer, and at most one push.
pub struct DispatchOutcome {
    pub read_reply: Option<ReadReply>,
    pub write_reply: Option<WriteReply>,
    pub push: Option<Push>,
}

/// An outcome that answers nothing and pushes nothing.
pub open spec fn spec_no_action(r: DispatchOutcome) -> bool {
    r.read_reply is None && r.write_reply is None && r.push is None
}

// ---------------------------------------------------------------------
// The comma-joined form of the setting list
// ---------------------------------------------------------------------
/// The bytes of the identifiers joined with one comma between
/// neighbours.
pub open spec fn spec_join_ids(items: Seq<Seq<char>>) -> Seq<u8>
    decreases items.len(),
{
    if items.len() == 0 {
        Seq::empty()
    } else if items.len() == 1 {
        encode_utf8(items[0])
    } else {
        encode_utf8(items[0]) + seq![44u8] + spec_join_ids(items.drop_first())
    }
}

/// Joining one more identifier appends a comma and its bytes, except
/// onto an empty list.
proof fn lemma_join_ids_push(items: Seq<Seq<char>>, s: Seq<char>)
    ensures
        spec_join_ids(items.push(s)) == if items.len() == 0 {
            encode_utf8(s)
        } else {
            spec_join_ids(items) + seq![44u8] + spec_join_ids(seq![s])
        },
    decreases items.len(),
{
    assert(spec_join_ids(seq![s]) == encode_utf8(s));
    if items.len() == 0 {
        assert(items.push(s).len() == 1);
        assert(items.push(s)[0] == s);
    } else if items.len() == 1 {
        assert(items.push(s)[0] == items[0]);
        assert(items.push(s).drop_first() =~= seq![s]);
    } else {
        assert(items.push(s)[0] == items[0]);
        assert(items.push(s).drop_first() =~= items.drop_first().push(s));
        lemma_join_ids_push(items.drop_first(), s);
        assert(encode_utf8(items[0]) + seq![44u8] + (spec_join_ids(items.drop_first()) + seq![
            44u8,
        ] + encode_utf8(s)) =~= (encode_utf8(items[0]) + seq![44u8] + spec_join_ids(
            items.drop_first(),
        )) + seq![44u8] + encode_utf8(s));
    }
}

/// Joins setting identifiers into one comma-separated byte string,
/// the human-readable answer to a setting-list read.
pub fn join_ids(items: &Vec<String>) -> (r: Vec<u8>)
    ensures
        r@ == spec_join_ids(items.deep_view()),
{
    let ghost models = items.deep_view();
    let mut out: Vec<u8> = Vec::new();
    let mut i: usize = 0;
    while i < items.len()
        invariant
            i <= items.len(),
            models == items.deep_view(),
            models.len() == items.len(),
            out@ == spec_join_ids(models.take(i as int)),
        decreases items.len() - i,
    {
        if i > 0 {
            out.push(44);
        }
        let bytes = items[i].as_str().as_bytes();
        out.extend_from_slice(bytes);
        proof {
            assert(items[i as int]@ == models[i as int]);
            lemma_join_ids_push(models.take(i as int), models[i as int]);
            assert(models.take(i as int).push(models[i as int]) =~= models.take(i as int + 1));
            if i == 0 {
                assert(out@ =~= spec_join_ids(models.take(i as int + 1)));
            } else {
                assert(out@ =~= spec_join_ids(models.take(i as int)) + seq![44u8] + encode_utf8(
                    models[i as int],
                ));
            }
        }
        i += 1;
    }
    proof {
        assert(models.take(i as int) =~= models);
    }
    out
}

// ---------------------------------------------------------------------
// The write payload of the shape `key=value`
// ---------------------------------------------------------------------
/// The first position at or after `from` that holds `=`, or the text
/// length where none does.
pub open spec fn spec_first_eq(s: Seq<char>, from: int) -> int
    decreases s.len() - from,
    when from <= s.len()
{
    if from < 0 || from >= s.len() {
        s.len() as int
    } else if s[from] == '=' {
        from
    } else {
        spec_first_eq(s, from + 1)
    }
}

/// The split of a payload at its first `=`: the key before it and
/// everything after it, or nothing for a payload without `=`.
pub open spec fn spec_split_kv(s: Seq<char>) -> Option<(Seq<char>, Seq<char>)> {
    let i = spec_first_eq(s, 0);
    if i < s.len() {
        Some((s.subrange(0, i), s.subrange(i + 1, s.len() as int)))
    } else {
        None
    }
}

/// True when the character at `i` is `=`.
fn char_at_is_eq(s: &str, i: usize) -> (r: bool)
    requires
        i < s@.len(),
    ensures
        r == (s@[i as int] == '='),
{
    s.get_char(i) == '='
}

/// The first position holding `=`, or the text length.
fn first_eq_index(s: &str) -> (r: usize)
    ensures
        r == spec_first_eq(s@, 0),
        r <= s@.len(),
{
    let len = s.unicode_len();
    let mut i: usize = 0;
    while i < len && !char_at_is_eq(s, i)
        invariant
            i <= len,
            len == s@.len(),
            spec_first_eq(s@, 0) == spec_first_eq(s@, i as int),
        decreases len - i,
    {
        i += 1;
    }
    i
}

/// Parses a write payload: it must be UTF-8 text holding at least one
/// `=`, and splits at the first one.
pub fn parse_write_payload(value: &[u8]) -> (r: Option<(String, String)>)
    ensures
        match r {
            Some(kv) => valid_utf8(value@) && spec_split_kv(decode_utf8(value@)) == Some(
                (kv.0@, kv.1@),
            ),
            None => !valid_utf8(value@) || spec_split_kv(decode_utf8(value@)) is None,
        },
{
    let text = match bytes_to_string(slice_to_vec(value)) {
        Some(t) => t,
        None => {
            return None;
        },
    };
    let len = text.as_str().unicode_len();
    let i = first_eq_index(text.as_str());
    if i >= len {
        return None;
    }
    let key = text.as_str().substring_char(0, i).to_owned();
    let val = text.as_str().substring_char(i + 1, len).to_owned();
    Some((key, val))
}

// ---------------------------------------------------------------------
// Per-characteristic outcomes
// ---------------------------------------------------------------------
/// The direct answer to a battery read: the level with success, or a
/// zero byte with a not-supported code where the driver gave none.
pub fn battery_read_reply(level: Option<u8>) -> (r: ReadReply)
    ensures
        match level {
            Some(b) => r.value@ == seq![b] && r.code == ResponseCode::Success,
            None => r.value@ == seq![0u8] && r.code == ResponseCode::RequestNotSupported,
        },
{
    match level {
        Some(b) => {
            let mut value: Vec<u8> = Vec::new();
            value.push(b);
            proof {
                assert(value@ =~= seq![b]);
            }
            ReadReply { value, code: ResponseCode::Success }
        },
        None => {
            let mut value: Vec<u8> = Vec::new();
            value.push(0);
            proof {
                assert(value@ =~= seq![0u8]);
            }
            ReadReply { value, code: ResponseCode::RequestNotSupported }
        },
    }
}

/// The outcome of a setting-list read: on success, the serialized
/// list is pushed to subscribers and the comma-joined text is the
/// direct answer; on a failed enumeration, deliberately, neither a
/// push nor an answer is sent.
pub fn list_read_outcome(list: Option<Vec<String>>, list_characteristic: u128) -> (r: (
    Option<Push>,
    Option<ReadReply>,
))
    ensures
        match list {
            Some(ids) => {
                &&& r.0 matches Some(p) && p.characteristic == list_characteristic && p.value@
                    == spec_serialize_str_list(ids.deep_view())
                &&& r.1 matches Some(reply) && reply.value@ == spec_join_ids(ids.deep_view())
                    && reply.code == ResponseCode::Success
            },
            None => r.0 is None && r.1 is None,
        },
{
    match list {
        Some(ids) => {
            let push_value = serialize_id_list(&ids);
            let reply_value = join_ids(&ids);
            (
                Some(Push { characteristic: list_characteristic, value: push_value }),
                Some(ReadReply { value: reply_value, code: ResponseCode::Success }),
            )
        },
        None => (None, None),
    }
}

/// The outcome of a setting read request: the encoded record is
/// pushed to subscribers and the write acknowledged, or the write is
/// acknowledged failed with nothing pushed — for a missing record,
/// and for the out-of-machine-reach record whose serialized form the
/// compressor's size prefix cannot frame.
pub fn config_read_outcome(config: Option<CameraConfig>, read_characteristic: u128) -> (r: (
    Option<Push>,
    WriteReply,
))
    ensures
        match config {
            Some(c) => {
                &&& spec_encodable(EnvelopeModel::CameraConfig(c@)) ==> {
                    &&& r.0 matches Some(p) && p.characteristic == read_characteristic && p.value@
                        == compressed_of(spec_serialize(EnvelopeModel::CameraConfig(c@)))
                    &&& r.1.code == ResponseCode::Success
                }
                &&& !spec_encodable(EnvelopeModel::CameraConfig(c@)) ==> r.0 is None && r.1.code
                    == ResponseCode::UnlikelyError
            },
            None => r.0 is None && r.1.code == ResponseCode::UnlikelyError,
        },
{
    match config {
        Some(c) => match try_encode_data(AstroData::CameraConfig(c)) {
            Some(encoded) => (
                Some(Push { characteristic: read_characteristic, value: encoded }),
                WriteReply { code: ResponseCode::Success },
            ),
            None => (None, WriteReply { code: ResponseCode::UnlikelyError }),
        },
        None => (None, WriteReply { code: ResponseCode::UnlikelyError }),
    }
}

// ---------------------------------------------------------------------
// The dispatcher
// ---------------------------------------------------------------------
/// The record a setting read request with this payload asks for, if
/// the payload is UTF-8 text naming a setting the driver reports.
pub open spec fn spec_read_request_record(payload: Seq<u8>) -> Option<ConfigModel> {
    if valid_utf8(payload) {
        spec_get_config(decode_utf8(payload))
    } else {
        None
    }
}

/// True when a setting write request with this payload reaches the
/// driver at all: the payload is UTF-8 text of the shape `key=value`.
/// A payload that is not is rejected before any driver call.
pub open spec fn spec_write_request_parses(payload: Seq<u8>) -> bool {
    valid_utf8(payload) && spec_split_kv(decode_utf8(payload)) is Some
}

/// True when a setting write request with this payload commits: the
/// payload is UTF-8 text of the shape `key=value`, and the write of
/// `value` to the setting `key` succeeds on the driver.
pub open spec fn spec_write_request_ok(payload: Seq<u8>) -> bool {
    valid_utf8(payload) && match spec_split_kv(decode_utf8(payload)) {
        Some(kv) => spec_set_config_ok(kv.0, kv.1),
        None => false,
    }
}

/// Routes one transport event against the simulated camera and
/// produces every answer and push the event asks for.
///
/// A capture trigger is acknowledged with success whether or not the
/// capture itself succeeded: the trigger is fire-and-forget by
/// design, and the simulated camera's capture in fact always fails.
pub fn handle_updates(
    ids: &CharacteristicIds,
    update: TransportEvent,
    camera: &mut CameraController,
) -> (r: DispatchOutcome)
    ensures
        match update {
            TransportEvent::StateUpdate { .. } => spec_no_action(r) && *final(camera) == *old(
                camera,
            ),
            TransportEvent::SubscriptionUpdate { .. } => spec_no_action(r) && *final(camera)
                == *old(camera),
            TransportEvent::ReadRequest { characteristic, .. } => {
                if characteristic == ids.battery_level {
                    &&& r.read_reply matches Some(reply) && reply.value@ == seq![80u8]
                        && reply.code == ResponseCode::Success
                    &&& r.write_reply is None && r.push is None
                    &&& final(camera).connected()
                } else if characteristic == ids.config_list {
                    &&& r.push matches Some(p) && p.characteristic == ids.config_list && p.value@
                        == spec_serialize_str_list(spec_sim_ids())
                    &&& r.read_reply matches Some(reply) && reply.value@ == spec_join_ids(
                        spec_sim_ids(),
                    ) && reply.code == ResponseCode::Success
                    &&& r.write_reply is None
                    &&& final(camera).connected()
                } else {
                    spec_no_action(r) && *final(camera) == *old(camera)
                }
            },
            TransportEvent::WriteRequest { characteristic, value, .. } => {
                if characteristic == ids.config_read {
                    &&& match spec_read_request_record(value@) {
                        Some(c) => {
                            &&& spec_encodable(EnvelopeModel::CameraConfig(c)) ==> {
                                &&& r.push matches Some(p) && p.characteristic == ids.config_read
                                    && p.value@ == compressed_of(
                                    spec_serialize(EnvelopeModel::CameraConfig(c)),
                                )
                                &&& r.write_reply matches Some(w) && w.code
                                    == ResponseCode::Success
                            }
                            &&& !spec_encodable(EnvelopeModel::CameraConfig(c)) ==> r.push is None
                                && (r.write_reply matches Some(w) && w.code
                                == ResponseCode::UnlikelyError)
                        },
                        None => r.push is None && (r.write_reply matches Some(w) && w.code
                            == ResponseCode::UnlikelyError),
                    }
                    &&& r.read_reply is None
                    &&& (valid_utf8(value@) ==> final(camera).connected())
                    &&& (!valid_utf8(value@) ==> *final(camera) == *old(camera))
                } else if characteristic == ids.config_write {
                    &&& r.write_reply matches Some(w) && w.code == (
                    if spec_write_request_ok(value@) {
                        ResponseCode::Success
                    } else {
                        ResponseCode::UnlikelyError
                    })
                    &&& r.read_reply is None && r.push is None
                    &&& (spec_write_request_parses(value@) ==> final(camera).connected())
                    &&& (!spec_write_request_parses(value@) ==> *final(camera) == *old(camera))
                } else if characteristic == ids.capture {
                    &&& r.write_reply matches Some(w) && w.code == ResponseCode::Success
                    &&& r.read_reply is None && r.push is None
                    &&& final(camera).connected()
                } else {
                    spec_no_action(r) && *final(camera) == *old(camera)
                }
            },
        },
{
    match update {
        TransportEvent::StateUpdate { .. } => DispatchOutcome {
            read_reply: None,
            write_reply: None,
            push: None,
        },
        TransportEvent::SubscriptionUpdate { .. } => DispatchOutcome {
            read_reply: None,
            write_reply: None,
            push: None,
        },
        TransportEvent::ReadRequest { characteristic, .. } => {
            if characteristic == ids.battery_level {
                let level = camera.get_battery_level();
                let reply = battery_read_reply(level);
                DispatchOutcome { read_reply: Some(reply), write_reply: None, push: None }
            } else if characteristic == ids.config_list {
                let list = camera.list_config();
                let (push, reply) = list_read_outcome(list, ids.config_list);
                DispatchOutcome { read_reply: reply, write_reply: None, push }
            } else {
                DispatchOutcome { read_reply: None, write_reply: None, push: None }
            }
        },
        TransportEvent::WriteRequest { characteristic, value, .. } => {
            if characteristic == ids.config_read {
                let config = match bytes_to_string(value) {
                    Some(id_text) => camera.get_config(id_text.as_str()),
                    None => None,
                };
                let (push, reply) = config_read_outcome(config, ids.config_read);
                DispatchOutcome { read_reply: None, write_reply: Some(reply), push }
            } else if characteristic == ids.config_write {
                let committed = match parse_write_payload(value.as_slice()) {
                    Some((key, val)) => camera.set_config(key.as_str(), val.as_str()),
                    None => false,
                };
                let code = if committed {
                    ResponseCode::Success
                } else {
                    ResponseCode::UnlikelyError
                };
                DispatchOutcome {
                    read_reply: None,
                    write_reply: Some(WriteReply { code }),
                    push: None,
                }
            } else if characteristic == ids.capture {
                let _captured = camera.capture();
                DispatchOutcome {
                    read_reply: None,
                    write_reply: Some(WriteReply { code: ResponseCode::Success }),
                    push: None,
                }
            } else {
                DispatchOutcome { read_reply: None, write_reply: None, push: None }
            }
        },
    }
}

} // verus!
