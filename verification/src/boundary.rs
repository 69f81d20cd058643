//! The foreign boundary adapter.
//!
//! A decoded record can cross into a foreign memory regime as a
//! fixed-layout structure: every string becomes an independently owned
//! zero-terminated byte buffer, and the choice list becomes an owned
//! array of such buffers with an explicit count. The structure is held
//! behind a single-owner handle with exactly two operations: it is
//! allocated by [`decode_camera_config`] and consumed by
//! [`free_camera_config`]. Because the handle moves into the release
//! call and nothing can copy it, a double release cannot be written,
//! and because every buffer is owned by the structure, releasing the
//! handle frees each allocation exactly once.

use vstd::prelude::*;
use vstd::string::*;
use vstd::utf8::*;

use crate::codec::{decompressed_of, spec_deserialize};
use crate::data::{AstroData, ConfigModel, EnvelopeModel};

verus! {

broadcast use vstd::seq_lib::group_seq_lib_default, vstd::seq::group_seq_axioms;

/// Mathematical model of a [`CameraConfigC`]: each buffer as its
/// bytes.
#[verifier::ext_equal]
pub ghost struct CRecordModel {
    pub id: Seq<u8>,
    pub value: Seq<u8>,
    pub choices: Seq<Seq<u8>>,
    pub choices_len: nat,
    pub readonly: bool,
}

/// The buffer a string crosses the boundary as: its UTF-8 bytes with
/// one terminating zero byte.
pub open spec fn c_bytes_of(s: Seq<char>) -> Seq<u8> {
    encode_utf8(s).push(0u8)
}

/// True when the UTF-8 form of a string holds no zero byte, so that a
/// zero-terminated buffer can carry it faithfully.
pub open spec fn c_representable(s: Seq<char>) -> bool {
    !encode_utf8(s).contains(0u8)
}

/// True when every string of the record can cross the boundary.
pub open spec fn config_c_representable(m: ConfigModel) -> bool {
    &&& c_representable(m.id)
    &&& c_representable(m.value)
    &&& forall|i: int| 0 <= i < m.choices.len() ==> c_representable(#[trigger] m.choices[i])
}

/// The fixed-layout form of a record.
pub open spec fn spec_c_record(m: ConfigModel) -> CRecordModel {
    CRecordModel {
        id: c_bytes_of(m.id),
        value: c_bytes_of(m.value),
        choices: m.choices.map_values(|s: Seq<char>| c_bytes_of(s)),
        choices_len: m.choices.len(),
        readonly: m.readonly,
    }
}

/// What decoding to an owned structure yields: nothing on empty
/// input, on any decode failure, and for a record that a
/// zero-terminated buffer cannot carry; otherwise the fixed-layout
/// form of the one record the bytes decode to.
pub open spec fn spec_decode_to_owned(input: Seq<u8>) -> Option<CRecordModel> {
    if input.len() == 0 {
        None
    } else {
        match decompressed_of(input) {
            Some(u) => match spec_deserialize(u) {
                Some(e) => {
                    let m = e->CameraConfig_0;
                    if config_c_representable(m) {
                        Some(spec_c_record(m))
                    } else {
                        None
                    }
                },
                None => None,
            },
            None => None,
        }
    }
}

/// Fixed-layout mirror of a configuration record for the foreign
/// boundary: owned zero-terminated buffers for the identifier and the
/// value, an owned array of such buffers for the choices, the
/// explicit element count of that array, and the read-only byte.
pub struct CameraConfigC {
    id: Vec<u8>,
    value: Vec<u8>,
    choices: Vec<Vec<u8>>,
    choices_len: usize,
    readonly: bool,
}

impl View for CameraConfigC {
    type V = CRecordModel;

    closed spec fn view(&self) -> CRecordModel {
        CRecordModel {
            id: self.id@,
            value: self.value@,
            choices: self.choices.deep_view(),
            choices_len: self.choices_len as nat,
            readonly: self.readonly,
        }
    }
}

impl CameraConfigC {
    /// The identifier's zero-terminated buffer.
    pub fn id_bytes(&self) -> (r: &Vec<u8>)
        ensures
            r@ == self@.id,
    {
        &self.id
    }

    /// The value's zero-terminated buffer.
    pub fn value_bytes(&self) -> (r: &Vec<u8>)
        ensures
            r@ == self@.value,
    {
        &self.value
    }

    /// The explicit element count of the choice array.
    pub fn choices_len(&self) -> (r: usize)
        ensures
            r as nat == self@.choices_len,
    {
        self.choices_len
    }

    /// One choice's zero-terminated buffer.
    pub fn choice_at(&self, i: usize) -> (r: &Vec<u8>)
        requires
            i < self@.choices.len(),
        ensures
            r@ == self@.choices[i as int],
    {
        &self.choices[i]
    }

    /// The read-only marker.
    pub fn readonly(&self) -> (r: bool)
        ensures
            r == self@.readonly,
    {
        self.readonly
    }
}

/// The single-owner handle to one decoded fixed-layout record. A null
/// handle owns nothing. No operation but [`decode_camera_config`]
/// makes one, and only [`free_camera_config`] consumes one.
pub struct CameraConfigHandle {
    inner: Option<CameraConfigC>,
}

impl View for CameraConfigHandle {
    type V = Option<CRecordModel>;

    closed spec fn view(&self) -> Option<CRecordModel> {
        match self.inner {
            Some(c) => Some(c@),
            None => None,
        }
    }
}

impl CameraConfigHandle {
    /// Whether the handle owns nothing.
    pub fn is_null(&self) -> (r: bool)
        ensures
            r == (self@ is None),
    {
        match &self.inner {
            Some(_) => false,
            None => true,
        }
    }

    /// The record a non-null handle owns.
    pub fn record(&self) -> (r: &CameraConfigC)
        requires
            self@ is Some,
        ensures
            self@ == Some(r@),
    {
        match &self.inner {
            Some(c) => c,
            None => vstd::pervasive::unreached(),
        }
    }
}

/// Rebuilds one string as a zero-terminated buffer, or refuses a
/// string whose UTF-8 form holds a zero byte — refusal, not an abort,
/// is this crate's answer to a string no C string can carry.
fn to_c_bytes(s: &str) -> (r: Option<Vec<u8>>)
    ensures
        match r {
            Some(v) => c_representable(s@) && v@ == c_bytes_of(s@),
            None => !c_representable(s@),
        },
{
    let mut bytes = s.as_bytes_vec();
    let mut i: usize = 0;
    while i < bytes.len()
        invariant
            bytes@ == encode_utf8(s@),
            i <= bytes@.len(),
            forall|j: int| 0 <= j < i ==> bytes@[j] != 0u8,
        decreases bytes@.len() - i,
    {
        if bytes[i] == 0 {
            proof {
                assert(encode_utf8(s@)[i as int] == 0u8);
                assert(encode_utf8(s@).contains(0u8));
            }
            return None;
        }
        i += 1;
    }
    bytes.push(0);
    Some(bytes)
}

/// Decodes wire bytes and, on success, allocates the fixed-layout
/// structure for the foreign boundary. Returns a null handle on empty
/// input and on any decode failure; it never allocates part of a
/// record.
///
/// A decoded record one of whose strings holds an interior zero byte
/// cannot cross as zero-terminated buffers. Such a record also yields
/// a null handle: this library's functions do not panic, so the
/// abort that a C-string constructor would raise on such a string is
/// turned into the same failure value as a decode failure.
pub fn decode_camera_config(data: &[u8]) -> (h: CameraConfigHandle)
    ensures
        h@ == spec_decode_to_owned(data@),
{
    if data.len() == 0 {
        return CameraConfigHandle { inner: None };
    }
    let decoded = match crate::codec::decode_data(data) {
        Some(d) => d,
        None => {
            return CameraConfigHandle { inner: None };
        },
    };
    let ghost denv = decoded@;
    proof {
        assert(decompressed_of(data@) matches Some(u) && spec_deserialize(u) == Some(denv));
    }
    match decoded {
        AstroData::CameraConfig(config) => {
            let ghost m = config@;
            proof {
                assert(denv == EnvelopeModel::CameraConfig(m));
            }
            let id_c = match to_c_bytes(config.id.as_str()) {
                Some(v) => v,
                None => {
                    return CameraConfigHandle { inner: None };
                },
            };
            let value_c = match to_c_bytes(config.value.as_str()) {
                Some(v) => v,
                None => {
                    return CameraConfigHandle { inner: None };
                },
            };
            let mut choices_c: Vec<Vec<u8>> = Vec::new();
            let mut i: usize = 0;
            while i < config.choices.len()
                invariant
                    i <= config.choices.len(),
                    data@.len() != 0,
                    decompressed_of(data@) matches Some(u) && spec_deserialize(u) == Some(
                        EnvelopeModel::CameraConfig(m),
                    ),
                    m.choices == config.choices.deep_view(),
                    choices_c.deep_view().len() == i,
                    forall|j: int|
                        0 <= j < i ==> #[trigger] choices_c.deep_view()[j] == c_bytes_of(
                            m.choices[j],
                        ),
                    forall|j: int| 0 <= j < i ==> c_representable(#[trigger] m.choices[j]),
                decreases config.choices.len() - i,
            {
                match to_c_bytes(config.choices[i].as_str()) {
                    Some(v) => {
                        let ghost prev = choices_c.deep_view();
                        proof {
                            assert(v.deep_view() =~= v@);
                        }
                        choices_c.push(v);
                        proof {
                            assert(choices_c.deep_view() =~= prev.push(v@));
                        }
                    },
                    None => {
                        proof {
                            assert(!c_representable(m.choices[i as int]));
                            assert(!config_c_representable(m));
                        }
                        return CameraConfigHandle { inner: None };
                    },
                }
                i += 1;
            }
            let record = CameraConfigC {
                id: id_c,
                value: value_c,
                choices_len: choices_c.len(),
                choices: choices_c,
                readonly: config.readonly,
            };
            proof {
                assert(record@.choices =~= m.choices.map_values(|s: Seq<char>| c_bytes_of(s)));
                assert(record@ =~= spec_c_record(m));
            }
            CameraConfigHandle { inner: Some(record) }
        },
    }
}

/// Releases everything a handle owns: the identifier buffer, the
/// value buffer, every choice buffer, the choice array and the record
/// itself; a no-op on a null handle. The handle moves into this call,
/// so it cannot be released twice, and nothing else can release or
/// alias what it owns.
pub fn free_camera_config(handle: CameraConfigHandle) {
    let CameraConfigHandle { inner } = handle;
    match inner {
        Some(record) => {
            // each binding drops here, freeing its buffer exactly once
            let CameraConfigC {
                id: _id,
                value: _value,
                choices: _choices,
                choices_len: _,
                readonly: _,
            } = record;
        },
        None => {},
    }
}

} // verus!
