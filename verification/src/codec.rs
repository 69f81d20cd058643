//! The wire codec.
//!
//! An envelope crosses the wire in two independent steps: it is first
//! serialized to a fixed binary layout, and the serialized bytes are
//! then compressed with a size-prefixed scheme. Decoding reverses both
//! steps and fails as a whole on corrupt, truncated or unknown-tag
//! input; no partial record is ever produced.
//!
//! The binary layout is: a 4-byte little-endian tag discriminating the
//! record kind, then the record fields in declaration order; a string
//! is its UTF-8 bytes prefixed by their 8-byte little-endian count, the
//! choice list is an 8-byte little-endian element count followed by its
//! strings, and the read-only flag is one byte, `1` or `0`.

use vstd::bytes::*;
use vstd::prelude::*;
use vstd::slice::*;
use vstd::utf8::*;

use crate::data::{AstroData, ConfigModel, EnvelopeModel};

verus! {

broadcast use vstd::seq_lib::group_seq_lib_default, vstd::seq::group_seq_axioms;

// ---------------------------------------------------------------------
// Serialization, at the specification level
// ---------------------------------------------------------------------
/// Wire form of one string: its UTF-8 byte count as 8 little-endian
/// bytes, then the UTF-8 bytes themselves.
pub open spec fn spec_serialize_str(s: Seq<char>) -> Seq<u8> {
    spec_u64_to_le_bytes(encode_utf8(s).len() as u64) + encode_utf8(s)
}

/// Wire form of a string sequence: the blocks of its elements, in order.
pub open spec fn spec_serialize_strs(items: Seq<Seq<char>>) -> Seq<u8>
    decreases items.len(),
{
    if items.len() == 0 {
        Seq::empty()
    } else {
        spec_serialize_str(items[0]) + spec_serialize_strs(items.drop_first())
    }
}

/// Wire form of a configuration record: its fields in declaration
/// order, the choice list prefixed by its element count.
pub open spec fn spec_serialize_config(m: ConfigModel) -> Seq<u8> {
    spec_serialize_str(m.id) + spec_serialize_str(m.value) + spec_u64_to_le_bytes(
        m.choices.len() as u64,
    ) + spec_serialize_strs(m.choices) + seq![
        if m.readonly {
            1u8
        } else {
            0u8
        },
    ]
}

/// Wire form of an envelope: the variant's tag, then the record.
pub open spec fn spec_serialize(e: EnvelopeModel) -> Seq<u8> {
    match e {
        EnvelopeModel::CameraConfig(m) => spec_u32_to_le_bytes(0u32) + spec_serialize_config(m),
    }
}

/// Wire form of a bare ordered list of identifiers, as pushed to
/// subscribers of the setting list: an element count, then the strings.
pub open spec fn spec_serialize_str_list(items: Seq<Seq<char>>) -> Seq<u8> {
    spec_u64_to_le_bytes(items.len() as u64) + spec_serialize_strs(items)
}

/// A record whose string and list lengths have a faithful 8-byte count
/// on the wire. Every record that exists at run time satisfies this.
pub open spec fn wf_config(m: ConfigModel) -> bool {
    &&& encode_utf8(m.id).len() <= u64::MAX
    &&& encode_utf8(m.value).len() <= u64::MAX
    &&& m.choices.len() <= u64::MAX
    &&& forall|i: int|
        0 <= i < m.choices.len() ==> encode_utf8(#[trigger] m.choices[i]).len() <= u64::MAX
}

/// See [`wf_config`].
pub open spec fn wf_envelope(e: EnvelopeModel) -> bool {
    match e {
        EnvelopeModel::CameraConfig(m) => wf_config(m),
    }
}

/// An envelope whose serialized form the compressor can frame: the
/// size prefix of the compressed block holds the byte count as 32
/// bits, so a serialized form must stay below that bound. Every
/// record of ordinary size satisfies this by a wide margin.
pub open spec fn spec_encodable(e: EnvelopeModel) -> bool {
    spec_serialize(e).len() < 0x1_0000_0000
}

// ---------------------------------------------------------------------
// Deserialization, at the specification level
// ---------------------------------------------------------------------
/// Reads 4 bytes at `pos` as a little-endian number.
pub open spec fn spec_parse_u32(bytes: Seq<u8>, pos: int) -> Option<(u32, int)> {
    if 0 <= pos && pos + 4 <= bytes.len() {
        Some((spec_u32_from_le_bytes(bytes.subrange(pos, pos + 4)), pos + 4))
    } else {
        None
    }
}

/// Reads 8 bytes at `pos` as a little-endian number.
pub open spec fn spec_parse_u64(bytes: Seq<u8>, pos: int) -> Option<(u64, int)> {
    if 0 <= pos && pos + 8 <= bytes.len() {
        Some((spec_u64_from_le_bytes(bytes.subrange(pos, pos + 8)), pos + 8))
    } else {
        None
    }
}

/// Reads one length-prefixed string at `pos`; the prefixed count of
/// bytes must be present and be valid UTF-8.
pub open spec fn spec_parse_str(bytes: Seq<u8>, pos: int) -> Option<(Seq<char>, int)> {
    match spec_parse_u64(bytes, pos) {
        Some((n, p)) => {
            if p + n <= bytes.len() && valid_utf8(bytes.subrange(p, p + n)) {
                Some((decode_utf8(bytes.subrange(p, p + n)), p + n))
            } else {
                None
            }
        },
        None => None,
    }
}

/// Reads `count` length-prefixed strings starting at `pos`.
pub open spec fn spec_parse_strs(bytes: Seq<u8>, pos: int, count: nat) -> Option<
    (Seq<Seq<char>>, int),
>
    decreases count,
{
    if count == 0 {
        Some((Seq::empty(), pos))
    } else {
        match spec_parse_str(bytes, pos) {
            Some((s, p)) => match spec_parse_strs(bytes, p, (count - 1) as nat) {
                Some((rest, p2)) => Some((seq![s] + rest, p2)),
                None => None,
            },
            None => None,
        }
    }
}

/// Reads one byte at `pos` as a boolean; only `0` and `1` are lawful.
pub open spec fn spec_parse_bool(bytes: Seq<u8>, pos: int) -> Option<(bool, int)> {
    if 0 <= pos && pos < bytes.len() {
        if bytes[pos] == 1 {
            Some((true, pos + 1))
        } else if bytes[pos] == 0 {
            Some((false, pos + 1))
        } else {
            None
        }
    } else {
        None
    }
}

/// The envelope described by `bytes`, when `bytes` is exactly the wire
/// form of one envelope: a known tag, then the record's fields, with
/// nothing left over. Anything else — an unknown tag, a truncated or
/// overlong field, bytes that are not UTF-8 where a string is owed, a
/// byte other than `0` or `1` for the flag, or trailing garbage — is
/// `None`.
pub open spec fn spec_deserialize(bytes: Seq<u8>) -> Option<EnvelopeModel> {
    match spec_parse_u32(bytes, 0) {
        Some((tag, p0)) => {
            if tag == 0 {
                match spec_parse_str(bytes, p0) {
                    Some((id, p1)) => match spec_parse_str(bytes, p1) {
                        Some((value, p2)) => match spec_parse_u64(bytes, p2) {
                            Some((count, p3)) => match spec_parse_strs(bytes, p3, count as nat) {
                                Some((choices, p4)) => match spec_parse_bool(bytes, p4) {
                                    Some((readonly, p5)) => {
                                        if p5 == bytes.len() {
                                            Some(
                                                EnvelopeModel::CameraConfig(
                                                    ConfigModel { id, value, choices, readonly },
                                                ),
                                            )
                                        } else {
                                            None
                                        }
                                    },
                                    None => None,
                                },
                                None => None,
                            },
                            None => None,
                        },
                        None => None,
                    },
                    None => None,
                }
            } else {
                None
            }
        },
        None => None,
    }
}

// ---------------------------------------------------------------------
// The round trip of the binary layout
// ---------------------------------------------------------------------
/// Serializing one more string extends the wire form by one block.
proof fn lemma_serialize_strs_push(items: Seq<Seq<char>>, s: Seq<char>)
    ensures
        spec_serialize_strs(items.push(s)) == spec_serialize_strs(items) + spec_serialize_str(s),
    decreases items.len(),
{
    if items.len() == 0 {
        assert(items.push(s)[0] == s);
        assert(items.push(s).drop_first() =~= Seq::<Seq<char>>::empty());
        assert(spec_serialize_strs(Seq::<Seq<char>>::empty()) == Seq::<u8>::empty());
        assert(spec_serialize_strs(items.push(s)) == spec_serialize_str(s)
            + Seq::<u8>::empty());
        assert(spec_serialize_str(s) + Seq::<u8>::empty() =~= spec_serialize_str(s));
        assert(spec_serialize_strs(items) == Seq::<u8>::empty());
        assert(Seq::<u8>::empty() + spec_serialize_str(s) =~= spec_serialize_str(s));
    } else {
        assert(items.push(s).drop_first() =~= items.drop_first().push(s));
        assert(items.push(s)[0] == items[0]);
        lemma_serialize_strs_push(items.drop_first(), s);
        assert(spec_serialize_str(items[0]) + (spec_serialize_strs(items.drop_first())
            + spec_serialize_str(s)) =~= (spec_serialize_str(items[0]) + spec_serialize_strs(
            items.drop_first(),
        )) + spec_serialize_str(s));
    }
}

/// A string block found inside a byte sequence parses back to exactly
/// the string it serializes.
proof fn lemma_parse_str_at(bytes: Seq<u8>, pos: int, s: Seq<char>)
    requires
        0 <= pos,
        encode_utf8(s).len() <= u64::MAX,
        pos + spec_serialize_str(s).len() <= bytes.len(),
        bytes.subrange(pos, pos + spec_serialize_str(s).len()) == spec_serialize_str(s),
    ensures
        spec_parse_str(bytes, pos) == Some(
            (s, pos + spec_serialize_str(s).len()),
        ),
{
    broadcast use vstd::utf8::encode_utf8_valid_utf8, vstd::utf8::encode_utf8_decode_utf8;

    lemma_auto_spec_u64_to_from_le_bytes();
    let n = encode_utf8(s).len() as int;
    let block = spec_serialize_str(s);
    assert(block.len() == 8 + n);
    assert(bytes.subrange(pos, pos + 8) =~= block.subrange(0, 8));
    assert(block.subrange(0, 8) =~= spec_u64_to_le_bytes(n as u64));
    assert(spec_u64_from_le_bytes(bytes.subrange(pos, pos + 8)) == n as u64);
    assert(bytes.subrange(pos + 8, pos + 8 + n) =~= block.subrange(8, 8 + n));
    assert(block.subrange(8, 8 + n) =~= encode_utf8(s));
    assert(valid_utf8(bytes.subrange(pos + 8, pos + 8 + n)));
    assert(decode_utf8(bytes.subrange(pos + 8, pos + 8 + n)) == s);
}

/// A run of string blocks found inside a byte sequence parses back to
/// exactly the strings it serializes.
proof fn lemma_parse_strs_at(bytes: Seq<u8>, pos: int, items: Seq<Seq<char>>)
    requires
        0 <= pos,
        forall|i: int|
            0 <= i < items.len() ==> encode_utf8(#[trigger] items[i]).len() <= u64::MAX,
        pos + spec_serialize_strs(items).len() <= bytes.len(),
        bytes.subrange(pos, pos + spec_serialize_strs(items).len()) == spec_serialize_strs(items),
    ensures
        spec_parse_strs(bytes, pos, items.len()) == Some(
            (items, pos + spec_serialize_strs(items).len()),
        ),
    decreases items.len(),
{
    if items.len() == 0 {
        assert(spec_parse_strs(bytes, pos, 0) == Some((Seq::<Seq<char>>::empty(), pos)));
        assert(items =~= Seq::<Seq<char>>::empty());
    } else {
        let head = items[0];
        let rest = items.drop_first();
        let head_block = spec_serialize_str(head);
        let all = spec_serialize_strs(items);
        assert(all =~= head_block + spec_serialize_strs(rest));
        assert(bytes.subrange(pos, pos + head_block.len() as int) =~= all.subrange(
            0,
            head_block.len() as int,
        ));
        assert(all.subrange(0, head_block.len() as int) =~= head_block);
        lemma_parse_str_at(bytes, pos, head);
        let p = pos + head_block.len() as int;
        assert(bytes.subrange(p, p + spec_serialize_strs(rest).len() as int) =~= all.subrange(
            head_block.len() as int,
            all.len() as int,
        ));
        assert(all.subrange(head_block.len() as int, all.len() as int) =~= spec_serialize_strs(
            rest,
        ));
        lemma_parse_strs_at(bytes, p, rest);
        assert(spec_parse_strs(bytes, pos, items.len()) == Some(
            (seq![head] + rest, p + spec_serialize_strs(rest).len()),
        ));
        assert(seq![head] + rest =~= items);
    }
}

/// The binary layout loses nothing: deserializing the wire form of an
/// envelope gives back exactly that envelope.
pub proof fn lemma_serialize_then_deserialize(e: EnvelopeModel)
    requires
        wf_envelope(e),
    ensures
        spec_deserialize(spec_serialize(e)) == Some(e),
{
    broadcast use vstd::utf8::encode_utf8_valid_utf8, vstd::utf8::encode_utf8_decode_utf8;

    let m = e->CameraConfig_0;
    let bytes = spec_serialize(e);
    let tag = spec_u32_to_le_bytes(0u32);
    let id_block = spec_serialize_str(m.id);
    let value_block = spec_serialize_str(m.value);
    let count_block = spec_u64_to_le_bytes(m.choices.len() as u64);
    let choices_block = spec_serialize_strs(m.choices);
    let flag = seq![if m.readonly { 1u8 } else { 0u8 }];
    lemma_auto_spec_u32_to_from_le_bytes();
    lemma_auto_spec_u64_to_from_le_bytes();
    assert(bytes =~= tag + id_block + value_block + count_block + choices_block + flag);
    let p0 = 4int;
    let p1 = p0 + id_block.len() as int;
    let p2 = p1 + value_block.len() as int;
    let p3 = p2 + 8;
    let p4 = p3 + choices_block.len() as int;
    let p5 = p4 + 1;
    assert(bytes.len() == p5);
    // the tag
    assert(bytes.subrange(0, 4) =~= tag);
    assert(spec_parse_u32(bytes, 0) == Some((0u32, p0)));
    // the identifier
    assert(bytes.subrange(p0, p1) =~= id_block);
    lemma_parse_str_at(bytes, p0, m.id);
    // the value
    assert(bytes.subrange(p1, p2) =~= value_block);
    lemma_parse_str_at(bytes, p1, m.value);
    // the element count of the choice list
    assert(bytes.subrange(p2, p3) =~= count_block);
    assert(spec_parse_u64(bytes, p2) == Some((m.choices.len() as u64, p3)));
    // the choice list
    assert(bytes.subrange(p3, p4) =~= choices_block);
    lemma_parse_strs_at(bytes, p3, m.choices);
    // the read-only flag
    assert(bytes[p4] == if m.readonly { 1u8 } else { 0u8 });
    assert(spec_parse_bool(bytes, p4) == Some((m.readonly, p5)));
}

// ---------------------------------------------------------------------
// Serialization, executable
// ---------------------------------------------------------------------
/// Appends one string's wire block to `out`.
fn serialize_str_into(out: &mut Vec<u8>, s: &str)
    ensures
        final(out)@ == old(out)@ + spec_serialize_str(s@),
        encode_utf8(s@).len() <= u64::MAX,
{
    let bytes = s.as_bytes();
    let mut len_bytes = u64_to_le_bytes(bytes.len() as u64);
    out.append(&mut len_bytes);
    out.extend_from_slice(bytes);
    assert(final(out)@ =~= old(out)@ + spec_serialize_str(s@));
}

/// Serializes an envelope to its binary wire layout, before
/// compression.
pub fn serialize_envelope(data: &AstroData) -> (r: Vec<u8>)
    ensures
        r@ == spec_serialize(data@),
        wf_envelope(data@),
{
    match data {
        AstroData::CameraConfig(c) => {
            let mut out: Vec<u8> = u32_to_le_bytes(0u32);
            serialize_str_into(&mut out, c.id.as_str());
            serialize_str_into(&mut out, c.value.as_str());
            let mut count_bytes = u64_to_le_bytes(c.choices.len() as u64);
            out.append(&mut count_bytes);
            let ghost before_choices = out@;
            let ghost choice_models = c.choices.deep_view();
            let mut i: usize = 0;
            while i < c.choices.len()
                invariant
                    i <= c.choices.len(),
                    choice_models == c.choices.deep_view(),
                    choice_models.len() == c.choices.len(),
                    out@ == before_choices + spec_serialize_strs(choice_models.take(i as int)),
                    forall|j: int|
                        0 <= j < i ==> encode_utf8(#[trigger] choice_models[j]).len() <= u64::MAX,
                decreases c.choices.len() - i,
            {
                assert(c.choices[i as int]@ == choice_models[i as int]);
                serialize_str_into(&mut out, c.choices[i].as_str());
                proof {
                    lemma_serialize_strs_push(choice_models.take(i as int), choice_models[i as int]);
                    assert(choice_models.take(i as int).push(choice_models[i as int])
                        =~= choice_models.take(i as int + 1));
                }
                i += 1;
            }
            assert(choice_models.take(i as int) =~= choice_models);
            out.push(if c.readonly { 1 } else { 0 });
            assert(out@ =~= spec_serialize(data@));
            out
        },
    }
}

/// Serializes a bare list of setting identifiers, as pushed to
/// subscribers of the setting list.
pub fn serialize_id_list(items: &Vec<String>) -> (r: Vec<u8>)
    ensures
        r@ == spec_serialize_str_list(items.deep_view()),
{
    let mut out: Vec<u8> = u64_to_le_bytes(items.len() as u64);
    let ghost before = out@;
    let ghost models = items.deep_view();
    let mut i: usize = 0;
    while i < items.len()
        invariant
            i <= items.len(),
            models == items.deep_view(),
            models.len() == items.len(),
            out@ == before + spec_serialize_strs(models.take(i as int)),
        decreases items.len() - i,
    {
        assert(items[i as int]@ == models[i as int]);
        serialize_str_into(&mut out, items[i].as_str());
        proof {
            lemma_serialize_strs_push(models.take(i as int), models[i as int]);
            assert(models.take(i as int).push(models[i as int]) =~= models.take(i as int + 1));
        }
        i += 1;
    }
    assert(models.take(i as int) =~= models);
    assert(out@ =~= spec_serialize_str_list(items.deep_view()));
    out
}

// ---------------------------------------------------------------------
// Deserialization, executable
// ---------------------------------------------------------------------
/// Relies on `String::from_utf8`: it returns the decoding of the bytes
/// exactly when they are valid UTF-8, and fails otherwise.
#[verifier::external_body]
pub(crate) fn bytes_to_string(bytes: Vec<u8>) -> (r: Option<String>)
    ensures
        match r {
            Some(s) => valid_utf8(bytes@) && s@ == decode_utf8(bytes@),
            None => !valid_utf8(bytes@),
        },
{
    String::from_utf8(bytes).ok()
}

/// Reads 8 bytes at `pos` as a little-endian number.
fn parse_u64_at(bytes: &[u8], pos: usize) -> (r: Option<(u64, usize)>)
    ensures
        match r {
            Some((x, p)) => spec_parse_u64(bytes@, pos as int) == Some((x, p as int)),
            None => spec_parse_u64(bytes@, pos as int) is None,
        },
{
    if pos <= bytes.len() && bytes.len() - pos >= 8 {
        let sub = slice_subrange(bytes, pos, pos + 8);
        Some((u64_from_le_bytes(sub), pos + 8))
    } else {
        None
    }
}

/// Reads one length-prefixed UTF-8 string at `pos`.
fn parse_str_at(bytes: &[u8], pos: usize) -> (r: Option<(String, usize)>)
    ensures
        match r {
            Some((s, p)) => spec_parse_str(bytes@, pos as int) == Some((s@, p as int)),
            None => spec_parse_str(bytes@, pos as int) is None,
        },
{
    match parse_u64_at(bytes, pos) {
        Some((n, p)) => {
            if n <= (bytes.len() - p) as u64 {
                let n_us = n as usize;
                let sub = slice_subrange(bytes, p, p + n_us);
                match bytes_to_string(slice_to_vec(sub)) {
                    Some(s) => Some((s, p + n_us)),
                    None => None,
                }
            } else {
                None
            }
        },
        None => None,
    }
}

/// Reads `count` length-prefixed strings starting at `pos`.
fn parse_strs_at(bytes: &[u8], pos: usize, count: u64) -> (r: Option<(Vec<String>, usize)>)
    ensures
        match r {
            Some((v, p)) => spec_parse_strs(bytes@, pos as int, count as nat) == Some(
                (v.deep_view(), p as int),
            ),
            None => spec_parse_strs(bytes@, pos as int, count as nat) is None,
        },
{
    let mut acc: Vec<String> = Vec::new();
    let mut cur = pos;
    let mut i: u64 = 0;
    while i < count
        invariant
            i <= count,
            match spec_parse_strs(bytes@, cur as int, (count - i) as nat) {
                Some((rest, p)) => spec_parse_strs(bytes@, pos as int, count as nat) == Some(
                    (acc.deep_view() + rest, p),
                ),
                None => spec_parse_strs(bytes@, pos as int, count as nat) is None,
            },
        decreases count - i,
    {
        match parse_str_at(bytes, cur) {
            Some((s, p)) => {
                let ghost acc_before = acc.deep_view();
                acc.push(s);
                proof {
                    assert(acc.deep_view() =~= acc_before.push(s@));
                    if let Some((rest, p_end)) = spec_parse_strs(
                        bytes@,
                        p as int,
                        (count - i - 1) as nat,
                    ) {
                        assert(acc_before.push(s@) + rest =~= acc_before + (seq![s@] + rest));
                    }
                }
                cur = p;
                i += 1;
            },
            None => {
                return None;
            },
        }
    }
    proof {
        assert(spec_parse_strs(bytes@, cur as int, 0) == Some((Seq::<Seq<char>>::empty(), cur as int)));
        assert(acc.deep_view() + Seq::<Seq<char>>::empty() =~= acc.deep_view());
    }
    Some((acc, cur))
}

/// Deserializes the binary wire layout back into an envelope. Succeeds
/// exactly where [`spec_deserialize`] describes an envelope, and then
/// returns that envelope.
pub fn deserialize_envelope(bytes: &[u8]) -> (r: Option<AstroData>)
    ensures
        match r {
            Some(d) => spec_deserialize(bytes@) == Some(d@),
            None => spec_deserialize(bytes@) is None,
        },
{
    let tag = if bytes.len() >= 4 {
        let sub = slice_subrange(bytes, 0, 4);
        u32_from_le_bytes(sub)
    } else {
        return None;
    };
    if tag != 0 {
        return None;
    }
    let (id, p1) = match parse_str_at(bytes, 4) {
        Some(x) => x,
        None => {
            return None;
        },
    };
    let (value, p2) = match parse_str_at(bytes, p1) {
        Some(x) => x,
        None => {
            return None;
        },
    };
    let (count, p3) = match parse_u64_at(bytes, p2) {
        Some(x) => x,
        None => {
            return None;
        },
    };
    let (choices, p4) = match parse_strs_at(bytes, p3, count) {
        Some(x) => x,
        None => {
            return None;
        },
    };
    let (readonly, p5) = if p4 < bytes.len() {
        let b = *slice_index_get(bytes, p4);
        if b == 1 {
            (true, p4 + 1)
        } else if b == 0 {
            (false, p4 + 1)
        } else {
            return None;
        }
    } else {
        return None;
    };
    if p5 != bytes.len() {
        return None;
    }
    let config = crate::data::CameraConfig { id, value, choices, readonly };
    Some(AstroData::CameraConfig(config))
}

// ---------------------------------------------------------------------
// Compression, and the two public wire entry points
// ---------------------------------------------------------------------
/// The compressed, size-prefixed form of a byte sequence.
pub uninterp spec fn compressed_of(bytes: Seq<u8>) -> Seq<u8>;

/// What the size-prefixed decompressor makes of a byte sequence:
/// the recovered bytes, or nothing where the input is not a
/// well-formed compressed block.
pub uninterp spec fn decompressed_of(bytes: Seq<u8>) -> Option<Seq<u8>>;

/// Relies on `lz4_flex::compress_prepend_size`: its output is a pure
/// function of the input bytes, starts with the input's byte count as
/// 4 little-endian bytes, and `lz4_flex::decompress_size_prepended`
/// recovers exactly the input from it. The prefix holds the count as
/// 32 bits and silently truncates a larger one, after which
/// decompression no longer recovers the input, so larger inputs are
/// excluded here.
#[verifier::external_body]
fn lz4_compress(bytes: &[u8]) -> (r: Vec<u8>)
    requires
        bytes@.len() < 0x1_0000_0000,
    ensures
        r@ == compressed_of(bytes@),
        decompressed_of(r@) == Some(bytes@),
        r@.len() >= 4,
        r@.subrange(0, 4) == spec_u32_to_le_bytes(bytes@.len() as u32),
{
    lz4_flex::compress_prepend_size(bytes)
}

/// Relies on `lz4_flex::decompress_size_prepended`: its result is a
/// pure function of the input bytes, and it fails exactly where the
/// size-prefixed block does not decompress.
#[verifier::external_body]
fn lz4_decompress(bytes: &[u8]) -> (r: Option<Vec<u8>>)
    ensures
        match r {
            Some(v) => decompressed_of(bytes@) == Some(v@),
            None => decompressed_of(bytes@) is None,
        },
{
    lz4_flex::decompress_size_prepended(bytes).ok()
}

/// Encodes an envelope for the wire: serialize, then compress. The
/// bound demanded of the serialized form is the compressor's 32-bit
/// size prefix; [`try_encode_data`] makes the same call after testing
/// that bound.
///
/// The compression clauses of the contract, together with the
/// contract of [`decode_data`] and [`lemma_serialize_then_deserialize`],
/// give the wire round trip: decoding an encoded envelope returns
/// exactly that envelope.
pub fn encode_data(data: AstroData) -> (r: Vec<u8>)
    requires
        spec_encodable(data@),
    ensures
        wf_envelope(data@),
        r@ == compressed_of(spec_serialize(data@)),
        decompressed_of(r@) == Some(spec_serialize(data@)),
        r@.len() >= 4,
        r@.subrange(0, 4) == spec_u32_to_le_bytes(spec_serialize(data@).len() as u32),
{
    let serialized = serialize_envelope(&data);
    lz4_compress(serialized.as_slice())
}

/// Encodes an envelope for the wire where its serialized form fits
/// the compressor's 32-bit size prefix, and reports an envelope whose
/// form does not instead of framing it wrongly.
pub fn try_encode_data(data: AstroData) -> (r: Option<Vec<u8>>)
    ensures
        wf_envelope(data@),
        match r {
            Some(v) => {
                &&& spec_encodable(data@)
                &&& v@ == compressed_of(spec_serialize(data@))
                &&& decompressed_of(v@) == Some(spec_serialize(data@))
                &&& v@.len() >= 4
            },
            None => !spec_encodable(data@),
        },
{
    let serialized = serialize_envelope(&data);
    if (serialized.len() as u64) < 0x1_0000_0000u64 {
        Some(lz4_compress(serialized.as_slice()))
    } else {
        None
    }
}

/// Decodes wire bytes back into an envelope: decompress, then
/// deserialize. Both steps fail as one decode failure: the result is an
/// envelope exactly when the input decompresses and the recovered bytes
/// are the wire form of one envelope.
pub fn decode_data(input: &[u8]) -> (r: Option<AstroData>)
    ensures
        match decompressed_of(input@) {
            Some(u) => match r {
                Some(d) => spec_deserialize(u) == Some(d@),
                None => spec_deserialize(u) is None,
            },
            None => r is None,
        },
{
    match lz4_decompress(input) {
        Some(uncompressed) => deserialize_envelope(uncompressed.as_slice()),
        None => None,
    }
}

} // verus!
