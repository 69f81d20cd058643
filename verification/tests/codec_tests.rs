use astro_helper::codec::{decode_data, encode_data, deserialize_envelope, serialize_envelope, serialize_id_list};
use astro_helper::data::{AstroData, CameraConfig};

fn iso_config() -> CameraConfig {
    CameraConfig {
        id: "iso".to_string(),
        value: "12800".to_string(),
        choices: [
            "100", "200", "400", "800", "1600", "3200", "6400", "12800", "25600",
        ]
        .map(String::from)
        .to_vec(),
        readonly: false,
    }
}

#[test]
fn round_trip_exact() {
    let config = iso_config();
    let encoded = encode_data(AstroData::CameraConfig(config.clone()));
    let decoded = decode_data(&encoded);
    assert_eq!(decoded, Some(AstroData::CameraConfig(config)));
}

#[test]
fn round_trip_empty_fields() {
    let config = CameraConfig {
        id: String::new(),
        value: String::new(),
        choices: Vec::new(),
        readonly: true,
    };
    let encoded = encode_data(AstroData::CameraConfig(config.clone()));
    assert_eq!(decode_data(&encoded), Some(AstroData::CameraConfig(config)));
}

#[test]
fn round_trip_non_ascii() {
    let config = CameraConfig {
        id: "wei\u{df}abgleich".to_string(),
        value: "5500\u{b0}K \u{2600}".to_string(),
        choices: vec!["\u{2600}".to_string(), "\u{2601}".to_string()],
        readonly: false,
    };
    let encoded = encode_data(AstroData::CameraConfig(config.clone()));
    assert_eq!(decode_data(&encoded), Some(AstroData::CameraConfig(config)));
}

#[test]
fn decode_rejects_empty_input() {
    assert_eq!(decode_data(&[]), None);
}

#[test]
fn decode_rejects_truncated_block() {
    let encoded = encode_data(AstroData::CameraConfig(iso_config()));
    for cut in [1, encoded.len() / 2, encoded.len() - 1] {
        assert_eq!(decode_data(&encoded[..cut]), None);
    }
}

#[test]
fn decode_rejects_corrupt_length_prefix() {
    let mut encoded = encode_data(AstroData::CameraConfig(iso_config()));
    encoded[0] ^= 0xff;
    assert_eq!(decode_data(&encoded), None);
}

#[test]
fn deserialize_rejects_unknown_tag() {
    let mut serialized = serialize_envelope(&AstroData::CameraConfig(iso_config()));
    serialized[0] = 1;
    assert_eq!(deserialize_envelope(&serialized), None);
}

#[test]
fn decode_rejects_flipped_tag() {
    let serialized = serialize_envelope(&AstroData::CameraConfig(iso_config()));
    let mut corrupt = serialized.clone();
    corrupt[0] = 1;
    let encoded = lz4_flex::compress_prepend_size(&corrupt);
    assert_eq!(decode_data(&encoded), None);
}

#[test]
fn deserialize_rejects_trailing_bytes() {
    let mut serialized = serialize_envelope(&AstroData::CameraConfig(iso_config()));
    serialized.push(0);
    assert_eq!(deserialize_envelope(&serialized), None);
}

#[test]
fn deserialize_rejects_bad_flag_byte() {
    let mut serialized = serialize_envelope(&AstroData::CameraConfig(iso_config()));
    let last = serialized.len() - 1;
    serialized[last] = 2;
    assert_eq!(deserialize_envelope(&serialized), None);
}

#[test]
fn deserialize_rejects_invalid_utf8_field() {
    // a one-byte id that is not valid UTF-8
    let mut bytes: Vec<u8> = Vec::new();
    bytes.extend_from_slice(&0u32.to_le_bytes());
    bytes.extend_from_slice(&1u64.to_le_bytes());
    bytes.push(0xff);
    bytes.extend_from_slice(&0u64.to_le_bytes());
    bytes.extend_from_slice(&0u64.to_le_bytes());
    bytes.push(0);
    assert_eq!(deserialize_envelope(&bytes), None);
}

#[test]
fn serialized_layout_matches_reference_serializer() {
    let config = iso_config();
    let ours = serialize_envelope(&AstroData::CameraConfig(config.clone()));
    let reference = bincode::serialize(&(
        0u32,
        config.id.clone(),
        config.value.clone(),
        config.choices.clone(),
        config.readonly,
    ))
    .unwrap();
    assert_eq!(ours, reference);
}

#[test]
fn decode_accepts_reference_encoding() {
    let config = iso_config();
    let reference = bincode::serialize(&(
        0u32,
        config.id.clone(),
        config.value.clone(),
        config.choices.clone(),
        config.readonly,
    ))
    .unwrap();
    let encoded = lz4_flex::compress_prepend_size(&reference);
    assert_eq!(decode_data(&encoded), Some(AstroData::CameraConfig(config)));
}

#[test]
fn encode_output_readable_by_reference_decoder() {
    let config = iso_config();
    let encoded = encode_data(AstroData::CameraConfig(config.clone()));
    let uncompressed = lz4_flex::decompress_size_prepended(&encoded).unwrap();
    let (tag, id, value, choices, readonly): (u32, String, String, Vec<String>, bool) =
        bincode::deserialize(&uncompressed).unwrap();
    assert_eq!(tag, 0);
    assert_eq!(id, config.id);
    assert_eq!(value, config.value);
    assert_eq!(choices, config.choices);
    assert_eq!(readonly, config.readonly);
}

#[test]
fn id_list_layout_matches_reference_serializer() {
    let ids: Vec<String> = ["iso", "shutterspeed", "f-number"].map(String::from).to_vec();
    let ours = serialize_id_list(&ids);
    let reference = bincode::serialize(&ids).unwrap();
    assert_eq!(ours, reference);
}

#[test]
fn encoded_output_starts_with_serialized_length_prefix() {
    let envelope = AstroData::CameraConfig(iso_config());
    let serialized = serialize_envelope(&envelope);
    let encoded = encode_data(envelope);
    assert!(encoded.len() >= 4);
    assert_eq!(&encoded[..4], &(serialized.len() as u32).to_le_bytes());
}

#[test]
fn checked_encoding_matches_plain_encoding() {
    let envelope = AstroData::CameraConfig(iso_config());
    let checked = astro_helper::codec::try_encode_data(envelope.clone()).unwrap();
    assert_eq!(checked, encode_data(envelope));
}
