use astro_helper::boundary::{decode_camera_config, free_camera_config};
use astro_helper::codec::encode_data;
use astro_helper::data::{AstroData, CameraConfig};

fn c_string_to_string(bytes: &Vec<u8>) -> String {
    assert_eq!(bytes.last(), Some(&0u8), "buffer must be zero-terminated");
    let inner = &bytes[..bytes.len() - 1];
    assert!(!inner.contains(&0u8), "no interior zero byte");
    String::from_utf8(inner.to_vec()).unwrap()
}

#[test]
fn it_works() {
    let start_config = CameraConfig {
        id: "iso".to_string(),
        value: "12800".to_string(),
        choices: [
            "100", "200", "400", "800", "1600", "3200", "6400", "12800", "25600",
        ]
        .map(String::from)
        .to_vec(),
        readonly: false,
    };

    let encoded_data = encode_data(AstroData::CameraConfig(start_config.clone()));
    let handle = decode_camera_config(&encoded_data);

    if handle.is_null() {
        assert!(false);
    }

    let config = handle.record();

    assert_eq!(start_config.id, c_string_to_string(config.id_bytes()));
    assert_eq!(start_config.value, c_string_to_string(config.value_bytes()));
    assert_eq!(start_config.readonly, config.readonly());

    let mut choices: Vec<String> = Vec::new();
    for i in 0..config.choices_len() {
        choices.push(c_string_to_string(config.choice_at(i)));
    }
    assert_eq!(start_config.choices, choices);

    // Free the allocated memory
    free_camera_config(handle);
}

#[test]
fn null_handle_on_empty_input() {
    let handle = decode_camera_config(&[]);
    assert!(handle.is_null());
    free_camera_config(handle);
}

#[test]
fn null_handle_on_garbage_input() {
    let handle = decode_camera_config(&[1, 2, 3, 4, 5, 6, 7, 8, 9]);
    assert!(handle.is_null());
    free_camera_config(handle);
}

#[test]
fn null_handle_on_truncated_input() {
    let encoded = encode_data(AstroData::CameraConfig(CameraConfig {
        id: "iso".to_string(),
        value: "800".to_string(),
        choices: vec![],
        readonly: false,
    }));
    let handle = decode_camera_config(&encoded[..encoded.len() - 2]);
    assert!(handle.is_null());
    free_camera_config(handle);
}

#[test]
fn null_handle_on_interior_zero_byte() {
    // a record whose value holds a zero byte cannot cross as a C string
    let config = CameraConfig {
        id: "iso".to_string(),
        value: "12\u{0}800".to_string(),
        choices: vec![],
        readonly: false,
    };
    let encoded = encode_data(AstroData::CameraConfig(config));
    let handle = decode_camera_config(&encoded);
    assert!(handle.is_null());
    free_camera_config(handle);
}
