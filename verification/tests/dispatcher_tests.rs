use astro_helper::camera_controller::CameraController;
use astro_helper::codec::decode_data;
use astro_helper::data::AstroData;
use astro_helper::dispatcher::{
    handle_updates, join_ids, parse_write_payload, CharacteristicIds, ResponseCode,
    TransportEvent,
};

fn ids() -> CharacteristicIds {
    CharacteristicIds::standard()
}

#[test]
fn write_payload_splits_at_first_equals() {
    let kv = parse_write_payload(b"iso=800").unwrap();
    assert_eq!(kv.0, "iso");
    assert_eq!(kv.1, "800");

    assert_eq!(parse_write_payload(b"isoonly"), None);

    let kv = parse_write_payload(b"a=b=c").unwrap();
    assert_eq!(kv.0, "a");
    assert_eq!(kv.1, "b=c");

    let kv = parse_write_payload(b"=v").unwrap();
    assert_eq!(kv.0, "");
    assert_eq!(kv.1, "v");

    assert_eq!(parse_write_payload(&[0xff, b'=', b'x']), None);
}

#[test]
fn battery_read_returns_level() {
    let table = ids();
    let mut camera = CameraController::new();
    let outcome = handle_updates(
        &table,
        TransportEvent::ReadRequest { characteristic: table.battery_level, offset: 0 },
        &mut camera,
    );
    let reply = outcome.read_reply.unwrap();
    assert_eq!(reply.value, vec![80u8]);
    assert_eq!(reply.code, ResponseCode::Success);
    assert!(outcome.write_reply.is_none());
    assert!(outcome.push.is_none());
}

#[test]
fn list_read_answers_and_pushes() {
    let table = ids();
    let mut camera = CameraController::new();
    let outcome = handle_updates(
        &table,
        TransportEvent::ReadRequest { characteristic: table.config_list, offset: 0 },
        &mut camera,
    );
    let reply = outcome.read_reply.unwrap();
    assert_eq!(reply.value, b"iso,shutterspeed,f-number".to_vec());
    assert_eq!(reply.code, ResponseCode::Success);
    let push = outcome.push.unwrap();
    assert_eq!(push.characteristic, table.config_list);
    let expected: Vec<String> = ["iso", "shutterspeed", "f-number"].map(String::from).to_vec();
    assert_eq!(push.value, bincode::serialize(&expected).unwrap());
}

#[test]
fn joined_ids_are_comma_separated() {
    let items: Vec<String> = ["iso", "shutterspeed", "f-number"].map(String::from).to_vec();
    assert_eq!(join_ids(&items), b"iso,shutterspeed,f-number".to_vec());
    assert_eq!(join_ids(&Vec::new()), Vec::<u8>::new());
    assert_eq!(join_ids(&vec!["solo".to_string()]), b"solo".to_vec());
}

#[test]
fn setting_read_request_pushes_encoded_record() {
    let table = ids();
    let mut camera = CameraController::new();
    let outcome = handle_updates(
        &table,
        TransportEvent::WriteRequest {
            characteristic: table.config_read,
            offset: 0,
            value: b"iso".to_vec(),
        },
        &mut camera,
    );
    assert_eq!(outcome.write_reply.unwrap().code, ResponseCode::Success);
    let push = outcome.push.unwrap();
    assert_eq!(push.characteristic, table.config_read);
    let decoded = decode_data(&push.value).unwrap();
    let AstroData::CameraConfig(config) = decoded;
    assert_eq!(config.id, "iso");
    assert_eq!(config.value, "12800");
}

#[test]
fn setting_read_request_rejects_bad_payloads() {
    let table = ids();
    let mut camera = CameraController::new();
    for payload in [vec![0xffu8], b"bogus".to_vec()] {
        let outcome = handle_updates(
            &table,
            TransportEvent::WriteRequest {
                characteristic: table.config_read,
                offset: 0,
                value: payload,
            },
            &mut camera,
        );
        assert_eq!(outcome.write_reply.unwrap().code, ResponseCode::UnlikelyError);
        assert!(outcome.push.is_none());
    }
}

#[test]
fn setting_write_request_round_trips() {
    let table = ids();
    let mut camera = CameraController::new();
    let ok = handle_updates(
        &table,
        TransportEvent::WriteRequest {
            characteristic: table.config_write,
            offset: 0,
            value: b"iso=800".to_vec(),
        },
        &mut camera,
    );
    assert_eq!(ok.write_reply.unwrap().code, ResponseCode::Success);
    assert!(ok.push.is_none());

    for payload in [
        b"isoonly".to_vec(),
        b"iso=999".to_vec(),
        b"f-number=f/8".to_vec(),
        vec![0xffu8],
    ] {
        let outcome = handle_updates(
            &table,
            TransportEvent::WriteRequest {
                characteristic: table.config_write,
                offset: 0,
                value: payload,
            },
            &mut camera,
        );
        assert_eq!(outcome.write_reply.unwrap().code, ResponseCode::UnlikelyError);
    }
}

#[test]
fn capture_acknowledges_success_although_capture_fails() {
    let table = ids();
    let mut camera = CameraController::new();
    // the simulated capture itself reports failure
    assert!(!camera.capture());
    let outcome = handle_updates(
        &table,
        TransportEvent::WriteRequest {
            characteristic: table.capture,
            offset: 0,
            value: Vec::new(),
        },
        &mut camera,
    );
    assert_eq!(outcome.write_reply.unwrap().code, ResponseCode::Success);
    assert!(outcome.push.is_none());
    assert!(outcome.read_reply.is_none());
}

#[test]
fn unknown_characteristics_and_state_events_answer_nothing() {
    let table = ids();
    let mut camera = CameraController::new();
    let events = [
        TransportEvent::StateUpdate { is_powered: true },
        TransportEvent::SubscriptionUpdate { subscribed: true },
        TransportEvent::ReadRequest { characteristic: 42, offset: 0 },
        TransportEvent::WriteRequest { characteristic: 42, offset: 0, value: b"x".to_vec() },
    ];
    for event in events {
        let outcome = handle_updates(&table, event, &mut camera);
        assert!(outcome.read_reply.is_none());
        assert!(outcome.write_reply.is_none());
        assert!(outcome.push.is_none());
    }
}

#[test]
fn battery_reply_without_level_is_not_supported() {
    let reply = astro_helper::dispatcher::battery_read_reply(None);
    assert_eq!(reply.value, vec![0u8]);
    assert_eq!(reply.code, ResponseCode::RequestNotSupported);
    let reply = astro_helper::dispatcher::battery_read_reply(Some(33));
    assert_eq!(reply.value, vec![33u8]);
    assert_eq!(reply.code, ResponseCode::Success);
}

#[test]
fn failed_list_enumeration_answers_nothing() {
    let (push, reply) = astro_helper::dispatcher::list_read_outcome(None, ids().config_list);
    assert!(push.is_none());
    assert!(reply.is_none());
}
