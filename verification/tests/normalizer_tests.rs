use astro_helper::camera_controller::{
    plan_write, widget_to_record, CameraController, Widget, WritePlan,
};
use astro_helper::numeric::{i64_to_dec_string, is_float_literal, u64_to_dec_string};

fn toggle_widget() -> Widget {
    Widget::Toggle { toggled: Some(false), readonly: false }
}

#[test]
fn toggle_truth_table() {
    for raw in ["true", "t", "1"] {
        assert_eq!(plan_write(&toggle_widget(), raw), WritePlan::SetToggle(true), "{raw}");
    }
    for raw in ["false", "f", "0", "yes", "", "TRUE", "True", " true", "2"] {
        assert_eq!(plan_write(&toggle_widget(), raw), WritePlan::SetToggle(false), "{raw}");
    }
}

#[test]
fn group_and_button_and_date_reject_writes() {
    assert_eq!(plan_write(&Widget::Group, "x"), WritePlan::Reject);
    assert_eq!(plan_write(&Widget::Button, "x"), WritePlan::Reject);
    let date = Widget::Date { timestamp: 0, readonly: false };
    assert_eq!(plan_write(&date, "17"), WritePlan::Reject);
}

#[test]
fn text_write_passes_through_verbatim() {
    let w = Widget::Text { value: "old".to_string(), readonly: false };
    assert_eq!(plan_write(&w, "anything at all"), WritePlan::SetText("anything at all".to_string()));
}

#[test]
fn range_write_requires_a_number() {
    let w = Widget::Range { value: "5".to_string(), readonly: false };
    assert_eq!(plan_write(&w, "2.5"), WritePlan::SetNumeric("2.5".to_string()));
    assert_eq!(plan_write(&w, "not a number"), WritePlan::Reject);
}

#[test]
fn float_grammar_agrees_with_float_parser() {
    let cases = [
        "1", "12", "1.5", ".5", "5.", "0.0050", "1e3", "1E3", "1e+3", "1e-3", "1.25e-3", "5.e2",
        ".5e2", "+1", "-1", "-.5", "+5.", "inf", "Inf", "INF", "-inf", "+inf", "infinity",
        "Infinity", "nan", "NaN", "NAN", "-nan", "", ".", "-", "+", "e3", "1e", "1e+", "1e3.5",
        "--1", "1..2", "1.2.3", "0x10", "1_000", " 1", "1 ", "abc", "infx", "nanx", "in",
        "1,5", "12800",
    ];
    for raw in cases {
        assert_eq!(
            is_float_literal(raw),
            raw.parse::<f32>().is_ok(),
            "case {raw:?}"
        );
    }
}

#[test]
fn decimal_text_of_integers() {
    assert_eq!(u64_to_dec_string(0), "0");
    assert_eq!(u64_to_dec_string(7), "7");
    assert_eq!(u64_to_dec_string(10), "10");
    assert_eq!(u64_to_dec_string(1736899200), "1736899200");
    assert_eq!(u64_to_dec_string(u64::MAX), u64::MAX.to_string());
    assert_eq!(i64_to_dec_string(0), "0");
    assert_eq!(i64_to_dec_string(-1), "-1");
    assert_eq!(i64_to_dec_string(-987), "-987");
    assert_eq!(i64_to_dec_string(i64::MAX), i64::MAX.to_string());
    assert_eq!(i64_to_dec_string(i64::MIN), i64::MIN.to_string());
}

#[test]
fn read_maps_each_kind() {
    assert_eq!(widget_to_record("grp", &Widget::Group), None);
    assert_eq!(widget_to_record("btn", &Widget::Button), None);

    let text = widget_to_record(
        "artist",
        &Widget::Text { value: "nobody".to_string(), readonly: false },
    )
    .unwrap();
    assert_eq!(text.id, "artist");
    assert_eq!(text.value, "nobody");
    assert!(text.choices.is_empty());
    assert!(!text.readonly);

    let toggled = widget_to_record(
        "beep",
        &Widget::Toggle { toggled: Some(true), readonly: false },
    )
    .unwrap();
    assert_eq!(toggled.value, "true");
    let untoggled = widget_to_record(
        "beep",
        &Widget::Toggle { toggled: Some(false), readonly: false },
    )
    .unwrap();
    assert_eq!(untoggled.value, "false");
    let indeterminate = widget_to_record(
        "beep",
        &Widget::Toggle { toggled: None, readonly: false },
    )
    .unwrap();
    assert_eq!(indeterminate.value, "false");

    let date = widget_to_record(
        "clock",
        &Widget::Date { timestamp: -1736899200, readonly: true },
    )
    .unwrap();
    assert_eq!(date.value, "-1736899200");
    assert!(date.readonly);

    let radio = widget_to_record(
        "mode",
        &Widget::Radio {
            choice: "b".to_string(),
            choices: vec!["a".to_string(), "b".to_string()],
            readonly: false,
        },
    )
    .unwrap();
    assert_eq!(radio.value, "b");
    assert_eq!(radio.choices, vec!["a".to_string(), "b".to_string()]);
}

#[test]
fn canned_iso_read() {
    let mut camera = CameraController::new();
    let config = camera.get_config("iso").unwrap();
    assert_eq!(config.id, "iso");
    assert_eq!(config.value, "12800");
    assert_eq!(
        config.choices,
        ["100", "200", "400", "800", "1600", "3200", "6400", "12800", "25600"]
            .map(String::from)
            .to_vec()
    );
    assert!(!config.readonly);
}

#[test]
fn unknown_setting_reads_nothing() {
    let mut camera = CameraController::new();
    assert_eq!(camera.get_config("bogus"), None);
}

#[test]
fn readonly_setting_rejects_write() {
    let mut camera = CameraController::new();
    let config = camera.get_config("f-number").unwrap();
    assert!(config.readonly);
    assert!(config.choices.contains(&"f/8".to_string()));
    assert!(!camera.set_config("f-number", "f/8"));
}

#[test]
fn radio_write_validates_membership() {
    let mut camera = CameraController::new();
    assert!(camera.set_config("iso", "800"));
    assert!(!camera.set_config("iso", "999"));
    assert!(!camera.set_config("bogus", "1"));
}

#[test]
fn listing_and_battery_and_capture() {
    let mut camera = CameraController::new();
    assert_eq!(
        camera.list_config().unwrap(),
        ["iso", "shutterspeed", "f-number"].map(String::from).to_vec()
    );
    assert_eq!(camera.get_battery_level(), Some(80));
    assert!(!camera.capture());
    assert_eq!(camera.capture_preview(), None);
}
