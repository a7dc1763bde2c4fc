use sori::devices::{
    automatic_mic, default_output_name, has_device, list_inputs, looks_virtual, resolve_mic,
    FoundDevice, InputDevice, TRANSPORT_VIRTUAL,
};

fn device(name: &str, is_default: bool, is_virtual: bool) -> InputDevice {
    InputDevice { name: name.to_string(), is_default, is_virtual }
}

#[test]
fn virtual_device_names_are_rejected() {
    assert!(looks_virtual("BlackHole 2ch"));
    assert!(looks_virtual("Multi-Input (MacBook Microphone + BlackHole)"));
    assert!(!looks_virtual("MacBook Pro Microphone"));
}

#[test]
fn virtual_names_are_found_in_any_case() {
    assert!(looks_virtual("my LOOPBACK device"));
    assert!(looks_virtual("vb-cable"));
    assert!(!looks_virtual(""));
}

#[test]
fn missing_explicit_device_does_not_fall_back() {
    let list = [device("MacBook Pro Microphone", true, false)];
    assert!(resolve_mic(&list, Some("definitely-not-a-real-device")).is_none());
    assert!(resolve_mic(&[], Some("definitely-not-a-real-device")).is_none());
}

#[test]
fn automatic_mode_prefers_the_physical_default() {
    let list = [device("A", false, false), device("B", true, false)];
    assert_eq!(automatic_mic(&list).unwrap().name, "B");
    let list = [device("V", true, true), device("A", false, false)];
    assert_eq!(resolve_mic(&list, None).unwrap().name, "A");
    let list = [device("V", true, true)];
    assert!(automatic_mic(&list).is_none());
    assert_eq!(resolve_mic(&list, Some("V")).unwrap().name, "V");
    assert!(has_device(&list, "V"));
    assert!(!has_device(&list, "A"));
}

#[test]
fn only_devices_that_record_are_listed() {
    let found = vec![
        FoundDevice {
            is_default: true,
            name: Some("Mic".to_string()),
            transport: None,
            input_channels: Some(vec![0, 1]),
        },
        FoundDevice {
            is_default: false,
            name: Some("Speaker".to_string()),
            transport: None,
            input_channels: Some(vec![0]),
        },
        FoundDevice {
            is_default: false,
            name: None,
            transport: None,
            input_channels: Some(vec![2]),
        },
        FoundDevice {
            is_default: false,
            name: Some("Tap".to_string()),
            transport: Some(TRANSPORT_VIRTUAL),
            input_channels: Some(vec![2]),
        },
        FoundDevice {
            is_default: false,
            name: Some("Soundflower (2ch)".to_string()),
            transport: Some(0),
            input_channels: Some(vec![2]),
        },
    ];
    let list = list_inputs(&found);
    let shown: Vec<(&str, bool, bool)> =
        list.iter().map(|d| (d.name.as_str(), d.is_default, d.is_virtual)).collect();
    assert_eq!(
        shown,
        [("Mic", true, false), ("Tap", false, true), ("Soundflower (2ch)", false, true)]
    );
}

#[test]
fn an_unreadable_output_has_a_stand_in() {
    assert_eq!(default_output_name(Some("Speakers".to_string())), "Speakers");
    assert_eq!(default_output_name(None), "Unknown output");
}
