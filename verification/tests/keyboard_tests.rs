use keysync::config::KeySyncConfig;
use keysync::keyboard::{
    choose_selector, contains, parse_selector, starts_with, DeviceInfo, DeviceSelector, InputEvent,
    KeyboardMonitor, MonitorError, BTN_EXTRA, BTN_SIDE, EV_KEY, KEY_A, KEY_ENTER, KEY_PRESSED,
    KEY_SPACE,
};
use keysync::protocol::KeyEvent;
use std::collections::HashMap;

fn device(path: &str, name: Option<&str>, keys: &[u16]) -> DeviceInfo {
    DeviceInfo { path: path.to_string(), name: name.map(|n| n.to_string()), supported_keys: keys.to_vec() }
}

fn monitor(devices: Option<Vec<&str>>, outgoing: &[(u16, u16)]) -> KeyboardMonitor {
    let mut map = HashMap::new();
    for (k, v) in outgoing {
        map.insert(*k, *v);
    }
    let config = KeySyncConfig {
        incoming: HashMap::new(),
        outgoing: map,
        devices: devices.map(|d| d.iter().map(|s| s.to_string()).collect()),
    };
    KeyboardMonitor::new(config, "alice-1".to_string())
}

fn press(code: u16) -> InputEvent {
    InputEvent { event_type: EV_KEY, code, value: KEY_PRESSED }
}

#[test]
fn key_constants_are_the_input_event_codes() {
    assert_eq!((EV_KEY, KEY_PRESSED), (1, 1));
    assert_eq!((KEY_A, KEY_SPACE, KEY_ENTER, BTN_SIDE, BTN_EXTRA), (30, 57, 28, 0x113, 0x114));
}

#[test]
fn prefix_and_substring_search() {
    assert!(starts_with("event12", "event"));
    assert!(starts_with("event", "event"));
    assert!(starts_with("anything", ""));
    assert!(!starts_with("even", "event"));
    assert!(!starts_with("xevent", "event"));
    assert!(contains("usb keyboard", "keyboard"));
    assert!(contains("keyboard", "keyboard"));
    assert!(contains("at kbd translated", "kbd"));
    assert!(contains("abc", ""));
    assert!(contains("", ""));
    assert!(!contains("keyboar", "keyboard"));
    assert!(!contains("", "k"));
    assert!(contains("tästatur kbd", "kbd"));
    assert!(!contains("k b d", "kbd"));
}

#[test]
fn event_devices_are_known_by_their_file_name() {
    assert!(KeyboardMonitor::is_event_device(Some("event0")));
    assert!(KeyboardMonitor::is_event_device(Some("event17")));
    assert!(!KeyboardMonitor::is_event_device(Some("mouse0")));
    assert!(!KeyboardMonitor::is_event_device(Some("by-id")));
    assert!(!KeyboardMonitor::is_event_device(Some("even")));
    assert!(!KeyboardMonitor::is_event_device(None));
}

#[test]
fn keyboards_are_known_by_keys_or_name() {
    for key in [KEY_A, KEY_SPACE, KEY_ENTER, BTN_SIDE, BTN_EXTRA] {
        assert!(KeyboardMonitor::is_keyboard_device(&device("/dev/input/event0", None, &[2, key, 3])));
    }
    assert!(!KeyboardMonitor::is_keyboard_device(&device("/dev/input/event0", None, &[2, 3, 0x110])));
    assert!(!KeyboardMonitor::is_keyboard_device(&device("/dev/input/event0", None, &[])));
    assert!(KeyboardMonitor::is_keyboard_device(&device("/dev/input/event0", Some("USB KEYBOARD"), &[])));
    assert!(KeyboardMonitor::is_keyboard_device(&device("/dev/input/event0", Some("AT Kbd"), &[])));
    assert!(!KeyboardMonitor::is_keyboard_device(&device("/dev/input/event0", Some("Power Button"), &[])));
}

#[test]
fn entry_with_leading_slash_is_a_path() {
    assert_eq!(parse_selector("/dev/input/event3"), Ok(DeviceSelector::Path("/dev/input/event3".to_string())));
    assert_eq!(parse_selector("/("), Ok(DeviceSelector::Path("/(".to_string())));
}

#[test]
fn other_entries_are_regular_expressions() {
    assert_eq!(parse_selector("MyKeyboard"), Ok(DeviceSelector::Regex("MyKeyboard".to_string())));
    assert_eq!(parse_selector("^My Keyboard$"), Ok(DeviceSelector::Regex("^My Keyboard$".to_string())));
    assert_eq!(parse_selector("a.b"), Ok(DeviceSelector::Regex("a.b".to_string())));
    assert_eq!(parse_selector(""), Ok(DeviceSelector::Regex(String::new())));
}

#[test]
fn entry_that_is_no_expression_is_taken_literally() {
    assert_eq!(parse_selector("My[Keyboard"), Ok(DeviceSelector::Regex("My\\[Keyboard".to_string())));
    assert_eq!(parse_selector("(x"), Ok(DeviceSelector::Regex("\\(x".to_string())));
    let literal = parse_selector("My[Keyboard").unwrap();
    assert!(literal.matches("/dev/input/event1", Some("This is My[Keyboard here")));
    assert!(!literal.matches("/dev/input/event1", Some("MyKeyboard")));
}

#[test]
fn selector_is_chosen_from_what_the_engine_said() {
    let esc = || "esc".to_string();
    assert_eq!(choose_selector("/p", false, esc(), false), Ok(DeviceSelector::Path("/p".to_string())));
    assert_eq!(choose_selector("/p", true, esc(), true), Ok(DeviceSelector::Path("/p".to_string())));
    assert_eq!(choose_selector("p", true, esc(), false), Ok(DeviceSelector::Regex("p".to_string())));
    assert_eq!(choose_selector("p", true, esc(), true), Ok(DeviceSelector::Regex("p".to_string())));
    assert_eq!(choose_selector("p", false, esc(), true), Ok(DeviceSelector::Regex(esc())));
    assert_eq!(choose_selector("p", false, esc(), false), Err(MonitorError::InvalidRegex("p".to_string())));
    assert_eq!(choose_selector("", false, esc(), false), Err(MonitorError::InvalidRegex(String::new())));
}

#[test]
fn path_selector_compares_paths() {
    let selector = DeviceSelector::Path("/dev/input/event3".to_string());
    assert!(selector.matches("/dev/input/event3", None));
    assert!(selector.matches("/dev/input/event3", Some("whatever")));
    assert!(selector.matches("/dev/input//event3", None));
    assert!(selector.matches("/dev/input/event3/", None));
    assert!(!selector.matches("/dev/input/event30", None));
    assert!(!selector.matches("dev/input/event3", None));
}

#[test]
fn regex_selector_matches_names() {
    let selector = DeviceSelector::Regex("My.*board".to_string());
    assert!(selector.matches("/dev/input/event3", Some("This is MyKeyboard")));
    assert!(!selector.matches("/dev/input/event3", Some("Mouse")));
    assert!(!selector.matches("/dev/input/event3", None));
    let anchored = DeviceSelector::Regex("^My Keyboard$".to_string());
    assert!(anchored.matches("/x", Some("My Keyboard")));
    assert!(!anchored.matches("/x", Some("My Keyboard 2")));
    let broken = DeviceSelector::Regex("(".to_string());
    assert!(!broken.matches("/x", Some("(")));
}

#[test]
fn configured_selectors_keep_their_order() {
    let m = monitor(Some(vec!["/dev/input/event3", "MyKeyboard", "a[b"]), &[]);
    assert_eq!(
        m.selectors(),
        Ok(vec![
            DeviceSelector::Path("/dev/input/event3".to_string()),
            DeviceSelector::Regex("MyKeyboard".to_string()),
            DeviceSelector::Regex("a\\[b".to_string()),
        ])
    );
    assert_eq!(monitor(None, &[]).selectors(), Ok(vec![]));
    assert_eq!(monitor(Some(vec![]), &[]).selectors(), Ok(vec![]));
}

fn candidates() -> Vec<DeviceInfo> {
    vec![
        device("/dev/input/event0", Some("Power Button"), &[116]),
        device("/dev/input/event1", Some("AT Set 2 keyboard"), &[1, 30, 57]),
        device("/dev/input/event2", Some("Fancy Mouse"), &[0x110, 0x111, 0x113]),
        device("/dev/input/event3", None, &[28]),
        device("/dev/input/event4", Some("MyKeyboard"), &[]),
    ]
}

#[test]
fn without_selectors_every_keyboard_is_monitored() {
    assert_eq!(monitor(None, &[]).find_keyboards(&candidates()), Ok(vec![1, 2, 3, 4]));
    assert_eq!(monitor(Some(vec![]), &[]).find_keyboards(&candidates()), Ok(vec![1, 2, 3, 4]));
    assert_eq!(monitor(None, &[]).start(&candidates()), Ok(vec![1, 2, 3, 4]));
}

#[test]
fn selectors_narrow_the_choice() {
    let m = monitor(Some(vec!["/dev/input/event3", "Mouse$"]), &[]);
    assert_eq!(m.find_keyboards(&candidates()), Ok(vec![2, 3]));
    let by_name = monitor(Some(vec!["(?i)keyboard"]), &[]);
    assert_eq!(by_name.find_keyboards(&candidates()), Ok(vec![1, 4]));
    let not_a_keyboard = monitor(Some(vec!["/dev/input/event0", "Power"]), &[]);
    assert_eq!(not_a_keyboard.find_keyboards(&candidates()), Ok(vec![]));
}

#[test]
fn start_fails_without_keyboards() {
    assert_eq!(monitor(None, &[]).start(&Vec::new()), Err(MonitorError::NoKeyboards));
    assert_eq!(monitor(None, &[]).find_keyboards(&Vec::new()), Ok(vec![]));
    let none_selected = monitor(Some(vec!["/dev/input/event9"]), &[]);
    assert_eq!(none_selected.start(&candidates()), Err(MonitorError::NoKeyboards));
    assert_eq!(none_selected.find_keyboards(&candidates()), Ok(vec![]));
    let only_others = vec![device("/dev/input/event0", Some("Power Button"), &[116])];
    assert_eq!(monitor(None, &[]).start(&only_others), Err(MonitorError::NoKeyboards));
}

#[test]
fn pressed_and_mapped_key_becomes_an_event() {
    let mut map = HashMap::new();
    map.insert(30u16, 31u16);
    assert_eq!(
        KeyboardMonitor::process_key_event(&map, press(30), "alice-1"),
        Some(KeyEvent { key: 31, client_id: "alice-1".to_string() })
    );
}

#[test]
fn captured_code_without_entry_produces_no_event() {
    let mut map = HashMap::new();
    map.insert(30u16, 31u16);
    assert_eq!(KeyboardMonitor::process_key_event(&map, press(31), "alice-1"), None);
    assert_eq!(KeyboardMonitor::process_key_event(&map, press(0), "alice-1"), None);
    assert_eq!(KeyboardMonitor::process_key_event(&HashMap::new(), press(30), "alice-1"), None);
}

#[test]
fn releases_repeats_and_other_events_produce_no_event() {
    let mut map = HashMap::new();
    map.insert(30u16, 31u16);
    for value in [0, 2, -1] {
        let event = InputEvent { event_type: EV_KEY, code: 30, value };
        assert_eq!(KeyboardMonitor::process_key_event(&map, event, "alice-1"), None);
    }
    for event_type in [0u16, 2, 4] {
        let event = InputEvent { event_type, code: 30, value: 1 };
        assert_eq!(KeyboardMonitor::process_key_event(&map, event, "alice-1"), None);
    }
}

#[test]
fn batch_keeps_the_order_of_capture() {
    let m = monitor(None, &[(30, 31), (45, 1)]);
    let batch = vec![
        press(30),
        InputEvent { event_type: 0, code: 0, value: 0 },
        InputEvent { event_type: EV_KEY, code: 30, value: 0 },
        press(44),
        press(45),
        press(30),
    ];
    let ids: Vec<u16> = m.process_events(&batch).iter().map(|e| e.key).collect();
    assert_eq!(ids, vec![31, 1, 31]);
    for e in m.process_events(&batch) {
        assert_eq!(e.client_id, "alice-1");
    }
    assert!(m.process_events(&Vec::new()).is_empty());
}
