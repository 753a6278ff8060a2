use touchctl::config::{
    action_kind, active_name_from, default_profile_text, dotted_key, find_binding,
    flatten_bindings, flatten_table, is_blank, kind_name, validate_profile, ActionKind, Binding,
    ConfigEntry, ConfigError, ConfigValue, DaemonConfigState, Meta, Profile, Thresholds,
    ValueKind, DEFAULT_PROFILE_NAME, INPUT_GROUP_HINT, UDEV_RULE_HINT,
};
use touchctl::units::UNIT;

fn thresholds() -> Thresholds {
    Thresholds {
        tap_ms: 250,
        hold_ms: 500,
        move_tol: 20_000,
        swipe_min_dist: 120_000,
        swipe_max_ms: 600,
        pinch_sensitivity: 1_000_000,
        pinch_step: 50_000,
        smooth_ema: 300_000,
    }
}

fn bindings(list: &[(&str, &str)]) -> Vec<Binding> {
    list.iter().map(|(k, a)| Binding { key: k.to_string(), action: a.to_string() }).collect()
}

fn profile(allow_commands: bool, list: &[(&str, &str)]) -> Profile {
    Profile {
        meta: Meta { name: Some("test".to_string()), allow_commands },
        thresholds: thresholds(),
        bindings: bindings(list),
    }
}

fn text(s: &str) -> ConfigValue {
    ConfigValue::Text(s.to_string())
}

fn table(list: Vec<(&str, ConfigValue)>) -> ConfigValue {
    ConfigValue::Table(entries(list))
}

fn entries(list: Vec<(&str, ConfigValue)>) -> Vec<ConfigEntry> {
    list.into_iter().map(|(k, v)| ConfigEntry { key: k.to_string(), value: v }).collect()
}

fn pairs(b: &Vec<Binding>) -> Vec<(String, String)> {
    b.iter().map(|x| (x.key.clone(), x.action.clone())).collect()
}

fn pair(k: &str, a: &str) -> (String, String) {
    (k.to_string(), a.to_string())
}

#[test]
fn a_sound_profile_passes() {
    let p = profile(
        false,
        &[
            ("two_finger.tap", "mouse:right"),
            ("two_finger.swipe_up", "scroll:vertical@3"),
            ("pinch.scale_in", "key:CTRL+MINUS"),
            ("three_finger.tap", "toggle"),
        ],
    );
    assert!(validate_profile(&p).is_ok());
    assert!(validate_profile(&profile(false, &[])).is_ok());
    assert!(validate_profile(&profile(true, &[("x", "cmd:true")])).is_ok());
    // validation looks at the form of an action only
    assert!(validate_profile(&profile(false, &[("x", "mouse:nonsense"), ("y", "key:")])).is_ok());
}

#[test]
fn durations_must_be_positive() {
    let mut p = profile(false, &[]);
    p.thresholds.tap_ms = 0;
    assert!(matches!(validate_profile(&p), Err(ConfigError::NonPositiveDuration)));
    let mut p = profile(false, &[]);
    p.thresholds.hold_ms = 0;
    assert!(matches!(validate_profile(&p), Err(ConfigError::NonPositiveDuration)));
    let mut p = profile(false, &[]);
    p.thresholds.tap_ms = 1;
    p.thresholds.hold_ms = 1;
    assert!(validate_profile(&p).is_ok());
}

#[test]
fn tolerance_lies_strictly_between_zero_and_one() {
    for (tol, ok) in [
        (0, false),
        (1, true),
        (20_000, true),
        (UNIT - 1, true),
        (UNIT, false),
        (UNIT + 1, false),
        (-1, false),
        (i64::MIN, false),
        (i64::MAX, false),
    ] {
        let mut p = profile(false, &[]);
        p.thresholds.move_tol = tol;
        match validate_profile(&p) {
            Ok(()) => assert!(ok, "{}", tol),
            Err(ConfigError::ToleranceOutOfRange) => assert!(!ok, "{}", tol),
            Err(other) => panic!("{:?}", other),
        }
    }
}

#[test]
fn durations_are_checked_before_the_tolerance_and_the_bindings() {
    let mut p = profile(false, &[("", "")]);
    p.thresholds.move_tol = 0;
    p.thresholds.hold_ms = 0;
    assert!(matches!(validate_profile(&p), Err(ConfigError::NonPositiveDuration)));
    p.thresholds.hold_ms = 5;
    assert!(matches!(validate_profile(&p), Err(ConfigError::ToleranceOutOfRange)));
    p.thresholds.move_tol = 5;
    assert!(matches!(validate_profile(&p), Err(ConfigError::EmptyKey)));
}

#[test]
fn binding_faults() {
    assert!(matches!(
        validate_profile(&profile(false, &[("", "toggle")])),
        Err(ConfigError::EmptyKey)
    ));
    assert!(matches!(
        validate_profile(&profile(false, &[(" \t", "toggle")])),
        Err(ConfigError::EmptyKey)
    ));
    match validate_profile(&profile(false, &[("a.b", "")])) {
        Err(ConfigError::EmptyAction { key }) => assert_eq!(key, "a.b"),
        other => panic!("{:?}", other),
    }
    match validate_profile(&profile(false, &[("a.b", "   ")])) {
        Err(ConfigError::EmptyAction { key }) => assert_eq!(key, "a.b"),
        other => panic!("{:?}", other),
    }
    match validate_profile(&profile(false, &[("a.b", "launch:rocket")])) {
        Err(ConfigError::InvalidAction { key, action }) => {
            assert_eq!(key, "a.b");
            assert_eq!(action, "launch:rocket");
        }
        other => panic!("{:?}", other),
    }
    match validate_profile(&profile(false, &[("a.b", " toggle")])) {
        Err(ConfigError::InvalidAction { key, action }) => {
            assert_eq!(key, "a.b");
            assert_eq!(action, " toggle");
        }
        other => panic!("{:?}", other),
    }
    match validate_profile(&profile(false, &[("a.b", "cmd:ls")])) {
        Err(ConfigError::CommandNotAllowed { key }) => assert_eq!(key, "a.b"),
        other => panic!("{:?}", other),
    }
}

#[test]
fn the_first_faulty_binding_is_reported() {
    let p = profile(
        false,
        &[("ok.one", "toggle"), ("bad.one", "cmd:ls"), ("", "toggle"), ("bad.two", "what")],
    );
    match validate_profile(&p) {
        Err(ConfigError::CommandNotAllowed { key }) => assert_eq!(key, "bad.one"),
        other => panic!("{:?}", other),
    }
}

#[test]
fn action_kinds() {
    assert_eq!(action_kind(""), ActionKind::Noop);
    assert_eq!(action_kind("toggle"), ActionKind::Toggle);
    assert_eq!(action_kind("mouse:left"), ActionKind::Mouse);
    assert_eq!(action_kind("mouse:"), ActionKind::Mouse);
    assert_eq!(action_kind("scroll:vertical@2"), ActionKind::Scroll);
    assert_eq!(action_kind("key:TAB"), ActionKind::Key);
    assert_eq!(action_kind("cmd:echo"), ActionKind::Command);
    assert_eq!(action_kind("toggle!"), ActionKind::Unknown);
    assert_eq!(action_kind("togg"), ActionKind::Unknown);
    assert_eq!(action_kind("Mouse:left"), ActionKind::Unknown);
    assert_eq!(action_kind(" "), ActionKind::Unknown);
    assert_eq!(action_kind("key"), ActionKind::Unknown);
}

#[test]
fn blank_texts() {
    assert!(is_blank(""));
    assert!(is_blank(" \t\r\n"));
    assert!(is_blank("\u{a0}"));
    assert!(!is_blank(" x "));
    assert!(!is_blank("_"));
}

#[test]
fn lookup_finds_the_last_binding_of_a_key() {
    let b = bindings(&[("a", "1"), ("b", "2"), ("a", "3"), ("c", "")]);
    assert_eq!(find_binding(&b, "a").map(|s| s.as_str()), Some("3"));
    assert_eq!(find_binding(&b, "b").map(|s| s.as_str()), Some("2"));
    assert_eq!(find_binding(&b, "c").map(|s| s.as_str()), Some(""));
    assert_eq!(find_binding(&b, "d"), None);
    assert_eq!(find_binding(&b, ""), None);
    assert_eq!(find_binding(&b, "A"), None);
    assert_eq!(find_binding(&Vec::new(), "a"), None);
}

#[test]
fn dotted_keys() {
    assert_eq!(dotted_key("", "tap"), "tap");
    assert_eq!(dotted_key("two_finger", "tap"), "two_finger.tap");
    assert_eq!(dotted_key("a.b", "c"), "a.b.c");
    assert_eq!(dotted_key("a", ""), "a.");
    assert_eq!(dotted_key("", ""), "");
}

#[test]
fn kinds_are_named_as_in_the_file_format() {
    assert_eq!(kind_name(ValueKind::Text), "string");
    assert_eq!(kind_name(ValueKind::Integer), "integer");
    assert_eq!(kind_name(ValueKind::Float), "float");
    assert_eq!(kind_name(ValueKind::Boolean), "boolean");
    assert_eq!(kind_name(ValueKind::Datetime), "datetime");
    assert_eq!(kind_name(ValueKind::Array), "array");
    assert_eq!(kind_name(ValueKind::Table), "table");
}

#[test]
fn nested_tables_are_flattened_in_order() {
    let v = table(vec![
        ("pinch", table(vec![("scale_in", text("key:CTRL+MINUS")), ("scale_out", text("x"))])),
        ("plain.key", text("toggle")),
        (
            "two_finger",
            table(vec![
                ("tap", text("mouse:right")),
                ("deep", table(vec![("er", text("1")), ("est", table(vec![]))])),
                ("swipe_up", text("")),
            ]),
        ),
    ]);
    let b = flatten_bindings(&v).unwrap();
    assert_eq!(
        pairs(&b),
        vec![
            pair("pinch.scale_in", "key:CTRL+MINUS"),
            pair("pinch.scale_out", "x"),
            pair("plain.key", "toggle"),
            pair("two_finger.tap", "mouse:right"),
            pair("two_finger.deep.er", "1"),
            pair("two_finger.swipe_up", ""),
        ]
    );
    assert!(flatten_bindings(&table(vec![])).unwrap().is_empty());
}

#[test]
fn flattening_adds_to_what_is_there() {
    let mut out = bindings(&[("first", "toggle")]);
    let t = entries(vec![("tap", text("mouse:left")), ("sub", table(vec![("x", text("y"))]))]);
    assert!(flatten_table("two_finger", &t, &mut out).is_ok());
    assert_eq!(
        pairs(&out),
        vec![
            pair("first", "toggle"),
            pair("two_finger.tap", "mouse:left"),
            pair("two_finger.sub.x", "y"),
        ]
    );
}

#[test]
fn a_value_that_is_no_text_is_an_error() {
    let v = table(vec![
        ("a", text("toggle")),
        ("b", table(vec![("c", text("x")), ("d", ConfigValue::Other(ValueKind::Integer))])),
        ("e", ConfigValue::Other(ValueKind::Array)),
    ]);
    match flatten_bindings(&v) {
        Err(ConfigError::NotText { key, kind }) => {
            assert_eq!(key, "b.d");
            assert_eq!(kind, ValueKind::Integer);
        }
        other => panic!("{:?}", other),
    }
    let v = table(vec![("top", ConfigValue::Other(ValueKind::Boolean))]);
    match flatten_bindings(&v) {
        Err(ConfigError::NotText { key, kind }) => {
            assert_eq!(key, "top");
            assert_eq!(kind, ValueKind::Boolean);
        }
        other => panic!("{:?}", other),
    }
}

#[test]
fn bindings_must_be_a_table() {
    match flatten_bindings(&text("toggle")) {
        Err(ConfigError::BindingsNotTable { kind }) => assert_eq!(kind, ValueKind::Text),
        other => panic!("{:?}", other),
    }
    match flatten_bindings(&ConfigValue::Other(ValueKind::Float)) {
        Err(ConfigError::BindingsNotTable { kind }) => assert_eq!(kind, ValueKind::Float),
        other => panic!("{:?}", other),
    }
}

fn from_toml(v: &toml::Value) -> ConfigValue {
    match v {
        toml::Value::String(s) => ConfigValue::Text(s.clone()),
        toml::Value::Table(t) => ConfigValue::Table(
            t.iter().map(|(k, v)| ConfigEntry { key: k.clone(), value: from_toml(v) }).collect(),
        ),
        toml::Value::Integer(_) => ConfigValue::Other(ValueKind::Integer),
        toml::Value::Float(_) => ConfigValue::Other(ValueKind::Float),
        toml::Value::Boolean(_) => ConfigValue::Other(ValueKind::Boolean),
        toml::Value::Datetime(_) => ConfigValue::Other(ValueKind::Datetime),
        toml::Value::Array(_) => ConfigValue::Other(ValueKind::Array),
    }
}

fn units(v: &toml::Value) -> i64 {
    (v.as_float().unwrap() * 1_000_000.0).round() as i64
}

#[test]
fn the_default_profile_is_sound() {
    let doc: toml::Table = toml::from_str(default_profile_text()).unwrap();
    let meta = doc["meta"].as_table().unwrap();
    let th = doc["thresholds"].as_table().unwrap();
    let p = Profile {
        meta: Meta {
            name: meta.get("name").and_then(|n| n.as_str()).map(|n| n.to_string()),
            allow_commands: meta["allow_commands"].as_bool().unwrap(),
        },
        thresholds: Thresholds {
            tap_ms: th["tap_ms"].as_integer().unwrap() as u64,
            hold_ms: th["hold_ms"].as_integer().unwrap() as u64,
            move_tol: units(&th["move_tol"]),
            swipe_min_dist: units(&th["swipe_min_dist"]),
            swipe_max_ms: th["swipe_max_ms"].as_integer().unwrap() as u64,
            pinch_sensitivity: units(&th["pinch_sensitivity"]),
            pinch_step: units(&th["pinch_step"]),
            smooth_ema: units(&th["smooth_ema"]),
        },
        bindings: flatten_bindings(&from_toml(&doc["bindings"])).unwrap(),
    };
    assert_eq!(p.meta.name.as_deref(), Some("default"));
    assert!(!p.meta.allow_commands);
    assert_eq!(p.thresholds.tap_ms, 250);
    assert_eq!(p.thresholds.move_tol, 20_000);
    assert_eq!(p.thresholds.pinch_step, 50_000);
    assert!(validate_profile(&p).is_ok());
    assert_eq!(find_binding(&p.bindings, "two_finger.tap").map(|s| s.as_str()), Some("mouse:right"));
    assert_eq!(
        find_binding(&p.bindings, "pinch.scale_out").map(|s| s.as_str()),
        Some("key:CTRL+EQUAL")
    );
    assert_eq!(p.bindings.len(), 8);
}

#[test]
fn type_names_agree_with_the_toml_crate() {
    let doc: toml::Table =
        toml::from_str("s = \"x\"\ni = 1\nf = 1.5\nb = true\nd = 1979-05-27\na = [1]\n[t]\n").unwrap();
    for (_, v) in doc.iter() {
        let kind = match from_toml(v) {
            ConfigValue::Text(_) => ValueKind::Text,
            ConfigValue::Table(_) => ValueKind::Table,
            ConfigValue::Other(k) => k,
        };
        assert_eq!(kind_name(kind), v.type_str());
    }
}

fn state() -> DaemonConfigState {
    DaemonConfigState::new(
        "/home/u",
        "work".to_string(),
        profile(false, &[("two_finger.tap", "mouse:right")]),
        vec!["Touchpad (/dev/input/event5)".to_string()],
    )
}

#[test]
fn the_pointer_file_is_trimmed() {
    assert_eq!(active_name_from("default"), "default");
    assert_eq!(active_name_from("  work \n"), "work");
    assert_eq!(active_name_from("\n"), "");
    assert_eq!(active_name_from("two words\r\n"), "two words");
    assert_eq!(DEFAULT_PROFILE_NAME, "default");
}

#[test]
fn the_state_knows_its_files() {
    let s = state();
    assert_eq!(s.active_name, "work");
    assert_eq!(s.config_dir, "/home/u/.config/touchctl");
    assert_eq!(s.profiles_dir, "/home/u/.config/touchctl/profiles");
    assert_eq!(s.active_ptr, "/home/u/.config/touchctl/active");
    assert_eq!(s.detected_devices, vec!["Touchpad (/dev/input/event5)"]);
    assert_eq!(s.profile.bindings.len(), 1);
}

#[test]
fn reload_takes_a_sound_profile() {
    let mut s = state();
    let r = s.reload(profile(true, &[("pinch.scale_in", "cmd:zoom"), ("x", "toggle")]));
    assert!(r.is_ok());
    assert_eq!(s.active_name, "work");
    assert!(s.profile.meta.allow_commands);
    assert_eq!(s.profile.bindings.len(), 2);
}

#[test]
fn reload_keeps_the_last_good_profile() {
    let mut s = state();
    let r = s.reload(profile(false, &[("pinch.scale_in", "cmd:zoom")]));
    match r {
        Err(ConfigError::CommandNotAllowed { key }) => assert_eq!(key, "pinch.scale_in"),
        other => panic!("{:?}", other),
    }
    assert_eq!(s.active_name, "work");
    assert_eq!(pairs(&s.profile.bindings), vec![pair("two_finger.tap", "mouse:right")]);
    let mut bad = profile(false, &[]);
    bad.thresholds.tap_ms = 0;
    assert!(matches!(s.reload(bad), Err(ConfigError::NonPositiveDuration)));
    assert_eq!(s.profile.thresholds.tap_ms, 250);
}

#[test]
fn switching_profiles() {
    let mut s = state();
    assert!(s.set_active("games", profile(false, &[("three_finger.tap", "key:TAB")])).is_ok());
    assert_eq!(s.active_name, "games");
    assert_eq!(pairs(&s.profile.bindings), vec![pair("three_finger.tap", "key:TAB")]);
    // a rejected profile changes nothing: the last good one stays in force
    // under its name
    let r = s.set_active("broken", profile(false, &[("a", "b")]));
    assert!(matches!(r, Err(ConfigError::InvalidAction { .. })));
    assert_eq!(s.active_name, "games");
    assert_eq!(pairs(&s.profile.bindings), vec![pair("three_finger.tap", "key:TAB")]);
    assert_eq!(s.profiles_dir, "/home/u/.config/touchctl/profiles");
    let mut bad = profile(false, &[]);
    bad.thresholds.move_tol = 0;
    assert!(matches!(s.set_active("still", bad), Err(ConfigError::ToleranceOutOfRange)));
    assert_eq!(s.active_name, "games");
    assert!(s.set_active("work", profile(false, &[])).is_ok());
    assert_eq!(s.active_name, "work");
    assert!(s.profile.bindings.is_empty());
}

#[test]
fn the_state_lists_profiles() {
    let files: Vec<String> = ["b.toml", "a.toml", "c.txt"].iter().map(|s| s.to_string()).collect();
    assert_eq!(state().list_profiles(&files), vec!["a", "b"]);
}

#[test]
fn the_diagnosis() {
    let s = state();
    let me = whoami::username();
    let r = s.doctor_report(true, Some(&format!("input:x:104:{},nobody\n", me)));
    assert!(r.uinput_present);
    assert!(r.input_group_member);
    assert_eq!(r.profiles_dir, "/home/u/.config/touchctl/profiles");
    assert_eq!(r.active_profile, "work");
    assert_eq!(r.devices, vec!["Touchpad (/dev/input/event5)"]);
    assert_eq!(r.udev_rule, "/etc/udev/rules.d/80-uinput.rules");
    assert_eq!(r.udev_rule, UDEV_RULE_HINT);
    assert_eq!(r.add_user_to_input_group, "sudo usermod -aG input $USER && newgrp input");
    assert_eq!(r.add_user_to_input_group, INPUT_GROUP_HINT);
    let r = s.doctor_report(false, None);
    assert!(!r.uinput_present);
    assert!(!r.input_group_member);
    let r = s.doctor_report(false, Some("video:x:44:everyone\n"));
    assert!(!r.input_group_member);
}
