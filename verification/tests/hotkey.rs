use dsh_shell::hotkey::{
    initial_hotkey_spec, is_summon_event, HotKeyHandle, HotkeyChange, HotkeyKey, HotkeyMod, HotkeySpec,
};
use global_hotkey::hotkey::{Code, HotKey, Modifiers};

#[test]
fn parses_hotkey_strings() {
    let spec = HotkeySpec::parse("meta+shift+D").expect("parse");
    assert_eq!(spec.key, HotkeyKey::D);
    assert!(spec.mods.contains(&HotkeyMod::Meta));
    assert!(spec.mods.contains(&HotkeyMod::Shift));
}

#[test]
fn hotkey_parsing_is_tolerant_of_spelling_and_order() {
    let a = HotkeySpec::parse("meta+shift+D").unwrap();
    // Case, whitespace, ordering, and the platform aliases all normalise to the same
    // shortcut, so a user copying from any convention works.
    for variant in [
        "META+SHIFT+D",
        " D + shift + meta ",
        "cmd+shift+d",
        "command+shift+d",
        "super+shift+d",
    ] {
        assert_eq!(
            HotkeySpec::parse(variant).unwrap(),
            a,
            "{variant} did not normalise to the same shortcut"
        );
    }
    assert_eq!(
        HotkeySpec::parse("alt+f4").unwrap(),
        HotkeySpec { mods: vec![HotkeyMod::Alt], key: HotkeyKey::F4 }
    );
}

#[test]
fn hotkey_requires_a_modifier() {
    // A bare letter as a global shortcut would swallow that key everywhere.
    let err = HotkeySpec::parse("D").unwrap_err();
    assert!(err.contains("no modifier"), "unexpected error: {err}");
}

#[test]
fn hotkey_rejects_malformed_input() {
    for bad in [
        "",               // empty
        "meta+",          // dangling separator
        "+d",             // leading separator
        "meta+meta+d",    // duplicate modifier
        "meta+nope",      // not a key we accept
        "meta+shift+d+x", // two keys
    ] {
        assert!(HotkeySpec::parse(bad).is_err(), "{bad:?} should have been rejected");
    }
}

#[test]
fn hotkey_round_trips_through_its_canonical_form() {
    for text in ["meta+shift+D", "alt+F4", "control+space", "meta+1"] {
        let spec = HotkeySpec::parse(text).unwrap();
        let canonical = spec.to_string_canonical();
        assert_eq!(
            HotkeySpec::parse(&canonical).unwrap(),
            spec,
            "{text} did not round trip via {canonical}"
        );
    }
}

#[test]
fn default_hotkey_is_the_documented_shortcut() {
    assert_eq!(HotkeySpec::default_spec().to_string_canonical(), "meta+shift+D");
}

#[test]
fn the_summon_hotkey_does_not_collide_with_common_shortcuts() {
    let hk = HotkeySpec::default_spec().to_hotkey();
    assert_eq!(hk.key, Code::KeyD);
    // Cmd-D alone is a common app shortcut ("Don't Save"); requiring Shift keeps the
    // default out of the way.
    assert!(hk.mods.intersects(Modifiers::META | Modifiers::SUPER));
    assert!(hk.mods.contains(Modifiers::SHIFT));
}

#[test]
fn every_key_and_modifier_has_its_platform_counterpart() {
    let keys = [
        ("A", Code::KeyA), ("B", Code::KeyB), ("C", Code::KeyC), ("D", Code::KeyD),
        ("E", Code::KeyE), ("F", Code::KeyF), ("G", Code::KeyG), ("H", Code::KeyH),
        ("I", Code::KeyI), ("J", Code::KeyJ), ("K", Code::KeyK), ("L", Code::KeyL),
        ("M", Code::KeyM), ("N", Code::KeyN), ("O", Code::KeyO), ("P", Code::KeyP),
        ("Q", Code::KeyQ), ("R", Code::KeyR), ("S", Code::KeyS), ("T", Code::KeyT),
        ("U", Code::KeyU), ("V", Code::KeyV), ("W", Code::KeyW), ("X", Code::KeyX),
        ("Y", Code::KeyY), ("Z", Code::KeyZ),
        ("0", Code::Digit0), ("1", Code::Digit1), ("2", Code::Digit2), ("3", Code::Digit3),
        ("4", Code::Digit4), ("5", Code::Digit5), ("6", Code::Digit6), ("7", Code::Digit7),
        ("8", Code::Digit8), ("9", Code::Digit9),
        ("Space", Code::Space), ("Enter", Code::Enter), ("Escape", Code::Escape),
        ("Tab", Code::Tab),
        ("F1", Code::F1), ("F2", Code::F2), ("F3", Code::F3), ("F4", Code::F4),
        ("F5", Code::F5), ("F6", Code::F6), ("F7", Code::F7), ("F8", Code::F8),
        ("F9", Code::F9), ("F10", Code::F10), ("F11", Code::F11), ("F12", Code::F12),
    ];
    for (name, code) in keys {
        let spec = HotkeySpec::parse(&format!("alt+{name}")).unwrap();
        assert_eq!(spec.to_string_canonical(), format!("alt+{name}"));
        assert_eq!(spec.to_hotkey(), HotKey::new(Some(Modifiers::ALT), code), "{name}");
    }
    let all = HotkeySpec::parse("meta+shift+alt+control+a").unwrap();
    assert_eq!(all.to_string_canonical(), "control+alt+shift+meta+A");
    assert_eq!(
        all.to_hotkey(),
        HotKey::new(
            Some(Modifiers::META | Modifiers::SHIFT | Modifiers::ALT | Modifiers::CONTROL),
            Code::KeyA
        )
    );
}

#[test]
fn the_aliases_of_modifiers_and_keys_are_accepted() {
    let same = |a: &str, b: &str| {
        assert_eq!(HotkeySpec::parse(a).unwrap(), HotkeySpec::parse(b).unwrap(), "{a} and {b}");
    };
    same("win+a", "meta+a");
    same("option+a", "alt+a");
    same("opt+a", "alt+a");
    same("ctrl+a", "control+a");
    same("alt+return", "alt+enter");
    same("alt+esc", "alt+escape");
}

#[test]
fn a_shortcut_says_what_is_wrong_with_it() {
    let err = |text: &str| HotkeySpec::parse(text).unwrap_err();
    let errors = [err(""), err("meta+"), err("meta+meta+d"), err("meta+nope"), err("a+b"), err("D"), err("meta")];
    for (i, a) in errors.iter().enumerate() {
        assert!(!a.is_empty());
        for b in &errors[i + 1..] {
            assert_ne!(a, b, "each fault has a message of its own");
        }
    }
    assert!(err("meta+nope").contains("nope"), "{}", err("meta+nope"));
}

#[test]
fn a_rejected_shortcut_keeps_the_previous_one() {
    let first = HotkeySpec::parse("meta+shift+D").unwrap();
    let mut handle = HotKeyHandle::new(first.clone());
    assert!(matches!(handle.request("shift+meta+d"), HotkeyChange::Same));
    let default = HotKeyHandle::new(HotkeySpec::default_spec());
    assert!(matches!(default.request("meta+shift+D"), HotkeyChange::Same));
    assert!(matches!(handle.request("nonsense"), HotkeyChange::Invalid(_)));
    let HotkeyChange::Register(spec) = handle.request("alt+K") else {
        panic!("a new shortcut has to be registered");
    };
    assert_eq!(
        handle.retarget(spec.clone(), Err("already taken".into())).unwrap_err(),
        "alt+K is unavailable: already taken"
    );
    assert_eq!(handle.spec(), &first);
    let released = handle.retarget(spec.clone(), Ok(())).unwrap();
    assert_eq!(released, first);
    assert_eq!(handle.spec(), &spec);
}

#[test]
fn a_malformed_setting_falls_back_to_the_default_shortcut() {
    assert_eq!(initial_hotkey_spec("alt+K"), (HotkeySpec::parse("alt+K").unwrap(), None));
    let (spec, fault) = initial_hotkey_spec("K");
    assert_eq!(spec, HotkeySpec::default_spec());
    assert!(fault.unwrap().contains("no modifier"));
}

#[test]
fn spellings_with_the_same_parts_agree() {
    let spec = HotkeySpec::parse("control+alt+F5").unwrap();
    for variant in ["alt+F5+control", "F5+ALT+Control", "\t f5+  ctrl +opt\n", "Option+Ctrl+F5"] {
        assert_eq!(HotkeySpec::parse(variant).unwrap(), spec, "{variant}");
    }
    // What is wrong in one order is wrong in every order.
    for wrong in ["alt+alt+D", "alt+D+alt", "D+alt+opt", "D+E+alt", "alt+E+D", "D+alt+", "+D+alt"] {
        assert!(HotkeySpec::parse(wrong).is_err(), "{wrong}");
    }
}

#[test]
fn only_events_of_the_registered_shortcut_summon() {
    let active = HotkeySpec::parse("meta+shift+D").unwrap().to_hotkey();
    let other = HotkeySpec::parse("meta+shift+E").unwrap().to_hotkey();
    assert!(is_summon_event(active.id(), &active));
    assert!(!is_summon_event(other.id(), &active));
}
