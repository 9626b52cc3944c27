use snappea::config::{
    default_capture_delay_secs, default_copy_shortcut, BindKey, BindNamed, Container, GeneralSettings,
    KeyBinding, RedactTool, ShapeTool,
};
use snappea::keys::{Key, Modifiers, NamedKey};

fn ch(c: &str) -> Key {
    Key::Character(c.to_string())
}

#[test]
fn shape_tool_cycle_visits_every_tool_once() {
    let mut seen = Vec::new();
    let mut tool = ShapeTool::default();
    for _ in 0..ShapeTool::COUNT {
        seen.push(tool);
        tool = tool.next();
    }
    // A full cycle returns to the start and covers the whole list.
    assert_eq!(tool, ShapeTool::default());
    assert_eq!(seen.len(), ShapeTool::ALL.len());
    for t in ShapeTool::ALL {
        assert!(seen.contains(&t), "{t:?} missing from the cycle");
    }
}

#[test]
fn shape_tool_index_matches_position_in_all() {
    for (i, tool) in ShapeTool::ALL.iter().enumerate() {
        assert_eq!(tool.index(), i);
    }
}

#[test]
fn the_default_copy_shortcut_is_still_enter() {
    let b = default_copy_shortcut();
    assert!(b.matches(&Key::Named(NamedKey::Enter), Modifiers::default()));
    assert_eq!(b.display_name(), "Enter");
}

#[test]
fn a_rebound_key_matches_and_the_old_one_stops_matching() {
    let b = KeyBinding::from_event(&ch("c"), Modifiers::default()).unwrap();
    assert!(b.matches(&ch("c"), Modifiers::default()));
    assert!(!b.matches(&Key::Named(NamedKey::Enter), Modifiers::default()));
}

#[test]
fn modifiers_must_match_exactly() {
    // A plain binding must not fire when a modifier is held, or Ctrl+Enter
    // (save) would also trigger copy.
    let enter = default_copy_shortcut();
    assert!(!enter.matches(&Key::Named(NamedKey::Enter), Modifiers::ctrl()));

    let ctrl_c = KeyBinding::from_event(&ch("c"), Modifiers::ctrl()).unwrap();
    assert!(ctrl_c.matches(&ch("c"), Modifiers::ctrl()));
    assert!(!ctrl_c.matches(&ch("c"), Modifiers::default()));
    assert_eq!(ctrl_c.display_name(), "Ctrl+C");
}

#[test]
fn space_binds_the_same_whether_it_arrives_named_or_as_a_character() {
    // Space reaches the shortcut table as Character(" "), but reads as
    // "Space" in the UI: both spellings must be one binding.
    let b = KeyBinding::from_event(&ch(" "), Modifiers::default()).unwrap();
    assert_eq!(b.key, BindKey::Named(BindNamed::Space));
    assert!(b.matches(&ch(" "), Modifiers::default()));
    assert_eq!(b.display_name(), "Space");
}

#[test]
fn unbindable_keys_are_refused() {
    // Bare modifiers, Escape (cancel) and Ctrl+Enter (save) must not be
    // storable: the shortcut table claims them ahead of the copy arm.
    for (key, mods) in [
        (Key::Named(NamedKey::Escape), Modifiers::default()),
        (Key::Named(NamedKey::Control), Modifiers::ctrl()),
        (Key::Named(NamedKey::Shift), Modifiers::shift()),
        (Key::Named(NamedKey::Enter), Modifiers::ctrl()),
    ] {
        assert!(
            KeyBinding::from_event(&key, mods).is_none(),
            "{key:?} should not be bindable"
        );
    }
}

#[test]
fn every_shape_tool_has_a_distinct_icon() {
    let mut names: Vec<&str> = ShapeTool::ALL.iter().map(|t| t.icon_name()).collect();
    names.sort_unstable();
    let count = names.len();
    names.dedup();
    assert_eq!(names.len(), count, "two tools share an icon");
}

#[test]
fn six_steps_of_the_shape_cycle_return_to_each_tool() {
    for t in ShapeTool::ALL {
        let mut u = t;
        for _ in 0..ShapeTool::COUNT {
            u = u.next();
        }
        assert_eq!(u, t);
        assert_ne!(t.next(), t);
    }
}

#[test]
fn redact_tool_alternates_between_its_two_tools() {
    let t = RedactTool::default();
    assert_ne!(t.next(), t);
    assert_eq!(t.next().next(), t);
    assert_ne!(t.index(), t.next().index());
}

#[test]
fn containers_name_their_file_extension_and_muxer() {
    assert_eq!(Container::Mp4.extension(), "mp4");
    assert_eq!(Container::Webm.extension(), "webm");
    assert_eq!(Container::Mkv.extension(), "mkv");
    assert_eq!(Container::Mp4.muxer_element(), "mp4mux");
    assert_eq!(Container::Webm.muxer_element(), "webmmux");
    assert_eq!(Container::Mkv.muxer_element(), "matroskamux");
    assert_eq!(Container::default(), Container::Mp4);
}

#[test]
fn display_name_lists_modifiers_in_fixed_order() {
    let m = Modifiers { control: true, shift: true, alt: true, logo: false };
    let b = KeyBinding::from_event(&ch("S"), m).unwrap();
    assert_eq!(b.key, BindKey::Character("s".to_string()));
    assert_eq!(b.display_name(), "Ctrl+Alt+Shift+S");
    let f5 = KeyBinding::from_event(&Key::Named(NamedKey::F5), Modifiers::default()).unwrap();
    assert_eq!(f5.display_name(), "F5");
    assert_eq!(KeyBinding::plain(BindNamed::Tab).display_name(), "Tab");
}

#[test]
fn a_character_binding_ignores_the_case_it_arrives_in() {
    let b = KeyBinding::from_event(&ch("c"), Modifiers::default()).unwrap();
    assert!(b.matches(&ch("C"), Modifiers::default()));
    assert!(!b.matches(&ch("d"), Modifiers::default()));
}

#[test]
fn blank_and_unidentified_keys_are_not_bindable() {
    assert!(KeyBinding::from_event(&Key::Unidentified, Modifiers::default()).is_none());
    assert!(KeyBinding::from_event(&ch("\t"), Modifiers::default()).is_none());
    assert!(KeyBinding::from_event(&Key::Named(NamedKey::ArrowLeft), Modifiers::default()).is_none());
}

#[test]
fn general_settings_defaults() {
    let s = GeneralSettings::defaults();
    assert_eq!(default_capture_delay_secs(), 3);
    assert_eq!(s.capture_delay_secs, 3);
    assert_eq!(s.pixelation_block_size, 16);
    assert_eq!(s.video_framerate, 60);
    assert_eq!(s.copy_shortcut, default_copy_shortcut());
}

/// The JSON form of a binding: `{"key": {"Named": "Enter"} | {"Character": "c"},
/// "ctrl": .., "shift": .., "alt": ..}`.
fn binding_to_json(b: &KeyBinding) -> serde_json::Value {
    let mut key = serde_json::Map::new();
    match &b.key {
        BindKey::Named(n) => {
            key.insert("Named".to_string(), serde_json::Value::String(format!("{n:?}")));
        }
        BindKey::Character(c) => {
            key.insert("Character".to_string(), serde_json::Value::String(c.clone()));
        }
    }
    let mut m = serde_json::Map::new();
    m.insert("key".to_string(), serde_json::Value::Object(key));
    m.insert("ctrl".to_string(), serde_json::Value::Bool(b.ctrl));
    m.insert("shift".to_string(), serde_json::Value::Bool(b.shift));
    m.insert("alt".to_string(), serde_json::Value::Bool(b.alt));
    serde_json::Value::Object(m)
}

fn binding_from_json(v: &serde_json::Value) -> Option<KeyBinding> {
    let named = [
        BindNamed::Enter,
        BindNamed::Space,
        BindNamed::Tab,
        BindNamed::Backspace,
        BindNamed::Delete,
        BindNamed::Insert,
        BindNamed::Home,
        BindNamed::End,
        BindNamed::PageUp,
        BindNamed::PageDown,
        BindNamed::F1,
        BindNamed::F2,
        BindNamed::F3,
        BindNamed::F4,
        BindNamed::F5,
        BindNamed::F6,
        BindNamed::F7,
        BindNamed::F8,
        BindNamed::F9,
        BindNamed::F10,
        BindNamed::F11,
        BindNamed::F12,
    ];
    let key = v.get("key")?;
    let key = if let Some(n) = key.get("Named") {
        let n = n.as_str()?;
        BindKey::Named(*named.iter().find(|k| format!("{k:?}") == n)?)
    } else {
        BindKey::Character(key.get("Character")?.as_str()?.to_string())
    };
    Some(KeyBinding {
        key,
        ctrl: v.get("ctrl")?.as_bool()?,
        shift: v.get("shift")?.as_bool()?,
        alt: v.get("alt")?.as_bool()?,
    })
}

#[test]
fn a_binding_survives_a_serde_round_trip() {
    let ctrl_shift = Modifiers { control: true, shift: true, alt: false, logo: false };
    let b = KeyBinding::from_event(&ch("c"), ctrl_shift).unwrap();
    let json = serde_json::to_string(&binding_to_json(&b)).unwrap();
    let back: serde_json::Value = serde_json::from_str(&json).unwrap();
    assert_eq!(binding_from_json(&back).unwrap(), b);
}
