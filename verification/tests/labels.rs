use keyboard_core::backlight::{mode_ident, mode_index, mode_or_default};
use keyboard_core::daemon::{BoardId, Daemon};
use keyboard_core::dummy::DaemonDummy;
use keyboard_core::key::{Key, Page, Rect, ScancodeLabels};
use keyboard_core::picker::{key_pressed, mod_code, mod_tap_code};

fn sample_key() -> Key {
    Key {
        logical: (0, 1),
        logical_name: "K01".to_string(),
        physical: Rect { x: 100, y: 0, w: 100, h: 100 },
        physical_name: "Esc".to_string(),
        electrical: (2, 3),
        electrical_name: "2, 3".to_string(),
        scancodes: vec![(41, "ESC".to_string()), (53, "GRAVE".to_string())],
        background_color: "#2a2a2a".to_string(),
        foreground_color: "#ffffff".to_string(),
    }
}

fn labels() -> ScancodeLabels {
    let mut t = ScancodeLabels::new();
    t.push("ESC".to_string(), "Esc".to_string());
    t.push("A".to_string(), "A".to_string());
    t
}

#[test]
fn get_label_layers_use_the_table() {
    let key = sample_key();
    let t = labels();
    assert_eq!(key.get_label(Page::Layer1, &t), "Esc".to_string());
    // No table entry for GRAVE: the raw scancode name is shown.
    assert_eq!(key.get_label(Page::Layer2, &t), "GRAVE".to_string());
}

#[test]
fn get_label_name_pages() {
    let key = sample_key();
    let t = labels();
    assert_eq!(key.get_label(Page::Keycaps, &t), "Esc".to_string());
    assert_eq!(key.get_label(Page::Logical, &t), "K01".to_string());
    assert_eq!(key.get_label(Page::Electrical, &t), "2, 3".to_string());
}

#[test]
fn mode_table_round_trips() {
    for mode in 0..13u8 {
        let ident = mode_ident(mode).unwrap();
        assert_eq!(mode_index(&ident.to_string()), Some(mode));
    }
    assert_eq!(mode_ident(13), None);
    assert_eq!(mode_index(&"NO_SUCH_MODE".to_string()), None);
}

#[test]
fn mode_defaults_on_error() {
    assert_eq!(mode_or_default(&Ok((5, 17))), (5, 17));
    assert_eq!(mode_or_default(&Err("gone".to_string())), (0, 128));
}

#[test]
fn mod_tap_encoding() {
    assert_eq!(mod_tap_code(0x01, 0x04), 0x6104);
    assert_eq!(mod_tap_code(0x12, 0xFF), 0x72FF);
    // Only the low five modifier bits and low byte of the keycode count.
    assert_eq!(mod_tap_code(0xFF, 0x1FF), 0x7FFF);
}

#[test]
fn mod_codes() {
    assert_eq!(mod_code(&"LCTL".to_string()), Some(0x01));
    assert_eq!(mod_code(&"LSFT".to_string()), Some(0x02));
    assert_eq!(mod_code(&"LALT".to_string()), Some(0x04));
    assert_eq!(mod_code(&"LGUI".to_string()), Some(0x08));
    assert_eq!(mod_code(&"RCTL".to_string()), Some(0x11));
    assert_eq!(mod_code(&"RSFT".to_string()), Some(0x12));
    assert_eq!(mod_code(&"RALT".to_string()), Some(0x14));
    assert_eq!(mod_code(&"RGUI".to_string()), Some(0x18));
    assert_eq!(mod_code(&"SPACE".to_string()), None);
}

#[test]
fn key_pressed_writes_all_selected() {
    let mut d = DaemonDummy::new(vec!["rig".to_string()]);
    let b = BoardId(0);
    let selected = vec![(0u8, 0u8), (4, 7)];
    key_pressed(&mut d, b, &selected, 1, 30).unwrap();
    assert_eq!(d.keymap_get(b, 1, 0, 0).unwrap(), 30);
    assert_eq!(d.keymap_get(b, 1, 4, 7).unwrap(), 30);
    assert_eq!(d.keymap_get(b, 0, 0, 0).unwrap(), 0);
}
