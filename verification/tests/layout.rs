use rpbc::layout::{input_name, key_for, KeyCode, INPUT_COUNT, KEY_COUNT};

#[test]
fn buttons_map_to_their_keys() {
    let expected = [
        KeyCode::KeyJ,
        KeyCode::KeyN,
        KeyCode::ShiftLeft,
        KeyCode::Return,
        KeyCode::KeyD,
        KeyCode::KeyA,
        KeyCode::KeyW,
        KeyCode::KeyS,
        KeyCode::KeyR,
        KeyCode::KeyL,
        KeyCode::KeyU,
        KeyCode::KeyH,
    ];
    assert_eq!(KEY_COUNT, 12);
    for (i, key) in expected.iter().enumerate() {
        assert_eq!(key_for(i), Some(*key));
    }
}

#[test]
fn screen_edges_and_beyond_have_no_key() {
    assert_eq!(key_for(12), None);
    assert_eq!(key_for(15), None);
    assert_eq!(key_for(200), None);
}

#[test]
fn inputs_are_named_in_order() {
    let names = [
        "A", "B", "Select", "Start", "→", "←", "↑", "↓", "R", "L", "X", "Y", "Top", "Left", "Bottom",
        "Right",
    ];
    assert_eq!(INPUT_COUNT, 16);
    for (i, name) in names.iter().enumerate() {
        assert_eq!(input_name(i), *name);
    }
}
