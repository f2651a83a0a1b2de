//! The inputs of the handheld console and the keyboard keys they stand for.
use vstd::prelude::*;

verus! {

/// Number of calibrated tones: twelve buttons, then the four edges of the touch screen.
pub const INPUT_COUNT: usize = 16;

/// Number of buttons that are mapped to keyboard keys.
pub const KEY_COUNT: usize = 12;

/// The keyboard keys that the buttons are mapped to.
#[derive(Clone, Copy, Debug, PartialEq, Eq, Structural)]
pub enum KeyCode {
    KeyJ,
    KeyN,
    ShiftLeft,
    Return,
    KeyD,
    KeyA,
    KeyW,
    KeyS,
    KeyR,
    KeyL,
    KeyU,
    KeyH,
}

/// The key that button `i` presses, for the twelve mapped buttons.
pub open spec fn key_at(i: int) -> Option<KeyCode> {
    if i == 0 {
        Some(KeyCode::KeyJ)
    } else if i == 1 {
        Some(KeyCode::KeyN)
    } else if i == 2 {
        Some(KeyCode::ShiftLeft)
    } else if i == 3 {
        Some(KeyCode::Return)
    } else if i == 4 {
        Some(KeyCode::KeyD)
    } else if i == 5 {
        Some(KeyCode::KeyA)
    } else if i == 6 {
        Some(KeyCode::KeyW)
    } else if i == 7 {
        Some(KeyCode::KeyS)
    } else if i == 8 {
        Some(KeyCode::KeyR)
    } else if i == 9 {
        Some(KeyCode::KeyL)
    } else if i == 10 {
        Some(KeyCode::KeyU)
    } else if i == 11 {
        Some(KeyCode::KeyH)
    } else {
        None
    }
}

/// The key that button `i` presses; `None` past the twelve mapped buttons.
pub fn key_for(i: usize) -> (r: Option<KeyCode>)
    ensures
        r == key_at(i as int),
        r is Some <==> i < KEY_COUNT,
{
    match i {
        0 => Some(KeyCode::KeyJ),
        1 => Some(KeyCode::KeyN),
        2 => Some(KeyCode::ShiftLeft),
        3 => Some(KeyCode::Return),
        4 => Some(KeyCode::KeyD),
        5 => Some(KeyCode::KeyA),
        6 => Some(KeyCode::KeyW),
        7 => Some(KeyCode::KeyS),
        8 => Some(KeyCode::KeyR),
        9 => Some(KeyCode::KeyL),
        10 => Some(KeyCode::KeyU),
        11 => Some(KeyCode::KeyH),
        _ => None,
    }
}

/// The name shown for input `i`: the twelve buttons, then the four screen edges.
pub open spec fn input_name_at(i: int) -> Seq<char> {
    if i == 0 {
        "A"@
    } else if i == 1 {
        "B"@
    } else if i == 2 {
        "Select"@
    } else if i == 3 {
        "Start"@
    } else if i == 4 {
        "→"@
    } else if i == 5 {
        "←"@
    } else if i == 6 {
        "↑"@
    } else if i == 7 {
        "↓"@
    } else if i == 8 {
        "R"@
    } else if i == 9 {
        "L"@
    } else if i == 10 {
        "X"@
    } else if i == 11 {
        "Y"@
    } else if i == 12 {
        "Top"@
    } else if i == 13 {
        "Left"@
    } else if i == 14 {
        "Bottom"@
    } else {
        "Right"@
    }
}

/// The name of input `i`, for the sixteen inputs.
pub fn input_name(i: usize) -> (r: &'static str)
    requires
        i < INPUT_COUNT,
    ensures
        r@ == input_name_at(i as int),
{
    match i {
        0 => "A",
        1 => "B",
        2 => "Select",
        3 => "Start",
        4 => "→",
        5 => "←",
        6 => "↑",
        7 => "↓",
        8 => "R",
        9 => "L",
        10 => "X",
        11 => "Y",
        12 => "Top",
        13 => "Left",
        14 => "Bottom",
        _ => "Right",
    }
}

} // verus!
