//! Key identifiers, as plain integers.
//!
//! The host resolves physical keys to identifiers in the game's key space:
//! the index of the key's name in the configuration name table (so the
//! identifiers below match the indices that `key_from_input_name` in the
//! host layer produces). Identifier 0 ("None") is the sentinel for an
//! unbound key.

use vstd::prelude::*;

verus! {

pub const KEY_NONE: u32 = 0;

pub const KEY_LSHIFT: u32 = 36;

pub const KEY_RSHIFT: u32 = 37;

pub const KEY_LCTRL: u32 = 38;

pub const KEY_RCTRL: u32 = 39;

pub const KEY_UP: u32 = 44;

pub const KEY_DOWN: u32 = 45;

pub const KEY_LEFT: u32 = 46;

pub const KEY_RIGHT: u32 = 47;

pub const KEY_DELETE: u32 = 59;

pub const KEY_HOME: u32 = 60;

pub const KEY_END: u32 = 61;

pub const KEY_ENTER: u32 = 91;

pub const KEY_ESCAPE: u32 = 92;

pub const KEY_BACKSPACE: u32 = 94;

pub const KEY_TAB: u32 = 95;

pub const KEY_KP_ENTER: u32 = 116;

pub const KEY_SLASH: u32 = 122;


/// The name of configuration entry `i` in the host's key-name table.
pub open spec fn input_name_at(i: int) -> Seq<char> {
    if i == 0 {
        "None"@
    } else if i == 1 {
        "F1"@
    } else if i == 2 {
        "F2"@
    } else if i == 3 {
        "F3"@
    } else if i == 4 {
        "F4"@
    } else if i == 5 {
        "F5"@
    } else if i == 6 {
        "F6"@
    } else if i == 7 {
        "F7"@
    } else if i == 8 {
        "F8"@
    } else if i == 9 {
        "F9"@
    } else if i == 10 {
        "F10"@
    } else if i == 11 {
        "F11"@
    } else if i == 12 {
        "F12"@
    } else if i == 13 {
        "F13"@
    } else if i == 14 {
        "F14"@
    } else if i == 15 {
        "F15"@
    } else if i == 16 {
        "F16"@
    } else if i == 17 {
        "F17"@
    } else if i == 18 {
        "F18"@
    } else if i == 19 {
        "F19"@
    } else if i == 20 {
        "F20"@
    } else if i == 21 {
        "F21"@
    } else if i == 22 {
        "F22"@
    } else if i == 23 {
        "F23"@
    } else if i == 24 {
        "F24"@
    } else if i == 25 {
        "F25"@
    } else if i == 26 {
        "F26"@
    } else if i == 27 {
        "F27"@
    } else if i == 28 {
        "F28"@
    } else if i == 29 {
        "F29"@
    } else if i == 30 {
        "F30"@
    } else if i == 31 {
        "F31"@
    } else if i == 32 {
        "F32"@
    } else if i == 33 {
        "F33"@
    } else if i == 34 {
        "F34"@
    } else if i == 35 {
        "F35"@
    } else if i == 36 {
        "ShiftLeft"@
    } else if i == 37 {
        "ShiftRight"@
    } else if i == 38 {
        "ControlLeft"@
    } else if i == 39 {
        "ControlRight"@
    } else if i == 40 {
        "AltLeft"@
    } else if i == 41 {
        "AltRight"@
    } else if i == 42 {
        "WinLeft"@
    } else if i == 43 {
        "WinRight"@
    } else if i == 44 {
        "Up"@
    } else if i == 45 {
        "Down"@
    } else if i == 46 {
        "Left"@
    } else if i == 47 {
        "Right"@
    } else if i == 48 {
        "Number0"@
    } else if i == 49 {
        "Number1"@
    } else if i == 50 {
        "Number2"@
    } else if i == 51 {
        "Number3"@
    } else if i == 52 {
        "Number4"@
    } else if i == 53 {
        "Number5"@
    } else if i == 54 {
        "Number6"@
    } else if i == 55 {
        "Number7"@
    } else if i == 56 {
        "Number8"@
    } else if i == 57 {
        "Number9"@
    } else if i == 58 {
        "Insert"@
    } else if i == 59 {
        "Delete"@
    } else if i == 60 {
        "Home"@
    } else if i == 61 {
        "End"@
    } else if i == 62 {
        "PageUp"@
    } else if i == 63 {
        "PageDown"@
    } else if i == 64 {
        "Menu"@
    } else if i == 65 {
        "A"@
    } else if i == 66 {
        "B"@
    } else if i == 67 {
        "C"@
    } else if i == 68 {
        "D"@
    } else if i == 69 {
        "E"@
    } else if i == 70 {
        "F"@
    } else if i == 71 {
        "G"@
    } else if i == 72 {
        "H"@
    } else if i == 73 {
        "I"@
    } else if i == 74 {
        "J"@
    } else if i == 75 {
        "K"@
    } else if i == 76 {
        "L"@
    } else if i == 77 {
        "M"@
    } else if i == 78 {
        "N"@
    } else if i == 79 {
        "O"@
    } else if i == 80 {
        "P"@
    } else if i == 81 {
        "Q"@
    } else if i == 82 {
        "R"@
    } else if i == 83 {
        "S"@
    } else if i == 84 {
        "T"@
    } else if i == 85 {
        "U"@
    } else if i == 86 {
        "V"@
    } else if i == 87 {
        "W"@
    } else if i == 88 {
        "X"@
    } else if i == 89 {
        "Y"@
    } else if i == 90 {
        "Z"@
    } else if i == 91 {
        "Enter"@
    } else if i == 92 {
        "Escape"@
    } else if i == 93 {
        "Space"@
    } else if i == 94 {
        "BackSpace"@
    } else if i == 95 {
        "Tab"@
    } else if i == 96 {
        "CapsLock"@
    } else if i == 97 {
        "ScrollLock"@
    } else if i == 98 {
        "PrintScreen"@
    } else if i == 99 {
        "Pause"@
    } else if i == 100 {
        "NumLock"@
    } else if i == 101 {
        "Keypad0"@
    } else if i == 102 {
        "Keypad1"@
    } else if i == 103 {
        "Keypad2"@
    } else if i == 104 {
        "Keypad3"@
    } else if i == 105 {
        "Keypad4"@
    } else if i == 106 {
        "Keypad5"@
    } else if i == 107 {
        "Keypad6"@
    } else if i == 108 {
        "Keypad7"@
    } else if i == 109 {
        "Keypad8"@
    } else if i == 110 {
        "Keypad9"@
    } else if i == 111 {
        "KeypadDivide"@
    } else if i == 112 {
        "KeypadMultiply"@
    } else if i == 113 {
        "KeypadSubtract"@
    } else if i == 114 {
        "KeypadAdd"@
    } else if i == 115 {
        "KeypadDecimal"@
    } else if i == 116 {
        "KeypadEnter"@
    } else if i == 117 {
        "Tilde"@
    } else if i == 118 {
        "Minus"@
    } else if i == 119 {
        "Plus"@
    } else if i == 120 {
        "BracketLeft"@
    } else if i == 121 {
        "BracketRight"@
    } else if i == 122 {
        "Slash"@
    } else if i == 123 {
        "Semicolon"@
    } else if i == 124 {
        "Quote"@
    } else if i == 125 {
        "Comma"@
    } else if i == 126 {
        "Period"@
    } else if i == 127 {
        "BackSlash"@
    } else if i == 128 {
        "XButton1"@
    } else if i == 129 {
        "XButton2"@
    } else if i == 130 {
        "LeftMouse"@
    } else if i == 131 {
        "RightMouse"@
    } else if i == 132 {
        "MiddleMouse"@
    } else {
        Seq::empty()
    }
}

/// The configuration name of key identifier `i`.
pub fn input_name(i: usize) -> (s: &'static str)
    requires
        i < 133,
    ensures
        s@ == input_name_at(i as int),
{
    match i {
        0 => "None",
        1 => "F1",
        2 => "F2",
        3 => "F3",
        4 => "F4",
        5 => "F5",
        6 => "F6",
        7 => "F7",
        8 => "F8",
        9 => "F9",
        10 => "F10",
        11 => "F11",
        12 => "F12",
        13 => "F13",
        14 => "F14",
        15 => "F15",
        16 => "F16",
        17 => "F17",
        18 => "F18",
        19 => "F19",
        20 => "F20",
        21 => "F21",
        22 => "F22",
        23 => "F23",
        24 => "F24",
        25 => "F25",
        26 => "F26",
        27 => "F27",
        28 => "F28",
        29 => "F29",
        30 => "F30",
        31 => "F31",
        32 => "F32",
        33 => "F33",
        34 => "F34",
        35 => "F35",
        36 => "ShiftLeft",
        37 => "ShiftRight",
        38 => "ControlLeft",
        39 => "ControlRight",
        40 => "AltLeft",
        41 => "AltRight",
        42 => "WinLeft",
        43 => "WinRight",
        44 => "Up",
        45 => "Down",
        46 => "Left",
        47 => "Right",
        48 => "Number0",
        49 => "Number1",
        50 => "Number2",
        51 => "Number3",
        52 => "Number4",
        53 => "Number5",
        54 => "Number6",
        55 => "Number7",
        56 => "Number8",
        57 => "Number9",
        58 => "Insert",
        59 => "Delete",
        60 => "Home",
        61 => "End",
        62 => "PageUp",
        63 => "PageDown",
        64 => "Menu",
        65 => "A",
        66 => "B",
        67 => "C",
        68 => "D",
        69 => "E",
        70 => "F",
        71 => "G",
        72 => "H",
        73 => "I",
        74 => "J",
        75 => "K",
        76 => "L",
        77 => "M",
        78 => "N",
        79 => "O",
        80 => "P",
        81 => "Q",
        82 => "R",
        83 => "S",
        84 => "T",
        85 => "U",
        86 => "V",
        87 => "W",
        88 => "X",
        89 => "Y",
        90 => "Z",
        91 => "Enter",
        92 => "Escape",
        93 => "Space",
        94 => "BackSpace",
        95 => "Tab",
        96 => "CapsLock",
        97 => "ScrollLock",
        98 => "PrintScreen",
        99 => "Pause",
        100 => "NumLock",
        101 => "Keypad0",
        102 => "Keypad1",
        103 => "Keypad2",
        104 => "Keypad3",
        105 => "Keypad4",
        106 => "Keypad5",
        107 => "Keypad6",
        108 => "Keypad7",
        109 => "Keypad8",
        110 => "Keypad9",
        111 => "KeypadDivide",
        112 => "KeypadMultiply",
        113 => "KeypadSubtract",
        114 => "KeypadAdd",
        115 => "KeypadDecimal",
        116 => "KeypadEnter",
        117 => "Tilde",
        118 => "Minus",
        119 => "Plus",
        120 => "BracketLeft",
        121 => "BracketRight",
        122 => "Slash",
        123 => "Semicolon",
        124 => "Quote",
        125 => "Comma",
        126 => "Period",
        127 => "BackSlash",
        128 => "XButton1",
        129 => "XButton2",
        130 => "LeftMouse",
        131 => "RightMouse",
        132 => "MiddleMouse",
        _ => "None",
    }
}

/// How many key names the configuration table holds.
pub const INPUT_NAME_COUNT: u32 = 133;

/// Resolves a configured key name to its key identifier: the position of the
/// name in the host's key-name table, or nothing when the name is unknown.
pub fn get_key_from_input_name(name: &str) -> (r: Option<u32>)
    ensures
        match r {
            Some(k) => k < INPUT_NAME_COUNT && input_name_at(k as int) == name@ && (forall|j: int|
                0 <= j < k ==> input_name_at(j) != name@),
            None => forall|j: int| 0 <= j < INPUT_NAME_COUNT ==> input_name_at(j) != name@,
        },
{
    let target: String = name.to_owned();
    let mut i: usize = 0;
    while i < 133
        invariant
            i <= 133,
            target@ == name@,
            forall|j: int| 0 <= j < i ==> input_name_at(j) != name@,
        decreases 133 - i,
    {
        let entry: String = input_name(i).to_owned();
        if target == entry {
            return Some(i as u32);
        }
        i = i + 1;
    }
    None
}

} // verus!
