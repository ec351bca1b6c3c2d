use vstd::prelude::*;

verus! {

/// Number of keyboard key slots in [`InputData`].
pub const NUM_KEYS: usize = 256;

/// Number of mouse button slots in [`InputData`].
pub const NUM_BUTTONS: usize = 16;

/// Number of named keyboard keys; their codes are `0 .. NUM_NAMED_KEYS`.
pub const NUM_NAMED_KEYS: usize = 150;

/// The current state of a key or mousebutton.
#[derive(Debug, PartialEq, Eq, Structural, Copy, Clone)]
pub enum InputState {
    /// The key is not currently pressed.
    Up,
    /// The key was just pressed. This state is reported only once per key-press.
    Pressed,
    /// The key has been pressed and is still being held down.
    Down,
    /// The key has just been released. This state is reported only once per key-release.
    Released,
    /// The key is still being held down. When used as text-input, a letter repeat is expected.
    Repeat,
}

/// Input key and mousebutton ids.
///
/// Keyboard keys have the codes `0 .. NUM_NAMED_KEYS`, mouse buttons the codes
/// `NUM_KEYS .. NUM_KEYS + NUM_BUTTONS` and `Unsupported` the code `NUM_KEYS + NUM_BUTTONS`.
#[derive(Clone, Copy, Debug, PartialEq, Eq, Structural)]
pub enum InputId {
    Key1,
    Key2,
    Key3,
    Key4,
    Key5,
    Key6,
    Key7,
    Key8,
    Key9,
    Key0,
    A,
    B,
    C,
    D,
    E,
    F,
    G,
    H,
    I,
    J,
    K,
    L,
    M,
    N,
    O,
    P,
    Q,
    R,
    S,
    T,
    U,
    V,
    W,
    X,
    Y,
    Z,
    Escape,
    F1,
    F2,
    F3,
    F4,
    F5,
    F6,
    F7,
    F8,
    F9,
    F10,
    F11,
    F12,
    F13,
    F14,
    F15,
    Snapshot,
    Scroll,
    Pause,
    Insert,
    Home,
    Delete,
    End,
    PageDown,
    PageUp,
    CursorLeft,
    CursorUp,
    CursorRight,
    CursorDown,
    Backspace,
    Return,
    Space,
    Numlock,
    Numpad0,
    Numpad1,
    Numpad2,
    Numpad3,
    Numpad4,
    Numpad5,
    Numpad6,
    Numpad7,
    Numpad8,
    Numpad9,
    AbntC1,
    AbntC2,
    Add,
    Apostrophe,
    Apps,
    At,
    Ax,
    Backslash,
    Calculator,
    Capital,
    Colon,
    Comma,
    Convert,
    Decimal,
    Divide,
    Equals,
    Grave,
    Kana,
    Kanji,
    LAlt,
    LBracket,
    LControl,
    LMenu,
    LShift,
    LWin,
    Mail,
    MediaSelect,
    MediaStop,
    Minus,
    Multiply,
    Mute,
    MyComputer,
    NextTrack,
    NoConvert,
    NumpadComma,
    NumpadEnter,
    NumpadEquals,
    OEM102,
    Period,
    PlayPause,
    Power,
    PrevTrack,
    RAlt,
    RBracket,
    RControl,
    RMenu,
    RShift,
    RWin,
    Semicolon,
    Slash,
    Sleep,
    Stop,
    Subtract,
    Sysrq,
    Tab,
    Underline,
    Unlabeled,
    VolumeDown,
    VolumeUp,
    Wake,
    WebBack,
    WebFavorites,
    WebForward,
    WebHome,
    WebRefresh,
    WebSearch,
    WebStop,
    Yen,
    Compose,
    NavigateForward,
    NavigateBackward,
    Mouse1,
    Mouse2,
    Mouse3,
    Mouse4,
    Mouse5,
    Mouse6,
    Mouse7,
    Mouse8,
    Mouse9,
    Mouse10,
    Mouse11,
    Mouse12,
    Mouse13,
    Mouse14,
    Mouse15,
    Mouse16,
    Unsupported,
}

impl InputId {
    /// The numeric code of an id.
    pub open spec fn code(self) -> int {
        match self {
            InputId::Key1 => 0,
            InputId::Key2 => 1,
            InputId::Key3 => 2,
            InputId::Key4 => 3,
            InputId::Key5 => 4,
            InputId::Key6 => 5,
            InputId::Key7 => 6,
            InputId::Key8 => 7,
            InputId::Key9 => 8,
            InputId::Key0 => 9,
            InputId::A => 10,
            InputId::B => 11,
            InputId::C => 12,
            InputId::D => 13,
            InputId::E => 14,
            InputId::F => 15,
            InputId::G => 16,
            InputId::H => 17,
            InputId::I => 18,
            InputId::J => 19,
            InputId::K => 20,
            InputId::L => 21,
            InputId::M => 22,
            InputId::N => 23,
            InputId::O => 24,
            InputId::P => 25,
            InputId::Q => 26,
            InputId::R => 27,
            InputId::S => 28,
            InputId::T => 29,
            InputId::U => 30,
            InputId::V => 31,
            InputId::W => 32,
            InputId::X => 33,
            InputId::Y => 34,
            InputId::Z => 35,
            InputId::Escape => 36,
            InputId::F1 => 37,
            InputId::F2 => 38,
            InputId::F3 => 39,
            InputId::F4 => 40,
            InputId::F5 => 41,
            InputId::F6 => 42,
            InputId::F7 => 43,
            InputId::F8 => 44,
            InputId::F9 => 45,
            InputId::F10 => 46,
            InputId::F11 => 47,
            InputId::F12 => 48,
            InputId::F13 => 49,
            InputId::F14 => 50,
            InputId::F15 => 51,
            InputId::Snapshot => 52,
            InputId::Scroll => 53,
            InputId::Pause => 54,
            InputId::Insert => 55,
            InputId::Home => 56,
            InputId::Delete => 57,
            InputId::End => 58,
            InputId::PageDown => 59,
            InputId::PageUp => 60,
            InputId::CursorLeft => 61,
            InputId::CursorUp => 62,
            InputId::CursorRight => 63,
            InputId::CursorDown => 64,
            InputId::Backspace => 65,
            InputId::Return => 66,
            InputId::Space => 67,
            InputId::Numlock => 68,
            InputId::Numpad0 => 69,
            InputId::Numpad1 => 70,
            InputId::Numpad2 => 71,
            InputId::Numpad3 => 72,
            InputId::Numpad4 => 73,
            InputId::Numpad5 => 74,
            InputId::Numpad6 => 75,
            InputId::Numpad7 => 76,
            InputId::Numpad8 => 77,
            InputId::Numpad9 => 78,
            InputId::AbntC1 => 79,
            InputId::AbntC2 => 80,
            InputId::Add => 81,
            InputId::Apostrophe => 82,
            InputId::Apps => 83,
            InputId::At => 84,
            InputId::Ax => 85,
            InputId::Backslash => 86,
            InputId::Calculator => 87,
            InputId::Capital => 88,
            InputId::Colon => 89,
            InputId::Comma => 90,
            InputId::Convert => 91,
            InputId::Decimal => 92,
            InputId::Divide => 93,
            InputId::Equals => 94,
            InputId::Grave => 95,
            InputId::Kana => 96,
            InputId::Kanji => 97,
            InputId::LAlt => 98,
            InputId::LBracket => 99,
            InputId::LControl => 100,
            InputId::LMenu => 101,
            InputId::LShift => 102,
            InputId::LWin => 103,
            InputId::Mail => 104,
            InputId::MediaSelect => 105,
            InputId::MediaStop => 106,
            InputId::Minus => 107,
            InputId::Multiply => 108,
            InputId::Mute => 109,
            InputId::MyComputer => 110,
            InputId::NextTrack => 111,
            InputId::NoConvert => 112,
            InputId::NumpadComma => 113,
            InputId::NumpadEnter => 114,
            InputId::NumpadEquals => 115,
            InputId::OEM102 => 116,
            InputId::Period => 117,
            InputId::PlayPause => 118,
            InputId::Power => 119,
            InputId::PrevTrack => 120,
            InputId::RAlt => 121,
            InputId::RBracket => 122,
            InputId::RControl => 123,
            InputId::RMenu => 124,
            InputId::RShift => 125,
            InputId::RWin => 126,
            InputId::Semicolon => 127,
            InputId::Slash => 128,
            InputId::Sleep => 129,
            InputId::Stop => 130,
            InputId::Subtract => 131,
            InputId::Sysrq => 132,
            InputId::Tab => 133,
            InputId::Underline => 134,
            InputId::Unlabeled => 135,
            InputId::VolumeDown => 136,
            InputId::VolumeUp => 137,
            InputId::Wake => 138,
            InputId::WebBack => 139,
            InputId::WebFavorites => 140,
            InputId::WebForward => 141,
            InputId::WebHome => 142,
            InputId::WebRefresh => 143,
            InputId::WebSearch => 144,
            InputId::WebStop => 145,
            InputId::Yen => 146,
            InputId::Compose => 147,
            InputId::NavigateForward => 148,
            InputId::NavigateBackward => 149,
            InputId::Mouse1 => 256,
            InputId::Mouse2 => 257,
            InputId::Mouse3 => 258,
            InputId::Mouse4 => 259,
            InputId::Mouse5 => 260,
            InputId::Mouse6 => 261,
            InputId::Mouse7 => 262,
            InputId::Mouse8 => 263,
            InputId::Mouse9 => 264,
            InputId::Mouse10 => 265,
            InputId::Mouse11 => 266,
            InputId::Mouse12 => 267,
            InputId::Mouse13 => 268,
            InputId::Mouse14 => 269,
            InputId::Mouse15 => 270,
            InputId::Mouse16 => 271,
            InputId::Unsupported => 272,
        }
    }

    /// The id that has the given numeric code, if there is one.
    pub open spec fn from_code(n: usize) -> Option<InputId> {
        match n {
            0 => Some(InputId::Key1),
            1 => Some(InputId::Key2),
            2 => Some(InputId::Key3),
            3 => Some(InputId::Key4),
            4 => Some(InputId::Key5),
            5 => Some(InputId::Key6),
            6 => Some(InputId::Key7),
            7 => Some(InputId::Key8),
            8 => Some(InputId::Key9),
            9 => Some(InputId::Key0),
            10 => Some(InputId::A),
            11 => Some(InputId::B),
            12 => Some(InputId::C),
            13 => Some(InputId::D),
            14 => Some(InputId::E),
            15 => Some(InputId::F),
            16 => Some(InputId::G),
            17 => Some(InputId::H),
            18 => Some(InputId::I),
            19 => Some(InputId::J),
            20 => Some(InputId::K),
            21 => Some(InputId::L),
            22 => Some(InputId::M),
            23 => Some(InputId::N),
            24 => Some(InputId::O),
            25 => Some(InputId::P),
            26 => Some(InputId::Q),
            27 => Some(InputId::R),
            28 => Some(InputId::S),
            29 => Some(InputId::T),
            30 => Some(InputId::U),
            31 => Some(InputId::V),
            32 => Some(InputId::W),
            33 => Some(InputId::X),
            34 => Some(InputId::Y),
            35 => Some(InputId::Z),
            36 => Some(InputId::Escape),
            37 => Some(InputId::F1),
            38 => Some(InputId::F2),
            39 => Some(InputId::F3),
            40 => Some(InputId::F4),
            41 => Some(InputId::F5),
            42 => Some(InputId::F6),
            43 => Some(InputId::F7),
            44 => Some(InputId::F8),
            45 => Some(InputId::F9),
            46 => Some(InputId::F10),
            47 => Some(InputId::F11),
            48 => Some(InputId::F12),
            49 => Some(InputId::F13),
            50 => Some(InputId::F14),
            51 => Some(InputId::F15),
            52 => Some(InputId::Snapshot),
            53 => Some(InputId::Scroll),
            54 => Some(InputId::Pause),
            55 => Some(InputId::Insert),
            56 => Some(InputId::Home),
            57 => Some(InputId::Delete),
            58 => Some(InputId::End),
            59 => Some(InputId::PageDown),
            60 => Some(InputId::PageUp),
            61 => Some(InputId::CursorLeft),
            62 => Some(InputId::CursorUp),
            63 => Some(InputId::CursorRight),
            64 => Some(InputId::CursorDown),
            65 => Some(InputId::Backspace),
            66 => Some(InputId::Return),
            67 => Some(InputId::Space),
            68 => Some(InputId::Numlock),
            69 => Some(InputId::Numpad0),
            70 => Some(InputId::Numpad1),
            71 => Some(InputId::Numpad2),
            72 => Some(InputId::Numpad3),
            73 => Some(InputId::Numpad4),
            74 => Some(InputId::Numpad5),
            75 => Some(InputId::Numpad6),
            76 => Some(InputId::Numpad7),
            77 => Some(InputId::Numpad8),
            78 => Some(InputId::Numpad9),
            79 => Some(InputId::AbntC1),
            80 => Some(InputId::AbntC2),
            81 => Some(InputId::Add),
            82 => Some(InputId::Apostrophe),
            83 => Some(InputId::Apps),
            84 => Some(InputId::At),
            85 => Some(InputId::Ax),
            86 => Some(InputId::Backslash),
            87 => Some(InputId::Calculator),
            88 => Some(InputId::Capital),
            89 => Some(InputId::Colon),
            90 => Some(InputId::Comma),
            91 => Some(InputId::Convert),
            92 => Some(InputId::Decimal),
            93 => Some(InputId::Divide),
            94 => Some(InputId::Equals),
            95 => Some(InputId::Grave),
            96 => Some(InputId::Kana),
            97 => Some(InputId::Kanji),
            98 => Some(InputId::LAlt),
            99 => Some(InputId::LBracket),
            100 => Some(InputId::LControl),
            101 => Some(InputId::LMenu),
            102 => Some(InputId::LShift),
            103 => Some(InputId::LWin),
            104 => Some(InputId::Mail),
            105 => Some(InputId::MediaSelect),
            106 => Some(InputId::MediaStop),
            107 => Some(InputId::Minus),
            108 => Some(InputId::Multiply),
            109 => Some(InputId::Mute),
            110 => Some(InputId::MyComputer),
            111 => Some(InputId::NextTrack),
            112 => Some(InputId::NoConvert),
            113 => Some(InputId::NumpadComma),
            114 => Some(InputId::NumpadEnter),
            115 => Some(InputId::NumpadEquals),
            116 => Some(InputId::OEM102),
            117 => Some(InputId::Period),
            118 => Some(InputId::PlayPause),
            119 => Some(InputId::Power),
            120 => Some(InputId::PrevTrack),
            121 => Some(InputId::RAlt),
            122 => Some(InputId::RBracket),
            123 => Some(InputId::RControl),
            124 => Some(InputId::RMenu),
            125 => Some(InputId::RShift),
            126 => Some(InputId::RWin),
            127 => Some(InputId::Semicolon),
            128 => Some(InputId::Slash),
            129 => Some(InputId::Sleep),
            130 => Some(InputId::Stop),
            131 => Some(InputId::Subtract),
            132 => Some(InputId::Sysrq),
            133 => Some(InputId::Tab),
            134 => Some(InputId::Underline),
            135 => Some(InputId::Unlabeled),
            136 => Some(InputId::VolumeDown),
            137 => Some(InputId::VolumeUp),
            138 => Some(InputId::Wake),
            139 => Some(InputId::WebBack),
            140 => Some(InputId::WebFavorites),
            141 => Some(InputId::WebForward),
            142 => Some(InputId::WebHome),
            143 => Some(InputId::WebRefresh),
            144 => Some(InputId::WebSearch),
            145 => Some(InputId::WebStop),
            146 => Some(InputId::Yen),
            147 => Some(InputId::Compose),
            148 => Some(InputId::NavigateForward),
            149 => Some(InputId::NavigateBackward),
            256 => Some(InputId::Mouse1),
            257 => Some(InputId::Mouse2),
            258 => Some(InputId::Mouse3),
            259 => Some(InputId::Mouse4),
            260 => Some(InputId::Mouse5),
            261 => Some(InputId::Mouse6),
            262 => Some(InputId::Mouse7),
            263 => Some(InputId::Mouse8),
            264 => Some(InputId::Mouse9),
            265 => Some(InputId::Mouse10),
            266 => Some(InputId::Mouse11),
            267 => Some(InputId::Mouse12),
            268 => Some(InputId::Mouse13),
            269 => Some(InputId::Mouse14),
            270 => Some(InputId::Mouse15),
            271 => Some(InputId::Mouse16),
            272 => Some(InputId::Unsupported),
            _ => None,
        }
    }

    /// Whether `n` is the code of some id.
    pub open spec fn is_code(n: int) -> bool {
        (0 <= n < NUM_NAMED_KEYS) || (NUM_KEYS <= n <= NUM_KEYS + NUM_BUTTONS)
    }

    /// Whether the id names a key or a mouse button (every id but `Unsupported`).
    pub open spec fn is_slot(self) -> bool {
        self.code() < NUM_KEYS + NUM_BUTTONS
    }

    /// Returns the numeric code of the id.
    pub fn as_usize(self) -> (r: usize)
        ensures
            r == self.code(),
    {
        match self {
            InputId::Key1 => 0,
            InputId::Key2 => 1,
            InputId::Key3 => 2,
            InputId::Key4 => 3,
            InputId::Key5 => 4,
            InputId::Key6 => 5,
            InputId::Key7 => 6,
            InputId::Key8 => 7,
            InputId::Key9 => 8,
            InputId::Key0 => 9,
            InputId::A => 10,
            InputId::B => 11,
            InputId::C => 12,
            InputId::D => 13,
            InputId::E => 14,
            InputId::F => 15,
            InputId::G => 16,
            InputId::H => 17,
            InputId::I => 18,
            InputId::J => 19,
            InputId::K => 20,
            InputId::L => 21,
            InputId::M => 22,
            InputId::N => 23,
            InputId::O => 24,
            InputId::P => 25,
            InputId::Q => 26,
            InputId::R => 27,
            InputId::S => 28,
            InputId::T => 29,
            InputId::U => 30,
            InputId::V => 31,
            InputId::W => 32,
            InputId::X => 33,
            InputId::Y => 34,
            InputId::Z => 35,
            InputId::Escape => 36,
            InputId::F1 => 37,
            InputId::F2 => 38,
            InputId::F3 => 39,
            InputId::F4 => 40,
            InputId::F5 => 41,
            InputId::F6 => 42,
            InputId::F7 => 43,
            InputId::F8 => 44,
            InputId::F9 => 45,
            InputId::F10 => 46,
            InputId::F11 => 47,
            InputId::F12 => 48,
            InputId::F13 => 49,
            InputId::F14 => 50,
            InputId::F15 => 51,
            InputId::Snapshot => 52,
            InputId::Scroll => 53,
            InputId::Pause => 54,
            InputId::Insert => 55,
            InputId::Home => 56,
            InputId::Delete => 57,
            InputId::End => 58,
            InputId::PageDown => 59,
            InputId::PageUp => 60,
            InputId::CursorLeft => 61,
            InputId::CursorUp => 62,
            InputId::CursorRight => 63,
            InputId::CursorDown => 64,
            InputId::Backspace => 65,
            InputId::Return => 66,
            InputId::Space => 67,
            InputId::Numlock => 68,
            InputId::Numpad0 => 69,
            InputId::Numpad1 => 70,
            InputId::Numpad2 => 71,
            InputId::Numpad3 => 72,
            InputId::Numpad4 => 73,
            InputId::Numpad5 => 74,
            InputId::Numpad6 => 75,
            InputId::Numpad7 => 76,
            InputId::Numpad8 => 77,
            InputId::Numpad9 => 78,
            InputId::AbntC1 => 79,
            InputId::AbntC2 => 80,
            InputId::Add => 81,
            InputId::Apostrophe => 82,
            InputId::Apps => 83,
            InputId::At => 84,
            InputId::Ax => 85,
            InputId::Backslash => 86,
            InputId::Calculator => 87,
            InputId::Capital => 88,
            InputId::Colon => 89,
            InputId::Comma => 90,
            InputId::Convert => 91,
            InputId::Decimal => 92,
            InputId::Divide => 93,
            InputId::Equals => 94,
            InputId::Grave => 95,
            InputId::Kana => 96,
            InputId::Kanji => 97,
            InputId::LAlt => 98,
            InputId::LBracket => 99,
            InputId::LControl => 100,
            InputId::LMenu => 101,
            InputId::LShift => 102,
            InputId::LWin => 103,
            InputId::Mail => 104,
            InputId::MediaSelect => 105,
            InputId::MediaStop => 106,
            InputId::Minus => 107,
            InputId::Multiply => 108,
            InputId::Mute => 109,
            InputId::MyComputer => 110,
            InputId::NextTrack => 111,
            InputId::NoConvert => 112,
            InputId::NumpadComma => 113,
            InputId::NumpadEnter => 114,
            InputId::NumpadEquals => 115,
            InputId::OEM102 => 116,
            InputId::Period => 117,
            InputId::PlayPause => 118,
            InputId::Power => 119,
            InputId::PrevTrack => 120,
            InputId::RAlt => 121,
            InputId::RBracket => 122,
            InputId::RControl => 123,
            InputId::RMenu => 124,
            InputId::RShift => 125,
            InputId::RWin => 126,
            InputId::Semicolon => 127,
            InputId::Slash => 128,
            InputId::Sleep => 129,
            InputId::Stop => 130,
            InputId::Subtract => 131,
            InputId::Sysrq => 132,
            InputId::Tab => 133,
            InputId::Underline => 134,
            InputId::Unlabeled => 135,
            InputId::VolumeDown => 136,
            InputId::VolumeUp => 137,
            InputId::Wake => 138,
            InputId::WebBack => 139,
            InputId::WebFavorites => 140,
            InputId::WebForward => 141,
            InputId::WebHome => 142,
            InputId::WebRefresh => 143,
            InputId::WebSearch => 144,
            InputId::WebStop => 145,
            InputId::Yen => 146,
            InputId::Compose => 147,
            InputId::NavigateForward => 148,
            InputId::NavigateBackward => 149,
            InputId::Mouse1 => 256,
            InputId::Mouse2 => 257,
            InputId::Mouse3 => 258,
            InputId::Mouse4 => 259,
            InputId::Mouse5 => 260,
            InputId::Mouse6 => 261,
            InputId::Mouse7 => 262,
            InputId::Mouse8 => 263,
            InputId::Mouse9 => 264,
            InputId::Mouse10 => 265,
            InputId::Mouse11 => 266,
            InputId::Mouse12 => 267,
            InputId::Mouse13 => 268,
            InputId::Mouse14 => 269,
            InputId::Mouse15 => 270,
            InputId::Mouse16 => 271,
            InputId::Unsupported => 272,
        }
    }

    /// Returns the id with the given numeric code, or `None` if no id has it.
    pub fn from_usize(n: usize) -> (r: Option<InputId>)
        ensures
            r == InputId::from_code(n),
            r is Some <==> InputId::is_code(n as int),
            r matches Some(id) ==> id.code() == n,
    {
        proof {
            lemma_from_code(n);
        }
        match n {
            0 => Some(InputId::Key1),
            1 => Some(InputId::Key2),
            2 => Some(InputId::Key3),
            3 => Some(InputId::Key4),
            4 => Some(InputId::Key5),
            5 => Some(InputId::Key6),
            6 => Some(InputId::Key7),
            7 => Some(InputId::Key8),
            8 => Some(InputId::Key9),
            9 => Some(InputId::Key0),
            10 => Some(InputId::A),
            11 => Some(InputId::B),
            12 => Some(InputId::C),
            13 => Some(InputId::D),
            14 => Some(InputId::E),
            15 => Some(InputId::F),
            16 => Some(InputId::G),
            17 => Some(InputId::H),
            18 => Some(InputId::I),
            19 => Some(InputId::J),
            20 => Some(InputId::K),
            21 => Some(InputId::L),
            22 => Some(InputId::M),
            23 => Some(InputId::N),
            24 => Some(InputId::O),
            25 => Some(InputId::P),
            26 => Some(InputId::Q),
            27 => Some(InputId::R),
            28 => Some(InputId::S),
            29 => Some(InputId::T),
            30 => Some(InputId::U),
            31 => Some(InputId::V),
            32 => Some(InputId::W),
            33 => Some(InputId::X),
            34 => Some(InputId::Y),
            35 => Some(InputId::Z),
            36 => Some(InputId::Escape),
            37 => Some(InputId::F1),
            38 => Some(InputId::F2),
            39 => Some(InputId::F3),
            40 => Some(InputId::F4),
            41 => Some(InputId::F5),
            42 => Some(InputId::F6),
            43 => Some(InputId::F7),
            44 => Some(InputId::F8),
            45 => Some(InputId::F9),
            46 => Some(InputId::F10),
            47 => Some(InputId::F11),
            48 => Some(InputId::F12),
            49 => Some(InputId::F13),
            50 => Some(InputId::F14),
            51 => Some(InputId::F15),
            52 => Some(InputId::Snapshot),
            53 => Some(InputId::Scroll),
            54 => Some(InputId::Pause),
            55 => Some(InputId::Insert),
            56 => Some(InputId::Home),
            57 => Some(InputId::Delete),
            58 => Some(InputId::End),
            59 => Some(InputId::PageDown),
            60 => Some(InputId::PageUp),
            61 => Some(InputId::CursorLeft),
            62 => Some(InputId::CursorUp),
            63 => Some(InputId::CursorRight),
            64 => Some(InputId::CursorDown),
            65 => Some(InputId::Backspace),
            66 => Some(InputId::Return),
            67 => Some(InputId::Space),
            68 => Some(InputId::Numlock),
            69 => Some(InputId::Numpad0),
            70 => Some(InputId::Numpad1),
            71 => Some(InputId::Numpad2),
            72 => Some(InputId::Numpad3),
            73 => Some(InputId::Numpad4),
            74 => Some(InputId::Numpad5),
            75 => Some(InputId::Numpad6),
            76 => Some(InputId::Numpad7),
            77 => Some(InputId::Numpad8),
            78 => Some(InputId::Numpad9),
            79 => Some(InputId::AbntC1),
            80 => Some(InputId::AbntC2),
            81 => Some(InputId::Add),
            82 => Some(InputId::Apostrophe),
            83 => Some(InputId::Apps),
            84 => Some(InputId::At),
            85 => Some(InputId::Ax),
            86 => Some(InputId::Backslash),
            87 => Some(InputId::Calculator),
            88 => Some(InputId::Capital),
            89 => Some(InputId::Colon),
            90 => Some(InputId::Comma),
            91 => Some(InputId::Convert),
            92 => Some(InputId::Decimal),
            93 => Some(InputId::Divide),
            94 => Some(InputId::Equals),
            95 => Some(InputId::Grave),
            96 => Some(InputId::Kana),
            97 => Some(InputId::Kanji),
            98 => Some(InputId::LAlt),
            99 => Some(InputId::LBracket),
            100 => Some(InputId::LControl),
            101 => Some(InputId::LMenu),
            102 => Some(InputId::LShift),
            103 => Some(InputId::LWin),
            104 => Some(InputId::Mail),
            105 => Some(InputId::MediaSelect),
            106 => Some(InputId::MediaStop),
            107 => Some(InputId::Minus),
            108 => Some(InputId::Multiply),
            109 => Some(InputId::Mute),
            110 => Some(InputId::MyComputer),
            111 => Some(InputId::NextTrack),
            112 => Some(InputId::NoConvert),
            113 => Some(InputId::NumpadComma),
            114 => Some(InputId::NumpadEnter),
            115 => Some(InputId::NumpadEquals),
            116 => Some(InputId::OEM102),
            117 => Some(InputId::Period),
            118 => Some(InputId::PlayPause),
            119 => Some(InputId::Power),
            120 => Some(InputId::PrevTrack),
            121 => Some(InputId::RAlt),
            122 => Some(InputId::RBracket),
            123 => Some(InputId::RControl),
            124 => Some(InputId::RMenu),
            125 => Some(InputId::RShift),
            126 => Some(InputId::RWin),
            127 => Some(InputId::Semicolon),
            128 => Some(InputId::Slash),
            129 => Some(InputId::Sleep),
            130 => Some(InputId::Stop),
            131 => Some(InputId::Subtract),
            132 => Some(InputId::Sysrq),
            133 => Some(InputId::Tab),
            134 => Some(InputId::Underline),
            135 => Some(InputId::Unlabeled),
            136 => Some(InputId::VolumeDown),
            137 => Some(InputId::VolumeUp),
            138 => Some(InputId::Wake),
            139 => Some(InputId::WebBack),
            140 => Some(InputId::WebFavorites),
            141 => Some(InputId::WebForward),
            142 => Some(InputId::WebHome),
            143 => Some(InputId::WebRefresh),
            144 => Some(InputId::WebSearch),
            145 => Some(InputId::WebStop),
            146 => Some(InputId::Yen),
            147 => Some(InputId::Compose),
            148 => Some(InputId::NavigateForward),
            149 => Some(InputId::NavigateBackward),
            256 => Some(InputId::Mouse1),
            257 => Some(InputId::Mouse2),
            258 => Some(InputId::Mouse3),
            259 => Some(InputId::Mouse4),
            260 => Some(InputId::Mouse5),
            261 => Some(InputId::Mouse6),
            262 => Some(InputId::Mouse7),
            263 => Some(InputId::Mouse8),
            264 => Some(InputId::Mouse9),
            265 => Some(InputId::Mouse10),
            266 => Some(InputId::Mouse11),
            267 => Some(InputId::Mouse12),
            268 => Some(InputId::Mouse13),
            269 => Some(InputId::Mouse14),
            270 => Some(InputId::Mouse15),
            271 => Some(InputId::Mouse16),
            272 => Some(InputId::Unsupported),
            _ => None,
        }
    }

    /// Returns the id of the mouse button with the given 1-based number, or
    /// `Unsupported` for numbers outside `1 ..= NUM_BUTTONS`.
    pub fn button(id: usize) -> (r: InputId)
        ensures
            1 <= id <= NUM_BUTTONS ==> r.code() == NUM_KEYS + id - 1,
            !(1 <= id <= NUM_BUTTONS) ==> r == InputId::Unsupported,
    {
        if 1 <= id && id <= NUM_BUTTONS {
            let r = InputId::from_usize(NUM_KEYS + id - 1);
            match r {
                Some(v) => v,
                None => InputId::Unsupported,
            }
        } else {
            InputId::Unsupported
        }
    }
}

/// The code of an id leads back to the id.
pub proof fn lemma_code_round_trip(id: InputId)
    ensures
        InputId::from_code(id.code() as usize) == Some(id),
        InputId::is_code(id.code()),
{
}

/// Codes and ids correspond one to one.
pub proof fn lemma_code_injective(a: InputId, b: InputId)
    ensures
        a.code() == b.code() <==> a == b,
{
    lemma_code_round_trip(a);
    lemma_code_round_trip(b);
}

/// `from_code` finds an id exactly for the codes in use, and the id it finds has that code.
pub proof fn lemma_from_code(n: usize)
    ensures
        InputId::from_code(n) is Some <==> InputId::is_code(n as int),
        InputId::from_code(n) matches Some(id) ==> id.code() == n,
{
}

/// Input data shared between a display and the code that reads its input.
#[derive(Clone, Copy)]
pub struct InputData {
    pub mouse: (i32, i32),
    pub mouse_delta: (i32, i32),
    pub button: [InputState; 16],
    pub key: [InputState; 256],
    pub should_close: bool,
    pub cursor_grabbed: bool,
    pub dimensions: (u32, u32),
}

/// An input event, as reported by a display backend.
#[derive(Clone, Copy, Debug, PartialEq, Eq, Structural)]
pub enum Event {
    /// A key changed its state (key code, pressed).
    KeyboardInput(usize, bool),
    /// A mouse button changed its state (button number, pressed).
    MouseInput(usize, bool),
    /// The mouse moved to the given window coordinates.
    MouseMoved(i32, i32),
    /// The window gained focus.
    Focused,
    /// The window was closed.
    Closed,
}

/// The state of the mouse cursor while it is inside the window.
#[derive(Clone, Copy, Debug, PartialEq, Eq, Structural)]
pub enum CursorState {
    /// Visible and free to leave the window.
    Normal,
    /// Hidden while inside the window.
    Hide,
    /// Hidden and held inside the window.
    Grab,
}

/// Something the display has to do after an event was applied to the input data.
#[derive(Clone, Copy, Debug, PartialEq, Eq, Structural)]
pub enum InputAction {
    /// Move the cursor to the given window coordinates (the window center while grabbed).
    SetCursorPosition(i32, i32),
    /// Set the cursor state to normal and then back to grabbed, restoring the grab after a focus loss.
    RestoreGrab,
}

/// Whether a key in this state counts as held down.
pub open spec fn key_is_down(s: InputState) -> bool {
    s == InputState::Pressed || s == InputState::Down || s == InputState::Repeat
}

/// Whether a mouse button in this state counts as held down.
pub open spec fn button_is_down(s: InputState) -> bool {
    s == InputState::Pressed || s == InputState::Down
}

/// Whether a key or button in this state counts as up.
pub open spec fn state_is_up(s: InputState) -> bool {
    s == InputState::Released || s == InputState::Up
}

/// The state a key has after the start of a new poll.
pub open spec fn aged_key(s: InputState) -> InputState {
    match s {
        InputState::Pressed | InputState::Repeat => InputState::Down,
        InputState::Released => InputState::Up,
        _ => s,
    }
}

/// The state a mouse button has after the start of a new poll.
pub open spec fn aged_button(s: InputState) -> InputState {
    match s {
        InputState::Pressed => InputState::Down,
        InputState::Released => InputState::Up,
        _ => s,
    }
}

/// The state of a key after an event reporting it as pressed (`down`) or released.
pub open spec fn key_after(s: InputState, down: bool) -> InputState {
    if !key_is_down(s) && down {
        InputState::Pressed
    } else if key_is_down(s) && !down {
        InputState::Released
    } else if key_is_down(s) && down {
        InputState::Repeat
    } else {
        s
    }
}

/// The state of a mouse button after an event reporting it as pressed (`down`) or released.
pub open spec fn button_after(s: InputState, down: bool) -> InputState {
    if !button_is_down(s) && down {
        InputState::Pressed
    } else if button_is_down(s) && !down {
        InputState::Released
    } else {
        s
    }
}

fn is_key_down(s: InputState) -> (r: bool)
    ensures
        r == key_is_down(s),
{
    s == InputState::Pressed || s == InputState::Down || s == InputState::Repeat
}

fn is_button_down(s: InputState) -> (r: bool)
    ensures
        r == button_is_down(s),
{
    s == InputState::Pressed || s == InputState::Down
}

impl InputData {
    /// Creates input data with every key and button up and all other values zero.
    pub fn new() -> (r: InputData)
        ensures
            r.mouse == (0i32, 0i32),
            r.mouse_delta == (0i32, 0i32),
            forall|i: int| 0 <= i < NUM_BUTTONS ==> r.button@[i] == InputState::Up,
            forall|i: int| 0 <= i < NUM_KEYS ==> r.key@[i] == InputState::Up,
            !r.should_close,
            !r.cursor_grabbed,
            r.dimensions == (0u32, 0u32),
            r.buttons_never_repeat(),
    {
        InputData {
            mouse: (0, 0),
            mouse_delta: (0, 0),
            button: [InputState::Up; 16],
            key: [InputState::Up; 256],
            should_close: false,
            cursor_grabbed: false,
            dimensions: (0, 0),
        }
    }

    /// The state recorded for a key or mouse button.
    pub open spec fn state_of(self, key: InputId) -> InputState
        recommends
            key.is_slot(),
    {
        if key.code() < NUM_KEYS {
            self.key@[key.code()]
        } else {
            self.button@[key.code() - NUM_KEYS]
        }
    }

    /// Whether the given key or button counts as held down.
    pub open spec fn is_down(self, key: InputId) -> bool {
        if key.code() < NUM_KEYS {
            key_is_down(self.state_of(key))
        } else {
            button_is_down(self.state_of(key))
        }
    }

    /// Whether the given key or button was just pressed (or, for keys and if
    /// `report_repeats` is set, repeated).
    pub open spec fn is_pressed(self, key: InputId, report_repeats: bool) -> bool {
        if key.code() < NUM_KEYS {
            self.state_of(key) == InputState::Pressed || (report_repeats && self.state_of(key)
                == InputState::Repeat)
        } else {
            self.state_of(key) == InputState::Pressed
        }
    }

    /// Whether the given key or button counts as up.
    pub open spec fn is_up(self, key: InputId) -> bool {
        state_is_up(self.state_of(key))
    }

    /// Whether no mouse button is in the `Repeat` state (the library never puts one there).
    pub open spec fn buttons_never_repeat(self) -> bool {
        forall|i: int| 0 <= i < NUM_BUTTONS ==> self.button@[i] != InputState::Repeat
    }

    /// Returns the state of the given key or button.
    pub fn state(&self, key: InputId) -> (r: InputState)
        requires
            key.is_slot(),
        ensures
            r == self.state_of(key),
            key.code() < NUM_KEYS ==> r == self.key@[key.code()],
            key.code() >= NUM_KEYS ==> r == self.button@[key.code() - NUM_KEYS],
    {
        let id = key.as_usize();
        if id < NUM_KEYS {
            self.key[id]
        } else {
            self.button[id - NUM_KEYS]
        }
    }

    /// Returns true if the given key or button is down or was just pressed.
    /// Keys also count as down while repeating.
    pub fn down(&self, key: InputId) -> (r: bool)
        requires
            key.is_slot(),
        ensures
            r == self.is_down(key),
            key.code() < NUM_KEYS ==> r == (self.key@[key.code()] == InputState::Pressed || self.key@[key.code()]
                == InputState::Down || self.key@[key.code()] == InputState::Repeat),
            key.code() >= NUM_KEYS ==> r == (self.button@[key.code() - NUM_KEYS] == InputState::Pressed || self.button@[key.code() - NUM_KEYS]
                == InputState::Down),
    {
        let id = key.as_usize();
        if id < NUM_KEYS {
            let s = self.key[id];
            s == InputState::Pressed || s == InputState::Down || s == InputState::Repeat
        } else {
            let s = self.button[id - NUM_KEYS];
            s == InputState::Pressed || s == InputState::Down
        }
    }

    /// Returns true if the given key or button was just pressed, or, for keys when
    /// `report_repeats` is true, repeated due to still being held down.
    pub fn pressed(&self, key: InputId, report_repeats: bool) -> (r: bool)
        requires
            key.is_slot(),
        ensures
            r == self.is_pressed(key, report_repeats),
            key.code() < NUM_KEYS ==> r == (self.key@[key.code()] == InputState::Pressed || (report_repeats
                && self.key@[key.code()] == InputState::Repeat)),
            key.code() >= NUM_KEYS ==> r == (self.button@[key.code() - NUM_KEYS] == InputState::Pressed),
    {
        let id = key.as_usize();
        if id < NUM_KEYS {
            let s = self.key[id];
            s == InputState::Pressed || (report_repeats && s == InputState::Repeat)
        } else {
            self.button[id - NUM_KEYS] == InputState::Pressed
        }
    }

    /// Returns true if the given key or button is up or was just released.
    pub fn up(&self, key: InputId) -> (r: bool)
        requires
            key.is_slot(),
        ensures
            r == self.is_up(key),
            key.code() < NUM_KEYS ==> r == (self.key@[key.code()] == InputState::Released || self.key@[key.code()]
                == InputState::Up),
            key.code() >= NUM_KEYS ==> r == (self.button@[key.code() - NUM_KEYS] == InputState::Released || self.button@[key.code() - NUM_KEYS]
                == InputState::Up),
    {
        let id = key.as_usize();
        let s = if id < NUM_KEYS {
            self.key[id]
        } else {
            self.button[id - NUM_KEYS]
        };
        s == InputState::Released || s == InputState::Up
    }

    /// Returns true if the given key or button was just released.
    pub fn released(&self, key: InputId) -> (r: bool)
        requires
            key.is_slot(),
        ensures
            r == (self.state_of(key) == InputState::Released),
            key.code() < NUM_KEYS ==> r == (self.key@[key.code()] == InputState::Released),
            key.code() >= NUM_KEYS ==> r == (self.button@[key.code() - NUM_KEYS] == InputState::Released),
    {
        let id = key.as_usize();
        if id < NUM_KEYS {
            self.key[id] == InputState::Released
        } else {
            self.button[id - NUM_KEYS] == InputState::Released
        }
    }

    /// Starts a new poll: keys that were just pressed or repeated become down,
    /// keys and buttons that were just released become up, buttons that were
    /// just pressed become down. Everything else is unchanged.
    pub fn begin_poll(&mut self)
        ensures
            forall|i: int| 0 <= i < NUM_KEYS ==> final(self).key@[i] == aged_key(old(self).key@[i]),
            forall|i: int|
                0 <= i < NUM_BUTTONS ==> final(self).button@[i] == aged_button(
                    old(self).button@[i],
                ),
            final(self).mouse == old(self).mouse,
            final(self).mouse_delta == old(self).mouse_delta,
            final(self).should_close == old(self).should_close,
            final(self).cursor_grabbed == old(self).cursor_grabbed,
            final(self).dimensions == old(self).dimensions,
            old(self).buttons_never_repeat() ==> final(self).buttons_never_repeat(),
    {
        let ghost start = *self;
        let mut key_id: usize = 0;
        while key_id < NUM_KEYS
            invariant
                key_id <= NUM_KEYS,
                forall|i: int| 0 <= i < key_id ==> self.key@[i] == aged_key(start.key@[i]),
                forall|i: int| key_id <= i < NUM_KEYS ==> self.key@[i] == start.key@[i],
                self.button == start.button,
                self.mouse == start.mouse,
                self.mouse_delta == start.mouse_delta,
                self.should_close == start.should_close,
                self.cursor_grabbed == start.cursor_grabbed,
                self.dimensions == start.dimensions,
            decreases NUM_KEYS - key_id,
        {
            let s = self.key[key_id];
            if s == InputState::Pressed || s == InputState::Repeat {
                self.key[key_id] = InputState::Down;
            } else if s == InputState::Released {
                self.key[key_id] = InputState::Up;
            }
            key_id = key_id + 1;
        }
        let mut button_id: usize = 0;
        while button_id < NUM_BUTTONS
            invariant
                button_id <= NUM_BUTTONS,
                forall|i: int| 0 <= i < NUM_KEYS ==> self.key@[i] == aged_key(start.key@[i]),
                forall|i: int|
                    0 <= i < button_id ==> self.button@[i] == aged_button(start.button@[i]),
                forall|i: int| button_id <= i < NUM_BUTTONS ==> self.button@[i] == start.button@[i],
                self.mouse == start.mouse,
                self.mouse_delta == start.mouse_delta,
                self.should_close == start.should_close,
                self.cursor_grabbed == start.cursor_grabbed,
                self.dimensions == start.dimensions,
            decreases NUM_BUTTONS - button_id,
        {
            let s = self.button[button_id];
            if s == InputState::Pressed {
                self.button[button_id] = InputState::Down;
            } else if s == InputState::Released {
                self.button[button_id] = InputState::Up;
            }
            button_id = button_id + 1;
        }
    }

    /// The window center that the cursor is held at while grabbed.
    pub open spec fn grab_center(self) -> (int, int) {
        ((self.dimensions.0 / 2) as int, (self.dimensions.1 / 2) as int)
    }

    /// Whether the event can be applied: key and button numbers are in range and,
    /// while the cursor is grabbed, the mouse arithmetic fits in `i32`.
    pub open spec fn accepts(self, event: Event) -> bool {
        match event {
            Event::KeyboardInput(key_id, _) => key_id < NUM_KEYS,
            Event::MouseInput(button_id, _) => button_id < NUM_BUTTONS,
            Event::MouseMoved(x, y) => self.cursor_grabbed ==> {
                let dx = x - self.grab_center().0;
                let dy = y - self.grab_center().1;
                &&& i32::MIN <= dx <= i32::MAX
                &&& i32::MIN <= dy <= i32::MAX
                &&& i32::MIN <= self.mouse.0 + dx <= i32::MAX
                &&& i32::MIN <= self.mouse.1 + dy <= i32::MAX
            },
            _ => true,
        }
    }

    /// Tests whether the event can be applied (see [`InputData::apply_event`]).
    pub fn can_apply(&self, event: Event) -> (r: bool)
        ensures
            r == self.accepts(event),
    {
        match event {
            Event::KeyboardInput(key_id, _) => key_id < NUM_KEYS,
            Event::MouseInput(button_id, _) => button_id < NUM_BUTTONS,
            Event::MouseMoved(x, y) => {
                if self.cursor_grabbed {
                    let cx: i64 = (self.dimensions.0 / 2) as i64;
                    let cy: i64 = (self.dimensions.1 / 2) as i64;
                    let dx: i64 = x as i64 - cx;
                    let dy: i64 = y as i64 - cy;
                    let lo: i64 = i32::MIN as i64;
                    let hi: i64 = i32::MAX as i64;
                    lo <= dx && dx <= hi && lo <= dy && dy <= hi && lo <= self.mouse.0 as i64 + dx
                        && self.mouse.0 as i64 + dx <= hi && lo <= self.mouse.1 as i64 + dy
                        && self.mouse.1 as i64 + dy <= hi
                } else {
                    true
                }
            },
            _ => true,
        }
    }

    /// Applies an event to the input data and returns what the display has to do in turn.
    pub fn apply_event(&mut self, event: Event) -> (r: Option<InputAction>)
        requires
            old(self).accepts(event),
        ensures
            final(self).dimensions == old(self).dimensions,
            final(self).cursor_grabbed == old(self).cursor_grabbed,
            final(self).should_close == (old(self).should_close || event is Closed),
            event matches Event::MouseInput(b, d) ==> {
                let s = old(self).button@[b as int];
                &&& (s == InputState::Pressed || s == InputState::Down) && !d ==> final(self).button@[b as int]
                    == InputState::Released
                &&& (s == InputState::Up || s == InputState::Released || s == InputState::Repeat) && d
                    ==> final(self).button@[b as int] == InputState::Pressed
            },
            event matches Event::KeyboardInput(k, d) ==> {
                let s = old(self).key@[k as int];
                &&& (s == InputState::Pressed || s == InputState::Down || s == InputState::Repeat) && !d
                    ==> final(self).key@[k as int] == InputState::Released
                &&& (s == InputState::Up || s == InputState::Released) && d ==> final(self).key@[k as int]
                    == InputState::Pressed
            },
            old(self).buttons_never_repeat() ==> final(self).buttons_never_repeat(),
            match event {
                Event::KeyboardInput(key_id, down) => {
                    &&& final(self).key@ == old(self).key@.update(
                        key_id as int,
                        key_after(old(self).key@[key_id as int], down),
                    )
                    &&& final(self).button == old(self).button
                    &&& final(self).mouse == old(self).mouse
                    &&& final(self).mouse_delta == old(self).mouse_delta
                    &&& final(self).should_close == old(self).should_close
                    &&& r is None
                },
                Event::MouseInput(button_id, down) => {
                    &&& final(self).button@ == old(self).button@.update(
                        button_id as int,
                        button_after(old(self).button@[button_id as int], down),
                    )
                    &&& final(self).key == old(self).key
                    &&& final(self).mouse == old(self).mouse
                    &&& final(self).mouse_delta == old(self).mouse_delta
                    &&& final(self).should_close == old(self).should_close
                    &&& r is None
                },
                Event::MouseMoved(x, y) => {
                    &&& final(self).key == old(self).key
                    &&& final(self).button == old(self).button
                    &&& final(self).should_close == old(self).should_close
                    &&& if old(self).cursor_grabbed {
                        let c = old(self).grab_center();
                        &&& final(self).mouse_delta.0 == x - c.0
                        &&& final(self).mouse_delta.1 == y - c.1
                        &&& final(self).mouse.0 == old(self).mouse.0 + (x - c.0)
                        &&& final(self).mouse.1 == old(self).mouse.1 + (y - c.1)
                        &&& r == Some(InputAction::SetCursorPosition(c.0 as i32, c.1 as i32))
                    } else {
                        &&& final(self).mouse == (x, y)
                        &&& final(self).mouse_delta == old(self).mouse_delta
                        &&& r is None
                    }
                },
                Event::Focused => {
                    &&& *final(self) == *old(self)
                    &&& r == (if old(self).cursor_grabbed {
                        Some(InputAction::RestoreGrab)
                    } else {
                        None
                    })
                },
                Event::Closed => {
                    &&& final(self).should_close
                    &&& final(self).key == old(self).key
                    &&& final(self).button == old(self).button
                    &&& final(self).mouse == old(self).mouse
                    &&& final(self).mouse_delta == old(self).mouse_delta
                    &&& r is None
                },
            },
    {
        match event {
            Event::KeyboardInput(key_id, down) => {
                let currently_down = is_key_down(self.key[key_id]);
                if !currently_down && down {
                    self.key[key_id] = InputState::Pressed;
                } else if currently_down && !down {
                    self.key[key_id] = InputState::Released;
                } else if currently_down && down {
                    self.key[key_id] = InputState::Repeat;
                }
                None
            },
            Event::MouseMoved(x, y) => {
                if self.cursor_grabbed {
                    let center: (i32, i32) = (
                        (self.dimensions.0 / 2) as i32,
                        (self.dimensions.1 / 2) as i32,
                    );
                    let old_mouse = self.mouse;
                    let delta: (i32, i32) = (x - center.0, y - center.1);
                    self.mouse = (old_mouse.0 + delta.0, old_mouse.1 + delta.1);
                    self.mouse_delta = delta;
                    Some(InputAction::SetCursorPosition(center.0, center.1))
                } else {
                    self.mouse = (x, y);
                    None
                }
            },
            Event::MouseInput(button_id, down) => {
                let currently_down = is_button_down(self.button[button_id]);
                if !currently_down && down {
                    self.button[button_id] = InputState::Pressed;
                } else if currently_down && !down {
                    self.button[button_id] = InputState::Released;
                }
                None
            },
            Event::Focused => {
                if self.cursor_grabbed {
                    Some(InputAction::RestoreGrab)
                } else {
                    None
                }
            },
            Event::Closed => {
                self.should_close = true;
                None
            },
        }
    }

    /// Returns true once after the window was closed: reports the close request and clears it.
    pub fn was_closed(&mut self) -> (r: bool)
        ensures
            r == old(self).should_close,
            !final(self).should_close,
            final(self).key == old(self).key,
            final(self).button == old(self).button,
            final(self).mouse == old(self).mouse,
            final(self).mouse_delta == old(self).mouse_delta,
            final(self).cursor_grabbed == old(self).cursor_grabbed,
            final(self).dimensions == old(self).dimensions,
    {
        let result = self.should_close;
        self.should_close = false;
        result
    }

    /// Records the cursor state that the display switches to. Grabbing marks the cursor as
    /// grabbed and returns the window coordinates the cursor is to be moved to; hiding or
    /// freeing the cursor releases the grab.
    pub fn set_cursor_state(&mut self, state: CursorState) -> (r: Option<(i32, i32)>)
        ensures
            final(self).cursor_grabbed == (state == CursorState::Grab),
            r == (if state == CursorState::Grab { Some((100i32, 100i32)) } else { None }),
            final(self).key == old(self).key,
            final(self).button == old(self).button,
            final(self).mouse == old(self).mouse,
            final(self).mouse_delta == old(self).mouse_delta,
            final(self).should_close == old(self).should_close,
            final(self).dimensions == old(self).dimensions,
    {
        match state {
            CursorState::Grab => {
                self.cursor_grabbed = true;
                Some((100, 100))
            },
            _ => {
                self.cursor_grabbed = false;
                None
            },
        }
    }
}


/// Number of key and button entries an [`InputIterator`] visits.
pub const NUM_ENTRIES: usize = 272;

/// The id reported for the entry at position `p` of an iteration.
pub open spec fn entry_id(p: int) -> InputId {
    match InputId::from_code(p as usize) {
        Some(id) => id,
        None => InputId::Unsupported,
    }
}

/// The state of the entry at position `p` of an iteration (keys first, then buttons).
pub open spec fn entry_state(data: InputData, p: int) -> InputState {
    if p < NUM_KEYS {
        data.key@[p]
    } else {
        data.button@[p - NUM_KEYS]
    }
}

/// What an iteration yields at position `p`.
pub open spec fn entry(data: InputData, p: int) -> Option<(InputId, InputState)> {
    if 0 <= p < NUM_ENTRIES {
        Some((entry_id(p), entry_state(data, p)))
    } else {
        None
    }
}

/// Whether an entry in this state is reported by the iterator over pressed entries: it
/// was just pressed, is held down or repeats while held down.
pub open spec fn held(s: InputState) -> bool {
    s == InputState::Down || s == InputState::Pressed || s == InputState::Repeat
}

/// The first position at or after `from` whose entry is held (`want_held`) or up
/// (`!want_held`); `NUM_ENTRIES` or `from`, whichever is larger, if there is none.
pub open spec fn first_entry(data: InputData, from: int, want_held: bool) -> int
    decreases NUM_ENTRIES - from,
{
    if from >= NUM_ENTRIES {
        from
    } else if (if want_held {
        held(entry_state(data, from))
    } else {
        state_is_up(entry_state(data, from))
    }) {
        from
    } else {
        first_entry(data, from + 1, want_held)
    }
}

proof fn lemma_first_entry(data: InputData, from: int, want_held: bool)
    requires
        0 <= from,
    ensures
        from <= first_entry(data, from, want_held),
        first_entry(data, from, want_held) < NUM_ENTRIES ==> (if want_held {
            held(entry_state(data, first_entry(data, from, want_held)))
        } else {
            state_is_up(entry_state(data, first_entry(data, from, want_held)))
        }),
        from >= NUM_ENTRIES ==> first_entry(data, from, want_held) == from,
        from < NUM_ENTRIES ==> first_entry(data, from, want_held) <= NUM_ENTRIES,
    decreases NUM_ENTRIES - from,
{
    if from < NUM_ENTRIES {
        lemma_first_entry(data, from + 1, want_held);
    }
}

/// An iterator over all keys and buttons: yields each id with its state, keys first.
pub struct InputIterator {
    input_data: InputData,
    position: usize,
}

/// An iterator over all keys and buttons that are currently pressed.
pub struct InputDownIterator(InputIterator);

/// An iterator over all keys and buttons that are currently not pressed.
pub struct InputUpIterator(InputIterator);

impl InputData {
    /// Returns an iterator over all keys and buttons.
    pub fn iter(&self) -> (r: InputIterator)
        ensures
            r.data() == *self,
            r.position() == 0,
    {
        InputIterator { input_data: *self, position: 0 }
    }
}

impl InputIterator {
    /// The input data the iterator walks.
    pub closed spec fn data(self) -> InputData {
        self.input_data
    }

    /// The position of the next entry.
    pub closed spec fn position(self) -> int {
        self.position as int
    }

    /// The position is never negative and fits in `usize`.
    pub proof fn lemma_position_in_range(self)
        ensures
            0 <= self.position() <= usize::MAX,
    {
    }

    /// Returns the next key or button with its state, or `None` once all are visited.
    pub fn next(&mut self) -> (r: Option<(InputId, InputState)>)
        requires
            old(self).position() < usize::MAX,
        ensures
            r == entry(old(self).data(), old(self).position()),
            final(self).data() == old(self).data(),
            final(self).position() == old(self).position() + 1,
    {
        let position = self.position;
        self.position = self.position + 1;
        if position < NUM_KEYS {
            let id = match InputId::from_usize(position) {
                Some(id) => id,
                None => InputId::Unsupported,
            };
            Some((id, self.input_data.key[position]))
        } else if position < NUM_KEYS + NUM_BUTTONS {
            let id = match InputId::from_usize(position) {
                Some(id) => id,
                None => InputId::Unsupported,
            };
            Some((id, self.input_data.button[position - NUM_KEYS]))
        } else {
            None
        }
    }

    /// Returns an iterator over all keys currently pressed.
    pub fn down(self) -> (r: InputDownIterator)
        ensures
            r.inner() == self,
    {
        InputDownIterator(self)
    }

    /// Returns an iterator over all keys not currently pressed.
    pub fn up(self) -> (r: InputUpIterator)
        ensures
            r.inner() == self,
    {
        InputUpIterator(self)
    }

    /// Walks forward to the next entry that is held (`want_held`) or up, and returns its id.
    fn next_matching(&mut self, want_held: bool) -> (r: Option<InputId>)
        requires
            old(self).position() < usize::MAX,
            first_entry(old(self).data(), old(self).position(), want_held) < usize::MAX,
        ensures
            ({
                let p = first_entry(old(self).data(), old(self).position(), want_held);
                &&& final(self).data() == old(self).data()
                &&& final(self).position() == p + 1
                &&& r == (if p < NUM_ENTRIES {
                    Some(entry_id(p))
                } else {
                    None::<InputId>
                })
            }),
    {
        let ghost data = self.input_data;
        let ghost target = first_entry(data, self.position as int, want_held);
        proof {
            lemma_first_entry(data, self.position as int, want_held);
        }
        loop
            invariant
                self.input_data == data,
                data == old(self).input_data,
                target == first_entry(old(self).input_data, old(self).position as int, want_held),
                self.position <= target,
                target < usize::MAX,
                first_entry(data, self.position as int, want_held) == target,
            decreases target - self.position,
        {
            proof {
                lemma_first_entry(data, self.position as int, want_held);
            }
            let ghost q = self.position as int;
            let current = self.next();
            match current {
                Some((input_id, state)) => {
                    assert(q < NUM_ENTRIES);
                    assert(state == entry_state(data, q));
                    let hit = if want_held {
                        state == InputState::Down || state == InputState::Pressed || state
                            == InputState::Repeat
                    } else {
                        state == InputState::Up || state == InputState::Released
                    };
                    if hit {
                        assert(first_entry(data, q, want_held) == q);
                        assert(input_id == entry_id(q));
                        return Some(input_id);
                    }
                },
                None => {
                    assert(first_entry(data, q, want_held) == q);
                    return None;
                },
            }
        }
    }
}

impl InputDownIterator {
    /// The underlying iterator over all entries.
    pub closed spec fn inner(self) -> InputIterator {
        self.0
    }

    /// Returns the next key or button whose state is `Down`, `Pressed` or `Repeat`, or `None`.
    pub fn next(&mut self) -> (r: Option<InputId>)
        requires
            old(self).inner().position() < usize::MAX,
        ensures
            ({
                let p = first_entry(old(self).inner().data(), old(self).inner().position(), true);
                &&& final(self).inner().data() == old(self).inner().data()
                &&& final(self).inner().position() == p + 1
                &&& r == (if p < NUM_ENTRIES {
                    Some(entry_id(p))
                } else {
                    None::<InputId>
                })
            }),
    {
        proof {
            lemma_first_entry(self.0.input_data, self.0.position as int, true);
        }
        self.0.next_matching(true)
    }
}

impl InputUpIterator {
    /// The underlying iterator over all entries.
    pub closed spec fn inner(self) -> InputIterator {
        self.0
    }

    /// Returns the next key or button whose state is `Up` or `Released`, or `None`.
    pub fn next(&mut self) -> (r: Option<InputId>)
        requires
            old(self).inner().position() < usize::MAX,
        ensures
            ({
                let p = first_entry(old(self).inner().data(), old(self).inner().position(), false);
                &&& final(self).inner().data() == old(self).inner().data()
                &&& final(self).inner().position() == p + 1
                &&& r == (if p < NUM_ENTRIES {
                    Some(entry_id(p))
                } else {
                    None::<InputId>
                })
            }),
    {
        proof {
            lemma_first_entry(self.0.input_data, self.0.position as int, false);
        }
        self.0.next_matching(false)
    }
}

/// A key is down exactly when it is not up: every key state is one or the other.
pub proof fn lemma_key_down_iff_not_up(data: InputData, key: InputId)
    requires
        key.code() < NUM_KEYS,
    ensures
        data.is_down(key) <==> !data.is_up(key),
{
}

/// A mouse button is never both down and up, and, as long as no button is in the
/// `Repeat` state, it is always one of the two.
pub proof fn lemma_button_down_iff_not_up(data: InputData, key: InputId)
    requires
        NUM_KEYS <= key.code() < NUM_KEYS + NUM_BUTTONS,
    ensures
        data.is_down(key) ==> !data.is_up(key),
        data.buttons_never_repeat() ==> (data.is_down(key) <==> !data.is_up(key)),
{
}

/// Starting a poll settles every key into `Up` or `Down`, so `Pressed` and `Released`
/// are reported for one poll only, and it never changes whether a key or button is down.
pub proof fn lemma_poll_settles(s: InputState)
    ensures
        aged_key(s) == InputState::Up || aged_key(s) == InputState::Down,
        key_is_down(aged_key(s)) == key_is_down(s),
        aged_button(s) != InputState::Pressed && aged_button(s) != InputState::Released,
        button_is_down(aged_button(s)) == button_is_down(s),
        s != InputState::Repeat ==> aged_button(s) != InputState::Repeat,
{
}

/// After a key event the key is down if the event pressed it and up if it released it;
/// `Pressed` is reported only when the key was not already down.
pub proof fn lemma_key_event(s: InputState, down: bool)
    ensures
        down ==> key_is_down(key_after(s, true)),
        !down ==> state_is_up(key_after(s, false)),
        (key_after(s, down) == InputState::Pressed) <==> (down && !key_is_down(s)),
        (key_after(s, down) == InputState::Released) <==> (!down && key_is_down(s)
            || !down && s == InputState::Released),
{
}

/// After a button event the button is down if the event pressed it and, unless it was
/// in the `Repeat` state, up if the event released it; a press of a button that is
/// not down reports `Pressed`.
pub proof fn lemma_button_event(s: InputState, down: bool)
    ensures
        down ==> button_is_down(button_after(s, true)),
        !down && s != InputState::Repeat ==> state_is_up(button_after(s, false)),
        down && !button_is_down(s) ==> button_after(s, down) == InputState::Pressed,
        button_after(s, down) == InputState::Pressed ==> s == InputState::Pressed || (down
            && !button_is_down(s)),
        s != InputState::Repeat ==> button_after(s, down) != InputState::Repeat,
{
}

/// A mouse button as reported by the windowing system.
#[derive(Clone, Copy, Debug, PartialEq, Eq, Structural)]
pub enum MouseButton {
    Left,
    Right,
    Middle,
    Back,
    Forward,
    Other(u16),
}

/// The button slot a mouse button is recorded in, if it fits into the `NUM_BUTTONS` slots.
pub open spec fn mouse_button_slot(button: MouseButton) -> Option<usize> {
    let id: int = match button {
        MouseButton::Left => 0,
        MouseButton::Right => 1,
        MouseButton::Middle => 2,
        MouseButton::Back => 3,
        MouseButton::Forward => 4,
        MouseButton::Other(n) => n + 5,
    };
    if id < NUM_BUTTONS {
        Some(id as usize)
    } else {
        None
    }
}

/// Maps a mouse button to its button slot, or `None` if it has no slot.
pub fn mouse_button_to_id(button: MouseButton) -> (r: Option<usize>)
    ensures
        r == mouse_button_slot(button),
{
    let id: usize = match button {
        MouseButton::Left => 0,
        MouseButton::Right => 1,
        MouseButton::Middle => 2,
        MouseButton::Back => 3,
        MouseButton::Forward => 4,
        MouseButton::Other(n) => {
            let id = n as usize + 5;
            if id < NUM_BUTTONS {
                id
            } else {
                return None;
            }
        },
    };
    if id < NUM_BUTTONS {
        Some(id)
    } else {
        None
    }
}

/// Every key and button is reported by exactly one of the iterators over pressed and over
/// not pressed entries.
pub proof fn lemma_held_iff_not_up(s: InputState)
    ensures
        held(s) <==> !state_is_up(s),
{
}

/// One step on the input data as a display takes it: the start of a poll, an event applied
/// during a poll, or a call of `was_closed` that returned the given answer.
pub enum InputStep {
    BeginPoll,
    Apply(Event),
    WasClosed(bool),
}

/// Whether `step` takes the close flag from state `a` to state `b`, as the step's contract
/// states (`begin_poll`, `apply_event` and `was_closed`).
pub open spec fn close_step(a: InputData, b: InputData, step: InputStep) -> bool {
    match step {
        InputStep::BeginPoll => b.should_close == a.should_close,
        InputStep::Apply(event) => b.should_close == (a.should_close || event is Closed),
        InputStep::WasClosed(answer) => answer == a.should_close && !b.should_close,
    }
}

/// Whether a close is pending after the steps, starting from `pending`: a close event sets it,
/// a call of `was_closed` clears it, anything else keeps it.
pub open spec fn close_pending(pending: bool, steps: Seq<InputStep>) -> bool
    decreases steps.len(),
{
    if steps.len() == 0 {
        pending
    } else {
        let before = close_pending(pending, steps.drop_last());
        match steps.last() {
            InputStep::BeginPoll => before,
            InputStep::Apply(event) => before || event is Closed,
            InputStep::WasClosed(_) => false,
        }
    }
}

/// `was_closed` reports a close exactly once: over any run of polls, events and queries, each
/// call of `was_closed` answers whether a close event was applied since the previous call (or
/// since the start, counting a close already pending then).
pub proof fn lemma_close_reported_once(states: Seq<InputData>, steps: Seq<InputStep>)
    requires
        states.len() == steps.len() + 1,
        forall|i: int| 0 <= i < steps.len() ==> #[trigger] close_step(states[i], states[i + 1], steps[i]),
    ensures
        states.last().should_close == close_pending(states[0].should_close, steps),
        forall|i: int|
            0 <= i < steps.len() ==> (#[trigger] steps[i] matches InputStep::WasClosed(answer)
                ==> answer == close_pending(states[0].should_close, steps.take(i))),
    decreases steps.len(),
{
    if steps.len() > 0 {
        let n = steps.len() - 1;
        let s = states.drop_last();
        let t = steps.drop_last();
        assert forall|i: int| 0 <= i < t.len() implies #[trigger] close_step(s[i], s[i + 1], t[i]) by {
            assert(close_step(states[i], states[i + 1], steps[i]));
        }
        lemma_close_reported_once(s, t);
        assert(close_step(states[n], states[n + 1], steps[n]));
        assert(steps.take(n) =~= t);
        assert forall|i: int|
            0 <= i < steps.len() implies (#[trigger] steps[i] matches InputStep::WasClosed(answer)
                ==> answer == close_pending(states[0].should_close, steps.take(i))) by {
            if i < n {
                assert(t[i] == steps[i]);
                assert(t.take(i) =~= steps.take(i));
            }
        }
    }
}

/// What the queries answer, by the state recorded for a key or button: a key is pressed
/// when it was just pressed (or, if repeats are reported, repeats); a mouse button is
/// pressed only when it was just pressed, so a button held across a poll (`Down`) is not;
/// a key or button counts as down when just pressed or held (keys also while repeating),
/// as up when up or just released, and as released only when just released.
pub proof fn lemma_query_answers(data: InputData, key: InputId, report_repeats: bool)
    requires
        key.is_slot(),
    ensures
        key.code() < NUM_KEYS ==> {
            let s = data.key@[key.code()];
            &&& data.state_of(key) == s
            &&& data.is_pressed(key, report_repeats) == (s == InputState::Pressed || (
            report_repeats && s == InputState::Repeat))
            &&& data.is_down(key) == (s == InputState::Pressed || s == InputState::Down || s
                == InputState::Repeat)
            &&& data.is_up(key) == (s == InputState::Up || s == InputState::Released)
        },
        key.code() >= NUM_KEYS ==> {
            let s = data.button@[key.code() - NUM_KEYS];
            &&& data.state_of(key) == s
            &&& data.is_pressed(key, report_repeats) == (s == InputState::Pressed)
            &&& data.is_down(key) == (s == InputState::Pressed || s == InputState::Down)
            &&& data.is_up(key) == (s == InputState::Up || s == InputState::Released)
        },
        key.code() >= NUM_KEYS && data.state_of(key) == InputState::Down ==> !data.is_pressed(
            key,
            report_repeats,
        ),
{
}

/// How a press or release event changes a key or mouse button: a press of one that is up
/// (or just released) makes it just pressed; a release of one that is held (just pressed or
/// down, for keys also repeating) makes it just released, so the release is reported even
/// when press and release arrive in one poll; a press of a held key makes it repeat, a press
/// of a held button leaves it as it is; a release of one that is up leaves it as it is.
pub proof fn lemma_press_release(s: InputState, down: bool)
    ensures
        (s == InputState::Up || s == InputState::Released) ==> key_after(s, true)
            == InputState::Pressed && key_after(s, false) == s,
        (s == InputState::Pressed || s == InputState::Down || s == InputState::Repeat)
            ==> key_after(s, false) == InputState::Released && key_after(s, true)
            == InputState::Repeat,
        (s == InputState::Up || s == InputState::Released || s == InputState::Repeat)
            ==> button_after(s, true) == InputState::Pressed,
        (s == InputState::Up || s == InputState::Released || s == InputState::Repeat)
            ==> button_after(s, false) == s,
        (s == InputState::Pressed || s == InputState::Down) ==> button_after(s, false)
            == InputState::Released && button_after(s, true) == s,
{
}

/// Starting a poll turns what was just pressed into held and what was just released into
/// up: after it no key or button is just pressed or just released, and no key repeats.
pub proof fn lemma_poll_ages(s: InputState)
    ensures
        s == InputState::Pressed ==> aged_key(s) == InputState::Down && aged_button(s)
            == InputState::Down,
        s == InputState::Repeat ==> aged_key(s) == InputState::Down,
        s == InputState::Released ==> aged_key(s) == InputState::Up && aged_button(s)
            == InputState::Up,
        (s == InputState::Up || s == InputState::Down) ==> aged_key(s) == s && aged_button(s)
            == s,
{
}

} // verus!
