//! Key codes of the two platforms: which code a pressed key has, and what a
//! code is called.
use vstd::prelude::*;
use crate::config::Platform;
use crate::numerals;
use crate::text;

verus! {

/// A key that has a name rather than a character.
#[derive(Debug, Clone, Copy, PartialEq, Eq, Structural)]
pub enum Named {
    F1,
    F2,
    F3,
    F4,
    F5,
    F6,
    F7,
    F8,
    F9,
    F10,
    F11,
    F12,
    F13,
    F14,
    F15,
    F16,
    F17,
    F18,
    F19,
    F20,
    F21,
    F22,
    F23,
    F24,
    Tab,
    Space,
    Enter,
    Backspace,
    Insert,
    Delete,
    Home,
    End,
    PageUp,
    PageDown,
    ArrowUp,
    ArrowDown,
    ArrowLeft,
    ArrowRight,
    Escape,
    /// A key that cannot be bound.
    Other,
}

/// A pressed key.
#[derive(Debug, Clone)]
pub enum Key {
    Named(Named),
    /// The text that the key gives.
    Character(String),
    Unidentified,
}

/// The number of a function key.
pub open spec fn function_number(named: Named) -> Option<u16> {
    match named {
        Named::F1 => Some(1),
        Named::F2 => Some(2),
        Named::F3 => Some(3),
        Named::F4 => Some(4),
        Named::F5 => Some(5),
        Named::F6 => Some(6),
        Named::F7 => Some(7),
        Named::F8 => Some(8),
        Named::F9 => Some(9),
        Named::F10 => Some(10),
        Named::F11 => Some(11),
        Named::F12 => Some(12),
        Named::F13 => Some(13),
        Named::F14 => Some(14),
        Named::F15 => Some(15),
        Named::F16 => Some(16),
        Named::F17 => Some(17),
        Named::F18 => Some(18),
        Named::F19 => Some(19),
        Named::F20 => Some(20),
        Named::F21 => Some(21),
        Named::F22 => Some(22),
        Named::F23 => Some(23),
        Named::F24 => Some(24),
        _ => None,
    }
}

fn function_number_of(named: Named) -> (r: Option<u16>)
    ensures
        r == function_number(named),
{
    match named {
        Named::F1 => Some(1),
        Named::F2 => Some(2),
        Named::F3 => Some(3),
        Named::F4 => Some(4),
        Named::F5 => Some(5),
        Named::F6 => Some(6),
        Named::F7 => Some(7),
        Named::F8 => Some(8),
        Named::F9 => Some(9),
        Named::F10 => Some(10),
        Named::F11 => Some(11),
        Named::F12 => Some(12),
        Named::F13 => Some(13),
        Named::F14 => Some(14),
        Named::F15 => Some(15),
        Named::F16 => Some(16),
        Named::F17 => Some(17),
        Named::F18 => Some(18),
        Named::F19 => Some(19),
        Named::F20 => Some(20),
        Named::F21 => Some(21),
        Named::F22 => Some(22),
        Named::F23 => Some(23),
        Named::F24 => Some(24),
        _ => None,
    }
}

/// The evdev code of a function key.
pub open spec fn evdev_function(n: u16) -> u16 {
    if n <= 10 {
        (58 + n) as u16
    } else if n <= 12 {
        (76 + n) as u16
    } else {
        (170 + n) as u16
    }
}

/// The virtual-key code of a function key.
pub open spec fn vk_function(n: u16) -> u16 {
    (0x6f + n) as u16
}

/// The code of a named key.
pub open spec fn named_code(platform: Platform, named: Named) -> Option<u16> {
    match function_number(named) {
        Some(n) => Some(
            match platform {
                Platform::Unix => evdev_function(n),
                Platform::Windows => vk_function(n),
            },
        ),
        None => match platform {
            Platform::Unix => match named {
                Named::Tab => Some(15),
                Named::Space => Some(57),
                Named::Enter => Some(28),
                Named::Backspace => Some(14),
                Named::Insert => Some(110),
                Named::Delete => Some(111),
                Named::Home => Some(102),
                Named::End => Some(107),
                Named::PageUp => Some(104),
                Named::PageDown => Some(109),
                Named::ArrowUp => Some(103),
                Named::ArrowDown => Some(108),
                Named::ArrowLeft => Some(105),
                Named::ArrowRight => Some(106),
                _ => None,
            },
            Platform::Windows => match named {
                Named::Tab => Some(0x9),
                Named::Space => Some(0x20),
                Named::Enter => Some(0xd),
                Named::Backspace => Some(0x8),
                Named::Insert => Some(0x2d),
                Named::Delete => Some(0x2e),
                Named::Home => Some(0x24),
                Named::End => Some(0x23),
                Named::PageUp => Some(0x21),
                Named::PageDown => Some(0x22),
                Named::ArrowUp => Some(0x26),
                Named::ArrowDown => Some(0x28),
                Named::ArrowLeft => Some(0x25),
                Named::ArrowRight => Some(0x27),
                _ => None,
            },
        },
    }
}

fn code_of_named(platform: Platform, named: Named) -> (r: Option<u16>)
    ensures
        r == named_code(platform, named),
{
    if let Some(n) = function_number_of(named) {
        return Some(
            match platform {
                Platform::Unix => if n <= 10 {
                    58 + n
                } else if n <= 12 {
                    76 + n
                } else {
                    170 + n
                },
                Platform::Windows => 0x6f + n,
            },
        );
    }
    match platform {
        Platform::Unix => match named {
            Named::Tab => Some(15),
            Named::Space => Some(57),
            Named::Enter => Some(28),
            Named::Backspace => Some(14),
            Named::Insert => Some(110),
            Named::Delete => Some(111),
            Named::Home => Some(102),
            Named::End => Some(107),
            Named::PageUp => Some(104),
            Named::PageDown => Some(109),
            Named::ArrowUp => Some(103),
            Named::ArrowDown => Some(108),
            Named::ArrowLeft => Some(105),
            Named::ArrowRight => Some(106),
            _ => None,
        },
        Platform::Windows => match named {
            Named::Tab => Some(0x9),
            Named::Space => Some(0x20),
            Named::Enter => Some(0xd),
            Named::Backspace => Some(0x8),
            Named::Insert => Some(0x2d),
            Named::Delete => Some(0x2e),
            Named::Home => Some(0x24),
            Named::End => Some(0x23),
            Named::PageUp => Some(0x21),
            Named::PageDown => Some(0x22),
            Named::ArrowUp => Some(0x26),
            Named::ArrowDown => Some(0x28),
            Named::ArrowLeft => Some(0x25),
            Named::ArrowRight => Some(0x27),
            _ => None,
        },
    }
}

/// The evdev code of the key that gives a character, by its place on a
/// QWERTY keyboard. Letters are in lower case.
pub open spec fn evdev_of_char(c: char) -> Option<u16> {
    match c {
        'q' => Some(16),
        'w' => Some(17),
        'e' => Some(18),
        'r' => Some(19),
        't' => Some(20),
        'y' => Some(21),
        'u' => Some(22),
        'i' => Some(23),
        'o' => Some(24),
        'p' => Some(25),
        'a' => Some(30),
        's' => Some(31),
        'd' => Some(32),
        'f' => Some(33),
        'g' => Some(34),
        'h' => Some(35),
        'j' => Some(36),
        'k' => Some(37),
        'l' => Some(38),
        'z' => Some(44),
        'x' => Some(45),
        'c' => Some(46),
        'v' => Some(47),
        'b' => Some(48),
        'n' => Some(49),
        'm' => Some(50),
        '1' => Some(2),
        '2' => Some(3),
        '3' => Some(4),
        '4' => Some(5),
        '5' => Some(6),
        '6' => Some(7),
        '7' => Some(8),
        '8' => Some(9),
        '9' => Some(10),
        '0' => Some(11),
        '`' => Some(41),
        '-' => Some(12),
        '=' => Some(13),
        '[' => Some(26),
        ']' => Some(27),
        '\\' => Some(43),
        ';' => Some(39),
        '\'' => Some(40),
        ',' => Some(51),
        '.' => Some(52),
        '/' => Some(53),
        _ => None,
    }
}

/// The evdev code of the key whose text is `s`. Only the first character
/// counts, and not its case.
pub fn char_to_evdev(s: &str) -> (r: Option<u16>)
    ensures
        r == (if s@.len() == 0 {
            None
        } else {
            evdev_of_char(text::ascii_lower(s@[0]))
        }),
{
    match first_lower(s) {
        Some(c) => match c {
            'q' => Some(16),
            'w' => Some(17),
            'e' => Some(18),
            'r' => Some(19),
            't' => Some(20),
            'y' => Some(21),
            'u' => Some(22),
            'i' => Some(23),
            'o' => Some(24),
            'p' => Some(25),
            'a' => Some(30),
            's' => Some(31),
            'd' => Some(32),
            'f' => Some(33),
            'g' => Some(34),
            'h' => Some(35),
            'j' => Some(36),
            'k' => Some(37),
            'l' => Some(38),
            'z' => Some(44),
            'x' => Some(45),
            'c' => Some(46),
            'v' => Some(47),
            'b' => Some(48),
            'n' => Some(49),
            'm' => Some(50),
            '1' => Some(2),
            '2' => Some(3),
            '3' => Some(4),
            '4' => Some(5),
            '5' => Some(6),
            '6' => Some(7),
            '7' => Some(8),
            '8' => Some(9),
            '9' => Some(10),
            '0' => Some(11),
            '`' => Some(41),
            '-' => Some(12),
            '=' => Some(13),
            '[' => Some(26),
            ']' => Some(27),
            '\\' => Some(43),
            ';' => Some(39),
            '\'' => Some(40),
            ',' => Some(51),
            '.' => Some(52),
            '/' => Some(53),
            _ => None,
        },
        None => None,
    }
}

fn first_lower(s: &str) -> (r: Option<char>)
    ensures
        r == (if s@.len() == 0 {
            None
        } else {
            Some(text::ascii_lower(s@[0]))
        }),
{
    let chars: Vec<char> = text::chars_of(s);
    if chars.len() == 0 {
        None
    } else {
        Some(text::lower(chars[0]))
    }
}

/// The virtual-key code of the key that gives a character. Letters are in
/// lower case.
pub open spec fn vk_of_char(c: char) -> Option<u16> {
    if 'a' <= c && c <= 'z' {
        Some((0x41 + (c as int - 'a' as int)) as u16)
    } else if '0' <= c && c <= '9' {
        Some((0x30 + (c as int - '0' as int)) as u16)
    } else {
        match c {
            '`' => Some(0xc0),
            '-' => Some(0xbd),
            '=' => Some(0xbb),
            '[' => Some(0xdb),
            ']' => Some(0xdd),
            '\\' => Some(0xdc),
            ';' => Some(0xba),
            '\'' => Some(0xde),
            ',' => Some(0xbc),
            '.' => Some(0xbe),
            '/' => Some(0xbf),
            _ => None,
        }
    }
}

fn char_to_vk(s: &str) -> (r: Option<u16>)
    ensures
        r == (if s@.len() == 0 {
            None
        } else {
            vk_of_char(text::ascii_lower(s@[0]))
        }),
{
    match first_lower(s) {
        Some(c) => {
            let u: u32 = c as u32;
            if 'a' <= c && c <= 'z' {
                Some((0x41 + (u - 97)) as u16)
            } else if '0' <= c && c <= '9' {
                Some(u as u16)
            } else {
                match c {
                    '`' => Some(0xc0),
                    '-' => Some(0xbd),
                    '=' => Some(0xbb),
                    '[' => Some(0xdb),
                    ']' => Some(0xdd),
                    '\\' => Some(0xdc),
                    ';' => Some(0xba),
                    '\'' => Some(0xde),
                    ',' => Some(0xbc),
                    '.' => Some(0xbe),
                    '/' => Some(0xbf),
                    _ => None,
                }
            }
        },
        None => None,
    }
}

/// The code of a pressed key.
pub open spec fn key_code(platform: Platform, key: Key) -> Option<u16> {
    match key {
        Key::Named(named) => named_code(platform, named),
        Key::Character(s) => if s@.len() == 0 {
            None
        } else {
            match platform {
                Platform::Unix => evdev_of_char(text::ascii_lower(s@[0])),
                Platform::Windows => vk_of_char(text::ascii_lower(s@[0])),
            }
        },
        Key::Unidentified => None,
    }
}

/// The code under which a pressed key is bound: an evdev code on Unix, a
/// virtual-key code on Windows.
pub fn iced_key_to_code(platform: Platform, key: &Key) -> (r: Option<u16>)
    ensures
        r == key_code(platform, *key),
{
    match key {
        Key::Named(named) => code_of_named(platform, *named),
        Key::Character(s) => match platform {
            Platform::Unix => char_to_evdev(s.as_str()),
            Platform::Windows => char_to_vk(s.as_str()),
        },
        Key::Unidentified => None,
    }
}

/// Whether a virtual-key code belongs to a key whose character depends on
/// the keyboard layout.
pub open spec fn is_oem(vk: u16) -> bool {
    0xba <= vk <= 0xc0 || 0xdb <= vk <= 0xdf || vk == 0xe2
}

/// The virtual-key codes that depend on the keyboard layout, in order.
pub fn oem_vk_range() -> (r: Vec<u16>)
    ensures
        r@ == seq![
            0xbau16,
            0xbb,
            0xbc,
            0xbd,
            0xbe,
            0xbf,
            0xc0,
            0xdb,
            0xdc,
            0xdd,
            0xde,
            0xdf,
            0xe2,
        ],
{
    vec![
        0xbau16,
        0xbb,
        0xbc,
        0xbd,
        0xbe,
        0xbf,
        0xc0,
        0xdb,
        0xdc,
        0xdd,
        0xde,
        0xdf,
        0xe2,
    ]
}

/// The list of layout-dependent codes holds these codes and no others.
pub proof fn law_oem_range_is_complete(vk: u16)
    ensures
        is_oem(vk) == seq![
            0xbau16,
            0xbb,
            0xbc,
            0xbd,
            0xbe,
            0xbf,
            0xc0,
            0xdb,
            0xdc,
            0xdd,
            0xde,
            0xdf,
            0xe2,
        ].contains(vk),
{
    let s = seq![
        0xbau16,
        0xbb,
        0xbc,
        0xbd,
        0xbe,
        0xbf,
        0xc0,
        0xdb,
        0xdc,
        0xdd,
        0xde,
        0xdf,
        0xe2,
    ];
    if is_oem(vk) {
        let i = if vk <= 0xc0 {
            vk - 0xba
        } else if vk <= 0xdf {
            vk - 0xdb + 7
        } else {
            12
        };
        assert(s[i] == vk);
    }
}

/// The first of `codes` whose key is down.
pub open spec fn first_down(codes: Seq<u16>, down: Seq<bool>) -> Option<u16>
    decreases codes.len(),
{
    if codes.len() == 0 {
        None
    } else {
        match first_down(codes.drop_last(), down) {
            Some(c) => Some(c),
            None => if down[codes.len() - 1] {
                Some(codes.last())
            } else {
                None
            },
        }
    }
}

proof fn lemma_first_down_stays(codes: Seq<u16>, down: Seq<bool>, k: int)
    requires
        0 <= k <= codes.len(),
    ensures
        first_down(codes.take(k), down) is Some ==> first_down(codes, down) == first_down(
            codes.take(k),
            down,
        ),
    decreases codes.len() - k,
{
    if k == codes.len() {
        assert(codes.take(k) == codes);
    } else {
        lemma_first_down_stays(codes, down, k + 1);
        assert(codes.take(k + 1).drop_last() == codes.take(k));
    }
}

/// The layout-dependent key that is held, `down` saying of each code in
/// order whether its key is.
pub fn oem_vk_currently_pressed(codes: &Vec<u16>, down: &Vec<bool>) -> (r: Option<u16>)
    requires
        codes@.len() == down@.len(),
    ensures
        r == first_down(codes@, down@),
{
    let mut i: usize = 0;
    assert(codes@.take(0) == Seq::<u16>::empty());
    while i < codes.len()
        invariant
            i <= codes.len() == down.len(),
            first_down(codes@.take(i as int), down@) is None,
        decreases codes.len() - i,
    {
        proof {
            assert(codes@.take(i + 1).drop_last() == codes@.take(i as int));
            assert(codes@.take(i + 1).last() == codes@[i as int]);
            lemma_first_down_stays(codes@, down@, i + 1);
        }
        if down[i] {
            return Some(codes[i]);
        }
        i = i + 1;
    }
    assert(codes@.take(i as int) == codes@);
    None
}

/// The number of the function key with an evdev code.
pub open spec fn evdev_function_number(code: u16) -> Option<u16> {
    if 59 <= code <= 68 {
        Some((code - 58) as u16)
    } else if 87 <= code <= 88 {
        Some((code - 76) as u16)
    } else if 183 <= code <= 194 {
        Some((code - 170) as u16)
    } else {
        None
    }
}

/// The character on the key with an evdev code, letters in upper case.
pub open spec fn evdev_glyph(code: u16) -> Option<char> {
    match code {
        16 => Some('Q'),
        17 => Some('W'),
        18 => Some('E'),
        19 => Some('R'),
        20 => Some('T'),
        21 => Some('Y'),
        22 => Some('U'),
        23 => Some('I'),
        24 => Some('O'),
        25 => Some('P'),
        30 => Some('A'),
        31 => Some('S'),
        32 => Some('D'),
        33 => Some('F'),
        34 => Some('G'),
        35 => Some('H'),
        36 => Some('J'),
        37 => Some('K'),
        38 => Some('L'),
        44 => Some('Z'),
        45 => Some('X'),
        46 => Some('C'),
        47 => Some('V'),
        48 => Some('B'),
        49 => Some('N'),
        50 => Some('M'),
        2 => Some('1'),
        3 => Some('2'),
        4 => Some('3'),
        5 => Some('4'),
        6 => Some('5'),
        7 => Some('6'),
        8 => Some('7'),
        9 => Some('8'),
        10 => Some('9'),
        11 => Some('0'),
        41 => Some('`'),
        12 => Some('-'),
        13 => Some('='),
        26 => Some('['),
        27 => Some(']'),
        43 => Some('\\'),
        39 => Some(';'),
        40 => Some('\''),
        51 => Some(','),
        52 => Some('.'),
        53 => Some('/'),
        _ => None,
    }
}

fn glyph_of_evdev(code: u16) -> (r: Option<char>)
    ensures
        r == evdev_glyph(code),
{
    match code {
        16 => Some('Q'),
        17 => Some('W'),
        18 => Some('E'),
        19 => Some('R'),
        20 => Some('T'),
        21 => Some('Y'),
        22 => Some('U'),
        23 => Some('I'),
        24 => Some('O'),
        25 => Some('P'),
        30 => Some('A'),
        31 => Some('S'),
        32 => Some('D'),
        33 => Some('F'),
        34 => Some('G'),
        35 => Some('H'),
        36 => Some('J'),
        37 => Some('K'),
        38 => Some('L'),
        44 => Some('Z'),
        45 => Some('X'),
        46 => Some('C'),
        47 => Some('V'),
        48 => Some('B'),
        49 => Some('N'),
        50 => Some('M'),
        2 => Some('1'),
        3 => Some('2'),
        4 => Some('3'),
        5 => Some('4'),
        6 => Some('5'),
        7 => Some('6'),
        8 => Some('7'),
        9 => Some('8'),
        10 => Some('9'),
        11 => Some('0'),
        41 => Some('`'),
        12 => Some('-'),
        13 => Some('='),
        26 => Some('['),
        27 => Some(']'),
        43 => Some('\\'),
        39 => Some(';'),
        40 => Some('\''),
        51 => Some(','),
        52 => Some('.'),
        53 => Some('/'),
        _ => None,
    }
}

/// The name of the key with an evdev code, where it has one.
pub open spec fn evdev_name(code: u16) -> Option<Seq<char>> {
    match code {
        15 => Some("Tab"@),
        57 => Some("Space"@),
        28 => Some("Enter"@),
        14 => Some("Backspace"@),
        1 => Some("Escape"@),
        110 => Some("Insert"@),
        111 => Some("Delete"@),
        102 => Some("Home"@),
        107 => Some("End"@),
        104 => Some("PageUp"@),
        109 => Some("PageDown"@),
        103 => Some("Up"@),
        108 => Some("Down"@),
        105 => Some("Left"@),
        106 => Some("Right"@),
        42 | 54 => Some("Shift"@),
        29 | 97 => Some("Ctrl"@),
        56 | 100 => Some("Alt"@),
        _ => None,
    }
}

fn name_of_evdev(code: u16) -> (r: Option<&'static str>)
    ensures
        r matches Some(s) ==> evdev_name(code) == Some(s@),
        r is None ==> evdev_name(code) is None,
{
    match code {
        15 => Some("Tab"),
        57 => Some("Space"),
        28 => Some("Enter"),
        14 => Some("Backspace"),
        1 => Some("Escape"),
        110 => Some("Insert"),
        111 => Some("Delete"),
        102 => Some("Home"),
        107 => Some("End"),
        104 => Some("PageUp"),
        109 => Some("PageDown"),
        103 => Some("Up"),
        108 => Some("Down"),
        105 => Some("Left"),
        106 => Some("Right"),
        42 | 54 => Some("Shift"),
        29 | 97 => Some("Ctrl"),
        56 | 100 => Some("Alt"),
        _ => None,
    }
}

/// The name of the key with a virtual-key code, where it has one.
pub open spec fn vk_name(vk: u16) -> Option<Seq<char>> {
    match vk {
        0x9 => Some("Tab"@),
        0x20 => Some("Space"@),
        0xd => Some("Enter"@),
        0x8 => Some("Backspace"@),
        0x1b => Some("Escape"@),
        0x26 => Some("Up"@),
        0x28 => Some("Down"@),
        0x25 => Some("Left"@),
        0x27 => Some("Right"@),
        0x10 | 0xa0 | 0xa1 => Some("Shift"@),
        0x11 | 0xa2 | 0xa3 => Some("Ctrl"@),
        0x12 | 0xa4 | 0xa5 => Some("Alt"@),
        _ => None,
    }
}

fn name_of_vk(vk: u16) -> (r: Option<&'static str>)
    ensures
        r matches Some(s) ==> vk_name(vk) == Some(s@),
        r is None ==> vk_name(vk) is None,
{
    match vk {
        0x9 => Some("Tab"),
        0x20 => Some("Space"),
        0xd => Some("Enter"),
        0x8 => Some("Backspace"),
        0x1b => Some("Escape"),
        0x26 => Some("Up"),
        0x28 => Some("Down"),
        0x25 => Some("Left"),
        0x27 => Some("Right"),
        0x10 | 0xa0 | 0xa1 => Some("Shift"),
        0x11 | 0xa2 | 0xa3 => Some("Ctrl"),
        0x12 | 0xa4 | 0xa5 => Some("Alt"),
        _ => None,
    }
}

/// What a function key is called.
pub open spec fn function_label(n: u16) -> Seq<char> {
    "F"@ + numerals::decimal(n as nat)
}

/// What a code is called. On Windows `layout` is what the layout gives for a
/// key that depends on it.
pub open spec fn label(platform: Platform, code: u16, layout: Option<Seq<char>>) -> Seq<char> {
    match platform {
        Platform::Unix => match evdev_function_number(code) {
            Some(n) => function_label(n),
            None => match evdev_name(code) {
                Some(name) => name,
                None => match evdev_glyph(code) {
                    Some(c) => seq![c],
                    None => "KEY "@ + numerals::decimal(code as nat),
                },
            },
        },
        Platform::Windows => if 0x70 <= code <= 0x87 {
            function_label((code - 0x6f) as u16)
        } else {
            match vk_name(code) {
                Some(name) => name,
                None => if 0x30 <= code <= 0x39 || 0x41 <= code <= 0x5a {
                    seq![code as u8 as char]
                } else if is_oem(code) && layout is Some {
                    layout->Some_0
                } else {
                    "VK 0x"@ + numerals::padded(code as nat, 16, true, 2)
                },
            }
        },
    }
}

fn label_of_function(n: u16) -> (r: String)
    ensures
        r@ == function_label(n),
{
    text::joined("F", numerals::write_decimal(n as u64).as_str())
}

fn label_of_char(c: char) -> (r: String)
    ensures
        r@ == seq![c],
{
    let mut s: String = String::new();
    s.push(c);
    assert(s@ =~= seq![c]);
    s
}

/// What a code is called on the button that binds it. On Windows `layout` is
/// what the keyboard layout gives for a key that depends on it.
pub fn code_to_label(platform: Platform, code: u16, layout: Option<&str>) -> (r: String)
    ensures
        r@ == label(
            platform,
            code,
            match layout {
                Some(s) => Some(s@),
                None => None,
            },
        ),
{
    match platform {
        Platform::Unix => {
            if 59 <= code && code <= 68 {
                return label_of_function(code - 58);
            }
            if 87 <= code && code <= 88 {
                return label_of_function(code - 76);
            }
            if 183 <= code && code <= 194 {
                return label_of_function(code - 170);
            }
            if let Some(name) = name_of_evdev(code) {
                return name.to_owned();
            }
            match glyph_of_evdev(code) {
                Some(c) => label_of_char(c),
                None => text::joined("KEY ", numerals::write_decimal(code as u64).as_str()),
            }
        },
        Platform::Windows => {
            if 0x70 <= code && code <= 0x87 {
                return label_of_function(code - 0x6f);
            }
            if let Some(name) = name_of_vk(code) {
                return name.to_owned();
            }
            if (0x30 <= code && code <= 0x39) || (0x41 <= code && code <= 0x5a) {
                return label_of_char(code as u8 as char);
            }
            if (0xba <= code && code <= 0xc0) || (0xdb <= code && code <= 0xdf) || code == 0xe2 {
                if let Some(s) = layout {
                    return s.to_owned();
                }
            }
            text::joined("VK 0x", numerals::write_unsigned(code as u64, 16, true, 2).as_str())
        },
    }
}

/// A function key that is bound is shown by its own name, on either
/// platform.
pub proof fn law_function_key_keeps_its_name(
    platform: Platform,
    named: Named,
    layout: Option<Seq<char>>,
)
    requires
        function_number(named) is Some,
    ensures
        named_code(platform, named) matches Some(code) && label(platform, code, layout)
            == function_label(function_number(named)->Some_0),
{
}

/// A letter that is bound is shown by its capital, and a digit by itself, on
/// either platform.
pub proof fn law_letter_key_keeps_its_name(platform: Platform, c: char, layout: Option<Seq<char>>)
    requires
        ('a' <= c && c <= 'z') || ('0' <= c && c <= '9'),
    ensures
        (match platform {
            Platform::Unix => evdev_of_char(c),
            Platform::Windows => vk_of_char(c),
        }) matches Some(code) && label(platform, code, layout) == seq![
            if 'a' <= c && c <= 'z' {
                (c as u8 - 32) as char
            } else {
                c
            },
        ],
{
}

/// Two named keys never share a code.
pub proof fn law_named_codes_differ(platform: Platform, a: Named, b: Named)
    requires
        named_code(platform, a) is Some,
        named_code(platform, a) == named_code(platform, b),
    ensures
        a == b,
{
}

// ---------------------------------------------------------------------
// The codes
// ---------------------------------------------------------------------

/// The function keys are numbered from one on.
pub proof fn law_function_keys_are_numbered(i: int)
    requires
        0 <= i < 24,
    ensures
        function_number(
            seq![
                Named::F1,
                Named::F2,
                Named::F3,
                Named::F4,
                Named::F5,
                Named::F6,
                Named::F7,
                Named::F8,
                Named::F9,
                Named::F10,
                Named::F11,
                Named::F12,
                Named::F13,
                Named::F14,
                Named::F15,
                Named::F16,
                Named::F17,
                Named::F18,
                Named::F19,
                Named::F20,
                Named::F21,
                Named::F22,
                Named::F23,
                Named::F24,
            ][i],
        ) == Some((i + 1) as u16),
{
}

/// On Windows the function keys follow each other from 0x70; on Linux the
/// first ten do from 59, the next two from 87 and the last twelve from 183.
pub proof fn law_function_keys_have_their_codes(named: Named, n: u16)
    requires
        function_number(named) == Some(n),
    ensures
        1 <= n <= 24,
        named_code(Platform::Windows, named) == Some((n - 1 + 0x70) as u16),
        n <= 10 ==> named_code(Platform::Unix, named) == Some((n - 1 + 59) as u16),
        n == 11 || n == 12 ==> named_code(Platform::Unix, named) == Some((n - 11 + 87) as u16),
        n >= 13 ==> named_code(Platform::Unix, named) == Some((n - 13 + 183) as u16),
{
}

/// The keys of the block above the arrows follow each other on Linux from 102,
/// and those from the space bar on follow each other on Windows from 0x20.
pub proof fn law_navigation_keys_follow_each_other(i: int)
    ensures
        0 <= i < 10 ==> named_code(
            Platform::Unix,
            seq![
                Named::Home,
                Named::ArrowUp,
                Named::PageUp,
                Named::ArrowLeft,
                Named::ArrowRight,
                Named::End,
                Named::ArrowDown,
                Named::PageDown,
                Named::Insert,
                Named::Delete,
            ][i],
        ) == Some((102 + i) as u16),
        0 <= i < 9 ==> named_code(
            Platform::Windows,
            seq![
                Named::Space,
                Named::PageUp,
                Named::PageDown,
                Named::End,
                Named::Home,
                Named::ArrowLeft,
                Named::ArrowUp,
                Named::ArrowRight,
                Named::ArrowDown,
            ][i],
        ) == Some((0x20 + i) as u16),
        named_code(Platform::Windows, Named::Insert) == Some(0x2du16),
        named_code(Platform::Windows, Named::Delete) == Some(0x2eu16),
        named_code(Platform::Windows, Named::Backspace) == Some(8u16),
        named_code(Platform::Windows, Named::Tab) == Some(9u16),
        named_code(Platform::Windows, Named::Enter) == Some(13u16),
        named_code(Platform::Unix, Named::Backspace) == Some(14u16),
        named_code(Platform::Unix, Named::Tab) == Some(15u16),
        named_code(Platform::Unix, Named::Enter) == Some(28u16),
        named_code(Platform::Unix, Named::Space) == Some(57u16),
{
}

/// Escape and the keys that have no name here have no code to bind.
pub proof fn law_escape_has_no_code(platform: Platform)
    ensures
        named_code(platform, Named::Escape) is None,
        named_code(platform, Named::Other) is None,
        key_code(platform, Key::Unidentified) is None,
{
}

/// On Linux the keys of each row of the keyboard follow each other.
pub proof fn law_rows_follow_each_other(i: int)
    ensures
        0 <= i < 12 ==> evdev_of_char("1234567890-="@[i]) == Some((2 + i) as u16),
        0 <= i < 12 ==> evdev_of_char("qwertyuiop[]"@[i]) == Some((16 + i) as u16),
        0 <= i < 12 ==> evdev_of_char("asdfghjkl;'`"@[i]) == Some((30 + i) as u16),
        0 <= i < 11 ==> evdev_of_char("\\zxcvbnm,./"@[i]) == Some((43 + i) as u16),
{
    reveal_strlit("1234567890-=");
    reveal_strlit("qwertyuiop[]");
    reveal_strlit("asdfghjkl;'`");
    reveal_strlit("\\zxcvbnm,./");
}

/// On Windows the letters follow each other from 0x41 and the digits from
/// 0x30.
pub proof fn law_letters_follow_each_other(i: int)
    ensures
        0 <= i < 26 ==> vk_of_char("abcdefghijklmnopqrstuvwxyz"@[i]) == Some((0x41 + i) as u16),
        0 <= i < 10 ==> vk_of_char("0123456789"@[i]) == Some((0x30 + i) as u16),
        0 <= i < 7 ==> vk_of_char(";=,-./`"@[i]) == Some((0xba + i) as u16),
        0 <= i < 4 ==> vk_of_char("[\\]'"@[i]) == Some((0xdb + i) as u16),
{
    reveal_strlit("abcdefghijklmnopqrstuvwxyz");
    reveal_strlit("0123456789");
    reveal_strlit(";=,-./`");
    reveal_strlit("[\\]'");
}

/// A key is found by its first character, and the case of a letter makes no
/// difference.
pub proof fn law_case_makes_no_difference(platform: Platform, a: String, b: String)
    requires
        a@.len() > 0,
        b@.len() > 0,
        a@[0] == b@[0] || ('A' <= a@[0] && a@[0] <= 'Z' && b@[0] as u32 == a@[0] as u32 + 32),
    ensures
        key_code(platform, Key::Character(a)) == key_code(platform, Key::Character(b)),
{
}

/// A character that has a code on Linux is what the code is called, letters as
/// capitals.
pub proof fn law_glyph_is_the_key(c: char, code: u16)
    requires
        evdev_of_char(c) == Some(code),
    ensures
        evdev_glyph(code) matches Some(g) && text::ascii_lower(g) == c,
{
}

/// The keys with a name are called by it.
pub proof fn law_named_keys_are_called_by_their_name(platform: Platform, layout: Option<Seq<char>>)
    ensures
        label(platform, named_code(platform, Named::Tab)->Some_0, layout) == "Tab"@,
        label(platform, named_code(platform, Named::Space)->Some_0, layout) == "Space"@,
        label(platform, named_code(platform, Named::Enter)->Some_0, layout) == "Enter"@,
        label(platform, named_code(platform, Named::Backspace)->Some_0, layout) == "Backspace"@,
        label(platform, named_code(platform, Named::ArrowUp)->Some_0, layout) == "Up"@,
        label(platform, named_code(platform, Named::ArrowDown)->Some_0, layout) == "Down"@,
        label(platform, named_code(platform, Named::ArrowLeft)->Some_0, layout) == "Left"@,
        label(platform, named_code(platform, Named::ArrowRight)->Some_0, layout) == "Right"@,
        platform == Platform::Unix ==> label(
            platform,
            named_code(platform, Named::Insert)->Some_0,
            layout,
        ) == "Insert"@ && label(platform, named_code(platform, Named::Delete)->Some_0, layout)
            == "Delete"@ && label(platform, named_code(platform, Named::Home)->Some_0, layout)
            == "Home"@ && label(platform, named_code(platform, Named::End)->Some_0, layout)
            == "End"@ && label(platform, named_code(platform, Named::PageUp)->Some_0, layout)
            == "PageUp"@ && label(platform, named_code(platform, Named::PageDown)->Some_0, layout)
            == "PageDown"@,
{
}

/// Both keys of a modifier are called alike, and on Windows so is the code
/// that stands for both.
pub proof fn law_modifiers_are_called_alike(layout: Option<Seq<char>>)
    ensures
        label(Platform::Unix, 42, layout) == "Shift"@,
        label(Platform::Unix, 54, layout) == "Shift"@,
        label(Platform::Unix, 29, layout) == "Ctrl"@,
        label(Platform::Unix, 97, layout) == "Ctrl"@,
        label(Platform::Unix, 56, layout) == "Alt"@,
        label(Platform::Unix, 100, layout) == "Alt"@,
        label(Platform::Unix, 1, layout) == "Escape"@,
        label(Platform::Windows, 0x1b, layout) == "Escape"@,
        label(Platform::Windows, 0x10, layout) == "Shift"@,
        label(Platform::Windows, 0xa0, layout) == "Shift"@,
        label(Platform::Windows, 0xa1, layout) == "Shift"@,
        label(Platform::Windows, 0x11, layout) == "Ctrl"@,
        label(Platform::Windows, 0xa2, layout) == "Ctrl"@,
        label(Platform::Windows, 0xa3, layout) == "Ctrl"@,
        label(Platform::Windows, 0x12, layout) == "Alt"@,
        label(Platform::Windows, 0xa4, layout) == "Alt"@,
        label(Platform::Windows, 0xa5, layout) == "Alt"@,
{
}

/// A key whose glyph the layout decides is called by what the layout shows;
/// without one, and for every code without a name, the number is shown.
pub proof fn law_layout_names_its_keys(code: u16, glyph: Seq<char>, layout: Option<Seq<char>>)
    ensures
        is_oem(code) ==> label(Platform::Windows, code, Some(glyph)) == glyph && label(
            Platform::Windows,
            code,
            None,
        ) == "VK 0x"@ + numerals::padded(code as nat, 16, true, 2),
        code > 0xe2 ==> label(Platform::Windows, code, layout) == "VK 0x"@ + numerals::padded(
            code as nat,
            16,
            true,
            2,
        ),
        code > 194 ==> label(Platform::Unix, code, layout) == "KEY "@ + numerals::decimal(
            code as nat,
        ),
        label(Platform::Unix, code, layout) == label(Platform::Unix, code, None),
{
}

/// The key that is reported is the first of the list that is down.
pub proof fn law_first_key_down_is_reported(codes: Seq<u16>, down: Seq<bool>, i: int)
    requires
        codes.len() <= down.len(),
        forall|k: int| 0 <= k < codes.len() && k < i ==> !#[trigger] down[k],
        i < codes.len() ==> 0 <= i && down[i],
    ensures
        first_down(codes, down) == (if i < codes.len() {
            Some(codes[i])
        } else {
            None
        }),
    decreases codes.len(),
{
    if codes.len() > 0 {
        law_first_key_down_is_reported(codes.drop_last(), down, i);
    }
}

/// A function key is called `F` and its number.
pub proof fn law_function_label_is_the_number(n: u16)
    ensures
        function_label(n).len() == 1 + numerals::decimal(n as nat).len(),
        function_label(n)[0] == 'F',
        function_label(n).skip(1) == numerals::decimal(n as nat),
{
    reveal_strlit("F");
    assert(function_label(n).skip(1) =~= numerals::decimal(n as nat));
}

} // verus!
