use vstd::prelude::*;

verus! {

/// A key of the computer keyboard, as the windowing layer reports it.
#[derive(Clone, Copy, Debug, PartialEq, Eq, Structural)]
pub enum Key {
    Unknown,
    A,
    B,
    C,
    D,
    E,
    F,
    G,
    H,
    I,
    J,
    K,
    L,
    M,
    N,
    O,
    P,
    Q,
    R,
    S,
    T,
    U,
    V,
    W,
    X,
    Y,
    Z,
    Num0,
    Num1,
    Num2,
    Num3,
    Num4,
    Num5,
    Num6,
    Num7,
    Num8,
    Num9,
    Escape,
    LControl,
    LShift,
    LAlt,
    LSystem,
    RControl,
    RShift,
    RAlt,
    RSystem,
    Menu,
    LBracket,
    RBracket,
    SemiColon,
    Comma,
    Period,
    Quote,
    Slash,
    BackSlash,
    Tilde,
    Equal,
    Dash,
    Space,
    Return,
    BackSpace,
    Tab,
    PageUp,
    PageDown,
    End,
    Home,
    Insert,
    Delete,
    Add,
    Subtract,
    Multiply,
    Divide,
    Left,
    Right,
    Up,
    Down,
    Numpad0,
    Numpad1,
    Numpad2,
    Numpad3,
    Numpad4,
    Numpad5,
    Numpad6,
    Numpad7,
    Numpad8,
    Numpad9,
    F1,
    F2,
    F3,
    F4,
    F5,
    F6,
    F7,
    F8,
    F9,
    F10,
    F11,
    F12,
    F13,
    F14,
    F15,
    Pause,
    KeyCount,
}

/// The key that produces the character `c` on a US keyboard, shifted or not;
/// `Unknown` where no key of the table gives it.
pub open spec fn key_for(c: u8) -> Key {
    match c {
        0x00 => Key::Unknown,
        0x08 => Key::BackSpace,
        0x09 => Key::Tab,
        0x0D => Key::Return,
        0x1B => Key::Escape,
        0x20 => Key::Space,
        0x21 => Key::Num1,
        0x22 => Key::Quote,
        0x23 => Key::Num3,
        0x24 => Key::Num4,
        0x25 => Key::Num5,
        0x26 => Key::Num7,
        0x27 => Key::Quote,
        0x28 => Key::Num9,
        0x29 => Key::Num0,
        0x2A => Key::Num8,
        0x2B => Key::Equal,
        0x2C => Key::Comma,
        0x2D => Key::Dash,
        0x2E => Key::Period,
        0x2F => Key::Slash,
        0x30 => Key::Num0,
        0x31 => Key::Num1,
        0x32 => Key::Num2,
        0x33 => Key::Num3,
        0x34 => Key::Num4,
        0x35 => Key::Num5,
        0x36 => Key::Num6,
        0x37 => Key::Num7,
        0x38 => Key::Num8,
        0x39 => Key::Num9,
        0x3A => Key::SemiColon,
        0x3B => Key::SemiColon,
        0x3C => Key::Comma,
        0x3D => Key::Equal,
        0x3E => Key::Comma,
        0x3F => Key::Slash,
        0x40 => Key::Num2,
        0x5B => Key::LBracket,
        0x5C => Key::BackSlash,
        0x5D => Key::RBracket,
        0x5E => Key::Num6,
        0x5F => Key::Dash,
        0x60 => Key::Tilde,
        0x61 => Key::A,
        0x62 => Key::B,
        0x63 => Key::C,
        0x64 => Key::D,
        0x65 => Key::E,
        0x66 => Key::F,
        0x67 => Key::G,
        0x68 => Key::H,
        0x69 => Key::I,
        0x6A => Key::J,
        0x6B => Key::K,
        0x6C => Key::L,
        0x6D => Key::M,
        0x6E => Key::N,
        0x6F => Key::O,
        0x70 => Key::P,
        0x71 => Key::Q,
        0x72 => Key::R,
        0x73 => Key::S,
        0x74 => Key::T,
        0x75 => Key::U,
        0x76 => Key::V,
        0x77 => Key::W,
        0x78 => Key::X,
        0x79 => Key::Y,
        0x7A => Key::Z,
        0x7F => Key::Delete,
        _ => Key::Unknown,
    }
}

/// The key that produces the ASCII character `c`.
pub fn into_key(c: u8) -> (r: Key)
    ensures
        r == key_for(c),
{
    match c {
        0x00 => Key::Unknown,
        0x08 => Key::BackSpace,
        0x09 => Key::Tab,
        0x0D => Key::Return,
        0x1B => Key::Escape,
        0x20 => Key::Space,
        0x21 => Key::Num1,
        0x22 => Key::Quote,
        0x23 => Key::Num3,
        0x24 => Key::Num4,
        0x25 => Key::Num5,
        0x26 => Key::Num7,
        0x27 => Key::Quote,
        0x28 => Key::Num9,
        0x29 => Key::Num0,
        0x2A => Key::Num8,
        0x2B => Key::Equal,
        0x2C => Key::Comma,
        0x2D => Key::Dash,
        0x2E => Key::Period,
        0x2F => Key::Slash,
        0x30 => Key::Num0,
        0x31 => Key::Num1,
        0x32 => Key::Num2,
        0x33 => Key::Num3,
        0x34 => Key::Num4,
        0x35 => Key::Num5,
        0x36 => Key::Num6,
        0x37 => Key::Num7,
        0x38 => Key::Num8,
        0x39 => Key::Num9,
        0x3A => Key::SemiColon,
        0x3B => Key::SemiColon,
        0x3C => Key::Comma,
        0x3D => Key::Equal,
        0x3E => Key::Comma,
        0x3F => Key::Slash,
        0x40 => Key::Num2,
        0x5B => Key::LBracket,
        0x5C => Key::BackSlash,
        0x5D => Key::RBracket,
        0x5E => Key::Num6,
        0x5F => Key::Dash,
        0x60 => Key::Tilde,
        0x61 => Key::A,
        0x62 => Key::B,
        0x63 => Key::C,
        0x64 => Key::D,
        0x65 => Key::E,
        0x66 => Key::F,
        0x67 => Key::G,
        0x68 => Key::H,
        0x69 => Key::I,
        0x6A => Key::J,
        0x6B => Key::K,
        0x6C => Key::L,
        0x6D => Key::M,
        0x6E => Key::N,
        0x6F => Key::O,
        0x70 => Key::P,
        0x71 => Key::Q,
        0x72 => Key::R,
        0x73 => Key::S,
        0x74 => Key::T,
        0x75 => Key::U,
        0x76 => Key::V,
        0x77 => Key::W,
        0x78 => Key::X,
        0x79 => Key::Y,
        0x7A => Key::Z,
        0x7F => Key::Delete,
        _ => Key::Unknown,
    }
}

} // verus!
