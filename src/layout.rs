use vstd::prelude::*;
use crate::keys::{Key, key_for, into_key};

verus! {

/// The keys of the lower keyboard row and those right of it, in the order
/// in which they climb the scale from one semitone above the base note.
pub open spec fn lower_row() -> Seq<u8> {
    seq![
        0x61u8, 0x7A, 0x73, 0x78, 0x64, 0x63, 0x66, 0x76, 0x67, 0x62, 0x68,
        0x6E, 0x6A, 0x6D, 0x6B, 0x2C, 0x6C, 0x2E, 0x3B, 0x2F, 0x27,
    ]
}

/// The keys of the upper keyboard row, climbing from the base note itself.
pub open spec fn upper_row() -> Seq<u8> {
    seq![
        0x71u8, 0x32, 0x77, 0x33, 0x65, 0x34, 0x72, 0x35, 0x74, 0x36, 0x79, 0x37,
        0x75, 0x38, 0x69, 0x39, 0x6F, 0x30, 0x70, 0x2D, 0x5B, 0x3D, 0x5D,
    ]
}

/// The entries for the characters of `row`, the first one `first` semitones
/// above the base note and each further one a semitone higher.
pub open spec fn row_entries(row: Seq<u8>, first: int) -> Seq<(Key, u8)> {
    Seq::new(row.len(), |i: int| (key_for(row[i]), (first + i) as u8))
}

/// The whole table: each key with its distance in semitones from the base note.
pub open spec fn janko_table() -> Seq<(Key, u8)> {
    seq![(Key::Unknown, 0u8)]
        + row_entries(lower_row(), 1)
        + seq![(Key::Quote, 21u8), (Key::RShift, 22u8), (Key::BackSlash, 23u8), (Key::RControl, 24u8)]
        + row_entries(upper_row(), 0)
        + seq![(Key::BackSpace, 23u8)]
}

/// The distance of the first entry of `t` at or after position `i` for `key`,
/// if there is one.
pub open spec fn lookup_from(t: Seq<(Key, u8)>, i: int, key: Key) -> Option<u8>
    decreases t.len() - i,
{
    if i < 0 || i >= t.len() {
        None
    } else if t[i].0 == key {
        Some(t[i].1)
    } else {
        lookup_from(t, i + 1, key)
    }
}

/// The distance of the first entry of `t` for `key`, if there is one.
pub open spec fn lookup(t: Seq<(Key, u8)>, key: Key) -> Option<u8> {
    lookup_from(t, 0, key)
}

/// How many semitones above the base note each key of a Janko keyboard on
/// the letter rows sounds: the upper row climbs in whole tones from the base
/// note, the lower row in whole tones from a semitone above it, and the keys
/// right of the lower row go on up to two octaves.
pub open spec fn semitones(key: Key) -> Option<u8> {
    match key {
        Key::Unknown => Some(0u8),
        Key::A => Some(1),
        Key::Z => Some(2),
        Key::S => Some(3),
        Key::X => Some(4),
        Key::D => Some(5),
        Key::C => Some(6),
        Key::F => Some(7),
        Key::V => Some(8),
        Key::G => Some(9),
        Key::B => Some(10),
        Key::H => Some(11),
        Key::N => Some(12),
        Key::J => Some(13),
        Key::M => Some(14),
        Key::K => Some(15),
        Key::Comma => Some(16),
        Key::L => Some(17),
        Key::Period => Some(18),
        Key::SemiColon => Some(19),
        Key::Slash => Some(20),
        Key::Quote => Some(21),
        Key::RShift => Some(22),
        Key::BackSlash => Some(23),
        Key::RControl => Some(24),
        Key::Q => Some(0),
        Key::Num2 => Some(1),
        Key::W => Some(2),
        Key::Num3 => Some(3),
        Key::E => Some(4),
        Key::Num4 => Some(5),
        Key::R => Some(6),
        Key::Num5 => Some(7),
        Key::T => Some(8),
        Key::Num6 => Some(9),
        Key::Y => Some(10),
        Key::Num7 => Some(11),
        Key::U => Some(12),
        Key::Num8 => Some(13),
        Key::I => Some(14),
        Key::Num9 => Some(15),
        Key::O => Some(16),
        Key::Num0 => Some(17),
        Key::P => Some(18),
        Key::Dash => Some(19),
        Key::LBracket => Some(20),
        Key::Equal => Some(21),
        Key::RBracket => Some(22),
        Key::BackSpace => Some(23),
        _ => None,
    }
}

/// The table, entry by entry.
pub open spec fn janko_entries() -> Seq<(Key, u8)> {
    seq![
        (Key::Unknown, 0u8),
        (Key::A, 1u8),
        (Key::Z, 2u8),
        (Key::S, 3u8),
        (Key::X, 4u8),
        (Key::D, 5u8),
        (Key::C, 6u8),
        (Key::F, 7u8),
        (Key::V, 8u8),
        (Key::G, 9u8),
        (Key::B, 10u8),
        (Key::H, 11u8),
        (Key::N, 12u8),
        (Key::J, 13u8),
        (Key::M, 14u8),
        (Key::K, 15u8),
        (Key::Comma, 16u8),
        (Key::L, 17u8),
        (Key::Period, 18u8),
        (Key::SemiColon, 19u8),
        (Key::Slash, 20u8),
        (Key::Quote, 21u8),
        (Key::Quote, 21u8),
        (Key::RShift, 22u8),
        (Key::BackSlash, 23u8),
        (Key::RControl, 24u8),
        (Key::Q, 0u8),
        (Key::Num2, 1u8),
        (Key::W, 2u8),
        (Key::Num3, 3u8),
        (Key::E, 4u8),
        (Key::Num4, 5u8),
        (Key::R, 6u8),
        (Key::Num5, 7u8),
        (Key::T, 8u8),
        (Key::Num6, 9u8),
        (Key::Y, 10u8),
        (Key::Num7, 11u8),
        (Key::U, 12u8),
        (Key::Num8, 13u8),
        (Key::I, 14u8),
        (Key::Num9, 15u8),
        (Key::O, 16u8),
        (Key::Num0, 17u8),
        (Key::P, 18u8),
        (Key::Dash, 19u8),
        (Key::LBracket, 20u8),
        (Key::Equal, 21u8),
        (Key::RBracket, 22u8),
        (Key::BackSpace, 23u8),
    ]
}

proof fn lemma_table_entries()
    ensures
        janko_table() == janko_entries(),
{
    assert(janko_table() =~= janko_entries());
}

/// The table gives each key its distance on a Janko keyboard.
#[verifier::spinoff_prover]
#[verifier::rlimit(100)]
pub proof fn lemma_table_semitones(key: Key)
    ensures
        lookup(janko_table(), key) == semitones(key),
{
    lemma_table_entries();
    reveal_with_fuel(lookup_from, 51);
}

/// A keyboard layout: which key sounds how far above the base note.
#[derive(Debug)]
pub struct Layout(pub Vec<(Key, u8)>);

fn push_row(map: &mut Vec<(Key, u8)>, row: &[u8], first: u8)
    requires
        first as int + row@.len() <= 256,
    ensures
        final(map)@ == old(map)@ + row_entries(row@, first as int),
{
    let ghost start = old(map)@;
    let mut i: usize = 0;
    while i < row.len()
        invariant
            i <= row@.len(),
            first as int + row@.len() <= 256,
            map@ == start + row_entries(row@, first as int).subrange(0, i as int),
        decreases row@.len() - i,
    {
        map.push((into_key(row[i]), first + i as u8));
        i = i + 1;
        assert(row_entries(row@, first as int).subrange(0, i as int)
            =~= row_entries(row@, first as int).subrange(0, i - 1).push(
            (key_for(row@[i - 1]), (first + i - 1) as u8)));
    }
    assert(row_entries(row@, first as int).subrange(0, i as int) =~= row_entries(row@, first as int));
}

impl Layout {
    /// The layout of a Janko keyboard on the two lowest letter rows.
    pub fn new() -> (r: Layout)
        ensures
            r.0@ == janko_table(),
    {
        let mut map: Vec<(Key, u8)> = Vec::new();
        map.push((Key::Unknown, 0));
        let lower: [u8; 21] = [
            0x61, 0x7A, 0x73, 0x78, 0x64, 0x63, 0x66, 0x76, 0x67, 0x62, 0x68,
            0x6E, 0x6A, 0x6D, 0x6B, 0x2C, 0x6C, 0x2E, 0x3B, 0x2F, 0x27,
        ];
        assert(lower@ == lower_row());
        push_row(&mut map, &lower, 1);
        map.push((Key::Quote, 21));
        map.push((Key::RShift, 22));
        map.push((Key::BackSlash, 23));
        map.push((Key::RControl, 24));
        let upper: [u8; 23] = [
            0x71, 0x32, 0x77, 0x33, 0x65, 0x34, 0x72, 0x35, 0x74, 0x36, 0x79, 0x37,
            0x75, 0x38, 0x69, 0x39, 0x6F, 0x30, 0x70, 0x2D, 0x5B, 0x3D, 0x5D,
        ];
        assert(upper@ == upper_row());
        push_row(&mut map, &upper, 0);
        map.push((Key::BackSpace, 23));
        assert(map@ =~= janko_table());
        Layout(map)
    }

    /// The note that `key` sounds over the base note `base`: the first entry
    /// for the key decides.
    pub fn note(&self, base: u8, key: Key) -> (r: Option<u8>)
        requires
            match lookup(self.0@, key) {
                Some(n) => base + n <= 255,
                None => true,
            },
        ensures
            r == (match lookup(self.0@, key) {
                Some(n) => Some((base + n) as u8),
                None => None,
            }),
    {
        let mut i: usize = 0;
        while i < self.0.len()
            invariant
                i <= self.0@.len(),
                lookup(self.0@, key) == lookup_from(self.0@, i as int, key),
                match lookup(self.0@, key) {
                    Some(n) => base + n <= 255,
                    None => true,
                },
            decreases self.0@.len() - i,
        {
            if self.0[i].0 == key {
                assert(lookup(self.0@, key) == Some(self.0@[i as int].1));
                return Some(base + self.0[i].1);
            }
            i = i + 1;
        }
        None
    }
}

} // verus!
