use vstd::prelude::*;

verus! {

/// How a cell of the grid is filled: by the colour of its key on a piano,
/// and whether its note sounds.
#[derive(Clone, Copy, Debug, PartialEq, Eq, Structural)]
pub enum Shade {
    Black,
    White,
    BlackPressed,
    WhitePressed,
}

/// The grid's notes: the note of its first cell and the notes that sound.
#[derive(Debug)]
pub struct Hexes {
    pub note: u8,
    pub pressed: Vec<u8>,
}

/// The distance in semitones of cell `i` of a grid row from the grid's first
/// note: the upper row holds the odd distances, the lower row the even ones.
pub open spec fn cell_offset(lower: bool, i: int) -> int {
    if lower {
        2 * i
    } else {
        2 * i + 1
    }
}

/// Whether cell `i` of a row stands for a white piano key.
pub open spec fn cell_white(lower: bool, i: int) -> bool {
    if lower {
        i % 6 < 3
    } else {
        i % 6 > 1
    }
}

/// The fill of a cell from its colour and whether it sounds.
pub open spec fn shade_of(white: bool, pressed: bool) -> Shade {
    match (white, pressed) {
        (false, false) => Shade::Black,
        (true, false) => Shade::White,
        (false, true) => Shade::BlackPressed,
        (true, true) => Shade::WhitePressed,
    }
}

/// Whether `n` is not `note`.
pub open spec fn other_than(note: u8) -> spec_fn(u8) -> bool {
    |n: u8| n != note
}

impl Hexes {
    /// A grid that starts at middle C with no note sounding.
    pub fn new() -> (r: Hexes)
        ensures
            r.note == 60,
            r.pressed@ == Seq::<u8>::empty(),
    {
        Hexes { note: 60, pressed: Vec::new() }
    }

    /// Marks `note` as sounding.
    pub fn press(&mut self, note: u8)
        ensures
            final(self).note == old(self).note,
            final(self).pressed@ == old(self).pressed@.push(note),
    {
        self.pressed.push(note);
    }

    /// Marks `note` as silent, however often it was pressed.
    pub fn release(&mut self, note: u8)
        ensures
            final(self).note == old(self).note,
            final(self).pressed@ == old(self).pressed@.filter(other_than(note)),
    {
        let ghost all = self.pressed@;
        let ghost p = other_than(note);
        let mut kept: Vec<u8> = Vec::new();
        let mut i: usize = 0;
        while i < self.pressed.len()
            invariant
                p == other_than(note),
                all == self.pressed@,
                i <= all.len(),
                kept@ == all.subrange(0, i as int).filter(p),
            decreases all.len() - i,
        {
            proof {
                reveal(Seq::filter);
                assert(all.subrange(0, i + 1).drop_last() =~= all.subrange(0, i as int));
            }
            if self.pressed[i] != note {
                kept.push(self.pressed[i]);
            }
            i = i + 1;
        }
        assert(all.subrange(0, i as int) =~= all);
        self.pressed = kept;
    }

    /// Marks every note as silent.
    pub fn release_all(&mut self)
        ensures
            final(self).note == old(self).note,
            final(self).pressed@ == Seq::<u8>::empty(),
    {
        self.pressed.clear();
    }

    /// Moves the grid so that its first cell is `note`.
    pub fn base_note(&mut self, note: u8)
        ensures
            final(self).note == note,
            final(self).pressed@ == old(self).pressed@,
    {
        self.note = note;
    }

    /// Whether the note `i` semitones above the grid's first one sounds.
    pub fn note_pressed(&self, i: u8) -> (r: bool)
        ensures
            r == (self.pressed@.contains((self.note + i) as u8) && self.note + i <= 255),
    {
        let target: u16 = self.note as u16 + i as u16;
        let mut k: usize = 0;
        while k < self.pressed.len()
            invariant
                k <= self.pressed@.len(),
                target == self.note + i,
                forall|m: int| 0 <= m < k ==> self.pressed@[m] as u16 != target,
            decreases self.pressed@.len() - k,
        {
            if self.pressed[k] as u16 == target {
                assert(self.pressed@[k as int] == (self.note + i) as u8);
                return true;
            }
            k = k + 1;
        }
        proof {
            if self.note + i <= 255 {
                assert forall|m: int| 0 <= m < self.pressed@.len() implies self.pressed@[m] != (
                self.note + i) as u8 by {
                    assert(self.pressed@[m] as u16 != target);
                }
            }
        }
        false
    }

    /// The fill of cell `i` of the lower or the upper row.
    pub fn shade(&self, lower: bool, i: u8) -> (r: Shade)
        requires
            i < 13,
        ensures
            r == shade_of(
                cell_white(lower, i as int),
                self.pressed@.contains((self.note + cell_offset(lower, i as int)) as u8)
                    && self.note + cell_offset(lower, i as int) <= 255,
            ),
    {
        let white = if lower {
            i % 6 < 3
        } else {
            i % 6 > 1
        };
        let offset = if lower {
            2 * i
        } else {
            2 * i + 1
        };
        let pressed = self.note_pressed(offset);
        match (white, pressed) {
            (false, false) => Shade::Black,
            (true, false) => Shade::White,
            (false, true) => Shade::BlackPressed,
            (true, true) => Shade::WhitePressed,
        }
    }
}

} // verus!
