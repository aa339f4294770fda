use vstd::prelude::*;
use crate::cmd::{Action, Cmd, CmdState, Commander, Device, after_feed, blank, emitted, field_end, outputs, shown, wants_devices};
use crate::text::lemma_parse_decimal_bounds;
use crate::hexes::{Hexes, other_than};
use crate::keys::Key;
use crate::layout::{Layout, janko_table, lemma_table_semitones, semitones};

verus! {

/// A MIDI message of three bytes.
#[derive(Clone, Copy, Debug, PartialEq, Eq, Structural)]
pub struct MidiMessage {
    pub status: u8,
    pub data1: u8,
    pub data2: u8,
}

/// What the keyboard asks of the outside world.
#[derive(Debug, PartialEq, Eq)]
pub enum Effect {
    /// Send this message to the output port.
    Send(MidiMessage),
    /// Send from now on to this device instead.
    Open(Device),
}

/// The program and the bank that were last chosen on a channel.
pub type Patch = (Option<u8>, Option<u16>);

/// The state of the keyboard.
pub struct BoxState {
    pub cmd: CmdState,
    pub pressed: Seq<u8>,
    pub chan: u8,
    pub patches: Seq<Patch>,
    pub low: bool,
    pub cmd_mode: bool,
}

/// The message that starts `note` on `chan`, at middle velocity.
pub open spec fn note_on_msg(chan: u8, note: u8) -> MidiMessage {
    MidiMessage { status: (0x90 + chan) as u8, data1: note, data2: 64 }
}

/// The message that stops `note` on `chan`.
pub open spec fn note_off_msg(chan: u8, note: u8) -> MidiMessage {
    MidiMessage { status: (0x80 + chan) as u8, data1: note, data2: 64 }
}

/// The message that chooses program `patch` on `chan`.
pub open spec fn patch_msg(chan: u8, patch: u8) -> MidiMessage {
    MidiMessage { status: (0xC0 + chan) as u8, data1: patch, data2: 0 }
}

/// The two control changes that choose a bank: bank select (controller 0)
/// with its upper seven bits, then controller 0x20 with its lower seven.
pub open spec fn bank_msgs(chan: u8, bank: u16) -> Seq<Effect> {
    seq![
        Effect::Send(MidiMessage { status: (0xB0 + chan) as u8, data1: 0, data2: (bank / 128) as u8 }),
        Effect::Send(MidiMessage { status: (0xB0 + chan) as u8, data1: 0x20, data2: (bank % 128) as u8 }),
    ]
}

/// A note-off for each of the three octaves from the C below middle C.
pub open spec fn all_off(chan: u8) -> Seq<Effect> {
    Seq::new(36, |i: int| Effect::Send(note_off_msg(chan, (48 + i) as u8)))
}

/// How far the keyboard is moved down: an octave when it is low.
pub open spec fn shift(low: bool) -> int {
    if low {
        12
    } else {
        0
    }
}

/// The note that `key` plays.
pub open spec fn key_note(low: bool, key: Key) -> Option<u8> {
    match semitones(key) {
        Some(n) => Some((60 + n - shift(low)) as u8),
        None => None,
    }
}

/// The next program up, stopping at the last; the first when none was chosen.
pub open spec fn patch_up(p: Option<u8>) -> u8 {
    match p {
        Some(n) => if n != 127 {
            (n + 1) as u8
        } else {
            n
        },
        None => 0,
    }
}

/// The next program down, stopping at the first; the first when none was chosen.
pub open spec fn patch_down(p: Option<u8>) -> u8 {
    match p {
        Some(n) => if n != 0 {
            (n - 1) as u8
        } else {
            n
        },
        None => 0,
    }
}

/// The next bank up, stopping at the last; the first when none was chosen.
pub open spec fn bank_up(b: Option<u16>) -> u16 {
    match b {
        Some(n) => if n != 16383 {
            (n + 1) as u16
        } else {
            n
        },
        None => 0,
    }
}

/// The next bank down, stopping at the first; the first when none was chosen.
pub open spec fn bank_down(b: Option<u16>) -> u16 {
    match b {
        Some(n) => if n != 0 {
            (n - 1) as u16
        } else {
            n
        },
        None => 0,
    }
}

/// The state after the program `p` was chosen on the current channel, and
/// the message that chooses it.
pub open spec fn set_patch_spec(s: BoxState, p: u8) -> (BoxState, Seq<Effect>) {
    (
        BoxState { patches: s.patches.update(s.chan as int, (Some(p), s.patches[s.chan as int].1)), ..s },
        seq![Effect::Send(patch_msg(s.chan, p))],
    )
}

/// The state after the bank `b` was chosen on the current channel, and the
/// messages that choose it.
pub open spec fn set_bank_spec(s: BoxState, b: u16) -> (BoxState, Seq<Effect>) {
    (
        BoxState { patches: s.patches.update(s.chan as int, (s.patches[s.chan as int].0, Some(b))), ..s },
        bank_msgs(s.chan, b),
    )
}

/// What carrying out `act` does: a device is opened, a channel from 0 to
/// 15 is taken, a bank and then a program are chosen.
pub open spec fn executed(s: BoxState, act: Action) -> (BoxState, Seq<Effect>) {
    match act {
        Action::Device(d) => (s, seq![Effect::Open(d)]),
        Action::Chan(n) => if n < 16 {
            (BoxState { chan: n, ..s }, Seq::empty())
        } else {
            (s, Seq::empty())
        },
        Action::Patch(p, b) => {
            let banked = match b {
                Some(b) => set_bank_spec(s, b),
                None => (s, Seq::empty()),
            };
            let patched = match p {
                Some(p) => set_patch_spec(banked.0, p),
                None => (banked.0, Seq::empty()),
            };
            (patched.0, banked.1 + patched.1)
        },
    }
}

/// The keyboard with every note released, and the messages that release them.
pub open spec fn silenced(s: BoxState) -> (BoxState, Seq<Effect>) {
    (BoxState { pressed: Seq::empty(), ..s }, all_off(s.chan))
}

/// What pressing `key` does, with or without the control key held.
pub open spec fn after_press(s: BoxState, key: Key, ctrl: bool) -> (BoxState, Seq<Effect>) {
    if s.cmd_mode {
        if key == Key::Escape {
            (BoxState { cmd_mode: false, ..s }, Seq::empty())
        } else if key == Key::Return {
            let cleared = BoxState { cmd: blank(), ..s };
            match emitted(s.cmd) {
                Some(act) => {
                    let done = executed(cleared, act);
                    (BoxState { cmd_mode: false, ..done.0 }, done.1)
                },
                None => (cleared, Seq::empty()),
            }
        } else {
            (s, Seq::empty())
        }
    } else if key == Key::Add && s.chan != 15 {
        (BoxState { chan: (s.chan + 1) as u8, ..s }, Seq::empty())
    } else if key == Key::Subtract && s.chan != 0 {
        (BoxState { chan: (s.chan - 1) as u8, ..s }, Seq::empty())
    } else if key == Key::Space {
        silenced(BoxState { low: !s.low, ..s })
    } else if key == Key::PageUp && !ctrl {
        set_patch_spec(s, patch_up(s.patches[s.chan as int].0))
    } else if key == Key::PageDown && !ctrl {
        set_patch_spec(s, patch_down(s.patches[s.chan as int].0))
    } else if key == Key::PageUp {
        set_bank_spec(s, bank_up(s.patches[s.chan as int].1))
    } else if key == Key::PageDown {
        set_bank_spec(s, bank_down(s.patches[s.chan as int].1))
    } else if key == Key::Return {
        silenced(s)
    } else if key == Key::Escape {
        (BoxState { cmd_mode: true, ..s }, Seq::empty())
    } else {
        match key_note(s.low, key) {
            Some(n) => (BoxState { pressed: s.pressed.push(n), ..s }, seq![Effect::Send(note_on_msg(s.chan, n))]),
            None => (s, Seq::empty()),
        }
    }
}

/// What releasing `key` does.
pub open spec fn after_release(s: BoxState, key: Key) -> (BoxState, Seq<Effect>) {
    match key_note(s.low, key) {
        Some(n) => (
            BoxState { pressed: s.pressed.filter(other_than(n)), ..s },
            seq![Effect::Send(note_off_msg(s.chan, n))],
        ),
        None => (s, Seq::empty()),
    }
}

/// The keyboard when it starts.
pub open spec fn start() -> BoxState {
    BoxState {
        cmd: blank(),
        pressed: Seq::empty(),
        chan: 0,
        patches: Seq::new(16, |i: int| (None, None)),
        low: false,
        cmd_mode: false,
    }
}

/// Whether the remembered programs and banks are ones that MIDI can send.
pub open spec fn patches_valid(p: Seq<Patch>) -> bool {
    &&& p.len() == 16
    &&& forall|i: int|
        0 <= i < 16 ==> ((#[trigger] p[i]).0 matches Some(n) ==> n < 128)
    &&& forall|i: int|
        0 <= i < 16 ==> ((#[trigger] p[i]).1 matches Some(b) ==> b < 16384)
}

/// Whether `act` asks only for what MIDI can send.
pub open spec fn action_valid(act: Action) -> bool {
    match act {
        Action::Patch(p, b) => (p matches Some(n) ==> n < 128) && (b matches Some(n) ==> n < 16384),
        _ => true,
    }
}

/// A confirmed command line asks only for what MIDI can send.
pub proof fn lemma_emitted_valid(s: CmdState)
    ensures
        emitted(s) matches Some(act) ==> action_valid(act),
{
    let t = s.input;
    let e = field_end(t, 0);
    lemma_parse_decimal_bounds(t, 255);
    lemma_parse_decimal_bounds(t.subrange(0, e), 255);
    lemma_parse_decimal_bounds(t.subrange(e + 1, field_end(t, e + 1)), 65535);
}

/// Outside the command line, pressing a key of the layout and releasing it
/// again sends a note-on and then a note-off for the same note, on the same
/// channel, and that note no longer sounds afterwards.
pub proof fn lemma_press_then_release(s: BoxState, key: Key, ctrl: bool)
    requires
        !s.cmd_mode,
        semitones(key) is Some,
    ensures
        ({
            let n = key_note(s.low, key)->0;
            let pressed = after_press(s, key, ctrl);
            let released = after_release(pressed.0, key);
            &&& pressed.1 == seq![Effect::Send(note_on_msg(s.chan, n))]
            &&& released.1 == seq![Effect::Send(note_off_msg(s.chan, n))]
            &&& !released.0.pressed.contains(n)
            &&& released.0.chan == s.chan
            &&& released.0.low == s.low
        }),
{
    let n = key_note(s.low, key)->0;
    let after = after_press(s, key, ctrl).0;
    let kept = after.pressed.filter(other_than(n));
    assert forall|i: int| 0 <= i < kept.len() implies kept[i] != n by {
        after.pressed.lemma_filter_pred(other_than(n), i);
    }
}

/// The keyboard: the layout of its keys, the notes that sound, the channel
/// and the program of each channel, and the command line.
pub struct MusicBox {
    cmd: Commander,
    hexes: Hexes,
    map: Layout,
    chan: u8,
    patches: Vec<Patch>,
    low: bool,
    cmd_mode: bool,
}

impl View for MusicBox {
    type V = BoxState;

    closed spec fn view(&self) -> BoxState {
        BoxState {
            cmd: self.cmd@,
            pressed: self.hexes.pressed@,
            chan: self.chan,
            patches: self.patches@,
            low: self.low,
            cmd_mode: self.cmd_mode,
        }
    }
}

impl MusicBox {
    /// The keyboard keeps its layout, plays from middle C or an octave below,
    /// and holds only a MIDI channel and programs and banks that MIDI can send.
    pub closed spec fn wf(&self) -> bool {
        &&& self.cmd.wf()
        &&& self.map.0@ == janko_table()
        &&& self.hexes.note == 60 - shift(self.low)
        &&& self.chan < 16
        &&& patches_valid(self.patches@)
    }

    /// A keyboard at middle C on channel 0, with nothing chosen yet.
    pub fn new() -> (r: MusicBox)
        ensures
            r.wf(),
            r@ == start(),
    {
        let mut patches: Vec<Patch> = Vec::new();
        let mut i: usize = 0;
        while i < 16
            invariant
                i <= 16,
                patches@ == Seq::new(i as nat, |k: int| (None::<u8>, None::<u16>)),
            decreases 16 - i,
        {
            patches.push((None, None));
            i = i + 1;
            assert(patches@ =~= Seq::new(i as nat, |k: int| (None::<u8>, None::<u16>)));
        }
        let r = MusicBox {
            cmd: Commander::new(),
            hexes: Hexes::new(),
            map: Layout::new(),
            chan: 0,
            patches,
            low: false,
            cmd_mode: false,
        };
        assert(r@ =~= start());
        r
    }

    fn note_on(&self, note: u8) -> (r: MidiMessage)
        requires
            self.chan < 16,
        ensures
            r == note_on_msg(self.chan, note),
    {
        MidiMessage { status: 0x90 + self.chan, data1: note, data2: 64 }
    }

    fn note_off(&self, note: u8) -> (r: MidiMessage)
        requires
            self.chan < 16,
        ensures
            r == note_off_msg(self.chan, note),
    {
        MidiMessage { status: 0x80 + self.chan, data1: note, data2: 64 }
    }

    fn all_notes_off(&mut self, out: &mut Vec<Effect>)
        requires
            old(self).wf(),
        ensures
            final(self).wf(),
            final(self)@ == silenced(old(self)@).0,
            final(out)@ == old(out)@ + silenced(old(self)@).1,
    {
        let ghost start_out = out@;
        let mut n: u8 = 0;
        while n < 36
            invariant
                self.wf(),
                self == old(self),
                n <= 36,
                out@ == start_out + all_off(self.chan).subrange(0, n as int),
            decreases 36 - n,
        {
            out.push(Effect::Send(self.note_off(48 + n)));
            n = n + 1;
            assert(out@ =~= start_out + all_off(self.chan).subrange(0, n as int));
        }
        assert(all_off(self.chan).subrange(0, 36) =~= all_off(self.chan));
        self.hexes.release_all();
        assert(self@ =~= silenced(old(self)@).0);
    }

    fn set_patch(&mut self, patch: u8, out: &mut Vec<Effect>)
        requires
            old(self).wf(),
            patch < 128,
        ensures
            final(self).wf(),
            final(self)@ == set_patch_spec(old(self)@, patch).0,
            final(out)@ == old(out)@ + set_patch_spec(old(self)@, patch).1,
    {
        let c = self.chan as usize;
        out.push(Effect::Send(MidiMessage { status: 0xC0 + self.chan, data1: patch, data2: 0 }));
        let bank = self.patches[c].1;
        self.patches[c] = (Some(patch), bank);
        assert(self@ =~= set_patch_spec(old(self)@, patch).0);
        assert(out@ =~= old(out)@ + set_patch_spec(old(self)@, patch).1);
    }

    fn set_bank(&mut self, bank: u16, out: &mut Vec<Effect>)
        requires
            old(self).wf(),
            bank < 16384,
        ensures
            final(self).wf(),
            final(self)@ == set_bank_spec(old(self)@, bank).0,
            final(out)@ == old(out)@ + set_bank_spec(old(self)@, bank).1,
    {
        let c = self.chan as usize;
        let msb = (bank >> 7) as u8;
        let lsb = (bank & 0x7F) as u8;
        assert(msb == bank / 128 && lsb == bank % 128) by (bit_vector)
            requires
                msb == (bank >> 7) as u8,
                lsb == (bank & 0x7F) as u8,
                bank < 16384,
        ;
        out.push(Effect::Send(MidiMessage { status: 0xB0 + self.chan, data1: 0, data2: msb }));
        out.push(Effect::Send(MidiMessage { status: 0xB0 + self.chan, data1: 0x20, data2: lsb }));
        let patch = self.patches[c].0;
        self.patches[c] = (patch, Some(bank));
        assert(self@ =~= set_bank_spec(old(self)@, bank).0);
        assert(out@ =~= old(out)@ + set_bank_spec(old(self)@, bank).1);
    }

    /// Carries out a confirmed command. Only actions that MIDI can send reach
    /// it (`lemma_emitted_valid`): a program of 128 or more or a bank of 16384
    /// or more has no data bytes, and keeping them out is what lets the
    /// program and bank keys step on without overflow.
    fn execute(&mut self, act: Action, out: &mut Vec<Effect>)
        requires
            old(self).wf(),
            action_valid(act),
        ensures
            final(self).wf(),
            final(self)@ == executed(old(self)@, act).0,
            final(out)@ == old(out)@ + executed(old(self)@, act).1,
    {
        match act {
            Action::Device(d) => {
                out.push(Effect::Open(d));
            },
            Action::Chan(n) => {
                if n < 16 {
                    self.chan = n;
                }
                assert(out@ =~= old(out)@ + executed(old(self)@, act).1);
            },
            Action::Patch(patch, bank) => {
                match bank {
                    Some(b) => self.set_bank(b, out),
                    None => {},
                }
                match patch {
                    Some(p) => self.set_patch(p, out),
                    None => {},
                }
                assert(out@ =~= old(out)@ + executed(old(self)@, act).1);
            },
        }
    }

    /// Presses `key`, with or without the control key held: the new state
    /// and what is to be sent, in order.
    pub fn press(&mut self, key: Key, ctrl: bool) -> (r: Vec<Effect>)
        requires
            old(self).wf(),
        ensures
            final(self).wf(),
            final(self)@ == after_press(old(self)@, key, ctrl).0,
            r@ == after_press(old(self)@, key, ctrl).1,
    {
        let mut out: Vec<Effect> = Vec::new();
        if self.cmd_mode {
            if key == Key::Escape {
                self.cmd_mode = false;
            } else if key == Key::Return {
                proof {
                    lemma_emitted_valid(self.cmd@);
                }
                match self.cmd.emit() {
                    Some(act) => {
                        self.execute(act, &mut out);
                        self.cmd_mode = false;
                    },
                    None => {},
                }
            }
            assert(out@ =~= after_press(old(self)@, key, ctrl).1);
            return out;
        }
        let c = self.chan as usize;
        if key == Key::Add && self.chan != 15 {
            self.chan = self.chan + 1;
        } else if key == Key::Subtract && self.chan != 0 {
            self.chan = self.chan - 1;
        } else if key == Key::Space {
            self.low = !self.low;
            self.hexes.base_note(if self.low { 48 } else { 60 });
            self.all_notes_off(&mut out);
        } else if key == Key::PageUp && !ctrl {
            let num = match self.patches[c].0 {
                Some(n) => if n != 127 { n + 1 } else { n },
                None => 0,
            };
            self.set_patch(num, &mut out);
        } else if key == Key::PageDown && !ctrl {
            let num = match self.patches[c].0 {
                Some(n) => if n != 0 { n - 1 } else { n },
                None => 0,
            };
            self.set_patch(num, &mut out);
        } else if key == Key::PageUp {
            let num = match self.patches[c].1 {
                Some(n) => if n != 16383 { n + 1 } else { n },
                None => 0,
            };
            self.set_bank(num, &mut out);
        } else if key == Key::PageDown {
            let num = match self.patches[c].1 {
                Some(n) => if n != 0 { n - 1 } else { n },
                None => 0,
            };
            self.set_bank(num, &mut out);
        } else if key == Key::Return {
            self.all_notes_off(&mut out);
        } else if key == Key::Escape {
            self.cmd_mode = true;
        } else {
            proof {
                lemma_table_semitones(key);
            }
            match self.map.note(60, key) {
                Some(n) => {
                    let note = if self.low { n - 12 } else { n };
                    out.push(Effect::Send(self.note_on(note)));
                    self.hexes.press(note);
                },
                None => {},
            }
        }
        assert(out@ =~= after_press(old(self)@, key, ctrl).1);
        out
    }

    /// Releases `key`: the note that it plays stops.
    pub fn release(&mut self, key: Key) -> (r: Vec<Effect>)
        requires
            old(self).wf(),
        ensures
            final(self).wf(),
            final(self)@ == after_release(old(self)@, key).0,
            r@ == after_release(old(self)@, key).1,
    {
        let mut out: Vec<Effect> = Vec::new();
        proof {
            lemma_table_semitones(key);
        }
        match self.map.note(60, key) {
            Some(n) => {
                let note = if self.low { n - 12 } else { n };
                out.push(Effect::Send(self.note_off(note)));
                self.hexes.release(note);
            },
            None => {},
        }
        assert(out@ =~= after_release(old(self)@, key).1);
        out
    }

    /// Types `ch` into the command line while it is open. The result tells
    /// whether the device command now waits for `supply_devices`.
    pub fn text(&mut self, ch: char) -> (wants: bool)
        requires
            old(self).wf(),
        ensures
            final(self).wf(),
            old(self)@.cmd_mode ==> final(self)@ == (BoxState { cmd: after_feed(old(self)@.cmd, ch), ..old(self)@ }),
            !old(self)@.cmd_mode ==> final(self)@ == old(self)@,
            wants == (old(self)@.cmd_mode && wants_devices(old(self)@.cmd, ch)),
    {
        if self.cmd_mode {
            self.cmd.feed(ch)
        } else {
            false
        }
    }

    /// Hands the command line the devices of the system; only the device
    /// command takes them.
    pub fn supply_devices(&mut self, all: Vec<Device>)
        requires
            old(self).wf(),
        ensures
            final(self).wf(),
            old(self)@.cmd.current != Some(Cmd::Dev) ==> final(self)@ == old(self)@,
            old(self)@.cmd.current == Some(Cmd::Dev) ==> final(self)@ == (BoxState {
                cmd: CmdState { devs: Some(outputs(all@)), ..old(self)@.cmd },
                ..old(self)@
            }),
    {
        self.cmd.supply_devices(all);
    }

    /// Whether the keyboard plays an octave below middle C.
    pub fn low(&self) -> (r: bool)
        ensures
            r == self@.low,
    {
        self.low
    }

    /// The MIDI channel that the keyboard plays on.
    pub fn chan(&self) -> (r: u8)
        ensures
            r == self@.chan,
    {
        self.chan
    }

    /// The program and bank last chosen on the current channel.
    pub fn patch(&self) -> (r: Patch)
        requires
            self.wf(),
        ensures
            r == self@.patches[self@.chan as int],
    {
        self.patches[self.chan as usize]
    }

    /// Whether the command line is open.
    pub fn cmd_mode(&self) -> (r: bool)
        ensures
            r == self@.cmd_mode,
    {
        self.cmd_mode
    }

    /// What the command line shows.
    pub fn cmd_text(&self) -> (r: String)
        ensures
            r@ == shown(self@.cmd),
    {
        self.cmd.text()
    }

    /// The grid of notes as it is to be drawn.
    pub fn hexes(&self) -> (r: &Hexes)
        requires
            self.wf(),
        ensures
            r.pressed@ == self@.pressed,
            r.note == 60 - shift(self@.low),
    {
        &self.hexes
    }
}

} // verus!
