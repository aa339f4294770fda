use janko::cmd::{Action, Commander, Device};
use janko::hexes::{Hexes, Shade};
use janko::keys::{into_key, Key};
use janko::layout::Layout;
use janko::music::{Effect, MidiMessage, MusicBox};
use janko::text::contains;

fn chars(s: &str) -> Vec<char> {
    s.chars().collect()
}

fn type_line(c: &mut Commander, s: &str) -> bool {
    let mut wants = false;
    for ch in s.chars() {
        wants = c.feed(ch);
    }
    wants
}

fn device(id: i32, name: &str, output: bool) -> Device {
    Device { id, name: name.to_string(), output }
}

fn send(status: u8, data1: u8, data2: u8) -> Effect {
    Effect::Send(MidiMessage { status, data1, data2 })
}

#[test]
fn into_key_maps_letters_digits_and_punctuation() {
    assert_eq!(into_key(b'a'), Key::A);
    assert_eq!(into_key(b'z'), Key::Z);
    assert_eq!(into_key(b'0'), Key::Num0);
    assert_eq!(into_key(b'!'), Key::Num1);
    assert_eq!(into_key(b'\''), Key::Quote);
    assert_eq!(into_key(b'['), Key::LBracket);
    assert_eq!(into_key(0x7F), Key::Delete);
}

#[test]
fn into_key_gives_unknown_elsewhere() {
    assert_eq!(into_key(b'A'), Key::Unknown);
    assert_eq!(into_key(0x80), Key::Unknown);
    assert_eq!(into_key(0), Key::Unknown);
}

#[test]
fn layout_rows_climb_in_semitones() {
    let l = Layout::new();
    assert_eq!(l.0.len(), 50);
    assert_eq!(l.note(60, Key::Q), Some(60));
    assert_eq!(l.note(60, Key::A), Some(61));
    assert_eq!(l.note(60, Key::Num2), Some(61));
    assert_eq!(l.note(60, Key::Z), Some(62));
    assert_eq!(l.note(60, Key::Quote), Some(81));
    assert_eq!(l.note(60, Key::RShift), Some(82));
    assert_eq!(l.note(60, Key::RBracket), Some(82));
    assert_eq!(l.note(60, Key::BackSpace), Some(83));
    assert_eq!(l.note(60, Key::BackSlash), Some(83));
    assert_eq!(l.note(60, Key::RControl), Some(84));
}

#[test]
fn layout_unknown_key_is_the_base_note() {
    let l = Layout::new();
    assert_eq!(l.note(48, Key::Unknown), Some(48));
}

#[test]
fn layout_leaves_other_keys_silent() {
    let l = Layout::new();
    assert_eq!(l.note(60, Key::F1), None);
    assert_eq!(l.note(60, Key::Space), None);
    assert_eq!(l.note(60, Key::Add), None);
}

#[test]
fn contains_finds_runs() {
    assert!(contains(&chars("Midi Through"), &chars("Thr")));
    assert!(contains(&chars("abc"), &chars("")));
    assert!(contains(&chars("abc"), &chars("abc")));
    assert!(!contains(&chars("abc"), &chars("abcd")));
    assert!(!contains(&chars("abc"), &chars("ac")));
}

#[test]
fn commander_text_keeps_other_alphabets() {
    let mut c = Commander::new();
    type_line(&mut c, "dé");
    assert_eq!(c.text(), "\n\n\n> dé");
}

#[test]
fn commander_starts_empty() {
    let c = Commander::new();
    assert_eq!(c.text(), "\n\n\n> ");
}

#[test]
fn commander_chan_gives_channel() {
    let mut c = Commander::new();
    assert!(!type_line(&mut c, "chan 5"));
    assert_eq!(c.text(), "\n\n\nchan> 5");
    assert_eq!(c.emit(), Some(Action::Chan(5)));
    assert_eq!(c.text(), "\n\n\n> ");
}

#[test]
fn commander_chan_reads_plus_and_zeros() {
    let mut c = Commander::new();
    type_line(&mut c, "chan +007");
    assert_eq!(c.emit(), Some(Action::Chan(7)));
}

#[test]
fn commander_chan_rejects_bad_numbers() {
    let mut c = Commander::new();
    type_line(&mut c, "chan 256");
    assert_eq!(c.emit(), None);
    type_line(&mut c, "chan x");
    assert_eq!(c.emit(), None);
    type_line(&mut c, "chan -1");
    assert_eq!(c.emit(), None);
    type_line(&mut c, "chan +");
    assert_eq!(c.emit(), None);
    type_line(&mut c, "chan ");
    assert_eq!(c.emit(), None);
}

#[test]
fn commander_chan_takes_a_whole_byte() {
    let mut c = Commander::new();
    type_line(&mut c, "chan 255");
    assert_eq!(c.emit(), Some(Action::Chan(255)));
}

#[test]
fn commander_prog_patch_only() {
    let mut c = Commander::new();
    type_line(&mut c, "prog 5");
    assert_eq!(c.emit(), Some(Action::Patch(Some(5), None)));
}

#[test]
fn commander_prog_patch_and_bank() {
    let mut c = Commander::new();
    type_line(&mut c, "prog 5/300");
    assert_eq!(c.emit(), Some(Action::Patch(Some(5), Some(300))));
}

#[test]
fn commander_prog_bank_only() {
    let mut c = Commander::new();
    type_line(&mut c, "prog /16383");
    assert_eq!(c.emit(), Some(Action::Patch(None, Some(16383))));
}

#[test]
fn commander_prog_bad_bank_keeps_patch() {
    let mut c = Commander::new();
    type_line(&mut c, "prog 5/x");
    assert_eq!(c.emit(), Some(Action::Patch(Some(5), None)));
    type_line(&mut c, "prog 5/70000");
    assert_eq!(c.emit(), Some(Action::Patch(Some(5), None)));
}

#[test]
fn commander_prog_out_of_range() {
    let mut c = Commander::new();
    type_line(&mut c, "prog 128");
    assert_eq!(c.emit(), None);
    type_line(&mut c, "prog 5/16384");
    assert_eq!(c.emit(), None);
    type_line(&mut c, "prog 200/3");
    assert_eq!(c.emit(), None);
    type_line(&mut c, "prog /");
    assert_eq!(c.emit(), None);
}

#[test]
fn commander_prog_ignores_third_field() {
    let mut c = Commander::new();
    type_line(&mut c, "prog 1/2/3");
    assert_eq!(c.emit(), Some(Action::Patch(Some(1), Some(2))));
}

#[test]
fn commander_unknown_word_is_no_command() {
    let mut c = Commander::new();
    type_line(&mut c, "foo 1");
    assert_eq!(c.text(), "\n\n\n> foo1");
    assert_eq!(c.emit(), None);
}

#[test]
fn commander_ignores_control_characters() {
    let mut c = Commander::new();
    type_line(&mut c, "ch\tan\n");
    assert_eq!(c.text(), "\n\n\n> chan");
}

#[test]
fn commander_backspace_takes_back() {
    let mut c = Commander::new();
    type_line(&mut c, "chan 12\u{8}");
    assert_eq!(c.text(), "\n\n\nchan> 1");
    type_line(&mut c, "\u{8}\u{8}");
    assert_eq!(c.text(), "\n\n\n> chan");
    type_line(&mut c, "\u{8}\u{8}\u{8}\u{8}\u{8}");
    assert_eq!(c.text(), "\n\n\n> ");
}

#[test]
fn commander_dev_lists_outputs_and_narrows() {
    let mut c = Commander::new();
    assert!(type_line(&mut c, "dev "));
    c.supply_devices(vec![
        device(0, "Midi Through", true),
        device(1, "Keyboard In", false),
        device(2, "Synth-A", true),
        device(3, "Synth-B", true),
        device(4, "Synth-C", true),
    ]);
    assert_eq!(c.text(), "Midi Through\nSynth-A\nSynth-B\ndev> ");
    assert!(!type_line(&mut c, "Syn"));
    assert_eq!(c.text(), "Synth-A\nSynth-B\nSynth-C\ndev> Syn");
    type_line(&mut c, "th B");
    assert_eq!(c.text(), "\n\n\ndev> SynthB");
    assert_eq!(c.emit(), None);
}

#[test]
fn commander_dev_picks_first_match() {
    let mut c = Commander::new();
    type_line(&mut c, "dev ");
    c.supply_devices(vec![device(2, "Synth-A", true), device(3, "Synth-B", true)]);
    type_line(&mut c, "h-B");
    assert_eq!(c.text(), "Synth-B\n\n\ndev> h-B");
    assert_eq!(c.emit(), Some(Action::Device(device(3, "Synth-B", true))));
}

#[test]
fn commander_dev_with_no_match() {
    let mut c = Commander::new();
    type_line(&mut c, "dev ");
    c.supply_devices(vec![device(0, "Midi Through", true)]);
    type_line(&mut c, "zz");
    assert_eq!(c.text(), "\n\n\ndev> zz");
    assert_eq!(c.emit(), None);
}

#[test]
fn commander_dev_without_list_gives_nothing() {
    let mut c = Commander::new();
    type_line(&mut c, "dev ");
    assert_eq!(c.emit(), None);
}

#[test]
fn hexes_press_and_release() {
    let mut h = Hexes::new();
    h.press(61);
    h.press(64);
    h.press(61);
    assert!(h.note_pressed(1));
    assert!(h.note_pressed(4));
    assert!(!h.note_pressed(0));
    h.release(61);
    assert_eq!(h.pressed, vec![64]);
    h.release_all();
    assert!(h.pressed.is_empty());
}

#[test]
fn hexes_base_note_moves_grid() {
    let mut h = Hexes::new();
    h.press(50);
    h.base_note(48);
    assert_eq!(h.note, 48);
    assert!(h.note_pressed(2));
    assert!(!h.note_pressed(255));
}

#[test]
fn hexes_shades() {
    let mut h = Hexes::new();
    assert_eq!(h.shade(false, 0), Shade::Black);
    assert_eq!(h.shade(false, 2), Shade::White);
    assert_eq!(h.shade(true, 0), Shade::White);
    assert_eq!(h.shade(true, 3), Shade::Black);
    h.press(61);
    h.press(60);
    assert_eq!(h.shade(false, 0), Shade::BlackPressed);
    assert_eq!(h.shade(true, 0), Shade::WhitePressed);
}

#[test]
fn music_box_plays_notes() {
    let mut m = MusicBox::new();
    assert_eq!(m.press(Key::A, false), vec![send(0x90, 61, 64)]);
    assert_eq!(m.hexes().pressed, vec![61]);
    assert_eq!(m.release(Key::A), vec![send(0x80, 61, 64)]);
    assert!(m.hexes().pressed.is_empty());
    assert_eq!(m.press(Key::F1, false), vec![]);
}

#[test]
fn music_box_space_drops_an_octave() {
    let mut m = MusicBox::new();
    m.press(Key::Q, false);
    let offs = m.press(Key::Space, false);
    assert_eq!(offs.len(), 36);
    assert_eq!(offs[0], send(0x80, 48, 64));
    assert_eq!(offs[35], send(0x80, 83, 64));
    assert!(m.low());
    assert_eq!(m.hexes().note, 48);
    assert!(m.hexes().pressed.is_empty());
    assert_eq!(m.press(Key::Q, false), vec![send(0x90, 48, 64)]);
    m.press(Key::Space, false);
    assert!(!m.low());
    assert_eq!(m.hexes().note, 60);
}

#[test]
fn music_box_channel_keys() {
    let mut m = MusicBox::new();
    m.press(Key::Subtract, false);
    assert_eq!(m.chan(), 0);
    m.press(Key::Add, false);
    assert_eq!(m.chan(), 1);
    assert_eq!(m.press(Key::A, false), vec![send(0x91, 61, 64)]);
    for _ in 0..20 {
        m.press(Key::Add, false);
    }
    assert_eq!(m.chan(), 15);
}

#[test]
fn music_box_program_keys() {
    let mut m = MusicBox::new();
    assert_eq!(m.press(Key::PageDown, false), vec![send(0xC0, 0, 0)]);
    assert_eq!(m.press(Key::PageDown, false), vec![send(0xC0, 0, 0)]);
    assert_eq!(m.press(Key::PageUp, false), vec![send(0xC0, 1, 0)]);
    assert_eq!(m.patch(), (Some(1), None));
    assert_eq!(m.press(Key::PageUp, true), vec![send(0xB0, 0, 0), send(0xB0, 0x20, 0)]);
    assert_eq!(m.press(Key::PageUp, true), vec![send(0xB0, 0, 0), send(0xB0, 0x20, 1)]);
    assert_eq!(m.patch(), (Some(1), Some(1)));
    assert_eq!(m.press(Key::PageDown, true), vec![send(0xB0, 0, 0), send(0xB0, 0x20, 0)]);
}

#[test]
fn music_box_return_silences() {
    let mut m = MusicBox::new();
    m.press(Key::A, false);
    assert_eq!(m.press(Key::Return, false).len(), 36);
    assert!(m.hexes().pressed.is_empty());
}

#[test]
fn music_box_command_sets_program_and_bank() {
    let mut m = MusicBox::new();
    assert!(!m.text('x'));
    m.press(Key::Escape, false);
    assert!(m.cmd_mode());
    for ch in "prog 5/130".chars() {
        m.text(ch);
    }
    assert_eq!(m.cmd_text(), "\n\n\nprog> 5/130");
    let out = m.press(Key::Return, false);
    assert_eq!(out, vec![send(0xB0, 0, 1), send(0xB0, 0x20, 2), send(0xC0, 5, 0)]);
    assert!(!m.cmd_mode());
    assert_eq!(m.patch(), (Some(5), Some(130)));
}

#[test]
fn music_box_command_channel() {
    let mut m = MusicBox::new();
    m.press(Key::Escape, false);
    for ch in "chan 9".chars() {
        m.text(ch);
    }
    assert_eq!(m.press(Key::Return, false), vec![]);
    assert_eq!(m.chan(), 9);
    m.press(Key::Escape, false);
    for ch in "chan 16".chars() {
        m.text(ch);
    }
    m.press(Key::Return, false);
    assert_eq!(m.chan(), 9);
    assert!(!m.cmd_mode());
}

#[test]
fn music_box_failed_command_stays_open() {
    let mut m = MusicBox::new();
    m.press(Key::Escape, false);
    for ch in "prog 999".chars() {
        m.text(ch);
    }
    assert_eq!(m.press(Key::Return, false), vec![]);
    assert!(m.cmd_mode());
    assert_eq!(m.cmd_text(), "\n\n\n> ");
    assert_eq!(m.press(Key::A, false), vec![]);
    m.press(Key::Escape, false);
    assert!(!m.cmd_mode());
}

#[test]
fn music_box_device_command() {
    let mut m = MusicBox::new();
    m.press(Key::Escape, false);
    let mut wants = false;
    for ch in "dev ".chars() {
        wants = m.text(ch);
    }
    assert!(wants);
    m.supply_devices(vec![device(7, "Synth", true)]);
    assert_eq!(m.press(Key::Return, false), vec![Effect::Open(device(7, "Synth", true))]);
    assert!(!m.cmd_mode());
}

#[test]
fn commander_space_then_backspace_restores_word() {
    let mut c = Commander::new();
    type_line(&mut c, "dev ");
    c.supply_devices(vec![device(0, "Midi Through", true)]);
    assert_eq!(c.text(), "Midi Through\n\n\ndev> ");
    type_line(&mut c, "\u{8}");
    assert_eq!(c.text(), "\n\n\n> dev");
    assert_eq!(c.emit(), None);
}

#[test]
fn music_box_release_without_press_sends_note_off() {
    let mut m = MusicBox::new();
    assert_eq!(m.release(Key::RControl), vec![send(0x80, 84, 64)]);
    assert_eq!(m.release(Key::F2), vec![]);
}

#[test]
fn commander_takes_devices_only_under_dev() {
    let mut c = Commander::new();
    type_line(&mut c, "chan 3");
    c.supply_devices(vec![device(0, "Midi Through", true)]);
    assert_eq!(c.text(), "\n\n\nchan> 3");
    assert_eq!(c.emit(), Some(Action::Chan(3)));
}

#[test]
fn commander_dev_never_hands_out_an_input() {
    let mut c = Commander::new();
    type_line(&mut c, "dev ");
    c.supply_devices(vec![device(1, "Keyboard In", false)]);
    assert_eq!(c.text(), "\n\n\ndev> ");
    assert_eq!(c.emit(), None);
}
