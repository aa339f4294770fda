use vstd::prelude::*;
use crate::text::{chars_of, contains, has_infix, parse_decimal, parse_range, string_from};

verus! {

/// The commands that the command line knows.
#[derive(Clone, Copy, Debug, PartialEq, Eq, Structural)]
pub enum Cmd {
    Dev,
    Chan,
    Prog,
}

/// The word that starts a command.
pub open spec fn cmd_name(c: Cmd) -> Seq<char> {
    match c {
        Cmd::Dev => seq!['d', 'e', 'v'],
        Cmd::Chan => seq!['c', 'h', 'a', 'n'],
        Cmd::Prog => seq!['p', 'r', 'o', 'g'],
    }
}

/// The command that the word `s` starts, if any.
pub open spec fn cmd_named(s: Seq<char>) -> Option<Cmd> {
    if s == cmd_name(Cmd::Dev) {
        Some(Cmd::Dev)
    } else if s == cmd_name(Cmd::Chan) {
        Some(Cmd::Chan)
    } else if s == cmd_name(Cmd::Prog) {
        Some(Cmd::Prog)
    } else {
        None
    }
}

/// A MIDI device as the system lists it.
#[derive(Debug, PartialEq, Eq)]
pub struct Device {
    pub id: i32,
    pub name: String,
    pub output: bool,
}

/// What a confirmed command asks for.
#[derive(Debug, PartialEq, Eq)]
pub enum Action {
    Device(Device),
    Chan(u8),
    Patch(Option<u8>, Option<u16>),
}

/// The state of the command line: the text typed since the command word, the
/// command word once one was recognised, and the devices that still match.
pub struct CmdState {
    pub input: Seq<char>,
    pub current: Option<Cmd>,
    pub devs: Option<Seq<Device>>,
}

/// The command line after the edit that `ch` makes, before a command sees it.
pub open spec fn edited(s: CmdState, ch: char) -> CmdState {
    if ch == '\u{8}' {
        if s.input.len() == 0 && s.current is Some {
            CmdState { input: cmd_name(s.current->0), current: None, devs: None }
        } else if s.input.len() > 0 {
            CmdState { input: s.input.drop_last(), current: s.current, devs: s.devs }
        } else {
            s
        }
    } else if ch == ' ' && s.current is None {
        match cmd_named(s.input) {
            Some(c) => CmdState { input: Seq::empty(), current: Some(c), devs: s.devs },
            None => s,
        }
    } else if ch > ' ' {
        CmdState { input: s.input.push(ch), current: s.current, devs: s.devs }
    } else {
        s
    }
}

/// Whether the command at hand looks at the line after `ch`: a backspace and
/// the control characters leave it be.
pub open spec fn runs_command(s: CmdState, ch: char) -> bool {
    ch != '\u{8}' && ((ch == ' ' && s.current is None) || ch > ' ')
}

/// Whether the name of a device holds `input`.
pub open spec fn name_holds(input: Seq<char>) -> spec_fn(Device) -> bool {
    |d: Device| has_infix(d.name@, input)
}

/// Whether a device can take output.
pub open spec fn is_output() -> spec_fn(Device) -> bool {
    |d: Device| d.output
}

/// The device command keeps the listed devices whose names hold the input.
pub open spec fn narrowed(s: CmdState) -> CmdState {
    if s.current == Some(Cmd::Dev) && s.devs is Some {
        CmdState {
            input: s.input,
            current: s.current,
            devs: Some(s.devs->0.filter(name_holds(s.input))),
        }
    } else {
        s
    }
}

/// The command line after the character `ch` was typed.
pub open spec fn after_feed(s: CmdState, ch: char) -> CmdState {
    if runs_command(s, ch) {
        narrowed(edited(s, ch))
    } else {
        edited(s, ch)
    }
}

/// Whether, after `ch`, the device command waits for the list of devices.
pub open spec fn wants_devices(s: CmdState, ch: char) -> bool {
    runs_command(s, ch) && edited(s, ch).current == Some(Cmd::Dev) && edited(s, ch).devs is None
}

/// The devices of `all` that can take output.
pub open spec fn outputs(all: Seq<Device>) -> Seq<Device> {
    all.filter(is_output())
}

/// Whether a command line is consistent: a device list stands only under the
/// device command, and it lists only devices that take output.
pub open spec fn cmd_wf(s: CmdState) -> bool {
    &&& s.devs is Some ==> s.current == Some(Cmd::Dev)
    &&& s.devs matches Some(d) ==> forall|i: int| 0 <= i < d.len() ==> (#[trigger] d[i]).output
}

proof fn lemma_filter_keeps<A>(s: Seq<A>, p: spec_fn(A) -> bool, q: spec_fn(A) -> bool)
    requires
        forall|i: int| 0 <= i < s.len() ==> q(#[trigger] s[i]),
    ensures
        forall|i: int| 0 <= i < s.filter(p).len() ==> q(#[trigger] s.filter(p)[i]),
    decreases s.len(),
{
    reveal(Seq::filter);
    if s.len() > 0 {
        let t = s.drop_last();
        assert forall|i: int| 0 <= i < t.len() implies q(#[trigger] t[i]) by {
            assert(t[i] == s[i]);
        }
        lemma_filter_keeps(t, p, q);
        let f = s.filter(p);
        let g = t.filter(p);
        assert(f == if p(s.last()) {
            g.push(s.last())
        } else {
            g
        });
        assert forall|i: int| 0 <= i < f.len() implies q(#[trigger] f[i]) by {
            if i < g.len() {
                assert(f[i] == g[i]);
            } else {
                assert(q(s[s.len() - 1]));
            }
        }
    }
}

proof fn lemma_narrowed_wf(s: CmdState)
    requires
        cmd_wf(s),
    ensures
        cmd_wf(narrowed(s)),
{
    if s.current == Some(Cmd::Dev) && s.devs is Some {
        let d = s.devs->0;
        lemma_filter_keeps(d, name_holds(s.input), is_output());
    }
}

proof fn lemma_outputs_wf(all: Seq<Device>)
    ensures
        forall|i: int| 0 <= i < outputs(all).len() ==> (#[trigger] outputs(all)[i]).output,
{
    assert forall|i: int| 0 <= i < outputs(all).len() implies (#[trigger] outputs(all)[i]).output by {
        all.lemma_filter_pred(is_output(), i);
    }
}

proof fn lemma_filter_step<A>(s: Seq<A>, k: int, p: spec_fn(A) -> bool)
    requires
        0 <= k < s.len(),
    ensures
        s.subrange(0, k + 1).filter(p) == if p(s[k]) {
            s.subrange(0, k).filter(p).push(s[k])
        } else {
            s.subrange(0, k).filter(p)
        },
{
    reveal(Seq::filter);
    assert(s.subrange(0, k + 1).drop_last() =~= s.subrange(0, k));
}

fn keep_named(v: Vec<Device>, input: &Vec<char>) -> (r: Vec<Device>)
    ensures
        r@ == v@.filter(name_holds(input@)),
{
    let ghost all = v@;
    let ghost p = name_holds(input@);
    let mut rest = v;
    let mut kept: Vec<Device> = Vec::new();
    while rest.len() > 0
        invariant
            p == name_holds(input@),
            rest@.len() <= all.len(),
            rest@ == all.subrange(all.len() - rest@.len(), all.len() as int),
            kept@ == all.subrange(0, all.len() - rest@.len()).filter(p),
        decreases rest@.len(),
    {
        let ghost k = all.len() - rest@.len();
        let d = rest.remove(0);
        proof {
            lemma_filter_step(all, k, p);
        }
        let name = chars_of(&d.name);
        if contains(&name, input) {
            kept.push(d);
        }
        assert(rest@ =~= all.subrange(all.len() - rest@.len(), all.len() as int));
    }
    assert(all.subrange(0, all.len() as int) =~= all);
    kept
}

fn keep_outputs(v: Vec<Device>) -> (r: Vec<Device>)
    ensures
        r@ == outputs(v@),
{
    let ghost all = v@;
    let ghost p = is_output();
    let mut rest = v;
    let mut kept: Vec<Device> = Vec::new();
    while rest.len() > 0
        invariant
            p == is_output(),
            rest@.len() <= all.len(),
            rest@ == all.subrange(all.len() - rest@.len(), all.len() as int),
            kept@ == all.subrange(0, all.len() - rest@.len()).filter(p),
        decreases rest@.len(),
    {
        let ghost k = all.len() - rest@.len();
        let d = rest.remove(0);
        proof {
            lemma_filter_step(all, k, p);
        }
        if d.output {
            kept.push(d);
        }
        assert(rest@ =~= all.subrange(all.len() - rest@.len(), all.len() as int));
    }
    assert(all.subrange(0, all.len() as int) =~= all);
    kept
}

/// Where the slash-separated field of `s` that starts at `from` ends.
pub open spec fn field_end(s: Seq<char>, from: int) -> int
    decreases s.len() - from,
{
    if from < 0 || from >= s.len() {
        s.len() as int
    } else if s[from] == '/' {
        from
    } else {
        field_end(s, from + 1)
    }
}

/// The program number that a `prog` line names: its first field, if that
/// is a number that fits a byte.
pub open spec fn prog_patch(s: Seq<char>) -> Option<int> {
    parse_decimal(s.subrange(0, field_end(s, 0)), 255)
}

/// The bank number that a `prog` line names: its second field, if there is
/// one and it is a number that fits 16 bits.
pub open spec fn prog_bank(s: Seq<char>) -> Option<int> {
    let e = field_end(s, 0);
    if e < s.len() {
        parse_decimal(s.subrange(e + 1, field_end(s, e + 1)), 65535)
    } else {
        None
    }
}

/// The program change that a patch and a bank ask for: each must be in the
/// range that MIDI can send, and at least one must be given.
pub open spec fn patch_action(p: Option<int>, b: Option<int>) -> Option<Action> {
    match (p, b) {
        (Some(p), None) => if p < 128 {
            Some(Action::Patch(Some(p as u8), None))
        } else {
            None
        },
        (None, Some(b)) => if b < 16384 {
            Some(Action::Patch(None, Some(b as u16)))
        } else {
            None
        },
        (Some(p), Some(b)) => if p < 128 && b < 16384 {
            Some(Action::Patch(Some(p as u8), Some(b as u16)))
        } else {
            None
        },
        (None, None) => None,
    }
}

/// The action that confirming the line `s` gives.
pub open spec fn emitted(s: CmdState) -> Option<Action> {
    match s.current {
        Some(Cmd::Dev) => match s.devs {
            Some(d) => if d.len() > 0 {
                Some(Action::Device(d[0]))
            } else {
                None
            },
            None => None,
        },
        Some(Cmd::Chan) => match parse_decimal(s.input, 255) {
            Some(n) => Some(Action::Chan(n as u8)),
            None => None,
        },
        Some(Cmd::Prog) => patch_action(prog_patch(s.input), prog_bank(s.input)),
        None => None,
    }
}

/// The line of the device list at row `i`: the name of the device there, if any.
pub open spec fn list_line(d: Seq<Device>, i: int) -> Seq<char> {
    (if i < d.len() {
        d[i].name@
    } else {
        Seq::empty()
    }).push('\n')
}

/// Three lines above the prompt: the first devices that match, or nothing.
pub open spec fn listing(devs: Option<Seq<Device>>) -> Seq<char> {
    match devs {
        Some(d) => list_line(d, 0) + list_line(d, 1) + list_line(d, 2),
        None => seq!['\n', '\n', '\n'],
    }
}

/// The prompt: the command word, if any, then `> ` and the input.
pub open spec fn prompt(s: CmdState) -> Seq<char> {
    match s.current {
        Some(c) => cmd_name(c) + seq!['>', ' '] + s.input,
        None => seq!['>', ' '] + s.input,
    }
}

/// What the command line shows.
pub open spec fn shown(s: CmdState) -> Seq<char> {
    listing(s.devs) + prompt(s)
}

/// The state of an empty command line.
pub open spec fn blank() -> CmdState {
    CmdState { input: Seq::empty(), current: None, devs: None }
}

/// A space after a command word starts the command, and a backspace right
/// after it gives the word back to edit, with no device list.
pub proof fn lemma_space_then_backspace(s: CmdState, c: Cmd)
    requires
        s.current is None,
        s.input == cmd_name(c),
    ensures
        after_feed(after_feed(s, ' '), '\u{8}') == (CmdState { input: cmd_name(c), current: None, devs: None }),
        after_feed(s, ' ').current == Some(c),
        after_feed(s, ' ').input.len() == 0,
{
}

/// A line editor that reads the commands `dev`, `chan` and `prog`.
pub struct Commander {
    input: Vec<char>,
    current: Option<Cmd>,
    devs: Option<Vec<Device>>,
}

impl View for Commander {
    type V = CmdState;

    closed spec fn view(&self) -> CmdState {
        CmdState {
            input: self.input@,
            current: self.current,
            devs: match self.devs {
                Some(d) => Some(d@),
                None => None,
            },
        }
    }
}

fn name_of(c: Cmd) -> (r: Vec<char>)
    ensures
        r@ == cmd_name(c),
{
    let r = match c {
        Cmd::Dev => vec!['d', 'e', 'v'],
        Cmd::Chan => vec!['c', 'h', 'a', 'n'],
        Cmd::Prog => vec!['p', 'r', 'o', 'g'],
    };
    assert(r@ =~= cmd_name(c));
    r
}

fn same_chars(a: &Vec<char>, b: &Vec<char>) -> (r: bool)
    ensures
        r == (a@ == b@),
{
    if a.len() != b.len() {
        return false;
    }
    let mut i: usize = 0;
    while i < a.len()
        invariant
            a@.len() == b@.len(),
            i <= a@.len(),
            forall|k: int| 0 <= k < i ==> a@[k] == b@[k],
        decreases a@.len() - i,
    {
        if a[i] != b[i] {
            return false;
        }
        i = i + 1;
    }
    assert(a@ =~= b@);
    true
}

fn command_named(s: &Vec<char>) -> (r: Option<Cmd>)
    ensures
        r == cmd_named(s@),
{
    if same_chars(s, &name_of(Cmd::Dev)) {
        Some(Cmd::Dev)
    } else if same_chars(s, &name_of(Cmd::Chan)) {
        Some(Cmd::Chan)
    } else if same_chars(s, &name_of(Cmd::Prog)) {
        Some(Cmd::Prog)
    } else {
        None
    }
}

fn field_end_at(s: &Vec<char>, from: usize) -> (r: usize)
    requires
        from <= s@.len(),
    ensures
        r == field_end(s@, from as int),
        from <= r <= s@.len(),
{
    let mut i = from;
    while i < s.len() && s[i] != '/'
        invariant
            from <= i <= s@.len(),
            field_end(s@, from as int) == field_end(s@, i as int),
        decreases s@.len() - i,
    {
        i = i + 1;
    }
    i
}

fn push_all(out: &mut Vec<char>, s: &Vec<char>)
    ensures
        final(out)@ == old(out)@ + s@,
{
    let mut i: usize = 0;
    while i < s.len()
        invariant
            i <= s@.len(),
            out@ == old(out)@ + s@.subrange(0, i as int),
        decreases s@.len() - i,
    {
        out.push(s[i]);
        i = i + 1;
        assert(out@ =~= old(out)@ + s@.subrange(0, i as int));
    }
    assert(s@.subrange(0, i as int) =~= s@);
}

impl Commander {
    /// The command line is consistent.
    pub open spec fn wf(&self) -> bool {
        cmd_wf(self@)
    }

    /// An empty command line.
    pub fn new() -> (r: Commander)
        ensures
            r.wf(),
            r@ == blank(),
    {
        let r = Commander { input: Vec::new(), current: None, devs: None };
        assert(r@.input =~= Seq::<char>::empty());
        r
    }

    /// Types `ch`: a backspace takes back a character, or the command word
    /// when the input is empty; a space after a command word starts that
    /// command; other printable characters are added. The result tells
    /// whether the device command now waits for `supply_devices`.
    pub fn feed(&mut self, ch: char) -> (wants: bool)
        requires
            old(self).wf(),
        ensures
            final(self).wf(),
            final(self)@ == after_feed(old(self)@, ch),
            wants == wants_devices(old(self)@, ch),
    {
        if ch == '\u{8}' {
            if self.input.len() == 0 && self.current.is_some() {
                let c = self.current.unwrap();
                self.input = name_of(c);
                self.current = None;
                self.devs = None;
            } else if self.input.len() > 0 {
                self.input.pop();
                assert(self@.input =~= old(self)@.input.drop_last());
            }
            return false;
        } else if ch == ' ' && self.current.is_none() {
            match command_named(&self.input) {
                Some(c) => {
                    self.input = Vec::new();
                    self.current = Some(c);
                    assert(self@.input =~= Seq::<char>::empty());
                },
                None => {},
            }
        } else if ch > ' ' {
            self.input.push(ch);
        } else {
            return false;
        }
        assert(self@ == edited(old(self)@, ch));
        proof {
            lemma_narrowed_wf(self@);
        }
        self.narrow()
    }

    fn narrow(&mut self) -> (wants: bool)
        ensures
            final(self)@ == narrowed(old(self)@),
            wants == (old(self)@.current == Some(Cmd::Dev) && old(self)@.devs is None),
    {
        match self.current {
            Some(Cmd::Dev) => {},
            _ => {
                return false;
            },
        }
        match self.devs.take() {
            Some(d) => {
                self.devs = Some(keep_named(d, &self.input));
                false
            },
            None => true,
        }
    }

    /// Hands the device command the devices of the system: it lists those
    /// that take output. Outside the device command the list is not wanted
    /// and the line stays as it is.
    pub fn supply_devices(&mut self, all: Vec<Device>)
        requires
            old(self).wf(),
        ensures
            final(self).wf(),
            old(self)@.current == Some(Cmd::Dev) ==> final(self)@ == (CmdState {
                input: old(self)@.input,
                current: old(self)@.current,
                devs: Some(outputs(all@)),
            }),
            old(self)@.current != Some(Cmd::Dev) ==> final(self)@ == old(self)@,
    {
        match self.current {
            Some(Cmd::Dev) => {
                proof {
                    lemma_outputs_wf(all@);
                }
                self.devs = Some(keep_outputs(all));
            },
            _ => {},
        }
    }

    /// Confirms the line: the action that it asks for, if it is complete and
    /// valid. The line is empty afterwards either way.
    pub fn emit(&mut self) -> (r: Option<Action>)
        requires
            old(self).wf(),
        ensures
            r == emitted(old(self)@),
            r matches Some(Action::Device(d)) ==> d.output,
            final(self).wf(),
            final(self)@ == blank(),
    {
        let act = match self.current {
            Some(Cmd::Dev) => match self.devs.take() {
                Some(mut d) => if d.len() > 0 {
                    assert(old(self)@.devs == Some(d@));
                    Some(Action::Device(d.remove(0)))
                } else {
                    None
                },
                None => None,
            },
            Some(Cmd::Chan) => {
                assert(self.input@.subrange(0, self.input@.len() as int) =~= self.input@);
                let n = parse_range(&self.input, 0, self.input.len(), 255);
                assert(n == match parse_decimal(old(self)@.input, 255) {
                    Some(v) => Some(v as u32),
                    None => None,
                });
                match n {
                    Some(n) => Some(Action::Chan(n as u8)),
                    None => None,
                }
            },
            Some(Cmd::Prog) => self.prog_action(),
            None => None,
        };
        self.input = Vec::new();
        self.devs = None;
        self.current = None;
        assert(self@.input =~= Seq::<char>::empty());
        act
    }

    fn prog_action(&self) -> (r: Option<Action>)
        ensures
            r == patch_action(prog_patch(self@.input), prog_bank(self@.input)),
    {
        let s = &self.input;
        let e = field_end_at(s, 0);
        let patch = match parse_range(s, 0, e, 255) {
            Some(p) => Some(p as u8),
            None => None,
        };
        assert(patch == match prog_patch(s@) {
            Some(v) => Some(v as u8),
            None => None,
        });
        let bank = if e < s.len() {
            let e2 = field_end_at(s, e + 1);
            match parse_range(s, e + 1, e2, 65535) {
                Some(b) => Some(b as u16),
                None => None,
            }
        } else {
            None
        };
        assert(bank == match prog_bank(s@) {
            Some(v) => Some(v as u16),
            None => None,
        });
        match (patch, bank) {
            (Some(p), None) => if p < 128 {
                Some(Action::Patch(Some(p), None))
            } else {
                None
            },
            (None, Some(b)) => if b < 16384 {
                Some(Action::Patch(None, Some(b)))
            } else {
                None
            },
            (Some(p), Some(b)) => if p < 128 && b < 16384 {
                Some(Action::Patch(Some(p), Some(b)))
            } else {
                None
            },
            (None, None) => None,
        }
    }

    /// What the command line shows: three lines of matching devices and the
    /// prompt with what was typed.
    pub fn text(&self) -> (r: String)
        ensures
            r@ == shown(self@),
    {
        let mut out: Vec<char> = Vec::new();
        match &self.devs {
            Some(d) => {
                let mut i: usize = 0;
                while i < 3
                    invariant
                        i <= 3,
                        self.devs == Some(*d),
                        out@ == (if i == 0 {
                            Seq::empty()
                        } else if i == 1 {
                            list_line(d@, 0)
                        } else if i == 2 {
                            list_line(d@, 0) + list_line(d@, 1)
                        } else {
                            list_line(d@, 0) + list_line(d@, 1) + list_line(d@, 2)
                        }),
                    decreases 3 - i,
                {
                    if i < d.len() {
                        push_all(&mut out, &chars_of(&d[i].name));
                    }
                    out.push('\n');
                    i = i + 1;
                    assert(out@ =~= (if i == 1 {
                        list_line(d@, 0)
                    } else if i == 2 {
                        list_line(d@, 0) + list_line(d@, 1)
                    } else {
                        list_line(d@, 0) + list_line(d@, 1) + list_line(d@, 2)
                    }));
                }
            },
            None => {
                out.push('\n');
                out.push('\n');
                out.push('\n');
            },
        }
        assert(out@ =~= listing(self@.devs));
        match self.current {
            Some(c) => push_all(&mut out, &name_of(c)),
            None => {},
        }
        out.push('>');
        out.push(' ');
        push_all(&mut out, &self.input);
        assert(out@ =~= shown(self@));
        string_from(&out)
    }
}

} // verus!
