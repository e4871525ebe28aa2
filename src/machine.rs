//! The machine: three rotors, a reflector and a plugboard, stepped and
//! traversed once per letter.
use vstd::prelude::*;
use crate::alphabet::{
    char_to_u8, index_of, is_ascii_letter, is_table26, is_upper, lemma_letters_take, letter_of,
    letters, u8_to_char, upper_letter,
};
use crate::catalog::{
    lemma_reflector_wiring_is_involution, reflector_kind_named, reflector_label, reflector_wiring,
    rotor_label, ReflectorKind,
};
use crate::config::{config_error, ConfigError, EnigmaConfig};
use crate::plugboard::{plug_table, Plugboard};
use crate::reflector::Reflector;
use crate::rotor::{
    advanced, at_notch_spec, rotor_backward, rotor_forward, rotor_view_of, rotor_view_wf, Rotor,
    RotorView,
};

verus! {

/// Which way the signal passes a component.
#[derive(Clone, Copy, Debug, PartialEq, Eq, Structural)]
pub enum PathDirection {
    Forward,
    Reflect,
    Backward,
}

/// One stage of the signal path: a component and the letters in and out.
#[derive(Clone, Debug)]
pub struct PathEntry {
    pub component: String,
    pub input_char: char,
    pub output_char: char,
    pub direction: PathDirection,
}

/// Everything that happened to one letter: the letters in and out, the rotor
/// positions (slow, middle, fast) before and after stepping, and the nine
/// stages of the signal path.
#[derive(Debug)]
pub struct EncryptionStep {
    pub input_char: char,
    pub output_char: char,
    pub positions_before_step: (char, char, char),
    pub positions_after_step: (char, char, char),
    pub path: Vec<PathEntry>,
}

/// The state of a machine, as far as the cipher is concerned.
pub struct MachineView {
    pub fast: RotorView,
    pub middle: RotorView,
    pub slow: RotorView,
    pub reflector: ReflectorKind,
    pub plugboard: Seq<u8>,
}

pub open spec fn machine_view_wf(m: MachineView) -> bool {
    &&& rotor_view_wf(m.fast)
    &&& rotor_view_wf(m.middle)
    &&& rotor_view_wf(m.slow)
    &&& is_table26(m.plugboard)
}

/// The machine that a usable configuration describes.
pub open spec fn machine_of(c: EnigmaConfig) -> MachineView {
    MachineView {
        fast: rotor_view_of(c.rotors.0),
        middle: rotor_view_of(c.rotors.1),
        slow: rotor_view_of(c.rotors.2),
        reflector: reflector_kind_named(c.reflector@)->Some_0,
        plugboard: plug_table(letters(c.plugboard_pairs@)),
    }
}

/// One key press's stepping. Whether the fast and the middle rotor stand at
/// their notches is read first. The fast rotor always turns; the middle one
/// turns when the fast one stood at its notch; the slow one turns when both
/// stood at their notches.
pub open spec fn stepped(m: MachineView) -> MachineView {
    let fast_turns = at_notch_spec(m.fast);
    let middle_turns = at_notch_spec(m.middle);
    MachineView {
        fast: advanced(m.fast),
        middle: if fast_turns { advanced(m.middle) } else { m.middle },
        slow: if fast_turns && middle_turns { advanced(m.slow) } else { m.slow },
        reflector: m.reflector,
        plugboard: m.plugboard,
    }
}

/// The machine after `n` key presses.
pub open spec fn steps(m: MachineView, n: nat) -> MachineView
    decreases n,
{
    if n == 0 {
        m
    } else {
        stepped(steps(m, (n - 1) as nat))
    }
}

/// The ten letter indices that the signal for `x` takes, from the key to the
/// lamp, with the rotors standing as in `m`.
pub open spec fn signal_trace(m: MachineView, x: int) -> Seq<int> {
    let v1 = m.plugboard[x] as int;
    let v2 = rotor_forward(m.fast, v1);
    let v3 = rotor_forward(m.middle, v2);
    let v4 = rotor_forward(m.slow, v3);
    let v5 = reflector_wiring(m.reflector)[v4] as int;
    let v6 = rotor_backward(m.slow, v5);
    let v7 = rotor_backward(m.middle, v6);
    let v8 = rotor_backward(m.fast, v7);
    let v9 = m.plugboard[v8] as int;
    seq![x, v1, v2, v3, v4, v5, v6, v7, v8, v9]
}

/// From the key through plugboard and the rotors, fast first, to the reflector.
pub open spec fn inward(m: MachineView, x: int) -> int {
    rotor_forward(m.slow, rotor_forward(m.middle, rotor_forward(m.fast, m.plugboard[x] as int)))
}

/// From the reflector back through the rotors, slow first, and plugboard to the lamp.
pub open spec fn outward(m: MachineView, y: int) -> int {
    m.plugboard[rotor_backward(m.fast, rotor_backward(m.middle, rotor_backward(m.slow, y)))] as int
}

/// The letter index that lights up for key `x`, with the rotors as in `m`.
pub open spec fn encipher(m: MachineView, x: int) -> int {
    outward(m, reflector_wiring(m.reflector)[inward(m, x)] as int)
}

/// The component that stage `k` of the signal path passes.
pub open spec fn stage_label(m: MachineView, k: int) -> Seq<char> {
    if k == 0 || k == 8 {
        "Plugboard"@
    } else if k == 1 || k == 7 {
        rotor_label(m.fast.kind)
    } else if k == 2 || k == 6 {
        rotor_label(m.middle.kind)
    } else if k == 3 || k == 5 {
        rotor_label(m.slow.kind)
    } else {
        reflector_label(m.reflector)
    }
}

pub open spec fn stage_direction(k: int) -> PathDirection {
    if k < 4 {
        PathDirection::Forward
    } else if k == 4 {
        PathDirection::Reflect
    } else {
        PathDirection::Backward
    }
}

pub open spec fn entry_matches(e: PathEntry, m: MachineView, x: int, k: int) -> bool {
    &&& e.component@ == stage_label(m, k)
    &&& e.input_char == letter_of(signal_trace(m, x)[k])
    &&& e.output_char == letter_of(signal_trace(m, x)[k + 1])
    &&& e.direction == stage_direction(k)
}

/// Rotor positions as letters, slow first.
pub open spec fn positions_of(m: MachineView) -> (char, char, char) {
    (letter_of(m.slow.position), letter_of(m.middle.position), letter_of(m.fast.position))
}

/// `s` records pressing key `c` on a machine standing as in `m`.
pub open spec fn step_record_matches(s: EncryptionStep, m: MachineView, c: char) -> bool {
    let after = stepped(m);
    &&& s.input_char == c
    &&& s.output_char == letter_of(encipher(after, index_of(c)))
    &&& s.positions_before_step == positions_of(m)
    &&& s.positions_after_step == positions_of(after)
    &&& s.path@.len() == 9
    &&& forall|k: int| 0 <= k < 9 ==> #[trigger] entry_matches(s.path@[k], after, index_of(c), k)
}

/// The letters that light up when the uppercase letters `ls` are typed, one
/// key press each, on a machine that starts as `m`.
pub open spec fn cipher_text(m: MachineView, ls: Seq<char>) -> Seq<char> {
    Seq::new(ls.len(), |k: int| letter_of(encipher(steps(m, (k + 1) as nat), index_of(ls[k]))))
}

pub proof fn lemma_steps_wf(m: MachineView, n: nat)
    requires
        machine_view_wf(m),
    ensures
        machine_view_wf(steps(m, n)),
        steps(m, n).plugboard == m.plugboard,
        steps(m, n).reflector == m.reflector,
    decreases n,
{
    if n > 0 {
        lemma_steps_wf(m, (n - 1) as nat);
    }
}

/// Relies on String::push: appends one character at the end.
#[verifier::external_body]
fn push_char(s: &mut String, c: char)
    ensures
        final(s)@ == old(s)@.push(c),
{
    s.push(c);
}

fn path_entry(component: String, input: u8, output: u8, direction: PathDirection) -> (e: PathEntry)
    requires
        input < 26,
        output < 26,
    ensures
        e.component@ == component@,
        e.input_char == letter_of(input as int),
        e.output_char == letter_of(output as int),
        e.direction == direction,
{
    PathEntry { component, input_char: u8_to_char(input), output_char: u8_to_char(output), direction }
}

/// The machine: fast (right), middle and slow (left) rotors, a reflector and
/// a plugboard. Its rotor positions carry over from one call to the next.
pub struct EnigmaMachine {
    rotor_r: Rotor,
    rotor_m: Rotor,
    rotor_l: Rotor,
    reflector: Reflector,
    plugboard: Plugboard,
}

impl View for EnigmaMachine {
    type V = MachineView;

    closed spec fn view(&self) -> MachineView {
        MachineView {
            fast: self.rotor_r@,
            middle: self.rotor_m@,
            slow: self.rotor_l@,
            reflector: self.reflector@,
            plugboard: self.plugboard@,
        }
    }
}

impl EnigmaMachine {
    pub closed spec fn wf(&self) -> bool {
        &&& self.rotor_r.wf()
        &&& self.rotor_m.wf()
        &&& self.rotor_l.wf()
        &&& self.reflector.wf()
        &&& self.plugboard.wf()
    }

    pub proof fn lemma_wf(&self)
        requires
            self.wf(),
        ensures
            machine_view_wf(self@),
    {
        self.rotor_r.lemma_wf();
        self.rotor_m.lemma_wf();
        self.rotor_l.lemma_wf();
    }

    /// Builds a machine from a usable configuration.
    pub fn new(config: EnigmaConfig) -> (r: EnigmaMachine)
        requires
            config_error(config) is None,
        ensures
            r.wf(),
            r@ == machine_of(config),
    {
        let kind = match ReflectorKind::from_name(config.reflector.as_str()) {
            Some(k) => k,
            None => {
                // ruled out by the precondition
                assert(false);
                ReflectorKind::B
            },
        };
        EnigmaMachine {
            rotor_r: Rotor::new(&config.rotors.0),
            rotor_m: Rotor::new(&config.rotors.1),
            rotor_l: Rotor::new(&config.rotors.2),
            reflector: Reflector::new(kind),
            plugboard: Plugboard::new(config.plugboard_pairs.as_str()),
        }
    }

    /// Builds a machine, or says what is wrong with the configuration.
    pub fn try_new(config: EnigmaConfig) -> (r: Result<EnigmaMachine, ConfigError>)
        ensures
            r is Ok <==> config_error(config) is None,
            r is Ok ==> r->Ok_0.wf() && r->Ok_0@ == machine_of(config),
            r is Err ==> config_error(config) == Some(r->Err_0),
    {
        match config.check() {
            Err(e) => Err(e),
            Ok(()) => Ok(EnigmaMachine::new(config)),
        }
    }

    /// The rotor positions as letters: slow (left), middle, fast (right).
    pub fn get_positions(&self) -> (r: (char, char, char))
        requires
            self.wf(),
        ensures
            r == positions_of(self@),
    {
        (u8_to_char(self.rotor_l.position()), u8_to_char(self.rotor_m.position()), u8_to_char(self.rotor_r.position()))
    }

    /// Steps the rotors as one key press does, before the letter is enciphered.
    pub fn step_rotors(&mut self)
        requires
            old(self).wf(),
        ensures
            final(self).wf(),
            final(self)@ == stepped(old(self)@),
    {
        let m_steps = self.rotor_r.at_notch();
        let l_steps = self.rotor_m.at_notch();
        self.rotor_r.step();
        if m_steps {
            self.rotor_m.step();
            if l_steps {
                self.rotor_l.step();
            }
        }
    }

    /// Sends key `input` through the machine as it stands, recording each stage.
    #[verifier::rlimit(40)]
    fn signal_path(&self, input: u8) -> (r: (u8, Vec<PathEntry>))
        requires
            self.wf(),
            input < 26,
        ensures
            r.0 == encipher(self@, input as int),
            r.0 < 26,
            r.1@.len() == 9,
            forall|k: int| 0 <= k < 9 ==> #[trigger] entry_matches(r.1@[k], self@, input as int, k),
    {
        proof {
            self.lemma_wf();
            lemma_reflector_wiring_is_involution(self@.reflector);
        }
        let v1 = self.plugboard.process(input);
        let v2 = self.rotor_r.forward(v1);
        let v3 = self.rotor_m.forward(v2);
        let v4 = self.rotor_l.forward(v3);
        let v5 = self.reflector.reflect(v4);
        let v6 = self.rotor_l.backward(v5);
        let v7 = self.rotor_m.backward(v6);
        let v8 = self.rotor_r.backward(v7);
        let v9 = self.plugboard.process(v8);
        let ghost trace = signal_trace(self@, input as int);
        assert(trace =~= seq![input as int, v1 as int, v2 as int, v3 as int, v4 as int, v5 as int,
            v6 as int, v7 as int, v8 as int, v9 as int]);
        let mut path: Vec<PathEntry> = Vec::with_capacity(9);
        path.push(path_entry(String::from_str("Plugboard"), input, v1, PathDirection::Forward));
        path.push(path_entry(self.rotor_r.name(), v1, v2, PathDirection::Forward));
        path.push(path_entry(self.rotor_m.name(), v2, v3, PathDirection::Forward));
        path.push(path_entry(self.rotor_l.name(), v3, v4, PathDirection::Forward));
        path.push(path_entry(self.reflector.name(), v4, v5, PathDirection::Reflect));
        path.push(path_entry(self.rotor_l.name(), v5, v6, PathDirection::Backward));
        path.push(path_entry(self.rotor_m.name(), v6, v7, PathDirection::Backward));
        path.push(path_entry(self.rotor_r.name(), v7, v8, PathDirection::Backward));
        path.push(path_entry(String::from_str("Plugboard"), v8, v9, PathDirection::Backward));
        assert forall|k: int| 0 <= k < 9 implies #[trigger] entry_matches(path@[k], self@, input as int, k) by {
            if k == 0 {
            } else if k == 1 {
            } else if k == 2 {
            } else if k == 3 {
            } else if k == 4 {
            } else if k == 5 {
            } else if k == 6 {
            } else if k == 7 {
            } else {
            }
        }
        (v9, path)
    }

    /// Presses key `c`: steps the rotors, then sends the signal through
    /// plugboard, the three rotors, reflector, the rotors back and plugboard.
    /// Returns the lit letter and the record of every stage.
    pub fn process_char_detailed(&mut self, c: char) -> (r: (char, EncryptionStep))
        requires
            old(self).wf(),
            is_upper(c),
        ensures
            final(self).wf(),
            final(self)@ == stepped(old(self)@),
            r.0 == r.1.output_char,
            step_record_matches(r.1, old(self)@, c),
    {
        let input = char_to_u8(c);
        let positions_before = self.get_positions();
        self.step_rotors();
        let positions_after = self.get_positions();
        let (out, path) = self.signal_path(input);
        let output_char = u8_to_char(out);
        let step = EncryptionStep {
            input_char: c,
            output_char,
            positions_before_step: positions_before,
            positions_after_step: positions_after,
            path,
        };
        (output_char, step)
    }

    /// Enciphers `text`: ASCII letters, in either case, are typed one after
    /// the other; every other character is dropped and turns no rotor.
    /// Returns the lit letters. The rotors stay where the last letter left them.
    pub fn process_string(&mut self, text: &str) -> (r: String)
        requires
            old(self).wf(),
        ensures
            final(self).wf(),
            final(self)@ == steps(old(self)@, letters(text@).len()),
            r@ == cipher_text(old(self)@, letters(text@)),
    {
        broadcast use vstd::string::group_string_axioms;
        let ghost start = self@;
        let mut out = String::new();
        for c in it: text.chars()
            invariant
                it.seq() == text@,
                self.wf(),
                self@ == steps(start, letters(text@.take(it.index() as int)).len()),
                out@ == cipher_text(start, letters(text@.take(it.index() as int))),
        {
            proof {
                lemma_letters_take(text@, it.index() as int);
            }
            let ghost before = letters(text@.take(it.index() as int));
            if is_ascii_letter(c) {
                let u = upper_letter(c);
                let (lit, _) = self.process_char_detailed(u);
                push_char(&mut out, lit);
                assert(out@ =~= cipher_text(start, before.push(u)));
            }
        }
        assert(text@.take(text@.len() as int) =~= text@);
        out
    }

    /// Like `process_string`, but returns the full record of each typed letter.
    pub fn process_string_detailed(&mut self, text: &str) -> (r: Vec<EncryptionStep>)
        requires
            old(self).wf(),
        ensures
            final(self).wf(),
            final(self)@ == steps(old(self)@, letters(text@).len()),
            r@.len() == letters(text@).len(),
            forall|k: int| 0 <= k < r@.len() ==> #[trigger] step_record_matches(
                r@[k],
                steps(old(self)@, k as nat),
                letters(text@)[k],
            ),
    {
        broadcast use vstd::string::group_string_axioms;
        let ghost start = self@;
        let mut out: Vec<EncryptionStep> = Vec::new();
        for c in it: text.chars()
            invariant
                it.seq() == text@,
                self.wf(),
                self@ == steps(start, letters(text@.take(it.index() as int)).len()),
                out@.len() == letters(text@.take(it.index() as int)).len(),
                forall|k: int| 0 <= k < out@.len() ==> #[trigger] step_record_matches(
                    out@[k],
                    steps(start, k as nat),
                    letters(text@.take(it.index() as int))[k],
                ),
        {
            proof {
                lemma_letters_take(text@, it.index() as int);
            }
            let ghost before = letters(text@.take(it.index() as int));
            if is_ascii_letter(c) {
                let u = upper_letter(c);
                let (_, step) = self.process_char_detailed(u);
                let ghost prev = out@;
                out.push(step);
                assert forall|k: int| 0 <= k < out@.len() implies #[trigger] step_record_matches(
                    out@[k],
                    steps(start, k as nat),
                    before.push(u)[k],
                ) by {
                    if k < before.len() {
                        assert(out@[k] == prev[k]);
                    }
                }
            }
        }
        assert(text@.take(text@.len() as int) =~= text@);
        out
    }
}

} // verus!
