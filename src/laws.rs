//! Properties of the machine as a whole, proved over the model.
use vstd::prelude::*;
use crate::alphabet::{
    are_inverse26, index_of, is_alpha, is_fixed_point_free_involution26, is_permutation26, is_upper,
    lemma_inverse_gives_permutation, lemma_letters_are_upper, letters,
};
use crate::catalog::{
    lemma_reflector_wiring_is_involution, lemma_rotor_wiring_has_inverse, reflector_wiring,
    rotor_inverse, rotor_wiring, ReflectorKind, RotorKind,
};
use crate::config::{config_error, EnigmaConfig, RotorConfig};
use crate::machine::{
    cipher_text, encipher, inward, machine_of, machine_view_wf, outward, stepped, steps,
    MachineView,
};
use crate::plugboard::{lemma_plug_table_involution, lemma_plug_table_is_table, pairs_disjoint, plug_table};
use crate::rotor::{at_notch_spec, lemma_rotor_round_trip, rotor_backward, rotor_forward};

verus! {

/// Every wiring table of the catalog, every inverse rotor table, and every
/// plugboard table in which no letter is in two pairs maps the 26 letters one
/// to one onto themselves.
pub proof fn law_tables_are_bijections(rotor: RotorKind, reflector: ReflectorKind, pairs: Seq<char>)
    requires
        pairs_disjoint(letters(pairs)),
    ensures
        is_permutation26(rotor_wiring(rotor)),
        is_permutation26(rotor_inverse(rotor)),
        is_permutation26(reflector_wiring(reflector)),
        is_permutation26(plug_table(letters(pairs))),
{
    lemma_rotor_wiring_has_inverse(rotor);
    lemma_inverse_gives_permutation(rotor_wiring(rotor), rotor_inverse(rotor));
    lemma_reflector_wiring_is_involution(reflector);
    lemma_letters_are_upper(pairs);
    lemma_plug_table_involution(letters(pairs));
    lemma_inverse_gives_permutation(plug_table(letters(pairs)), plug_table(letters(pairs)));
}

/// Reflectors undo themselves and move every letter; a plugboard in which no
/// letter is in two pairs undoes itself.
pub proof fn law_involutions(reflector: ReflectorKind, pairs: Seq<char>)
    requires
        pairs_disjoint(letters(pairs)),
    ensures
        is_fixed_point_free_involution26(reflector_wiring(reflector)),
        are_inverse26(plug_table(letters(pairs)), plug_table(letters(pairs))),
{
    lemma_reflector_wiring_is_involution(reflector);
    lemma_letters_are_upper(pairs);
    lemma_plug_table_involution(letters(pairs));
}

pub proof fn lemma_machine_of_wf(config: EnigmaConfig)
    requires
        config_error(config) is None,
    ensures
        machine_view_wf(machine_of(config)),
{
    lemma_letters_are_upper(config.plugboard_pairs@);
    lemma_plug_table_is_table(letters(config.plugboard_pairs@));
}

proof fn lemma_inward_outward(m: MachineView, x: int)
    requires
        machine_view_wf(m),
        are_inverse26(m.plugboard, m.plugboard),
        0 <= x < 26,
    ensures
        0 <= inward(m, x) < 26,
        0 <= outward(m, x) < 26,
        outward(m, inward(m, x)) == x,
        inward(m, outward(m, x)) == x,
{
    let p1 = m.plugboard[x] as int;
    lemma_rotor_round_trip(m.fast, p1);
    let f1 = rotor_forward(m.fast, p1);
    lemma_rotor_round_trip(m.middle, f1);
    let f2 = rotor_forward(m.middle, f1);
    lemma_rotor_round_trip(m.slow, f2);
    lemma_rotor_round_trip(m.slow, x);
    let b1 = rotor_backward(m.slow, x);
    lemma_rotor_round_trip(m.middle, b1);
    let b2 = rotor_backward(m.middle, b1);
    lemma_rotor_round_trip(m.fast, b2);
    let b3 = rotor_backward(m.fast, b2);
    assert(m.plugboard[m.plugboard[b3] as int] == b3);
}

/// With the rotors standing still and a plugboard that undoes itself, the letter that lights up for `x` lights
/// up `x` again.
pub proof fn lemma_encipher_involution(m: MachineView, x: int)
    requires
        machine_view_wf(m),
        are_inverse26(m.plugboard, m.plugboard),
        0 <= x < 26,
    ensures
        0 <= encipher(m, x) < 26,
        encipher(m, encipher(m, x)) == x,
{
    let r = reflector_wiring(m.reflector);
    lemma_reflector_wiring_is_involution(m.reflector);
    lemma_inward_outward(m, x);
    let i = inward(m, x);
    let y = r[i] as int;
    lemma_inward_outward(m, y);
    let e = outward(m, y);
    assert(inward(m, e) == y);
    assert(r[y] == i);
    lemma_inward_outward(m, i);
}

proof fn lemma_letters_of_upper(s: Seq<char>)
    requires
        forall|k: int| 0 <= k < s.len() ==> #[trigger] is_upper(s[k]),
    ensures
        letters(s) == s,
    decreases s.len(),
{
    if s.len() > 0 {
        assert forall|k: int| 0 <= k < s.drop_last().len() implies #[trigger] is_upper(s.drop_last()[k]) by {
            assert(s.drop_last()[k] == s[k]);
        }
        lemma_letters_of_upper(s.drop_last());
        assert(is_upper(s[s.len() - 1]));
        assert(s.drop_last().push(s.last()) =~= s);
    }
}

proof fn lemma_cipher_text_at(m: MachineView, ls: Seq<char>, k: int)
    requires
        machine_view_wf(m),
        are_inverse26(m.plugboard, m.plugboard),
        0 <= k < ls.len(),
        is_upper(ls[k]),
    ensures
        is_upper(cipher_text(m, ls)[k]),
        index_of(cipher_text(m, ls)[k]) == encipher(steps(m, (k + 1) as nat), index_of(ls[k])),
        encipher(steps(m, (k + 1) as nat), index_of(cipher_text(m, ls)[k])) == index_of(ls[k]),
{
    crate::machine::lemma_steps_wf(m, (k + 1) as nat);
    lemma_encipher_involution(steps(m, (k + 1) as nat), index_of(ls[k]));
}

/// Deciphering on a machine set up as the enciphering one started gives back
/// the typed letters, upper-cased, with everything else dropped, provided no
/// letter is in two plugboard pairs.
pub proof fn law_reciprocity(config: EnigmaConfig, text: Seq<char>)
    requires
        config_error(config) is None,
        pairs_disjoint(letters(config.plugboard_pairs@)),
    ensures
        cipher_text(machine_of(config), letters(cipher_text(machine_of(config), letters(text))))
            == letters(text),
{
    let m = machine_of(config);
    let ls = letters(text);
    let ct = cipher_text(m, ls);
    lemma_machine_of_wf(config);
    lemma_letters_are_upper(config.plugboard_pairs@);
    lemma_plug_table_involution(letters(config.plugboard_pairs@));
    lemma_letters_are_upper(text);
    assert forall|k: int| 0 <= k < ct.len() implies #[trigger] is_upper(ct[k]) by {
        lemma_cipher_text_at(m, ls, k);
    }
    lemma_letters_of_upper(ct);
    let back = cipher_text(m, ct);
    assert forall|k: int| 0 <= k < ls.len() implies back[k] == ls[k] by {
        lemma_cipher_text_at(m, ls, k);
    }
    assert(back =~= ls);
}

/// The two configurations say the same thing, field by field.
pub open spec fn same_rotor_config(a: RotorConfig, b: RotorConfig) -> bool {
    a.name@ == b.name@ && a.position == b.position && a.ring == b.ring
}

pub open spec fn same_config(a: EnigmaConfig, b: EnigmaConfig) -> bool {
    &&& same_rotor_config(a.rotors.0, b.rotors.0)
    &&& same_rotor_config(a.rotors.1, b.rotors.1)
    &&& same_rotor_config(a.rotors.2, b.rotors.2)
    &&& a.reflector@ == b.reflector@
    &&& a.plugboard_pairs@ == b.plugboard_pairs@
}

/// Machines built from configurations that say the same thing start alike,
/// and so produce the same letters and the same records for the same text.
pub proof fn law_determinism(a: EnigmaConfig, b: EnigmaConfig, text: Seq<char>)
    requires
        same_config(a, b),
    ensures
        config_error(a) == config_error(b),
        machine_of(a) == machine_of(b),
        cipher_text(machine_of(a), letters(text)) == cipher_text(machine_of(b), letters(text)),
        steps(machine_of(a), letters(text).len()) == steps(machine_of(b), letters(text).len()),
{
}

proof fn lemma_letters_concat(a: Seq<char>, b: Seq<char>)
    ensures
        letters(a + b) == letters(a) + letters(b),
    decreases b.len(),
{
    if b.len() == 0 {
        assert(a + b =~= a);
        assert(letters(a) + letters(b) =~= letters(a));
    } else {
        lemma_letters_concat(a, b.drop_last());
        assert((a + b).drop_last() =~= a + b.drop_last());
        assert((a + b).last() == b.last());
        if is_alpha(b.last()) {
            assert(letters(a) + letters(b) =~= (letters(a) + letters(b.drop_last())).push(
                crate::alphabet::to_upper(b.last()),
            ));
        }
    }
}

/// A character that is not an ASCII letter, wherever it stands in the text,
/// changes neither the letters typed nor, therefore, the output or how far
/// the rotors turn.
pub proof fn law_non_letters_ignored(text: Seq<char>, i: int, c: char)
    requires
        !is_alpha(c),
        0 <= i <= text.len(),
    ensures
        letters(text.insert(i, c)) == letters(text),
{
    let a = text.take(i);
    let b = text.skip(i);
    assert(text.insert(i, c) =~= (a + seq![c]) + b);
    assert(text =~= a + b);
    lemma_letters_concat(a + seq![c], b);
    lemma_letters_concat(a, seq![c]);
    lemma_letters_concat(a, b);
    assert(seq![c].drop_last() =~= Seq::<char>::empty());
    assert(seq![c].last() == c);
    assert(letters(Seq::<char>::empty()) =~= Seq::<char>::empty());
    assert(letters(seq![c]) == letters(seq![c].drop_last()));
    assert(letters(seq![c]) =~= Seq::<char>::empty());
    assert(letters(a) + letters(seq![c]) =~= letters(a));
}

/// On every key press the fast rotor turns; the middle one turns exactly when
/// the fast one stood at its notch; the slow one exactly when both the fast
/// and the middle one stood at their notches. Nothing else changes.
pub proof fn law_stepping(m: MachineView)
    requires
        machine_view_wf(m),
    ensures
        stepped(m).fast.position != m.fast.position,
        (stepped(m).middle.position != m.middle.position) == at_notch_spec(m.fast),
        (stepped(m).slow.position != m.slow.position) == (at_notch_spec(m.fast) && at_notch_spec(
            m.middle,
        )),
        stepped(m).fast.ring == m.fast.ring && stepped(m).fast.kind == m.fast.kind,
        stepped(m).middle.ring == m.middle.ring && stepped(m).middle.kind == m.middle.kind,
        stepped(m).slow.ring == m.slow.ring && stepped(m).slow.kind == m.slow.kind,
        stepped(m).reflector == m.reflector,
        stepped(m).plugboard == m.plugboard,
{
}

} // verus!
