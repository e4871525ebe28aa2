//! A rotor: a wired disc with a turning position and a fixed ring setting.
use vstd::prelude::*;
use crate::alphabet::{are_inverse26, char_to_u8, index_of};
use crate::catalog::{
    lemma_rotor_wiring_has_inverse, rotor_inverse, rotor_kind_named, rotor_label, rotor_notch,
    rotor_wiring, RotorKind,
};
use crate::config::{rotor_config_error, RotorConfig};

verus! {

/// What a rotor is, as far as the cipher is concerned.
pub struct RotorView {
    pub kind: RotorKind,
    pub position: int,
    pub ring: int,
}

/// The signal through table `t` of a disc turned to `position` with ring
/// setting `ring`, entering at contact `c`.
pub open spec fn through(t: Seq<u8>, position: int, ring: int, c: int) -> int {
    (t[(c + position - ring + 26) % 26] - position + ring + 26) % 26
}

/// From right to left, towards the reflector.
pub open spec fn rotor_forward(r: RotorView, c: int) -> int {
    through(rotor_wiring(r.kind), r.position, r.ring, c)
}

/// From left to right, back from the reflector.
pub open spec fn rotor_backward(r: RotorView, c: int) -> int {
    through(rotor_inverse(r.kind), r.position, r.ring, c)
}

pub open spec fn rotor_view_of(c: RotorConfig) -> RotorView {
    RotorView {
        kind: rotor_kind_named(c.name@)->Some_0,
        position: index_of(c.position),
        ring: index_of(c.ring),
    }
}

pub open spec fn advanced(r: RotorView) -> RotorView {
    RotorView { kind: r.kind, position: (r.position + 1) % 26, ring: r.ring }
}

pub open spec fn at_notch_spec(r: RotorView) -> bool {
    r.position == rotor_notch(r.kind)
}

pub open spec fn rotor_view_wf(r: RotorView) -> bool {
    0 <= r.position < 26 && 0 <= r.ring < 26
}

/// Shifting into a disc and back out again returns the contact one started from.
proof fn lemma_shift_round_trip(v: int, position: int, ring: int)
    requires
        0 <= v < 26,
        0 <= position < 26,
        0 <= ring < 26,
    ensures
        ((v - position + ring + 26) % 26 + position - ring + 26) % 26 == v,
{
}

proof fn lemma_shift_back(v: int, position: int, ring: int)
    requires
        0 <= v < 26,
        0 <= position < 26,
        0 <= ring < 26,
    ensures
        ((v + position - ring + 26) % 26 - position + ring + 26) % 26 == v,
{
}

/// Through a table and back through its inverse, at one disc setting, is the
/// identity.
pub proof fn lemma_through_inverse(t: Seq<u8>, u: Seq<u8>, position: int, ring: int, c: int)
    requires
        are_inverse26(t, u),
        0 <= position < 26,
        0 <= ring < 26,
        0 <= c < 26,
    ensures
        0 <= through(t, position, ring, c) < 26,
        through(u, position, ring, through(t, position, ring, c)) == c,
{
    let s = (c + position - ring + 26) % 26;
    lemma_shift_round_trip(t[s] as int, position, ring);
    assert(u[t[s] as int] == s);
    lemma_shift_back(c, position, ring);
}

/// At any position and ring setting, backward undoes forward and forward
/// undoes backward.
pub proof fn lemma_rotor_round_trip(r: RotorView, c: int)
    requires
        rotor_view_wf(r),
        0 <= c < 26,
    ensures
        0 <= rotor_forward(r, c) < 26,
        0 <= rotor_backward(r, c) < 26,
        rotor_backward(r, rotor_forward(r, c)) == c,
        rotor_forward(r, rotor_backward(r, c)) == c,
{
    lemma_rotor_wiring_has_inverse(r.kind);
    let t = rotor_wiring(r.kind);
    let u = rotor_inverse(r.kind);
    lemma_through_inverse(t, u, r.position, r.ring, c);
    assert(are_inverse26(u, t));
    lemma_through_inverse(u, t, r.position, r.ring, c);
}

pub struct Rotor {
    kind: RotorKind,
    wiring: [u8; 26],
    inverse_wiring: [u8; 26],
    position: u8,
    ring_setting: u8,
    notch: u8,
    name: String,
}

impl View for Rotor {
    type V = RotorView;

    closed spec fn view(&self) -> RotorView {
        RotorView { kind: self.kind, position: self.position as int, ring: self.ring_setting as int }
    }
}

impl Rotor {
    pub closed spec fn wf(&self) -> bool {
        &&& self.wiring@ == rotor_wiring(self.kind)
        &&& self.inverse_wiring@ == rotor_inverse(self.kind)
        &&& self.position < 26
        &&& self.ring_setting < 26
        &&& self.notch == rotor_notch(self.kind)
        &&& self.name@ == rotor_label(self.kind)
    }

    pub proof fn lemma_wf(&self)
        requires
            self.wf(),
        ensures
            rotor_view_wf(self@),
    {
    }

    /// Builds a rotor from its slot's configuration. The inverse wiring is
    /// computed here once, so that both directions are a table lookup.
    pub fn new(config: &RotorConfig) -> (r: Rotor)
        requires
            rotor_config_error(*config) is None,
        ensures
            r.wf(),
            r@ == rotor_view_of(*config),
    {
        let kind = match RotorKind::from_name(config.name.as_str()) {
            Some(k) => k,
            None => {
                // ruled out by the precondition
                assert(false);
                RotorKind::I
            },
        };
        let wiring = kind.wiring();
        proof {
            lemma_rotor_wiring_has_inverse(kind);
        }
        let mut inverse_wiring: [u8; 26] = [0; 26];
        let mut i: usize = 0;
        while i < 26
            invariant
                i <= 26,
                wiring@ == rotor_wiring(kind),
                are_inverse26(rotor_wiring(kind), rotor_inverse(kind)),
                inverse_wiring@.len() == 26,
                forall|j: int| 0 <= j < i ==> #[trigger] inverse_wiring@[wiring@[j] as int] == j,
            decreases 26 - i,
        {
            let out = wiring[i];
            assert(wiring@[i as int] < 26);
            inverse_wiring[out as usize] = i as u8;
            proof {
                assert forall|j: int| 0 <= j < i implies #[trigger] inverse_wiring@[wiring@[j] as int] == j by {
                    assert(wiring@[j] != wiring@[i as int]) by {
                        assert(rotor_inverse(kind)[wiring@[j] as int] == j);
                    }
                }
            }
            i = i + 1;
        }
        assert(inverse_wiring@ =~= rotor_inverse(kind)) by {
            assert forall|x: int| 0 <= x < 26 implies inverse_wiring@[x] == rotor_inverse(kind)[x] by {
                let j = rotor_inverse(kind)[x] as int;
                assert(wiring@[j] == x);
            }
        }
        Rotor {
            kind,
            wiring,
            inverse_wiring,
            position: char_to_u8(config.position),
            ring_setting: char_to_u8(config.ring),
            notch: kind.notch(),
            name: kind.label(),
        }
    }

    /// Whether the rotor stands at its notch position.
    pub fn at_notch(&self) -> (r: bool)
        requires
            self.wf(),
        ensures
            r == at_notch_spec(self@),
    {
        self.position == self.notch
    }

    /// Turns the rotor one position on, from 'Z' back to 'A'.
    pub fn step(&mut self)
        requires
            old(self).wf(),
        ensures
            final(self).wf(),
            final(self)@ == advanced(old(self)@),
    {
        self.position = (self.position + 1) % 26;
    }

    /// Passes contact `c` through the rotor towards the reflector.
    pub fn forward(&self, c: u8) -> (r: u8)
        requires
            self.wf(),
            c < 26,
        ensures
            r == rotor_forward(self@, c as int),
            r < 26,
    {
        let index = (c + self.position + 26 - self.ring_setting) % 26;
        let wired = self.wiring[index as usize];
        proof {
            lemma_rotor_wiring_has_inverse(self.kind);
        }
        (wired + self.ring_setting + 26 - self.position) % 26
    }

    /// Passes contact `c` through the rotor back from the reflector.
    pub fn backward(&self, c: u8) -> (r: u8)
        requires
            self.wf(),
            c < 26,
        ensures
            r == rotor_backward(self@, c as int),
            r < 26,
    {
        let index = (c + self.position + 26 - self.ring_setting) % 26;
        let wired = self.inverse_wiring[index as usize];
        proof {
            lemma_rotor_wiring_has_inverse(self.kind);
        }
        (wired + self.ring_setting + 26 - self.position) % 26
    }

    /// The current position as a letter index.
    pub fn position(&self) -> (r: u8)
        requires
            self.wf(),
        ensures
            r == self@.position,
            r < 26,
    {
        self.position
    }

    /// The label of this rotor in a signal trace, such as "Rotor II".
    pub fn name(&self) -> (r: String)
        requires
            self.wf(),
        ensures
            r@ == rotor_label(self@.kind),
    {
        self.name.clone()
    }
}

} // verus!
