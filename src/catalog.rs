//! The fixed catalog of rotor and reflector wirings.
use vstd::prelude::*;
use vstd::string::*;
use crate::alphabet::{
    are_inverse26, inverse_upto, is_fixed_point_free_involution26, is_permutation26,
    lemma_inverse_gives_permutation, lemma_inverse_upto, lemma_moves_upto, moves_upto,
};

verus! {

/// A rotor type of the catalog.
#[derive(Clone, Copy, Debug, PartialEq, Eq, Structural)]
pub enum RotorKind {
    I,
    II,
    III,
}

/// A reflector type of the catalog.
#[derive(Clone, Copy, Debug, PartialEq, Eq, Structural)]
pub enum ReflectorKind {
    B,
    C,
}

pub open spec fn rotor_wiring(k: RotorKind) -> Seq<u8> {
    match k {
        RotorKind::I => seq![4u8, 10, 12, 5, 11, 6, 3, 16, 21, 25, 13, 19, 14, 22, 24, 7, 23, 20, 18, 15, 0, 8, 1, 17, 2, 9],
        RotorKind::II => seq![0u8, 9, 3, 10, 18, 8, 17, 20, 23, 1, 11, 7, 22, 19, 12, 2, 16, 6, 25, 13, 15, 24, 5, 21, 14, 4],
        RotorKind::III => seq![1u8, 3, 5, 7, 9, 11, 2, 15, 17, 19, 23, 21, 25, 13, 24, 4, 8, 22, 6, 0, 10, 12, 20, 18, 16, 14],
    }
}

/// The inverse of each rotor wiring, used on the way back from the reflector.
pub open spec fn rotor_inverse(k: RotorKind) -> Seq<u8> {
    match k {
        RotorKind::I => seq![20u8, 22, 24, 6, 0, 3, 5, 15, 21, 25, 1, 4, 2, 10, 12, 19, 7, 23, 18, 11, 17, 8, 13, 16, 14, 9],
        RotorKind::II => seq![0u8, 9, 15, 2, 25, 22, 17, 11, 5, 1, 3, 10, 14, 19, 24, 20, 16, 6, 4, 13, 7, 23, 12, 8, 21, 18],
        RotorKind::III => seq![19u8, 0, 6, 1, 15, 2, 18, 3, 16, 4, 20, 5, 21, 13, 25, 7, 24, 8, 23, 9, 22, 11, 17, 10, 14, 12],
    }
}

pub proof fn lemma_rotor_wiring_has_inverse(k: RotorKind)
    ensures
        are_inverse26(rotor_wiring(k), rotor_inverse(k)),
        is_permutation26(rotor_wiring(k)),
{
    reveal_with_fuel(inverse_upto, 27);
    assert(inverse_upto(rotor_wiring(k), rotor_inverse(k), 26));
    lemma_inverse_upto(rotor_wiring(k), rotor_inverse(k), 26);
    lemma_inverse_gives_permutation(rotor_wiring(k), rotor_inverse(k));
}

pub open spec fn rotor_notch(k: RotorKind) -> u8 {
    match k {
        RotorKind::I => 16,
        RotorKind::II => 4,
        RotorKind::III => 21,
    }
}

/// The catalog name of a rotor type.
pub open spec fn rotor_name(k: RotorKind) -> Seq<char> {
    match k {
        RotorKind::I => seq!['I'],
        RotorKind::II => seq!['I', 'I'],
        RotorKind::III => seq!['I', 'I', 'I'],
    }
}

/// The rotor type whose catalog name is exactly `s`, if any.
pub open spec fn rotor_kind_named(s: Seq<char>) -> Option<RotorKind> {
    if s == rotor_name(RotorKind::I) {
        Some(RotorKind::I)
    } else if s == rotor_name(RotorKind::II) {
        Some(RotorKind::II)
    } else if s == rotor_name(RotorKind::III) {
        Some(RotorKind::III)
    } else {
        None
    }
}

/// The label that a rotor of type `k` carries in a signal trace.
pub open spec fn rotor_label(k: RotorKind) -> Seq<char> {
    match k {
        RotorKind::I => "Rotor I"@,
        RotorKind::II => "Rotor II"@,
        RotorKind::III => "Rotor III"@,
    }
}

pub open spec fn reflector_wiring(k: ReflectorKind) -> Seq<u8> {
    match k {
        ReflectorKind::B => seq![24u8, 17, 20, 7, 16, 18, 11, 3, 15, 23, 13, 6, 14, 10, 12, 8, 4, 1, 5, 25, 2, 22, 21, 9, 0, 19],
        ReflectorKind::C => seq![5u8, 21, 15, 9, 8, 0, 14, 24, 4, 3, 17, 25, 23, 22, 6, 2, 19, 10, 20, 16, 18, 1, 13, 12, 7, 11],
    }
}

/// The catalog name of a reflector type.
pub open spec fn reflector_name(k: ReflectorKind) -> Seq<char> {
    match k {
        ReflectorKind::B => seq!['B'],
        ReflectorKind::C => seq!['C'],
    }
}

/// The reflector type whose catalog name is exactly `s`, if any.
pub open spec fn reflector_kind_named(s: Seq<char>) -> Option<ReflectorKind> {
    if s == reflector_name(ReflectorKind::B) {
        Some(ReflectorKind::B)
    } else if s == reflector_name(ReflectorKind::C) {
        Some(ReflectorKind::C)
    } else {
        None
    }
}

/// The label that a reflector of type `k` carries in a signal trace.
pub open spec fn reflector_label(k: ReflectorKind) -> Seq<char> {
    match k {
        ReflectorKind::B => "Reflector B"@,
        ReflectorKind::C => "Reflector C"@,
    }
}

/// Every reflector wiring swaps letters in pairs and moves every letter.
pub proof fn lemma_reflector_wiring_is_involution(k: ReflectorKind)
    ensures
        is_fixed_point_free_involution26(reflector_wiring(k)),
        is_permutation26(reflector_wiring(k)),
{
    reveal_with_fuel(inverse_upto, 27);
    reveal_with_fuel(moves_upto, 27);
    assert(inverse_upto(reflector_wiring(k), reflector_wiring(k), 26));
    assert(moves_upto(reflector_wiring(k), 26));
    lemma_inverse_upto(reflector_wiring(k), reflector_wiring(k), 26);
    lemma_moves_upto(reflector_wiring(k), 26);
    lemma_inverse_gives_permutation(reflector_wiring(k), reflector_wiring(k));
}

impl RotorKind {
    /// Looks a rotor type up by its exact catalog name ("I", "II" or "III").
    pub fn from_name(name: &str) -> (r: Option<RotorKind>)
        ensures
            r == rotor_kind_named(name@),
    {
        let n = name.unicode_len();
        let mut i: usize = 0;
        while i < n
            invariant
                n == name@.len(),
                i <= n,
                forall|j: int| 0 <= j < i ==> name@[j] == 'I',
            decreases n - i,
        {
            if name.get_char(i) != 'I' {
                assert(name@ != rotor_name(RotorKind::I) && name@ != rotor_name(RotorKind::II)
                    && name@ != rotor_name(RotorKind::III)) by {
                    assert(name@[i as int] != 'I');
                }
                return None;
            }
            i = i + 1;
        }
        if n == 1 {
            assert(name@ =~= rotor_name(RotorKind::I));
            Some(RotorKind::I)
        } else if n == 2 {
            assert(name@ =~= rotor_name(RotorKind::II));
            Some(RotorKind::II)
        } else if n == 3 {
            assert(name@ =~= rotor_name(RotorKind::III));
            Some(RotorKind::III)
        } else {
            None
        }
    }

    /// The wiring table of this rotor type.
    pub fn wiring(self) -> (r: [u8; 26])
        ensures
            r@ == rotor_wiring(self),
    {
        match self {
            RotorKind::I => [4, 10, 12, 5, 11, 6, 3, 16, 21, 25, 13, 19, 14, 22, 24, 7, 23, 20, 18, 15, 0, 8, 1, 17, 2, 9],
            RotorKind::II => [0, 9, 3, 10, 18, 8, 17, 20, 23, 1, 11, 7, 22, 19, 12, 2, 16, 6, 25, 13, 15, 24, 5, 21, 14, 4],
            RotorKind::III => [1, 3, 5, 7, 9, 11, 2, 15, 17, 19, 23, 21, 25, 13, 24, 4, 8, 22, 6, 0, 10, 12, 20, 18, 16, 14],
        }
    }

    /// The position at which this rotor type carries the next rotor along.
    pub fn notch(self) -> (r: u8)
        ensures
            r == rotor_notch(self),
    {
        match self {
            RotorKind::I => 16,
            RotorKind::II => 4,
            RotorKind::III => 21,
        }
    }

    pub fn label(self) -> (r: String)
        ensures
            r@ == rotor_label(self),
    {
        match self {
            RotorKind::I => String::from_str("Rotor I"),
            RotorKind::II => String::from_str("Rotor II"),
            RotorKind::III => String::from_str("Rotor III"),
        }
    }
}

impl ReflectorKind {
    /// Looks a reflector type up by its exact catalog name ("B" or "C").
    pub fn from_name(name: &str) -> (r: Option<ReflectorKind>)
        ensures
            r == reflector_kind_named(name@),
    {
        if name.unicode_len() != 1 {
            return None;
        }
        let c = name.get_char(0);
        if c == 'B' {
            assert(name@ =~= reflector_name(ReflectorKind::B));
            Some(ReflectorKind::B)
        } else if c == 'C' {
            assert(name@ =~= reflector_name(ReflectorKind::C));
            Some(ReflectorKind::C)
        } else {
            assert(name@ != reflector_name(ReflectorKind::B));
            None
        }
    }

    /// The wiring table of this reflector type.
    pub fn wiring(self) -> (r: [u8; 26])
        ensures
            r@ == reflector_wiring(self),
    {
        match self {
            ReflectorKind::B => [24, 17, 20, 7, 16, 18, 11, 3, 15, 23, 13, 6, 14, 10, 12, 8, 4, 1, 5, 25, 2, 22, 21, 9, 0, 19],
            ReflectorKind::C => [5, 21, 15, 9, 8, 0, 14, 24, 4, 3, 17, 25, 23, 22, 6, 2, 19, 10, 20, 16, 18, 1, 13, 12, 7, 11],
        }
    }

    pub fn label(self) -> (r: String)
        ensures
            r@ == reflector_label(self),
    {
        match self {
            ReflectorKind::B => String::from_str("Reflector B"),
            ReflectorKind::C => String::from_str("Reflector C"),
        }
    }
}

} // verus!
