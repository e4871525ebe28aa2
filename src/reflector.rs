//! The reflector: a fixed pairing of letters that sends the signal back.
use vstd::prelude::*;
use crate::catalog::{reflector_label, reflector_wiring, ReflectorKind};

verus! {

pub struct Reflector {
    kind: ReflectorKind,
    wiring: [u8; 26],
    name: String,
}

impl View for Reflector {
    type V = ReflectorKind;

    closed spec fn view(&self) -> ReflectorKind {
        self.kind
    }
}

impl Reflector {
    pub closed spec fn wf(&self) -> bool {
        &&& self.wiring@ == reflector_wiring(self.kind)
        &&& self.name@ == reflector_label(self.kind)
    }

    /// Builds the reflector of the given type.
    pub fn new(kind: ReflectorKind) -> (r: Reflector)
        ensures
            r.wf(),
            r@ == kind,
    {
        Reflector { kind, wiring: kind.wiring(), name: kind.label() }
    }

    /// The letter index that `c` is sent back as.
    pub fn reflect(&self, c: u8) -> (r: u8)
        requires
            self.wf(),
            c < 26,
        ensures
            r == reflector_wiring(self@)[c as int],
    {
        self.wiring[c as usize]
    }

    /// The label of this reflector in a signal trace, such as "Reflector B".
    pub fn name(&self) -> (r: String)
        requires
            self.wf(),
        ensures
            r@ == reflector_label(self@),
    {
        self.name.clone()
    }
}

} // verus!
