//! The configuration a machine is built from.
use vstd::prelude::*;
use crate::alphabet::is_upper;
use crate::catalog::{reflector_kind_named, rotor_kind_named, ReflectorKind, RotorKind};

verus! {

/// One rotor slot: the rotor type by catalog name, its starting position and
/// its ring setting, both as letters 'A'..='Z'.
#[derive(Clone, Debug)]
pub struct RotorConfig {
    pub name: String,
    pub position: char,
    pub ring: char,
}

/// A full machine setting. The rotors are given from right to left: fast,
/// middle, slow.
#[derive(Debug)]
pub struct EnigmaConfig {
    pub rotors: (RotorConfig, RotorConfig, RotorConfig),
    pub reflector: String,
    pub plugboard_pairs: String,
}

/// Why a configuration cannot be built into a machine.
#[derive(Clone, Copy, Debug, PartialEq, Eq, Structural)]
pub enum ConfigError {
    /// A rotor name outside the catalog ("I", "II", "III").
    UnknownRotor,
    /// A rotor position or ring setting that is not a letter 'A'..='Z'.
    InvalidRotorLetter,
    /// A reflector name outside the catalog ("B", "C").
    UnknownReflector,
}

pub open spec fn rotor_config_error(c: RotorConfig) -> Option<ConfigError> {
    if rotor_kind_named(c.name@) is None {
        Some(ConfigError::UnknownRotor)
    } else if !is_upper(c.position) || !is_upper(c.ring) {
        Some(ConfigError::InvalidRotorLetter)
    } else {
        None
    }
}

/// The first problem found in `c`, checking the fast, middle and slow rotor
/// slots in turn and then the reflector; `None` when `c` is usable.
pub open spec fn config_error(c: EnigmaConfig) -> Option<ConfigError> {
    if rotor_config_error(c.rotors.0) is Some {
        rotor_config_error(c.rotors.0)
    } else if rotor_config_error(c.rotors.1) is Some {
        rotor_config_error(c.rotors.1)
    } else if rotor_config_error(c.rotors.2) is Some {
        rotor_config_error(c.rotors.2)
    } else if reflector_kind_named(c.reflector@) is None {
        Some(ConfigError::UnknownReflector)
    } else {
        None
    }
}

impl RotorConfig {
    /// Checks one rotor slot.
    pub fn check(&self) -> (r: Result<(), ConfigError>)
        ensures
            r is Ok <==> rotor_config_error(*self) is None,
            r is Err ==> rotor_config_error(*self) == Some(r->Err_0),
    {
        if RotorKind::from_name(self.name.as_str()).is_none() {
            return Err(ConfigError::UnknownRotor);
        }
        if !('A' <= self.position && self.position <= 'Z') || !('A' <= self.ring && self.ring <= 'Z') {
            return Err(ConfigError::InvalidRotorLetter);
        }
        Ok(())
    }
}

impl EnigmaConfig {
    /// Checks the whole configuration.
    pub fn check(&self) -> (r: Result<(), ConfigError>)
        ensures
            r is Ok <==> config_error(*self) is None,
            r is Err ==> config_error(*self) == Some(r->Err_0),
    {
        match self.rotors.0.check() {
            Err(e) => return Err(e),
            Ok(()) => {},
        }
        match self.rotors.1.check() {
            Err(e) => return Err(e),
            Ok(()) => {},
        }
        match self.rotors.2.check() {
            Err(e) => return Err(e),
            Ok(()) => {},
        }
        if ReflectorKind::from_name(self.reflector.as_str()).is_none() {
            return Err(ConfigError::UnknownReflector);
        }
        Ok(())
    }
}

} // verus!
