//! A simulator of the three-rotor cipher machine: plugboard, rotors with ring
//! settings and turnover notches, reflector, and a per-letter trace of the
//! signal path.
pub mod alphabet;
pub mod catalog;
pub mod plugboard;
pub mod config;
pub mod reflector;
pub mod rotor;
pub mod machine;
pub mod laws;

pub use alphabet::{char_to_u8, u8_to_char};
pub use catalog::{ReflectorKind, RotorKind};
pub use config::{ConfigError, EnigmaConfig, RotorConfig};
pub use machine::{EncryptionStep, EnigmaMachine, PathDirection, PathEntry};
pub use plugboard::Plugboard;
pub use reflector::Reflector;
pub use rotor::Rotor;
