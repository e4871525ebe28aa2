use enigma::{
    char_to_u8, u8_to_char, ConfigError, EnigmaConfig, EnigmaMachine, PathDirection, Plugboard,
    ReflectorKind, RotorConfig, RotorKind,
};

fn rotor(name: &str, position: char, ring: char) -> RotorConfig {
    RotorConfig { name: name.to_string(), position, ring }
}

/// Rotors I (fast), II, III at A with rings A, reflector B, no plugboard.
fn default_config() -> EnigmaConfig {
    EnigmaConfig {
        rotors: (rotor("I", 'A', 'A'), rotor("II", 'A', 'A'), rotor("III", 'A', 'A')),
        reflector: "B".to_string(),
        plugboard_pairs: "".to_string(),
    }
}

fn complex_config() -> EnigmaConfig {
    EnigmaConfig {
        rotors: (rotor("I", 'G', 'B'), rotor("II", 'O', 'M'), rotor("III", 'X', 'V')),
        reflector: "B".to_string(),
        plugboard_pairs: "AV BS CG DL FU HZ IN KM OW RX".to_string(),
    }
}

#[test]
fn test_char_to_u8_conversions() {
    assert_eq!(char_to_u8('A'), 0);
    assert_eq!(char_to_u8('Z'), 25);
    assert_eq!(u8_to_char(0), 'A');
    assert_eq!(u8_to_char(25), 'Z');
}

#[test]
fn test_plugboard() {
    let pb = Plugboard::new("AB XY ZW");
    assert_eq!(pb.process(char_to_u8('A')), char_to_u8('B'));
    assert_eq!(pb.process(char_to_u8('B')), char_to_u8('A'));
    assert_eq!(pb.process(char_to_u8('C')), char_to_u8('C'));
    assert_eq!(pb.process(char_to_u8('X')), char_to_u8('Y'));
}

#[test]
fn test_rotor_stepping() {
    let mut cfg = default_config();
    cfg.rotors.0.position = 'Q';
    cfg.rotors.1.position = 'E';
    let mut machine = EnigmaMachine::new(cfg);
    assert_eq!(machine.get_positions(), ('A', 'E', 'Q'));
    // Fast rotor I stood at its notch Q, middle rotor II at its notch E.
    machine.step_rotors();
    assert_eq!(machine.get_positions(), ('B', 'F', 'R'));
    machine.step_rotors();
    assert_eq!(machine.get_positions(), ('B', 'F', 'S'));
}

// Rotor I sits in the fast slot here. The well-known "BDZGO" for "AAAAA" is
// what the same wirings give with rotor III in the fast slot; see
// `historical_vector_with_rotor_three_fast`.
#[test]
fn test_encryption_reciprocity() {
    let mut machine_encrypt = EnigmaMachine::new(default_config());
    let encrypted = machine_encrypt.process_string("AAAAA");
    assert_eq!(encrypted, "FTZMG");

    let mut machine_decrypt = EnigmaMachine::new(default_config());
    let decrypted = machine_decrypt.process_string(&encrypted);
    assert_eq!(decrypted, "AAAAA");
}

// Rotor I in the fast slot, historical wirings; deciphered back in
// `complex_config_round_trip`.
#[test]
fn test_complex_config_encryption() {
    let mut machine = EnigmaMachine::new(complex_config());
    assert_eq!(machine.process_string("HELLOWORLD"), "SPNTMVLLTU");
}

// Rotor I at B after stepping: A -> J -> B -> D, reflected D -> H, then back
// H -> D -> C -> F.
#[test]
fn test_detailed_steps() {
    let mut machine = EnigmaMachine::new(default_config());
    let steps = machine.process_string_detailed("A");
    assert_eq!(steps.len(), 1);
    let step = &steps[0];
    assert_eq!(step.input_char, 'A');
    assert_eq!(step.output_char, 'F');
    assert_eq!(step.positions_before_step, ('A', 'A', 'A'));
    assert_eq!(step.positions_after_step, ('A', 'A', 'B'));
    assert_eq!(step.path.len(), 9);
    assert_eq!(step.path[4].component, "Reflector B");
    assert_eq!(step.path[4].input_char, 'D');
    assert_eq!(step.path[4].output_char, 'H');
}

#[test]
fn historical_vector_with_rotor_three_fast() {
    let config = || EnigmaConfig {
        rotors: (rotor("III", 'A', 'A'), rotor("II", 'A', 'A'), rotor("I", 'A', 'A')),
        reflector: "B".to_string(),
        plugboard_pairs: "".to_string(),
    };
    let mut machine = EnigmaMachine::new(config());
    assert_eq!(machine.process_string("AAAAA"), "BDZGO");
    let mut machine = EnigmaMachine::new(config());
    assert_eq!(machine.process_string("BDZGO"), "AAAAA");
}

#[test]
fn complex_config_round_trip() {
    let mut machine = EnigmaMachine::new(complex_config());
    assert_eq!(machine.process_string("SPNTMVLLTU"), "HELLOWORLD");
}

#[test]
fn non_letters_are_dropped_and_case_ignored() {
    let mut machine = EnigmaMachine::new(default_config());
    assert_eq!(machine.process_string("a-A a!?A1a"), "FTZMG");
}

#[test]
fn non_letters_do_not_turn_rotors() {
    let mut machine = EnigmaMachine::new(default_config());
    assert_eq!(machine.process_string("1 2, 3! é"), "");
    assert_eq!(machine.get_positions(), ('A', 'A', 'A'));
    assert!(machine.process_string_detailed("--").is_empty());
    assert_eq!(machine.get_positions(), ('A', 'A', 'A'));
}

#[test]
fn empty_text_gives_empty_output() {
    let mut machine = EnigmaMachine::new(default_config());
    assert_eq!(machine.process_string(""), "");
}

#[test]
fn calls_continue_the_rotor_sequence() {
    let mut machine = EnigmaMachine::new(default_config());
    let first = machine.process_string("AAA");
    let second = machine.process_string("AA");
    assert_eq!(format!("{}{}", first, second), "FTZMG");
    assert_eq!(machine.get_positions(), ('A', 'A', 'F'));
}

#[test]
fn identical_configurations_agree() {
    let mut a = EnigmaMachine::new(complex_config());
    let mut b = EnigmaMachine::new(complex_config());
    assert_eq!(a.process_string("Attack at dawn"), b.process_string("Attack at dawn"));
    let da = a.process_string_detailed("xyz");
    let db = b.process_string_detailed("xyz");
    assert_eq!(da.len(), 3);
    for (x, y) in da.iter().zip(db.iter()) {
        assert_eq!(x.output_char, y.output_char);
        assert_eq!(x.positions_after_step, y.positions_after_step);
        assert_eq!(x.path.len(), y.path.len());
    }
}

#[test]
fn detailed_and_simple_outputs_match() {
    let mut a = EnigmaMachine::new(complex_config());
    let mut b = EnigmaMachine::new(complex_config());
    let simple = a.process_string("HELLOWORLD");
    let detailed: String = b.process_string_detailed("HELLOWORLD").iter().map(|s| s.output_char).collect();
    assert_eq!(simple, detailed);
}

#[test]
fn signal_path_labels_and_directions() {
    let mut machine = EnigmaMachine::new(default_config());
    let (out, step) = machine.process_char_detailed('A');
    assert_eq!(out, 'F');
    let labels: Vec<&str> = step.path.iter().map(|e| e.component.as_str()).collect();
    assert_eq!(
        labels,
        vec!["Plugboard", "Rotor I", "Rotor II", "Rotor III", "Reflector B", "Rotor III", "Rotor II", "Rotor I", "Plugboard"]
    );
    let letters: String = step.path.iter().map(|e| e.output_char).collect();
    assert_eq!(letters, "AJBDHDCFF");
    for (k, e) in step.path.iter().enumerate() {
        let expected = if k < 4 {
            PathDirection::Forward
        } else if k == 4 {
            PathDirection::Reflect
        } else {
            PathDirection::Backward
        };
        assert_eq!(e.direction, expected);
        if k > 0 {
            assert_eq!(e.input_char, step.path[k - 1].output_char);
        }
    }
}

#[test]
fn slow_rotor_turns_only_with_both_notches() {
    let mut cfg = default_config();
    cfg.rotors.0.position = 'Q';
    let mut machine = EnigmaMachine::new(cfg);
    machine.step_rotors();
    assert_eq!(machine.get_positions(), ('A', 'B', 'R'));
    let mut cfg = default_config();
    cfg.rotors.1.position = 'E';
    let mut machine = EnigmaMachine::new(cfg);
    machine.step_rotors();
    assert_eq!(machine.get_positions(), ('A', 'E', 'B'));
}

#[test]
fn fast_rotor_wraps_from_z_to_a() {
    let mut cfg = default_config();
    cfg.rotors.0.position = 'Z';
    let mut machine = EnigmaMachine::new(cfg);
    machine.step_rotors();
    assert_eq!(machine.get_positions(), ('A', 'A', 'A'));
}

#[test]
fn reflector_c_vector() {
    let mut cfg = default_config();
    cfg.reflector = "C".to_string();
    let mut machine = EnigmaMachine::new(cfg);
    assert_eq!(machine.process_string("AAAAA"), "TWTVP");
}

#[test]
fn no_letter_enciphers_to_itself() {
    let mut machine = EnigmaMachine::new(complex_config());
    let text = "ABCDEFGHIJKLMNOPQRSTUVWXYZ";
    let out = machine.process_string(text);
    for (a, b) in text.chars().zip(out.chars()) {
        assert_ne!(a, b);
    }
}

#[test]
fn plugboard_is_an_involution() {
    let pb = Plugboard::new("AV BS CG DL FU HZ IN KM OW RX");
    for i in 0..26u8 {
        assert_eq!(pb.process(pb.process(i)), i);
    }
}

#[test]
fn plugboard_drops_unpaired_letter_and_accepts_lower_case() {
    let pb = Plugboard::new("ab-c");
    assert_eq!(pb.process(char_to_u8('A')), char_to_u8('B'));
    assert_eq!(pb.process(char_to_u8('C')), char_to_u8('C'));
}

#[test]
fn plugboard_later_pair_replaces_earlier() {
    let pb = Plugboard::new("AB AC");
    assert_eq!(pb.process(char_to_u8('A')), char_to_u8('C'));
    assert_eq!(pb.process(char_to_u8('C')), char_to_u8('A'));
    // B keeps what the first pair set.
    assert_eq!(pb.process(char_to_u8('B')), char_to_u8('A'));
    let pb = Plugboard::new("ABAC");
    assert_eq!(pb.process(char_to_u8('B')), char_to_u8('A'));
    assert_eq!(pb.process(char_to_u8('A')), char_to_u8('C'));
}

#[test]
fn catalog_lookup_by_name() {
    assert_eq!(RotorKind::from_name("III"), Some(RotorKind::III));
    assert_eq!(RotorKind::from_name("IV"), None);
    assert_eq!(RotorKind::from_name(""), None);
    assert_eq!(RotorKind::from_name("IIII"), None);
    assert_eq!(ReflectorKind::from_name("C"), Some(ReflectorKind::C));
    assert_eq!(ReflectorKind::from_name("b"), None);
    assert_eq!(RotorKind::II.label(), "Rotor II");
    assert_eq!(RotorKind::I.notch(), 16);
}

#[test]
fn unknown_rotor_is_rejected() {
    let mut cfg = default_config();
    cfg.rotors.1.name = "IV".to_string();
    assert_eq!(EnigmaMachine::try_new(cfg).err(), Some(ConfigError::UnknownRotor));
}

#[test]
fn invalid_rotor_letter_is_rejected() {
    let mut cfg = default_config();
    cfg.rotors.2.ring = '1';
    assert_eq!(EnigmaMachine::try_new(cfg).err(), Some(ConfigError::InvalidRotorLetter));
    let mut cfg = default_config();
    cfg.rotors.0.position = 'a';
    assert_eq!(EnigmaMachine::try_new(cfg).err(), Some(ConfigError::InvalidRotorLetter));
}

#[test]
fn unknown_reflector_is_rejected() {
    let mut cfg = default_config();
    cfg.reflector = "D".to_string();
    assert_eq!(EnigmaMachine::try_new(cfg).err(), Some(ConfigError::UnknownReflector));
}

#[test]
fn try_new_accepts_a_valid_configuration() {
    let mut machine = EnigmaMachine::try_new(default_config()).ok().unwrap();
    assert_eq!(machine.process_string("AAAAA"), "FTZMG");
}
