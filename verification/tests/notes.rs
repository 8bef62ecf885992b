use chord_generator::{note_to_frequency, Note};

const ALL: [(Note, &str, u32); 12] = [
    (Note::C, "C", 261),
    (Note::Db, "Db", 277),
    (Note::D, "D", 293),
    (Note::Eb, "Eb", 311),
    (Note::E, "E", 329),
    (Note::F, "F", 349),
    (Note::Gb, "Gb", 369),
    (Note::G, "G", 392),
    (Note::Ab, "Ab", 415),
    (Note::A, "A", 440),
    (Note::Bb, "Bb", 466),
    (Note::B, "B", 493),
];

#[test]
fn each_note_has_its_frequency() {
    for (note, _, freq) in ALL {
        assert_eq!(note.freq(), freq);
    }
}

#[test]
fn octave_doubles_per_step() {
    assert_eq!(Note::A.octave(0), 440);
    assert_eq!(Note::A.octave(1), 880);
    assert_eq!(Note::A.octave(2), 1760);
    assert_eq!(Note::C.octave(3), 2088);
}

#[test]
fn names_parse_back_to_notes() {
    for (note, name, _) in ALL {
        assert_eq!(name.parse::<Note>(), Ok(note));
    }
}

#[test]
fn sharps_and_unknown_names_are_refused() {
    assert_eq!(
        "F#".parse::<Note>(),
        Err("Unknown note: F#; please use the flat enharmonic".to_string())
    );
    assert_eq!(
        "H".parse::<Note>(),
        Err("Unknown note: H; please use the flat enharmonic".to_string())
    );
    assert_eq!(
        "Cb".parse::<Note>(),
        Err("Unknown note: Cb; please use the flat enharmonic".to_string())
    );
    assert_eq!(
        "".parse::<Note>(),
        Err("Unknown note: ; please use the flat enharmonic".to_string())
    );
    assert_eq!(
        "c".parse::<Note>(),
        Err("Unknown note: c; please use the flat enharmonic".to_string())
    );
}

#[test]
fn written_notes_in_the_base_octave() {
    for (_, name, freq) in ALL {
        assert_eq!(note_to_frequency(name), Ok(freq));
    }
}

#[test]
fn u_prefix_raises_an_octave() {
    for (_, name, freq) in ALL {
        let upper = format!("u{}", name);
        assert_eq!(note_to_frequency(&upper), Ok(2 * freq));
    }
    assert_eq!(note_to_frequency("uC"), Ok(522));
}

#[test]
fn refusal_names_what_is_left_after_the_prefix() {
    assert_eq!(
        note_to_frequency("uu"),
        Err("Unknown note: u; please use the flat enharmonic".to_string())
    );
    assert_eq!(
        note_to_frequency("uF#"),
        Err("Unknown note: F#; please use the flat enharmonic".to_string())
    );
    assert_eq!(
        note_to_frequency("u"),
        Err("Unknown note: ; please use the flat enharmonic".to_string())
    );
    assert_eq!(
        note_to_frequency("Au"),
        Err("Unknown note: Au; please use the flat enharmonic".to_string())
    );
}

#[test]
fn middle_c_lies_below_a_and_e() {
    let chord: Vec<u32> = ["A", "C", "E"]
        .iter()
        .map(|n| note_to_frequency(n).unwrap())
        .collect();
    assert_eq!(chord, vec![440, 261, 329]);
    assert!(chord[1] < chord[0] && chord[1] < chord[2]);
}

#[test]
fn readme_chords() {
    let chord: Vec<u32> = ["Gb", "Db", "Bb"]
        .iter()
        .map(|n| note_to_frequency(n).unwrap())
        .collect();
    assert_eq!(chord, vec![369, 277, 466]);
    let chord: Vec<u32> = ["F", "Ab", "uC", "uEb"]
        .iter()
        .map(|n| note_to_frequency(n).unwrap())
        .collect();
    assert_eq!(chord, vec![349, 415, 522, 622]);
}

#[test]
fn chromatic_order_rises() {
    for i in 1..ALL.len() {
        assert!(ALL[i - 1].0.freq() < ALL[i].0.freq());
    }
    for (a, _, _) in ALL {
        for (b, _, _) in ALL {
            assert!(a.freq() < b.octave(1));
        }
    }
}
