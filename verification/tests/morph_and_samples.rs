use chord_generator::{check_chord_sizes, clamp_sample, morph_notes, ChordError, MorphNote};

fn strings(v: &[&str]) -> Vec<String> {
    v.iter().map(|s| s.to_string()).collect()
}

#[test]
fn chord_sizes() {
    assert_eq!(check_chord_sizes(3, 3), Ok(()));
    assert_eq!(check_chord_sizes(3, 2), Err(ChordError::SizeMismatch));
    assert_eq!(check_chord_sizes(0, 1), Err(ChordError::SizeMismatch));
    assert_eq!(check_chord_sizes(0, 0), Err(ChordError::Empty));
}

#[test]
fn readme_morph() {
    let from = strings(&["Db", "uE", "Ab", "Gb"]);
    let to = strings(&["F", "uA", "uG", "Eb"]);
    let voices = morph_notes(&from, &to).unwrap();
    assert_eq!(
        voices,
        vec![
            MorphNote { start_freq: 277, end_freq: 349 },
            MorphNote { start_freq: 658, end_freq: 880 },
            MorphNote { start_freq: 415, end_freq: 784 },
            MorphNote { start_freq: 369, end_freq: 311 },
        ]
    );
}

#[test]
fn first_unknown_note_is_reported() {
    let from = strings(&["C", "X", "D"]);
    let to = strings(&["Y", "E", "Z"]);
    assert_eq!(
        morph_notes(&from, &to),
        Err("Unknown note: Y; please use the flat enharmonic".to_string())
    );
    let from = strings(&["C", "X"]);
    let to = strings(&["E", "Y"]);
    assert_eq!(
        morph_notes(&from, &to),
        Err("Unknown note: X; please use the flat enharmonic".to_string())
    );
}

#[test]
fn pairs_stop_at_the_shorter_chord() {
    let from = strings(&["C", "D", "bad"]);
    let to = strings(&["E", "F"]);
    assert_eq!(
        morph_notes(&from, &to),
        Ok(vec![
            MorphNote { start_freq: 261, end_freq: 329 },
            MorphNote { start_freq: 293, end_freq: 349 },
        ])
    );
    assert_eq!(morph_notes(&Vec::new(), &to), Ok(vec![]));
}

#[test]
fn samples_are_clamped() {
    assert_eq!(clamp_sample(0), 0);
    assert_eq!(clamp_sample(-1200), -1200);
    assert_eq!(clamp_sample(32767), 32767);
    assert_eq!(clamp_sample(32768), 32767);
    assert_eq!(clamp_sample(-32768), -32768);
    assert_eq!(clamp_sample(-32769), -32768);
    assert_eq!(clamp_sample(i64::MAX), 32767);
    assert_eq!(clamp_sample(i64::MIN), -32768);
}
