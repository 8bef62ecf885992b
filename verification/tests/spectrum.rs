use chord_generator::{Partial, Wave};

const BINS: usize = 22051;

fn harmonics_of(p: &[Partial]) -> Vec<u32> {
    p.iter().map(|p| p.harmonic).collect()
}

#[test]
fn harmonic_counts() {
    assert_eq!(Wave::Sine.harmonics(), 1);
    assert_eq!(Wave::Square.harmonics(), 40);
    assert_eq!(Wave::Saw.harmonics(), 14);
}

#[test]
fn sine_adds_its_fundamental() {
    let p = Wave::Sine.partials(440, Wave::Sine.harmonics(), BINS);
    assert_eq!(p, vec![Partial { bin: 440, harmonic: 1 }]);
    // The harmonic count does not matter to a sine.
    assert_eq!(Wave::Sine.partials(440, 40, BINS), p);
    assert_eq!(Wave::Sine.partials(440, 0, BINS), p);
}

#[test]
fn sine_outside_the_spectrum_adds_nothing() {
    assert_eq!(Wave::Sine.partials(440, 1, 440), vec![]);
    assert_eq!(Wave::Sine.partials(440, 1, 441), vec![Partial { bin: 440, harmonic: 1 }]);
}

#[test]
fn saw_adds_harmonics_below_its_count() {
    let p = Wave::Saw.partials(440, Wave::Saw.harmonics(), BINS);
    assert_eq!(harmonics_of(&p), (1..14).collect::<Vec<u32>>());
    for q in &p {
        assert_eq!(q.bin, 440 * q.harmonic as usize);
    }
}

#[test]
fn square_adds_odd_harmonics() {
    let p = Wave::Square.partials(261, Wave::Square.harmonics(), BINS);
    assert_eq!(harmonics_of(&p), (1..40).step_by(2).collect::<Vec<u32>>());
    for q in &p {
        assert_eq!(q.bin, 261 * q.harmonic as usize);
        assert_eq!(q.harmonic % 2, 1);
    }
}

#[test]
fn high_harmonics_fall_off_the_spectrum() {
    // 986 * 21 = 20706 fits, 986 * 23 = 22678 does not.
    let p = Wave::Square.partials(986, 40, BINS);
    assert_eq!(harmonics_of(&p), vec![1, 3, 5, 7, 9, 11, 13, 15, 17, 19, 21]);
    assert_eq!(p.last(), Some(&Partial { bin: 20706, harmonic: 21 }));
}

#[test]
fn too_few_harmonics_add_nothing() {
    assert_eq!(Wave::Saw.partials(440, 1, BINS), vec![]);
    assert_eq!(Wave::Square.partials(440, 0, BINS), vec![]);
    assert_eq!(Wave::Saw.partials(440, 2, BINS), vec![Partial { bin: 440, harmonic: 1 }]);
}

#[test]
fn zero_frequency_stacks_in_the_first_bin() {
    let p = Wave::Saw.partials(0, 4, BINS);
    assert_eq!(
        p,
        vec![
            Partial { bin: 0, harmonic: 1 },
            Partial { bin: 0, harmonic: 2 },
            Partial { bin: 0, harmonic: 3 },
        ]
    );
}
