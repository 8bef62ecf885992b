use crate::note::{note_to_frequency, result_view, spec_note_to_frequency, MorphNote};
use vstd::prelude::*;

verus! {

/// Why two chords cannot be morphed into one another.
#[derive(Debug, Clone, Copy, PartialEq, Eq, Structural)]
pub enum ChordError {
    /// The chords hold different numbers of notes.
    SizeMismatch,
    /// The chords hold no notes.
    Empty,
}

/// Checks that a starting chord of `from_len` notes can be morphed into a
/// destination chord of `to_len` notes: both must hold the same number of
/// notes, and at least one. A mismatch is reported before emptiness.
pub fn check_chord_sizes(from_len: usize, to_len: usize) -> (r: Result<(), ChordError>)
    ensures
        r == (if from_len != to_len {
            Err(ChordError::SizeMismatch)
        } else if from_len == 0 {
            Err(ChordError::Empty)
        } else {
            Ok(())
        }),
{
    if from_len != to_len {
        Err(ChordError::SizeMismatch)
    } else if from_len == 0 {
        Err(ChordError::Empty)
    } else {
        Ok(())
    }
}

/// The voices made from the first `n` pairs of written notes, or the
/// message for the first note, in pair order and starting note first, that
/// names no note.
pub open spec fn spec_morph_notes(from: Seq<Seq<char>>, to: Seq<Seq<char>>, n: nat) -> Result<
    Seq<MorphNote>,
    Seq<char>,
>
    decreases n,
{
    if n == 0 {
        Ok(seq![])
    } else {
        match spec_morph_notes(from, to, (n - 1) as nat) {
            Err(e) => Err(e),
            Ok(voices) => match spec_note_to_frequency(from[n - 1]) {
                Err(e) => Err(e),
                Ok(start) => match spec_note_to_frequency(to[n - 1]) {
                    Err(e) => Err(e),
                    Ok(end) => Ok(voices.push(MorphNote { start_freq: start, end_freq: end })),
                },
            },
        }
    }
}

/// The characters of each string of a list.
pub open spec fn strings_view(v: Seq<String>) -> Seq<Seq<char>> {
    v.map_values(|s: String| s@)
}

/// Pairs the notes of the starting chord with those of the destination
/// chord, position by position, as far as the shorter of the two reaches,
/// and reads each pair into a voice. Stops at the first note that names no
/// note and gives its message.
pub fn morph_notes(from: &Vec<String>, to: &Vec<String>) -> (r: Result<Vec<MorphNote>, String>)
    ensures
        ({
            let n = if from.len() <= to.len() { from.len() } else { to.len() };
            match r {
                Ok(v) => spec_morph_notes(strings_view(from@), strings_view(to@), n as nat)
                    == Ok::<Seq<MorphNote>, Seq<char>>(v@),
                Err(e) => spec_morph_notes(strings_view(from@), strings_view(to@), n as nat)
                    == Err::<Seq<MorphNote>, Seq<char>>(e@),
            }
        }),
{
    let n: usize = if from.len() <= to.len() { from.len() } else { to.len() };
    let ghost fv = strings_view(from@);
    let ghost tv = strings_view(to@);
    let mut voices: Vec<MorphNote> = Vec::new();
    let mut i: usize = 0;
    while i < n
        invariant
            n == (if from.len() <= to.len() { from.len() } else { to.len() }),
            i <= n,
            fv == strings_view(from@),
            tv == strings_view(to@),
            spec_morph_notes(fv, tv, i as nat) == Ok::<Seq<MorphNote>, Seq<char>>(voices@),
        decreases n - i,
    {
        let start = note_to_frequency(from[i].as_str());
        assert(fv[i as int] == from@[i as int]@);
        assert(tv[i as int] == to@[i as int]@);
        match start {
            Err(e) => {
                assert(spec_morph_notes(fv, tv, (i + 1) as nat) == Err::<Seq<MorphNote>, Seq<char>>(
                    e@,
                ));
                proof {
                    lemma_morph_notes_err_stays(fv, tv, (i + 1) as nat, n as nat);
                }
                return Err(e);
            },
            Ok(start_freq) => {
                let end = note_to_frequency(to[i].as_str());
                match end {
                    Err(e) => {
                        assert(spec_morph_notes(fv, tv, (i + 1) as nat) == Err::<
                            Seq<MorphNote>,
                            Seq<char>,
                        >(e@));
                        proof {
                            lemma_morph_notes_err_stays(fv, tv, (i + 1) as nat, n as nat);
                        }
                        return Err(e);
                    },
                    Ok(end_freq) => {
                        voices.push(MorphNote { start_freq, end_freq });
                    },
                }
            },
        }
        i = i + 1;
    }
    Ok(voices)
}

/// Once a prefix of the pairs is refused, every longer prefix is refused
/// with the same message.
proof fn lemma_morph_notes_err_stays(from: Seq<Seq<char>>, to: Seq<Seq<char>>, i: nat, n: nat)
    requires
        i <= n,
        spec_morph_notes(from, to, i) is Err,
    ensures
        spec_morph_notes(from, to, n) == spec_morph_notes(from, to, i),
    decreases n - i,
{
    if i < n {
        lemma_morph_notes_err_stays(from, to, i, (n - 1) as nat);
    }
}


/// The voices of `n` pairs are made exactly when every note of the pairs is
/// a note; then there is one voice per pair, gliding from the frequency of
/// the pair's starting note to that of its destination note.
pub proof fn lemma_morph_notes_shape(from: Seq<Seq<char>>, to: Seq<Seq<char>>, n: nat)
    requires
        n <= from.len(),
        n <= to.len(),
    ensures
        spec_morph_notes(from, to, n) is Ok <==> forall|i: int|
            0 <= i < n ==> (#[trigger] spec_note_to_frequency(from[i])) is Ok
                && spec_note_to_frequency(to[i]) is Ok,
        spec_morph_notes(from, to, n) matches Ok(v) ==> {
            &&& v.len() == n
            &&& forall|i: int|
                0 <= i < n ==> #[trigger] v[i] == MorphNote {
                    start_freq: spec_note_to_frequency(from[i])->Ok_0,
                    end_freq: spec_note_to_frequency(to[i])->Ok_0,
                }
        },
    decreases n,
{
    if n > 0 {
        lemma_morph_notes_shape(from, to, (n - 1) as nat);
        if spec_morph_notes(from, to, n) is Ok {
            assert forall|i: int|
                0 <= i < n implies (#[trigger] spec_note_to_frequency(from[i])) is Ok
                && spec_note_to_frequency(to[i]) is Ok by {
                if i < n - 1 {
                    assert(spec_note_to_frequency(from[i]) is Ok);
                }
            }
        }
        if !(spec_morph_notes(from, to, n) is Ok) {
            if spec_morph_notes(from, to, (n - 1) as nat) is Ok {
                let i: int = n - 1;
                assert(!(spec_note_to_frequency(from[i]) is Ok && spec_note_to_frequency(to[i]) is Ok));
            } else {
                let i = choose|i: int|
                    0 <= i < n - 1 && !((#[trigger] spec_note_to_frequency(from[i])) is Ok
                        && spec_note_to_frequency(to[i]) is Ok);
                assert(!(spec_note_to_frequency(from[i]) is Ok && spec_note_to_frequency(to[i]) is Ok));
            }
        }
    }
}

} // verus!
