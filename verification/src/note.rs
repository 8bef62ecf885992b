use vstd::arithmetic::power2::pow2;
use vstd::prelude::*;

verus! {

/// A note of the chromatic octave from middle C (C4) up to B4, named by its
/// flat enharmonic. Each note stands for its frequency in whole hertz.
#[derive(Debug, Clone, Copy, PartialEq, Eq, Structural)]
pub enum Note {
    C,
    Db,
    D,
    Eb,
    E,
    F,
    Gb,
    G,
    Ab,
    A,
    Bb,
    B,
}

/// The frequency of a note in whole hertz.
pub open spec fn note_freq(n: Note) -> nat {
    match n {
        Note::C => 261,
        Note::Db => 277,
        Note::D => 293,
        Note::Eb => 311,
        Note::E => 329,
        Note::F => 349,
        Note::Gb => 369,
        Note::G => 392,
        Note::Ab => 415,
        Note::A => 440,
        Note::Bb => 466,
        Note::B => 493,
    }
}

/// The position of a note in the chromatic scale, counting from C.
pub open spec fn chromatic_index(n: Note) -> nat {
    match n {
        Note::C => 0,
        Note::Db => 1,
        Note::D => 2,
        Note::Eb => 3,
        Note::E => 4,
        Note::F => 5,
        Note::Gb => 6,
        Note::G => 7,
        Note::Ab => 8,
        Note::A => 9,
        Note::Bb => 10,
        Note::B => 11,
    }
}

/// The name under which a note is written: its letter, followed by `b` for
/// the flats.
pub open spec fn note_name(n: Note) -> Seq<char> {
    match n {
        Note::C => seq!['C'],
        Note::Db => seq!['D', 'b'],
        Note::D => seq!['D'],
        Note::Eb => seq!['E', 'b'],
        Note::E => seq!['E'],
        Note::F => seq!['F'],
        Note::Gb => seq!['G', 'b'],
        Note::G => seq!['G'],
        Note::Ab => seq!['A', 'b'],
        Note::A => seq!['A'],
        Note::Bb => seq!['B', 'b'],
        Note::B => seq!['B'],
    }
}

/// The note that a name denotes, if it is the name of one.
pub open spec fn spec_parse_note(s: Seq<char>) -> Option<Note> {
    if s == note_name(Note::C) {
        Some(Note::C)
    } else if s == note_name(Note::Db) {
        Some(Note::Db)
    } else if s == note_name(Note::D) {
        Some(Note::D)
    } else if s == note_name(Note::Eb) {
        Some(Note::Eb)
    } else if s == note_name(Note::E) {
        Some(Note::E)
    } else if s == note_name(Note::F) {
        Some(Note::F)
    } else if s == note_name(Note::Gb) {
        Some(Note::Gb)
    } else if s == note_name(Note::G) {
        Some(Note::G)
    } else if s == note_name(Note::Ab) {
        Some(Note::Ab)
    } else if s == note_name(Note::A) {
        Some(Note::A)
    } else if s == note_name(Note::Bb) {
        Some(Note::Bb)
    } else if s == note_name(Note::B) {
        Some(Note::B)
    } else {
        None
    }
}

/// The message given for a string that names no note.
pub open spec fn unknown_note_message(s: Seq<char>) -> Seq<char> {
    "Unknown note: "@ + s + "; please use the flat enharmonic"@
}

impl Note {
    /// The frequency of the note in whole hertz.
    pub fn freq(self) -> (f: u32)
        ensures
            f == note_freq(self),
    {
        match self {
            Note::C => 261,
            Note::Db => 277,
            Note::D => 293,
            Note::Eb => 311,
            Note::E => 329,
            Note::F => 349,
            Note::Gb => 369,
            Note::G => 392,
            Note::Ab => 415,
            Note::A => 440,
            Note::Bb => 466,
            Note::B => 493,
        }
    }

    /// The frequency of the note `n` octaves up: its frequency times `2^n`.
    pub fn octave(self, n: u32) -> (f: u32)
        requires
            n < 32,
            note_freq(self) * pow2(n as nat) <= u32::MAX,
        ensures
            f == note_freq(self) * pow2(n as nat),
    {
        proof {
            vstd::bits::lemma_u32_pow2_no_overflow(n as nat);
            vstd::bits::lemma_u32_shl_is_mul(1, n);
        }
        let f: u32 = self.freq();
        f * (1u32 << n)
    }
}


/// The message for an unknown note, built from the name that was given.
fn unknown_note(s: &str) -> (e: String)
    ensures
        e@ == unknown_note_message(s@),
{
    let e = <String as StringExecFns>::from_str("Unknown note: ");
    let e = e.concat(s);
    e.concat("; please use the flat enharmonic")
}

impl core::str::FromStr for Note {
    type Err = String;

    /// Reads a note from its flat name (`C`, `Db`, `D`, ..., `Bb`, `B`).
    /// Any other string is refused with a message that repeats it.
    fn from_str(s: &str) -> (r: Result<Note, String>)
        ensures
            match r {
                Ok(n) => spec_parse_note(s@) == Some(n),
                Err(e) => spec_parse_note(s@) is None && e@ == unknown_note_message(s@),
            },
    {
        let len: usize = s.unicode_len();
        if len == 1 {
            let c = s.get_char(0);
            let n = if c == 'C' {
                Some(Note::C)
            } else if c == 'D' {
                Some(Note::D)
            } else if c == 'E' {
                Some(Note::E)
            } else if c == 'F' {
                Some(Note::F)
            } else if c == 'G' {
                Some(Note::G)
            } else if c == 'A' {
                Some(Note::A)
            } else if c == 'B' {
                Some(Note::B)
            } else {
                None
            };
            assert(s@ =~= seq![c]);
            match n {
                Some(n) => Ok(n),
                None => Err(unknown_note(s)),
            }
        } else if len == 2 {
            let c = s.get_char(0);
            let flat = s.get_char(1);
            let n = if flat != 'b' {
                None
            } else if c == 'D' {
                Some(Note::Db)
            } else if c == 'E' {
                Some(Note::Eb)
            } else if c == 'G' {
                Some(Note::Gb)
            } else if c == 'A' {
                Some(Note::Ab)
            } else if c == 'B' {
                Some(Note::Bb)
            } else {
                None
            };
            assert(s@ =~= seq![c, flat]);
            match n {
                Some(n) => Ok(n),
                None => Err(unknown_note(s)),
            }
        } else {
            Err(unknown_note(s))
        }
    }
}


/// Splits off a leading `u`, which asks for the note one octave up: the
/// octave count and the name that remains.
pub open spec fn split_octave(s: Seq<char>) -> (nat, Seq<char>) {
    if s.len() > 0 && s[0] == 'u' {
        (1, s.drop_first())
    } else {
        (0, s)
    }
}

/// The frequency that a written note stands for, or the message that
/// refuses it.
pub open spec fn spec_note_to_frequency(s: Seq<char>) -> Result<u32, Seq<char>> {
    let (octave, name) = split_octave(s);
    match spec_parse_note(name) {
        Some(n) => Ok((note_freq(n) * pow2(octave)) as u32),
        None => Err(unknown_note_message(name)),
    }
}

/// A result whose error is a `String`, taken by the characters of its error.
pub open spec fn result_view<T>(r: Result<T, String>) -> Result<T, Seq<char>> {
    match r {
        Ok(t) => Ok(t),
        Err(e) => Err(e@),
    }
}

/// Reads a written note: a flat note name (`C` ... `B`), prefixed with `u`
/// for the same note one octave up. Gives its frequency in whole hertz, or
/// the message that refuses the name left after the prefix.
pub fn note_to_frequency(note: &str) -> (r: Result<u32, String>)
    ensures
        result_view(r) == spec_note_to_frequency(note@),
{
    let len: usize = note.unicode_len();
    let (octave, name): (u32, &str) = if len > 0 && note.get_char(0) == 'u' {
        (1, note.substring_char(1, len))
    } else {
        (0, note)
    };
    assert(split_octave(note@) == (octave as nat, name@));
    proof {
        vstd::arithmetic::power2::lemma2_to64();
    }
    match <Note as core::str::FromStr>::from_str(name) {
        Ok(n) => {
            assert(note_freq(n) * pow2(octave as nat) <= 986);
            Ok(n.octave(octave))
        },
        Err(e) => Err(e),
    }
}


/// One voice of a morph: it glides from the start frequency to the end
/// frequency, both in whole hertz.
#[derive(Debug, Clone, Copy, PartialEq, Eq, Structural)]
pub struct MorphNote {
    pub start_freq: u32,
    pub end_freq: u32,
}


/// The letter with which a note's name begins.
spec fn note_letter(n: Note) -> char {
    match n {
        Note::C => 'C',
        Note::Db | Note::D => 'D',
        Note::Eb | Note::E => 'E',
        Note::F => 'F',
        Note::Gb | Note::G => 'G',
        Note::Ab | Note::A => 'A',
        Note::Bb | Note::B => 'B',
    }
}

/// Whether a note is a flat.
spec fn is_flat(n: Note) -> bool {
    match n {
        Note::Db | Note::Eb | Note::Gb | Note::Ab | Note::Bb => true,
        _ => false,
    }
}

/// A note's name is its letter, followed by `b` when it is a flat.
proof fn lemma_note_name_chars(n: Note)
    ensures
        note_name(n).len() == if is_flat(n) { 2nat } else { 1nat },
        note_name(n)[0] == note_letter(n),
        is_flat(n) ==> note_name(n)[1] == 'b',
{
}

/// Two notes with the same name are the same note.
proof fn lemma_note_names_distinct(m: Note, n: Note)
    ensures
        note_name(m) == note_name(n) ==> m == n,
{
    lemma_note_name_chars(m);
    lemma_note_name_chars(n);
}

/// Each note's name reads back as that note, and a name that reads as a note
/// is that note's name: names and notes correspond one to one.
pub proof fn lemma_note_names_round_trip(n: Note, s: Seq<char>)
    ensures
        spec_parse_note(note_name(n)) == Some(n),
        spec_parse_note(s) == Some(n) ==> s == note_name(n),
{
    assert forall|m: Note| note_name(m) == note_name(n) implies m == n by {
        lemma_note_names_distinct(m, n);
    }
}

/// The notes rise in pitch along the chromatic scale, from C up to B.
pub proof fn lemma_chromatic_order(a: Note, b: Note)
    ensures
        chromatic_index(a) < chromatic_index(b) <==> note_freq(a) < note_freq(b),
{
}

/// A note written with the `u` prefix sounds at twice the frequency of the
/// same note written without it, and the bare name sounds at the note's own
/// frequency.
pub proof fn lemma_upper_octave_doubles(n: Note)
    ensures
        spec_note_to_frequency(note_name(n)) == Ok::<u32, Seq<char>>(note_freq(n) as u32),
        spec_note_to_frequency(seq!['u'] + note_name(n)) == Ok::<u32, Seq<char>>(
            (2 * note_freq(n)) as u32,
        ),
{
    vstd::arithmetic::power2::lemma2_to64();
    lemma_note_names_round_trip(n, note_name(n));
    lemma_note_name_chars(n);
    assert(split_octave(note_name(n)) == (0nat, note_name(n)));
    assert((seq!['u'] + note_name(n)).drop_first() =~= note_name(n));
}

/// Every note of the upper octave sounds above every note of the base
/// octave, and all written notes lie between middle C (261 Hz) and the B
/// an octave above B4 (986 Hz).
pub proof fn lemma_written_note_range(a: Note, b: Note, s: Seq<char>)
    ensures
        note_freq(a) < 2 * note_freq(b),
        spec_note_to_frequency(s) matches Ok(f) ==> 261 <= f <= 986,
{
    vstd::arithmetic::power2::lemma2_to64();
}

/// A written note is refused exactly when what is left after an optional
/// `u` prefix is no note's name, and the refusal repeats that name.
pub proof fn lemma_refused_notes(s: Seq<char>)
    ensures
        spec_note_to_frequency(s) is Err <==> (forall|n: Note| split_octave(s).1 != note_name(n)),
        spec_note_to_frequency(s) is Err ==> spec_note_to_frequency(s) == Err::<u32, Seq<char>>(
            unknown_note_message(split_octave(s).1),
        ),
{
    if spec_note_to_frequency(s) is Ok {
        let n = spec_parse_note(split_octave(s).1).unwrap();
        lemma_note_names_round_trip(n, split_octave(s).1);
    }
    if exists|n: Note| split_octave(s).1 == note_name(n) {
        let n = choose|n: Note| split_octave(s).1 == note_name(n);
        lemma_note_names_round_trip(n, split_octave(s).1);
    }
}

} // verus!
