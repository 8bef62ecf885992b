use vstd::prelude::*;

verus! {

/// The waveform in which the notes of a chord sound.
#[derive(Debug, Clone, Copy, PartialEq, Eq, Structural)]
pub enum Wave {
    Sine,
    Square,
    Saw,
}

/// One component that a note adds to a spectrum: the bin of the spectrum it
/// falls in (its frequency in whole hertz) and the harmonic it is, by which
/// the note's amplitude is divided.
#[derive(Debug, Clone, Copy, PartialEq, Eq, Structural)]
pub struct Partial {
    pub bin: usize,
    pub harmonic: u32,
}

/// The number of harmonics with which each waveform is built.
pub open spec fn spec_harmonics(w: Wave) -> u32 {
    match w {
        Wave::Sine => 1,
        Wave::Square => 40,
        Wave::Saw => 14,
    }
}

/// Whether harmonic `k` sounds in a waveform built with `harmonics`
/// harmonics: a sine has its fundamental alone; a saw every harmonic from the
/// first up to, not including, `harmonics`; a square the odd ones among them.
pub open spec fn sounds(w: Wave, harmonics: u32, k: nat) -> bool {
    match w {
        Wave::Sine => k == 1,
        Wave::Saw => 1 <= k < harmonics,
        Wave::Square => 1 <= k < harmonics && k % 2 == 1,
    }
}

/// The harmonics below which all those that sound lie.
pub open spec fn harmonic_limit(w: Wave, harmonics: u32) -> nat {
    match w {
        Wave::Sine => 2,
        _ => harmonics as nat,
    }
}

/// The partials of a note of frequency `freq` among its harmonics below `m`,
/// in increasing order: each harmonic that sounds and whose frequency falls
/// inside a spectrum of `bins` bins.
pub open spec fn spec_partials(w: Wave, freq: u32, harmonics: u32, bins: usize, m: nat) -> Seq<
    Partial,
>
    decreases m,
{
    if m == 0 {
        seq![]
    } else {
        let k: nat = (m - 1) as nat;
        let prev = spec_partials(w, freq, harmonics, bins, k);
        if sounds(w, harmonics, k) && freq * k < bins {
            prev.push(Partial { bin: (freq * k) as usize, harmonic: k as u32 })
        } else {
            prev
        }
    }
}

/// All the partials that a note of frequency `freq` adds to a spectrum of
/// `bins` bins.
pub open spec fn note_partials(w: Wave, freq: u32, harmonics: u32, bins: usize) -> Seq<Partial> {
    spec_partials(w, freq, harmonics, bins, harmonic_limit(w, harmonics))
}

impl Wave {
    /// The number of harmonics with which the waveform is built.
    pub fn harmonics(self) -> (h: u32)
        ensures
            h == spec_harmonics(self),
    {
        match self {
            Wave::Sine => 1,
            Wave::Square => 40,
            Wave::Saw => 14,
        }
    }

    /// The partials that a note of frequency `freq` (in whole hertz) adds to
    /// a spectrum of `bins` bins, one bin per hertz: harmonic `k` lands in
    /// bin `freq * k` with the note's amplitude divided by `k`, and is left
    /// out when that bin lies outside the spectrum.
    pub fn partials(self, freq: u32, harmonics: u32, bins: usize) -> (r: Vec<Partial>)
        ensures
            r@ == note_partials(self, freq, harmonics, bins),
            forall|i: int|
                0 <= i < r@.len() ==> {
                    &&& (#[trigger] r@[i]).bin == freq * r@[i].harmonic
                    &&& r@[i].bin < bins
                    &&& (self == Wave::Sine ==> r@[i].harmonic == 1)
                    &&& (self == Wave::Saw ==> 1 <= r@[i].harmonic < harmonics)
                    &&& (self == Wave::Square ==> 1 <= r@[i].harmonic < harmonics
                        && r@[i].harmonic % 2 == 1)
                },
            forall|i: int, j: int|
                0 <= i < j < r@.len() ==> (#[trigger] r@[i]).harmonic < (#[trigger] r@[j]).harmonic,
            forall|k: u32|
                #![trigger freq * k]
                freq * k < bins && ((self == Wave::Sine && k == 1) || (self == Wave::Saw && 1 <= k
                    < harmonics) || (self == Wave::Square && 1 <= k < harmonics && k % 2 == 1))
                    ==> exists|i: int| 0 <= i < r@.len() && (#[trigger] r@[i]).harmonic == k,
    {
        let limit: u32 = match self {
            Wave::Sine => 2,
            _ => harmonics,
        };
        let mut r: Vec<Partial> = Vec::new();
        let mut k: u32 = 0;
        while k < limit
            invariant
                k <= limit,
                limit == harmonic_limit(self, harmonics),
                r@ == spec_partials(self, freq, harmonics, bins, k as nat),
            decreases limit - k,
        {
            let sounding = match self {
                Wave::Sine => k == 1,
                Wave::Saw => 1 <= k,
                Wave::Square => 1 <= k && k % 2 == 1,
            };
            assert(freq as u64 * k as u64 <= u32::MAX * u32::MAX) by (nonlinear_arith)
                requires
                    freq <= u32::MAX,
                    k <= u32::MAX,
            ;
            let bin: u64 = freq as u64 * k as u64;
            if sounding && bin < bins as u64 {
                r.push(Partial { bin: bin as usize, harmonic: k });
            }
            k = k + 1;
        }
        proof {
            lemma_partials_shape(self, freq, harmonics, bins);
            assert forall|k: u32|
                #![trigger freq * k]
                freq * k < bins && ((self == Wave::Sine && k == 1) || (self == Wave::Saw && 1 <= k
                    < harmonics) || (self == Wave::Square && 1 <= k < harmonics && k % 2 == 1))
                    implies exists|i: int| 0 <= i < r@.len() && (#[trigger] r@[i]).harmonic == k by {
                assert(freq * (k as nat) < bins);
            }
        }
        r
    }
}


/// The partials among the harmonics below `m` are in increasing order of
/// harmonic; each is a harmonic below `m` that sounds, placed in the bin of
/// its frequency, inside the spectrum; and every harmonic below `m` that
/// sounds and falls inside the spectrum is among them.
proof fn lemma_spec_partials_shape(w: Wave, freq: u32, harmonics: u32, bins: usize, m: nat)
    requires
        m <= harmonic_limit(w, harmonics),
    ensures
        ({
            let p = spec_partials(w, freq, harmonics, bins, m);
            &&& forall|i: int|
                0 <= i < p.len() ==> {
                    &&& (#[trigger] p[i]).bin == freq * p[i].harmonic
                    &&& p[i].bin < bins
                    &&& sounds(w, harmonics, p[i].harmonic as nat)
                    &&& p[i].harmonic < m
                }
            &&& forall|i: int, j: int|
                0 <= i < j < p.len() ==> (#[trigger] p[i]).harmonic < (#[trigger] p[j]).harmonic
            &&& forall|k: nat|
                k < m && #[trigger] sounds(w, harmonics, k) && freq * k < bins ==> exists|i: int|
                    0 <= i < p.len() && (#[trigger] p[i]).harmonic == k
        }),
    decreases m,
{
    if m > 0 {
        let k: nat = (m - 1) as nat;
        lemma_spec_partials_shape(w, freq, harmonics, bins, k);
        let prev = spec_partials(w, freq, harmonics, bins, k);
        let p = spec_partials(w, freq, harmonics, bins, m);
        assert(k <= u32::MAX);
        if sounds(w, harmonics, k) && freq * k < bins {
            assert(p[prev.len() as int].harmonic == k);
        }
        assert forall|j: nat|
            j < m && #[trigger] sounds(w, harmonics, j) && freq * j < bins implies exists|i: int|
                0 <= i < p.len() && (#[trigger] p[i]).harmonic == j by {
            if j < k {
                let i = choose|i: int| 0 <= i < prev.len() && (#[trigger] prev[i]).harmonic == j;
                assert(p[i] == prev[i]);
            } else {
                assert(p[prev.len() as int].harmonic == j);
            }
        }
    }
}

/// The partials that a note adds to a spectrum are exactly the harmonics
/// that sound in its waveform and fall inside the spectrum, in increasing
/// order, each in the bin of its frequency. In particular a square wave adds
/// odd harmonics only, and every partial lies inside the spectrum.
pub proof fn lemma_partials_shape(w: Wave, freq: u32, harmonics: u32, bins: usize)
    ensures
        ({
            let p = note_partials(w, freq, harmonics, bins);
            &&& forall|i: int|
                0 <= i < p.len() ==> {
                    &&& (#[trigger] p[i]).bin == freq * p[i].harmonic
                    &&& p[i].bin < bins
                    &&& (w == Wave::Sine ==> p[i].harmonic == 1)
                    &&& (w == Wave::Saw ==> 1 <= p[i].harmonic < harmonics)
                    &&& (w == Wave::Square ==> 1 <= p[i].harmonic < harmonics && p[i].harmonic % 2
                        == 1)
                }
            &&& forall|i: int, j: int|
                0 <= i < j < p.len() ==> (#[trigger] p[i]).harmonic < (#[trigger] p[j]).harmonic
            &&& forall|k: nat|
                #![trigger freq * k]
                freq * k < bins && ((w == Wave::Sine && k == 1) || (w == Wave::Saw && 1 <= k
                    < harmonics) || (w == Wave::Square && 1 <= k < harmonics && k % 2 == 1))
                    ==> exists|i: int| 0 <= i < p.len() && (#[trigger] p[i]).harmonic == k
        }),
{
    let m: nat = harmonic_limit(w, harmonics);
    lemma_spec_partials_shape(w, freq, harmonics, bins, m);
    let p = note_partials(w, freq, harmonics, bins);
    assert forall|k: nat|
        #![trigger freq * k]
        freq * k < bins && ((w == Wave::Sine && k == 1) || (w == Wave::Saw && 1 <= k < harmonics)
            || (w == Wave::Square && 1 <= k < harmonics && k % 2 == 1)) implies exists|i: int|
        0 <= i < p.len() && (#[trigger] p[i]).harmonic == k by {
        assert(sounds(w, harmonics, k));
        assert(k < m);
    }
}

/// A sine wave adds its fundamental alone: one partial at the note's own
/// bin, if that bin lies inside the spectrum, whatever the harmonic count.
pub proof fn lemma_sine_is_fundamental(freq: u32, harmonics: u32, bins: usize)
    ensures
        note_partials(Wave::Sine, freq, harmonics, bins) == if freq < bins {
            seq![Partial { bin: freq as usize, harmonic: 1 }]
        } else {
            seq![]
        },
{
    assert(spec_partials(Wave::Sine, freq, harmonics, bins, 0) == Seq::<Partial>::empty());
    assert(spec_partials(Wave::Sine, freq, harmonics, bins, 1) == Seq::<Partial>::empty());
    assert(freq * 1 == freq);
    assert(note_partials(Wave::Sine, freq, harmonics, bins) =~= if freq < bins {
        seq![Partial { bin: freq as usize, harmonic: 1 }]
    } else {
        seq![]
    });
}

} // verus!
