use vstd::prelude::*;

verus! {

/// A sample value brought into the range of a 16-bit sample.
pub open spec fn spec_clamp_sample(x: int) -> int {
    if x < i16::MIN {
        i16::MIN as int
    } else if x > i16::MAX {
        i16::MAX as int
    } else {
        x
    }
}

/// Brings a sample value into the range of a 16-bit sample: values below
/// -32768 become -32768, values above 32767 become 32767, the others stay.
pub fn clamp_sample(x: i64) -> (s: i16)
    ensures
        s as int == spec_clamp_sample(x as int),
        i16::MIN <= x <= i16::MAX ==> s == x,
        x < i16::MIN ==> s == i16::MIN,
        x > i16::MAX ==> s == i16::MAX,
{
    if x < i16::MIN as i64 {
        i16::MIN
    } else if x > i16::MAX as i64 {
        i16::MAX
    } else {
        x as i16
    }
}


/// Clamping keeps every value of the 16-bit range as it is and sends every
/// value below it to -32768 and every value above it to 32767; so it never
/// moves a value further than its distance to the range, and never reorders
/// two values.
pub proof fn lemma_clamp_sample(x: int, y: int)
    ensures
        i16::MIN <= x <= i16::MAX ==> spec_clamp_sample(x) == x,
        x < i16::MIN ==> spec_clamp_sample(x) == i16::MIN,
        x > i16::MAX ==> spec_clamp_sample(x) == i16::MAX,
        i16::MIN <= spec_clamp_sample(x) <= i16::MAX,
        x <= y ==> spec_clamp_sample(x) <= spec_clamp_sample(y),
{
}

} // verus!
