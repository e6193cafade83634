use vstd::prelude::*;
use vstd::std_specs::cmp::PartialOrdIs;
use vstd::std_specs::cmp::PartialOrdSpec;

verus! {

/// What `clamp(input, range)` gives, for types whose comparison follows its
/// specification: `range.0` below the range, `range.1` above it, else `input`.
pub open spec fn clamped<T: Clone + PartialOrd>(input: T, range: (T, T), r: T) -> bool {
    if input.is_lt(&range.0) {
        cloned(range.0, r)
    } else if input.is_gt(&range.1) {
        cloned(range.1, r)
    } else {
        r == input
    }
}

/// Limits `input` to `range.0..=range.1`: a value below the range gives (a clone of)
/// `range.0`, a value above gives `range.1`, any other value is returned unchanged.
/// The range is meant to have `range.0 <= range.1`; the comparisons decide in any case.
pub fn clamp<T: Clone + PartialOrd>(input: T, range: &(T, T)) -> (r: T)
    ensures
        T::obeys_partial_cmp_spec() ==> clamped(input, *range, r),
{
    if input < range.0 {
        range.0.clone()
    } else if input > range.1 {
        range.1.clone()
    } else {
        input
    }
}

/// For a range in order, clamping lands inside it and leaves values already
/// inside unchanged; clamping twice is clamping once.
pub proof fn lemma_clamp_i32(input: i32, lo: i32, hi: i32, r: i32)
    requires
        lo <= hi,
        clamped(input, (lo, hi), r),
    ensures
        lo <= r <= hi,
        lo <= input <= hi ==> r == input,
        clamped(r, (lo, hi), r),
{
}

} // verus!
