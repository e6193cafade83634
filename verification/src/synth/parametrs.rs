use vstd::prelude::*;
use vstd::std_specs::cmp::PartialOrdSpec;

use crate::utils::convert::{octave_in_range, octave_offset_to_notes};
use crate::utils::math::{clamp, clamped};

verus! {

/// A value that can be read, set and ranged, such as a knob of the synthesizer.
pub trait Parametr<T>: Send + Sync where T: Clone + PartialOrd + Default {
    /// Whether `set_value(value)` may be called in this state; always, unless
    /// an implementation says otherwise.
    open spec fn can_set(&self, value: T) -> bool {
        true
    }

    /// Whether `get_value` and `range` may be called in this state; always,
    /// unless an implementation says otherwise.
    open spec fn can_read(&self) -> bool {
        true
    }

    fn set_value(&mut self, value: T)
        requires
            old(self).can_set(value),
    ;

    fn get_value(&self) -> T
        requires
            self.can_read(),
    ;

    fn range(&self) -> (T, T)
        requires
            self.can_read(),
    ;
}

/// A value kept inside a range.
pub struct ValueParametr<T> where T: Clone {
    value: T,
    range: (T, T),
}

impl<T: Clone> ValueParametr<T> {
    pub closed spec fn value_spec(self) -> T {
        self.value
    }

    pub closed spec fn range_spec(self) -> (T, T) {
        self.range
    }

    /// A parameter holding `value` with bounds `range`; the value is taken as given.
    pub fn new(value: T, range: (T, T)) -> (r: Self)
        ensures
            r.value_spec() == value,
            r.range_spec() == range,
    {
        Self { value, range }
    }
}

impl<T> Parametr<T> for ValueParametr<T> where T: Clone + PartialOrd + Default + Send + Sync + 'static {
    /// Sets the value, clamped into the range.
    fn set_value(&mut self, value: T)
        ensures
            final(self).range_spec() == old(self).range_spec(),
            T::obeys_partial_cmp_spec() ==> clamped(
                value,
                old(self).range_spec(),
                final(self).value_spec(),
            ),
    {
        self.value = clamp(value, &self.range);
    }

    fn get_value(&self) -> (r: T)
        ensures
            cloned(self.value_spec(), r),
    {
        self.value.clone()
    }

    fn range(&self) -> (r: (T, T))
        ensures
            cloned(self.range_spec().0, r.0),
            cloned(self.range_spec().1, r.1),
    {
        (self.range.0.clone(), self.range.1.clone())
    }
}

/// An offset in octaves, with the matching shift in semitones kept alongside.
pub struct OctaveParametr {
    pub notes: i32,
    /// The offset in octaves.
    pub parametr: ValueParametr<i32>,
}

impl OctaveParametr {
    /// The octave parameter that wraps `parametr`.
    pub open spec fn parametr_spec(self) -> ValueParametr<i32> {
        self.parametr
    }

    /// The shift in semitones.
    pub open spec fn notes_spec(self) -> i32 {
        self.notes
    }

    /// The semitones follow the octaves.
    pub open spec fn notes_follow(self) -> bool {
        self.notes_spec() == self.parametr_spec().value_spec() * 12
    }

    /// The octave parameter that wraps `parametr`; its value must convert to
    /// semitones.
    pub fn new(parametr: ValueParametr<i32>) -> (r: Self)
        requires
            octave_in_range(parametr.value_spec() as int),
        ensures
            r.parametr_spec() == parametr,
            r.notes_follow(),
    {
        Self { notes: octave_offset_to_notes(parametr.get_value()), parametr }
    }
}

/// Where `value` lands once clamped into `range`.
pub open spec fn clamp_i32(value: i32, range: (i32, i32)) -> i32 {
    if value < range.0 {
        range.0
    } else if value > range.1 {
        range.1
    } else {
        value
    }
}

/// `clamp_i32` is what `clamp` gives on `i32`: for a range in order the result
/// lies inside it, and a value already inside is kept.
pub proof fn lemma_clamp_i32_is_clamp(value: i32, range: (i32, i32))
    ensures
        clamped(value, range, clamp_i32(value, range)),
        range.0 <= range.1 ==> range.0 <= clamp_i32(value, range) <= range.1,
        range.0 <= value <= range.1 ==> clamp_i32(value, range) == value,
{
}

impl Parametr<i32> for OctaveParametr {
    /// The clamped value must convert to semitones.
    open spec fn can_set(&self, value: i32) -> bool {
        octave_in_range(clamp_i32(value, self.parametr_spec().range_spec()) as int)
    }

    /// Sets the offset, clamped into the range, and the semitones with it.
    fn set_value(&mut self, value: i32)
        ensures
            final(self).parametr_spec().range_spec() == old(self).parametr_spec().range_spec(),
            final(self).parametr_spec().value_spec() == clamp_i32(
                value,
                old(self).parametr_spec().range_spec(),
            ),
            value < old(self).parametr_spec().range_spec().0 ==> final(self).parametr_spec().value_spec() == old(self).parametr_spec().range_spec().0,
            old(self).parametr_spec().range_spec().0 <= value
                && old(self).parametr_spec().range_spec().1 < value ==> final(self).parametr_spec().value_spec() == old(self).parametr_spec().range_spec().1,
            old(self).parametr_spec().range_spec().0 <= value
                <= old(self).parametr_spec().range_spec().1 ==> final(self).parametr_spec().value_spec() == value,
            final(self).notes_follow(),
    {
        self.parametr.set_value(value);
        let v = self.parametr.get_value();
        self.notes = octave_offset_to_notes(v);
    }

    fn get_value(&self) -> (r: i32)
        ensures
            r == self.parametr_spec().value_spec(),
    {
        self.parametr.get_value()
    }

    fn range(&self) -> (r: (i32, i32))
        ensures
            r == self.parametr_spec().range_spec(),
    {
        self.parametr.range()
    }
}

/// A parametr whose value lives elsewhere: setting, reading and ranging it
/// call the three closures.
#[verifier::reject_recursive_types(T)]
pub struct CallbackParametr<S, G, R, T> where
    S: FnMut(T) + Send + Sync,
    G: Fn() -> T + Send + Sync,
    R: Fn() -> (T, T) + Send + Sync,
    T: Clone + PartialOrd + Default + Send + Sync,
 {
    pub setter: S,
    pub getter: G,
    pub range: R,
}

impl<S, G, R, T> CallbackParametr<S, G, R, T> where
    S: FnMut(T) + Send + Sync + 'static,
    G: Fn() -> T + Send + Sync + 'static,
    R: Fn() -> (T, T) + Send + Sync + 'static,
    T: Clone + PartialOrd + Default + Send + Sync + 'static,
 {
    pub fn new(setter: S, getter: G, range: R) -> (r: Self)
        ensures
            r.setter == setter,
            r.getter == getter,
            r.range == range,
    {
        Self { setter, getter, range }
    }
}

impl<S, G, R, T> Parametr<T> for CallbackParametr<S, G, R, T> where
    S: FnMut(T) + Send + Sync + 'static,
    G: Fn() -> T + Send + Sync + 'static,
    R: Fn() -> (T, T) + Send + Sync + 'static,
    T: Clone + PartialOrd + Default + Send + Sync + 'static,
 {
    open spec fn can_set(&self, value: T) -> bool {
        call_requires(self.setter, (value,))
    }

    open spec fn can_read(&self) -> bool {
        &&& call_requires(self.getter, ())
        &&& call_requires(self.range, ())
    }

    /// Hands `value` to the setter: the setter runs once on `value`.
    fn set_value(&mut self, value: T)
        ensures
            call_ensures(old(self).setter, (value,), ()),
            final(self).setter == old(self).setter,
            final(self).getter == old(self).getter,
            final(self).range == old(self).range,
    {
        (self.setter)(value)
    }

    /// What the getter returns.
    fn get_value(&self) -> (r: T)
        ensures
            call_ensures(self.getter, (), r),
    {
        (self.getter)()
    }

    /// What the range closure returns.
    fn range(&self) -> (r: (T, T))
        ensures
            call_ensures(self.range, (), r),
    {
        (self.range)()
    }
}

} // verus!
