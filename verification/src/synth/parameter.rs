use vstd::prelude::*;


verus! {

/// A value that can be read, set and ranged, such as a control of an effect.
pub trait Parameter<T>: Send + Sync where T: Clone + PartialOrd + Default {
    /// Whether `set_value(value)` may be called in this state; always, unless
    /// an implementation says otherwise.
    open spec fn can_set(&self, value: T) -> bool {
        true
    }

    /// Whether `get_value` and `range` may be called in this state; always,
    /// unless an implementation says otherwise.
    open spec fn can_read(&self) -> bool {
        true
    }

    fn set_value(&mut self, value: T)
        requires
            old(self).can_set(value),
    ;

    fn get_value(&self) -> T
        requires
            self.can_read(),
    ;

    fn range(&self) -> (T, T)
        requires
            self.can_read(),
    ;
}

/// A parameter whose value lives elsewhere: setting, reading and ranging it
/// call the three closures.
#[verifier::reject_recursive_types(T)]
pub struct CallbackParameter<S, G, R, T> where
    S: FnMut(T) + Send + Sync,
    G: Fn() -> T + Send + Sync,
    R: Fn() -> (T, T) + Send + Sync,
    T: Clone + PartialOrd + Default + Send + Sync,
 {
    pub setter: S,
    pub getter: G,
    pub range: R,
}

impl<S, G, R, T> CallbackParameter<S, G, R, T> where
    S: FnMut(T) + Send + Sync + 'static,
    G: Fn() -> T + Send + Sync + 'static,
    R: Fn() -> (T, T) + Send + Sync + 'static,
    T: Clone + PartialOrd + Default + Send + Sync + 'static,
 {
    pub fn new(setter: S, getter: G, range: R) -> (r: Self)
        ensures
            r.setter == setter,
            r.getter == getter,
            r.range == range,
    {
        Self { setter, getter, range }
    }
}

impl<S, G, R, T> Parameter<T> for CallbackParameter<S, G, R, T> where
    S: FnMut(T) + Send + Sync + 'static,
    G: Fn() -> T + Send + Sync + 'static,
    R: Fn() -> (T, T) + Send + Sync + 'static,
    T: Clone + PartialOrd + Default + Send + Sync + 'static,
 {
    open spec fn can_set(&self, value: T) -> bool {
        call_requires(self.setter, (value,))
    }

    open spec fn can_read(&self) -> bool {
        &&& call_requires(self.getter, ())
        &&& call_requires(self.range, ())
    }

    /// Hands `value` to the setter: the setter runs once on `value`.
    fn set_value(&mut self, value: T)
        ensures
            call_ensures(old(self).setter, (value,), ()),
            final(self).setter == old(self).setter,
            final(self).getter == old(self).getter,
            final(self).range == old(self).range,
    {
        (self.setter)(value)
    }

    /// What the getter returns.
    fn get_value(&self) -> (r: T)
        ensures
            call_ensures(self.getter, (), r),
    {
        (self.getter)()
    }

    /// What the range closure returns.
    fn range(&self) -> (r: (T, T))
        ensures
            call_ensures(self.range, (), r),
    {
        (self.range)()
    }
}

} // verus!
