use oosc::synth::parameter::{CallbackParameter, Parameter};
use oosc::synth::parametrs::{CallbackParametr, OctaveParametr, Parametr, ValueParametr};
use oosc::utils::convert::octave_offset_to_notes;
use oosc::utils::math::clamp;
use std::sync::{Arc, RwLock};

#[test]
fn clamp_limits_to_the_range() {
    assert_eq!(clamp(5, &(0, 3)), 3);
    assert_eq!(clamp(-5, &(0, 3)), 0);
    assert_eq!(clamp(2, &(0, 3)), 2);
    assert_eq!(clamp(clamp(9, &(0, 3)), &(0, 3)), 3);
    assert_eq!(clamp(0.5f32, &(-1.0, 1.0)), 0.5);
    assert_eq!(clamp(1.5f32, &(-1.0, 1.0)), 1.0);
}

#[test]
fn value_parametr_clamps_on_set() {
    let mut p = ValueParametr::new(0, (-2, 2));
    assert_eq!(p.get_value(), 0);
    p.set_value(5);
    assert_eq!(p.get_value(), 2);
    p.set_value(-9);
    assert_eq!(p.get_value(), -2);
    assert_eq!(p.range(), (-2, 2));
    let p = ValueParametr::new(7, (0, 3));
    assert_eq!(p.get_value(), 7);
}

#[test]
fn octave_parametr_keeps_semitones() {
    assert_eq!(octave_offset_to_notes(-2), -24);
    let mut p = OctaveParametr::new(ValueParametr::new(1, (-2, 2)));
    assert_eq!(p.notes, 12);
    p.set_value(5);
    assert_eq!(p.get_value(), 2);
    assert_eq!(p.notes, 24);
    p.set_value(-1);
    assert_eq!(p.notes, -12);
    assert_eq!(p.range(), (-2, 2));
}

#[test]
fn callback_parameter_calls_through() {
    let store = Arc::new(RwLock::new(0.25f32));
    let (a, b) = (store.clone(), store.clone());
    let mut p = CallbackParameter::new(
        move |v: f32| *a.write().unwrap() = v,
        move || *b.read().unwrap(),
        || (0.0, 1.0),
    );
    assert_eq!(Parameter::get_value(&p), 0.25);
    Parameter::set_value(&mut p, 0.75);
    assert_eq!(*store.read().unwrap(), 0.75);
    assert_eq!(Parameter::range(&p), (0.0, 1.0));

    let (a, b) = (store.clone(), store.clone());
    let mut q = CallbackParametr::new(
        move |v: f32| *a.write().unwrap() = v,
        move || *b.read().unwrap(),
        || (0.0, 10.0),
    );
    Parametr::set_value(&mut q, 3.0);
    assert_eq!(Parametr::get_value(&q), 3.0);
    assert_eq!(Parametr::range(&q), (0.0, 10.0));
}

struct Doubled {
    value: f32,
}

impl Parametr<f32> for Doubled {
    fn set_value(&mut self, value: f32) {
        self.value = value * 2.0;
    }

    fn get_value(&self) -> f32 {
        self.value
    }

    fn range(&self) -> (f32, f32) {
        (0.0, 10.0)
    }
}

#[test]
fn test_parametr_trait_object() {
    let mut p: Box<dyn Parametr<f32>> = Box::new(Doubled { value: 0.0 });
    p.set_value(2.0);
    assert_eq!(p.get_value(), 4.0);
    assert_eq!(p.range(), (0.0, 10.0));
}

#[test]
fn octave_bounds_need_not_convert() {
    let mut p = OctaveParametr::new(ValueParametr::new(1, (i32::MIN, i32::MAX)));
    assert_eq!(p.notes, 12);
    p.set_value(-3);
    assert_eq!(p.notes, -36);
    assert_eq!(p.get_value(), -3);
}
