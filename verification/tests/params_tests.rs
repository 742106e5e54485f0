use yeetlight::params::{Brightness, Color, ColorError, Effect, Percentage, RangeError,
    Temperature};

#[test]
fn brightness_new_within_range() {
    let result = Brightness::new(Brightness::MAX - 1);
    assert!(result.is_ok());
    let result = Brightness::new(Brightness::MIN + 1);
    assert!(result.is_ok());
}

#[test]
fn brightness_new_out_of_range() {
    let result = Brightness::new(Brightness::MAX + 1);
    assert!(result.is_err());
    let result = Brightness::new(Brightness::MIN - 1);
    assert!(result.is_err());
}

#[test]
fn temperature_new_within_range() {
    let result = Temperature::new(Temperature::MAX - 1);
    assert!(result.is_ok());
    let result = Temperature::new(Temperature::MIN + 1);
    assert!(result.is_ok());
}

#[test]
fn temperature_new_out_of_range() {
    let result = Temperature::new(Temperature::MAX + 1);
    assert!(result.is_err());
    let result = Temperature::new(Temperature::MIN - 1);
    assert!(result.is_err());
}

#[test]
fn percentage_new_within_range() {
    let result = Percentage::new(Percentage::MAX - 1);
    assert!(result.is_ok());
    let result = Percentage::new(Percentage::MIN + 1);
    assert!(result.is_ok());
}

#[test]
fn percentage_new_out_of_range() {
    let result = Percentage::new(Percentage::MAX + 1);
    assert!(result.is_err());
    let result = Percentage::new(Percentage::MIN - 1);
    assert!(result.is_err());
}

#[test]
fn from_hex() {
    let result = Color::from_hex("ff0000");
    assert!(result.is_ok());
    let result = Color::from_hex("FF0000");
    assert!(result.is_ok());
    let result = Color::from_hex("fF0000");
    assert!(result.is_ok());

    // A three-digit form might one day be read as "ff0000".
    let result = Color::from_hex("f00");
    assert!(result.is_err());

    let result = Color::from_hex("fff0000");
    assert!(result.is_err());
    let result = Color::from_hex("fff00");
    assert!(result.is_err());
    let result = Color::from_hex("ffoooo");
    assert!(result.is_err());
}

#[test]
fn from_hex_case_insensitive_same_value() {
    let lower = Color::from_hex("ff0000").unwrap();
    let upper = Color::from_hex("FF0000").unwrap();
    let mixed = Color::from_hex("fF0000").unwrap();
    assert_eq!(lower, upper);
    assert_eq!(lower, mixed);
    assert_eq!(lower.0, 0xff0000);
    assert_eq!(Color::from_hex("00a1Fe").unwrap().0, 0x00a1fe);
}

#[test]
fn from_hex_error_carries_input() {
    match Color::from_hex("ffoooo") {
        Err(ColorError::InvalidColor(s)) => assert_eq!(s, "ffoooo"),
        Ok(_) => panic!("expected an error"),
    }
}

#[test]
fn range_error_carries_value_and_bounds() {
    let err = Brightness::new(0).unwrap_err();
    assert_eq!(err, RangeError { value: 0, min: 1, max: 100 });
    let err = Temperature::new(6501).unwrap_err();
    assert_eq!(err, RangeError { value: 6501, min: 1700, max: 6500 });
    let err = Percentage::new(-101).unwrap_err();
    assert_eq!(err, RangeError { value: -101, min: -100, max: 100 });
}

#[test]
fn brightness_bounds_are_inclusive() {
    assert_eq!(Brightness::new(1).unwrap(), Brightness(1));
    assert_eq!(Brightness::new(100).unwrap(), Brightness(100));
    assert!(Brightness::new(0).is_err());
    assert!(Brightness::new(101).is_err());
}

#[test]
fn effect_names_and_durations() {
    assert_eq!(Effect::Smooth(400).effect(), "smooth");
    assert_eq!(Effect::Smooth(400).duration(), 400);
    assert_eq!(Effect::Sudden.effect(), "sudden");
    assert_eq!(Effect::Sudden.duration(), 0);
}
