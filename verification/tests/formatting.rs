use tinkerbell::sensor::Temperature;
use tinkerbell::text::{banner, format_temperature};

#[test]
fn banner_is_the_fixed_first_line() {
    assert_eq!(banner().as_str(), "## TINKERBELL ##");
}

#[test]
fn format_whole_positive_reading() {
    assert_eq!(format_temperature(Temperature { raw: 1360 }).as_str(), "Temp: 85.0");
}

#[test]
fn format_zero_reading() {
    assert_eq!(format_temperature(Temperature { raw: 0 }).as_str(), "Temp: 0.0");
}

#[test]
fn format_rounds_smallest_negative_to_a_tenth() {
    assert_eq!(format_temperature(Temperature { raw: -1 }).as_str(), "Temp: -0.1");
}

#[test]
fn format_rounds_ties_to_even() {
    // 4 sixteenths = 0.25 degrees: the tie rounds down to the even tenth.
    assert_eq!(format_temperature(Temperature { raw: 4 }).as_str(), "Temp: 0.2");
    assert_eq!(format_temperature(Temperature { raw: -4 }).as_str(), "Temp: -0.2");
    // 12 sixteenths = 0.75 degrees: the tie rounds up to the even tenth.
    assert_eq!(format_temperature(Temperature { raw: 12 }).as_str(), "Temp: 0.8");
    assert_eq!(format_temperature(Temperature { raw: -12 }).as_str(), "Temp: -0.8");
}

#[test]
fn format_negative_reading() {
    assert_eq!(format_temperature(Temperature { raw: -114 }).as_str(), "Temp: -7.1");
}

#[test]
fn format_fractional_reading() {
    // 1385 sixteenths = 86.5625 degrees, rendered to one decimal place.
    assert_eq!(format_temperature(Temperature { raw: 1385 }).as_str(), "Temp: 86.6");
}

#[test]
fn format_extreme_readings_fit_the_buffer() {
    assert_eq!(format_temperature(Temperature { raw: i16::MIN }).as_str(), "Temp: -2048.0");
    assert_eq!(format_temperature(Temperature { raw: i16::MAX }).as_str(), "Temp: 2047.9");
}
