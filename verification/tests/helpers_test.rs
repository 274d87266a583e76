use snake_engine::utils::enums::Direction;
use snake_engine::utils::helpers::{convert_seconds_to_string, get_direction_from_vector};

#[test]
fn clock_pads_to_two_digits() {
    assert_eq!(convert_seconds_to_string(&0), "00:00");
    assert_eq!(convert_seconds_to_string(&67), "01:07");
    assert_eq!(convert_seconds_to_string(&3599), "59:59");
}

#[test]
fn clock_keeps_long_minutes() {
    assert_eq!(convert_seconds_to_string(&7384), "123:04");
    assert_eq!(convert_seconds_to_string(&u64::MAX), "307445734561825860:15");
}

#[test]
fn vector_heads_along_its_longer_part() {
    assert_eq!(get_direction_from_vector(&(2, 0)), Direction::Right);
    assert_eq!(get_direction_from_vector(&(-2, 0)), Direction::Left);
    assert_eq!(get_direction_from_vector(&(0, 1)), Direction::Up);
    assert_eq!(get_direction_from_vector(&(0, -1)), Direction::Down);
    assert_eq!(get_direction_from_vector(&(0, 0)), Direction::Up);
    assert_eq!(get_direction_from_vector(&(1, 1)), Direction::Up);
    assert_eq!(get_direction_from_vector(&(3, -3)), Direction::Down);
}
