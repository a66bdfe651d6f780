use speedylemon::util::euclidian_distance_2d;
use speedylemon::util::euclidian_distance_3d;
use speedylemon::util::integer_sqrt;
use speedylemon::util::Position;
use speedylemon::util::Timestamp;

#[test]
fn integer_sqrt_rounds_down() {
    assert_eq!(integer_sqrt(0), 0);
    assert_eq!(integer_sqrt(1), 1);
    assert_eq!(integer_sqrt(3), 1);
    assert_eq!(integer_sqrt(4), 2);
    assert_eq!(integer_sqrt(24), 4);
    assert_eq!(integer_sqrt(25), 5);
    assert_eq!(integer_sqrt(26), 5);
    assert_eq!(integer_sqrt(1_000_000_000_000), 1_000_000);
    assert_eq!(integer_sqrt(999_999_999_999), 999_999);
}

#[test]
fn integer_sqrt_of_the_greatest_number() {
    assert_eq!(integer_sqrt(u128::MAX), u64::MAX);
}

#[test]
fn distance_in_space() {
    let a = Position { x: 1, y: 2, z: 3 };
    let b = Position { x: 3, y: 5, z: 9 };
    assert_eq!(euclidian_distance_3d(&a, &b), 7);
    assert_eq!(euclidian_distance_3d(&b, &a), 7);
    assert_eq!(euclidian_distance_3d(&a, &a), 0);
}

#[test]
fn distance_from_above_leaves_height_out() {
    let a = Position { x: 0, y: 1000, z: 0 };
    let b = Position { x: 3, y: -1000, z: 4 };
    assert_eq!(euclidian_distance_2d(&a, &b), 5);
}

#[test]
fn distance_is_rounded_down() {
    let a = Position { x: 0, y: 0, z: 0 };
    let b = Position { x: 1, y: 1, z: 1 };
    assert_eq!(euclidian_distance_3d(&a, &b), 1);
    assert_eq!(euclidian_distance_2d(&a, &b), 1);
    let c = Position { x: 2, y: 2, z: 2 };
    assert_eq!(euclidian_distance_3d(&a, &c), 3);
    assert_eq!(euclidian_distance_2d(&a, &c), 2);
}

#[test]
fn distance_across_the_whole_grid() {
    let a = Position { x: i32::MIN, y: i32::MIN, z: i32::MIN };
    let b = Position { x: i32::MAX, y: i32::MAX, z: i32::MAX };
    assert_eq!(euclidian_distance_3d(&a, &b), 7_439_101_571);
    assert_eq!(euclidian_distance_2d(&a, &b), 6_074_000_998);
}

#[test]
fn origin_is_all_zero() {
    assert_eq!(Position::new(), Position { x: 0, y: 0, z: 0 });
}

#[test]
fn timestamp_has_minutes_seconds_millis() {
    assert_eq!(0u64.timestamp(), "00:00:000");
    assert_eq!(999u64.timestamp(), "00:00:999");
    assert_eq!(1_000u64.timestamp(), "00:01:000");
    assert_eq!(61_005u64.timestamp(), "01:01:005");
    assert_eq!(754_321u64.timestamp(), "12:34:321");
    assert_eq!(5_999_999u64.timestamp(), "99:59:999");
}

#[test]
fn timestamp_of_a_hundred_minutes_and_more() {
    assert_eq!(6_000_000u64.timestamp(), "100:00:000");
    assert_eq!(u64::MAX.timestamp(), "307445734561825:51:615");
}
