use noodle_cat::sensor::{ContactSample, select_anchor};
use noodle_cat::math::vec2;

fn sample(separation: i64) -> ContactSample {
    ContactSample {
        touching: true,
        sensor_is_a: true,
        sensor_is_b: false,
        other: 7,
        other_dynamic: false,
        separation,
        normal: vec2(0, 1_000_000),
    }
}

#[test]
fn no_contacts_means_no_candidate() {
    let samples: Vec<ContactSample> = Vec::new();
    assert!(select_anchor(&samples).is_none());
}

#[test]
fn deepest_contact_wins() {
    let mut a = sample(-100_000);
    a.other = 1;
    let mut b = sample(-500_000);
    b.other = 2;
    let mut c = sample(-300_000);
    c.other = 3;
    let samples = vec![a, b, c];
    let r = select_anchor(&samples).unwrap();
    assert_eq!(r.other, 2);
    assert_eq!(r.separation, -500_000);
}

#[test]
fn earliest_of_equal_depths_wins() {
    let mut a = sample(-400_000);
    a.other = 1;
    let mut b = sample(-400_000);
    b.other = 2;
    let samples = vec![a, b];
    assert_eq!(select_anchor(&samples).unwrap().other, 1);
}

#[test]
fn non_qualifying_contacts_are_ignored() {
    let mut untouched = sample(-900_000);
    untouched.touching = false;
    let mut no_sensor = sample(-900_000);
    no_sensor.sensor_is_a = false;
    let mut dynamic = sample(-900_000);
    dynamic.other_dynamic = true;
    let shallow = sample(-100_000);
    let samples = vec![untouched, no_sensor, dynamic, shallow];
    let r = select_anchor(&samples).unwrap();
    assert_eq!(r.separation, -100_000);
}

#[test]
fn sensor_on_side_b_flips_the_normal() {
    let mut s = sample(-200_000);
    s.sensor_is_a = false;
    s.sensor_is_b = true;
    let samples = vec![s];
    let r = select_anchor(&samples).unwrap();
    assert_eq!(r.normal, vec2(0, -1_000_000));
}
