use proximity_bridge::position::Position;
use proximity_bridge::volume::{dist_sq_exec, isqrt, volume, MAX_VOLUME};

fn pos(world: &str, x: i32, y: i32, z: i32) -> Position {
    Position { world: world.to_string(), x, y, z }
}

#[test]
fn scenario_half_distance() {
    // listener at the origin, speaker 50 blocks away, hearing distance 100:
    // attenuation 0.5, volume = ceil(0.25 * 110) = 28
    let l = pos("world", 0, 0, 0);
    let o = pos("world", 50, 0, 0);
    assert_eq!(volume(&l, &o, 100), 28);
}

#[test]
fn scenario_other_world() {
    let l = pos("world", 0, 0, 0);
    let o = pos("nether", 0, 0, 0);
    assert_eq!(volume(&l, &o, 100), 0);
}

#[test]
fn scenario_beyond_max_distance() {
    let l = pos("world", 0, 0, 0);
    let o = pos("world", 150, 0, 0);
    assert_eq!(volume(&l, &o, 100), 0);
}

#[test]
fn full_volume_at_zero_distance() {
    let l = pos("world", 3, -4, 12);
    let o = pos("world", 3, -4, 12);
    assert_eq!(volume(&l, &o, 100), MAX_VOLUME);
}

#[test]
fn silent_while_unconfigured() {
    // hearing distance zero is the safe default: everyone is silent
    let l = pos("world", 0, 0, 0);
    let o = pos("world", 1, 0, 0);
    assert_eq!(volume(&l, &o, 0), 0);
}

#[test]
fn volume_non_increasing_with_distance() {
    let l = pos("world", 0, 0, 0);
    let distances = [0, 10, 30, 50, 80, 99, 100, 120];
    let mut last = MAX_VOLUME;
    for d in distances {
        let o = pos("world", d, 0, 0);
        let v = volume(&l, &o, 100);
        assert!(v <= last);
        last = v;
    }
}

#[test]
fn volume_positive_just_inside_max() {
    let l = pos("world", 0, 0, 0);
    let o = pos("world", 99, 0, 0);
    // one block inside the limit is still barely audible
    assert_eq!(volume(&l, &o, 100), 1);
}

#[test]
fn distance_is_euclidean() {
    let l = pos("world", 0, 0, 0);
    let o = pos("world", 3, 4, 0);
    assert_eq!(dist_sq_exec(&l, &o), 25);
    assert_eq!(isqrt(25), 5);
}

#[test]
fn isqrt_rounds_down() {
    assert_eq!(isqrt(0), 0);
    assert_eq!(isqrt(1), 1);
    assert_eq!(isqrt(2), 1);
    assert_eq!(isqrt(99), 9);
    assert_eq!(isqrt(100), 10);
    assert_eq!(isqrt(u64::MAX as u128), 0xFFFF_FFFF);
}

#[test]
fn volume_uses_integer_part_of_distance() {
    let l = pos("world", 0, 0, 0);
    // distance sqrt(2) = 1.41..: the whole-block distance is 1
    let o = pos("world", 1, 1, 0);
    assert_eq!(volume(&l, &o, 2), 28);
}
