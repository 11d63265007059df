use boids::fixed::Fixed;
use boids::vector::Vector2;

fn v(x: i64, y: i64) -> Vector2 {
    Vector2::new(Fixed::from_int(x), Fixed::from_int(y))
}

fn raw(x: i64, y: i64) -> Vector2 {
    Vector2::new(Fixed::from_raw(x), Fixed::from_raw(y))
}

#[test]
fn plane_new_keeps_the_components() {
    let a = Vector2::new(Fixed::from_raw(5), Fixed::from_raw(-6));
    assert_eq!(a.x.raw, 5);
    assert_eq!(a.y.raw, -6);
}

#[test]
fn plane_len() {
    assert_eq!(v(3, 4).len(), Fixed::from_int(5));
    assert_eq!(v(0, 0).len(), Fixed::zero());
    assert_eq!(v(1, 1).len().raw, 92681);
    assert_eq!(raw(i64::MAX, i64::MIN).len().raw, i64::MAX);
}

#[test]
fn plane_normalize() {
    let mut a = v(3, 4);
    a.normalize();
    assert_eq!(a, raw(39321, 52428));
    let mut z = v(0, 0);
    z.normalize();
    assert_eq!(z, v(0, 0));
    let mut down = v(0, -9);
    down.normalize();
    assert_eq!(down, v(0, -1));
}

#[test]
fn plane_clamp() {
    let mut a = v(3, 4);
    a.clamp(Fixed::from_int(6));
    assert_eq!(a, v(3, 4));
    a.clamp(Fixed::from_int(2));
    assert_eq!(a, raw(78642, 104856));
    assert!(a.len().raw <= 2 * 65536);
    let mut b = v(-30, 40);
    b.clamp(Fixed::from_int(4));
    assert_eq!(b, raw(-157284, 209712));
    assert!(b.len().raw <= 4 * 65536);
}

#[test]
fn plane_dist() {
    assert_eq!(v(1, 2).dist(v(4, 6)), Fixed::from_int(5));
    assert_eq!(v(4, 6).dist(v(1, 2)), Fixed::from_int(5));
    assert_eq!(raw(i64::MIN, 0).dist(raw(i64::MAX, 0)).raw, i64::MAX);
    assert_eq!(raw(i64::MAX, 0).dist(raw(i64::MIN, 0)).raw, i64::MAX);
}

#[test]
fn plane_add_sub_scale_div() {
    assert_eq!(v(1, 2).add(v(10, 20)), v(11, 22));
    assert_eq!(v(1, 2).sub(v(10, 20)), v(-9, -18));
    assert_eq!(v(1, 2).scale(Fixed::from_int(10)), v(10, 20));
    assert_eq!(v(1, 2).scale(Fixed::from_raw(6553)), raw(6553, 13106));
    assert_eq!(v(2, -4).div(Fixed::from_int(2)), v(1, -2));
}
