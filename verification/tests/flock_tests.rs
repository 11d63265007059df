use boids::fixed::Fixed;
use boids::flock::{random_vector3, vertical_clamp, Boid, Flock};
use boids::utils::Config;
use boids::vector::Vector3;

fn v(x: i64, y: i64, z: i64) -> Vector3 {
    Vector3::new(Fixed::from_int(x), Fixed::from_int(y), Fixed::from_int(z))
}

fn raw(x: i64, y: i64, z: i64) -> Vector3 {
    Vector3::new(Fixed::from_raw(x), Fixed::from_raw(y), Fixed::from_raw(z))
}

fn still(x: i64, y: i64, z: i64) -> Boid {
    Boid::new(v(x, y, z), Vector3::zero())
}

/// Two boids that see but do not crowd each other.
fn pair_config() -> Config {
    let mut config = Config::default();
    config.count = 2;
    config.neighbourhood = Fixed::from_int(100);
    config.separation_range = Fixed::from_int(5);
    config
}

fn center() -> Vector3 {
    v(400, 400, 400)
}

#[test]
fn default_config() {
    let config = Config::default();
    assert_eq!(config.size, 800);
    assert_eq!(config.count, 1500);
    assert_eq!(config.alignment, Fixed::from_int(1));
    assert_eq!(config.cohesion.raw, 13107);
    assert_eq!(config.roosting.raw, 6553);
    assert_eq!(config.separation, Fixed::from_int(15));
    assert_eq!(config.neighbourhood, Fixed::from_int(50));
    assert_eq!(config.separation_range, Fixed::from_int(5));
    assert_eq!(config.velocity, Fixed::from_int(4));
    assert_eq!(config.wind.raw, 13107);
    assert_eq!(config.delta_z_max.raw, 32768);
}

#[test]
fn boid_new_keeps_its_parts() {
    let b = Boid::new(v(1, 2, 3), v(4, 5, 6));
    assert_eq!(b.position, v(1, 2, 3));
    assert_eq!(b.velocity, v(4, 5, 6));
}

#[test]
fn vertical_clamp_limits_the_slope() {
    let half = Fixed::from_raw(32768);
    assert_eq!(vertical_clamp(v(1, 0, 1), half), raw(65536, 0, 46340));
    assert_eq!(vertical_clamp(v(1, 0, -1), half), raw(65536, 0, -46340));
    assert_eq!(vertical_clamp(v(3, 0, 1), half), v(3, 0, 1));
    assert_eq!(vertical_clamp(Vector3::zero(), half), Vector3::zero());
    assert_eq!(vertical_clamp(v(1, 1, 1), half), raw(65536, 65536, 56755));
}

#[test]
fn neighbours_are_nearer_than_the_radius() {
    let me = still(10, 10, 10);
    let at_five = still(15, 10, 10);
    let others = vec![me, at_five, still(10, 10, 12), still(100, 10, 10)];
    let near = me.neighbours(&others, Fixed::from_int(5));
    assert_eq!(near, vec![still(10, 10, 12)]);
    let wider = me.neighbours(&others, Fixed::from_raw(5 * 65536 + 1));
    assert_eq!(wider, vec![at_five, still(10, 10, 12)]);
    assert!(me.neighbours(&others, Fixed::from_int(-1)).is_empty());
    assert!(me.neighbours(&vec![], Fixed::from_int(5)).is_empty());
}

#[test]
fn twins_do_not_sense_each_other() {
    let twin = Boid::new(v(5, 5, 5), v(1, 0, 0));
    let others = vec![twin, twin];
    assert!(twin.neighbours(&others, Fixed::from_int(100)).is_empty());
    let config = pair_config();
    assert_eq!(
        twin.get_updated(&others, Vector3::zero(), center(), &config),
        twin.get_updated(&vec![twin], Vector3::zero(), center(), &config)
    );
}

#[test]
fn rules_of_a_small_neighbourhood() {
    let me = still(0, 0, 0);
    let n1 = Boid::new(v(1, 2, 0), v(1, 0, 0));
    let n2 = Boid::new(raw(-3 * 65536, 0, 32768), v(0, 2, 0));
    let far = Boid::new(v(20, 0, 0), v(5, 5, 5));
    let ns = vec![n1, n2, far];
    let mut config = Config::default();
    config.separation_range = Fixed::from_int(5);
    assert_eq!(me.alignment(&ns), raw(37491, 43740, 31243));
    assert_eq!(me.get_neighbourhood_center(&ns), raw(393216, 43690, 10922));
    assert_eq!(me.cohesion(&ns), raw(65110, 7234, 1808));
    assert_eq!(me.separation(&ns, &config), raw(-218454, -163840, -655360));
    assert_eq!(me.roosting(center()), raw(37837, 37837, 37837));
}

#[test]
fn separation_counts_a_neighbour_at_the_range() {
    let me = still(10, 10, 10);
    let mut config = Config::default();
    config.separation_range = Fixed::from_int(5);
    assert_eq!(me.separation(&vec![still(15, 10, 10)], &config), v(-1, 0, 0));
    assert_eq!(me.separation(&vec![still(11, 10, 8)], &config), raw(-327680, 0, 163840));
    assert_eq!(me.separation(&vec![still(16, 10, 10)], &config), Vector3::zero());
    assert_eq!(me.separation(&vec![], &config), Vector3::zero());
}

#[test]
fn rules_without_neighbours_are_zero() {
    let me = Boid::new(v(1, 2, 3), v(7, 8, 9));
    let config = Config::default();
    assert_eq!(me.alignment(&vec![]), Vector3::zero());
    assert_eq!(me.cohesion(&vec![]), Vector3::zero());
    assert_eq!(me.separation(&vec![], &config), Vector3::zero());
    assert_eq!(me.get_neighbourhood_center(&vec![]), v(1, 2, 3));
}

#[test]
fn a_lonely_boid_only_roosts() {
    let me = Boid::new(v(1, 2, 3), raw(32768, 0, -16384));
    let config = pair_config();
    let wind = raw(100, 200, -300);
    let expected = Boid::new(raw(102196, 135055, 183697), raw(36660, 3983, -12911));
    assert_eq!(me.get_updated(&vec![me], wind, center(), &config), expected);
    let out_of_sight = Boid::new(v(500, 0, 0), v(1, 1, 1));
    assert_eq!(me.get_updated(&vec![me, out_of_sight], wind, center(), &config), expected);
    assert_eq!(me.get_updated(&vec![], wind, center(), &config), expected);

    let mut pull = me.velocity.add(me.roosting(center()).scale(config.roosting));
    pull.clamp(config.velocity);
    let v = vertical_clamp(pull, config.delta_z_max).add(wind);
    assert_eq!(expected.velocity, v);
    assert_eq!(expected.position, me.position.add(v));
}

#[test]
fn a_crowded_boid_is_pushed_away() {
    let a = Boid::new(v(100, 100, 100), v(1, 0, 0));
    let b = Boid::new(v(101, 102, 100), v(0, 1, 0));
    let config = Config::default();
    let flock = vec![a, b];
    assert_eq!(
        a.get_updated(&flock, Vector3::zero(), center(), &config),
        Boid::new(raw(6318296, 6438060, 6553780), raw(-235304, -115540, 180))
    );
    assert_eq!(
        b.get_updated(&flock, Vector3::zero(), center(), &config),
        Boid::new(raw(6853116, 6802876, 6553776), raw(233980, 118204, 176))
    );
}

// Each boid is pulled toward the other by cohesion, weight 0.2 (raw 13107),
// along the unit vector (1, 0, 0) or (-1, 0, 0), and toward the centre
// (400, 400, 400) by roosting, weight 0.1 (raw 6553). For the boid at the
// origin the unit vector to the centre has the raw components 37837, so
// roosting adds 37837 * 6553 / 65536 = 3783 along every axis, and the new
// velocity is (13107 + 3783, 3783, 3783).
#[test]
fn two_boids_one_tick_without_wind() {
    let config = pair_config();
    let boids = vec![still(0, 0, 0), still(10, 0, 0)];
    let mut flock = Flock::with_boids(boids, Vector3::zero(), &config);
    assert_eq!(flock.center, center());
    flock.advance(Vector3::zero(), &config);
    assert_eq!(flock.wind, Vector3::zero());
    assert_eq!(flock.center, center());
    assert_eq!(flock.boids.len(), 2);
    assert_eq!(flock.boids[0], Boid::new(raw(16890, 3783, 3783), raw(16890, 3783, 3783)));
    assert_eq!(flock.boids[1], Boid::new(raw(645972, 3814, 3814), raw(-9388, 3814, 3814)));
}

#[test]
fn two_boids_three_ticks_with_given_gusts() {
    let config = pair_config();
    let boids = vec![still(0, 0, 0), still(10, 0, 0)];
    let mut flock = Flock::with_boids(boids, Vector3::zero(), &config);

    flock.advance(raw(16384, -16384, 32767), &config);
    assert_eq!(flock.wind, raw(7006, -7006, 8580));
    assert_eq!(flock.boids[0], Boid::new(raw(23896, -3223, 12363), raw(23896, -3223, 12363)));
    assert_eq!(flock.boids[1], Boid::new(raw(652978, -3192, 12394), raw(-2382, -3192, 12394)));

    flock.advance(raw(-32768, 0, 100), &config);
    assert_eq!(flock.wind, raw(-12028, -3270, 4052));
    assert_eq!(flock.boids[0], Boid::new(raw(40661, -22000, 58953), raw(16765, -18777, 46590)));
    assert_eq!(flock.boids[1], Boid::new(raw(686975, -13634, 49216), raw(33997, -10442, 36822)));

    flock.advance(raw(5, 6, -7), &config);
    assert_eq!(flock.wind, raw(-12023, -3264, 4045));
    assert_eq!(flock.boids[0], Boid::new(raw(105810, -53449, 126675), raw(65149, -31449, 67722)));
    assert_eq!(flock.boids[1], Boid::new(raw(720311, -46927, 109516), raw(33336, -33293, 60300)));
}

#[test]
fn every_boid_reads_the_flock_before_the_tick() {
    let config = pair_config();
    let before = vec![still(0, 0, 0), still(10, 0, 0), Boid::new(v(3, 4, 5), v(1, 1, 0))];
    let mut flock = Flock::with_boids(before.clone(), Vector3::zero(), &config);
    flock.advance(raw(10, 20, 30), &config);
    for i in 0..before.len() {
        assert_eq!(
            flock.boids[i],
            before[i].get_updated(&before, flock.wind, flock.center, &config)
        );
    }
}

#[test]
fn wind_is_clamped_to_the_limit() {
    let config = Config::default();
    let mut flock = Flock::with_boids(vec![], v(1, 1, 1), &config);
    flock.advance(Vector3::zero(), &config);
    assert_eq!(flock.wind, raw(7903, 7903, 6844));
    assert!(flock.wind.len().raw <= config.wind.raw);
}

#[test]
fn new_flock_has_the_configured_boids() {
    let mut config = Config::default();
    config.count = 300;
    config.size = 10;
    let flock = Flock::new(&config);
    assert_eq!(flock.boids.len(), 300);
    for b in flock.boids.iter() {
        for c in [b.position.x, b.position.y, b.position.z] {
            assert!(0 <= c.raw && c.raw < 10 * 65536);
        }
        for c in [b.velocity.x, b.velocity.y, b.velocity.z] {
            assert!(-65536 <= c.raw && c.raw < 65536);
        }
    }
    for c in [flock.wind.x, flock.wind.y, flock.wind.z] {
        assert!(-65536 <= c.raw && c.raw < 65536);
    }
    assert_eq!(flock.center, v(5, 5, 5));
}

#[test]
fn new_flock_without_boids() {
    let mut config = Config::default();
    config.count = 0;
    config.size = 0;
    let flock = Flock::new(&config);
    assert_eq!(flock.boids.len(), 0);
    assert_eq!(flock.center, Vector3::zero());
}

#[test]
fn new_flock_in_the_smallest_cube() {
    let mut config = Config::default();
    config.count = 5;
    config.size = 1;
    let flock = Flock::new(&config);
    assert_eq!(flock.boids.len(), 5);
    assert_eq!(flock.center, raw(32768, 32768, 32768));
}

#[test]
fn wind_stays_within_its_limit() {
    let mut config = Config::default();
    config.count = 3;
    config.size = 50;
    let mut flock = Flock::new(&config);
    for _ in 0..500 {
        flock.update(&config);
        assert!(flock.wind.len().raw <= config.wind.raw);
        assert_eq!(flock.center, v(25, 25, 25));
        assert_eq!(flock.boids.len(), 3);
    }
}

#[test]
fn update_of_an_empty_flock() {
    let mut config = Config::default();
    config.count = 0;
    let mut flock = Flock::new(&config);
    assert!(flock.boids.is_empty());
    flock.update(&config);
    assert!(flock.boids.is_empty());
    flock.update(&config);
    assert!(flock.boids.is_empty());
    flock.advance(raw(1, 2, 3), &config);
    assert!(flock.boids.is_empty());
}

#[test]
fn random_vectors_lie_in_their_range_and_differ() {
    let min = Fixed::from_int(-3);
    let max = Fixed::from_int(7);
    let first = random_vector3(min, max);
    let mut differs = false;
    for _ in 0..200 {
        let r = random_vector3(min, max);
        for c in [r.x, r.y, r.z] {
            assert!(min.raw <= c.raw && c.raw < max.raw);
        }
        if r != first {
            differs = true;
        }
    }
    assert!(differs);
    let only = random_vector3(Fixed::from_raw(41), Fixed::from_raw(42));
    assert_eq!(only, raw(41, 41, 41));
}
