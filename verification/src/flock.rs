//! Boids, the rules that steer them, and the flock that they form.

use vstd::prelude::*;
use rand::Rng;
use crate::fixed::Fixed;
use crate::utils::Config;
use crate::vector::{Vector3, lemma_clamped_norm};

verus! {

/// One member of the flock.
#[derive(Clone, Copy, Debug, PartialEq, Eq, Structural)]
pub struct Boid {
    pub position: Vector3,
    pub velocity: Vector3,
}

/// `v` with its vertical component limited to the share `max_dz` of the
/// length of `v`, in either direction. A vector of length zero stays as it
/// is.
pub open spec fn spec_vertical_clamp(v: Vector3, max_dz: Fixed) -> Vector3 {
    let l = v.spec_len();
    if l.raw == 0 {
        v
    } else if v.z.spec_div(l).raw > max_dz.raw {
        Vector3 { x: v.x, y: v.y, z: l.spec_mul(max_dz) }
    } else if v.z.spec_div(l).raw < max_dz.spec_neg().raw {
        Vector3 { x: v.x, y: v.y, z: l.spec_neg().spec_mul(max_dz) }
    } else {
        v
    }
}

/// Limits the slope of `v` to `max_dz`.
pub fn vertical_clamp(v: Vector3, max_dz: Fixed) -> (r: Vector3)
    ensures
        r == spec_vertical_clamp(v, max_dz),
{
    let l = v.len();
    if l.raw == 0 {
        return v;
    }
    let slope = v.z.div(l);
    if slope.raw > max_dz.raw {
        Vector3::new(v.x, v.y, l.mul(max_dz))
    } else if slope.raw < max_dz.neg().raw {
        Vector3::new(v.x, v.y, l.neg().mul(max_dz))
    } else {
        v
    }
}

/// The sum of the velocities of `ns`, added up from the first to the last.
pub open spec fn sum_velocities(ns: Seq<Boid>) -> Vector3
    decreases ns.len(),
{
    if ns.len() == 0 {
        Vector3::spec_zero()
    } else {
        sum_velocities(ns.drop_last()).spec_add(ns.last().velocity)
    }
}

/// The sum of the positions of `ns`, added up from the first to the last.
pub open spec fn sum_positions(ns: Seq<Boid>) -> Vector3
    decreases ns.len(),
{
    if ns.len() == 0 {
        Vector3::spec_zero()
    } else {
        sum_positions(ns.drop_last()).spec_add(ns.last().position)
    }
}

/// The push along one axis away from a neighbour at offset `d`: `range / d`,
/// and nothing where the offset is zero.
pub open spec fn repulsion(d: Fixed, range: Fixed) -> Fixed {
    if d.raw != 0 {
        range.spec_div(d)
    } else {
        d
    }
}

impl Boid {
    /// `other` is another boid than `self` and nearer than `radius`. Boids
    /// are told apart by their values: two boids at the same place with the
    /// same velocity do not sense each other.
    pub open spec fn senses(self, other: Boid, radius: Fixed) -> bool {
        other != self && other.position.spec_dist(self.position).raw < radius.raw
    }

    /// The test by which `self` picks its neighbours.
    pub open spec fn sensing(self, radius: Fixed) -> spec_fn(Boid) -> bool {
        |b: Boid| self.senses(b, radius)
    }

    /// The boids of `others` that `self` senses, in their order.
    pub open spec fn spec_neighbours(self, others: Seq<Boid>, radius: Fixed) -> Seq<Boid> {
        others.filter(self.sensing(radius))
    }

    /// The common heading of the neighbours `ns`, as a unit vector.
    pub open spec fn spec_alignment(ns: Seq<Boid>) -> Vector3 {
        sum_velocities(ns).spec_normalized()
    }

    /// The centroid of the neighbours `ns`; without neighbours, the boid's
    /// own position.
    pub open spec fn spec_neighbourhood_center(self, ns: Seq<Boid>) -> Vector3 {
        if ns.len() == 0 {
            self.position
        } else {
            sum_positions(ns).spec_div(Fixed::spec_from_int(ns.len() as int))
        }
    }

    /// The direction to the centroid of the neighbours `ns`, as a unit
    /// vector.
    pub open spec fn spec_cohesion(self, ns: Seq<Boid>) -> Vector3 {
        self.spec_neighbourhood_center(ns).spec_sub(self.position).spec_normalized()
    }

    /// The direction to `center`, as a unit vector.
    pub open spec fn spec_roosting(self, center: Vector3) -> Vector3 {
        center.spec_sub(self.position).spec_normalized()
    }

    /// The push that the neighbour `b` gives, before it is turned away from
    /// `b`.
    pub open spec fn spec_push(self, b: Boid, range: Fixed) -> Vector3 {
        let d = b.position.spec_sub(self.position);
        Vector3 {
            x: repulsion(d.x, range),
            y: repulsion(d.y, range),
            z: repulsion(d.z, range),
        }
    }

    /// The pushes away from those of `ns` that are no farther than `range`,
    /// subtracted one after the other from the zero vector.
    pub open spec fn spec_separation(self, ns: Seq<Boid>, range: Fixed) -> Vector3
        decreases ns.len(),
    {
        if ns.len() == 0 {
            Vector3::spec_zero()
        } else {
            let rest = self.spec_separation(ns.drop_last(), range);
            let b = ns.last();
            if b.position.spec_dist(self.position).raw > range.raw {
                rest
            } else {
                rest.spec_sub(self.spec_push(b, range))
            }
        }
    }

    /// The velocity that the four rules give, before any limit: the boid's
    /// own velocity plus the weighted rule vectors.
    pub open spec fn spec_steering(self, ns: Seq<Boid>, center: Vector3, config: Config) -> Vector3 {
        self.velocity.spec_add(Boid::spec_alignment(ns).spec_scale(config.alignment)).spec_add(
            self.spec_cohesion(ns).spec_scale(config.cohesion),
        ).spec_add(self.spec_roosting(center).spec_scale(config.roosting)).spec_add(
            self.spec_separation(ns, config.separation_range).spec_scale(config.separation),
        )
    }

    /// The boid one tick later, in a flock `others` under `wind`: steering
    /// limited in length and slope, then the wind added, then the step taken.
    pub open spec fn spec_updated(
        self,
        others: Seq<Boid>,
        wind: Vector3,
        center: Vector3,
        config: Config,
    ) -> Boid {
        let ns = self.spec_neighbours(others, config.neighbourhood);
        let steer = self.spec_steering(ns, center, config);
        let v = spec_vertical_clamp(steer.spec_clamped(config.velocity), config.delta_z_max).spec_add(
            wind,
        );
        Boid { position: self.position.spec_add(v), velocity: v }
    }

    /// A boid at `position` that moves with `velocity`.
    pub fn new(position: Vector3, velocity: Vector3) -> (b: Boid)
        ensures
            b == (Boid { position, velocity }),
    {
        Boid { position: position, velocity: velocity }
    }

    /// The boids of `others` that this boid senses within `radius`.
    pub fn neighbours(&self, others: &Vec<Boid>, radius: Fixed) -> (ns: Vec<Boid>)
        ensures
            ns@ == self.spec_neighbours(others@, radius),
    {
        let mut ns: Vec<Boid> = Vec::new();
        let mut i: usize = 0;
        proof {
            reveal(Seq::filter);
        }
        while i < others.len()
            invariant
                i <= others.len(),
                ns@ == self.spec_neighbours(others@.take(i as int), radius),
            decreases others.len() - i,
        {
            let b = others[i];
            proof {
                reveal(Seq::filter);
                assert(others@.take(i + 1).drop_last() == others@.take(i as int));
            }
            if !(b == *self) && b.position.dist(self.position).raw < radius.raw {
                ns.push(b);
            }
            i += 1;
        }
        proof {
            assert(others@.take(others.len() as int) == others@);
        }
        ns
    }

    /// The boid one tick later. Every boid of `others` is read as it was
    /// before the tick.
    pub fn get_updated(
        &self,
        others: &Vec<Boid>,
        wind: Vector3,
        center: Vector3,
        config: &Config,
    ) -> (b: Boid)
        ensures
            b == self.spec_updated(others@, wind, center, *config),
    {
        let neighbours = self.neighbours(others, config.neighbourhood);

        let va = self.alignment(&neighbours);
        let vc = self.cohesion(&neighbours);
        let vr = self.roosting(center);
        let vs = self.separation(&neighbours, config);
        let mut v = self.velocity.add(va.scale(config.alignment)).add(
            vc.scale(config.cohesion),
        ).add(vr.scale(config.roosting)).add(vs.scale(config.separation));

        v.clamp(config.velocity);
        v = vertical_clamp(v, config.delta_z_max);

        v = v.add(wind);
        Boid::new(self.position.add(v), v)
    }

    /// The roosting rule: the unit vector toward `center`.
    pub fn roosting(&self, center: Vector3) -> (v: Vector3)
        ensures
            v == self.spec_roosting(center),
    {
        center.sub(self.position).normalized()
    }

    /// The cohesion rule: the unit vector toward the centroid of `others`.
    pub fn cohesion(&self, others: &Vec<Boid>) -> (v: Vector3)
        ensures
            v == self.spec_cohesion(others@),
    {
        let center = self.get_neighbourhood_center(others);
        center.sub(self.position).normalized()
    }

    /// The separation rule: the sum of the pushes away from those of
    /// `others` that are no farther than the separation range.
    pub fn separation(&self, others: &Vec<Boid>, config: &Config) -> (v: Vector3)
        ensures
            v == self.spec_separation(others@, config.separation_range),
    {
        let mut v = Vector3::zero();
        let mut i: usize = 0;
        while i < others.len()
            invariant
                i <= others.len(),
                v == self.spec_separation(others@.take(i as int), config.separation_range),
            decreases others.len() - i,
        {
            let b = others[i];
            proof {
                assert(others@.take(i + 1).drop_last() == others@.take(i as int));
            }
            i += 1;
            if b.position.dist(self.position).raw > config.separation_range.raw {
                continue ;
            }
            let mut d = b.position.sub(self.position);
            if d.x.raw != 0 {
                d.x = config.separation_range.div(d.x);
            }
            if d.y.raw != 0 {
                d.y = config.separation_range.div(d.y);
            }
            if d.z.raw != 0 {
                d.z = config.separation_range.div(d.z);
            }
            v = v.sub(d);
        }
        proof {
            assert(others@.take(others.len() as int) == others@);
        }
        v
    }

    /// The alignment rule: the unit vector along the summed velocities of
    /// `others`.
    pub fn alignment(&self, others: &Vec<Boid>) -> (v: Vector3)
        ensures
            v == Boid::spec_alignment(others@),
    {
        let mut v = Vector3::zero();
        let mut i: usize = 0;
        while i < others.len()
            invariant
                i <= others.len(),
                v == sum_velocities(others@.take(i as int)),
            decreases others.len() - i,
        {
            proof {
                assert(others@.take(i + 1).drop_last() == others@.take(i as int));
            }
            v = v.add(others[i].velocity);
            i += 1;
        }
        proof {
            assert(others@.take(others.len() as int) == others@);
        }
        v.normalized()
    }

    /// The centroid of `others`; the boid's own position where `others` is
    /// empty.
    pub fn get_neighbourhood_center(&self, others: &Vec<Boid>) -> (c: Vector3)
        ensures
            c == self.spec_neighbourhood_center(others@),
    {
        if others.len() == 0 {
            return self.position;
        }
        let mut c = Vector3::zero();
        let mut i: usize = 0;
        while i < others.len()
            invariant
                i <= others.len(),
                c == sum_positions(others@.take(i as int)),
            decreases others.len() - i,
        {
            proof {
                assert(others@.take(i + 1).drop_last() == others@.take(i as int));
            }
            c = c.add(others[i].position);
            i += 1;
        }
        proof {
            assert(others@.take(others.len() as int) == others@);
        }
        c.div(Fixed::from_usize(others.len()))
    }
}

/// Draws a raw value from `min` up to, but not including, `max`.
///
/// This is `rand::Rng::gen_range` on the generator of the current thread,
/// with a half-open range of `i64`. Of its result nothing is claimed but
/// that it lies in the range; the call is left out for an empty range, on
/// which it panics.
#[verifier::external_body]
fn random_raw(min: i64, max: i64) -> (r: i64)
    requires
        min < max,
    ensures
        min <= r < max,
{
    rand::thread_rng().gen_range(min..max)
}

/// Every component of `v` lies from `min` up to, but not including, `max`.
pub open spec fn within(v: Vector3, min: Fixed, max: Fixed) -> bool {
    &&& min.raw <= v.x.raw < max.raw
    &&& min.raw <= v.y.raw < max.raw
    &&& min.raw <= v.z.raw < max.raw
}

/// A vector whose components are drawn independently from `min` up to, but
/// not including, `max`.
pub fn random_vector3(min: Fixed, max: Fixed) -> (v: Vector3)
    requires
        min.raw < max.raw,
    ensures
        within(v, min, max),
{
    Vector3 {
        x: Fixed::from_raw(random_raw(min.raw, max.raw)),
        y: Fixed::from_raw(random_raw(min.raw, max.raw)),
        z: Fixed::from_raw(random_raw(min.raw, max.raw)),
    }
}

/// The flock: its boids, the wind that blows on all of them, and the place
/// where they roost.
pub struct Flock {
    pub boids: Vec<Boid>,
    pub wind: Vector3,
    pub center: Vector3,
}

/// The middle of a cube of side `size`.
pub open spec fn spec_center(size: usize) -> Vector3 {
    let half = Fixed::spec_from_int(size as int).spec_div(Fixed::spec_from_int(2));
    Vector3 { x: half, y: half, z: half }
}

/// The wind one tick later, after the gust `gust`: the sum, limited in slope
/// and then in strength.
pub open spec fn spec_next_wind(wind: Vector3, gust: Vector3, config: Config) -> Vector3 {
    spec_vertical_clamp(wind.spec_add(gust), config.delta_z_max).spec_clamped(config.wind)
}

/// The boids one tick later: each of them updated against all of `boids` as
/// they were before the tick.
pub open spec fn spec_next_boids(
    boids: Seq<Boid>,
    wind: Vector3,
    center: Vector3,
    config: Config,
) -> Seq<Boid> {
    Seq::new(boids.len(), |i: int| boids[i].spec_updated(boids, wind, center, config))
}

/// The wind after one tick for each gust of `gusts`, in their order.
pub open spec fn wind_after(wind: Vector3, gusts: Seq<Vector3>, config: Config) -> Vector3
    decreases gusts.len(),
{
    if gusts.len() == 0 {
        wind
    } else {
        spec_next_wind(wind_after(wind, gusts.drop_last(), config), gusts.last(), config)
    }
}

/// The strongest gust in any direction: half a unit.
pub open spec fn spec_gust_limit() -> Fixed {
    Fixed { raw: 32768 }
}

/// `gust` is a gust that a tick may draw.
pub open spec fn is_gust(gust: Vector3) -> bool {
    within(gust, spec_gust_limit().spec_neg(), spec_gust_limit())
}

impl Flock {
    /// A boid of a new flock lies inside the cube of side `size` and is
    /// slower than one unit along every axis.
    pub open spec fn fresh(b: Boid, size: usize) -> bool {
        &&& within(b.position, Fixed { raw: 0 }, Fixed::spec_from_int(size as int))
        &&& within(b.velocity, Fixed::spec_from_int(-1), Fixed::spec_from_int(1))
    }

    /// A flock of `config.count` boids at random places in the cube of side
    /// `config.size`, with random velocities and a random wind. A flock
    /// that has boids needs a cube that is not empty.
    pub fn new(config: &Config) -> (f: Flock)
        requires
            config.count > 0 ==> config.size > 0,
        ensures
            f.boids@.len() == config.count,
            forall|i: int| 0 <= i < f.boids@.len() ==> Flock::fresh(#[trigger] f.boids@[i], config.size),
            within(f.wind, Fixed::spec_from_int(-1), Fixed::spec_from_int(1)),
            f.center == spec_center(config.size),
    {
        let mut boids: Vec<Boid> = Vec::new();
        let side = Fixed::from_usize(config.size);
        let mut i: usize = 0;
        while i < config.count
            invariant
                i <= config.count,
                config.count > 0 ==> config.size > 0,
                side == Fixed::spec_from_int(config.size as int),
                boids@.len() == i,
                forall|k: int| 0 <= k < boids@.len() ==> Flock::fresh(#[trigger] boids@[k], config.size),
            decreases config.count - i,
        {
            boids.push(
                Boid::new(
                    random_vector3(Fixed::zero(), side),
                    random_vector3(Fixed::from_int(-1), Fixed::from_int(1)),
                ),
            );
            i += 1;
        }
        Flock {
            boids: boids,
            wind: random_vector3(Fixed::from_int(-1), Fixed::from_int(1)),
            center: Vector3::new(
                side.div(Fixed::from_int(2)),
                side.div(Fixed::from_int(2)),
                side.div(Fixed::from_int(2)),
            ),
        }
    }

    /// The flock of the given boids under the given wind, roosting in the
    /// middle of the cube of side `config.size`.
    pub fn with_boids(boids: Vec<Boid>, wind: Vector3, config: &Config) -> (f: Flock)
        ensures
            f.boids@ == boids@,
            f.wind == wind,
            f.center == spec_center(config.size),
    {
        let half = Fixed::from_usize(config.size).div(Fixed::from_int(2));
        Flock { boids: boids, wind: wind, center: Vector3::new(half, half, half) }
    }

    /// One tick with the gust `gust`: the wind changes first, then every
    /// boid is updated against the flock as it was before the tick.
    pub fn advance(&mut self, gust: Vector3, config: &Config)
        ensures
            final(self).center == old(self).center,
            final(self).wind == spec_next_wind(old(self).wind, gust, *config),
            final(self).boids@ == spec_next_boids(
                old(self).boids@,
                final(self).wind,
                old(self).center,
                *config,
            ),
            final(self).boids@.len() == old(self).boids@.len(),
            config.wind.raw >= 0 ==> final(self).wind.spec_len().raw <= config.wind.raw,
    {
        let mut wind = self.wind.add(gust);
        wind = vertical_clamp(wind, config.delta_z_max);
        wind.clamp(config.wind);
        self.wind = wind;

        let mut new_boids: Vec<Boid> = Vec::new();
        let mut i: usize = 0;
        while i < self.boids.len()
            invariant
                i <= self.boids.len(),
                self.boids@ == old(self).boids@,
                self.center == old(self).center,
                self.wind == wind,
                new_boids@.len() == i,
                forall|k: int|
                    0 <= k < i ==> #[trigger] new_boids@[k] == self.boids@[k].spec_updated(
                        self.boids@,
                        wind,
                        self.center,
                        *config,
                    ),
            decreases self.boids.len() - i,
        {
            let nb = self.boids[i].get_updated(&self.boids, self.wind, self.center, config);
            new_boids.push(nb);
            i += 1;
        }
        proof {
            assert(new_boids@ =~= spec_next_boids(self.boids@, wind, self.center, *config));
        }
        self.boids = new_boids;
    }

    /// One tick with a gust drawn at random, of at most half a unit along
    /// every axis.
    pub fn update(&mut self, config: &Config)
        ensures
            final(self).center == old(self).center,
            exists|gust: Vector3|
                is_gust(gust) && final(self).wind == #[trigger] spec_next_wind(
                    old(self).wind,
                    gust,
                    *config,
                ),
            final(self).boids@ == spec_next_boids(
                old(self).boids@,
                final(self).wind,
                old(self).center,
                *config,
            ),
            final(self).boids@.len() == old(self).boids@.len(),
            config.wind.raw >= 0 ==> final(self).wind.spec_len().raw <= config.wind.raw,
    {
        let limit = Fixed::from_raw(32768);
        let gust = random_vector3(limit.neg(), limit);
        self.advance(gust, config);
    }
}

/// After one tick or more, whatever the gusts were, the wind is no stronger
/// than `config.wind`, where that is not negative.
pub proof fn lemma_wind_stays_bounded(wind: Vector3, gusts: Seq<Vector3>, config: Config)
    requires
        gusts.len() > 0,
        config.wind.raw >= 0,
    ensures
        wind_after(wind, gusts, config).spec_len().raw <= config.wind.raw,
{
    let before = wind_after(wind, gusts.drop_last(), config);
    lemma_clamped_norm(
        spec_vertical_clamp(before.spec_add(gusts.last()), config.delta_z_max),
        config.wind,
    );
}

/// A flock without boids stays without boids.
pub proof fn lemma_empty_flock_stays_empty(wind: Vector3, center: Vector3, config: Config)
    ensures
        spec_next_boids(Seq::<Boid>::empty(), wind, center, config) == Seq::<Boid>::empty(),
{
    assert(spec_next_boids(Seq::<Boid>::empty(), wind, center, config) =~= Seq::<Boid>::empty());
}

/// A boid that senses no other boid is steered by roosting alone: alignment,
/// cohesion and separation are the zero vector, and the new velocity is the
/// old one plus the weighted roosting vector, limited in length and slope,
/// plus the wind.
pub proof fn lemma_lonely_boid(
    me: Boid,
    others: Seq<Boid>,
    wind: Vector3,
    center: Vector3,
    config: Config,
)
    requires
        me.spec_neighbours(others, config.neighbourhood).len() == 0,
    ensures
        ({
            let ns = me.spec_neighbours(others, config.neighbourhood);
            let pull = me.velocity.spec_add(me.spec_roosting(center).spec_scale(config.roosting));
            &&& Boid::spec_alignment(ns) == Vector3::spec_zero()
            &&& me.spec_cohesion(ns) == Vector3::spec_zero()
            &&& me.spec_separation(ns, config.separation_range) == Vector3::spec_zero()
            &&& me.spec_updated(others, wind, center, config).velocity == spec_vertical_clamp(
                pull.spec_clamped(config.velocity),
                config.delta_z_max,
            ).spec_add(wind)
        }),
{
    let zero = Vector3::spec_zero();
    crate::vector::lemma_zero_norm();
    assert(me.position.spec_sub(me.position) == zero);
    lemma_scale_zero(config.alignment);
    lemma_scale_zero(config.cohesion);
    lemma_scale_zero(config.separation);
    lemma_add_zero(me.velocity);
    let pull = me.velocity.spec_add(me.spec_roosting(center).spec_scale(config.roosting));
    lemma_add_zero(pull);
}

/// The zero vector scaled by any number is the zero vector.
pub proof fn lemma_scale_zero(k: Fixed)
    ensures
        Vector3::spec_zero().spec_scale(k) == Vector3::spec_zero(),
{
    assert(0int * (k.raw as int) == 0) by (nonlinear_arith);
}

/// Adding the zero vector changes nothing.
pub proof fn lemma_add_zero(v: Vector3)
    ensures
        v.spec_add(Vector3::spec_zero()) == v,
{
}

} // verus!
