//! Drawing a flock into a square image, seen from the front: a boid's `x`
//! runs to the right, its `z` runs down, and its height `y` is its shade.

use vstd::prelude::*;
use crate::fixed::{Fixed, ONE};
use crate::flock::Boid;
use crate::utils::Config;
use crate::vector::{Vector3, lemma_normalized_within_unit};

verus! {

/// The image `buffer` with the pixel at column `x` and row `y` no darker
/// than `value`.
pub open spec fn spec_put_pixel(buffer: Seq<u32>, x: int, y: int, size: int, value: u32) -> Seq<u32> {
    let idx = y * size + x;
    if buffer[idx] < value {
        buffer.update(idx, value)
    } else {
        buffer
    }
}

/// The boid stands at least two pixels inside the image on every side, and
/// not below the ground.
pub open spec fn visible(boid: Boid, size: usize) -> bool {
    let p = boid.position;
    let side = Fixed::spec_from_int(size as int);
    let two = Fixed::spec_from_int(2);
    !(p.x.raw < two.raw || p.z.raw < two.raw || p.y.raw < 0 || p.x.raw >= side.spec_sub(two).raw
        || p.z.raw >= side.spec_sub(two).raw)
}

/// The level of gray for the height `y` in an image of side `size`: 255 at
/// the top of the cube, and in proportion below and above it, as far as 32
/// bits go.
pub open spec fn gray_level(y: Fixed, size: usize) -> int {
    let level = (y.raw * 255) / (size * ONE);
    if level > u32::MAX {
        u32::MAX as int
    } else {
        level
    }
}

/// The colour of a level of gray: the level in each of the three channels,
/// cut to 32 bits.
pub open spec fn gray_colour(level: int) -> u32 {
    ((level * 65793) % 0x1_0000_0000) as u32
}

/// The point one unit ahead of the boid.
pub open spec fn head(boid: Boid) -> Vector3 {
    boid.position.spec_add(boid.velocity.spec_normalized())
}

/// The image `buffer` with `boid` drawn into it: one pixel where it is and
/// one where it is heading, in the shade of its height. A boid that is not
/// visible leaves the image as it is.
pub open spec fn spec_draw_boid(buffer: Seq<u32>, size: usize, boid: Boid) -> Seq<u32> {
    if !visible(boid, size) {
        buffer
    } else {
        let col = gray_colour(gray_level(boid.position.y, size));
        let body = spec_put_pixel(
            buffer,
            boid.position.x.spec_floor(),
            boid.position.z.spec_floor(),
            size as int,
            col,
        );
        spec_put_pixel(
            body,
            head(boid).x.spec_floor(),
            head(boid).z.spec_floor(),
            size as int,
            col,
        )
    }
}

/// Paints the pixel at column `x` and row `y` of an image of side `size`
/// with `value`, unless the pixel is brighter already.
pub fn put_pixel(buffer: &mut Vec<u32>, x: usize, y: usize, size: usize, value: u32)
    requires
        y * size + x < old(buffer)@.len(),
    ensures
        final(buffer)@ == spec_put_pixel(old(buffer)@, x as int, y as int, size as int, value),
{
    let len = buffer.len();
    assert(0 <= y * size <= len) by (nonlinear_arith)
        requires
            y * size + x < len,
            0 <= x,
    ;
    let idx = y * size + x;
    if buffer[idx] < value {
        buffer[idx] = value;
    }
}

/// In a square image of side `size`, a pixel whose column and row are below
/// `size` lies inside the image.
proof fn lemma_pixel_inside(x: int, y: int, size: int)
    requires
        0 <= x < size,
        0 <= y < size,
    ensures
        0 <= y * size + x < size * size,
{
    assert(0 <= y * size && y * size + size <= size * size) by (nonlinear_arith)
        requires
            0 <= y < size,
    ;
}

/// The side of an image that fits into memory is far from the end of the
/// number range.
proof fn lemma_side_fits(size: int, len: int)
    requires
        0 <= size,
        size * size == len,
        len <= u64::MAX,
    ensures
        size <= 0xffff_ffff,
        size * ONE <= 0xffff_ffff_0000,
{
    if size > 0xffff_ffff {
        assert(size * size > u64::MAX) by (nonlinear_arith)
            requires
                size >= 0x1_0000_0000,
        ;
    }
}

/// Draws `boid` into the image `buffer` of side `config.size`.
pub fn draw_boid(buffer: &mut Vec<u32>, config: &Config, boid: &Boid)
    requires
        old(buffer)@.len() == config.size * config.size,
    ensures
        final(buffer)@ == spec_draw_boid(old(buffer)@, config.size, *boid),
        final(buffer)@.len() == old(buffer)@.len(),
{
    let len = buffer.len();
    proof {
        lemma_side_fits(config.size as int, len as int);
    }
    let size = config.size;
    let side = Fixed::from_usize(size);
    let two = Fixed::from_int(2);
    let p = boid.position;
    if p.x.raw < two.raw || p.z.raw < two.raw || p.y.raw < 0 || p.x.raw >= side.sub(two).raw
        || p.z.raw >= side.sub(two).raw {
        return ;
    }
    assert(size >= 5);
    let scaled: u128 = (p.y.raw as u128 * 255) / (size as u128 * 65536);
    let gray: u64 = if scaled > 0xffff_ffff {
        0xffff_ffff
    } else {
        scaled as u64
    };
    let col: u32 = ((gray * 65793) % 0x1_0000_0000) as u32;
    assert(col == gray_colour(gray_level(p.y, size)));

    let px = p.x.floor();
    let pz = p.z.floor();
    proof {
        lemma_pixel_inside(px as int, pz as int, size as int);
    }
    put_pixel(buffer, px as usize, pz as usize, size, col);

    let mut d = boid.velocity;
    d.normalize();
    proof {
        lemma_normalized_within_unit(boid.velocity);
    }
    let h = p.add(d);
    let hx = h.x.floor();
    let hz = h.z.floor();
    proof {
        lemma_pixel_inside(hx as int, hz as int, size as int);
    }
    put_pixel(buffer, hx as usize, hz as usize, size, col);
}

} // verus!
