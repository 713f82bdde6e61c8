//! The circular collision primitive shared by players, bullets and items.

use vstd::prelude::*;

verus! {

/// A circle in the plane: what a collision test reads of an entity.
pub struct Circle {
    pub x: int,
    pub y: int,
    pub radius: int,
}

/// Two circles overlap when their centres are closer than the sum of their radii.
pub open spec fn overlap(a: Circle, b: Circle) -> bool {
    let d_x = b.x - a.x;
    let d_y = b.y - a.y;
    let d_r = b.radius + a.radius;
    d_x * d_x + d_y * d_y < d_r * d_r
}

/// An entity with a position, a heading and a circular extent.
pub trait Triangle {
    /// The circle that stands for this entity in collision tests.
    spec fn circle(&self) -> Circle;

    /// The heading in fixed-point radians.
    spec fn heading_angle(&self) -> int;

    fn x(&self) -> (r: i64)
        ensures
            r == self.circle().x,
    ;

    fn y(&self) -> (r: i64)
        ensures
            r == self.circle().y,
    ;

    fn angle(&self) -> (r: i64)
        ensures
            r == self.heading_angle(),
    ;

    fn radius(&self) -> (r: i64)
        ensures
            r == self.circle().radius,
    ;
}

/// Whether the two entities overlap.
pub fn is_colliding<A: Triangle, B: Triangle>(this: &A, other: &B) -> (r: bool)
    ensures
        r == overlap(this.circle(), other.circle()),
{
    let d_x: i128 = other.x() as i128 - this.x() as i128;
    let d_y: i128 = other.y() as i128 - this.y() as i128;
    let d_r: i128 = other.radius() as i128 + this.radius() as i128;
    let a_x: u128 = magnitude(d_x);
    let a_y: u128 = magnitude(d_y);
    let a_r: u128 = magnitude(d_r);
    proof {
        lemma_square_fits(a_x as int);
        lemma_square_fits(a_y as int);
        lemma_square_of_magnitude(d_x as int);
        lemma_square_of_magnitude(d_y as int);
        lemma_square_of_magnitude(d_r as int);
    }
    let squared_dist: Option<u128> = (a_x * a_x).checked_add(a_y * a_y);
    if a_r > 0xffff_ffff_ffff_ffff {
        assert(a_r * a_r == 0x1_0000_0000_0000_0000_0000_0000_0000_0000) by (nonlinear_arith)
            requires
                a_r == 0x1_0000_0000_0000_0000,
        ;
        squared_dist.is_some()
    } else {
        proof {
            lemma_square_fits(a_r as int);
        }
        let squared_radii: u128 = a_r * a_r;
        match squared_dist {
            Some(d) => d < squared_radii,
            None => false,
        }
    }
}

/// The absolute value of a difference or a sum of two `i64`.
fn magnitude(v: i128) -> (r: u128)
    requires
        -0x1_0000_0000_0000_0000 <= v <= 0x1_0000_0000_0000_0000,
    ensures
        r == if v < 0 { -v } else { v as int },
{
    if v < 0 { (-v) as u128 } else { v as u128 }
}

proof fn lemma_square_fits(a: int)
    requires
        0 <= a <= 0xffff_ffff_ffff_ffff,
    ensures
        0 <= a * a <= 0xffff_ffff_ffff_fffe_0000_0000_0000_0001,
{
    assert(0 <= a * a <= 0xffff_ffff_ffff_ffff * 0xffff_ffff_ffff_ffff) by (nonlinear_arith)
        requires
            0 <= a <= 0xffff_ffff_ffff_ffff,
    ;
}

proof fn lemma_square_of_magnitude(v: int)
    ensures
        (if v < 0 { -v } else { v }) * (if v < 0 { -v } else { v }) == v * v,
{
    assert((-v) * (-v) == v * v) by (nonlinear_arith);
}

} // verus!
