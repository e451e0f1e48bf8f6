//! Attributes that are not interpolated.

use vstd::prelude::*;

verus! {

/// Three vertices, in the order that decides which way the triangle faces.
#[derive(Clone, Copy, Debug)]
pub struct Triangle<T> {
    pub x: T,
    pub y: T,
    pub z: T,
}

/// Marks an attribute as flat: every pixel of a triangle gets the value of
/// the triangle's first vertex.
#[derive(Clone, Copy, Debug)]
pub struct Flat<T>(pub T);

impl<T> Triangle<T> {
    /// The triangle with the vertices `x`, `y`, `z`.
    pub fn new(x: T, y: T, z: T) -> (t: Triangle<T>)
        ensures
            t.x == x,
            t.y == y,
            t.z == z,
    {
        Triangle { x, y, z }
    }
}

impl<T: Copy> Flat<T> {
    /// The attribute at a pixel with the weights `w`: the value of the first
    /// vertex, whatever the weights are.
    pub fn interpolate(src: &Triangle<Flat<T>>, w: [u32; 3]) -> (r: T)
        ensures
            r == src.x.0,
    {
        src.x.0
    }
}

} // verus!
