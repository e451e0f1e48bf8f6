//! Where a vertex keeps its position.

use vstd::prelude::*;

verus! {

/// A vertex that carries a position in clip space: four lanes, `x`, `y`, `z`
/// and `w`.
pub trait FetchPosition {
    /// The position of the vertex.
    fn position(&self) -> [u32; 4];
}

impl FetchPosition for [u32; 4] {
    fn position(&self) -> (r: [u32; 4])
        ensures
            r == *self,
    {
        *self
    }
}

impl<A> FetchPosition for ([u32; 4], A) {
    fn position(&self) -> (r: [u32; 4])
        ensures
            r == self.0,
    {
        self.0
    }
}

impl<A, B> FetchPosition for ([u32; 4], A, B) {
    fn position(&self) -> (r: [u32; 4])
        ensures
            r == self.0,
    {
        self.0
    }
}

impl<A, B, C> FetchPosition for ([u32; 4], A, B, C) {
    fn position(&self) -> (r: [u32; 4])
        ensures
            r == self.0,
    {
        self.0
    }
}

impl<A, B, C, D> FetchPosition for ([u32; 4], A, B, C, D) {
    fn position(&self) -> (r: [u32; 4])
        ensures
            r == self.0,
    {
        self.0
    }
}

impl<A, B, C, D, E> FetchPosition for ([u32; 4], A, B, C, D, E) {
    fn position(&self) -> (r: [u32; 4])
        ensures
            r == self.0,
    {
        self.0
    }
}

impl<A, B, C, D, E, F> FetchPosition for ([u32; 4], A, B, C, D, E, F) {
    fn position(&self) -> (r: [u32; 4])
        ensures
            r == self.0,
    {
        self.0
    }
}

impl<A, B, C, D, E, F, G> FetchPosition for ([u32; 4], A, B, C, D, E, F, G) {
    fn position(&self) -> (r: [u32; 4])
        ensures
            r == self.0,
    {
        self.0
    }
}

} // verus!
