use vstd::prelude::*;

use crate::error::RenderError;
use crate::store::LeakyVec;

verus! {

/// Positions are fixed-point: this many steps make one normalized device unit.
pub const AU_PER_NDC: i32 = 1000;

/// Width of one placeholder glyph quad.
pub const GLYPH_WIDTH: i32 = 50;

/// Height of one placeholder glyph quad.
pub const GLYPH_HEIGHT: i32 = 100;

/// Gap between neighbouring glyph quads.
pub const GLYPH_ADVANCE: i32 = 10;

/// Size in bytes of one vertex record on the device: two 32-bit float
/// coordinates followed by four color bytes.
pub const VERTEX_SIZE: usize = 12;

/// Byte offset of the color attribute inside a vertex record.
pub const COLOR_OFFSET: usize = 8;

/// 2D point, each coordinate in steps of `1 / AU_PER_NDC` device units.
#[derive(Clone, Copy, Debug, PartialEq, Eq, Structural)]
pub struct Pos(pub i32, pub i32);

/// Straight-alpha color, one byte per channel.
#[derive(Clone, Copy, Debug, PartialEq, Eq, Structural)]
pub struct RGBA(pub u8, pub u8, pub u8, pub u8);

/// A vertex: its position and its color payload.
#[derive(Clone, Copy, Debug, PartialEq, Eq, Structural)]
pub struct Vertex(pub Pos, pub RGBA);

/// Four vertices built from two opposite corners `a` and `b`, always in the
/// order `a`, `(b.x, a.y)`, `(a.x, b.y)`, `b`.
#[derive(Clone, Copy, Debug, PartialEq, Eq, Structural)]
pub struct Quad(pub Vertex, pub Vertex, pub Vertex, pub Vertex);

/// The quad spanned by corners `a` and `b`, every vertex carrying `color`.
pub open spec fn quad_of(a: Pos, b: Pos, color: RGBA) -> Quad {
    Quad(
        Vertex(a, color),
        Vertex(Pos(b.0, a.1), color),
        Vertex(Pos(a.0, b.1), color),
        Vertex(b, color),
    )
}

/// `q` moved to corners `a` and `b`, each vertex keeping its payload.
pub open spec fn with_bounds(q: Quad, a: Pos, b: Pos) -> Quad {
    Quad(
        Vertex(a, q.0.1),
        Vertex(Pos(b.0, a.1), q.1.1),
        Vertex(Pos(a.0, b.1), q.2.1),
        Vertex(b, q.3.1),
    )
}

/// `q` with every vertex recolored to `color`, positions kept.
pub open spec fn with_color(q: Quad, color: RGBA) -> Quad {
    Quad(Vertex(q.0.0, color), Vertex(q.1.0, color), Vertex(q.2.0, color), Vertex(q.3.0, color))
}

impl Quad {
    pub fn new(a: Pos, b: Pos, color: RGBA) -> (q: Quad)
        ensures
            q == quad_of(a, b, color),
    {
        Quad(
            Vertex(a, color),
            Vertex(Pos(b.0, a.1), color),
            Vertex(Pos(a.0, b.1), color),
            Vertex(b, color),
        )
    }

    pub fn moved(&self, a: Pos, b: Pos) -> (q: Quad)
        ensures
            q == with_bounds(*self, a, b),
    {
        Quad(
            Vertex(a, self.0.1),
            Vertex(Pos(b.0, a.1), self.1.1),
            Vertex(Pos(a.0, b.1), self.2.1),
            Vertex(b, self.3.1),
        )
    }

    pub fn recolored(&self, color: RGBA) -> (q: Quad)
        ensures
            q == with_color(*self, color),
    {
        Quad(
            Vertex(self.0.0, color),
            Vertex(self.1.0, color),
            Vertex(self.2.0, color),
            Vertex(self.3.0, color),
        )
    }
}

/// Host-side mirror of one device vertex buffer: quads under stable handles.
///
/// The whole array is uploaded at once, so a quad's handle is also its
/// position in the buffer: quad `k` owns vertices `4k .. 4k + 3`.
pub struct GeometryBuffer {
    data: LeakyVec<Quad>,
}

impl GeometryBuffer {
    /// Every quad ever added, in handle order, removed ones included.
    pub closed spec fn quads(&self) -> Seq<Quad> {
        self.data.slots()
    }

    /// Which quad handles are still live.
    pub closed spec fn live(&self) -> Seq<bool> {
        self.data.live()
    }

    pub closed spec fn wf(&self) -> bool {
        self.data.wf()
    }

    pub proof fn lemma_wf(&self)
        requires
            self.wf(),
        ensures
            self.quads().len() == self.live().len(),
    {
        self.data.lemma_wf();
    }

    pub open spec fn is_live(&self, id: int) -> bool {
        0 <= id < self.quads().len() && self.live()[id]
    }

    pub fn new() -> (r: Self)
        ensures
            r.wf(),
            r.quads() == Seq::<Quad>::empty(),
            r.live() == Seq::<bool>::empty(),
    {
        GeometryBuffer { data: LeakyVec::new() }
    }

    /// Appends the quad spanned by `a` and `b` and returns its handle.
    pub fn add_quad(&mut self, a: Pos, b: Pos, color: RGBA) -> (id: usize)
        requires
            old(self).wf(),
        ensures
            final(self).wf(),
            id == old(self).quads().len(),
            final(self).quads() == old(self).quads().push(quad_of(a, b, color)),
            final(self).live() == old(self).live().push(true),
    {
        self.data.add(Quad::new(a, b, color))
    }

    /// Rewrites the four vertex positions of a live quad in place.
    pub fn set_quad_bounds(&mut self, id: usize, a: Pos, b: Pos) -> (r: Result<(), RenderError>)
        requires
            old(self).wf(),
        ensures
            final(self).wf(),
            final(self).live() == old(self).live(),
            old(self).is_live(id as int) ==> r is Ok && final(self).quads() == old(
                self,
            ).quads().update(id as int, with_bounds(old(self).quads()[id as int], a, b)),
            !old(self).is_live(id as int) ==> r == Err::<(), RenderError>(
                RenderError::HandleOutOfRange,
            ) && final(self).quads() == old(self).quads(),
    {
        if !self.data.contains(id) {
            return Err(RenderError::HandleOutOfRange);
        }
        let q = match self.data.get(id) {
            Ok(q) => q.moved(a, b),
            Err(e) => return Err(e),
        };
        self.data.replace(id, q)
    }

    /// Rewrites the color payload of a live quad's four vertices in place.
    pub fn set_quad_color(&mut self, id: usize, color: RGBA) -> (r: Result<(), RenderError>)
        requires
            old(self).wf(),
        ensures
            final(self).wf(),
            final(self).live() == old(self).live(),
            old(self).is_live(id as int) ==> r is Ok && final(self).quads() == old(
                self,
            ).quads().update(id as int, with_color(old(self).quads()[id as int], color)),
            !old(self).is_live(id as int) ==> r == Err::<(), RenderError>(
                RenderError::HandleOutOfRange,
            ) && final(self).quads() == old(self).quads(),
    {
        if !self.data.contains(id) {
            return Err(RenderError::HandleOutOfRange);
        }
        let q = match self.data.get(id) {
            Ok(q) => q.recolored(color),
            Err(e) => return Err(e),
        };
        self.data.replace(id, q)
    }

    /// Marks a live quad as removed; its storage and handle are kept.
    pub fn remove(&mut self, id: usize) -> (r: Result<(), RenderError>)
        requires
            old(self).wf(),
        ensures
            final(self).wf(),
            final(self).quads() == old(self).quads(),
            old(self).is_live(id as int) ==> r is Ok && final(self).live() == old(
                self,
            ).live().update(id as int, false),
            !old(self).is_live(id as int) ==> r == Err::<(), RenderError>(
                RenderError::HandleOutOfRange,
            ) && final(self).live() == old(self).live(),
    {
        self.data.remove(id)
    }

    pub fn len(&self) -> (n: usize)
        requires
            self.wf(),
        ensures
            n == self.quads().len(),
    {
        self.data.len()
    }

    pub fn contains(&self, id: usize) -> (b: bool)
        requires
            self.wf(),
        ensures
            b == self.is_live(id as int),
    {
        self.data.contains(id)
    }

    /// The host-side quad array, in handle order.
    pub fn as_slice(&self) -> (s: &[Quad])
        ensures
            s@ == self.quads(),
    {
        self.data.as_slice()
    }
}

} // verus!
