use vstd::prelude::*;

use crate::geometry::{
    quad_of, GeometryBuffer, Pos, Quad, GLYPH_ADVANCE, GLYPH_HEIGHT, GLYPH_WIDTH, RGBA,
};

verus! {

/// Distance along X from one glyph quad's left edge to the next one's.
pub open spec fn glyph_step() -> int {
    GLYPH_WIDTH + GLYPH_ADVANCE
}

/// Placeholder quad of glyph `k` in a run anchored at `pos`: glyphs stand on
/// the anchor's baseline, left to right, `glyph_step()` apart.
pub open spec fn glyph_quad(pos: Pos, color: RGBA, k: int) -> Quad {
    let x = pos.0 + k * glyph_step();
    quad_of(
        Pos(x as i32, pos.1),
        Pos((x + GLYPH_WIDTH) as i32, (pos.1 + GLYPH_HEIGHT) as i32),
        color,
    )
}

/// The glyph quads of a run of `glyphs` glyphs, in storage order.
pub open spec fn glyph_quads(pos: Pos, color: RGBA, glyphs: nat) -> Seq<Quad> {
    Seq::new(glyphs, |k: int| glyph_quad(pos, color, k))
}

/// Every corner of a run of `glyphs` glyphs anchored at `pos` is representable.
pub open spec fn run_fits(pos: Pos, glyphs: nat) -> bool {
    glyphs > 0 ==> {
        &&& pos.0 + (glyphs - 1) * glyph_step() + GLYPH_WIDTH <= i32::MAX
        &&& pos.1 + GLYPH_HEIGHT <= i32::MAX
    }
}

/// Whether a run of `glyphs` glyphs anchored at `pos` can be laid out.
pub fn text_run_fits(pos: Pos, glyphs: usize) -> (b: bool)
    ensures
        b == run_fits(pos, glyphs as nat),
{
    if glyphs == 0 {
        return true;
    }
    if glyphs > 100_000_000 {
        return false;
    }
    let step: i64 = (GLYPH_WIDTH + GLYPH_ADVANCE) as i64;
    let n: i64 = glyphs as i64 - 1;
    proof {
        assert(0 <= n * step <= 6_000_000_000) by (nonlinear_arith)
            requires
                0 <= n <= 100_000_000,
                step == 60,
        ;
    }
    let right: i64 = pos.0 as i64 + n * step + GLYPH_WIDTH as i64;
    right <= i32::MAX as i64 && pos.1 as i64 + GLYPH_HEIGHT as i64 <= i32::MAX as i64
}

/// A text run: an anchor, a color, and its own buffer of glyph quads.
pub struct Text {
    pos: Pos,
    color: RGBA,
    buffer: GeometryBuffer,
}

impl Text {
    pub closed spec fn anchor(&self) -> Pos {
        self.pos
    }

    pub closed spec fn color(&self) -> RGBA {
        self.color
    }

    /// The run's glyph quads, in storage order.
    pub closed spec fn quads(&self) -> Seq<Quad> {
        self.buffer.quads()
    }

    pub closed spec fn wf(&self) -> bool {
        self.buffer.wf()
    }

    /// Lays out `glyphs` placeholder quads from the anchor `pos`.
    pub fn new(pos: Pos, glyphs: usize, color: RGBA) -> (t: Text)
        requires
            run_fits(pos, glyphs as nat),
        ensures
            t.wf(),
            t.anchor() == pos,
            t.color() == color,
            t.quads() == glyph_quads(pos, color, glyphs as nat),
    {
        let mut buffer = GeometryBuffer::new();
        let mut x: i64 = pos.0 as i64;
        let mut k: usize = 0;
        while k < glyphs
            invariant
                k <= glyphs,
                run_fits(pos, glyphs as nat),
                buffer.wf(),
                x == pos.0 + k * glyph_step(),
                buffer.quads() == glyph_quads(pos, color, k as nat),
            decreases glyphs - k,
        {
            let a = Pos(x as i32, pos.1);
            let b = Pos((x + GLYPH_WIDTH as i64) as i32, pos.1 + GLYPH_HEIGHT);
            buffer.add_quad(a, b, color);
            proof {
                assert(buffer.quads() =~= glyph_quads(pos, color, (k + 1) as nat));
            }
            x = x + (GLYPH_WIDTH + GLYPH_ADVANCE) as i64;
            k = k + 1;
        }
        Text { pos, color, buffer }
    }

    pub fn glyph_count(&self) -> (n: usize)
        requires
            self.wf(),
        ensures
            n == self.quads().len(),
    {
        self.buffer.len()
    }

    /// The run's host-side quad array.
    pub fn as_slice(&self) -> (s: &[Quad])
        ensures
            s@ == self.quads(),
    {
        self.buffer.as_slice()
    }
}

} // verus!
