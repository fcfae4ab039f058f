//! A retained-primitive, immediate-draw 2D renderer core.
//!
//! Primitives (filled rectangles, placeholder text runs) live in stable-handle
//! stores; an explicit display list is compiled into draw batches and one
//! shared 16-bit index sequence; each frame is planned as an ordered list of
//! device commands (uploads, program and buffer binds, indexed draws) that a
//! graphics backend carries out.

mod display;
mod error;
mod frame;
mod geometry;
mod renderer;
mod store;
mod text;

pub use error::RenderError;
pub use geometry::{
    quad_of, with_bounds, with_color, GeometryBuffer, Pos, Quad, Vertex, AU_PER_NDC, COLOR_OFFSET,
    GLYPH_ADVANCE, GLYPH_HEIGHT, GLYPH_WIDTH, RGBA, VERTEX_SIZE,
};
pub use store::LeakyVec;
pub use text::{glyph_quad, glyph_quads, glyph_step, run_fits, text_run_fits, Text};
pub use display::{
    all_rects, batch_index_count, compile, glyph_counts, glyph_indices, item_error, item_indices,
    lemma_rect_indices, lemma_rects_coalesce, lemma_text_splits_rects, list_batches, list_error,
    list_indices, push_batch, quad_indices, total_index_count, Batch,
    DisplayItem, ImageId, RectId, TextId, MAX_GLYPHS, MAX_INDICES, MAX_QUAD,
};
pub use frame::{
    batch_commands, draw_commands, push_draws, push_vertex_uploads, text_uploads,
    vertex_uploads, BufferId, DeviceCommand, INDEX_SIZE,
};
pub use renderer::{
    bounds_set, frame_commands, handles_stable, lemma_bounds_idempotent, lemma_handle_stability,
    lemma_stable_refl, lemma_stable_trans, NotSureWhat, RendererState,
};
