use vstd::prelude::*;

use crate::display::{
    compile, glyph_counts, lemma_compiled_ok, lemma_total_extend, lemma_total_index_count,
    list_batches, list_error, list_indices, total_index_count, Batch, DisplayItem, ImageId,
    RectId, TextId, MAX_INDICES,
};
use crate::error::RenderError;
use crate::frame::{
    draw_commands, push_draws, push_vertex_uploads, vertex_uploads, DeviceCommand,
};
use crate::geometry::{quad_of, with_bounds, with_color, GeometryBuffer, Pos, Quad, RGBA};
use crate::store::LeakyVec;
use crate::text::{glyph_quads, run_fits, Text};

verus! {

/// What a renderer holds, as mathematical values.
pub struct RendererState {
    /// Every rectangle quad ever created, by handle, removed ones included.
    pub rect_quads: Seq<Quad>,
    /// Which rectangle handles are still live.
    pub rect_live: Seq<bool>,
    /// Every text run ever created, by handle, removed ones included.
    pub texts: Seq<Text>,
    /// Which text handles are still live.
    pub text_live: Seq<bool>,
    /// The batches of the current display list, in draw order.
    pub batches: Seq<Batch>,
    /// The index sequence of the current display list.
    pub indices: Seq<u16>,
    /// Whether `indices` has not been uploaded since it was compiled.
    pub indices_pending: bool,
    pub rect_program: u32,
    pub image_program: u32,
    pub text_program: u32,
}

impl RendererState {
    /// Glyph count of each text run, by handle.
    pub open spec fn glyphs(self) -> Seq<nat> {
        glyph_counts(self.texts)
    }
}

/// Every handle issued in `old` still names the slot it was issued for in
/// `new`: no store shrank, a removed handle stayed removed, and no text run
/// changed.
pub open spec fn handles_stable(old: RendererState, new: RendererState) -> bool {
    &&& old.rect_live.len() <= new.rect_live.len()
    &&& old.text_live.len() <= new.text_live.len()
    &&& forall|i: int| 0 <= i < old.rect_live.len() && !old.rect_live[i] ==> !new.rect_live[i]
    &&& forall|i: int| 0 <= i < old.text_live.len() && !old.text_live[i] ==> !new.text_live[i]
    &&& old.texts.len() <= new.texts.len()
    &&& forall|i: int| 0 <= i < old.texts.len() ==> new.texts[i] == old.texts[i]
}

/// The state after rectangle `id` is moved to corners `a` and `b`.
pub open spec fn bounds_set(s: RendererState, id: int, a: Pos, b: Pos) -> RendererState {
    RendererState { rect_quads: s.rect_quads.update(id, with_bounds(s.rect_quads[id], a, b)), ..s }
}

/// Handle stability holds of every state with itself.
pub proof fn lemma_stable_refl(s: RendererState)
    ensures
        handles_stable(s, s),
{
}

/// Handle stability carries across two steps.
pub proof fn lemma_stable_trans(a: RendererState, b: RendererState, c: RendererState)
    requires
        handles_stable(a, b),
        handles_stable(b, c),
    ensures
        handles_stable(a, c),
{
}

/// Over any run of renderer states where each step keeps handles stable (as
/// every mutating method ensures), each handle issued at some point still
/// names the same slot at every later point, a removed handle stays removed,
/// and no store ever shrinks, so no handle is issued twice.
pub proof fn lemma_handle_stability(states: Seq<RendererState>)
    requires
        forall|i: int|
            0 <= i < states.len() - 1 ==> handles_stable(#[trigger] states[i], states[i + 1]),
    ensures
        forall|i: int, j: int|
            0 <= i <= j < states.len() ==> handles_stable(#[trigger] states[i], #[trigger] states[j]),
    decreases states.len(),
{
    if states.len() > 0 {
        let prefix = states.drop_last();
        assert forall|i: int| 0 <= i < prefix.len() - 1 implies handles_stable(
            #[trigger] prefix[i],
            prefix[i + 1],
        ) by {
            assert(prefix[i] == states[i] && prefix[i + 1] == states[i + 1]);
        }
        lemma_handle_stability(prefix);
        let last = states.len() - 1;
        assert forall|i: int, j: int| 0 <= i <= j < states.len() implies handles_stable(
            #[trigger] states[i],
            #[trigger] states[j],
        ) by {
            if j < last {
                assert(prefix[i] == states[i] && prefix[j] == states[j]);
            } else if i == j {
                lemma_stable_refl(states[i]);
            } else {
                assert(prefix[i] == states[i] && prefix[last - 1] == states[last - 1]);
                lemma_stable_trans(states[i], states[last - 1], states[last]);
            }
        }
    }
}

/// Moving a rectangle twice to the same corners leaves the same geometry as
/// moving it once.
pub proof fn lemma_bounds_idempotent(s: RendererState, id: int, a: Pos, b: Pos)
    requires
        0 <= id < s.rect_quads.len(),
    ensures
        bounds_set(bounds_set(s, id, a, b), id, a, b) == bounds_set(s, id, a, b),
{
    assert(bounds_set(bounds_set(s, id, a, b), id, a, b).rect_quads =~= bounds_set(
        s,
        id,
        a,
        b,
    ).rect_quads);
}

/// The commands of one frame: clear, upload the index sequence if it changed,
/// upload every non-empty vertex buffer, then draw every batch in order.
pub open spec fn frame_commands(s: RendererState) -> Seq<DeviceCommand> {
    seq![DeviceCommand::Clear] + (if s.indices_pending && s.indices.len() > 0 {
        seq![DeviceCommand::UploadIndices { count: s.indices.len() as usize }]
    } else {
        Seq::empty()
    }) + vertex_uploads(s.rect_quads.len(), s.glyphs()) + draw_commands(
        s.batches,
        s.rect_program,
        s.text_program,
        s.glyphs(),
    )
}

/// A stateful, low-level renderer.
///
/// Primitives are retained under stable handles, while the draw order comes
/// only from the display list, compiled on demand into batches and one shared
/// index sequence. Moving or recoloring a primitive is cheap and needs no
/// recompilation; changing which primitives are drawn, or in what order,
/// takes a new display list.
pub struct NotSureWhat {
    rect_program: u32,
    image_program: u32,
    text_program: u32,
    rect_buffer: GeometryBuffer,
    texts: LeakyVec<Text>,
    batches: Vec<Batch>,
    indices: Vec<u16>,
    indices_pending: bool,
}

impl View for NotSureWhat {
    type V = RendererState;

    closed spec fn view(&self) -> RendererState {
        RendererState {
            rect_quads: self.rect_buffer.quads(),
            rect_live: self.rect_buffer.live(),
            texts: self.texts.slots(),
            text_live: self.texts.live(),
            batches: self.batches@,
            indices: self.indices@,
            indices_pending: self.indices_pending,
            rect_program: self.rect_program,
            image_program: self.image_program,
            text_program: self.text_program,
        }
    }
}

impl NotSureWhat {
    pub closed spec fn wf(&self) -> bool {
        &&& self.rect_buffer.wf()
        &&& self.texts.wf()
        &&& forall|i: int| 0 <= i < self.texts.spec_len() ==> (#[trigger] self.texts.slots()[i]).wf()
        &&& forall|j: int|
            0 <= j < self.batches@.len() && (#[trigger] self.batches@[j]) is Text
                ==> self.batches@[j]->Text_0 < self.texts.spec_len()
        &&& total_index_count(self.batches@, glyph_counts(self.texts.slots())) == self.indices@.len()
        &&& self.indices@.len() <= MAX_INDICES
    }

    /// The stores always hold one liveness flag per issued handle.
    pub proof fn lemma_wf(&self)
        requires
            self.wf(),
        ensures
            self@.rect_quads.len() == self@.rect_live.len(),
            self@.texts.len() == self@.text_live.len(),
    {
        self.rect_buffer.lemma_wf();
        self.texts.lemma_wf();
    }

    /// A renderer with no primitives and an empty display list, drawing with
    /// the given compiled programs.
    pub fn new(rect_program: u32, image_program: u32, text_program: u32) -> (r: Self)
        ensures
            r.wf(),
            r@ == (RendererState {
                rect_quads: Seq::empty(),
                rect_live: Seq::empty(),
                texts: Seq::empty(),
                text_live: Seq::empty(),
                batches: Seq::empty(),
                indices: Seq::empty(),
                indices_pending: false,
                rect_program,
                image_program,
                text_program,
            }),
    {
        let r = NotSureWhat {
            rect_program,
            image_program,
            text_program,
            rect_buffer: GeometryBuffer::new(),
            texts: LeakyVec::new(),
            batches: Vec::new(),
            indices: Vec::new(),
            indices_pending: false,
        };
        proof {
            assert(r.batches@ =~= Seq::<Batch>::empty());
        }
        r
    }

    /// Creates a rectangle with corners `a` and `b`; its handle is the number
    /// of rectangles created before it.
    pub fn create_rect(&mut self, a: Pos, b: Pos, color: RGBA) -> (id: RectId)
        requires
            old(self).wf(),
        ensures
            final(self).wf(),
            id == old(self)@.rect_quads.len(),
            final(self)@ == (RendererState {
                rect_quads: old(self)@.rect_quads.push(quad_of(a, b, color)),
                rect_live: old(self)@.rect_live.push(true),
                ..old(self)@
            }),
            handles_stable(old(self)@, final(self)@),
    {
        self.rect_buffer.add_quad(a, b, color)
    }

    /// Moves a live rectangle to corners `a` and `b`, keeping its color; the
    /// compiled display list is untouched.
    pub fn set_rect_bounds(&mut self, id: RectId, a: Pos, b: Pos) -> (r: Result<(), RenderError>)
        requires
            old(self).wf(),
        ensures
            final(self).wf(),
            handles_stable(old(self)@, final(self)@),
            old(self)@.rect_live.len() > id && old(self)@.rect_live[id as int] ==> r is Ok
                && final(self)@ == bounds_set(old(self)@, id as int, a, b),
            !(old(self)@.rect_live.len() > id && old(self)@.rect_live[id as int]) ==> r == Err::<
                (),
                RenderError,
            >(RenderError::HandleOutOfRange) && final(self)@ == old(self)@,
    {
        proof {
            self.lemma_wf();
        }
        self.rect_buffer.set_quad_bounds(id, a, b)
    }

    /// Recolors a live rectangle, keeping its bounds; the compiled display
    /// list is untouched.
    pub fn set_rect_color(&mut self, id: RectId, color: RGBA) -> (r: Result<(), RenderError>)
        requires
            old(self).wf(),
        ensures
            final(self).wf(),
            handles_stable(old(self)@, final(self)@),
            old(self)@.rect_live.len() > id && old(self)@.rect_live[id as int] ==> r is Ok
                && final(self)@ == (RendererState {
                rect_quads: old(self)@.rect_quads.update(
                    id as int,
                    with_color(old(self)@.rect_quads[id as int], color),
                ),
                ..old(self)@
            }),
            !(old(self)@.rect_live.len() > id && old(self)@.rect_live[id as int]) ==> r == Err::<
                (),
                RenderError,
            >(RenderError::HandleOutOfRange) && final(self)@ == old(self)@,
    {
        proof {
            self.lemma_wf();
        }
        self.rect_buffer.set_quad_color(id, color)
    }

    /// Removes a live rectangle. Its storage and handle are kept and the
    /// handle is never issued again; a display list that still names it
    /// must be replaced to stop drawing it.
    pub fn remove_rect(&mut self, id: RectId) -> (r: Result<(), RenderError>)
        requires
            old(self).wf(),
        ensures
            final(self).wf(),
            handles_stable(old(self)@, final(self)@),
            old(self)@.rect_live.len() > id && old(self)@.rect_live[id as int] ==> r is Ok
                && final(self)@ == (RendererState {
                rect_live: old(self)@.rect_live.update(id as int, false),
                ..old(self)@
            }),
            !(old(self)@.rect_live.len() > id && old(self)@.rect_live[id as int]) ==> r == Err::<
                (),
                RenderError,
            >(RenderError::HandleOutOfRange) && final(self)@ == old(self)@,
    {
        proof {
            self.lemma_wf();
        }
        self.rect_buffer.remove(id)
    }

    /// Images are not provided: always `Unsupported`, with no effect.
    pub fn create_image(&mut self, a: Pos, b: Pos) -> (r: Result<ImageId, RenderError>)
        requires
            old(self).wf(),
        ensures
            final(self).wf(),
            r == Err::<ImageId, RenderError>(RenderError::Unsupported),
            final(self)@ == old(self)@,
    {
        Err(RenderError::Unsupported)
    }

    /// Images are not provided: always `Unsupported`, with no effect.
    pub fn set_image_pos(&mut self, id: ImageId, pos: Pos) -> (r: Result<(), RenderError>)
        requires
            old(self).wf(),
        ensures
            final(self).wf(),
            r == Err::<(), RenderError>(RenderError::Unsupported),
            final(self)@ == old(self)@,
    {
        Err(RenderError::Unsupported)
    }

    /// Images are not provided: always `Unsupported`, with no effect.
    pub fn remove_image(&mut self, id: ImageId) -> (r: Result<(), RenderError>)
        requires
            old(self).wf(),
        ensures
            final(self).wf(),
            r == Err::<(), RenderError>(RenderError::Unsupported),
            final(self)@ == old(self)@,
    {
        Err(RenderError::Unsupported)
    }

    /// Creates a text run of `glyphs` placeholder glyph quads laid out from
    /// `pos`; its handle is the number of text runs created before it.
    pub fn create_text(&mut self, pos: Pos, glyphs: usize, color: RGBA) -> (id: TextId)
        requires
            old(self).wf(),
            run_fits(pos, glyphs as nat),
        ensures
            final(self).wf(),
            id == old(self)@.texts.len(),
            final(self)@.texts.len() == old(self)@.texts.len() + 1,
            final(self)@.texts[id as int].anchor() == pos,
            final(self)@.texts[id as int].color() == color,
            final(self)@.texts[id as int].quads() == glyph_quads(pos, color, glyphs as nat),
            final(self)@ == (RendererState {
                texts: old(self)@.texts.push(final(self)@.texts[id as int]),
                text_live: old(self)@.text_live.push(true),
                ..old(self)@
            }),
            handles_stable(old(self)@, final(self)@),
    {
        let ghost g1 = glyph_counts(self.texts.slots());
        let text = Text::new(pos, glyphs, color);
        let id = self.texts.add(text);
        proof {
            lemma_total_extend(self.batches@, g1, glyph_counts(self.texts.slots()));
        }
        id
    }

    /// Moving a text run is not provided: always `Unsupported`, with no effect.
    pub fn set_text_pos(&mut self, id: TextId, pos: Pos) -> (r: Result<(), RenderError>)
        requires
            old(self).wf(),
        ensures
            final(self).wf(),
            r == Err::<(), RenderError>(RenderError::Unsupported),
            final(self)@ == old(self)@,
    {
        Err(RenderError::Unsupported)
    }

    /// Recoloring a text run is not provided: always `Unsupported`, with no
    /// effect.
    pub fn set_text_color(&mut self, id: TextId, color: RGBA) -> (r: Result<(), RenderError>)
        requires
            old(self).wf(),
        ensures
            final(self).wf(),
            r == Err::<(), RenderError>(RenderError::Unsupported),
            final(self)@ == old(self)@,
    {
        Err(RenderError::Unsupported)
    }

    /// Removes a live text run. Its storage and handle are kept and the
    /// handle is never issued again.
    pub fn remove_text(&mut self, id: TextId) -> (r: Result<(), RenderError>)
        requires
            old(self).wf(),
        ensures
            final(self).wf(),
            handles_stable(old(self)@, final(self)@),
            old(self)@.text_live.len() > id && old(self)@.text_live[id as int] ==> r is Ok
                && final(self)@ == (RendererState {
                text_live: old(self)@.text_live.update(id as int, false),
                ..old(self)@
            }),
            !(old(self)@.text_live.len() > id && old(self)@.text_live[id as int]) ==> r == Err::<
                (),
                RenderError,
            >(RenderError::HandleOutOfRange) && final(self)@ == old(self)@,
    {
        proof {
            self.lemma_wf();
        }
        self.texts.remove(id)
    }

    /// Replaces the display list: on success the batches and the index
    /// sequence are both replaced by those compiled from `items`; on failure
    /// neither changes.
    pub fn set_display_list(&mut self, items: &[DisplayItem]) -> (r: Result<(), RenderError>)
        requires
            old(self).wf(),
        ensures
            final(self).wf(),
            handles_stable(old(self)@, final(self)@),
            ({
                let s = old(self)@;
                match list_error(items@, s.rect_live, s.text_live, s.glyphs()) {
                    Some(e) => r == Err::<(), RenderError>(e) && final(self)@ == s,
                    None => r is Ok && final(self)@ == (RendererState {
                        batches: list_batches(items@),
                        indices: list_indices(items@, s.glyphs()),
                        indices_pending: true,
                        ..s
                    }),
                }
            }),
    {
        let item_count: usize = items.len();
        match compile(items, &self.rect_buffer, &self.texts) {
            Ok((batches, indices)) => {
                proof {
                    assert(items@.len() == item_count);
                    self.texts.lemma_wf();
                    let glyphs = glyph_counts(self.texts.slots());
                    lemma_compiled_ok(items@, self.rect_buffer.live(), self.texts.live(), glyphs);
                    lemma_total_index_count(items@, glyphs);
                }
                self.batches = batches;
                self.indices = indices;
                self.indices_pending = true;
                Ok(())
            },
            Err(e) => Err(e),
        }
    }

    /// Plans one frame: the commands that clear the target, upload the index
    /// sequence if it changed and every non-empty vertex buffer, and draw
    /// every batch of the display list in order.
    pub fn render(&mut self) -> (cmds: Vec<DeviceCommand>)
        requires
            old(self).wf(),
        ensures
            final(self).wf(),
            cmds@ == frame_commands(old(self)@),
            final(self)@ == (RendererState { indices_pending: false, ..old(self)@ }),
    {
        let mut cmds: Vec<DeviceCommand> = Vec::new();
        cmds.push(DeviceCommand::Clear);
        if self.indices_pending && self.indices.len() > 0 {
            cmds.push(DeviceCommand::UploadIndices { count: self.indices.len() });
        }
        self.indices_pending = false;
        push_vertex_uploads(&mut cmds, &self.rect_buffer, &self.texts);
        push_draws(&mut cmds, &self.batches, self.rect_program, self.text_program, &self.texts);
        proof {
            assert(cmds@ =~= frame_commands(old(self)@));
        }
        cmds
    }

    /// The rectangle buffer's host-side quads, by handle.
    pub fn rect_quads(&self) -> (q: &[Quad])
        ensures
            q@ == self@.rect_quads,
    {
        self.rect_buffer.as_slice()
    }

    /// The host-side glyph quads of a text run (a removed one included).
    pub fn text_quads(&self, id: TextId) -> (r: Result<&[Quad], RenderError>)
        requires
            self.wf(),
        ensures
            id < self@.texts.len() ==> (r matches Ok(q) && q@ == self@.texts[id as int].quads()),
            id >= self@.texts.len() ==> r == Err::<&[Quad], RenderError>(
                RenderError::HandleOutOfRange,
            ),
    {
        match self.texts.get(id) {
            Ok(t) => Ok(t.as_slice()),
            Err(e) => Err(e),
        }
    }

    /// The index sequence of the current display list.
    pub fn indices(&self) -> (ix: &[u16])
        ensures
            ix@ == self@.indices,
    {
        self.indices.as_slice()
    }

    /// The batches of the current display list, in draw order.
    pub fn batches(&self) -> (b: &[Batch])
        ensures
            b@ == self@.batches,
    {
        self.batches.as_slice()
    }
}

} // verus!
