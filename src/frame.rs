use vstd::prelude::*;

use crate::display::{
    batch_index_count, glyph_counts, total_index_count, Batch, TextId, MAX_INDICES,
};
use crate::geometry::GeometryBuffer;
use crate::store::LeakyVec;
use crate::text::Text;

verus! {

/// Size in bytes of one entry of the index buffer.
pub const INDEX_SIZE: usize = 2;

/// A device buffer, named by what it holds.
#[derive(Clone, Copy, Debug, PartialEq, Eq, Hash, Structural)]
pub enum BufferId {
    /// The rectangle vertex buffer.
    Rects,
    /// The vertex buffer owned by one text run.
    Text(TextId),
    /// The shared index buffer.
    Indices,
}

/// One step of a frame, for a graphics backend to carry out in order.
#[derive(Clone, Copy, Debug, PartialEq, Eq, Structural)]
pub enum DeviceCommand {
    /// Clear the target to opaque white.
    Clear,
    /// Replace the index buffer's contents with the host-side index sequence
    /// of `count` entries.
    UploadIndices { count: usize },
    /// Replace a vertex buffer's contents with its host-side array of `quads`
    /// quads, `4 * quads * VERTEX_SIZE` bytes.
    UploadVertices { buffer: BufferId, quads: usize },
    /// Make this program current.
    UseProgram(u32),
    /// Bind this vertex buffer with the two fixed attributes, position (two
    /// floats at offset 0) and color (four bytes at `COLOR_OFFSET`), at a
    /// stride of `VERTEX_SIZE`.
    BindVertices(BufferId),
    /// Draw `count` indices as triangles, starting `byte_offset` bytes into the
    /// index buffer.
    DrawIndexed { count: usize, byte_offset: usize },
}

/// The uploads of the text runs' buffers, in store order; an empty buffer is
/// not uploaded.
pub open spec fn text_uploads(glyphs: Seq<nat>) -> Seq<DeviceCommand>
    decreases glyphs.len(),
{
    if glyphs.len() == 0 {
        Seq::empty()
    } else {
        let h = glyphs.len() - 1;
        text_uploads(glyphs.drop_last()) + if glyphs[h] > 0 {
            seq![
                DeviceCommand::UploadVertices {
                    buffer: BufferId::Text(h as usize),
                    quads: glyphs[h] as usize,
                },
            ]
        } else {
            Seq::empty()
        }
    }
}

/// The vertex uploads of a frame: the rectangle buffer, then every text run's.
pub open spec fn vertex_uploads(rect_quads: nat, glyphs: Seq<nat>) -> Seq<DeviceCommand> {
    (if rect_quads > 0 {
        seq![DeviceCommand::UploadVertices { buffer: BufferId::Rects, quads: rect_quads as usize }]
    } else {
        Seq::empty()
    }) + text_uploads(glyphs)
}

/// The commands that draw one batch whose indices start `offset` entries into
/// the index buffer.
pub open spec fn batch_commands(
    b: Batch,
    rect_program: u32,
    text_program: u32,
    glyphs: Seq<nat>,
    offset: nat,
) -> Seq<DeviceCommand> {
    let draw = DeviceCommand::DrawIndexed {
        count: batch_index_count(b, glyphs) as usize,
        byte_offset: (INDEX_SIZE * offset) as usize,
    };
    match b {
        Batch::Rects(_) => seq![
            DeviceCommand::UseProgram(rect_program),
            DeviceCommand::BindVertices(BufferId::Rects),
            draw,
        ],
        Batch::Text(h) => seq![
            DeviceCommand::UseProgram(text_program),
            DeviceCommand::BindVertices(BufferId::Text(h)),
            draw,
        ],
    }
}

/// The commands that draw `batches` in order, each batch's indices following
/// those of the batches before it.
pub open spec fn draw_commands(
    batches: Seq<Batch>,
    rect_program: u32,
    text_program: u32,
    glyphs: Seq<nat>,
) -> Seq<DeviceCommand>
    decreases batches.len(),
{
    if batches.len() == 0 {
        Seq::empty()
    } else {
        let prefix = batches.drop_last();
        draw_commands(prefix, rect_program, text_program, glyphs) + batch_commands(
            batches.last(),
            rect_program,
            text_program,
            glyphs,
            total_index_count(prefix, glyphs),
        )
    }
}

/// A prefix of a batch list draws no more indices than the whole list.
pub proof fn lemma_total_prefix(batches: Seq<Batch>, glyphs: Seq<nat>, j: int)
    requires
        0 <= j <= batches.len(),
    ensures
        total_index_count(batches.take(j), glyphs) <= total_index_count(batches, glyphs),
    decreases batches.len(),
{
    if j < batches.len() {
        assert(batches.drop_last().take(j) =~= batches.take(j));
        lemma_total_prefix(batches.drop_last(), glyphs, j);
    } else {
        assert(batches.take(j) =~= batches);
    }
}

/// Appends the vertex uploads of the rectangle buffer and of every text run.
pub fn push_vertex_uploads(
    cmds: &mut Vec<DeviceCommand>,
    rects: &GeometryBuffer,
    texts: &LeakyVec<Text>,
)
    requires
        rects.wf(),
        texts.wf(),
        forall|i: int| 0 <= i < texts.spec_len() ==> (#[trigger] texts.slots()[i]).wf(),
    ensures
        final(cmds)@ == old(cmds)@ + vertex_uploads(
            rects.quads().len(),
            glyph_counts(texts.slots()),
        ),
{
    let ghost glyphs = glyph_counts(texts.slots());
    let ghost start = cmds@;
    let n = rects.len();
    if n > 0 {
        cmds.push(DeviceCommand::UploadVertices { buffer: BufferId::Rects, quads: n });
    }
    let ghost after_rects = cmds@;
    let count = texts.len();
    let mut h: usize = 0;
    proof {
        assert(glyphs.take(0) =~= Seq::<nat>::empty());
    }
    while h < count
        invariant
            h <= count == texts.spec_len() == glyphs.len(),
            texts.wf(),
            forall|i: int| 0 <= i < texts.spec_len() ==> (#[trigger] texts.slots()[i]).wf(),
            glyphs == glyph_counts(texts.slots()),
            cmds@ == after_rects + text_uploads(glyphs.take(h as int)),
        decreases count - h,
    {
        let g = match texts.get(h) {
            Ok(t) => t.glyph_count(),
            Err(_) => 0,
        };
        proof {
            assert(glyphs.take(h + 1).drop_last() =~= glyphs.take(h as int));
        }
        if g > 0 {
            cmds.push(DeviceCommand::UploadVertices { buffer: BufferId::Text(h), quads: g });
        }
        proof {
            assert(cmds@ =~= after_rects + text_uploads(glyphs.take(h + 1)));
        }
        h = h + 1;
    }
    proof {
        assert(glyphs.take(count as int) =~= glyphs);
        assert(cmds@ =~= start + vertex_uploads(rects.quads().len(), glyphs));
    }
}

/// Appends the commands that draw `batches` in order, tracking each batch's
/// offset into the shared index buffer.
pub fn push_draws(
    cmds: &mut Vec<DeviceCommand>,
    batches: &Vec<Batch>,
    rect_program: u32,
    text_program: u32,
    texts: &LeakyVec<Text>,
)
    requires
        texts.wf(),
        forall|i: int| 0 <= i < texts.spec_len() ==> (#[trigger] texts.slots()[i]).wf(),
        forall|i: int|
            0 <= i < batches@.len() && (#[trigger] batches@[i]) is Text ==> batches@[i]->Text_0
                < texts.spec_len(),
        total_index_count(batches@, glyph_counts(texts.slots())) <= MAX_INDICES,
    ensures
        final(cmds)@ == old(cmds)@ + draw_commands(
            batches@,
            rect_program,
            text_program,
            glyph_counts(texts.slots()),
        ),
{
    let ghost glyphs = glyph_counts(texts.slots());
    let ghost start = cmds@;
    let mut offset: usize = 0;
    let mut i: usize = 0;
    proof {
        assert(batches@.take(0) =~= Seq::<Batch>::empty());
    }
    while i < batches.len()
        invariant
            i <= batches@.len(),
            texts.wf(),
            forall|j: int| 0 <= j < texts.spec_len() ==> (#[trigger] texts.slots()[j]).wf(),
            forall|j: int|
                0 <= j < batches@.len() && (#[trigger] batches@[j]) is Text ==> batches@[j]->Text_0
                    < texts.spec_len(),
            glyphs == glyph_counts(texts.slots()),
            total_index_count(batches@, glyphs) <= MAX_INDICES,
            offset == total_index_count(batches@.take(i as int), glyphs),
            cmds@ == start + draw_commands(
                batches@.take(i as int),
                rect_program,
                text_program,
                glyphs,
            ),
        decreases batches@.len() - i,
    {
        let ghost prefix = batches@.take(i as int);
        proof {
            assert(batches@.take(i + 1).drop_last() =~= prefix);
            lemma_total_prefix(batches@, glyphs, i + 1);
        }
        let b = batches[i];
        let count: usize = match b {
            Batch::Rects(n) => {
                cmds.push(DeviceCommand::UseProgram(rect_program));
                cmds.push(DeviceCommand::BindVertices(BufferId::Rects));
                6 * n
            },
            Batch::Text(h) => {
                let g = match texts.get(h) {
                    Ok(t) => t.glyph_count(),
                    Err(_) => 0,
                };
                cmds.push(DeviceCommand::UseProgram(text_program));
                cmds.push(DeviceCommand::BindVertices(BufferId::Text(h)));
                6 * g
            },
        };
        cmds.push(
            DeviceCommand::DrawIndexed { count, byte_offset: INDEX_SIZE * offset },
        );
        proof {
            assert(cmds@ =~= start + draw_commands(
                batches@.take(i + 1),
                rect_program,
                text_program,
                glyphs,
            ));
        }
        offset = offset + count;
        i = i + 1;
    }
    proof {
        assert(batches@.take(batches@.len() as int) =~= batches@);
    }
}

} // verus!
