use new_hope::{
    text_run_fits, Batch, BufferId, DeviceCommand, DisplayItem, NotSureWhat, Pos, Quad,
    RenderError, Vertex, AU_PER_NDC, GLYPH_ADVANCE, GLYPH_HEIGHT, GLYPH_WIDTH, RGBA,
};

const RECT_PROGRAM: u32 = 11;
const IMAGE_PROGRAM: u32 = 12;
const TEXT_PROGRAM: u32 = 13;

fn renderer() -> NotSureWhat {
    NotSureWhat::new(RECT_PROGRAM, IMAGE_PROGRAM, TEXT_PROGRAM)
}

fn draws(cmds: &[DeviceCommand]) -> Vec<(usize, usize)> {
    let mut out = Vec::new();
    for c in cmds {
        if let DeviceCommand::DrawIndexed { count, byte_offset } = c {
            out.push((*count, *byte_offset));
        }
    }
    out
}

const BLUE: RGBA = RGBA(0, 0, 255, 255);
const RED: RGBA = RGBA(255, 0, 0, 255);

#[test]
fn two_rects_compile_to_one_batch() {
    let one = AU_PER_NDC;
    let mut r = renderer();
    let a = r.create_rect(Pos(0, 0), Pos(one, one), BLUE);
    let b = r.create_rect(Pos(-one, -one), Pos(0, 0), RED);
    assert_eq!((a, b), (0, 1));
    assert_eq!(r.set_display_list(&[DisplayItem::Rect(a), DisplayItem::Rect(b)]), Ok(()));
    assert_eq!(r.batches(), &[Batch::Rects(2)]);
    assert_eq!(r.indices(), &[1, 0, 3, 0, 2, 3, 5, 4, 7, 4, 6, 7]);
    let cmds = r.render();
    assert_eq!(draws(&cmds), vec![(12, 0)]);
    assert_eq!(
        cmds,
        vec![
            DeviceCommand::Clear,
            DeviceCommand::UploadIndices { count: 12 },
            DeviceCommand::UploadVertices { buffer: BufferId::Rects, quads: 2 },
            DeviceCommand::UseProgram(RECT_PROGRAM),
            DeviceCommand::BindVertices(BufferId::Rects),
            DeviceCommand::DrawIndexed { count: 12, byte_offset: 0 },
        ]
    );
}

#[test]
fn rect_quad_vertex_order() {
    let mut r = renderer();
    let id = r.create_rect(Pos(1, 2), Pos(3, 4), BLUE);
    assert_eq!(
        r.rect_quads()[id],
        Quad(
            Vertex(Pos(1, 2), BLUE),
            Vertex(Pos(3, 2), BLUE),
            Vertex(Pos(1, 4), BLUE),
            Vertex(Pos(3, 4), BLUE),
        )
    );
}

#[test]
fn text_run_of_three_glyphs() {
    let mut r = renderer();
    let anchor = Pos(-200, 300);
    let t = r.create_text(anchor, 3, RED);
    let quads = r.text_quads(t).unwrap();
    assert_eq!(quads.len(), 3);
    let step = GLYPH_WIDTH + GLYPH_ADVANCE;
    for (k, q) in quads.iter().enumerate() {
        let x = anchor.0 + k as i32 * step;
        assert_eq!(q.0, Vertex(Pos(x, anchor.1), RED));
        assert_eq!(q.3, Vertex(Pos(x + GLYPH_WIDTH, anchor.1 + GLYPH_HEIGHT), RED));
    }
    assert_eq!(quads[1].0 .0 .0 - quads[0].0 .0 .0, 60);
    assert_eq!(r.set_display_list(&[DisplayItem::Text(t)]), Ok(()));
    assert_eq!(r.batches(), &[Batch::Text(t)]);
    assert_eq!(r.indices().len(), 18);
    assert_eq!(
        r.indices(),
        &[1, 0, 3, 0, 2, 3, 5, 4, 7, 4, 6, 7, 9, 8, 11, 8, 10, 11]
    );
    let cmds = r.render();
    assert_eq!(
        cmds,
        vec![
            DeviceCommand::Clear,
            DeviceCommand::UploadIndices { count: 18 },
            DeviceCommand::UploadVertices { buffer: BufferId::Text(t), quads: 3 },
            DeviceCommand::UseProgram(TEXT_PROGRAM),
            DeviceCommand::BindVertices(BufferId::Text(t)),
            DeviceCommand::DrawIndexed { count: 18, byte_offset: 0 },
        ]
    );
}

#[test]
fn handles_are_never_reissued() {
    let mut r = renderer();
    let a = r.create_rect(Pos(0, 0), Pos(1, 1), BLUE);
    let b = r.create_rect(Pos(0, 0), Pos(2, 2), RED);
    assert_eq!(r.remove_rect(a), Ok(()));
    let c = r.create_rect(Pos(0, 0), Pos(3, 3), BLUE);
    assert_eq!((a, b, c), (0, 1, 2));
    assert_eq!(r.set_rect_bounds(a, Pos(5, 5), Pos(6, 6)), Err(RenderError::HandleOutOfRange));
    assert_eq!(r.remove_rect(a), Err(RenderError::HandleOutOfRange));
    assert_eq!(r.set_rect_bounds(b, Pos(5, 5), Pos(6, 6)), Ok(()));
    assert_eq!(r.rect_quads()[b].0, Vertex(Pos(5, 5), RED));
    assert_eq!(r.rect_quads()[c].3, Vertex(Pos(3, 3), BLUE));
    assert_eq!(r.rect_quads().len(), 3);

    let t0 = r.create_text(Pos(0, 0), 1, RED);
    assert_eq!(r.remove_text(t0), Ok(()));
    let t1 = r.create_text(Pos(0, 0), 2, RED);
    assert_eq!((t0, t1), (0, 1));
    assert_eq!(r.text_quads(t0).unwrap().len(), 1);
    assert_eq!(r.remove_text(t0), Err(RenderError::HandleOutOfRange));
    assert_eq!(r.remove_text(7), Err(RenderError::HandleOutOfRange));
}

#[test]
fn setting_same_bounds_twice_matches_once() {
    let mut once = renderer();
    let mut twice = renderer();
    let a = once.create_rect(Pos(0, 0), Pos(1, 1), BLUE);
    twice.create_rect(Pos(0, 0), Pos(1, 1), BLUE);
    assert_eq!(once.set_rect_bounds(a, Pos(-7, 3), Pos(9, 40)), Ok(()));
    assert_eq!(twice.set_rect_bounds(a, Pos(-7, 3), Pos(9, 40)), Ok(()));
    assert_eq!(twice.set_rect_bounds(a, Pos(-7, 3), Pos(9, 40)), Ok(()));
    assert_eq!(once.rect_quads(), twice.rect_quads());
    assert_eq!(
        once.rect_quads()[a],
        Quad(
            Vertex(Pos(-7, 3), BLUE),
            Vertex(Pos(9, 3), BLUE),
            Vertex(Pos(-7, 40), BLUE),
            Vertex(Pos(9, 40), BLUE),
        )
    );
}

#[test]
fn rect_indices_follow_handle() {
    let mut r = renderer();
    for n in 0..5 {
        r.create_rect(Pos(n, n), Pos(n + 1, n + 1), BLUE);
    }
    assert_eq!(r.set_display_list(&[DisplayItem::Rect(3), DisplayItem::Rect(0)]), Ok(()));
    assert_eq!(r.indices(), &[13, 12, 15, 12, 14, 15, 1, 0, 3, 0, 2, 3]);
}

#[test]
fn consecutive_rects_coalesce() {
    let mut r = renderer();
    for _ in 0..3 {
        r.create_rect(Pos(0, 0), Pos(1, 1), BLUE);
    }
    let items = [DisplayItem::Rect(2), DisplayItem::Rect(0), DisplayItem::Rect(1)];
    assert_eq!(r.set_display_list(&items), Ok(()));
    assert_eq!(r.batches(), &[Batch::Rects(3)]);
}

#[test]
fn text_between_rect_runs_splits_batches() {
    let mut r = renderer();
    for _ in 0..3 {
        r.create_rect(Pos(0, 0), Pos(1, 1), BLUE);
    }
    let t = r.create_text(Pos(0, 0), 2, RED);
    let items = [
        DisplayItem::Rect(0),
        DisplayItem::Rect(1),
        DisplayItem::Text(t),
        DisplayItem::Rect(2),
    ];
    assert_eq!(r.set_display_list(&items), Ok(()));
    assert_eq!(r.batches(), &[Batch::Rects(2), Batch::Text(t), Batch::Rects(1)]);
    assert_eq!(r.indices().len(), 12 + 12 + 6);
    let cmds = r.render();
    assert_eq!(draws(&cmds), vec![(12, 0), (12, 24), (6, 48)]);
    assert_eq!(
        cmds[cmds.len() - 9..].to_vec(),
        vec![
            DeviceCommand::UseProgram(RECT_PROGRAM),
            DeviceCommand::BindVertices(BufferId::Rects),
            DeviceCommand::DrawIndexed { count: 12, byte_offset: 0 },
            DeviceCommand::UseProgram(TEXT_PROGRAM),
            DeviceCommand::BindVertices(BufferId::Text(t)),
            DeviceCommand::DrawIndexed { count: 12, byte_offset: 24 },
            DeviceCommand::UseProgram(RECT_PROGRAM),
            DeviceCommand::BindVertices(BufferId::Rects),
            DeviceCommand::DrawIndexed { count: 6, byte_offset: 48 },
        ]
    );
}

#[test]
fn mutation_keeps_compiled_list() {
    let mut r = renderer();
    let a = r.create_rect(Pos(0, 0), Pos(1, 1), BLUE);
    let t = r.create_text(Pos(0, 0), 2, RED);
    assert_eq!(r.set_display_list(&[DisplayItem::Text(t), DisplayItem::Rect(a)]), Ok(()));
    let batches = r.batches().to_vec();
    let indices = r.indices().to_vec();
    assert_eq!(r.set_rect_bounds(a, Pos(10, 10), Pos(20, 20)), Ok(()));
    assert_eq!(r.set_rect_color(a, RED), Ok(()));
    assert_eq!(r.batches(), batches.as_slice());
    assert_eq!(r.indices(), indices.as_slice());
    assert_eq!(
        r.rect_quads()[a],
        Quad(
            Vertex(Pos(10, 10), RED),
            Vertex(Pos(20, 10), RED),
            Vertex(Pos(10, 20), RED),
            Vertex(Pos(20, 20), RED),
        )
    );
}

#[test]
fn recolor_keeps_bounds() {
    let mut r = renderer();
    let a = r.create_rect(Pos(1, 2), Pos(3, 4), BLUE);
    assert_eq!(r.set_rect_color(a, RED), Ok(()));
    assert_eq!(
        r.rect_quads()[a],
        Quad(
            Vertex(Pos(1, 2), RED),
            Vertex(Pos(3, 2), RED),
            Vertex(Pos(1, 4), RED),
            Vertex(Pos(3, 4), RED),
        )
    );
    assert_eq!(r.set_rect_color(9, RED), Err(RenderError::HandleOutOfRange));
}

#[test]
fn unknown_or_removed_handle_in_display_list() {
    let mut r = renderer();
    let a = r.create_rect(Pos(0, 0), Pos(1, 1), BLUE);
    assert_eq!(r.set_display_list(&[DisplayItem::Rect(a)]), Ok(()));
    assert_eq!(
        r.set_display_list(&[DisplayItem::Rect(a), DisplayItem::Rect(1)]),
        Err(RenderError::HandleOutOfRange)
    );
    assert_eq!(r.set_display_list(&[DisplayItem::Text(0)]), Err(RenderError::HandleOutOfRange));
    assert_eq!(r.remove_rect(a), Ok(()));
    assert_eq!(r.set_display_list(&[DisplayItem::Rect(a)]), Err(RenderError::HandleOutOfRange));
    // a failed compile leaves the previous list in place
    assert_eq!(r.batches(), &[Batch::Rects(1)]);
    assert_eq!(r.indices(), &[1, 0, 3, 0, 2, 3]);
}

#[test]
fn image_items_are_unsupported() {
    let mut r = renderer();
    let a = r.create_rect(Pos(0, 0), Pos(1, 1), BLUE);
    assert_eq!(
        r.set_display_list(&[DisplayItem::Rect(a), DisplayItem::Image(0)]),
        Err(RenderError::Unsupported)
    );
    // the first failing item decides the error
    assert_eq!(
        r.set_display_list(&[DisplayItem::Image(0), DisplayItem::Rect(5)]),
        Err(RenderError::Unsupported)
    );
    assert_eq!(
        r.set_display_list(&[DisplayItem::Rect(5), DisplayItem::Image(0)]),
        Err(RenderError::HandleOutOfRange)
    );
    assert!(r.batches().is_empty());
}

#[test]
fn unsupported_operations_have_no_effect() {
    let mut r = renderer();
    let t = r.create_text(Pos(0, 0), 2, RED);
    assert_eq!(r.create_image(Pos(0, 0), Pos(1, 1)), Err(RenderError::Unsupported));
    assert_eq!(r.set_image_pos(0, Pos(1, 1)), Err(RenderError::Unsupported));
    assert_eq!(r.remove_image(0), Err(RenderError::Unsupported));
    assert_eq!(r.set_text_pos(t, Pos(1, 1)), Err(RenderError::Unsupported));
    assert_eq!(r.set_text_color(t, BLUE), Err(RenderError::Unsupported));
    let q = r.text_quads(t).unwrap();
    assert_eq!(q[0].0, Vertex(Pos(0, 0), RED));
}

#[test]
fn rect_beyond_sixteen_bit_indices() {
    let mut r = renderer();
    for _ in 0..16385 {
        r.create_rect(Pos(0, 0), Pos(1, 1), BLUE);
    }
    assert_eq!(r.set_display_list(&[DisplayItem::Rect(16383)]), Ok(()));
    assert_eq!(r.indices(), &[65533, 65532, 65535, 65532, 65534, 65535]);
    assert_eq!(r.set_display_list(&[DisplayItem::Rect(16384)]), Err(RenderError::BatchTooLarge));
}

#[test]
fn text_beyond_sixteen_bit_indices() {
    let mut r = renderer();
    let ok = r.create_text(Pos(0, 0), 16384, RED);
    let big = r.create_text(Pos(0, 0), 16385, RED);
    assert_eq!(r.set_display_list(&[DisplayItem::Text(ok)]), Ok(()));
    assert_eq!(r.indices().len(), 6 * 16384);
    assert_eq!(*r.indices().last().unwrap(), 65535);
    assert_eq!(r.set_display_list(&[DisplayItem::Text(big)]), Err(RenderError::BatchTooLarge));
}

#[test]
fn text_run_fit_check() {
    assert!(text_run_fits(Pos(0, 0), 0));
    assert!(text_run_fits(Pos(i32::MAX, i32::MAX), 0));
    assert!(text_run_fits(Pos(0, 0), 10));
    assert!(!text_run_fits(Pos(i32::MAX - 49, 0), 1));
    assert!(text_run_fits(Pos(i32::MAX - 50, 0), 1));
    assert!(!text_run_fits(Pos(0, i32::MAX - 99), 1));
    assert!(!text_run_fits(Pos(0, 0), usize::MAX));
}

#[test]
fn indices_upload_once_per_compile() {
    let mut r = renderer();
    let a = r.create_rect(Pos(0, 0), Pos(1, 1), BLUE);
    let empty = r.create_text(Pos(0, 0), 0, RED);
    assert_eq!(r.render(), vec![DeviceCommand::Clear, DeviceCommand::UploadVertices {
        buffer: BufferId::Rects,
        quads: 1,
    }]);
    assert_eq!(r.set_display_list(&[DisplayItem::Rect(a), DisplayItem::Text(empty)]), Ok(()));
    let first = r.render();
    assert!(first.contains(&DeviceCommand::UploadIndices { count: 6 }));
    let second = r.render();
    assert!(!second.iter().any(|c| matches!(c, DeviceCommand::UploadIndices { .. })));
    // an empty text run is never uploaded but still gets its (empty) batch
    assert!(!second.contains(&DeviceCommand::UploadVertices { buffer: BufferId::Text(empty), quads: 0 }));
    assert_eq!(draws(&second), vec![(6, 0), (0, 12)]);
}

#[test]
fn empty_display_list_draws_nothing() {
    let mut r = renderer();
    r.create_rect(Pos(0, 0), Pos(1, 1), BLUE);
    assert_eq!(r.set_display_list(&[]), Ok(()));
    assert!(r.batches().is_empty());
    let cmds = r.render();
    assert!(draws(&cmds).is_empty());
    assert!(!cmds.iter().any(|c| matches!(c, DeviceCommand::UploadIndices { .. })));
}
