use vstd::prelude::*;

use crate::error::RenderError;
use crate::geometry::GeometryBuffer;
use crate::store::LeakyVec;
use crate::text::Text;

verus! {

/// Handle of a rectangle in the rectangle store.
pub type RectId = usize;

/// Handle of an image (reserved: images are not provided).
pub type ImageId = usize;

/// Handle of a text run in the text store.
pub type TextId = usize;

/// Highest quad position that a 16-bit vertex index can still reach.
pub const MAX_QUAD: usize = 16383;

/// Most glyph quads a single text batch can address with 16-bit indices.
pub const MAX_GLYPHS: usize = 16384;

/// Most entries the compiled index sequence may hold, so that every draw
/// call's index count fits a signed 32-bit count and its byte offset fits in
/// 32 bits.
pub const MAX_INDICES: usize = 1073741823;

/// One entry of a display list: draw this primitive at this point of the order.
#[derive(Clone, Copy, Debug, PartialEq, Eq, Structural)]
pub enum DisplayItem {
    Rect(RectId),
    Image(ImageId),
    Text(TextId),
}

/// One draw call: a run of consecutive rectangle items, or one text run.
#[derive(Clone, Copy, Debug, PartialEq, Eq, Structural)]
pub enum Batch {
    /// This many rectangle quads, drawn from the rectangle buffer.
    Rects(usize),
    /// Every glyph quad of this text run, drawn from the run's own buffer.
    Text(TextId),
}

/// The six indices of the two triangles of the quad at position `k` of its
/// buffer: (top-right, top-left, bottom-right) and (top-left, bottom-left,
/// bottom-right).
pub open spec fn quad_indices(k: int) -> Seq<u16> {
    let base = 4 * k;
    seq![
        (base + 1) as u16,
        base as u16,
        (base + 3) as u16,
        base as u16,
        (base + 2) as u16,
        (base + 3) as u16,
    ]
}

/// The indices of the first `n` quads of a buffer, in storage order.
pub open spec fn glyph_indices(n: nat) -> Seq<u16>
    decreases n,
{
    if n == 0 {
        Seq::empty()
    } else {
        glyph_indices((n - 1) as nat) + quad_indices(n - 1)
    }
}

/// Glyph count of each text run, by handle.
pub open spec fn glyph_counts(texts: Seq<Text>) -> Seq<nat> {
    texts.map_values(|t: Text| t.quads().len())
}

/// The indices that one item contributes; `glyphs` gives each text run's
/// glyph count.
pub open spec fn item_indices(item: DisplayItem, glyphs: Seq<nat>) -> Seq<u16> {
    match item {
        DisplayItem::Rect(k) => quad_indices(k as int),
        DisplayItem::Text(h) => glyph_indices(glyphs[h as int]),
        DisplayItem::Image(_) => Seq::empty(),
    }
}

/// The index sequence compiled from `items`: each item's indices, in list order.
pub open spec fn list_indices(items: Seq<DisplayItem>, glyphs: Seq<nat>) -> Seq<u16>
    decreases items.len(),
{
    if items.len() == 0 {
        Seq::empty()
    } else {
        list_indices(items.drop_last(), glyphs) + item_indices(items.last(), glyphs)
    }
}

/// `batches` after one more item: a rectangle joins a trailing rectangle run
/// or starts one; a text run always gets a batch of its own.
pub open spec fn push_batch(batches: Seq<Batch>, item: DisplayItem) -> Seq<Batch> {
    match item {
        DisplayItem::Rect(_) => {
            if batches.len() > 0 && batches.last() is Rects {
                batches.drop_last().push(Batch::Rects((batches.last()->Rects_0 + 1) as usize))
            } else {
                batches.push(Batch::Rects(1))
            }
        },
        DisplayItem::Text(h) => batches.push(Batch::Text(h)),
        DisplayItem::Image(_) => batches,
    }
}

/// The batch list compiled from `items`.
pub open spec fn list_batches(items: Seq<DisplayItem>) -> Seq<Batch>
    decreases items.len(),
{
    if items.len() == 0 {
        Seq::empty()
    } else {
        push_batch(list_batches(items.drop_last()), items.last())
    }
}

/// How many indices a batch draws.
pub open spec fn batch_index_count(b: Batch, glyphs: Seq<nat>) -> nat {
    match b {
        Batch::Rects(n) => (6 * n) as nat,
        Batch::Text(h) => 6 * glyphs[h as int],
    }
}

/// How many indices a batch list draws in all.
pub open spec fn total_index_count(batches: Seq<Batch>, glyphs: Seq<nat>) -> nat
    decreases batches.len(),
{
    if batches.len() == 0 {
        0
    } else {
        total_index_count(batches.drop_last(), glyphs) + batch_index_count(batches.last(), glyphs)
    }
}

/// Why one item cannot be compiled, if it cannot: its handle is not live, its
/// indices would not fit 16 bits, or it is an image.
pub open spec fn item_error(
    item: DisplayItem,
    rect_live: Seq<bool>,
    text_live: Seq<bool>,
    glyphs: Seq<nat>,
) -> Option<RenderError> {
    match item {
        DisplayItem::Rect(k) => {
            if !(k < rect_live.len() && rect_live[k as int]) {
                Some(RenderError::HandleOutOfRange)
            } else if k > MAX_QUAD {
                Some(RenderError::BatchTooLarge)
            } else {
                None
            }
        },
        DisplayItem::Text(h) => {
            if !(h < text_live.len() && text_live[h as int]) {
                Some(RenderError::HandleOutOfRange)
            } else if glyphs[h as int] > MAX_GLYPHS {
                Some(RenderError::BatchTooLarge)
            } else {
                None
            }
        },
        DisplayItem::Image(_) => Some(RenderError::Unsupported),
    }
}

/// The error of the first item, in list order, that cannot be compiled, or
/// `BatchTooLarge` where the index sequence first outgrows `MAX_INDICES`.
pub open spec fn list_error(
    items: Seq<DisplayItem>,
    rect_live: Seq<bool>,
    text_live: Seq<bool>,
    glyphs: Seq<nat>,
) -> Option<RenderError>
    decreases items.len(),
{
    if items.len() == 0 {
        None
    } else {
        match list_error(items.drop_last(), rect_live, text_live, glyphs) {
            Some(e) => Some(e),
            None => match item_error(items.last(), rect_live, text_live, glyphs) {
                Some(e) => Some(e),
                None => if list_indices(items, glyphs).len() > MAX_INDICES {
                    Some(RenderError::BatchTooLarge)
                } else {
                    None
                },
            },
        }
    }
}

pub proof fn lemma_glyph_indices_len(n: nat)
    ensures
        glyph_indices(n).len() == 6 * n,
    decreases n,
{
    if n > 0 {
        lemma_glyph_indices_len((n - 1) as nat);
    }
}

/// A batch list draws exactly as many indices as its display list compiles to.
pub proof fn lemma_total_index_count(items: Seq<DisplayItem>, glyphs: Seq<nat>)
    requires
        items.len() <= usize::MAX,
    ensures
        total_index_count(list_batches(items), glyphs) == list_indices(items, glyphs).len(),
        list_batches(items).len() > 0 && list_batches(items).last() is Rects ==> list_batches(
            items,
        ).last()->Rects_0 <= items.len(),
    decreases items.len(),
{
    if items.len() > 0 {
        let prefix = items.drop_last();
        let bs = list_batches(prefix);
        lemma_total_index_count(prefix, glyphs);
        match items.last() {
            DisplayItem::Rect(_) => {
                if bs.len() > 0 && bs.last() is Rects {
                    let nb = bs.drop_last().push(Batch::Rects((bs.last()->Rects_0 + 1) as usize));
                    assert(nb.drop_last() =~= bs.drop_last());
                } else {
                    assert(bs.push(Batch::Rects(1)).drop_last() =~= bs);
                }
            },
            DisplayItem::Text(h) => {
                assert(bs.push(Batch::Text(h)).drop_last() =~= bs);
                lemma_glyph_indices_len(glyphs[h as int]);
            },
            DisplayItem::Image(_) => {},
        }
    }
}

/// Once a prefix of the list fails, the whole list fails the same way.
pub proof fn lemma_error_persists(
    items: Seq<DisplayItem>,
    j: int,
    rect_live: Seq<bool>,
    text_live: Seq<bool>,
    glyphs: Seq<nat>,
)
    requires
        0 <= j <= items.len(),
        list_error(items.take(j), rect_live, text_live, glyphs) is Some,
    ensures
        list_error(items, rect_live, text_live, glyphs) == list_error(
            items.take(j),
            rect_live,
            text_live,
            glyphs,
        ),
    decreases items.len() - j,
{
    if j < items.len() {
        assert(items.drop_last().take(j) =~= items.take(j));
        lemma_error_persists(items.drop_last(), j, rect_live, text_live, glyphs);
    } else {
        assert(items.take(j) =~= items);
    }
}

/// A list that compiles without error yields an index sequence within
/// `MAX_INDICES` and text batches whose handles are live.
pub proof fn lemma_compiled_ok(
    items: Seq<DisplayItem>,
    rect_live: Seq<bool>,
    text_live: Seq<bool>,
    glyphs: Seq<nat>,
)
    requires
        list_error(items, rect_live, text_live, glyphs) is None,
    ensures
        list_indices(items, glyphs).len() <= MAX_INDICES,
        forall|j: int|
            0 <= j < list_batches(items).len() && (#[trigger] list_batches(items)[j]) is Text
                ==> list_batches(items)[j]->Text_0 < text_live.len(),
    decreases items.len(),
{
    if items.len() > 0 {
        let prefix = items.drop_last();
        lemma_compiled_ok(prefix, rect_live, text_live, glyphs);
        let bs = list_batches(prefix);
        let nb = list_batches(items);
        assert forall|j: int| 0 <= j < nb.len() && (#[trigger] nb[j]) is Text implies nb[j]->Text_0
            < text_live.len() by {
            if j < bs.len() - 1 || (j == bs.len() - 1 && !(items.last() is Rect)) {
                assert(nb[j] == bs[j]);
            }
        }
    }
}

/// Batches that name only text runs below `g1.len()` draw as many indices
/// under any glyph table that agrees with `g1` there.
pub proof fn lemma_total_extend(batches: Seq<Batch>, g1: Seq<nat>, g2: Seq<nat>)
    requires
        g1.len() <= g2.len(),
        forall|i: int| 0 <= i < g1.len() ==> g1[i] == g2[i],
        forall|j: int|
            0 <= j < batches.len() && (#[trigger] batches[j]) is Text ==> batches[j]->Text_0
                < g1.len(),
    ensures
        total_index_count(batches, g1) == total_index_count(batches, g2),
    decreases batches.len(),
{
    if batches.len() > 0 {
        let prefix = batches.drop_last();
        assert forall|j: int| 0 <= j < prefix.len() && (#[trigger] prefix[j]) is Text implies prefix[j]->Text_0
            < g1.len() by {
            assert(prefix[j] == batches[j]);
        }
        lemma_total_extend(prefix, g1, g2);
        assert(batches.last() == batches[batches.len() - 1]);
    }
}

/// Every item of `items` is a rectangle.
pub open spec fn all_rects(items: Seq<DisplayItem>) -> bool {
    forall|i: int| 0 <= i < items.len() ==> (#[trigger] items[i]) is Rect
}

/// In a list of rectangle items, item `j` naming rectangle `k` contributes
/// exactly the indices `4k+1, 4k, 4k+3, 4k, 4k+2, 4k+3`, at positions
/// `6j .. 6j + 5` of the compiled index sequence.
pub proof fn lemma_rect_indices(items: Seq<DisplayItem>, glyphs: Seq<nat>)
    requires
        all_rects(items),
        forall|i: int| 0 <= i < items.len() ==> (#[trigger] items[i])->Rect_0 <= MAX_QUAD,
    ensures
        list_indices(items, glyphs).len() == 6 * items.len(),
        forall|j: int|
            #![trigger items[j]]
            0 <= j < items.len() ==> {
                let k = items[j]->Rect_0 as int;
                let ix = list_indices(items, glyphs);
                &&& ix[6 * j] == 4 * k + 1
                &&& ix[6 * j + 1] == 4 * k
                &&& ix[6 * j + 2] == 4 * k + 3
                &&& ix[6 * j + 3] == 4 * k
                &&& ix[6 * j + 4] == 4 * k + 2
                &&& ix[6 * j + 5] == 4 * k + 3
            },
    decreases items.len(),
{
    if items.len() > 0 {
        let prefix = items.drop_last();
        assert forall|i: int| 0 <= i < prefix.len() implies (#[trigger] prefix[i]) is Rect
            && prefix[i]->Rect_0 <= MAX_QUAD by {
            assert(prefix[i] == items[i]);
        }
        lemma_rect_indices(prefix, glyphs);
        let ix = list_indices(items, glyphs);
        let px = list_indices(prefix, glyphs);
        let last = items.len() - 1;
        assert(items[last] is Rect);
        assert forall|j: int| #![trigger items[j]] 0 <= j < items.len() implies {
            let k = items[j]->Rect_0 as int;
            &&& ix[6 * j] == 4 * k + 1
            &&& ix[6 * j + 1] == 4 * k
            &&& ix[6 * j + 2] == 4 * k + 3
            &&& ix[6 * j + 3] == 4 * k
            &&& ix[6 * j + 4] == 4 * k + 2
            &&& ix[6 * j + 5] == 4 * k + 3
        } by {
            if j < last {
                assert(prefix[j] == items[j]);
            }
        }
    }
}

/// A run of rectangle items that follows a text batch (or nothing) compiles to
/// one rectangle batch counting the whole run.
pub proof fn lemma_rect_run(prefix: Seq<DisplayItem>, run: Seq<DisplayItem>)
    requires
        all_rects(run),
        run.len() > 0,
        prefix.len() + run.len() <= usize::MAX,
        list_batches(prefix).len() == 0 || list_batches(prefix).last() is Text,
    ensures
        list_batches(prefix + run) == list_batches(prefix).push(Batch::Rects(run.len() as usize)),
    decreases run.len(),
{
    let bs = list_batches(prefix);
    let whole = prefix + run;
    assert(whole.drop_last() =~= prefix + run.drop_last());
    assert(whole.last() == run[run.len() - 1]);
    if run.len() == 1 {
        assert(prefix + run.drop_last() =~= prefix);
    } else {
        let shorter = run.drop_last();
        assert forall|i: int| 0 <= i < shorter.len() implies (#[trigger] shorter[i]) is Rect by {
            assert(shorter[i] == run[i]);
        }
        lemma_rect_run(prefix, shorter);
        let mid = bs.push(Batch::Rects(shorter.len() as usize));
        assert(mid.drop_last() =~= bs);
    }
}

/// A list of `n > 0` rectangle items compiles to the single batch `Rects(n)`.
pub proof fn lemma_rects_coalesce(items: Seq<DisplayItem>)
    requires
        all_rects(items),
        0 < items.len() <= usize::MAX,
    ensures
        list_batches(items) == seq![Batch::Rects(items.len() as usize)],
{
    lemma_rect_run(Seq::empty(), items);
    assert(Seq::<DisplayItem>::empty() + items =~= items);
    assert(Seq::<Batch>::empty().push(Batch::Rects(items.len() as usize)) =~= seq![
        Batch::Rects(items.len() as usize),
    ]);
}

/// A text item between two runs of rectangle items splits them: the list
/// compiles to `Rects(a), Text(h), Rects(b)`, in list order.
pub proof fn lemma_text_splits_rects(xs: Seq<DisplayItem>, h: TextId, ys: Seq<DisplayItem>)
    requires
        all_rects(xs),
        all_rects(ys),
        xs.len() > 0,
        ys.len() > 0,
        xs.len() + 1 + ys.len() <= usize::MAX,
    ensures
        list_batches(xs + seq![DisplayItem::Text(h)] + ys) == seq![
            Batch::Rects(xs.len() as usize),
            Batch::Text(h),
            Batch::Rects(ys.len() as usize),
        ],
{
    lemma_rects_coalesce(xs);
    let head = xs + seq![DisplayItem::Text(h)];
    assert(head.drop_last() =~= xs);
    assert(head.last() == DisplayItem::Text(h));
    let hb = list_batches(head);
    assert(hb =~= seq![Batch::Rects(xs.len() as usize), Batch::Text(h)]);
    lemma_rect_run(head, ys);
    assert(hb.push(Batch::Rects(ys.len() as usize)) =~= seq![
        Batch::Rects(xs.len() as usize),
        Batch::Text(h),
        Batch::Rects(ys.len() as usize),
    ]);
}

fn push_quad_indices(indices: &mut Vec<u16>, k: usize)
    requires
        k <= MAX_QUAD,
    ensures
        final(indices)@ == old(indices)@ + quad_indices(k as int),
{
    let base: u16 = (4 * k) as u16;
    indices.push(base + 1);
    indices.push(base);
    indices.push(base + 3);
    indices.push(base);
    indices.push(base + 2);
    indices.push(base + 3);
    assert(final(indices)@ =~= old(indices)@ + quad_indices(k as int));
}

/// Compiles a display list against the live rectangle and text handles into
/// its batch list and its index sequence, or the error of the first item that
/// cannot be drawn.
pub fn compile(items: &[DisplayItem], rects: &GeometryBuffer, texts: &LeakyVec<Text>) -> (r: Result<
    (Vec<Batch>, Vec<u16>),
    RenderError,
>)
    requires
        rects.wf(),
        texts.wf(),
        forall|i: int| 0 <= i < texts.spec_len() ==> (#[trigger] texts.slots()[i]).wf(),
    ensures
        ({
            let glyphs = glyph_counts(texts.slots());
            match list_error(items@, rects.live(), texts.live(), glyphs) {
                Some(e) => r == Err::<(Vec<Batch>, Vec<u16>), RenderError>(e),
                None => r matches Ok((b, ix)) && b@ == list_batches(items@) && ix@ == list_indices(
                    items@,
                    glyphs,
                ),
            }
        }),
{
    let ghost glyphs = glyph_counts(texts.slots());
    let ghost rl = rects.live();
    let ghost tl = texts.live();
    let mut batches: Vec<Batch> = Vec::new();
    let mut indices: Vec<u16> = Vec::new();
    let mut i: usize = 0;
    proof {
        assert(items@.take(0) =~= Seq::<DisplayItem>::empty());
    }
    while i < items.len()
        invariant
            i <= items@.len(),
            rects.wf(),
            texts.wf(),
            forall|j: int| 0 <= j < texts.spec_len() ==> (#[trigger] texts.slots()[j]).wf(),
            glyphs == glyph_counts(texts.slots()),
            rl == rects.live(),
            tl == texts.live(),
            list_error(items@.take(i as int), rl, tl, glyphs) is None,
            batches@ == list_batches(items@.take(i as int)),
            indices@ == list_indices(items@.take(i as int), glyphs),
            indices@.len() <= MAX_INDICES,
        decreases items@.len() - i,
    {
        let ghost prefix = items@.take(i as int);
        let ghost next = items@.take(i + 1);
        proof {
            assert(next.drop_last() =~= prefix);
            assert(next.last() == items@[i as int]);
            lemma_total_index_count(prefix, glyphs);
            rects.lemma_wf();
            texts.lemma_wf();
        }
        match items[i] {
            DisplayItem::Rect(k) => {
                if !rects.contains(k) {
                    proof {
                        lemma_error_persists(items@, i + 1, rl, tl, glyphs);
                    }
                    return Err(RenderError::HandleOutOfRange);
                }
                if k > MAX_QUAD {
                    proof {
                        lemma_error_persists(items@, i + 1, rl, tl, glyphs);
                    }
                    return Err(RenderError::BatchTooLarge);
                }
                push_quad_indices(&mut indices, k);
                let n = batches.len();
                if n > 0 {
                    match batches[n - 1] {
                        Batch::Rects(c) => {
                            assert(6 * c <= total_index_count(batches@, glyphs));
                            batches.set(n - 1, Batch::Rects(c + 1));
                            proof {
                                assert(batches@ =~= push_batch(list_batches(prefix), items@[i as int]));
                            }
                        },
                        Batch::Text(_) => {
                            batches.push(Batch::Rects(1));
                        },
                    }
                } else {
                    batches.push(Batch::Rects(1));
                }
            },
            DisplayItem::Text(h) => {
                if !texts.contains(h) {
                    proof {
                        lemma_error_persists(items@, i + 1, rl, tl, glyphs);
                    }
                    return Err(RenderError::HandleOutOfRange);
                }
                let count = match texts.get(h) {
                    Ok(t) => t.glyph_count(),
                    Err(e) => return Err(e),
                };
                assert(count == glyphs[h as int]);
                if count > MAX_GLYPHS {
                    proof {
                        lemma_error_persists(items@, i + 1, rl, tl, glyphs);
                    }
                    return Err(RenderError::BatchTooLarge);
                }
                let ghost start = indices@;
                let mut g: usize = 0;
                while g < count
                    invariant
                        g <= count <= MAX_GLYPHS,
                        indices@ == start + glyph_indices(g as nat),
                    decreases count - g,
                {
                    push_quad_indices(&mut indices, g);
                    proof {
                        assert(indices@ =~= start + glyph_indices((g + 1) as nat));
                    }
                    g = g + 1;
                }
                batches.push(Batch::Text(h));
            },
            DisplayItem::Image(_) => {
                proof {
                    lemma_error_persists(items@, i + 1, rl, tl, glyphs);
                }
                return Err(RenderError::Unsupported);
            },
        }
        if indices.len() > MAX_INDICES {
            proof {
                lemma_error_persists(items@, i + 1, rl, tl, glyphs);
            }
            return Err(RenderError::BatchTooLarge);
        }
        i = i + 1;
    }
    proof {
        assert(items@.take(items@.len() as int) =~= items@);
    }
    Ok((batches, indices))
}

} // verus!
