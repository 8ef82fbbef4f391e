use vstd::prelude::*;
use crate::frame::Frame;

verus! {

/// The pixel buffers of a sequence of frames, in order.
pub open spec fn pixel_seqs(frames: Seq<Frame>) -> Seq<Seq<u8>> {
    frames.map_values(|f: Frame| f.pixels@)
}

/// Buffers laid one after another. For frames of one width, stored row by
/// row, this is the frames stacked top to bottom.
pub open spec fn stacked(bands: Seq<Seq<u8>>) -> Seq<u8>
    decreases bands.len(),
{
    if bands.len() == 0 {
        Seq::empty()
    } else {
        stacked(bands.drop_last()) + bands.last()
    }
}

/// Stacking bands of one length `len` gives `n * len` bytes, and band `i`
/// of the result is exactly the `i`-th input.
pub proof fn lemma_stacked_bands(bands: Seq<Seq<u8>>, len: nat)
    requires
        forall|j: int| 0 <= j < bands.len() ==> #[trigger] bands[j].len() == len,
    ensures
        stacked(bands).len() == bands.len() * len,
        forall|i: int|
            0 <= i < bands.len() ==> stacked(bands).subrange(i * len, (i + 1) * len)
                == #[trigger] bands[i],
    decreases bands.len(),
{
    if bands.len() > 0 {
        let p = bands.drop_last();
        let n = p.len();
        lemma_stacked_bands(p, len);
        let all = stacked(bands);
        assert(all == stacked(p) + bands.last());
        assert(all.len() == bands.len() * len) by (nonlinear_arith)
            requires
                all.len() == n * len + len,
                bands.len() == n + 1,
        ;
        assert forall|i: int| 0 <= i < bands.len() implies all.subrange(i * len, (i + 1) * len)
            == #[trigger] bands[i] by {
            assert(0 <= i * len) by (nonlinear_arith)
                requires
                    0 <= i,
            ;
            if i < n {
                assert(i * len <= (i + 1) * len <= n * len) by (nonlinear_arith)
                    requires
                        0 <= i,
                        i + 1 <= n,
                ;
                assert(p[i] == bands[i]);
                assert(all.subrange(i * len, (i + 1) * len) =~= stacked(p).subrange(
                    i * len,
                    (i + 1) * len,
                ));
            } else {
                assert((i + 1) * len == n * len + len) by (nonlinear_arith)
                    requires
                        i == n,
                ;
                assert(all.subrange(i * len, (i + 1) * len) =~= bands.last());
            }
        }
    }
}

/// Reordering the frames reorders the output bands the same way: when
/// `order[i]` names the input placed at position `i`, band `i` of the stacked
/// reordered frames equals band `order[i]` of the stacked original frames.
pub proof fn lemma_reorder_bands(frames: Seq<Frame>, order: Seq<int>, len: nat)
    requires
        forall|j: int| 0 <= j < frames.len() ==> #[trigger] frames[j].pixels@.len() == len,
        order.len() == frames.len(),
        forall|i: int| 0 <= i < order.len() ==> 0 <= #[trigger] order[i] < frames.len(),
    ensures
        ({
            let moved = Seq::new(order.len(), |i: int| frames[order[i]]);
            forall|i: int|
                0 <= i < order.len() ==> #[trigger] stacked(pixel_seqs(moved)).subrange(
                    i * len,
                    (i + 1) * len,
                ) == stacked(pixel_seqs(frames)).subrange(order[i] * len, (order[i] + 1) * len)
        }),
{
    let moved = Seq::new(order.len(), |i: int| frames[order[i]]);
    lemma_stacked_bands(pixel_seqs(frames), len);
    assert forall|j: int| 0 <= j < moved.len() implies #[trigger] pixel_seqs(moved)[j].len()
        == len by {
        assert(frames[order[j]].pixels@.len() == len);
    }
    lemma_stacked_bands(pixel_seqs(moved), len);
    assert forall|i: int| 0 <= i < order.len() implies #[trigger] stacked(
        pixel_seqs(moved),
    ).subrange(i * len, (i + 1) * len) == stacked(pixel_seqs(frames)).subrange(
        order[i] * len,
        (order[i] + 1) * len,
    ) by {
        assert(pixel_seqs(moved)[i] == pixel_seqs(frames)[order[i]]);
    }
}

/// Copies the frames' buffers, in order, into one new buffer.
pub fn stack_frames(frames: &Vec<Frame>) -> (r: Vec<u8>)
    ensures
        r@ == stacked(pixel_seqs(frames@)),
{
    let mut out: Vec<u8> = Vec::new();
    let mut i: usize = 0;
    while i < frames.len()
        invariant
            i <= frames.len(),
            out@ == stacked(pixel_seqs(frames@).take(i as int)),
        decreases frames.len() - i,
    {
        let px = &frames[i].pixels;
        let mut j: usize = 0;
        while j < px.len()
            invariant
                j <= px.len(),
                out@ == stacked(pixel_seqs(frames@).take(i as int)) + px@.take(j as int),
            decreases px.len() - j,
        {
            out.push(px[j]);
            assert(px@.take(j as int + 1) =~= px@.take(j as int).push(px@[j as int]));
            j += 1;
        }
        proof {
            let s = pixel_seqs(frames@);
            assert(s.take(i as int + 1).drop_last() =~= s.take(i as int));
            assert(px@.take(j as int) =~= px@);
        }
        i += 1;
    }
    assert(pixel_seqs(frames@).take(i as int) =~= pixel_seqs(frames@));
    out
}

} // verus!
