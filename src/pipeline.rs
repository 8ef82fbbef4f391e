use vstd::prelude::*;
use crate::compose::{lemma_stacked_bands, pixel_seqs, stack_frames, stacked};
use crate::frame::{rgba_len, Frame};
use crate::meta::{animation_json, descriptor_text};
use crate::reconcile::{all_fit, all_sized, frames_sized, resize_frame, resized_view, view_of};

verus! {

/// Options that the command line hands to the pipeline.
#[derive(Debug)]
pub struct StackPngArgs {
    pub name: String,
    pub frame_time: u16,
    pub disable_mcmeta: bool,
    pub resize: bool,
    pub ignore_aspect_ratio: bool,
    pub files: Vec<String>,
}

/// Why a sequence could not be stacked.
#[derive(Debug, PartialEq, Eq)]
pub enum StackError {
    /// There was no frame at all.
    EmptySequence,
    /// Frames differ in size from the first one and resizing was not allowed.
    DimensionMismatch { width: u32, height: u32 },
    /// Aspect-preserving resizing left some frame short of the first one's size.
    AspectRatioMismatch { width: u32, height: u32 },
}

/// The stacked output and the size of each of its frames.
#[derive(Debug)]
pub struct ImageResult {
    pub image: Frame,
    pub width: u32,
    pub height: u32,
}

/// Brings every frame to the size of the first one.
///
/// Succeeds when all frames already have that size (nothing changes), or when
/// resizing is allowed and every mismatched frame ends at that size; frame `i`
/// of the result is then frame `i` brought to that size.
pub fn reconcile_frames(frames: Vec<Frame>, resize: bool, ignore_aspect_ratio: bool) -> (r: Result<
    Vec<Frame>,
    StackError,
>)
    requires
        frames.len() >= 1,
        forall|i: int| 0 <= i < frames.len() ==> #[trigger] frames[i].wf(),
    ensures
        ({
            let w = frames[0].width;
            let h = frames[0].height;
            &&& r is Ok <==> (all_sized(frames@, w, h) || (resize && all_fit(
                frames@,
                w,
                h,
                ignore_aspect_ratio,
            )))
            &&& all_sized(frames@, w, h) ==> r == Ok::<Vec<Frame>, StackError>(frames)
            &&& r matches Ok(out) ==> {
                &&& out.len() == frames.len()
                &&& forall|i: int|
                    0 <= i < out.len() ==> {
                        &&& (#[trigger] out[i]).wf()
                        &&& out[i].has_size(w, h)
                        &&& view_of(out[i]) == resized_view(frames[i], w, h, ignore_aspect_ratio)
                        &&& frames[i].has_size(w, h) ==> out[i] == frames[i]
                    }
            }
            &&& r matches Err(e) ==> e == if resize {
                StackError::AspectRatioMismatch { width: w, height: h }
            } else {
                StackError::DimensionMismatch { width: w, height: h }
            }
        }),
{
    let w = frames[0].width;
    let h = frames[0].height;
    if frames_sized(&frames, w, h) {
        return Ok(frames);
    }
    if !resize {
        return Err(StackError::DimensionMismatch { width: w, height: h });
    }
    let ghost orig = frames@;
    assert(orig[0].wf());
    let mut frames = frames;
    let mut i: usize = 0;
    while i < frames.len()
        invariant
            frames.len() == orig.len(),
            i <= frames.len(),
            w == orig[0].width,
            h == orig[0].height,
            1 <= w,
            1 <= h,
            forall|j: int| i <= j < frames.len() ==> #[trigger] frames[j] == orig[j],
            forall|j: int| 0 <= j < orig.len() ==> #[trigger] orig[j].wf(),
            forall|j: int|
                0 <= j < i ==> {
                    &&& (#[trigger] frames[j]).wf()
                    &&& view_of(frames[j]) == resized_view(orig[j], w, h, ignore_aspect_ratio)
                    &&& orig[j].has_size(w, h) ==> frames[j] == orig[j]
                },
        decreases frames.len() - i,
    {
        let mut taken = Frame { width: 0, height: 0, pixels: Vec::new() };
        frames.set_and_swap(i, &mut taken);
        let f = resize_frame(taken, w, h, ignore_aspect_ratio);
        frames.set(i, f);
        i += 1;
    }
    if frames_sized(&frames, w, h) {
        assert(all_fit(orig, w, h, ignore_aspect_ratio)) by {
            assert forall|j: int| 0 <= j < orig.len() implies {
                let v = #[trigger] resized_view(orig[j], w, h, ignore_aspect_ratio);
                v.0 == w && v.1 == h
            } by {
                assert(frames@[j].has_size(w, h));
            }
        }
        Ok(frames)
    } else {
        proof {
            let j = choose|j: int| 0 <= j < frames.len() && !(#[trigger] frames@[j].has_size(w, h));
            let v = resized_view(orig[j], w, h, ignore_aspect_ratio);
            assert(view_of(frames@[j]) == v);
            assert(!(v.0 == w && v.1 == h));
        }
        Err(StackError::AspectRatioMismatch { width: w, height: h })
    }
}

} // verus!

verus! {

/// Pixel buffers of the frames once each is brought to `width` x `height`.
pub open spec fn reconciled_pixels(frames: Seq<Frame>, width: u32, height: u32, exact: bool) -> Seq<
    Seq<u8>,
> {
    Seq::new(frames.len(), |i: int| resized_view(frames[i], width, height, exact).2)
}

/// Stacks the frames top to bottom, in order, after bringing each to the size
/// of the first one.
///
/// The output is as wide as the first frame and as tall as all frames
/// together; band `i` of it is frame `i` (resized where needed). Errors are
/// those of `reconcile_frames`, and `EmptySequence` for no frames.
pub fn process_images(args: &StackPngArgs, frames: Vec<Frame>) -> (r: Result<ImageResult, StackError>)
    requires
        forall|i: int| 0 <= i < frames.len() ==> #[trigger] frames[i].wf(),
        frames.len() >= 1 ==> frames.len() * frames[0].height <= u32::MAX,
    ensures
        frames.len() == 0 ==> r == Err::<ImageResult, StackError>(StackError::EmptySequence),
        frames.len() >= 1 ==> ({
            let w = frames[0].width;
            let h = frames[0].height;
            let n = frames.len();
            let exact = args.ignore_aspect_ratio;
            let bands = reconciled_pixels(frames@, w, h, exact);
            let band_len = rgba_len(w as nat, h as nat) as int;
            &&& r is Ok <==> (all_sized(frames@, w, h) || (args.resize && all_fit(
                frames@,
                w,
                h,
                exact,
            )))
            &&& r matches Err(e) ==> e == if args.resize {
                StackError::AspectRatioMismatch { width: w, height: h }
            } else {
                StackError::DimensionMismatch { width: w, height: h }
            }
            &&& r matches Ok(res) ==> {
                &&& res.width == w
                &&& res.height == h
                &&& res.image.wf()
                &&& res.image.width == w
                &&& res.image.height == h * n
                &&& res.image.pixels@ == stacked(bands)
                &&& forall|i: int|
                    0 <= i < n ==> res.image.pixels@.subrange(i * band_len, (i + 1) * band_len)
                        == #[trigger] bands[i]
                &&& all_sized(frames@, w, h) ==> forall|i: int|
                    0 <= i < n ==> #[trigger] bands[i] == frames[i].pixels@
            }
        }),
{
    if frames.len() == 0 {
        return Err(StackError::EmptySequence);
    }
    let n = frames.len();
    let w = frames[0].width;
    let h = frames[0].height;
    let ghost orig = frames@;
    assert(orig[0].wf());
    let out = match reconcile_frames(frames, args.resize, args.ignore_aspect_ratio) {
        Ok(out) => out,
        Err(e) => {
            return Err(e);
        },
    };
    let pixels = stack_frames(&out);
    assert(n <= u32::MAX && h * n <= u32::MAX) by (nonlinear_arith)
        requires
            n * h <= u32::MAX,
            1 <= h,
    ;
    let height: u32 = h * (n as u32);
    proof {
        let bands = reconciled_pixels(orig, w, h, args.ignore_aspect_ratio);
        let band_len = rgba_len(w as nat, h as nat);
        assert(pixel_seqs(out@) =~= bands) by {
            assert forall|i: int| 0 <= i < n implies pixel_seqs(out@)[i] == bands[i] by {
                assert(view_of(out@[i]).2 == out@[i].pixels@);
            }
        }
        assert forall|j: int| 0 <= j < bands.len() implies #[trigger] bands[j].len() == band_len by {
            assert(out@[j].wf());
            assert(pixel_seqs(out@)[j] == out@[j].pixels@);
        }
        lemma_stacked_bands(bands, band_len);
        assert(height == h * n);
        assert(pixels@.len() == rgba_len(w as nat, height as nat)) by (nonlinear_arith)
            requires
                pixels@.len() == n * band_len,
                band_len == 4 * w * h,
                height == h * n,
        ;
        assert(1 <= height) by (nonlinear_arith)
            requires
                height == h * n,
                1 <= h,
                1 <= n,
        ;
        if all_sized(orig, w, h) {
            assert forall|i: int| 0 <= i < n implies #[trigger] bands[i] == orig[i].pixels@ by {
                assert(orig[i].has_size(w, h));
            }
        }
    }
    let image = Frame { width: w, height, pixels };
    Ok(ImageResult { image, width: w, height: h })
}

/// The animation descriptor for a stacked image: frame time and frame size,
/// as compact JSON.
pub fn create_mc_meta(args: &StackPngArgs, image: &ImageResult) -> (r: String)
    ensures
        r@ == descriptor_text(args.frame_time as nat, image.width as nat, image.height as nat),
{
    animation_json(args.frame_time, image.width, image.height)
}

} // verus!
