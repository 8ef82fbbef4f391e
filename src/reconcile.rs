use vstd::prelude::*;
use crate::frame::{rgba_len, Frame};

verus! {

/// Pixels that nearest-neighbour resampling of a `width` x `height` RGBA buffer
/// to exactly `nwidth` x `nheight` gives.
pub uninterp spec fn nearest_exact(
    pixels: Seq<u8>,
    width: u32,
    height: u32,
    nwidth: u32,
    nheight: u32,
) -> Seq<u8>;

/// Size and pixels that an aspect-preserving nearest-neighbour resize of a
/// `width` x `height` RGBA buffer into a `nwidth` x `nheight` box gives.
pub uninterp spec fn nearest_fit(
    pixels: Seq<u8>,
    width: u32,
    height: u32,
    nwidth: u32,
    nheight: u32,
) -> (u32, u32, Seq<u8>);

/// Relies on `image::imageops::resize` with `FilterType::Nearest`: the result
/// has exactly the requested size, four bytes per pixel, and pixels that
/// depend on the source buffer and the two sizes alone.
#[verifier::external_body]
fn resize_exact_nearest(f: &Frame, nwidth: u32, nheight: u32) -> (r: Frame)
    requires
        f.wf(),
        1 <= nwidth,
        1 <= nheight,
    ensures
        r.width == nwidth,
        r.height == nheight,
        r.pixels@ == nearest_exact(f.pixels@, f.width, f.height, nwidth, nheight),
        r.pixels@.len() == rgba_len(nwidth as nat, nheight as nat),
{
    let src = image::RgbaImage::from_raw(f.width, f.height, f.pixels.clone()).unwrap();
    let out = image::imageops::resize(&src, nwidth, nheight, image::imageops::FilterType::Nearest);
    Frame { width: out.width(), height: out.height(), pixels: out.into_raw() }
}

/// Relies on `image::DynamicImage::resize` with `FilterType::Nearest`: the
/// size is the source's scaled by the smaller of the two ratios, rounded and
/// at least 1, so it never exceeds the box; the result depends on the source
/// buffer and the two sizes alone.
#[verifier::external_body]
fn resize_fit_nearest(f: &Frame, nwidth: u32, nheight: u32) -> (r: Frame)
    requires
        f.wf(),
        1 <= nwidth,
        1 <= nheight,
    ensures
        (r.width, r.height, r.pixels@) == nearest_fit(
            f.pixels@,
            f.width,
            f.height,
            nwidth,
            nheight,
        ),
        1 <= r.width <= nwidth,
        1 <= r.height <= nheight,
        r.pixels@.len() == rgba_len(r.width as nat, r.height as nat),
{
    let src = image::RgbaImage::from_raw(f.width, f.height, f.pixels.clone()).unwrap();
    let out = image::DynamicImage::ImageRgba8(src).resize(
        nwidth,
        nheight,
        image::imageops::FilterType::Nearest,
    ).into_rgba8();
    Frame { width: out.width(), height: out.height(), pixels: out.into_raw() }
}

/// Size and pixels of `f` once brought to `width` x `height`: unchanged when
/// it already has that size, else resampled by the chosen policy.
pub open spec fn resized_view(f: Frame, width: u32, height: u32, exact: bool) -> (
    u32,
    u32,
    Seq<u8>,
) {
    if f.has_size(width, height) {
        (f.width, f.height, f.pixels@)
    } else if exact {
        (width, height, nearest_exact(f.pixels@, f.width, f.height, width, height))
    } else {
        nearest_fit(f.pixels@, f.width, f.height, width, height)
    }
}

pub open spec fn view_of(f: Frame) -> (u32, u32, Seq<u8>) {
    (f.width, f.height, f.pixels@)
}

/// Brings one frame to the target size. A frame that already has it is
/// returned untouched; otherwise a resampled copy replaces it.
pub fn resize_frame(f: Frame, width: u32, height: u32, exact: bool) -> (r: Frame)
    requires
        f.wf(),
        1 <= width,
        1 <= height,
    ensures
        r.wf(),
        view_of(r) == resized_view(f, width, height, exact),
        f.has_size(width, height) ==> r == f,
        r.width <= width && r.height <= height,
        exact ==> r.has_size(width, height),
{
    if f.width == width && f.height == height {
        f
    } else if exact {
        resize_exact_nearest(&f, width, height)
    } else {
        resize_fit_nearest(&f, width, height)
    }
}

/// Every frame has size `width` x `height`.
pub open spec fn all_sized(frames: Seq<Frame>, width: u32, height: u32) -> bool {
    forall|i: int| 0 <= i < frames.len() ==> #[trigger] frames[i].has_size(width, height)
}

/// Every frame, brought to `width` x `height` by the chosen policy, ends at
/// exactly that size.
pub open spec fn all_fit(frames: Seq<Frame>, width: u32, height: u32, exact: bool) -> bool {
    forall|i: int|
        0 <= i < frames.len() ==> {
            let v = #[trigger] resized_view(frames[i], width, height, exact);
            v.0 == width && v.1 == height
        }
}

/// Whether every frame has size `width` x `height`.
pub fn frames_sized(frames: &Vec<Frame>, width: u32, height: u32) -> (r: bool)
    ensures
        r == all_sized(frames@, width, height),
{
    let mut i: usize = 0;
    while i < frames.len()
        invariant
            i <= frames.len(),
            all_sized(frames@.take(i as int), width, height),
        decreases frames.len() - i,
    {
        if frames[i].width != width || frames[i].height != height {
            assert(!frames@[i as int].has_size(width, height));
            return false;
        }
        assert(frames@.take(i as int + 1)[i as int] == frames@[i as int]);
        i += 1;
    }
    assert(frames@.take(i as int) =~= frames@);
    true
}

} // verus!
