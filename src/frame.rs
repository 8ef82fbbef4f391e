use vstd::prelude::*;

verus! {

/// A decoded raster: `width` x `height` pixels, RGBA with 8 bits per channel,
/// stored row by row.
#[derive(Debug)]
pub struct Frame {
    pub width: u32,
    pub height: u32,
    pub pixels: Vec<u8>,
}

/// Number of bytes of an RGBA buffer of the given size.
pub open spec fn rgba_len(width: nat, height: nat) -> nat {
    4 * width * height
}

impl Frame {
    /// A frame is non-empty and its buffer holds exactly four bytes per pixel.
    pub open spec fn wf(&self) -> bool {
        &&& 1 <= self.width
        &&& 1 <= self.height
        &&& self.pixels@.len() == rgba_len(self.width as nat, self.height as nat)
    }

    pub open spec fn has_size(&self, width: u32, height: u32) -> bool {
        self.width == width && self.height == height
    }

    /// Builds a frame, or `None` when a dimension is zero or the buffer
    /// does not hold four bytes per pixel.
    pub fn new(width: u32, height: u32, pixels: Vec<u8>) -> (r: Option<Frame>)
        ensures
            r.is_some() <==> (1 <= width && 1 <= height && pixels@.len() == rgba_len(
                width as nat,
                height as nat,
            )),
            r matches Some(f) ==> f.width == width && f.height == height && f.pixels@ == pixels@,
    {
        if width == 0 || height == 0 {
            return None;
        }
        let w = width as u64;
        let h = height as u64;
        assert(w * h <= 0xffff_ffff_ffff_ffff) by (nonlinear_arith)
            requires
                w <= 0xffff_ffff,
                h <= 0xffff_ffff,
        ;
        let wh: u64 = w * h;
        assert(wh == (width as nat) * (height as nat)) by (nonlinear_arith)
            requires
                wh == w * h,
                w == width,
                h == height,
        ;
        let len = pixels.len() as u64;
        if wh <= 0x3fff_ffff_ffff_ffff && len == 4 * wh && pixels.len() == len as usize {
            assert(rgba_len(width as nat, height as nat) == 4 * wh) by (nonlinear_arith)
                requires
                    wh == (width as nat) * (height as nat),
            ;
            Some(Frame { width, height, pixels })
        } else {
            assert(pixels@.len() != rgba_len(width as nat, height as nat)) by (nonlinear_arith)
                requires
                    wh == (width as nat) * (height as nat),
                    !(wh <= 0x3fff_ffff_ffff_ffff && len == 4 * wh),
                    len == pixels@.len(),
            ;
            None
        }
    }
}

} // verus!
