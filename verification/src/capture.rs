//! Screenshot bookkeeping: the captured image, the raster normalization
//! from the OS-provided BGRA order to packed RGBA, PNG encoding, the
//! choice of screen for a window capture, and how a capture's outcome is
//! published into the shared cell.
//!
//! The OS capture calls themselves live outside the library; they hand
//! in raw pixel bytes and dimensions.

use vstd::prelude::*;

use crate::cell::StateCell;

verus! {

/// Screen-space bounding box of one window.
#[derive(Clone, Copy, PartialEq, Eq, Structural, Debug)]
pub struct WindowBounds {
    pub x: i32,
    pub y: i32,
    pub width: i32,
    pub height: i32,
}

/// Position and size of one display in screen space.
#[derive(Clone, Copy, PartialEq, Eq, Structural, Debug)]
pub struct DisplayRegion {
    pub x: i32,
    pub y: i32,
    pub width: u32,
    pub height: u32,
}

/// The most recent screenshot: packed RGBA pixels.
pub struct CapturedImage {
    pub width: u32,
    pub height: u32,
    pub rgba: Vec<u8>,
}

impl CapturedImage {
    /// The pixel buffer holds exactly four bytes per pixel.
    pub open spec fn wf(self) -> bool {
        self.rgba@.len() == 4 * self.width * self.height
    }
}

#[derive(Clone, Copy, PartialEq, Eq, Structural, Debug)]
pub enum CaptureError {
    /// No image has been captured yet.
    NoImage,
    /// The raw pixel buffer does not cover the stated dimensions.
    BadBuffer,
    /// The PNG encoder refused the image.
    EncodeFailed,
}

/// Where byte `i` of the RGBA output comes from in the BGRA input: the
/// first and third channel of each four-byte pixel swap places.
pub open spec fn bgra_source_index(i: int) -> int {
    let p = i / 4;
    let c = i % 4;
    if c == 0 {
        4 * p + 2
    } else if c == 2 {
        4 * p
    } else {
        i
    }
}

/// Reorder a BGRA byte buffer into RGBA, pixel by pixel; a trailing
/// fragment of fewer than four bytes is dropped.
pub fn bgra_to_rgba(buffer: &[u8]) -> (r: Vec<u8>)
    ensures
        r@.len() == 4 * (buffer@.len() / 4),
        forall|i: int| 0 <= i < r@.len() ==> #[trigger] r@[i] == buffer@[bgra_source_index(i)],
{
    let pixels = buffer.len() / 4;
    let mut out: Vec<u8> = Vec::new();
    let mut p: usize = 0;
    while p < pixels
        invariant
            0 <= p <= pixels,
            pixels == buffer@.len() / 4,
            4 * pixels <= buffer@.len(),
            buffer@.len() <= usize::MAX,
            out@.len() == 4 * p,
            forall|i: int|
                0 <= i < out@.len() ==> #[trigger] out@[i] == buffer@[bgra_source_index(i)],
        decreases pixels - p,
    {
        out.push(buffer[4 * p + 2]);
        out.push(buffer[4 * p + 1]);
        out.push(buffer[4 * p]);
        out.push(buffer[4 * p + 3]);
        proof {
            assert((4 * p) % 4 == 0 && (4 * p) / 4 == p as int) by (nonlinear_arith);
            assert((4 * p + 1) % 4 == 1 && (4 * p + 1) / 4 == p as int) by (nonlinear_arith);
            assert((4 * p + 2) % 4 == 2 && (4 * p + 2) / 4 == p as int) by (nonlinear_arith);
            assert((4 * p + 3) % 4 == 3 && (4 * p + 3) / 4 == p as int) by (nonlinear_arith);
        }
        p = p + 1;
    }
    out
}

/// The PNG encoding of an RGBA raster: a function of the dimensions and
/// pixel bytes alone.
pub uninterp spec fn png_of(width: u32, height: u32, rgba: Seq<u8>) -> Seq<u8>;

/// Relies on image::RgbaImage::from_raw (which accepts a buffer that
/// covers the dimensions) and image::ImageBuffer::write_to with the PNG
/// format (which encodes the raster deterministically from its pixels).
/// Writing to an in-memory buffer, the encoder refuses only a zero
/// width or height; with both positive and an exact-size buffer it
/// succeeds.
#[verifier::external_body]
fn encode_png(width: u32, height: u32, rgba: &Vec<u8>) -> (r: Option<Vec<u8>>)
    requires
        rgba@.len() == 4 * width * height,
    ensures
        r matches Some(v) ==> v@ == png_of(width, height, rgba@),
        width > 0 && height > 0 ==> r is Some,
{
    let img = match image::RgbaImage::from_raw(width, height, rgba.clone()) {
        Some(i) => i,
        None => return None,
    };
    let mut buf: Vec<u8> = Vec::new();
    let mut cur = std::io::Cursor::new(&mut buf);
    match img.write_to(&mut cur, image::ImageFormat::Png) {
        Ok(()) => Some(buf),
        Err(_) => None,
    }
}

/// Holder of the most recent screenshot.
pub struct ScreenshotManager {
    pub current_image: Option<CapturedImage>,
}

impl ScreenshotManager {
    pub fn new() -> (r: Result<Self, CaptureError>)
        ensures
            r matches Ok(m) && m.current_image is None,
    {
        Ok(ScreenshotManager { current_image: None })
    }

    /// Normalize a captured BGRA frame and keep it as the current image.
    /// Fails, leaving the current image unchanged, when the buffer does
    /// not cover the stated dimensions.
    pub fn store_frame(&mut self, width: u32, height: u32, bgra: &[u8]) -> (r: Result<
        (),
        CaptureError,
    >)
        ensures
            match r {
                Ok(()) => {
                    &&& 4 * (bgra@.len() / 4) >= 4 * width * height
                    &&& final(self).current_image matches Some(img)
                    &&& img.width == width
                    &&& img.height == height
                    &&& img.wf()
                    &&& img.rgba@.len() == 4 * width * height
                    &&& forall|i: int|
                        0 <= i < img.rgba@.len() ==> #[trigger] img.rgba@[i]
                            == bgra@[bgra_source_index(i)]
                },
                Err(e) => {
                    &&& e == CaptureError::BadBuffer
                    &&& 4 * (bgra@.len() / 4) < 4 * width * height
                    &&& final(self).current_image == old(self).current_image
                },
            },
    {
        let mut rgba = bgra_to_rgba(bgra);
        proof {
            assert((width as u128) * (height as u128) * 4 < 0x100000000000000000u128)
                by (nonlinear_arith)
                requires
                    width <= 0xffff_ffffu32,
                    height <= 0xffff_ffffu32,
            ;
        }
        let need128: u128 = (width as u128) * (height as u128) * 4;
        proof {
            assert(4 * (width as int) * (height as int) == (width as int) * (height as int) * 4)
                by (nonlinear_arith);
        }
        if (rgba.len() as u128) < need128 {
            return Err(CaptureError::BadBuffer);
        }
        let need: usize = need128 as usize;
        let ghost full = rgba@;
        rgba.truncate(need);
        proof {
            assert(rgba@ == full.subrange(0, need as int));
            assert forall|i: int|
                0 <= i < rgba@.len() implies #[trigger] rgba@[i]
                == bgra@[bgra_source_index(i)] by {
                assert(rgba@[i] == full[i]);
            }
        }
        let img = CapturedImage { width, height, rgba };
        proof {
            assert(4 * (width as int) * (height as int) == (width as int) * (height as int) * 4)
                by (nonlinear_arith);
            assert(img.wf());
        }
        self.current_image = Some(img);
        Ok(())
    }

    /// Keep a frame that already arrives in packed RGBA order as the
    /// current image.  Fails, leaving the current image unchanged, when
    /// the buffer does not cover the stated dimensions.
    pub fn store_frame_rgba(&mut self, width: u32, height: u32, rgba: &[u8]) -> (r: Result<
        (),
        CaptureError,
    >)
        ensures
            match r {
                Ok(()) => {
                    &&& rgba@.len() >= 4 * width * height
                    &&& final(self).current_image matches Some(img)
                    &&& img.width == width
                    &&& img.height == height
                    &&& img.wf()
                    &&& img.rgba@ == rgba@.subrange(0, 4 * width * height)
                },
                Err(e) => {
                    &&& e == CaptureError::BadBuffer
                    &&& rgba@.len() < 4 * width * height
                    &&& final(self).current_image == old(self).current_image
                },
            },
    {
        proof {
            assert((width as u128) * (height as u128) * 4 < 0x100000000000000000u128)
                by (nonlinear_arith)
                requires
                    width <= 0xffff_ffffu32,
                    height <= 0xffff_ffffu32,
            ;
            assert(4 * (width as int) * (height as int) == (width as int) * (height as int) * 4)
                by (nonlinear_arith);
        }
        let need128: u128 = (width as u128) * (height as u128) * 4;
        if (rgba.len() as u128) < need128 {
            return Err(CaptureError::BadBuffer);
        }
        let need: usize = need128 as usize;
        let mut data: Vec<u8> = Vec::new();
        let mut i: usize = 0;
        while i < need
            invariant
                0 <= i <= need <= rgba@.len(),
                data@ == rgba@.subrange(0, i as int),
            decreases need - i,
        {
            data.push(rgba[i]);
            assert(rgba@.subrange(0, i + 1) =~= rgba@.subrange(0, i as int).push(
                rgba@[i as int],
            ));
            i = i + 1;
        }
        let img = CapturedImage { width, height, rgba: data };
        proof {
            assert(img.wf());
        }
        self.current_image = Some(img);
        Ok(())
    }

    /// The current image, if one has been captured.
    pub fn get_current_image(&self) -> (r: Option<&CapturedImage>)
        ensures
            match r {
                Some(img) => self.current_image == Some(*img),
                None => self.current_image is None,
            },
    {
        self.current_image.as_ref()
    }

    /// The current image encoded as PNG bytes: the canonical encoding
    /// of exactly the held pixels.  With no image captured yet this is
    /// the no-image error; an image with positive dimensions always
    /// encodes.
    pub fn get_current_image_data(&self) -> (r: Result<Vec<u8>, CaptureError>)
        requires
            self.current_image matches Some(img) ==> img.wf(),
        ensures
            match r {
                Ok(v) => self.current_image matches Some(img) && v@ == png_of(
                    img.width,
                    img.height,
                    img.rgba@,
                ),
                Err(CaptureError::NoImage) => self.current_image is None,
                Err(_) => true,
            },
            self.current_image is None ==> r == Result::<Vec<u8>, CaptureError>::Err(
                CaptureError::NoImage,
            ),
            (self.current_image matches Some(img) && img.width > 0 && img.height > 0) ==> r
                is Ok,
    {
        match &self.current_image {
            Some(img) => {
                match encode_png(img.width, img.height, &img.rgba) {
                    Some(v) => Ok(v),
                    None => Err(CaptureError::EncodeFailed),
                }
            },
            None => Err(CaptureError::NoImage),
        }
    }
}

/// The display fully contains the window's bounding box.
pub open spec fn spec_display_holds(d: DisplayRegion, b: WindowBounds) -> bool {
    &&& b.x >= d.x
    &&& b.y >= d.y
    &&& b.x + b.width <= d.x + d.width
    &&& b.y + b.height <= d.y + d.height
}

/// The screen a window capture reads from: the first display that fully
/// contains the window's bounds, or the first display when none does.
pub fn select_screen(b: &WindowBounds, displays: &Vec<DisplayRegion>) -> (r: usize)
    requires
        displays@.len() > 0,
    ensures
        r < displays@.len(),
        (exists|i: int|
            0 <= i < displays@.len() && spec_display_holds(displays@[i], *b)) ==> {
            &&& spec_display_holds(displays@[r as int], *b)
            &&& forall|j: int| 0 <= j < r ==> !spec_display_holds(displays@[j], *b)
        },
        (forall|i: int|
            0 <= i < displays@.len() ==> !spec_display_holds(displays@[i], *b)) ==> r == 0,
{
    let n = displays.len();
    let mut k: usize = 0;
    while k < n
        invariant
            0 <= k <= n,
            n == displays@.len(),
            forall|j: int| 0 <= j < k ==> !spec_display_holds(displays@[j], *b),
        decreases n - k,
    {
        let d = &displays[k];
        let holds = b.x as i64 >= d.x as i64 && b.y as i64 >= d.y as i64 && (b.x as i64 + b.width
            as i64) <= (d.x as i64 + d.width as i64) && (b.y as i64 + b.height as i64) <= (d.y
            as i64 + d.height as i64);
        if holds {
            return k;
        }
        k = k + 1;
    }
    0
}

/// Where the capture region starts relative to its screen: the window
/// origin in the screen's coordinates, clamped at the screen's edge.
pub fn capture_origin(b: &WindowBounds, d: &DisplayRegion) -> (r: (i32, i32))
    requires
        -0x3fff_ffff <= b.x <= 0x3fff_ffff,
        -0x3fff_ffff <= b.y <= 0x3fff_ffff,
        -0x3fff_ffff <= d.x <= 0x3fff_ffff,
        -0x3fff_ffff <= d.y <= 0x3fff_ffff,
    ensures
        r.0 == if b.x - d.x >= 0 {
            b.x - d.x
        } else {
            0
        },
        r.1 == if b.y - d.y >= 0 {
            b.y - d.y
        } else {
            0
        },
{
    let cx = b.x - d.x;
    let cy = b.y - d.y;
    ((if cx >= 0 {
        cx
    } else {
        0
    }), (if cy >= 0 {
        cy
    } else {
        0
    }))
}

/// Publish a full-screen capture's outcome: the cell takes the image
/// bytes when the capture produced some, and is left untouched when it
/// did not.
pub fn settle_full_capture(cell: &mut StateCell, data: Option<Vec<u8>>) -> (wrote: bool)
    ensures
        match data {
            Some(v) => {
                &&& wrote
                &&& final(cell).image_data@ == v@
                &&& !final(cell).texture_loaded
            },
            None => !wrote && *final(cell) == *old(cell),
        },
        final(cell).processing == old(cell).processing,
        final(cell).ai_response == old(cell).ai_response,
{
    match data {
        Some(v) => {
            cell.publish_capture(v);
            true
        },
        None => false,
    }
}

/// Publish a window capture's outcome.  `primary` is what the window
/// capture produced; `fallback` is what the full-screen fallback
/// produced when the window capture failed.  The window's image wins;
/// with no window image the cell still ends up holding the full-screen
/// image; only when both attempts failed is the cell left untouched.
pub fn settle_window_capture(cell: &mut StateCell, primary: Option<Vec<u8>>, fallback: Option<
    Vec<u8>,
>) -> (wrote: bool)
    ensures
        wrote == (primary is Some || fallback is Some),
        primary matches Some(v) ==> final(cell).image_data@ == v@
            && !final(cell).texture_loaded,
        primary is None ==> (fallback matches Some(v) ==> final(cell).image_data@ == v@
            && !final(cell).texture_loaded),
        primary is None && fallback is None ==> *final(cell) == *old(cell),
        final(cell).processing == old(cell).processing,
        final(cell).ai_response == old(cell).ai_response,
{
    match primary {
        Some(v) => {
            cell.publish_capture(v);
            true
        },
        None => {
            match fallback {
                Some(v) => {
                    cell.publish_capture(v);
                    true
                },
                None => false,
            }
        },
    }
}

} // verus!
