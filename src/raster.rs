use vstd::prelude::*;
use crate::color::{expand, expand_spec, ColorConfig};

verus! {

/// Smallest device coordinate on either axis.
pub const DEVICE_MIN: i32 = -32768;

/// Largest device coordinate on either axis.
pub const DEVICE_MAX: i32 = 32767;

/// A captured image: `width * height` RGB triples, row by row from the top.
#[derive(Debug)]
pub struct RasterFrame {
    pub width: u32,
    pub height: u32,
    pub pixels: Vec<u8>,
}

impl RasterFrame {
    pub open spec fn wf(&self) -> bool {
        &&& self.width > 0
        &&& self.height > 0
        &&& self.pixels@.len() == 3 * self.width * self.height
    }

    /// The channel `k` of the pixel at column `px`, row `py`.
    pub open spec fn channel(&self, px: int, py: int, k: int) -> u8 {
        self.pixels@[3 * (py * self.width + px) + k]
    }

    /// Builds a frame; `None` when a side is zero or the buffer does not
    /// hold exactly three bytes per pixel.
    pub fn new(width: u32, height: u32, pixels: Vec<u8>) -> (r: Option<RasterFrame>)
        ensures
            r.is_some() <==> (width > 0 && height > 0 && pixels@.len() == 3 * width * height),
            r matches Some(f) ==> f.wf() && f.width == width && f.height == height
                && f.pixels@ == pixels@,
    {
        let frame = RasterFrame { width, height, pixels };
        if frame.is_usable() {
            Some(frame)
        } else {
            None
        }
    }

    /// Whether the frame is well formed and can be sampled.
    pub fn is_usable(&self) -> (r: bool)
        ensures
            r == self.wf(),
    {
        let w = self.width;
        let h = self.height;
        if w == 0 || h == 0 {
            return false;
        }
        assert(w * h < 0x1_0000_0000 * 0x1_0000_0000) by (nonlinear_arith)
            requires
                w < 0x1_0000_0000,
                h < 0x1_0000_0000,
        ;
        let n: u128 = 3 * ((w as u128) * (h as u128));
        assert(n == 3 * w * h) by (nonlinear_arith)
            requires
                n == 3 * (w * h),
        ;
        self.pixels.len() as u128 == n
    }

    /// The RGB triple at column `px`, row `py`.
    pub fn get_pixel(&self, px: u32, py: u32) -> (r: (u8, u8, u8))
        requires
            self.wf(),
            px < self.width,
            py < self.height,
        ensures
            r == (self.channel(px as int, py as int, 0), self.channel(px as int, py as int, 1),
                self.channel(px as int, py as int, 2)),
    {
        proof {
            let w = self.width as int;
            let h = self.height as int;
            assert(0 <= py * w && py * w + px < w * h) by (nonlinear_arith)
                requires
                    0 <= px < w,
                    0 <= py < h,
            ;
            assert(3 * w * h == 3 * (w * h)) by (nonlinear_arith);
            assert(3 * (py * w + px) + 2 < self.pixels@.len());
        }
        let len = self.pixels.len();
        assert(3 * (py * self.width + px) + 2 < len);
        let i: usize = 3 * ((py as usize) * (self.width as usize) + (px as usize));
        (self.pixels[i], self.pixels[i + 1], self.pixels[i + 2])
    }
}

/// The pixel index that device coordinate `d` falls on along an axis of
/// `extent` pixels: the proportional position, truncated and clamped.
pub open spec fn pixel_index(d: int, extent: int) -> int {
    let p = (d - DEVICE_MIN) * extent / (DEVICE_MAX - DEVICE_MIN);
    if p < 0 {
        0
    } else if p > extent - 1 {
        extent - 1
    } else {
        p
    }
}

/// Coordinates clamp at the edges: the largest device coordinate falls on
/// the last pixel, the smallest on the first, and every coordinate in
/// between on a pixel of the raster.
pub proof fn lemma_edges_clamp(d: int, extent: int)
    requires
        extent > 0,
        DEVICE_MIN <= d <= DEVICE_MAX + 1,
    ensures
        pixel_index(DEVICE_MAX as int, extent) == extent - 1,
        pixel_index(DEVICE_MIN as int, extent) == 0,
        0 <= pixel_index(d, extent) < extent,
{
    assert((DEVICE_MAX - DEVICE_MIN) * extent / (DEVICE_MAX - DEVICE_MIN) == extent) by (
    nonlinear_arith)
        requires
            extent > 0,
    ;
    assert((DEVICE_MIN - DEVICE_MIN) * extent == 0);
}

/// Maps a device coordinate (already oriented) onto `extent` pixels.
pub fn map_point(d: i32, extent: u32) -> (r: u32)
    requires
        DEVICE_MIN <= d <= DEVICE_MAX + 1,
        extent > 0,
    ensures
        r as int == pixel_index(d as int, extent as int),
        r < extent,
{
    let off: u64 = (d - DEVICE_MIN) as u64;
    assert(off * extent <= 65536 * 0x1_0000_0000) by (nonlinear_arith)
        requires
            off <= 65536,
            extent < 0x1_0000_0000,
    ;
    let num: u64 = off * extent as u64;
    let p: u64 = num / ((DEVICE_MAX - DEVICE_MIN) as u64);
    if p > (extent - 1) as u64 {
        extent - 1
    } else {
        p as u32
    }
}

/// The raster column under device x.
pub fn webcam_x(x: i16, width: u32) -> (r: u32)
    requires
        width > 0,
    ensures
        r as int == pixel_index(x as int, width as int),
        r < width,
{
    map_point(x as i32, width)
}

/// The raster row under device y: the device's y axis points up, the
/// raster's rows go down.
pub fn webcam_y(y: i16, height: u32) -> (r: u32)
    requires
        height > 0,
    ensures
        r as int == pixel_index(-(y as int), height as int),
        r < height,
{
    map_point(-(y as i32), height)
}

/// The color at device position `(x, y)` of the raster, widened by `cfg`.
pub open spec fn sample_spec(frame: &RasterFrame, cfg: ColorConfig, x: i16, y: i16) -> (
    u16,
    u16,
    u16,
) {
    let px = pixel_index(x as int, frame.width as int);
    let py = pixel_index(-(y as int), frame.height as int);
    (
        expand_spec(cfg, frame.channel(px, py, 0)),
        expand_spec(cfg, frame.channel(px, py, 1)),
        expand_spec(cfg, frame.channel(px, py, 2)),
    )
}

/// Samples the raster under device position `(x, y)`.
pub fn laser_color_from_webcam(frame: &RasterFrame, cfg: ColorConfig, x: i16, y: i16) -> (r: (
    u16,
    u16,
    u16,
))
    requires
        frame.wf(),
    ensures
        r == sample_spec(frame, cfg, x, y),
{
    let wx = webcam_x(x, frame.width);
    let wy = webcam_y(y, frame.height);
    let (pr, pg, pb) = frame.get_pixel(wx, wy);
    (expand(cfg, pr), expand(cfg, pg), expand(cfg, pb))
}

} // verus!
