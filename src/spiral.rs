use vstd::prelude::*;
use crate::color::ColorConfig;
use crate::path::{get_blanking_point, get_spiral_point, PathCursor, SpiralPath};
use crate::point::{blank_spec, Point};
use crate::raster::{laser_color_from_webcam, sample_spec, RasterFrame};

verus! {

/// The point drawn at cycle position `pos`: a spiral sample colored from
/// the raster, unlit while no raster is at hand, or an unlit retrace sample.
pub open spec fn path_point(
    path: &SpiralPath,
    cfg: ColorConfig,
    pos: int,
    raster: Option<&RasterFrame>,
) -> Point {
    if pos >= path.spiral_length {
        let (x, y) = path.blanking_point(pos - path.spiral_length);
        blank_spec(x as i16, y as i16)
    } else {
        let (x, y) = path.spiral_point(pos);
        match raster {
            None => blank_spec(x as i16, y as i16),
            Some(frame) => {
                let (r, g, b) = sample_spec(frame, cfg, x as i16, y as i16);
                Point { x: x as i16, y: y as i16, r, g, b, lit: true }
            },
        }
    }
}

/// Draws the spiral path over and over, coloring it from a raster.
pub struct SpiralGenerator {
    pub path: SpiralPath,
    pub colors: ColorConfig,
    pub cursor: PathCursor,
}

impl SpiralGenerator {
    pub open spec fn wf(&self) -> bool {
        self.path.wf() && self.cursor.wf(&self.path)
    }

    /// Starts at the center of the spiral.
    pub fn new(path: SpiralPath, colors: ColorConfig) -> (r: SpiralGenerator)
        requires
            path.wf(),
        ensures
            r.wf(),
            r.path == path,
            r.colors == colors,
            r.cursor.position == 0,
    {
        SpiralGenerator { path, colors, cursor: PathCursor::start() }
    }

    /// Emits the point at the cursor and moves the cursor on.
    pub fn next_point(&mut self, raster: Option<&RasterFrame>) -> (p: Point)
        requires
            old(self).wf(),
            raster matches Some(f) ==> f.wf(),
        ensures
            final(self).wf(),
            final(self).path == old(self).path,
            final(self).colors == old(self).colors,
            final(self).cursor.position == (old(self).cursor.position + 1) % old(self).path.cycle(),
            p == path_point(&old(self).path, old(self).colors, old(self).cursor.position as int, raster),
    {
        let f = self.cursor.position;
        let p = if f >= self.path.spiral_length {
            let (x, y) = get_blanking_point(&self.path, f - self.path.spiral_length);
            Point::blank(x, y)
        } else {
            let (x, y) = get_spiral_point(&self.path, f);
            match raster {
                None => Point::blank(x, y),
                Some(frame) => {
                    let (r, g, b) = laser_color_from_webcam(frame, self.colors, x, y);
                    Point::xy_rgb(x, y, r, g, b)
                },
            }
        };
        self.cursor.advance(&self.path);
        p
    }
}

/// On the spiral part of the cycle a point is lit exactly when a raster is
/// at hand; on the retrace part it is never lit and carries no color.
pub proof fn lemma_lit_by_segment(
    path: &SpiralPath,
    cfg: ColorConfig,
    pos: int,
    raster: Option<&RasterFrame>,
)
    requires
        path.wf(),
        0 <= pos < path.cycle(),
    ensures
        pos < path.spiral_length ==> path_point(path, cfg, pos, raster).lit == raster.is_some(),
        pos >= path.spiral_length ==> {
            let p = path_point(path, cfg, pos, raster);
            !p.lit && p.r == 0 && p.g == 0 && p.b == 0
        },
{
}

} // verus!
