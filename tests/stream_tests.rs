use beam_stream::color::{color, expand, ColorConfig, DEFAULT_CUTOFF};
use beam_stream::path::{
    get_blanking_point, get_spiral_point, PathCursor, SpiralPath, BLANKING_POINTS, SPIRAL_POINTS,
};
use beam_stream::playback::{Playback, DEFAULT_HOLD};
use beam_stream::point::{Point, SourcePoint};
use beam_stream::raster::{laser_color_from_webcam, map_point, webcam_x, webcam_y, RasterFrame};
use beam_stream::slot::SharedRasterSlot;
use beam_stream::spiral::SpiralGenerator;
use beam_stream::stream::{PointStream, Source};

fn sp(x: i16, r: u8) -> SourcePoint {
    SourcePoint { x, y: -x, r, g: 0, b: 1 }
}

fn frames_of(sizes: &[usize]) -> Vec<Vec<SourcePoint>> {
    let mut frames = Vec::new();
    for (f, &n) in sizes.iter().enumerate() {
        let mut frame = Vec::new();
        for i in 0..n {
            frame.push(sp((f * 10 + i) as i16, 1));
        }
        frames.push(frame);
    }
    frames
}

fn xs(points: &[Point]) -> Vec<i16> {
    points.iter().map(|p| p.x).collect()
}

fn uniform_raster(w: u32, h: u32, rgb: (u8, u8, u8)) -> RasterFrame {
    let mut px = Vec::new();
    for _ in 0..(w * h) {
        px.push(rgb.0);
        px.push(rgb.1);
        px.push(rgb.2);
    }
    RasterFrame::new(w, h, px).unwrap()
}

fn spiral_stream(colors: ColorConfig) -> PointStream {
    PointStream::new(Source::Procedural(SpiralGenerator::new(SpiralPath::default_path(), colors)))
}

#[test]
fn batch_has_requested_length_in_both_modes() {
    let mut anim = PointStream::new(Source::Animation(Playback::new(frames_of(&[2, 0, 3]), 2)));
    let mut spiral = spiral_stream(ColorConfig::linear());
    let raster = uniform_raster(4, 3, (200, 50, 0));
    for n in [0usize, 1, 7, 100, 1600] {
        assert_eq!(anim.next_batch(n, None).len(), n);
        assert_eq!(spiral.next_batch(n, None).len(), n);
        assert_eq!(spiral.next_batch(n, Some(&raster)).len(), n);
    }
}

#[test]
fn empty_animation_yields_blanked_origin_points() {
    let mut anim = PointStream::new(Source::Animation(Playback::new(Vec::new(), DEFAULT_HOLD)));
    let pts = anim.next_batch(5, None);
    assert_eq!(pts.len(), 5);
    for p in pts {
        assert_eq!(p, Point::blank(0, 0));
    }
}

#[test]
fn empty_frame_is_skipped_without_stalling() {
    let mut anim = PointStream::new(Source::Animation(Playback::new(frames_of(&[2, 0, 3]), 0)));
    let pts = anim.next_batch(7, None);
    assert_eq!(xs(&pts), vec![0, 1, 20, 21, 22, 0, 1]);
    assert!(pts.iter().all(|p| p.lit));
}

#[test]
fn hold_factor_one_draws_each_frame_twice() {
    let mut anim = PointStream::new(Source::Animation(Playback::new(frames_of(&[2, 0, 3]), 1)));
    let pts = anim.next_batch(12, None);
    assert_eq!(xs(&pts), vec![0, 1, 0, 1, 20, 21, 22, 20, 21, 22, 0, 1]);
}

#[test]
fn frame_advances_after_hold_plus_one_passes() {
    let mut pb = Playback::new(frames_of(&[2, 1]), 2);
    let mut steps = 0;
    while pb.cursor.frame_index == 0 {
        pb.step();
        steps += 1;
    }
    // (hold + 1) * (points + 1) transitions
    assert_eq!(steps, 9);
    assert_eq!(pb.cursor.point_index, 0);
    assert_eq!(pb.cursor.repeat_count, 0);
    let mut anim = PointStream::new(Source::Animation(Playback::new(frames_of(&[2, 1]), 2)));
    assert_eq!(xs(&anim.next_batch(10, None)), vec![0, 1, 0, 1, 0, 1, 10, 10, 10, 0]);
}

#[test]
fn animation_colors_are_widened() {
    let frames = vec![vec![SourcePoint { x: 5, y: -7, r: 255, g: 1, b: 0 }]];
    let mut anim = PointStream::new(Source::Animation(Playback::new(frames, 0)));
    let p = anim.next_batch(1, None)[0];
    assert_eq!(p, Point::xy_rgb(5, -7, 65280, 256, 0));
}

#[test]
fn spiral_starts_at_center_and_ends_at_max_radius() {
    let path = SpiralPath::default_path();
    assert_eq!(get_spiral_point(&path, 0), (0, 0));
    assert_eq!(get_spiral_point(&path, 1), (19, 3));
    assert_eq!(get_spiral_point(&path, SPIRAL_POINTS), (30000, 0));
    let (x, y) = get_spiral_point(&path, SPIRAL_POINTS - 1);
    let r2 = (x as i64) * (x as i64) + (y as i64) * (y as i64);
    assert!(r2 >= 29900i64 * 29900 && r2 <= 30000i64 * 30000);
}

#[test]
fn spiral_radius_never_shrinks() {
    let path = SpiralPath::default_path();
    let mut last = 0i64;
    for f in 0..SPIRAL_POINTS {
        let (x, y) = get_spiral_point(&path, f);
        let r2 = (x as i64) * (x as i64) + (y as i64) * (y as i64);
        assert!(r2 >= last, "at {f}: {r2} after {last}");
        last = r2;
    }
}

#[test]
fn retrace_runs_linearly_to_center() {
    let path = SpiralPath::default_path();
    assert_eq!(get_blanking_point(&path, 0), (30000, 0));
    assert_eq!(get_blanking_point(&path, 10), (15000, 0));
    assert_eq!(get_blanking_point(&path, BLANKING_POINTS - 1), (1500, 0));
}

#[test]
fn spiral_stream_is_periodic_and_blanks_the_retrace() {
    let raster = uniform_raster(8, 6, (255, 255, 255));
    let mut s = spiral_stream(ColorConfig::linear());
    let cycle = (SPIRAL_POINTS + BLANKING_POINTS) as usize;
    let first = s.next_batch(cycle, Some(&raster));
    let second = s.next_batch(cycle, Some(&raster));
    assert_eq!(first, second);
    assert_eq!(first[0], Point::xy_rgb(0, 0, 65535, 65535, 65535));
    for (i, p) in first.iter().enumerate() {
        assert_eq!(p.lit, i < SPIRAL_POINTS as usize);
        if !p.lit {
            assert_eq!((p.r, p.g, p.b), (0, 0, 0));
        }
    }
    assert_eq!(first[cycle - 1], Point::blank(1500, 0));
}

#[test]
fn spiral_without_raster_is_unlit() {
    let mut s = spiral_stream(ColorConfig::linear());
    let pts = s.next_batch(3, None);
    assert_eq!(pts[0], Point::blank(0, 0));
    assert_eq!(pts[1], Point::blank(19, 3));
    assert!(pts.iter().all(|p| !p.lit));
}

#[test]
fn cursor_wraps_at_cycle_end() {
    let path = SpiralPath::new(3, 2, 100, 1).unwrap();
    let mut c = PathCursor::start();
    let mut seen = Vec::new();
    for _ in 0..7 {
        seen.push(c.position);
        c.advance(&path);
    }
    assert_eq!(seen, vec![0, 1, 2, 3, 4, 0, 1]);
}

#[test]
fn path_rejects_bad_geometry() {
    assert!(SpiralPath::new(0, 20, 100, 1).is_none());
    assert!(SpiralPath::new(10, 0, 100, 1).is_none());
    assert!(SpiralPath::new(10, 20, -1, 1).is_none());
    assert!(SpiralPath::new(10, 20, 32768, 1).is_none());
    assert!(SpiralPath::new(i32::MAX, 1, 100, 1).is_none());
    assert!(SpiralPath::new(10, 20, 32767, 1).is_some());
}

#[test]
fn threshold_policy_cuts_below_cutoff() {
    let cfg = ColorConfig::threshold(DEFAULT_CUTOFF);
    assert_eq!(expand(cfg, 0), 0);
    assert_eq!(expand(cfg, 99), 0);
    assert_eq!(expand(cfg, 100), 25700);
    assert_eq!(expand(cfg, 255), 65535);
    for c in 0..=255u8 {
        let want = if c < 100 { 0 } else { c as u16 * 257 };
        assert_eq!(expand(cfg, c), want);
    }
}

#[test]
fn linear_policy_scales_every_value() {
    let cfg = ColorConfig::linear();
    for c in 0..=255u8 {
        assert_eq!(expand(cfg, c), c as u16 * 257);
    }
    assert_eq!(expand(ColorConfig::threshold(0), 0), 0);
    assert_eq!(expand(ColorConfig::threshold(0), 1), 257);
}

#[test]
fn widening_shifts_by_a_byte() {
    assert_eq!(color(0), 0);
    assert_eq!(color(1), 256);
    assert_eq!(color(255), 65280);
}

#[test]
fn coordinates_clamp_at_the_boundary() {
    assert_eq!(webcam_x(32767, 320), 319);
    assert_eq!(webcam_x(-32768, 320), 0);
    assert_eq!(webcam_x(0, 320), 160);
    assert_eq!(webcam_y(-32768, 240), 239);
    assert_eq!(webcam_y(32767, 240), 0);
    assert_eq!(webcam_y(0, 240), 120);
    assert_eq!(map_point(32768, 10), 9);
    assert_eq!(map_point(32767, 1), 0);
}

#[test]
fn raster_rejects_bad_buffers() {
    assert!(RasterFrame::new(0, 2, vec![]).is_none());
    assert!(RasterFrame::new(2, 0, vec![]).is_none());
    assert!(RasterFrame::new(2, 2, vec![0; 11]).is_none());
    assert!(RasterFrame::new(2, 2, vec![0; 12]).is_some());
    let bad = RasterFrame { width: 2, height: 2, pixels: vec![0; 3] };
    assert!(!bad.is_usable());
    assert!(uniform_raster(2, 2, (0, 0, 0)).is_usable());
}

#[test]
fn sampling_reads_the_pixel_under_the_beam() {
    // 2 x 2: top-left red, top-right green, bottom-left blue, bottom-right white
    let px = vec![255, 0, 0, 0, 255, 0, 0, 0, 255, 255, 255, 255];
    let f = RasterFrame::new(2, 2, px).unwrap();
    assert_eq!(f.get_pixel(1, 0), (0, 255, 0));
    let lin = ColorConfig::linear();
    assert_eq!(laser_color_from_webcam(&f, lin, -20000, 20000), (65535, 0, 0));
    assert_eq!(laser_color_from_webcam(&f, lin, 20000, 20000), (0, 65535, 0));
    assert_eq!(laser_color_from_webcam(&f, lin, -20000, -20000), (0, 0, 65535));
    assert_eq!(laser_color_from_webcam(&f, lin, 32767, -32768), (65535, 65535, 65535));
    let dark = RasterFrame::new(1, 1, vec![99, 100, 50]).unwrap();
    let th = ColorConfig::threshold(100);
    assert_eq!(laser_color_from_webcam(&dark, th, 0, 0), (0, 25700, 0));
}

#[test]
fn slot_hands_out_the_latest_frame() {
    let slot = SharedRasterSlot::new();
    assert!(slot.try_sample().is_none());
    slot.publish(uniform_raster(1, 1, (1, 2, 3)));
    slot.publish(uniform_raster(2, 1, (4, 5, 6)));
    let got = slot.try_sample().unwrap();
    assert_eq!((got.width, got.height), (2, 1));
    assert_eq!(got.pixels, vec![4, 5, 6, 4, 5, 6]);
}

#[test]
fn stream_reads_colors_from_the_slot() {
    let slot = SharedRasterSlot::new();
    let mut s = spiral_stream(ColorConfig::linear());
    let pts = s.next_batch_from_slot(2, &slot);
    assert!(pts.iter().all(|p| !p.lit));
    slot.publish(uniform_raster(3, 3, (10, 20, 30)));
    let pts = s.next_batch_from_slot(2, &slot);
    assert_eq!(pts[0], Point::xy_rgb(get_spiral_point(&SpiralPath::default_path(), 2).0,
        get_spiral_point(&SpiralPath::default_path(), 2).1, 2570, 5140, 7710));
    assert!(pts.iter().all(|p| p.lit));
}

#[test]
fn large_hold_still_reaches_the_frame_after_an_empty_one() {
    let mut anim = PointStream::new(Source::Animation(Playback::new(frames_of(&[1, 0, 1]), 100)));
    let pts = anim.next_batch(103, None);
    assert!(pts[..101].iter().all(|p| p.x == 0 && p.lit));
    assert_eq!(pts[101].x, 20);
    assert!(pts[101].lit);
    assert_eq!(pts[102].x, 20);
}

#[test]
fn many_empty_frames_are_crossed_in_one_pull() {
    let mut sizes = vec![1];
    sizes.extend(std::iter::repeat(0).take(40));
    sizes.push(1);
    let mut anim = PointStream::new(Source::Animation(Playback::new(frames_of(&sizes), 2)));
    let pts = anim.next_batch(5, None);
    assert_eq!(xs(&pts), vec![0, 0, 0, 410, 410]);
    assert!(pts.iter().all(|p| p.lit));
}

#[test]
fn empty_frame_takes_one_transition() {
    let mut pb = Playback::new(frames_of(&[0, 1]), 5);
    assert_eq!(pb.step(), None);
    assert_eq!(pb.cursor.frame_index, 1);
    assert_eq!(pb.cursor.repeat_count, 0);
    assert!(pb.step().is_some());
}

#[test]
fn retrace_ends_at_the_center() {
    let path = SpiralPath::default_path();
    assert_eq!(get_blanking_point(&path, BLANKING_POINTS), (0, 0));
    for c in 0..=BLANKING_POINTS {
        assert_eq!(get_blanking_point(&path, c), (30000 - 1500 * c as i16, 0));
    }
}

#[test]
fn spiral_follows_the_angle_closely() {
    let path = SpiralPath::default_path();
    assert_eq!(get_spiral_point(&path, 1499), (29560, -4999));
    assert_eq!(get_spiral_point(&path, 266), (4431, 2943));
    assert_eq!(get_spiral_point(&path, 906), (9708, 15299));
    assert_eq!(get_spiral_point(&path, 100), (-999, -1732));
    assert_eq!(get_spiral_point(&path, 750), (15000, 0));
}

#[test]
fn spiral_points_lie_on_the_radius_circle() {
    let path = SpiralPath::default_path();
    let mut prev: Option<f64> = None;
    for f in 0..=SPIRAL_POINTS {
        let (x, y) = get_spiral_point(&path, f);
        let rho = (30000 * f / SPIRAL_POINTS) as f64;
        let d = (x as f64).hypot(y as f64);
        assert!(d <= rho && d >= rho - 1.5, "at {f}: {d} against {rho}");
        if let Some(p) = prev {
            assert!(d - p >= 18.5 && d - p <= 21.5, "step at {f}: {}", d - p);
        }
        prev = Some(d);
    }
}

#[test]
fn starvation_is_reported() {
    let empty = PointStream::new(Source::Animation(Playback::new(frames_of(&[0, 0]), 2)));
    assert!(empty.starved());
    let none = PointStream::new(Source::Animation(Playback::new(Vec::new(), 2)));
    assert!(none.starved());
    let full = PointStream::new(Source::Animation(Playback::new(frames_of(&[0, 1]), 2)));
    assert!(!full.starved());
    assert!(!spiral_stream(ColorConfig::linear()).starved());
}
