use vstd::prelude::*;
use vstd::arithmetic::div_mod::{lemma_add_mod_noop, lemma_mod_add_multiples_vanish, lemma_small_mod};
use crate::path::PathCursor;
use crate::playback::{has_points, pull_budget, pull_spec, Playback};
use crate::point::Point;
use crate::raster::RasterFrame;
use crate::spiral::{path_point, SpiralGenerator};

verus! {

/// What feeds the stream: animation playback, or the spiral colored from
/// a raster.
pub enum Source {
    Animation(Playback),
    Procedural(SpiralGenerator),
}

impl Source {
    pub open spec fn wf(&self) -> bool {
        match self {
            Source::Animation(p) => p.wf(),
            Source::Procedural(g) => g.wf(),
        }
    }
}

/// One pull from a source: its next state and the point it yields.
pub open spec fn pull(src: Source, raster: Option<&RasterFrame>) -> (Source, Point) {
    match src {
        Source::Animation(p) => {
            let (c, pt) = pull_spec(p.frames_seq(), p.hold, p.cursor, pull_budget(p.frames_seq()));
            (Source::Animation(Playback { cursor: c, ..p }), pt)
        },
        Source::Procedural(g) => {
            let pos = (g.cursor.position + 1) % g.path.cycle();
            (
                Source::Procedural(
                    SpiralGenerator { cursor: PathCursor { position: pos as i32 }, ..g },
                ),
                path_point(&g.path, g.colors, g.cursor.position as int, raster),
            )
        },
    }
}

/// `n` pulls in a row: the source's state after them and the points, in
/// the order they came.
pub open spec fn batch(src: Source, raster: Option<&RasterFrame>, n: nat) -> (Source, Seq<Point>)
    decreases n,
{
    if n == 0 {
        (src, Seq::empty())
    } else {
        let (s1, pts) = batch(src, raster, (n - 1) as nat);
        let (s2, p) = pull(s1, raster);
        (s2, pts.push(p))
    }
}

/// However many points are asked for, a batch holds exactly that many.
pub proof fn lemma_batch_len(src: Source, raster: Option<&RasterFrame>, n: nat)
    ensures
        batch(src, raster, n).1.len() == n,
    decreases n,
{
    if n > 0 {
        lemma_batch_len(src, raster, (n - 1) as nat);
    }
}

/// A spiral batch: after `n` pulls the cursor stands `n` places on, and
/// the point pulled `j`-th is the one at `j` places past the start.
pub proof fn lemma_spiral_batch(g: SpiralGenerator, raster: Option<&RasterFrame>, n: nat)
    requires
        g.wf(),
    ensures
        ({
            let t = g.path.cycle();
            let (s, pts) = batch(Source::Procedural(g), raster, n);
            &&& s == Source::Procedural(
                SpiralGenerator {
                    cursor: PathCursor { position: ((g.cursor.position + n) % t) as i32 },
                    ..g
                },
            )
            &&& forall|j: int|
                0 <= j < n ==> #[trigger] pts[j] == path_point(
                    &g.path,
                    g.colors,
                    (g.cursor.position + j) % t,
                    raster,
                )
        }),
    decreases n,
{
    let t = g.path.cycle();
    if n == 0 {
        lemma_small_mod(g.cursor.position as nat, t as nat);
    } else {
        lemma_spiral_batch(g, raster, (n - 1) as nat);
        lemma_batch_len(Source::Procedural(g), raster, (n - 1) as nat);
        let k = g.cursor.position + n - 1;
        lemma_add_mod_noop(k, 1, t);
        lemma_small_mod(1, t as nat);
        let (s1, pts1) = batch(Source::Procedural(g), raster, (n - 1) as nat);
        let g1 = SpiralGenerator {
            cursor: PathCursor { position: (k % t) as i32 },
            ..g
        };
        assert(s1 == Source::Procedural(g1));
        let (s2, p) = pull(s1, raster);
        assert(p == path_point(&g.path, g.colors, k % t, raster));
        let pts = pts1.push(p);
        assert(batch(Source::Procedural(g), raster, n) == (s2, pts));
        assert forall|j: int| 0 <= j < n implies #[trigger] pts[j] == path_point(
            &g.path,
            g.colors,
            (g.cursor.position + j) % t,
            raster,
        ) by {
            if j < n - 1 {
                assert(pts[j] == pts1[j]);
            }
        }
    }
}

/// The spiral stream is periodic: points a whole cycle apart are equal.
pub proof fn lemma_spiral_periodic(
    g: SpiralGenerator,
    raster: Option<&RasterFrame>,
    n: nat,
    j: int,
)
    requires
        g.wf(),
        0 <= j,
        j + g.path.cycle() < n,
    ensures
        batch(Source::Procedural(g), raster, n).1[j + g.path.cycle()] == batch(
            Source::Procedural(g),
            raster,
            n,
        ).1[j],
{
    let t = g.path.cycle();
    lemma_spiral_batch(g, raster, n);
    let pts = batch(Source::Procedural(g), raster, n).1;
    assert(pts[j + t] == path_point(&g.path, g.colors, (g.cursor.position + (j + t)) % t, raster));
    assert(pts[j] == path_point(&g.path, g.colors, (g.cursor.position + j) % t, raster));
    lemma_mod_add_multiples_vanish(g.cursor.position + j, t);
    assert(g.cursor.position + (j + t) == t + (g.cursor.position + j));
}

/// The pull-based entry point for an output device.
pub struct PointStream {
    pub source: Source,
}

impl PointStream {
    pub open spec fn wf(&self) -> bool {
        self.source.wf()
    }

    pub fn new(source: Source) -> (r: PointStream)
        requires
            source.wf(),
        ensures
            r.wf(),
            r.source == source,
    {
        PointStream { source }
    }

    /// Whether the stream is starved: it plays an animation in which no
    /// frame has a point, so it can only emit blanked points at the origin.
    pub fn starved(&self) -> (r: bool)
        ensures
            r == (match self.source {
                Source::Animation(p) => !has_points(p.frames_seq()),
                Source::Procedural(_) => false,
            }),
    {
        match &self.source {
            Source::Animation(p) => p.starved(),
            Source::Procedural(_) => false,
        }
    }

    /// Pulls one point from the active source.
    pub fn next_point(&mut self, raster: Option<&RasterFrame>) -> (p: Point)
        requires
            old(self).wf(),
            raster matches Some(f) ==> f.wf(),
        ensures
            final(self).wf(),
            (final(self).source, p) == pull(old(self).source, raster),
    {
        match &mut self.source {
            Source::Animation(p) => p.next_point(),
            Source::Procedural(g) => g.next_point(raster),
        }
    }

    /// Exactly `n` points, the next ones the source yields. `raster` is the
    /// latest camera frame, if there is one yet.
    pub fn next_batch(&mut self, n: usize, raster: Option<&RasterFrame>) -> (r: Vec<Point>)
        requires
            old(self).wf(),
            raster matches Some(f) ==> f.wf(),
        ensures
            final(self).wf(),
            r@.len() == n,
            (final(self).source, r@) == batch(old(self).source, raster, n as nat),
    {
        let mut points: Vec<Point> = Vec::new();
        let mut i: usize = 0;
        while i < n
            invariant
                self.wf(),
                raster matches Some(f) ==> f.wf(),
                i <= n,
                points@.len() == i,
                (self.source, points@) == batch(old(self).source, raster, i as nat),
            decreases n - i,
        {
            let p = self.next_point(raster);
            points.push(p);
            i = i + 1;
        }
        points
    }
}

} // verus!
