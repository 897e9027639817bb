use vstd::prelude::*;
use crate::color::color;
use crate::point::{blank_spec, Point, SourcePoint};

verus! {

/// Hold factor used when none is configured: each frame is drawn three times.
pub const DEFAULT_HOLD: u32 = 2;


/// Where playback stands: frame, point within it, and passes already made
/// over the frame.
#[derive(Clone, Copy, Debug, PartialEq, Eq, Structural)]
pub struct PlaybackCursor {
    pub frame_index: usize,
    pub point_index: usize,
    pub repeat_count: u32,
}

/// Looping playback of an animation: a sequence of frames, each a sequence
/// of points in beam order. Each frame is traversed `hold + 1` times.
pub struct Playback {
    pub frames: Vec<Vec<SourcePoint>>,
    pub hold: u32,
    pub cursor: PlaybackCursor,
}

/// The frames as a sequence of point sequences.
pub open spec fn frames_view(frames: Seq<Vec<SourcePoint>>) -> Seq<Seq<SourcePoint>> {
    frames.map_values(|f: Vec<SourcePoint>| f@)
}

/// The device point for an animation point: colors widened, beam on.
pub open spec fn emit_spec(p: SourcePoint) -> Point {
    Point {
        x: p.x,
        y: p.y,
        r: (p.r * 256) as u16,
        g: (p.g * 256) as u16,
        b: (p.b * 256) as u16,
        lit: true,
    }
}

/// One transition of the playback machine: the next cursor, and the point
/// emitted on the way, if any. A frame without points is left at once, as
/// holding it would draw nothing.
pub open spec fn step_spec(frames: Seq<Seq<SourcePoint>>, hold: u32, c: PlaybackCursor) -> (
    PlaybackCursor,
    Option<Point>,
) {
    if c.frame_index >= frames.len() {
        (PlaybackCursor { frame_index: 0, point_index: 0, repeat_count: 0 }, None)
    } else if c.point_index < frames[c.frame_index as int].len() {
        (
            PlaybackCursor { point_index: (c.point_index + 1) as usize, ..c },
            Some(emit_spec(frames[c.frame_index as int][c.point_index as int])),
        )
    } else if frames[c.frame_index as int].len() == 0 || c.repeat_count >= hold {
        (
            PlaybackCursor {
                frame_index: (c.frame_index + 1) as usize,
                point_index: 0,
                repeat_count: 0,
            },
            None,
        )
    } else {
        (
            PlaybackCursor {
                frame_index: c.frame_index,
                point_index: 0,
                repeat_count: (c.repeat_count + 1) as u32,
            },
            None,
        )
    }
}

/// The cursor after `n` transitions.
pub open spec fn steps_spec(
    frames: Seq<Seq<SourcePoint>>,
    hold: u32,
    c: PlaybackCursor,
    n: nat,
) -> PlaybackCursor
    decreases n,
{
    if n == 0 {
        c
    } else {
        steps_spec(frames, hold, step_spec(frames, hold, c).0, (n - 1) as nat)
    }
}

/// How many transitions one pull may make: enough to reach a point from any
/// state whenever some frame has one.
pub open spec fn pull_budget(frames: Seq<Seq<SourcePoint>>) -> nat {
    frames.len() + 2
}

/// Some frame holds at least one point.
pub open spec fn has_points(frames: Seq<Seq<SourcePoint>>) -> bool {
    exists|k: int| 0 <= k < frames.len() && #[trigger] frames[k].len() > 0
}

/// `p` is the emitted form of some point of some frame.
pub open spec fn from_frames(frames: Seq<Seq<SourcePoint>>, p: Point) -> bool {
    exists|i: int, j: int|
        0 <= i < frames.len() && 0 <= j < frames[i].len() && p == emit_spec(
            #[trigger] frames[i][j],
        )
}

/// What one pull yields: transitions are made until a point comes out, at
/// most `budget` of them; past the budget a blanked origin point is
/// emitted and the cursor stays where the transitions left it.
pub open spec fn pull_spec(
    frames: Seq<Seq<SourcePoint>>,
    hold: u32,
    c: PlaybackCursor,
    budget: nat,
) -> (PlaybackCursor, Point)
    decreases budget,
{
    if budget == 0 {
        (c, blank_spec(0, 0))
    } else {
        let (c2, p) = step_spec(frames, hold, c);
        match p {
            Some(p) => (c2, p),
            None => pull_spec(frames, hold, c2, (budget - 1) as nat),
        }
    }
}

/// Making `a` transitions and then `b` more is making `a + b` transitions.
pub proof fn lemma_steps_add(
    frames: Seq<Seq<SourcePoint>>,
    hold: u32,
    c: PlaybackCursor,
    a: nat,
    b: nat,
)
    ensures
        steps_spec(frames, hold, c, a + b) == steps_spec(
            frames,
            hold,
            steps_spec(frames, hold, c, a),
            b,
        ),
    decreases a,
{
    if a > 0 {
        lemma_steps_add(frames, hold, step_spec(frames, hold, c).0, (a - 1) as nat, b);
        assert((a + b - 1) as nat == (a - 1) as nat + b);
    }
}

/// From any point of a frame, the remaining points are walked without
/// leaving the frame or touching the pass count.
proof fn lemma_walk_frame(frames: Seq<Seq<SourcePoint>>, hold: u32, c: PlaybackCursor)
    requires
        c.frame_index < frames.len(),
        c.point_index <= frames[c.frame_index as int].len(),
        frames[c.frame_index as int].len() <= usize::MAX,
    ensures
        steps_spec(frames, hold, c, (frames[c.frame_index as int].len() - c.point_index) as nat)
            == (PlaybackCursor {
            point_index: frames[c.frame_index as int].len() as usize,
            ..c
        }),
        forall|j: nat|
            j <= frames[c.frame_index as int].len() - c.point_index ==> (#[trigger] steps_spec(
                frames,
                hold,
                c,
                j,
            )).frame_index == c.frame_index,
    decreases frames[c.frame_index as int].len() - c.point_index,
{
    let m = frames[c.frame_index as int].len();
    if c.point_index < m {
        let c2 = step_spec(frames, hold, c).0;
        lemma_walk_frame(frames, hold, c2);
        assert forall|j: nat| j <= m - c.point_index implies (#[trigger] steps_spec(
            frames,
            hold,
            c,
            j,
        )).frame_index == c.frame_index by {
            if j > 0 {
                assert(steps_spec(frames, hold, c, j) == steps_spec(
                    frames,
                    hold,
                    c2,
                    (j - 1) as nat,
                ));
            }
        }
    }
}

/// One full pass over a frame from its first point: `m + 1` transitions
/// for a frame of `m` points, the last of which counts the pass.
proof fn lemma_one_pass(frames: Seq<Seq<SourcePoint>>, hold: u32, c: PlaybackCursor)
    requires
        c.frame_index < frames.len(),
        frames.len() <= usize::MAX,
        0 < frames[c.frame_index as int].len() <= usize::MAX,
        c.point_index == 0,
        c.repeat_count <= hold,
    ensures
        steps_spec(frames, hold, c, frames[c.frame_index as int].len() + 1) == (if c.repeat_count
            >= hold {
            PlaybackCursor {
                frame_index: (c.frame_index + 1) as usize,
                point_index: 0,
                repeat_count: 0,
            }
        } else {
            PlaybackCursor { repeat_count: (c.repeat_count + 1) as u32, ..c }
        }),
        forall|j: nat|
            j <= frames[c.frame_index as int].len() ==> (#[trigger] steps_spec(
                frames,
                hold,
                c,
                j,
            )).frame_index == c.frame_index,
{
    let m = frames[c.frame_index as int].len();
    lemma_walk_frame(frames, hold, c);
    lemma_steps_add(frames, hold, c, m, 1);
    let end = steps_spec(frames, hold, c, m);
    assert(steps_spec(frames, hold, step_spec(frames, hold, end).0, 0) == step_spec(
        frames,
        hold,
        end,
    ).0);
    assert(steps_spec(frames, hold, end, 1) == step_spec(frames, hold, end).0);
}

/// The passes left on a frame: from pass `rc`, playback reaches the first
/// point of the next frame after `(hold + 1 - rc) * (m + 1)` transitions,
/// and stays on the frame before that.
proof fn lemma_passes(frames: Seq<Seq<SourcePoint>>, hold: u32, c: PlaybackCursor)
    requires
        c.frame_index < frames.len(),
        frames.len() <= usize::MAX,
        0 < frames[c.frame_index as int].len() <= usize::MAX,
        c.point_index == 0,
        c.repeat_count <= hold,
    ensures
        steps_spec(
            frames,
            hold,
            c,
            ((hold + 1 - c.repeat_count) * (frames[c.frame_index as int].len() + 1)) as nat,
        ) == (PlaybackCursor {
            frame_index: (c.frame_index + 1) as usize,
            point_index: 0,
            repeat_count: 0,
        }),
        forall|j: nat|
            j < (hold + 1 - c.repeat_count) * (frames[c.frame_index as int].len() + 1) ==> (
            #[trigger] steps_spec(frames, hold, c, j)).frame_index == c.frame_index,
    decreases hold - c.repeat_count,
{
    let m1 = frames[c.frame_index as int].len() + 1;
    let k = hold + 1 - c.repeat_count;
    lemma_one_pass(frames, hold, c);
    if c.repeat_count < hold {
        let c2 = PlaybackCursor { repeat_count: (c.repeat_count + 1) as u32, ..c };
        lemma_passes(frames, hold, c2);
        let rest = ((hold + 1 - c2.repeat_count) * m1) as nat;
        assert(k * m1 == m1 + rest) by (nonlinear_arith)
            requires
                k == hold + 1 - c.repeat_count,
                rest == (hold + 1 - (c.repeat_count + 1)) * m1,
        ;
        lemma_steps_add(frames, hold, c, m1 as nat, rest);
        assert forall|j: nat| j < k * m1 implies (#[trigger] steps_spec(
            frames,
            hold,
            c,
            j,
        )).frame_index == c.frame_index by {
            if j >= m1 {
                lemma_steps_add(frames, hold, c, m1 as nat, (j - m1) as nat);
                assert(steps_spec(frames, hold, c, j) == steps_spec(
                    frames,
                    hold,
                    c2,
                    (j - m1) as nat,
                ));
            } else if j == m1 - 1 {
                assert(steps_spec(frames, hold, c, j).frame_index == c.frame_index);
            }
        }
    } else {
        assert(k == 1);
        assert(k * m1 == m1);
    }
}

/// Frame hold: from the first point of a frame of `m > 0` points, playback
/// stays on that frame through `hold + 1` full passes (`(hold + 1) * (m + 1)`
/// transitions, each pass ending with the transition that counts it) and
/// then stands at the first point of the next frame.
pub proof fn lemma_frame_hold(frames: Seq<Seq<SourcePoint>>, hold: u32, frame_index: usize)
    requires
        frame_index < frames.len(),
        frames.len() <= usize::MAX,
        0 < frames[frame_index as int].len() <= usize::MAX,
    ensures
        ({
            let start = PlaybackCursor { frame_index, point_index: 0, repeat_count: 0 };
            let n = (hold + 1) * (frames[frame_index as int].len() + 1);
            &&& steps_spec(frames, hold, start, n as nat) == (PlaybackCursor {
                frame_index: (frame_index + 1) as usize,
                point_index: 0,
                repeat_count: 0,
            })
            &&& forall|j: nat|
                j < n ==> (#[trigger] steps_spec(frames, hold, start, j)).frame_index
                    == frame_index
        }),
{
    lemma_passes(frames, hold, PlaybackCursor { frame_index, point_index: 0, repeat_count: 0 });
}

/// From the first point of frame `g`, a pull of `budget` transitions finds
/// a point when it may walk to the next frame `k` that has points.
proof fn lemma_scan(frames: Seq<Seq<SourcePoint>>, hold: u32, g: int, k: int, budget: nat)
    requires
        frames.len() <= usize::MAX,
        0 <= g <= frames.len(),
        0 <= k < frames.len(),
        frames[k].len() > 0,
        budget >= (if g <= k {
            k - g + 1
        } else {
            frames.len() - g + k + 2
        }),
    ensures
        from_frames(
            frames,
            pull_spec(
                frames,
                hold,
                PlaybackCursor { frame_index: g as usize, point_index: 0, repeat_count: 0 },
                budget,
            ).1,
        ),
    decreases (if g <= k {
        k - g
    } else {
        frames.len() - g + k + 1
    }),
{
    let c = PlaybackCursor { frame_index: g as usize, point_index: 0, repeat_count: 0 };
    if g == frames.len() {
        lemma_scan(frames, hold, 0, k, (budget - 1) as nat);
    } else if frames[g].len() > 0 {
        assert(step_spec(frames, hold, c).1 == Some(emit_spec(frames[g][0])));
    } else {
        lemma_scan(frames, hold, g + 1, k, (budget - 1) as nat);
    }
}

/// Whenever some frame has points, a pull from any sound state yields one
/// of them within `pull_budget` transitions.
proof fn lemma_pull_finds(frames: Seq<Seq<SourcePoint>>, hold: u32, c: PlaybackCursor)
    requires
        frames.len() <= usize::MAX,
        has_points(frames),
        c.repeat_count <= hold,
        c.frame_index < frames.len() ==> c.point_index <= frames[c.frame_index as int].len(),
    ensures
        from_frames(frames, pull_spec(frames, hold, c, pull_budget(frames)).1),
{
    let k = choose|k: int| 0 <= k < frames.len() && #[trigger] frames[k].len() > 0;
    let n = frames.len();
    let b = pull_budget(frames);
    let c2 = step_spec(frames, hold, c).0;
    if c.frame_index >= n {
        lemma_scan(frames, hold, 0, k, (b - 1) as nat);
    } else {
        let fi = c.frame_index as int;
        if c.point_index < frames[fi].len() {
            assert(step_spec(frames, hold, c).1 == Some(
                emit_spec(frames[fi][c.point_index as int]),
            ));
        } else if frames[fi].len() == 0 || c.repeat_count >= hold {
            lemma_scan(frames, hold, fi + 1, k, (b - 1) as nat);
        } else {
            assert(step_spec(frames, hold, c2).1 == Some(emit_spec(frames[fi][0])));
            assert(pull_spec(frames, hold, c2, (b - 1) as nat).1 == emit_spec(frames[fi][0]));
        }
    }
}

impl PlaybackCursor {
    /// A cursor is sound when its pass count stays within the hold factor.
    pub open spec fn wf(&self, hold: u32) -> bool {
        self.repeat_count <= hold
    }
}

impl Playback {
    pub open spec fn wf(&self) -> bool {
        &&& self.cursor.wf(self.hold)
        &&& self.cursor.frame_index < self.frames@.len() ==> self.cursor.point_index
            <= self.frames@[self.cursor.frame_index as int]@.len()
    }

    pub open spec fn frames_seq(&self) -> Seq<Seq<SourcePoint>> {
        frames_view(self.frames@)
    }

    /// Starts at the first point of the first frame.
    pub fn new(frames: Vec<Vec<SourcePoint>>, hold: u32) -> (r: Playback)
        ensures
            r.wf(),
            r.frames@ == frames@,
            r.hold == hold,
            r.cursor == (PlaybackCursor { frame_index: 0, point_index: 0, repeat_count: 0 }),
    {
        Playback {
            frames,
            hold,
            cursor: PlaybackCursor { frame_index: 0, point_index: 0, repeat_count: 0 },
        }
    }

    /// Whether pulls are starved: no frame has a point, so each pull stands
    /// in a blanked point at the origin.
    pub fn starved(&self) -> (r: bool)
        ensures
            r == !has_points(self.frames_seq()),
    {
        let mut i: usize = 0;
        while i < self.frames.len()
            invariant
                i <= self.frames@.len(),
                forall|k: int| 0 <= k < i ==> #[trigger] self.frames_seq()[k].len() == 0,
            decreases self.frames@.len() - i,
        {
            if self.frames[i].len() > 0 {
                assert(self.frames_seq()[i as int].len() > 0);
                return false;
            }
            i = i + 1;
        }
        true
    }

    /// Makes one transition of the machine.
    pub fn step(&mut self) -> (r: Option<Point>)
        requires
            old(self).wf(),
        ensures
            final(self).wf(),
            final(self).frames == old(self).frames,
            final(self).hold == old(self).hold,
            (final(self).cursor, r) == step_spec(
                old(self).frames_seq(),
                old(self).hold,
                old(self).cursor,
            ),
    {
        let c = self.cursor;
        if c.frame_index >= self.frames.len() {
            self.cursor = PlaybackCursor { frame_index: 0, point_index: 0, repeat_count: 0 };
            return None;
        }
        let frame = &self.frames[c.frame_index];
        if c.point_index < frame.len() {
            let p = frame[c.point_index];
            self.cursor = PlaybackCursor { point_index: c.point_index + 1, ..c };
            Some(Point::xy_rgb(p.x, p.y, color(p.r), color(p.g), color(p.b)))
        } else if frame.len() == 0 || c.repeat_count >= self.hold {
            self.cursor = PlaybackCursor {
                frame_index: c.frame_index + 1,
                point_index: 0,
                repeat_count: 0,
            };
            None
        } else {
            self.cursor = PlaybackCursor {
                frame_index: c.frame_index,
                point_index: 0,
                repeat_count: c.repeat_count + 1,
            };
            None
        }
    }

    /// Yields the next point. An animation without any point yields a
    /// blanked point at the origin; otherwise the point comes from a frame.
    pub fn next_point(&mut self) -> (p: Point)
        requires
            old(self).wf(),
        ensures
            final(self).wf(),
            final(self).frames == old(self).frames,
            final(self).hold == old(self).hold,
            (final(self).cursor, p) == pull_spec(
                old(self).frames_seq(),
                old(self).hold,
                old(self).cursor,
                pull_budget(old(self).frames_seq()),
            ),
            has_points(old(self).frames_seq()) ==> from_frames(old(self).frames_seq(), p),
    {
        let count = self.frames.len();
        proof {
            if has_points(self.frames_seq()) {
                lemma_pull_finds(self.frames_seq(), self.hold, self.cursor);
            }
        }
        let budget: u128 = count as u128 + 2;
        let mut tries: u128 = 0;
        while tries < budget
            invariant
                self.wf(),
                self.frames == old(self).frames,
                self.hold == old(self).hold,
                budget == pull_budget(old(self).frames_seq()),
                tries <= budget,
                pull_spec(
                    old(self).frames_seq(),
                    old(self).hold,
                    old(self).cursor,
                    pull_budget(old(self).frames_seq()),
                ) == pull_spec(self.frames_seq(), self.hold, self.cursor, (budget - tries) as nat),
            decreases budget - tries,
        {
            match self.step() {
                Some(p) => {
                    return p;
                },
                None => {},
            }
            tries = tries + 1;
        }
        Point::blank(0, 0)
    }
}

} // verus!
