use vstd::prelude::*;
use vstd::arithmetic::div_mod::lemma_mod_add_multiples_vanish;
use vstd::arithmetic::div_mod::lemma_small_mod;
use vstd::arithmetic::div_mod::lemma_mod_self_0;
use vstd::arithmetic::div_mod::{lemma_fundamental_div_mod, lemma_mod_bound};
use vstd::math::abs;

verus! {

/// Samples along the outward spiral in one cycle.
pub const SPIRAL_POINTS: i32 = 1500;

/// Samples that bring the beam back from the spiral's edge to the center.
pub const BLANKING_POINTS: i32 = 20;

/// Radius of the spiral's outer end, in device units.
pub const MAX_RADIUS: i32 = 30000;

/// Full turns the spiral makes from center to edge.
pub const SPIRAL_TURNS: u32 = 40;

/// Fixed-point unit of the sine table: sine 1 is this value.
pub const UNIT: i32 = 32767;

/// Sine of 0, 1, ..., 90 degrees in units of `UNIT`, rounded to nearest.
#[verifier::opaque]
pub open spec fn quarter_sine() -> Seq<i32> {
    seq![
        0, 572, 1144, 1715, 2286, 2856, 3425, 3993, 4560, 5126, 5690, 6252, 6813, 7371, 7927,
        8481, 9032, 9580, 10126, 10668, 11207, 11743, 12275, 12803, 13328, 13848, 14364, 14876,
        15383, 15886, 16383, 16876, 17364, 17846, 18323, 18794, 19260, 19720, 20173, 20621,
        21062, 21497, 21925, 22347, 22762, 23170, 23571, 23964, 24351, 24730, 25101, 25465,
        25821, 26169, 26509, 26841, 27165, 27481, 27788, 28087, 28377, 28659, 28932, 29196,
        29451, 29697, 29934, 30162, 30381, 30591, 30791, 30982, 31163, 31335, 31498, 31650,
        31794, 31927, 32051, 32165, 32269, 32364, 32448, 32523, 32587, 32642, 32687, 32722,
        32747, 32762, 32767,
    ]
}

/// Angle steps in one degree: angles are counted in arc-minutes.
pub const STEPS_PER_DEGREE: u32 = 60;

/// Angle steps in a full turn.
pub const FULL_TURN: u32 = 21600;

/// Sine of `u` arc-minutes, `0 <= u <= 5400`: the table read at whole
/// degrees, linearly interpolated in between.
pub open spec fn quarter_sine_at(u: int) -> int {
    let i = u / (STEPS_PER_DEGREE as int);
    let r = u % (STEPS_PER_DEGREE as int);
    if i >= 90 {
        quarter_sine()[90] as int
    } else {
        quarter_sine()[i] + (quarter_sine()[i + 1] - quarter_sine()[i]) * r / (
        STEPS_PER_DEGREE as int)
    }
}

/// Sine of `u` arc-minutes, `0 <= u < FULL_TURN`, in units of `UNIT`.
pub open spec fn sin_angle(u: int) -> int {
    if u <= 5400 {
        quarter_sine_at(u)
    } else if u <= 10800 {
        quarter_sine_at(10800 - u)
    } else if u <= 16200 {
        -quarter_sine_at(u - 10800)
    } else {
        -quarter_sine_at(21600 - u)
    }
}

/// Cosine of `u` arc-minutes, `0 <= u < FULL_TURN`, in units of `UNIT`.
pub open spec fn cos_angle(u: int) -> int {
    sin_angle((u + 5400) % (FULL_TURN as int))
}

/// `r` is the integer square root of `n`, rounded down.
pub open spec fn is_root(n: int, r: int) -> bool {
    0 <= r && r * r <= n && n < (r + 1) * (r + 1)
}

/// The integer square root of `n >= 0`, rounded down.
pub open spec fn root(n: int) -> int {
    choose|r: int| is_root(n, r)
}

/// Every `n >= 0` has exactly one rounded-down square root.
pub proof fn lemma_root(n: int)
    requires
        n >= 0,
    ensures
        is_root(n, root(n)),
        forall|r: int| is_root(n, r) ==> r == root(n),
    decreases n,
{
    if n == 0 {
        assert(is_root(0, 0));
    } else {
        lemma_root(n - 1);
        let r = root(n - 1);
        if n < (r + 1) * (r + 1) {
            assert(is_root(n, r));
        } else {
            assert((r + 1) * (r + 1) <= n < (r + 2) * (r + 2)) by (nonlinear_arith)
                requires
                    n - 1 < (r + 1) * (r + 1),
                    n >= (r + 1) * (r + 1),
                    r >= 0,
            ;
            assert(is_root(n, r + 1));
        }
    }
    assert forall|r: int| is_root(n, r) implies r == root(n) by {
        let q = root(n);
        if r < q {
            assert((r + 1) * (r + 1) <= q * q) by (nonlinear_arith)
                requires
                    0 <= r + 1 <= q,
            ;
        } else if r > q {
            assert((q + 1) * (q + 1) <= r * r) by (nonlinear_arith)
                requires
                    0 <= q + 1 <= r,
            ;
        }
    }
}

/// Integer square root of `n`, rounded down.
fn isqrt(n: u64) -> (r: u64)
    requires
        n < 0x4000_0000,
    ensures
        r == root(n as int),
        r < 0x8000,
{
    let mut lo: u64 = 0;
    let mut hi: u64 = 0x8000;
    while hi - lo > 1
        invariant
            lo < hi <= 0x8000,
            lo * lo <= n < hi * hi,
        decreases hi - lo,
    {
        let mid = lo + (hi - lo) / 2;
        assert(mid * mid <= 0x8000 * 0x8000) by (nonlinear_arith)
            requires
                mid <= 0x8000,
        ;
        if mid * mid <= n {
            lo = mid;
        } else {
            hi = mid;
        }
    }
    proof {
        assert(hi == lo + 1);
        assert(is_root(n as int, lo as int));
        lemma_root(n as int);
    }
    lo
}

/// A point completed onto a circle: with `|a| <= rho` and `m` the rounded
/// down root of `rho² - a²`, the point `(±m, a)` lies within 1.5 inside the
/// circle of radius `rho` and never outside it.
proof fn lemma_completed(rho: int, a: int, m: int)
    requires
        rho >= 0,
        abs(a) <= rho,
        is_root(rho * rho - a * a, m),
    ensures
        m <= rho,
        m * m + a * a <= rho * rho,
        rho >= 2 ==> (2 * rho - 3) * (2 * rho - 3) <= 4 * (m * m + a * a),
{
    assert(a * a >= 0) by (nonlinear_arith);
    assert(m <= rho) by (nonlinear_arith)
        requires
            m >= 0,
            rho >= 0,
            m * m <= rho * rho - a * a,
            a * a >= 0,
    ;
    if rho >= 2 {
        if m == rho {
            assert(a * a <= 0);
            assert(a * a == 0);
            assert((2 * rho - 3) * (2 * rho - 3) <= 4 * (rho * rho)) by (nonlinear_arith)
                requires
                    rho >= 2,
            ;
        } else {
            assert((2 * rho - 3) * (2 * rho - 3) <= 4 * (m * m + a * a)) by (nonlinear_arith)
                requires
                    rho >= 2,
                    0 <= m <= rho - 1,
                    rho * rho - a * a < (m + 1) * (m + 1),
            ;
        }
    }
}

/// `rho * s / UNIT`, truncated toward zero.
pub open spec fn scale(rho: int, s: int) -> int {
    if s >= 0 {
        rho * s / (UNIT as int)
    } else {
        -(rho * (-s) / (UNIT as int))
    }
}

/// `e * (n - c) / n`, truncated toward zero: `e` moved linearly toward 0,
/// reaching it at `c == n`.
pub open spec fn interp(e: int, c: int, n: int) -> int {
    if e >= 0 {
        e * (n - c) / n
    } else {
        -((-e) * (n - c) / n)
    }
}

/// The quarter-wave sine table as a vector.
fn sine_table() -> (r: Vec<i32>)
    ensures
        r@ == quarter_sine(),
{
    let t: Vec<i32> = vec![
        0, 572, 1144, 1715, 2286, 2856, 3425, 3993, 4560, 5126, 5690, 6252, 6813, 7371, 7927,
        8481, 9032, 9580, 10126, 10668, 11207, 11743, 12275, 12803, 13328, 13848, 14364,
        14876, 15383, 15886, 16383, 16876, 17364, 17846, 18323, 18794, 19260, 19720, 20173,
        20621, 21062, 21497, 21925, 22347, 22762, 23170, 23571, 23964, 24351, 24730, 25101,
        25465, 25821, 26169, 26509, 26841, 27165, 27481, 27788, 28087, 28377, 28659, 28932,
        29196, 29451, 29697, 29934, 30162, 30381, 30591, 30791, 30982, 31163, 31335, 31498,
        31650, 31794, 31927, 32051, 32165, 32269, 32364, 32448, 32523, 32587, 32642, 32687,
        32722, 32747, 32762, 32767,
    ];
    reveal(quarter_sine);
    assert(t@ =~= quarter_sine());
    t
}

/// Geometry of the drawn cycle: an outward spiral of `spiral_length`
/// samples, then `blanking_length` samples back to the center.
pub struct SpiralPath {
    pub spiral_length: i32,
    pub blanking_length: i32,
    pub max_radius: i32,
    pub turns: u32,
    pub sine: Vec<i32>,
}

impl SpiralPath {
    pub open spec fn wf(&self) -> bool {
        &&& self.spiral_length > 0
        &&& self.blanking_length > 0
        &&& self.spiral_length + self.blanking_length <= i32::MAX
        &&& 0 <= self.max_radius <= UNIT
        &&& self.sine@ == quarter_sine()
    }

    /// Samples in one full cycle.
    pub open spec fn cycle(&self) -> int {
        self.spiral_length + self.blanking_length
    }

    /// Distance from the center at spiral sample `f`: grows linearly from 0.
    pub open spec fn radius(&self, f: int) -> int {
        self.max_radius * f / (self.spiral_length as int)
    }

    /// Direction of spiral sample `f`, in whole arc-minutes.
    pub open spec fn angle(&self, f: int) -> int {
        (f * self.turns * FULL_TURN / (self.spiral_length as int)) % (FULL_TURN as int)
    }

    /// Position of spiral sample `f`, `0 <= f <= spiral_length`.
    /// The coordinate whose direction component is the smaller is read from
    /// the sine table; the other is completed so that the point lies on the
    /// circle of radius `radius(f)`, rounded inward.
    pub open spec fn spiral_point(&self, f: int) -> (int, int) {
        let rho = self.radius(f);
        let c = cos_angle(self.angle(f));
        let s = sin_angle(self.angle(f));
        if abs(s) <= abs(c) {
            let y = scale(rho, s);
            let m = root(rho * rho - y * y);
            (if c >= 0 {
                m
            } else {
                -m
            }, y)
        } else {
            let x = scale(rho, c);
            let m = root(rho * rho - x * x);
            (x, if s >= 0 {
                m
            } else {
                -m
            })
        }
    }

    /// Position of retrace sample `c`, `0 <= c <= blanking_length`: the
    /// spiral's outer end moved linearly toward the center.
    pub open spec fn blanking_point(&self, c: int) -> (int, int) {
        let end = self.spiral_point(self.spiral_length as int);
        (
            interp(end.0, c, self.blanking_length as int),
            interp(end.1, c, self.blanking_length as int),
        )
    }

    /// A path; `None` unless both lengths are positive, their sum fits an
    /// `i32` and the radius is within `0..=UNIT`.
    pub fn new(spiral_length: i32, blanking_length: i32, max_radius: i32, turns: u32) -> (r:
        Option<SpiralPath>)
        ensures
            r.is_some() <==> (spiral_length > 0 && blanking_length > 0 && spiral_length
                + blanking_length <= i32::MAX && 0 <= max_radius <= UNIT),
            r matches Some(p) ==> p.wf() && p.spiral_length == spiral_length && p.blanking_length
                == blanking_length && p.max_radius == max_radius && p.turns == turns,
    {
        if spiral_length <= 0 || blanking_length <= 0 || max_radius < 0 || max_radius > UNIT {
            return None;
        }
        if spiral_length > i32::MAX - blanking_length {
            return None;
        }
        let sine = sine_table();
        Some(SpiralPath { spiral_length, blanking_length, max_radius, turns, sine })
    }

    /// The path drawn by default: 1500 spiral samples of radius up to 30000
    /// over 40 turns, and 20 retrace samples.
    pub fn default_path() -> (r: SpiralPath)
        ensures
            r.wf(),
            r.spiral_length == SPIRAL_POINTS,
            r.blanking_length == BLANKING_POINTS,
            r.max_radius == MAX_RADIUS,
            r.turns == SPIRAL_TURNS,
    {
        SpiralPath {
            spiral_length: SPIRAL_POINTS,
            blanking_length: BLANKING_POINTS,
            max_radius: MAX_RADIUS,
            turns: SPIRAL_TURNS,
            sine: sine_table(),
        }
    }
}

/// Every table entry lies in `0..=UNIT`, and the entries never decrease.
proof fn lemma_sine_bounds()
    ensures
        quarter_sine().len() == 91,
        forall|i: int| 0 <= i < 91 ==> 0 <= #[trigger] quarter_sine()[i] <= UNIT,
        forall|i: int| 0 <= i < 90 ==> #[trigger] quarter_sine()[i] <= quarter_sine()[i + 1],
{
    reveal(quarter_sine);
    assert(quarter_sine().len() == 91);
}

/// Sine of `u` arc-minutes, `0 <= u <= 5400`, from the table.
fn quarter_sine_exec(sine: &Vec<i32>, u: u32) -> (r: i32)
    requires
        sine@ == quarter_sine(),
        u <= 5400,
    ensures
        r == quarter_sine_at(u as int),
        0 <= r <= UNIT,
{
    proof {
        lemma_sine_bounds();
    }
    let i = u / STEPS_PER_DEGREE;
    let rem = u % STEPS_PER_DEGREE;
    if i >= 90 {
        sine[90]
    } else {
        let lo = sine[i as usize];
        let hi = sine[(i + 1) as usize];
        assert(0 <= (hi - lo) * rem / 60 <= hi - lo) by (nonlinear_arith)
            requires
                lo <= hi,
                0 <= rem < 60,
        ;
        lo + (hi - lo) * (rem as i32) / (STEPS_PER_DEGREE as i32)
    }
}

/// Sine of `u` arc-minutes, `0 <= u < FULL_TURN`, from the table.
fn sin_at(sine: &Vec<i32>, u: u32) -> (r: i32)
    requires
        sine@ == quarter_sine(),
        u < FULL_TURN,
    ensures
        r == sin_angle(u as int),
        -UNIT <= r <= UNIT,
{
    if u <= 5400 {
        quarter_sine_exec(sine, u)
    } else if u <= 10800 {
        quarter_sine_exec(sine, 10800 - u)
    } else if u <= 16200 {
        -quarter_sine_exec(sine, u - 10800)
    } else {
        -quarter_sine_exec(sine, 21600 - u)
    }
}

/// `rho * s / UNIT`, truncated toward zero; its size never exceeds `rho`.
fn scale_exec(rho: i32, s: i32) -> (r: i16)
    requires
        0 <= rho <= UNIT,
        -UNIT <= s <= UNIT,
    ensures
        r as int == scale(rho as int, s as int),
        abs(r as int) <= rho,
{
    let a: i32 = if s >= 0 {
        s
    } else {
        -s
    };
    assert(0 <= rho * a <= UNIT * UNIT) by (nonlinear_arith)
        requires
            0 <= rho <= UNIT,
            0 <= a <= UNIT,
    ;
    assert(rho * a / (UNIT as int) <= rho) by (nonlinear_arith)
        requires
            0 <= rho <= UNIT,
            0 <= a <= UNIT,
    ;
    let m: i32 = rho * a / UNIT;
    if s >= 0 {
        m as i16
    } else {
        -(m as i16)
    }
}

/// Position of spiral sample `cursor`; `cursor == spiral_length` gives the
/// spiral's outer end.
pub fn get_spiral_point(path: &SpiralPath, cursor: i32) -> (r: (i16, i16))
    requires
        path.wf(),
        0 <= cursor <= path.spiral_length,
    ensures
        (r.0 as int, r.1 as int) == path.spiral_point(cursor as int),
{
    let len = path.spiral_length as i64;
    assert(0 <= path.max_radius * cursor <= UNIT * i32::MAX) by (nonlinear_arith)
        requires
            0 <= path.max_radius <= UNIT,
            0 <= cursor <= i32::MAX,
    ;
    assert(path.max_radius * cursor / (len as int) <= path.max_radius) by (nonlinear_arith)
        requires
            0 <= path.max_radius,
            0 <= cursor <= len,
            len > 0,
    ;
    let rho: i32 = ((path.max_radius as i64) * (cursor as i64) / len) as i32;
    assert(cursor * path.turns * FULL_TURN <= i32::MAX * u32::MAX * FULL_TURN) by (nonlinear_arith)
        requires
            0 <= cursor <= i32::MAX,
            0 <= path.turns <= u32::MAX,
    ;
    assert(cursor * path.turns >= 0) by (nonlinear_arith)
        requires
            0 <= cursor,
            0 <= path.turns,
    ;
    let turned: u128 = (cursor as u128) * (path.turns as u128) * (FULL_TURN as u128);
    let deg: u32 = (turned / (len as u128) % (FULL_TURN as u128)) as u32;
    let c = sin_at(&path.sine, (deg + 5400) % FULL_TURN);
    let s = sin_at(&path.sine, deg);
    let abs_c = if c >= 0 { c } else { -c };
    let abs_s = if s >= 0 { s } else { -s };
    assert(0 <= rho * rho <= UNIT * UNIT) by (nonlinear_arith)
        requires
            0 <= rho <= UNIT,
    ;
    if abs_s <= abs_c {
        let y = scale_exec(rho, s);
        proof {
            assert(0 <= y * y <= rho * rho) by (nonlinear_arith)
                requires
                    abs(y as int) <= rho,
            ;
        }
        let r2: i64 = (rho as i64) * (rho as i64);
        let y2: i64 = (y as i64) * (y as i64);
        let rest: u64 = (r2 - y2) as u64;
        proof {
            lemma_root(rest as int);
            lemma_completed(rho as int, y as int, root(rest as int));
        }
        let m = isqrt(rest) as i16;
        (if c >= 0 { m } else { -m }, y)
    } else {
        let x = scale_exec(rho, c);
        proof {
            assert(0 <= x * x <= rho * rho) by (nonlinear_arith)
                requires
                    abs(x as int) <= rho,
            ;
        }
        let r2: i64 = (rho as i64) * (rho as i64);
        let x2: i64 = (x as i64) * (x as i64);
        let rest: u64 = (r2 - x2) as u64;
        proof {
            lemma_root(rest as int);
            lemma_completed(rho as int, x as int, root(rest as int));
        }
        let m = isqrt(rest) as i16;
        (x, if s >= 0 { m } else { -m })
    }
}

/// `e * (n - c) / n`, truncated toward zero.
fn interp_exec(e: i16, c: i32, n: i32) -> (r: i16)
    requires
        0 <= c <= n,
        n > 0,
    ensures
        r as int == interp(e as int, c as int, n as int),
{
    let a: i64 = if e >= 0 {
        e as i64
    } else {
        -(e as i64)
    };
    assert(0 <= a * (n - c) <= 32768 * i32::MAX) by (nonlinear_arith)
        requires
            0 <= a <= 32768,
            0 <= n - c <= i32::MAX,
    ;
    assert(a * (n - c) / (n as int) <= a) by (nonlinear_arith)
        requires
            0 <= a,
            0 <= n - c <= n,
            n > 0,
    ;
    let m: i64 = a * ((n - c) as i64) / (n as i64);
    if e >= 0 {
        m as i16
    } else {
        (-m) as i16
    }
}

/// Position of retrace sample `cursor`: from the spiral's outer end back
/// toward the center, in equal steps; `cursor == blanking_length` is the
/// center itself.
pub fn get_blanking_point(path: &SpiralPath, cursor: i32) -> (r: (i16, i16))
    requires
        path.wf(),
        0 <= cursor <= path.blanking_length,
    ensures
        (r.0 as int, r.1 as int) == path.blanking_point(cursor as int),
{
    let (end_x, end_y) = get_spiral_point(path, path.spiral_length);
    (
        interp_exec(end_x, cursor, path.blanking_length),
        interp_exec(end_y, cursor, path.blanking_length),
    )
}

/// Position within the cycle of a path: `0 <= position < cycle`.
#[derive(Clone, Copy, Debug, PartialEq, Eq, Structural)]
pub struct PathCursor {
    pub position: i32,
}

/// The position after `n` advances from `p`.
pub open spec fn advances(path: &SpiralPath, p: int, n: nat) -> int
    decreases n,
{
    if n == 0 {
        p
    } else {
        advances(path, (p + 1) % path.cycle(), (n - 1) as nat)
    }
}

impl PathCursor {
    pub open spec fn wf(&self, path: &SpiralPath) -> bool {
        0 <= self.position < path.cycle()
    }

    /// The start of the spiral.
    pub fn start() -> (r: PathCursor)
        ensures
            r.position == 0,
    {
        PathCursor { position: 0 }
    }

    /// Moves one sample on, wrapping at the end of the cycle.
    pub fn advance(&mut self, path: &SpiralPath)
        requires
            path.wf(),
            old(self).wf(path),
        ensures
            final(self).wf(path),
            final(self).position == (old(self).position + 1) % path.cycle(),
            final(self).position == advances(path, old(self).position as int, 1),
    {
        let total = path.spiral_length + path.blanking_length;
        self.position = (self.position + 1) % total;
        proof {
            reveal_with_fuel(advances, 2);
        }
    }
}

/// After `n` advances the cursor stands `n` places on, modulo the cycle.
pub proof fn lemma_advances(path: &SpiralPath, p: int, n: nat)
    requires
        path.wf(),
        0 <= p < path.cycle(),
    ensures
        advances(path, p, n) == (p + n) % path.cycle(),
    decreases n,
{
    if n > 0 {
        let q = (p + 1) % path.cycle();
        assert(advances(path, p, n) == advances(path, q, (n - 1) as nat));
        lemma_advances(path, q, (n - 1) as nat);
        if p + 1 == path.cycle() {
            lemma_mod_self_0(path.cycle());
            lemma_mod_add_multiples_vanish((n - 1) as int, path.cycle());
            assert(p + n == path.cycle() + (n - 1));
        } else {
            lemma_small_mod((p + 1) as nat, path.cycle() as nat);
        }
    } else {
        lemma_small_mod(p as nat, path.cycle() as nat);
    }
}

/// The cursor is periodic: a whole cycle of advances brings it back to
/// where it stood.
pub proof fn lemma_cursor_periodic(path: &SpiralPath, p: int, n: nat)
    requires
        path.wf(),
        0 <= p < path.cycle(),
    ensures
        advances(path, p, n + path.cycle() as nat) == advances(path, p, n),
        advances(path, p, path.cycle() as nat) == p,
{
    lemma_advances(path, p, n);
    lemma_advances(path, p, n + path.cycle() as nat);
    lemma_advances(path, p, path.cycle() as nat);
    lemma_mod_add_multiples_vanish(p + n, path.cycle());
    lemma_mod_add_multiples_vanish(p, path.cycle());
    lemma_small_mod(p as nat, path.cycle() as nat);
    assert(p + n + path.cycle() == path.cycle() + (p + n));
}

/// The spiral's radius starts at 0, never shrinks as the cursor moves on,
/// and its last sample lies within `max_radius / spiral_length + 1` of
/// `max_radius`.
pub proof fn lemma_radius_grows(path: &SpiralPath, f1: int, f2: int)
    requires
        path.wf(),
        0 <= f1 <= f2 <= path.spiral_length,
    ensures
        path.radius(0) == 0,
        path.radius(f1) <= path.radius(f2),
        path.radius(path.spiral_length - 1) + (path.max_radius as int) / (path.spiral_length as int) + 1
            >= path.max_radius,
        path.radius(path.spiral_length as int) == path.max_radius,
{
    let r = path.max_radius as int;
    let l = path.spiral_length as int;
    assert(r * f1 / l <= r * f2 / l) by (nonlinear_arith)
        requires
            0 <= f1 <= f2,
            r >= 0,
            l > 0,
    ;
    assert(r * (l - 1) / l + r / l + 1 >= r) by (nonlinear_arith)
        requires
            r >= 0,
            l > 0,
    ;
    assert(r * l / l == r) by (nonlinear_arith)
        requires
            l > 0,
    ;
}

/// The retrace never moves away from the center: each retrace sample lies
/// no farther out on either axis than the one before, the first is the
/// spiral's outer end, and sample `c` has moved `c / blanking_length` of
/// the way to the center, arriving there at `c == blanking_length`.
pub proof fn lemma_retrace_converges(path: &SpiralPath, c1: int, c2: int)
    requires
        path.wf(),
        0 <= c1 <= c2 <= path.blanking_length,
    ensures
        path.blanking_point(0) == path.spiral_point(path.spiral_length as int),
        path.blanking_point(path.blanking_length as int) == (0int, 0int),
        abs(path.blanking_point(c2).0) <= abs(path.blanking_point(c1).0),
        abs(path.blanking_point(c2).1) <= abs(path.blanking_point(c1).1),
{
    let n = path.blanking_length as int;
    let end = path.spiral_point(path.spiral_length as int);
    lemma_interp_shrinks(end.0, c1, c2, n);
    lemma_interp_shrinks(end.1, c1, c2, n);
    lemma_interp_shrinks(end.0, n, n, n);
    lemma_interp_shrinks(end.1, n, n, n);
}

/// The retrace moves in equal steps: between consecutive samples each
/// coordinate changes by the outer end's coordinate divided by
/// `blanking_length`, up to less than one unit of truncation.
pub proof fn lemma_retrace_steps_evenly(path: &SpiralPath, c: int)
    requires
        path.wf(),
        0 <= c < path.blanking_length,
    ensures
        ({
            let n = path.blanking_length as int;
            let end = path.spiral_point(path.spiral_length as int);
            let p = path.blanking_point(c);
            let q = path.blanking_point(c + 1);
            &&& abs(n * (p.0 - q.0) - end.0) < n
            &&& abs(n * (p.1 - q.1) - end.1) < n
        }),
{
    let n = path.blanking_length as int;
    let end = path.spiral_point(path.spiral_length as int);
    lemma_interp_step(end.0, c, n);
    lemma_interp_step(end.1, c, n);
}

proof fn lemma_interp_step(e: int, c: int, n: int)
    requires
        0 <= c < n,
    ensures
        abs(n * (interp(e, c, n) - interp(e, c + 1, n)) - e) < n,
{
    let a = abs(e);
    let x1 = a * (n - c);
    let x2 = a * (n - c - 1);
    lemma_fundamental_div_mod(x1, n);
    lemma_fundamental_div_mod(x2, n);
    lemma_mod_bound(x1, n);
    lemma_mod_bound(x2, n);
    assert(x1 == x2 + a) by (nonlinear_arith)
        requires
            x1 == a * (n - c),
            x2 == a * (n - c - 1),
    ;
    let q1 = x1 / n;
    let q2 = x2 / n;
    assert(n * (q1 - q2) == a - x1 % n + x2 % n) by (nonlinear_arith)
        requires
            x1 == n * q1 + x1 % n,
            x2 == n * q2 + x2 % n,
            x1 == x2 + a,
    ;
    let r1 = x1 % n;
    let r2 = x2 % n;
    assert(0 <= r1 < n && 0 <= r2 < n);
    if e >= 0 {
        assert(interp(e, c, n) == q1);
        assert(interp(e, c + 1, n) == q2);
        assert(n * (q1 - q2) - e == r2 - r1);
    } else {
        assert(interp(e, c, n) == -q1);
        assert(interp(e, c + 1, n) == -q2);
        assert(n * (-q1 - (-q2)) == -(n * (q1 - q2))) by (nonlinear_arith);
        assert(n * (-q1 - (-q2)) - e == r1 - r2);
    }
}

proof fn lemma_interp_shrinks(e: int, c1: int, c2: int, n: int)
    requires
        0 <= c1 <= c2 <= n,
        n > 0,
    ensures
        interp(e, 0, n) == e,
        abs(interp(e, c2, n)) <= abs(interp(e, c1, n)),
{
    let a = abs(e);
    assert(a * (n - c2) / n <= a * (n - c1) / n) by (nonlinear_arith)
        requires
            a >= 0,
            0 <= c1 <= c2 <= n,
            n > 0,
    ;
    assert(a * n / n == a) by (nonlinear_arith)
        requires
            n > 0,
    ;
    assert(a * (n - c2) / n >= 0) by (nonlinear_arith)
        requires
            a >= 0,
            c2 <= n,
            n > 0,
    ;
    assert(a * (n - c1) / n >= 0) by (nonlinear_arith)
        requires
            a >= 0,
            c1 <= n,
            n > 0,
    ;
}

/// The interpolated quarter sine stays within `0..=UNIT`.
proof fn lemma_quarter_sine_at_bounds(u: int)
    requires
        0 <= u <= 5400,
    ensures
        0 <= quarter_sine_at(u) <= UNIT,
{
    lemma_sine_bounds();
    let i = u / (STEPS_PER_DEGREE as int);
    let r = u % (STEPS_PER_DEGREE as int);
    if i < 90 {
        let lo = quarter_sine()[i] as int;
        let hi = quarter_sine()[i + 1] as int;
        assert(0 <= (hi - lo) * r / 60 <= hi - lo) by (nonlinear_arith)
            requires
                lo <= hi,
                0 <= r < 60,
        ;
    }
}

/// Sine and cosine from the table stay within `-UNIT..=UNIT`.
proof fn lemma_trig_bounds(u: int)
    requires
        0 <= u < FULL_TURN,
    ensures
        abs(sin_angle(u)) <= UNIT,
        abs(cos_angle(u)) <= UNIT,
{
    let v = (u + 5400) % (FULL_TURN as int);
    if u <= 5400 {
        lemma_quarter_sine_at_bounds(u);
    } else if u <= 10800 {
        lemma_quarter_sine_at_bounds(10800 - u);
    } else if u <= 16200 {
        lemma_quarter_sine_at_bounds(u - 10800);
    } else {
        lemma_quarter_sine_at_bounds(21600 - u);
    }
    if v <= 5400 {
        lemma_quarter_sine_at_bounds(v);
    } else if v <= 10800 {
        lemma_quarter_sine_at_bounds(10800 - v);
    } else if v <= 16200 {
        lemma_quarter_sine_at_bounds(v - 10800);
    } else {
        lemma_quarter_sine_at_bounds(21600 - v);
    }
}

/// Scaling by a table value never exceeds the radius.
proof fn lemma_scale_bound(rho: int, s: int)
    requires
        rho >= 0,
        abs(s) <= UNIT,
    ensures
        abs(scale(rho, s)) <= rho,
{
    let a = abs(s);
    assert(0 <= rho * a / (UNIT as int) <= rho) by (nonlinear_arith)
        requires
            rho >= 0,
            0 <= a <= UNIT,
    ;
}

/// Each spiral point lies on the circle of the spiral's radius, rounded
/// inward by less than 1.5 device units: its distance `d` from the center
/// satisfies `radius - 1.5 <= d <= radius`, written here without roots.
/// Both coordinates stay within the radius, hence within `max_radius`.
pub proof fn lemma_spiral_near_circle(path: &SpiralPath, f: int)
    requires
        path.wf(),
        0 <= f <= path.spiral_length,
    ensures
        ({
            let (x, y) = path.spiral_point(f);
            let rho = path.radius(f);
            &&& 0 <= rho <= path.max_radius
            &&& abs(x) <= rho && abs(y) <= rho
            &&& x * x + y * y <= rho * rho
            &&& rho >= 2 ==> (2 * rho - 3) * (2 * rho - 3) <= 4 * (x * x + y * y)
        }),
{
    let rho = path.radius(f);
    let l = path.spiral_length as int;
    assert(0 <= path.max_radius * f / l <= path.max_radius) by (nonlinear_arith)
        requires
            0 <= path.max_radius,
            0 <= f <= l,
            l > 0,
    ;
    let a = path.angle(f);
    assert(0 <= f * path.turns * FULL_TURN) by (nonlinear_arith)
        requires
            0 <= f,
            0 <= path.turns,
    ;
    assert(0 <= a < FULL_TURN);
    lemma_trig_bounds(a);
    let c = cos_angle(a);
    let s = sin_angle(a);
    if abs(s) <= abs(c) {
        let y = scale(rho, s);
        lemma_scale_bound(rho, s);
        assert(0 <= y * y <= rho * rho) by (nonlinear_arith)
            requires
                abs(y) <= rho,
        ;
        let m = root(rho * rho - y * y);
        lemma_root(rho * rho - y * y);
        lemma_completed(rho, y, m);
        let x = if c >= 0 {
            m
        } else {
            -m
        };
        assert(path.spiral_point(f) == (x, y));
        assert((-m) * (-m) == m * m) by (nonlinear_arith);
        assert(x * x == m * m);
    } else {
        let x = scale(rho, c);
        lemma_scale_bound(rho, c);
        assert(0 <= x * x <= rho * rho) by (nonlinear_arith)
            requires
                abs(x) <= rho,
        ;
        let m = root(rho * rho - x * x);
        lemma_root(rho * rho - x * x);
        lemma_completed(rho, x, m);
        let y = if s >= 0 {
            m
        } else {
            -m
        };
        assert(path.spiral_point(f) == (x, y));
        assert((-m) * (-m) == m * m) by (nonlinear_arith);
        assert(y * y == m * m);
    }
}

/// The spiral moves outward: where the radius has grown by at least 2, the
/// point lies strictly farther from the center. With the default path the
/// radius grows by 20 per sample, so every step moves outward, by 20 units
/// give or take 1.5.
pub proof fn lemma_spiral_moves_outward(path: &SpiralPath, f1: int, f2: int)
    requires
        path.wf(),
        0 <= f1 <= path.spiral_length,
        0 <= f2 <= path.spiral_length,
        path.radius(f2) >= path.radius(f1) + 2,
    ensures
        ({
            let (x1, y1) = path.spiral_point(f1);
            let (x2, y2) = path.spiral_point(f2);
            x1 * x1 + y1 * y1 < x2 * x2 + y2 * y2
        }),
{
    lemma_spiral_near_circle(path, f1);
    lemma_spiral_near_circle(path, f2);
    let (x1, y1) = path.spiral_point(f1);
    let (x2, y2) = path.spiral_point(f2);
    let r1 = path.radius(f1);
    let r2 = path.radius(f2);
    assert(4 * (r1 * r1) < (2 * r2 - 3) * (2 * r2 - 3)) by (nonlinear_arith)
        requires
            r1 >= 0,
            r2 >= r1 + 2,
    ;
}

} // verus!
