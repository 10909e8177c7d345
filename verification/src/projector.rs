//! The raycast projector: walks rays outward in growing distance steps,
//! samples the terrain along a perpendicular scan line per distance, projects
//! sampled heights to screen rows, and emits the visible slivers.
//!
//! All geometry is fixed-point integer arithmetic. The heading's sine and
//! cosine arrive scaled by `TRIG_ONE`; distances are counted in tenths of a
//! world unit; scan-line positions carry `FX_ONE` sub-unit steps. Divisions
//! truncate toward zero, as a float-to-integer conversion would.

use vstd::prelude::*;
use vstd::arithmetic::div_mod::{
    lemma_div_is_ordered_by_denominator, lemma_div_nonincreasing, lemma_div_pos_is_pos,
};
use crate::terrain::{Rgb, TerrainStore};
use crate::frame::{FrameEmitter, Segment};
use crate::horizon::HorizonBuffer;

verus! {

/// Farthest sample distance, in tenths of a world unit (seven hundred units).
pub const FAR_TENTHS: u32 = 7000;

/// First sample distance, in tenths of a world unit (one unit).
pub const START_TENTHS: u32 = 10;

/// Fixed-point scale of the heading's sine and cosine.
pub const TRIG_ONE: i64 = 1024;

/// Sub-unit scale of scan-line positions: `TRIG_ONE` times the ten tenths of
/// a distance unit.
pub const FX_ONE: i64 = 10240;

/// Projection numerator scale: the vertical exaggeration constant of one
/// thousand, times ten to cancel the tenth-unit distance denominator.
pub const PROJ_NUM: i64 = 10000;

/// Largest world coordinate and eye height the projector accepts; keeps all
/// fixed-point products inside 64 bits.
pub const COORD_LIMIT: i64 = 1_000_000_000_000;

/// Largest screen dimension the projector accepts.
pub const MAX_SCREEN_DIM: u32 = 16384;

/// Everything the projector reads for one frame: the heading's sine and
/// cosine scaled by `TRIG_ONE`, the viewer's position and eye height, and the
/// screen dimensions.
#[derive(Clone, Copy, PartialEq, Eq, Structural, Debug)]
pub struct ViewParams {
    pub sin_q: i64,
    pub cos_q: i64,
    pub origin_x: i64,
    pub origin_y: i64,
    pub eye_height: i64,
    pub screen_w: u32,
    pub screen_h: u32,
}

impl ViewParams {
    /// Bounds that keep every intermediate product inside 64 bits.
    pub open spec fn wf(self) -> bool {
        &&& -TRIG_ONE <= self.sin_q <= TRIG_ONE
        &&& -TRIG_ONE <= self.cos_q <= TRIG_ONE
        &&& -COORD_LIMIT <= self.origin_x <= COORD_LIMIT
        &&& -COORD_LIMIT <= self.origin_y <= COORD_LIMIT
        &&& -COORD_LIMIT <= self.eye_height <= COORD_LIMIT
        &&& 1 <= self.screen_w <= MAX_SCREEN_DIM
        &&& 1 <= self.screen_h <= MAX_SCREEN_DIM
    }
}

/// Integer division truncating toward zero (for a positive divisor).
pub open spec fn div_trunc_spec(a: int, b: int) -> int {
    if a >= 0 {
        a / b
    } else {
        -((-a) / b)
    }
}

/// Truncating division of 64-bit values by a positive divisor.
fn div_trunc(a: i64, b: i64) -> (q: i64)
    requires
        1 <= b,
        i64::MIN < a,
    ensures
        q == div_trunc_spec(a as int, b as int),
        a >= 0 ==> 0 <= q <= a,
        a < 0 ==> a <= q <= 0,
{
    if a >= 0 {
        let q64: u64 = (a as u64) / (b as u64);
        proof {
            lemma_div_nonincreasing(a as int, b as int);
            lemma_div_pos_is_pos(a as int, b as int);
        }
        q64 as i64
    } else {
        let mag: u64 = (-a) as u64;
        let q64: u64 = mag / (b as u64);
        proof {
            lemma_div_nonincreasing(mag as int, b as int);
            lemma_div_pos_is_pos(mag as int, b as int);
        }
        -(q64 as i64)
    }
}

/// World x of the scan line's left endpoint at distance `d` tenths, in
/// `FX_ONE` sub-units.
pub open spec fn left_x_fx(p: ViewParams, d: int) -> int {
    (-p.cos_q - p.sin_q) * d + p.origin_x * FX_ONE
}

/// World y of the scan line's left endpoint.
pub open spec fn left_y_fx(p: ViewParams, d: int) -> int {
    (p.sin_q - p.cos_q) * d + p.origin_y * FX_ONE
}

/// World x of the scan line's right endpoint.
pub open spec fn right_x_fx(p: ViewParams, d: int) -> int {
    (p.cos_q - p.sin_q) * d + p.origin_x * FX_ONE
}

/// World y of the scan line's right endpoint.
pub open spec fn right_y_fx(p: ViewParams, d: int) -> int {
    (-p.sin_q - p.cos_q) * d + p.origin_y * FX_ONE
}

/// Per-column x step across the scan line.
pub open spec fn step_x_fx(p: ViewParams, d: int) -> int {
    div_trunc_spec(right_x_fx(p, d) - left_x_fx(p, d), p.screen_w as int)
}

/// Per-column y step across the scan line.
pub open spec fn step_y_fx(p: ViewParams, d: int) -> int {
    div_trunc_spec(right_y_fx(p, d) - left_y_fx(p, d), p.screen_w as int)
}

/// Fixed-point x position sampled for column `i`.
pub open spec fn col_x_fx(p: ViewParams, d: int, i: int) -> int {
    left_x_fx(p, d) + i * step_x_fx(p, d)
}

/// Fixed-point y position sampled for column `i`.
pub open spec fn col_y_fx(p: ViewParams, d: int, i: int) -> int {
    left_y_fx(p, d) + i * step_y_fx(p, d)
}

/// Integer world x sampled for column `i` (fixed point truncated toward
/// zero).
pub open spec fn world_x_at(p: ViewParams, d: int, i: int) -> int {
    div_trunc_spec(col_x_fx(p, d, i), FX_ONE as int)
}

/// Integer world y sampled for column `i`.
pub open spec fn world_y_at(p: ViewParams, d: int, i: int) -> int {
    div_trunc_spec(col_y_fx(p, d, i), FX_ONE as int)
}

/// The terrain height sampled for column `i` at distance `d`.
pub open spec fn sample_height_at(t: TerrainStore, p: ViewParams, d: int, i: int) -> u8 {
    t.sample_height_spec(world_x_at(p, d, i), world_y_at(p, d, i))
}

/// The terrain color sampled for column `i` at distance `d`.
pub open spec fn sample_color_at(t: TerrainStore, p: ViewParams, d: int, i: int) -> Rgb {
    t.sample_color_spec(world_x_at(p, d, i), world_y_at(p, d, i))
}

/// Unclamped perspective projection: eye height above the sample, divided by
/// the distance, scaled.
pub open spec fn raw_proj(p: ViewParams, sample: u8, d: int) -> int {
    div_trunc_spec((p.eye_height - sample) * PROJ_NUM, d)
}

/// Clamps a projected row onto the screen: values past the bottom clamp to
/// the screen height, values at or above the top clamp to row one so the
/// drawn segment stays non-degenerate.
pub open spec fn clamp_proj(p: ViewParams, v: int) -> u32 {
    if v > p.screen_h {
        p.screen_h
    } else if v <= 0 {
        1u32
    } else {
        v as u32
    }
}

/// The projected screen row of column `i` at distance `d`.
pub open spec fn proj_at(t: TerrainStore, p: ViewParams, d: int, i: int) -> u32 {
    clamp_proj(p, raw_proj(p, sample_height_at(t, p, d, i), d))
}

/// One scan line, columns `0..n`, threaded through the horizon buffer:
/// returns the segments emitted and the buffer afterwards. A column emits —
/// a sliver from its projected row down to its previous horizon — exactly
/// when its projection passes the occlusion test, and only then does its
/// horizon entry move up.
pub open spec fn sweep_spec(
    t: TerrainStore,
    p: ViewParams,
    d: int,
    n: int,
    buf: Seq<u32>,
) -> (Seq<Segment>, Seq<u32>)
    decreases n,
{
    if n <= 0 {
        (Seq::<Segment>::empty(), buf)
    } else {
        let prev = sweep_spec(t, p, d, n - 1, buf);
        let c = n - 1;
        let pj = proj_at(t, p, d, c);
        if pj < prev.1[c] {
            (
                prev.0.push(
                    Segment {
                        column: c as u32,
                        y_top: pj,
                        y_bottom: prev.1[c],
                        color: sample_color_at(t, p, d, c),
                    },
                ),
                prev.1.update(c, pj),
            )
        } else {
            prev
        }
    }
}

/// The whole frame from distance `d` on: one scan line per distance step,
/// the step growing by one tenth each time, until the far limit.
pub open spec fn render_spec(
    t: TerrainStore,
    p: ViewParams,
    d: int,
    dz: int,
    buf: Seq<u32>,
) -> (Seq<Segment>, Seq<u32>)
    decreases (if d < FAR_TENTHS { FAR_TENTHS - d } else { 0int }),
{
    if d >= FAR_TENTHS || dz < 1 {
        (Seq::<Segment>::empty(), buf)
    } else {
        let line = sweep_spec(t, p, d, p.screen_w as int, buf);
        let rest = render_spec(t, p, d + dz, dz + 1, line.1);
        (line.0 + rest.0, rest.1)
    }
}

/// The horizon buffer a frame starts from: one entry per column, all at the
/// bottom of the screen.
pub open spec fn init_horizon(p: ViewParams) -> Seq<u32> {
    Seq::new(p.screen_w as nat, |i: int| p.screen_h)
}

/// Largest magnitude of a per-column scan-line step: two trig units times
/// the far distance.
const STEP_LIMIT: i64 = 28_672_000;

/// Largest magnitude of a scan-line endpoint: the origin bound in `FX_ONE`
/// sub-units plus one step limit.
const EDGE_LIMIT: i64 = 10_240_000_100_000_000;

proof fn lemma_mul_abs_bound(x: int, y: int, xb: int, yb: int)
    requires
        -xb <= x <= xb,
        0 <= y <= yb,
    ensures
        -(xb * yb) <= x * y <= xb * yb,
{
    assert(-(xb * yb) <= x * y <= xb * yb) by (nonlinear_arith)
        requires
            -xb <= x <= xb,
            0 <= y <= yb,
    ;
}

/// A scan line only ever lowers horizon entries, and never changes how many
/// there are.
pub proof fn lemma_sweep_horizon(t: TerrainStore, p: ViewParams, d: int, n: int, buf: Seq<u32>)
    requires
        n <= buf.len(),
    ensures
        sweep_spec(t, p, d, n, buf).1.len() == buf.len(),
        forall|c: int| 0 <= c < buf.len() ==> sweep_spec(t, p, d, n, buf).1[c] <= buf[c],
    decreases n,
{
    if n <= 0 {
    } else {
        lemma_sweep_horizon(t, p, d, n - 1, buf);
    }
}

/// A segment fit for drawing: a real screen column, and a non-degenerate
/// vertical run that stays on the screen.
pub open spec fn seg_wf(p: ViewParams, s: Segment) -> bool {
    &&& s.column < p.screen_w
    &&& 1 <= s.y_top
    &&& s.y_top < s.y_bottom
    &&& s.y_bottom <= p.screen_h
}

/// Every segment a scan line emits is fit for drawing, provided no horizon
/// entry has yet sunk below the screen bottom.
pub proof fn lemma_sweep_segments_well_formed(
    t: TerrainStore,
    p: ViewParams,
    d: int,
    n: int,
    buf: Seq<u32>,
)
    requires
        p.wf(),
        n <= buf.len(),
        n <= p.screen_w,
        forall|c: int| 0 <= c < buf.len() ==> buf[c] <= p.screen_h,
    ensures
        forall|k: int|
            0 <= k < sweep_spec(t, p, d, n, buf).0.len()
                ==> seg_wf(p, #[trigger] sweep_spec(t, p, d, n, buf).0[k]),
    decreases n,
{
    if n <= 0 {
    } else {
        lemma_sweep_segments_well_formed(t, p, d, n - 1, buf);
        lemma_sweep_horizon(t, p, d, n - 1, buf);
        let prev = sweep_spec(t, p, d, n - 1, buf);
        let cur = sweep_spec(t, p, d, n, buf);
        let c = n - 1;
        let pj = proj_at(t, p, d, c);
        if pj < prev.1[c] {
            assert(prev.1[c] <= buf[c]);
            assert(1 <= pj <= p.screen_h);
            assert forall|k: int| 0 <= k < cur.0.len() implies seg_wf(p, cur.0[k]) by {
                if k < prev.0.len() {
                    assert(cur.0[k] == prev.0[k]);
                    assert(seg_wf(p, prev.0[k]));
                } else {
                    assert(cur.0[k] == cur.0.last());
                }
            }
        }
    }
}

/// Every segment a whole frame emits is fit for drawing.
pub proof fn lemma_render_segments_well_formed(
    t: TerrainStore,
    p: ViewParams,
    d: int,
    dz: int,
    buf: Seq<u32>,
)
    requires
        p.wf(),
        p.screen_w <= buf.len(),
        forall|c: int| 0 <= c < buf.len() ==> buf[c] <= p.screen_h,
    ensures
        forall|k: int|
            0 <= k < render_spec(t, p, d, dz, buf).0.len()
                ==> seg_wf(p, #[trigger] render_spec(t, p, d, dz, buf).0[k]),
    decreases (if d < FAR_TENTHS { FAR_TENTHS - d } else { 0int }),
{
    if d >= FAR_TENTHS || dz < 1 {
    } else {
        let line = sweep_spec(t, p, d, p.screen_w as int, buf);
        lemma_sweep_segments_well_formed(t, p, d, p.screen_w as int, buf);
        lemma_sweep_horizon(t, p, d, p.screen_w as int, buf);
        assert forall|c: int| 0 <= c < line.1.len() implies line.1[c] <= p.screen_h by {
            assert(line.1[c] <= buf[c]);
        }
        lemma_render_segments_well_formed(t, p, d + dz, dz + 1, line.1);
        let rest = render_spec(t, p, d + dz, dz + 1, line.1);
        let whole = render_spec(t, p, d, dz, buf);
        assert forall|k: int| 0 <= k < whole.0.len() implies seg_wf(p, whole.0[k]) by {
            if k < line.0.len() {
                assert(whole.0[k] == line.0[k]);
                assert(seg_wf(p, line.0[k]));
            } else {
                assert(whole.0[k] == rest.0[k - line.0.len()]);
                assert(seg_wf(p, rest.0[k - line.0.len()]));
            }
        }
    }
}

/// Structure of one scan line's output: columns are visited in ascending
/// order, a column's entry is untouched until its own turn, and an emitted
/// segment hangs from the entering horizon down to which it also moves the
/// column's new horizon.
proof fn lemma_sweep_segments_structure(
    t: TerrainStore,
    p: ViewParams,
    d: int,
    n: int,
    buf: Seq<u32>,
)
    requires
        n <= buf.len(),
        n <= u32::MAX + 1,
    ensures
        forall|c: int|
            n <= c < buf.len() ==> #[trigger] sweep_spec(t, p, d, n, buf).1[c] == buf[c],
        forall|k1: int, k2: int|
            0 <= k1 < k2 < sweep_spec(t, p, d, n, buf).0.len()
                ==> #[trigger] sweep_spec(t, p, d, n, buf).0[k1].column
                < #[trigger] sweep_spec(t, p, d, n, buf).0[k2].column,
        forall|k: int|
            0 <= k < sweep_spec(t, p, d, n, buf).0.len() ==> {
                let s = #[trigger] sweep_spec(t, p, d, n, buf).0[k];
                &&& 0 <= s.column < n
                &&& s.y_bottom == buf[s.column as int]
                &&& s.y_top == sweep_spec(t, p, d, n, buf).1[s.column as int]
                &&& s.y_top < s.y_bottom
            },
    decreases n,
{
    if n <= 0 {
    } else {
        lemma_sweep_segments_structure(t, p, d, n - 1, buf);
        lemma_sweep_horizon(t, p, d, n - 1, buf);
        let prev = sweep_spec(t, p, d, n - 1, buf);
        let cur = sweep_spec(t, p, d, n, buf);
        let c = n - 1;
        let pj = proj_at(t, p, d, c);
        if pj < prev.1[c] {
            assert(prev.1[c] == buf[c]);
            assert forall|k: int| 0 <= k < cur.0.len() implies {
                let s = #[trigger] cur.0[k];
                &&& 0 <= s.column < n
                &&& s.y_bottom == buf[s.column as int]
                &&& s.y_top == cur.1[s.column as int]
                &&& s.y_top < s.y_bottom
            } by {
                if k < prev.0.len() {
                    assert(cur.0[k] == prev.0[k]);
                    let sc = prev.0[k].column as int;
                    assert(0 <= sc < c);
                    assert(cur.1 == prev.1.update(c, pj));
                    assert(cur.1[sc] == prev.1[sc]);
                } else {
                    assert(cur.0[k] == cur.0.last());
                    assert(cur.1[c] == pj);
                }
            }
            assert forall|k1: int, k2: int| 0 <= k1 < k2 < cur.0.len() implies
                cur.0[k1].column < cur.0[k2].column by {
                if k2 < prev.0.len() {
                    assert(cur.0[k1] == prev.0[k1]);
                    assert(cur.0[k2] == prev.0[k2]);
                } else {
                    assert(cur.0[k1] == prev.0[k1]);
                    assert(cur.0[k2] == cur.0.last());
                    assert(prev.0[k1].column < c);
                }
            }
        }
    }
}

/// Per-column occlusion law over a whole frame: every emitted sliver hangs
/// from its column's horizon as it stood when the sliver's scan line began,
/// never reaches below the starting horizon, and ends at or above the
/// frame's final horizon; so, within one column, projected tops strictly
/// decrease in emission order — that is, as the sample distance grows.
pub proof fn lemma_render_columns_tile(
    t: TerrainStore,
    p: ViewParams,
    d: int,
    dz: int,
    buf: Seq<u32>,
)
    requires
        p.screen_w <= buf.len(),
    ensures
        forall|k: int|
            0 <= k < render_spec(t, p, d, dz, buf).0.len() ==> {
                let s = #[trigger] render_spec(t, p, d, dz, buf).0[k];
                &&& 0 <= s.column < p.screen_w
                &&& s.y_top < s.y_bottom
                &&& s.y_bottom <= buf[s.column as int]
                &&& render_spec(t, p, d, dz, buf).1[s.column as int] <= s.y_top
            },
        forall|k1: int, k2: int|
            0 <= k1 < k2 < render_spec(t, p, d, dz, buf).0.len()
                && #[trigger] render_spec(t, p, d, dz, buf).0[k1].column
                == #[trigger] render_spec(t, p, d, dz, buf).0[k2].column
                ==> render_spec(t, p, d, dz, buf).0[k2].y_top
                < render_spec(t, p, d, dz, buf).0[k1].y_top,
    decreases (if d < FAR_TENTHS { FAR_TENTHS - d } else { 0int }),
{
    if d >= FAR_TENTHS || dz < 1 {
    } else {
        let line = sweep_spec(t, p, d, p.screen_w as int, buf);
        let rest = render_spec(t, p, d + dz, dz + 1, line.1);
        let whole = render_spec(t, p, d, dz, buf);
        lemma_sweep_segments_structure(t, p, d, p.screen_w as int, buf);
        lemma_sweep_horizon(t, p, d, p.screen_w as int, buf);
        lemma_render_horizon_nonincreasing(t, p, d + dz, dz + 1, line.1);
        lemma_render_columns_tile(t, p, d + dz, dz + 1, line.1);
        assert forall|k: int| 0 <= k < whole.0.len() implies {
            let s = #[trigger] whole.0[k];
            &&& 0 <= s.column < p.screen_w
            &&& s.y_top < s.y_bottom
            &&& s.y_bottom <= buf[s.column as int]
            &&& whole.1[s.column as int] <= s.y_top
        } by {
            if k < line.0.len() {
                assert(whole.0[k] == line.0[k]);
                let s = line.0[k];
                assert(s.y_bottom == buf[s.column as int]);
                assert(s.y_top == line.1[s.column as int]);
                assert(whole.1[s.column as int] == rest.1[s.column as int]);
                assert(rest.1[s.column as int] <= line.1[s.column as int]);
            } else {
                assert(whole.0[k] == rest.0[k - line.0.len()]);
                let s = rest.0[k - line.0.len()];
                assert(s.y_bottom <= line.1[s.column as int]);
                assert(line.1[s.column as int] <= buf[s.column as int]);
            }
        }
        assert forall|k1: int, k2: int|
            0 <= k1 < k2 < whole.0.len() && whole.0[k1].column == whole.0[k2].column
        implies whole.0[k2].y_top < whole.0[k1].y_top by {
            if k2 < line.0.len() {
                // Two segments of one scan line sit in distinct columns.
                assert(whole.0[k1] == line.0[k1]);
                assert(whole.0[k2] == line.0[k2]);
                assert(line.0[k1].column < line.0[k2].column);
            } else if k1 >= line.0.len() {
                assert(whole.0[k1] == rest.0[k1 - line.0.len()]);
                assert(whole.0[k2] == rest.0[k2 - line.0.len()]);
            } else {
                let s1 = line.0[k1];
                let s2 = rest.0[k2 - line.0.len()];
                assert(whole.0[k1] == s1);
                assert(whole.0[k2] == s2);
                let c = s1.column as int;
                assert(s1.y_top == line.1[c]);
                assert(s2.y_bottom <= line.1[c]);
                assert(s2.y_top < s2.y_bottom);
            }
        }
    }
}

/// The horizon occlusion invariant over a whole frame: the buffer that comes
/// out of the sweep from any intermediate state — so in particular out of
/// the rest of the sweep after any earlier distance step — is, column for
/// column, at most that state. Horizon entries never increase once a frame's
/// walk has begun.
pub proof fn lemma_render_horizon_nonincreasing(
    t: TerrainStore,
    p: ViewParams,
    d: int,
    dz: int,
    buf: Seq<u32>,
)
    requires
        p.screen_w <= buf.len(),
    ensures
        render_spec(t, p, d, dz, buf).1.len() == buf.len(),
        forall|c: int| 0 <= c < buf.len() ==> render_spec(t, p, d, dz, buf).1[c] <= buf[c],
    decreases (if d < FAR_TENTHS { FAR_TENTHS - d } else { 0int }),
{
    if d >= FAR_TENTHS || dz < 1 {
    } else {
        let line = sweep_spec(t, p, d, p.screen_w as int, buf);
        lemma_sweep_horizon(t, p, d, p.screen_w as int, buf);
        lemma_render_horizon_nonincreasing(t, p, d + dz, dz + 1, line.1);
    }
}

/// Perspective monotonicity: over terrain of one constant height, with the
/// eye fixed, the projected row never moves down the screen as the sample
/// distance grows — farther flat ground maps toward the horizon.
pub proof fn lemma_projection_monotone(p: ViewParams, sample: u8, d1: int, d2: int)
    requires
        p.wf(),
        1 <= d1 <= d2,
    ensures
        clamp_proj(p, raw_proj(p, sample, d2)) <= clamp_proj(p, raw_proj(p, sample, d1)),
{
    let num = (p.eye_height - sample) * (PROJ_NUM as int);
    if num >= 0 {
        lemma_div_is_ordered_by_denominator(num, d1, d2);
        lemma_div_pos_is_pos(num, d1);
        lemma_div_pos_is_pos(num, d2);
    } else {
        lemma_div_pos_is_pos(-num, d1);
        lemma_div_pos_is_pos(-num, d2);
    }
}

/// One scan line of the frame: samples every screen column at distance `d`
/// tenths, projects, tests each column against the horizon buffer, and
/// emits the newly revealed sliver of every visible column. Exactly
/// `sweep_spec` on the entering buffer.
pub fn sweep_scan_line(
    t: &TerrainStore,
    p: &ViewParams,
    d: u32,
    horizon: &mut HorizonBuffer,
    emitter: &mut FrameEmitter,
)
    requires
        t.wf(),
        p.wf(),
        1 <= d < FAR_TENTHS,
        old(horizon)@.len() == p.screen_w,
    ensures
        final(horizon)@ == sweep_spec(*t, *p, d as int, p.screen_w as int, old(horizon)@).1,
        final(emitter)@ == old(emitter)@
            + sweep_spec(*t, *p, d as int, p.screen_w as int, old(horizon)@).0,
{
    let ghost buf0 = horizon@;
    let ghost em0 = emitter@;
    let di: i64 = d as i64;
    let w: u32 = p.screen_w;
    let wi: i64 = w as i64;

    let a_lx: i64 = -p.cos_q - p.sin_q;
    let a_ly: i64 = p.sin_q - p.cos_q;
    let a_rx: i64 = p.cos_q - p.sin_q;
    let a_ry: i64 = -p.sin_q - p.cos_q;
    proof {
        lemma_mul_abs_bound(a_lx as int, di as int, 2 * TRIG_ONE as int, FAR_TENTHS as int);
        lemma_mul_abs_bound(a_ly as int, di as int, 2 * TRIG_ONE as int, FAR_TENTHS as int);
        lemma_mul_abs_bound(a_rx as int, di as int, 2 * TRIG_ONE as int, FAR_TENTHS as int);
        lemma_mul_abs_bound(a_ry as int, di as int, 2 * TRIG_ONE as int, FAR_TENTHS as int);
    }
    let mlx: i64 = a_lx * di;
    let mly: i64 = a_ly * di;
    let mrx: i64 = a_rx * di;
    let mry: i64 = a_ry * di;
    let ox_fx: i64 = p.origin_x * FX_ONE;
    let oy_fx: i64 = p.origin_y * FX_ONE;
    let lx: i64 = mlx + ox_fx;
    let ly: i64 = mly + oy_fx;
    let rx: i64 = mrx + ox_fx;
    let ry: i64 = mry + oy_fx;
    let dx: i64 = div_trunc(rx - lx, wi);
    let dy: i64 = div_trunc(ry - ly, wi);

    let mut cx: i64 = lx;
    let mut cy: i64 = ly;
    let mut i: u32 = 0;
    while i < w
        invariant
            t.wf(),
            p.wf(),
            1 <= d < FAR_TENTHS,
            w == p.screen_w,
            wi == w as i64,
            di == d as i64,
            0 <= i <= w,
            buf0.len() == w,
            dx as int == step_x_fx(*p, d as int),
            dy as int == step_y_fx(*p, d as int),
            -STEP_LIMIT <= dx <= STEP_LIMIT,
            -STEP_LIMIT <= dy <= STEP_LIMIT,
            cx as int == col_x_fx(*p, d as int, i as int),
            cy as int == col_y_fx(*p, d as int, i as int),
            -EDGE_LIMIT - (i as i64) * STEP_LIMIT <= cx <= EDGE_LIMIT + (i as i64) * STEP_LIMIT,
            -EDGE_LIMIT - (i as i64) * STEP_LIMIT <= cy <= EDGE_LIMIT + (i as i64) * STEP_LIMIT,
            horizon@ == sweep_spec(*t, *p, d as int, i as int, buf0).1,
            emitter@ == em0 + sweep_spec(*t, *p, d as int, i as int, buf0).0,
            horizon@.len() == w,
        decreases w - i,
    {
        let wx: i64 = div_trunc(cx, FX_ONE);
        let wy: i64 = div_trunc(cy, FX_ONE);
        let sampled: u8 = t.sample_height(wx, wy);
        let color: Rgb = t.sample_color(wx, wy);
        let num: i64 = (p.eye_height - (sampled as i64)) * PROJ_NUM;
        let pj_raw: i64 = div_trunc(num, di);
        let pj: u32 = if pj_raw > p.screen_h as i64 {
            p.screen_h
        } else if pj_raw <= 0 {
            1
        } else {
            pj_raw as u32
        };
        proof {
            assert(wx as int == world_x_at(*p, d as int, i as int));
            assert(wy as int == world_y_at(*p, d as int, i as int));
            assert(sampled == sample_height_at(*t, *p, d as int, i as int));
            assert(color == sample_color_at(*t, *p, d as int, i as int));
            assert(pj_raw as int == raw_proj(*p, sampled, d as int));
            assert(pj == proj_at(*t, *p, d as int, i as int));
            lemma_sweep_horizon(*t, *p, d as int, i as int, buf0);
        }
        let prev: u32 = horizon.get(i as usize);
        let visible: bool = horizon.test_and_update(i as usize, pj);
        if visible {
            emitter.push_segment(i, pj, prev, color);
        }
        proof {
            let ghost line = sweep_spec(*t, *p, d as int, i as int, buf0);
            assert(sweep_spec(*t, *p, d as int, i as int + 1, buf0) == (if pj
                < line.1[i as int] {
                (
                    line.0.push(
                        Segment {
                            column: i,
                            y_top: pj,
                            y_bottom: line.1[i as int],
                            color,
                        },
                    ),
                    line.1.update(i as int, pj),
                )
            } else {
                line
            }));
            if visible {
                assert((em0 + line.0).push(
                    Segment { column: i, y_top: pj, y_bottom: prev, color },
                ) =~= em0 + line.0.push(
                    Segment { column: i, y_top: pj, y_bottom: prev, color },
                ));
            }
            assert((i as int + 1) * (dx as int) == (i as int) * (dx as int) + (dx as int))
                by (nonlinear_arith);
            assert((i as int + 1) * (dy as int) == (i as int) * (dy as int) + (dy as int))
                by (nonlinear_arith);
        }
        cx = cx + dx;
        cy = cy + dy;
        i = i + 1;
    }
}

/// Renders one frame as a pure function of the terrain and the view: resets
/// a horizon buffer, then walks the ray distance from one world unit out to
/// the far limit in steps that grow by a tenth of a unit per iteration,
/// emitting every visible sliver. The result is exactly `render_spec` from
/// the starting distance and a freshly reset horizon.
pub fn render_frame(t: &TerrainStore, p: &ViewParams) -> (segments: Vec<Segment>)
    requires
        t.wf(),
        p.wf(),
    ensures
        segments@ == render_spec(
            *t,
            *p,
            START_TENTHS as int,
            START_TENTHS as int,
            init_horizon(*p),
        ).0,
        forall|k: int| 0 <= k < segments@.len() ==> seg_wf(*p, #[trigger] segments@[k]),
        forall|k1: int, k2: int|
            0 <= k1 < k2 < segments@.len() && #[trigger] segments@[k1].column
                == #[trigger] segments@[k2].column ==> segments@[k2].y_top
                < segments@[k1].y_top,
{
    let mut horizon = HorizonBuffer::new(p.screen_w as usize, p.screen_h);
    proof {
        assert(horizon@ =~= init_horizon(*p));
    }
    let mut emitter = FrameEmitter::begin_frame();
    let ghost buf0 = init_horizon(*p);
    let mut d: u32 = START_TENTHS;
    let mut dz: u32 = START_TENTHS;
    while d < FAR_TENTHS
        invariant
            t.wf(),
            p.wf(),
            START_TENTHS <= dz,
            dz <= FAR_TENTHS,
            dz <= d,
            d <= 2 * FAR_TENTHS,
            horizon@.len() == p.screen_w,
            render_spec(*t, *p, START_TENTHS as int, START_TENTHS as int, buf0).0 == emitter@
                + render_spec(*t, *p, d as int, dz as int, horizon@).0,
            render_spec(*t, *p, START_TENTHS as int, START_TENTHS as int, buf0).1
                == render_spec(*t, *p, d as int, dz as int, horizon@).1,
        decreases (if d < FAR_TENTHS { FAR_TENTHS - d } else { 0int }),
    {
        let ghost pre_h = horizon@;
        let ghost pre_e = emitter@;
        sweep_scan_line(t, p, d, &mut horizon, &mut emitter);
        proof {
            let ghost line = sweep_spec(*t, *p, d as int, p.screen_w as int, pre_h);
            let ghost rest = render_spec(*t, *p, d as int + dz as int, dz as int + 1, line.1);
            assert(render_spec(*t, *p, d as int, dz as int, pre_h) == (line.0 + rest.0, rest.1));
            assert(pre_e + (line.0 + rest.0) =~= (pre_e + line.0) + rest.0);
            lemma_sweep_horizon(*t, *p, d as int, p.screen_w as int, pre_h);
        }
        d = d + dz;
        dz = dz + 1;
    }
    proof {
        assert(emitter@ + Seq::<Segment>::empty() =~= emitter@);
        lemma_render_segments_well_formed(
            *t, *p, START_TENTHS as int, START_TENTHS as int, buf0);
        lemma_render_columns_tile(
            *t, *p, START_TENTHS as int, START_TENTHS as int, buf0);
    }
    emitter.finish_frame()
}

} // verus!
