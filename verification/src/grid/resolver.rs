//! Grid resolution and cell size.
//!
//! The resolver targets a constant triangle density per cell: with `T`
//! triangles in a box of extents `(ex, ey, ez)` it aims at
//! `DENSITY * T / volume` cells per unit volume, so the cell count along
//! axis `x` is `floor(ex * cbrt(DENSITY * T / volume))`, floored to at
//! least one cell.  In exact integer arithmetic that is the integer cube
//! root of `DENSITY * T * ex^2 / (ey * ez)`.  A zero extent on any axis
//! degenerates the volume, and the resolution falls back to one cell per
//! axis.

use vstd::prelude::*;
use crate::gl_types::UVec3;
use crate::grid::GridError;
use crate::grid::bbox::BBox;
use crate::grid::model;

verus! {

/// Target triangle density: the average number of triangles per cell the
/// resolution rule aims at.  A tuning parameter, not an invariant.
pub const DENSITY: u64 = 5;

/// The exact per-axis cell size: extent `num` divided by resolution
/// `den`.  A zero extent gives a zero cell size on that axis.
#[derive(Clone, Copy, Debug)]
pub struct CellSize {
    pub num: [i64; 3],
    pub den: [u32; 3],
}

/// Derives resolution and cell size from a bounding box and a triangle
/// count; pure host-side arithmetic.
pub struct GridResolver {}

/// `r` is the integer cube root of `q`.
pub open spec fn is_icbrt(q: int, r: int) -> bool {
    &&& 0 <= r
    &&& r * r * r <= q
    &&& q < (r + 1) * (r + 1) * (r + 1)
}

/// The quantity whose cube root gives the cell count along the axis with
/// extent `ea` (the other two extents being `eb` and `ec`):
/// `DENSITY * tcount * ea^2 / (eb * ec)`.
pub open spec fn axis_q(tcount: int, ea: int, eb: int, ec: int) -> int {
    ((DENSITY as int) * tcount * ea * ea) / (eb * ec)
}

/// A well-formed bounding box for grid arithmetic: ordered per axis and
/// within the coordinate limit.
pub open spec fn bbox_wf(bb: BBox) -> bool {
    forall|a: int|
        0 <= a < 3 ==> -model::COORD_LIMIT <= #[trigger] model::pos_at(bb.min, a) <= model::pos_at(
            bb.max,
            a,
        ) <= model::COORD_LIMIT
}

/// Whether the bounding box has a degenerate (zero) extent on some axis.
pub open spec fn degenerate(bb: BBox) -> bool {
    model::bb_extent(bb, 0) == 0 || model::bb_extent(bb, 1) == 0 || model::bb_extent(bb, 2) == 0
}

/// The resolution along one axis: the integer cube root of `q`, floored
/// to at least one cell.
pub open spec fn axis_res_ok(q: int, r: int) -> bool {
    exists|rr: int| #[trigger] is_icbrt(q, rr) && r == model::max2(rr, 1)
}

/// What `resolve` returns: one cell per axis when the volume is
/// degenerate, the density rule otherwise.
pub open spec fn is_resolution(bb: BBox, tcount: int, res: UVec3) -> bool {
    if degenerate(bb) {
        model::res_at(res, 0) == 1 && model::res_at(res, 1) == 1 && model::res_at(res, 2) == 1
    } else {
        let ex = model::bb_extent(bb, 0);
        let ey = model::bb_extent(bb, 1);
        let ez = model::bb_extent(bb, 2);
        &&& axis_res_ok(axis_q(tcount, ex, ey, ez), model::res_at(res, 0))
        &&& axis_res_ok(axis_q(tcount, ey, ex, ez), model::res_at(res, 1))
        &&& axis_res_ok(axis_q(tcount, ez, ex, ey), model::res_at(res, 2))
    }
}

/// The cube root along every non-degenerate axis fits the `u32` a
/// resolution component is stored in.
pub open spec fn resolution_fits(bb: BBox, tcount: int) -> bool {
    degenerate(bb) || {
        let ex = model::bb_extent(bb, 0);
        let ey = model::bb_extent(bb, 1);
        let ez = model::bb_extent(bb, 2);
        &&& forall|rr: int| #[trigger] is_icbrt(axis_q(tcount, ex, ey, ez), rr) ==> rr <= u32::MAX
        &&& forall|rr: int| #[trigger] is_icbrt(axis_q(tcount, ey, ex, ez), rr) ==> rr <= u32::MAX
        &&& forall|rr: int| #[trigger] is_icbrt(axis_q(tcount, ez, ex, ey), rr) ==> rr <= u32::MAX
    }
}

/// The cell size carries the exact per-axis rational `extent / res`.
pub open spec fn is_cell_size(bb: BBox, res: UVec3, cs: CellSize) -> bool {
    forall|a: int|
        0 <= a < 3 ==> #[trigger] (cs.num[a] as int) == model::bb_extent(bb, a) && (cs.den[a] as int)
            == model::res_at(res, a)
}

impl GridResolver {
    /// Derives the grid resolution and cell size for `triangle_count`
    /// triangles inside `bb`.  Deterministic: the result is pinned by the
    /// inputs.  Fails only when a resolution component would not fit its
    /// `u32`.
    pub fn resolve(bb: &BBox, triangle_count: usize) -> (r: Result<(UVec3, CellSize), GridError>)
        requires
            1 <= triangle_count <= u32::MAX,
            bbox_wf(*bb),
        ensures
            match r {
                Ok((res, cs)) => {
                    &&& is_resolution(*bb, triangle_count as int, res)
                    &&& model::res_wf(res)
                    &&& is_cell_size(*bb, res, cs)
                    &&& resolution_fits(*bb, triangle_count as int)
                },
                Err(e) => e == GridError::CapacityExceeded && !resolution_fits(
                    *bb,
                    triangle_count as int,
                ),
            },
    {
        proof {
            assert(-model::COORD_LIMIT <= model::pos_at(bb.min, 0) <= model::pos_at(bb.max, 0)
                <= model::COORD_LIMIT);
            assert(-model::COORD_LIMIT <= model::pos_at(bb.min, 1) <= model::pos_at(bb.max, 1)
                <= model::COORD_LIMIT);
            assert(-model::COORD_LIMIT <= model::pos_at(bb.min, 2) <= model::pos_at(bb.max, 2)
                <= model::COORD_LIMIT);
        }
        let ex = bb.max.position[0] - bb.min.position[0];
        let ey = bb.max.position[1] - bb.min.position[1];
        let ez = bb.max.position[2] - bb.min.position[2];
        if ex == 0 || ey == 0 || ez == 0 {
            let res = UVec3 { position: [1, 1, 1] };
            let cs = CellSize { num: [ex, ey, ez], den: [1, 1, 1] };
            return Ok((res, cs));
        }
        let rx = axis_root(triangle_count, ex, ey, ez);
        let ry = axis_root(triangle_count, ey, ex, ez);
        let rz = axis_root(triangle_count, ez, ex, ey);
        if rx > u32::MAX as u64 || ry > u32::MAX as u64 || rz > u32::MAX as u64 {
            proof {
                let tcount = triangle_count as int;
                assert(!degenerate(*bb));
                assert(is_icbrt(axis_q(tcount, ex as int, ey as int, ez as int), rx as int));
                assert(is_icbrt(axis_q(tcount, ey as int, ex as int, ez as int), ry as int));
                assert(is_icbrt(axis_q(tcount, ez as int, ex as int, ey as int), rz as int));
                assert(!resolution_fits(*bb, tcount));
            }
            return Err(GridError::CapacityExceeded);
        }
        proof {
            let tcount = triangle_count as int;
            lemma_axis_fits(axis_q(tcount, ex as int, ey as int, ez as int), rx as int);
            lemma_axis_fits(axis_q(tcount, ey as int, ex as int, ez as int), ry as int);
            lemma_axis_fits(axis_q(tcount, ez as int, ex as int, ey as int), rz as int);
        }
        let nx = if rx < 1 {
            1u32
        } else {
            rx as u32
        };
        let ny = if ry < 1 {
            1u32
        } else {
            ry as u32
        };
        let nz = if rz < 1 {
            1u32
        } else {
            rz as u32
        };
        let res = UVec3 { position: [nx, ny, nz] };
        let cs = CellSize { num: [ex, ey, ez], den: [nx, ny, nz] };
        Ok((res, cs))
    }
}

/// The integer cube root of `DENSITY * tcount * ea^2 / (eb * ec)`.
fn axis_root(tcount: usize, ea: i64, eb: i64, ec: i64) -> (r: u64)
    requires
        1 <= tcount <= u32::MAX,
        0 < ea <= 2 * model::COORD_LIMIT,
        0 < eb <= 2 * model::COORD_LIMIT,
        0 < ec <= 2 * model::COORD_LIMIT,
    ensures
        is_icbrt(axis_q(tcount as int, ea as int, eb as int, ec as int), r as int),
{
    let t5: u128 = (DENSITY as u128) * (tcount as u128);
    proof {
        assert((ea as u128) * (ea as u128) <= 0x40000_0000_0000_0000_0000u128)
            by (nonlinear_arith)
            requires
                0 < ea as u128 <= 0x200_0000_0000u128,
        ;
    }
    let ea2: u128 = (ea as u128) * (ea as u128);
    proof {
        assert(t5 * ea2 <= 0x14_0000_0000_0000_0000_0000_0000_0000u128) by (nonlinear_arith)
            requires
                t5 <= 0x5_0000_0000u128,
                ea2 <= 0x40000_0000_0000_0000_0000u128,
        ;
        assert(1 <= (eb as u128) * (ec as u128) <= 0x40000_0000_0000_0000_0000u128)
            by (nonlinear_arith)
            requires
                1 <= eb as u128 <= 0x200_0000_0000u128,
                1 <= ec as u128 <= 0x200_0000_0000u128,
        ;
    }
    let num: u128 = t5 * ea2;
    let den: u128 = (eb as u128) * (ec as u128);
    let q: u128 = num / den;
    proof {
        assert(q <= num) by (nonlinear_arith)
            requires
                den >= 1,
                q == num / den,
                num >= 0,
        ;
        assert(num as int == (DENSITY as int) * (tcount as int) * (ea as int) * (ea as int))
            by (nonlinear_arith)
            requires
                num == t5 * ea2,
                t5 == (DENSITY as u128) * (tcount as u128),
                ea2 == (ea as u128) * (ea as u128),
                ea >= 0,
        ;
        assert(den as int == (eb as int) * (ec as int)) by (nonlinear_arith)
            requires
                den == (eb as u128) * (ec as u128),
                eb >= 1,
                ec >= 1,
        ;
        assert(q as int == axis_q(tcount as int, ea as int, eb as int, ec as int));
    }
    icbrt(q)
}

/// Integer cube root by binary search.
fn icbrt(q: u128) -> (r: u64)
    requires
        q < 0x100_0000_0000_0000_0000_0000_0000_0000u128,
    ensures
        is_icbrt(q as int, r as int),
{
    let mut lo: u64 = 0;
    let mut hi: u64 = 0x100_0000_0000;
    proof {
        assert((hi as int) * (hi as int) * (hi as int) == 0x100_0000_0000_0000_0000_0000_0000_0000)
            by (nonlinear_arith)
            requires
                hi == 0x100_0000_0000u64,
        ;
    }
    while hi - lo > 1
        invariant
            lo < hi <= 0x100_0000_0000u64,
            (lo as int) * (lo as int) * (lo as int) <= q as int,
            (q as int) < (hi as int) * (hi as int) * (hi as int),
        decreases hi - lo,
    {
        let mid = lo + (hi - lo) / 2;
        proof {
            assert((mid as u128) * (mid as u128) <= 0x1_0000_0000_0000_0000_0000u128
                && (mid as u128) * (mid as u128) * (mid as u128)
                <= 0x100_0000_0000_0000_0000_0000_0000_0000u128) by (nonlinear_arith)
                requires
                    mid as u128 <= 0x100_0000_0000u128,
            ;
        }
        let c: u128 = (mid as u128) * (mid as u128) * (mid as u128);
        if c <= q {
            lo = mid;
        } else {
            hi = mid;
        }
    }
    lo
}

/// A root that fits `u32` is the only root, so every root fits.
proof fn lemma_axis_fits(q: int, r: int)
    requires
        is_icbrt(q, r),
        r <= u32::MAX,
    ensures
        forall|rr: int| #[trigger] is_icbrt(q, rr) ==> rr <= u32::MAX,
{
    assert forall|rr: int| #[trigger] is_icbrt(q, rr) implies rr <= u32::MAX by {
        lemma_icbrt_unique(q, rr, r);
    }
}

/// The integer cube root is unique: the resolution's determinism rests on
/// this.
pub proof fn lemma_icbrt_unique(q: int, r1: int, r2: int)
    requires
        is_icbrt(q, r1),
        is_icbrt(q, r2),
    ensures
        r1 == r2,
{
    assert(r1 == r2) by (nonlinear_arith)
        requires
            0 <= r1,
            0 <= r2,
            r1 * r1 * r1 <= q,
            q < (r1 + 1) * (r1 + 1) * (r1 + 1),
            r2 * r2 * r2 <= q,
            q < (r2 + 1) * (r2 + 1) * (r2 + 1),
    ;
}

/// The resolution rule is deterministic: two resolutions for the same
/// bounding box and triangle count agree on every axis.
pub proof fn lemma_resolve_deterministic(bb: BBox, tcount: int, r1: UVec3, r2: UVec3)
    requires
        is_resolution(bb, tcount, r1),
        is_resolution(bb, tcount, r2),
    ensures
        model::res_at(r1, 0) == model::res_at(r2, 0),
        model::res_at(r1, 1) == model::res_at(r2, 1),
        model::res_at(r1, 2) == model::res_at(r2, 2),
{
    if !degenerate(bb) {
        let ex = model::bb_extent(bb, 0);
        let ey = model::bb_extent(bb, 1);
        let ez = model::bb_extent(bb, 2);
        lemma_axis_res_unique(axis_q(tcount, ex, ey, ez), model::res_at(r1, 0), model::res_at(r2, 0));
        lemma_axis_res_unique(axis_q(tcount, ey, ex, ez), model::res_at(r1, 1), model::res_at(r2, 1));
        lemma_axis_res_unique(axis_q(tcount, ez, ex, ey), model::res_at(r1, 2), model::res_at(r2, 2));
    }
}

/// One axis of the determinism argument.
proof fn lemma_axis_res_unique(q: int, r1: int, r2: int)
    requires
        axis_res_ok(q, r1),
        axis_res_ok(q, r2),
    ensures
        r1 == r2,
{
    let rr1 = choose|rr: int| #[trigger] is_icbrt(q, rr) && r1 == model::max2(rr, 1);
    let rr2 = choose|rr: int| #[trigger] is_icbrt(q, rr) && r2 == model::max2(rr, 1);
    lemma_icbrt_unique(q, rr1, rr2);
}

} // verus!
