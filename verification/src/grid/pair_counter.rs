//! Triangle/cell pair counting and the host-side prefix sum.
//!
//! One invocation per triangle transforms the triangle's bounding box into
//! grid-cell coordinates, clamped per axis, records the range for reuse by
//! the writer, and increments the counter of every covered cell.  The
//! count array carries one extra trailing slot that no triangle ever
//! touches; the host-side exclusive prefix sum deposits the grand total
//! there, so the last slot directly yields the total pair count.

use vstd::prelude::*;
use crate::gl_types::{UVec3, Vec3, vec3_max, vec3_min};
use crate::grid::GridError;
use crate::grid::bbox::{BBox, tri_vertices};
use crate::grid::model;
use crate::grid::resolver;

verus! {

/// Invocations per counting work group.
pub const WORKGROUP_SIZE: usize = 256;

/// The counting stage, sized for one mesh.
pub struct PairCounter {
    pub triangle_count: usize,
    pub work_groups_count: usize,
}

/// What one counting pass hands to the writer: the total pair count, the
/// per-cell offsets (exclusive prefix sums, with the grand total in the
/// extra trailing slot), and each triangle's recorded cell range.
pub struct CountPairsResult {
    pub pair_count: usize,
    pub cells_buffer: Vec<u32>,
    pub min_cells_buffer: Vec<UVec3>,
    pub max_cells_buffer: Vec<UVec3>,
}

/// Work groups needed for one invocation per triangle.
pub open spec fn spec_count_groups(tc: int) -> int {
    tc / (WORKGROUP_SIZE as int) + if tc % (WORKGROUP_SIZE as int) == 0 {
        0int
    } else {
        1int
    }
}

/// Sum of the first `j` entries of a count array.
pub open spec fn sum_prefix(s: Seq<u32>, j: int) -> int
    decreases j,
{
    if j <= 0 {
        0
    } else {
        sum_prefix(s, j - 1) + s[j - 1]
    }
}

/// Cell `c` lies in the box `[mn, mx]` and the scan over that box has
/// already passed it when the scan stands at `(cz, cy, cx)` (z outermost,
/// x innermost).
pub open spec fn scanned(
    mn: UVec3,
    mx: UVec3,
    res: UVec3,
    cz: int,
    cy: int,
    cx: int,
    c: int,
) -> bool {
    let x = model::decomp_x(res, c);
    let y = model::decomp_y(res, c);
    let z = model::decomp_z(res, c);
    model::cell_in_box(mn, mx, x, y, z) && (z < cz || (z == cz && (y < cy || (y == cy && x < cx))))
}

impl PairCounter {
    /// Sizes the counting pass for `triangle_count` triangles.  Remainder
    /// invocations past the last triangle no-op on the device; here the
    /// loop simply stops at the count.
    pub fn new(triangle_count: usize) -> (r: PairCounter)
        ensures
            r.triangle_count == triangle_count,
            r.work_groups_count == spec_count_groups(triangle_count as int),
    {
        let work_groups_count = triangle_count / WORKGROUP_SIZE;
        let work_groups_count = if triangle_count % WORKGROUP_SIZE == 0 {
            work_groups_count
        } else {
            work_groups_count + 1
        };
        PairCounter { triangle_count, work_groups_count }
    }

    /// Counts, per cell, the triangles whose bounding box overlaps it,
    /// records each triangle's cell range, and turns the counts into
    /// exclusive prefix-sum offsets.  Fails exactly when the cell count
    /// or the total pair count exceeds what the buffers can address.
    pub fn count_pairs(
        &self,
        positions: &Vec<Vec3>,
        indices: &Vec<UVec3>,
        bb: &BBox,
        res: &UVec3,
    ) -> (r: Result<CountPairsResult, GridError>)
        requires
            model::mesh_wf(positions@, indices@, self.triangle_count as int),
            resolver::bbox_wf(*bb),
            model::res_wf(*res),
        ensures
            ({
                let tc = self.triangle_count as int;
                let mins = model::tri_min_cells_seq(positions@, indices@, *bb, *res, tc);
                let maxs = model::tri_max_cells_seq(positions@, indices@, *bb, *res, tc);
                let total = model::pairs_total_upto_cell(
                    mins,
                    maxs,
                    *res,
                    tc,
                    model::cell_count(*res),
                );
                match r {
                    Ok(cp) => {
                        &&& cp.min_cells_buffer@ == mins
                        &&& cp.max_cells_buffer@ == maxs
                        &&& model::offsets_wf(mins, maxs, *res, tc, cp.cells_buffer@)
                        &&& cp.pair_count == total
                        &&& total <= u32::MAX
                        &&& model::cell_count(*res) < usize::MAX
                    },
                    Err(e) => {
                        &&& e == GridError::CapacityExceeded
                        &&& (model::cell_count(*res) >= usize::MAX || total > u32::MAX)
                    },
                }
            }),
    {
        let tc = self.triangle_count;
        let nx = res.position[0];
        let ny = res.position[1];
        let nz = res.position[2];
        proof {
            assert((nx as u128) * (ny as u128) * (nz as u128) == model::cell_count(*res)
                && (nx as u128) * (ny as u128) <= 0x1_0000_0000_0000_0000u128
                && (nx as u128) * (ny as u128) * (nz as u128)
                <= 0x1_0000_0000_0000_0000_0000_0000u128) by (nonlinear_arith)
                requires
                    nx as int == model::res_at(*res, 0),
                    ny as int == model::res_at(*res, 1),
                    nz as int == model::res_at(*res, 2),
                    nx <= 0xFFFF_FFFFu32,
                    ny <= 0xFFFF_FFFFu32,
                    nz <= 0xFFFF_FFFFu32,
                    model::cell_count(*res) == model::res_at(*res, 0) * model::res_at(*res, 1)
                        * model::res_at(*res, 2),
            ;
        }
        let m128: u128 = (nx as u128) * (ny as u128) * (nz as u128);
        if m128 >= usize::MAX as u128 {
            return Err(GridError::CapacityExceeded);
        }
        let cc = m128 as usize;
        let (mins, maxs) = record_ranges(positions, indices, bb, res, tc);
        let mut counts = tally_counts(&mins, &maxs, *res, cc, tc);
        let ghost raw = counts@;
        match exclusive_prefix(&mut counts) {
            Err(_) => {
                proof {
                    let mins_s = model::tri_min_cells_seq(
                        positions@,
                        indices@,
                        *bb,
                        *res,
                        tc as int,
                    );
                    let maxs_s = model::tri_max_cells_seq(
                        positions@,
                        indices@,
                        *bb,
                        *res,
                        tc as int,
                    );
                    lemma_sum_is_total(raw, mins_s, maxs_s, *res, tc as int, cc as int + 1);
                    model::lemma_pairs_upto_last(mins_s, maxs_s, *res, tc as int);
                    assert(model::pairs_total_upto_cell(mins_s, maxs_s, *res, tc as int, cc as int + 1)
                        == model::pairs_total_upto_cell(mins_s, maxs_s, *res, tc as int, cc as int));
                }
                Err(GridError::CapacityExceeded)
            },
            Ok(_) => {
                proof {
                    let mins_s = model::tri_min_cells_seq(
                        positions@,
                        indices@,
                        *bb,
                        *res,
                        tc as int,
                    );
                    let maxs_s = model::tri_max_cells_seq(
                        positions@,
                        indices@,
                        *bb,
                        *res,
                        tc as int,
                    );
                    assert forall|j: int| 0 <= j <= cc as int implies #[trigger] counts@[j]
                        == model::pairs_total_upto_cell(mins_s, maxs_s, *res, tc as int, j) by {
                        lemma_sum_is_total(raw, mins_s, maxs_s, *res, tc as int, j);
                    }
                }
                let pair_count = counts[cc] as usize;
                Ok(
                    CountPairsResult {
                        pair_count,
                        cells_buffer: counts,
                        min_cells_buffer: mins,
                        max_cells_buffer: maxs,
                    },
                )
            },
        }
    }
}

/// Relates a raw count array to the running total spec: if entry `i`
/// holds the pair count of cell `i`, prefix sums of the array are the
/// per-cell running totals.
proof fn lemma_sum_is_total(
    raw: Seq<u32>,
    mins: Seq<UVec3>,
    maxs: Seq<UVec3>,
    res: UVec3,
    tc: int,
    j: int,
)
    requires
        forall|c: int| 0 <= c < raw.len() ==> #[trigger] raw[c] == model::pairs_upto(
            mins,
            maxs,
            res,
            tc,
            c,
        ),
        j <= raw.len(),
    ensures
        sum_prefix(raw, j) == model::pairs_total_upto_cell(mins, maxs, res, tc, j),
    decreases j,
{
    if j > 0 {
        lemma_sum_is_total(raw, mins, maxs, res, tc, j - 1);
    }
}

/// Prefix sums only grow.
proof fn lemma_sum_prefix_monotone(s: Seq<u32>, j1: int, j2: int)
    requires
        0 <= j1 <= j2 <= s.len(),
    ensures
        sum_prefix(s, j1) <= sum_prefix(s, j2),
    decreases j2 - j1,
{
    if j1 < j2 {
        lemma_sum_prefix_monotone(s, j1, j2 - 1);
    }
}

/// The cell of coordinate `x` along one axis: `floor((x - mn) * res /
/// extent)` clamped to `[0, res - 1]`, with cell `0` on a degenerate axis.
fn cell_coord_of(mn: i64, extent: i64, res: u32, x: i64) -> (r: u32)
    requires
        -model::COORD_LIMIT <= mn <= model::COORD_LIMIT,
        0 <= extent <= 2 * model::COORD_LIMIT,
        res >= 1,
        -model::COORD_LIMIT <= x <= model::COORD_LIMIT,
    ensures
        r as int == model::cell_coord(mn as int, extent as int, res as int, x as int),
        r < res,
{
    if extent <= 0 {
        return 0;
    }
    let d = x - mn;
    if d < 0 {
        proof {
            assert((d as int) * (res as int) < 0) by (nonlinear_arith)
                requires
                    d < 0,
                    res >= 1,
            ;
            assert(((d as int) * (res as int)) / (extent as int) < 0) by (nonlinear_arith)
                requires
                    (d as int) * (res as int) < 0,
                    extent >= 1,
            ;
        }
        return 0;
    }
    proof {
        assert((d as u128) * (res as u128) <= 0x2_0000_0000_0000_0000_0000u128) by (nonlinear_arith)
            requires
                0 <= d as u128 <= 0x200_0000_0000u128,
                res as u128 <= 0x1_0000_0000u128,
        ;
    }
    let raw: u128 = (d as u128) * (res as u128) / (extent as u128);
    proof {
        assert(raw as int == ((d as int) * (res as int)) / (extent as int));
    }
    if raw >= res as u128 {
        res - 1
    } else {
        raw as u32
    }
}

/// The linear id of cell `(cx, cy, cz)`.
pub(crate) fn lin_index(res: &UVec3, cx: u32, cy: u32, cz: u32, cc: usize) -> (l: usize)
    requires
        model::res_wf(*res),
        model::valid_cell(*res, cx as int, cy as int, cz as int),
        model::cell_count(*res) == cc as int,
    ensures
        l as int == model::lin_cell(*res, cx as int, cy as int, cz as int),
        l < cc,
{
    proof {
        model::lemma_lin_cell(*res, cx as int, cy as int, cz as int);
        assert((cy as int) + model::res_at(*res, 1) * (cz as int) <= model::res_at(*res, 1)
            * model::res_at(*res, 2) - 1) by (nonlinear_arith)
            requires
                0 <= cy as int,
                (cy as int) < model::res_at(*res, 1),
                0 <= cz as int,
                (cz as int) < model::res_at(*res, 2),
        ;
        assert(model::res_at(*res, 1) * model::res_at(*res, 2) - 1 <= model::cell_count(*res) - 1)
            by (nonlinear_arith)
            requires
                model::res_at(*res, 0) >= 1,
                model::res_at(*res, 1) >= 1,
                model::res_at(*res, 2) >= 1,
                model::cell_count(*res) == model::res_at(*res, 0) * model::res_at(*res, 1)
                    * model::res_at(*res, 2),
        ;
    }
    let inner: usize = (cy as usize) + (res.position[1] as usize) * (cz as usize);
    let l: usize = (cx as usize) + (res.position[0] as usize) * inner;
    proof {
        assert(l as int == model::lin_cell(*res, cx as int, cy as int, cz as int));
    }
    l
}

/// Records, for every triangle, the inclusive cell range its bounding box
/// overlaps: the low corners in one array, the high corners in another.
fn record_ranges(
    positions: &Vec<Vec3>,
    indices: &Vec<UVec3>,
    bb: &BBox,
    res: &UVec3,
    tc: usize,
) -> (r: (Vec<UVec3>, Vec<UVec3>))
    requires
        model::mesh_wf(positions@, indices@, tc as int),
        resolver::bbox_wf(*bb),
        model::res_wf(*res),
    ensures
        r.0@ == model::tri_min_cells_seq(positions@, indices@, *bb, *res, tc as int),
        r.1@ == model::tri_max_cells_seq(positions@, indices@, *bb, *res, tc as int),
{
    let ghost mins_s = model::tri_min_cells_seq(positions@, indices@, *bb, *res, tc as int);
    let ghost maxs_s = model::tri_max_cells_seq(positions@, indices@, *bb, *res, tc as int);
    let mut mins: Vec<UVec3> = Vec::with_capacity(tc);
    let mut maxs: Vec<UVec3> = Vec::with_capacity(tc);
    proof {
        assert(-model::COORD_LIMIT <= model::pos_at(bb.min, 0) <= model::pos_at(bb.max, 0)
            <= model::COORD_LIMIT);
        assert(-model::COORD_LIMIT <= model::pos_at(bb.min, 1) <= model::pos_at(bb.max, 1)
            <= model::COORD_LIMIT);
        assert(-model::COORD_LIMIT <= model::pos_at(bb.min, 2) <= model::pos_at(bb.max, 2)
            <= model::COORD_LIMIT);
    }
    let ex = bb.max.position[0] - bb.min.position[0];
    let ey = bb.max.position[1] - bb.min.position[1];
    let ez = bb.max.position[2] - bb.min.position[2];
    let mut t: usize = 0;
    while t < tc
        invariant
            model::mesh_wf(positions@, indices@, tc as int),
            resolver::bbox_wf(*bb),
            model::res_wf(*res),
            ex as int == model::bb_extent(*bb, 0),
            ey as int == model::bb_extent(*bb, 1),
            ez as int == model::bb_extent(*bb, 2),
            0 <= ex <= 2 * model::COORD_LIMIT,
            0 <= ey <= 2 * model::COORD_LIMIT,
            0 <= ez <= 2 * model::COORD_LIMIT,
            mins_s == model::tri_min_cells_seq(positions@, indices@, *bb, *res, tc as int),
            maxs_s == model::tri_max_cells_seq(positions@, indices@, *bb, *res, tc as int),
            t <= tc,
            mins@.len() == t,
            maxs@.len() == t,
            forall|q: int| 0 <= q < t ==> #[trigger] mins@[q] == mins_s[q],
            forall|q: int| 0 <= q < t ==> #[trigger] maxs@[q] == maxs_s[q],
        decreases tc - t,
    {
        let (p0, p1, p2) = tri_vertices(positions, indices, t);
        let lov = vec3_min(&vec3_min(&p0, &p1), &p2);
        let hiv = vec3_max(&vec3_max(&p0, &p1), &p2);
        proof {
            assert forall|a: int| 0 <= a < 3 implies -model::COORD_LIMIT <= model::pos_at(lov, a)
                <= model::COORD_LIMIT && -model::COORD_LIMIT <= model::pos_at(hiv, a)
                <= model::COORD_LIMIT && model::pos_at(lov, a) == model::tri_lo(
                positions@,
                indices@,
                t as int,
                a,
            ) && model::pos_at(hiv, a) == model::tri_hi(positions@, indices@, t as int, a) by {
                assert(model::tri_coord(positions@, indices@, t as int, 0, a) == model::pos_at(
                    p0,
                    a,
                ));
                assert(model::tri_coord(positions@, indices@, t as int, 1, a) == model::pos_at(
                    p1,
                    a,
                ));
                assert(model::tri_coord(positions@, indices@, t as int, 2, a) == model::pos_at(
                    p2,
                    a,
                ));
            }
        }
        proof {
            assert(-model::COORD_LIMIT <= model::pos_at(lov, 0) <= model::COORD_LIMIT);
            assert(-model::COORD_LIMIT <= model::pos_at(lov, 1) <= model::COORD_LIMIT);
            assert(-model::COORD_LIMIT <= model::pos_at(lov, 2) <= model::COORD_LIMIT);
            assert(-model::COORD_LIMIT <= model::pos_at(hiv, 0) <= model::COORD_LIMIT);
            assert(-model::COORD_LIMIT <= model::pos_at(hiv, 1) <= model::COORD_LIMIT);
            assert(-model::COORD_LIMIT <= model::pos_at(hiv, 2) <= model::COORD_LIMIT);
        }
        let mn0 = cell_coord_of(bb.min.position[0], ex, res.position[0], lov.position[0]);
        let mn1 = cell_coord_of(bb.min.position[1], ey, res.position[1], lov.position[1]);
        let mn2 = cell_coord_of(bb.min.position[2], ez, res.position[2], lov.position[2]);
        let mx0 = cell_coord_of(bb.min.position[0], ex, res.position[0], hiv.position[0]);
        let mx1 = cell_coord_of(bb.min.position[1], ey, res.position[1], hiv.position[1]);
        let mx2 = cell_coord_of(bb.min.position[2], ez, res.position[2], hiv.position[2]);
        let mn = UVec3 { position: [mn0, mn1, mn2] };
        let mx = UVec3 { position: [mx0, mx1, mx2] };
        proof {
            assert(mn.position =~= mins_s[t as int].position);
            assert(mn =~= mins_s[t as int]);
            assert(mx.position =~= maxs_s[t as int].position);
            assert(mx =~= maxs_s[t as int]);
        }
        mins.push(mn);
        maxs.push(mx);
        t = t + 1;
    }
    proof {
        assert(mins@ =~= mins_s);
        assert(maxs@ =~= maxs_s);
    }
    (mins, maxs)
}

/// Adds one triangle's cell range to the per-cell counters: every cell in
/// `[mn, mx]` is incremented exactly once.
#[verifier::loop_isolation(false)]
fn scatter_count(counts: &mut Vec<u32>, mn: UVec3, mx: UVec3, res: UVec3, cc: usize)
    requires
        model::res_wf(res),
        model::cell_count(res) == cc as int,
        old(counts)@.len() == cc + 1,
        forall|a: int| 0 <= a < 3 ==> model::upos_at(mx, a) < model::res_at(res, a),
        forall|c: int| 0 <= c < old(counts)@.len() ==> #[trigger] old(counts)@[c] < u32::MAX,
    ensures
        final(counts)@.len() == old(counts)@.len(),
        forall|c: int|
            0 <= c < final(counts)@.len() ==> #[trigger] final(counts)@[c] == old(counts)@[c] + (if scanned(
                mn,
                mx,
                res,
                model::res_at(res, 2),
                0,
                0,
                c,
            ) {
                1int
            } else {
                0int
            }),
{
    let ghost base = counts@;
    let mn0 = mn.position[0];
    let mn1 = mn.position[1];
    let mn2 = mn.position[2];
    let mx0 = mx.position[0];
    let mx1 = mx.position[1];
    let mx2 = mx.position[2];
    let mut cz = mn2;
    while cz <= mx2
        invariant
            mn2 <= cz,
            counts@.len() == base.len(),
            forall|c: int|
                0 <= c < counts@.len() ==> #[trigger] counts@[c] == base[c] + (if scanned(
                    mn,
                    mx,
                    res,
                    cz as int,
                    mn1 as int,
                    mn0 as int,
                    c,
                ) {
                    1int
                } else {
                    0int
                }),
        decreases mx2 + 1 - cz,
    {
        let mut cy = mn1;
        while cy <= mx1
            invariant
                mn1 <= cy,
                counts@.len() == base.len(),
                forall|c: int|
                    0 <= c < counts@.len() ==> #[trigger] counts@[c] == base[c] + (if scanned(
                        mn,
                        mx,
                        res,
                        cz as int,
                        cy as int,
                        mn0 as int,
                        c,
                    ) {
                        1int
                    } else {
                        0int
                    }),
            decreases mx1 + 1 - cy,
        {
            let mut cx = mn0;
            while cx <= mx0
                invariant
                    mn0 <= cx,
                    counts@.len() == base.len(),
                    forall|c: int|
                        0 <= c < counts@.len() ==> #[trigger] counts@[c] == base[c] + (if scanned(
                            mn,
                            mx,
                            res,
                            cz as int,
                            cy as int,
                            cx as int,
                            c,
                        ) {
                            1int
                        } else {
                            0int
                        }),
                decreases mx0 + 1 - cx,
            {
                proof {
                    model::lemma_lin_cell(res, cx as int, cy as int, cz as int);
                }
                let l = lin_index(&res, cx, cy, cz, cc);
                let v = counts[l];
                proof {
                    assert(!scanned(mn, mx, res, cz as int, cy as int, cx as int, l as int));
                    assert(v < u32::MAX);
                }
                counts[l] = v + 1;
                proof {
                    assert forall|c: int| 0 <= c < counts@.len() implies #[trigger] counts@[c]
                        == base[c] + (if scanned(mn, mx, res, cz as int, cy as int, cx + 1, c) {
                        1int
                    } else {
                        0int
                    }) by {
                        if c == l as int {
                            assert(scanned(mn, mx, res, cz as int, cy as int, cx + 1, c));
                        } else {
                            if 0 <= c < cc as int {
                                model::lemma_decomp_cell(res, c);
                            } else {
                                model::lemma_last_slot(res);
                            }
                            assert(scanned(mn, mx, res, cz as int, cy as int, cx + 1, c) == scanned(
                                mn,
                                mx,
                                res,
                                cz as int,
                                cy as int,
                                cx as int,
                                c,
                            ));
                        }
                    }
                }
                cx = cx + 1;
            }
            proof {
                assert forall|c: int| 0 <= c < counts@.len() implies (#[trigger] scanned(
                    mn,
                    mx,
                    res,
                    cz as int,
                    cy + 1,
                    mn0 as int,
                    c,
                ) == scanned(mn, mx, res, cz as int, cy as int, mx0 + 1, c)) by {}
            }
            cy = cy + 1;
        }
        proof {
            assert forall|c: int| 0 <= c < counts@.len() implies (#[trigger] scanned(
                mn,
                mx,
                res,
                cz + 1,
                mn1 as int,
                mn0 as int,
                c,
            ) == scanned(mn, mx, res, cz as int, mx1 + 1, mn0 as int, c)) by {}
        }
        cz = cz + 1;
    }
    proof {
        assert forall|c: int| 0 <= c < counts@.len() implies (#[trigger] scanned(
            mn,
            mx,
            res,
            model::res_at(res, 2),
            0,
            0,
            c,
        ) == scanned(mn, mx, res, cz as int, mn1 as int, mn0 as int, c)) by {}
    }
}

/// Runs the counting pass: one scatter per triangle over its recorded
/// cell range.  Entry `c` of the result is the number of triangles whose
/// range covers cell `c`; the extra trailing slot stays zero.
#[verifier::loop_isolation(false)]
fn tally_counts(mins: &Vec<UVec3>, maxs: &Vec<UVec3>, res: UVec3, cc: usize, tc: usize) -> (counts:
    Vec<u32>)
    requires
        model::res_wf(res),
        model::cell_count(res) == cc as int,
        cc < usize::MAX,
        mins@.len() == tc,
        maxs@.len() == tc,
        tc <= u32::MAX,
        forall|t: int, a: int|
            0 <= t < tc && 0 <= a < 3 ==> #[trigger] model::upos_at(maxs@[t], a) < model::res_at(
                res,
                a,
            ),
    ensures
        counts@.len() == cc + 1,
        forall|c: int| 0 <= c < counts@.len() ==> #[trigger] counts@[c] == model::pairs_upto(
            mins@,
            maxs@,
            res,
            tc as int,
            c,
        ),
{
    let mut counts: Vec<u32> = Vec::with_capacity(cc + 1);
    let mut i: usize = 0;
    while i < cc + 1
        invariant
            i <= cc + 1,
            counts@.len() == i,
            forall|c: int| 0 <= c < i ==> #[trigger] counts@[c] == 0,
        decreases cc + 1 - i,
    {
        counts.push(0);
        i = i + 1;
    }
    let mut t: usize = 0;
    while t < tc
        invariant
            t <= tc,
            counts@.len() == cc + 1,
            forall|c: int| 0 <= c < counts@.len() ==> #[trigger] counts@[c] == model::pairs_upto(
                mins@,
                maxs@,
                res,
                t as int,
                c,
            ),
        decreases tc - t,
    {
        proof {
            assert forall|c: int| 0 <= c < counts@.len() implies #[trigger] counts@[c]
                < u32::MAX by {
                model::lemma_pairs_upto_le(mins@, maxs@, res, t as int, c);
            }
        }
        let mn = mins[t];
        let mx = maxs[t];
        scatter_count(&mut counts, mn, mx, res, cc);
        proof {
            assert forall|c: int| 0 <= c < counts@.len() implies #[trigger] counts@[c]
                == model::pairs_upto(mins@, maxs@, res, t + 1, c) by {
                assert(scanned(mn, mx, res, model::res_at(res, 2), 0, 0, c) == model::covers_lin(
                    mins@,
                    maxs@,
                    res,
                    t as int,
                    c,
                ));
            }
        }
        t = t + 1;
    }
    counts
}

/// The host-side exclusive prefix sum, in place: entry `j` becomes the sum
/// of the entries before it.  Fails exactly when a running total would
/// not fit `u32`.
#[verifier::loop_isolation(false)]
fn exclusive_prefix(counts: &mut Vec<u32>) -> (r: Result<(), GridError>)
    ensures
        match r {
            Ok(()) => {
                &&& final(counts)@.len() == old(counts)@.len()
                &&& forall|j: int| 0 <= j < final(counts)@.len() ==> #[trigger] final(counts)@[j] == sum_prefix(
                    old(counts)@,
                    j,
                )
                &&& sum_prefix(old(counts)@, old(counts)@.len() as int) <= u32::MAX
            },
            Err(e) => {
                &&& e == GridError::CapacityExceeded
                &&& sum_prefix(old(counts)@, old(counts)@.len() as int) > u32::MAX
            },
        },
{
    let ghost orig = counts@;
    let mut running: u32 = 0;
    let mut i: usize = 0;
    let n = counts.len();
    while i < n
        invariant
            i <= n,
            counts@.len() == n,
            running == sum_prefix(orig, i as int),
            forall|j: int| 0 <= j < i ==> #[trigger] counts@[j] == sum_prefix(orig, j),
            forall|j: int| i <= j < n ==> #[trigger] counts@[j] == orig[j],
        decreases n - i,
    {
        let c = counts[i];
        counts[i] = running;
        let next: u64 = running as u64 + c as u64;
        if next > u32::MAX as u64 {
            proof {
                lemma_sum_prefix_monotone(orig, i as int + 1, n as int);
            }
            return Err(GridError::CapacityExceeded);
        }
        running = next as u32;
        i = i + 1;
    }
    Ok(())
}

} // verus!
