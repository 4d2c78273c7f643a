//! Scatter-writing triangle references into the per-cell bucket array.
//!
//! One invocation per triangle walks the cell range recorded by the
//! counter (supplied, not recomputed), draws a unique slot from the
//! cell's cursor — seeded at zero and added to the cell's offset — and
//! writes its own triangle index there.  Because every triangle's
//! contribution to a cell was counted exactly once and is written exactly
//! once over the same range, the writes fill `[offsets[c], offsets[c+1])`
//! for every cell with no gaps and no duplicates: the core correctness
//! invariant of the whole structure.

use vstd::prelude::*;
use crate::gl_types::UVec3;
use crate::grid::model;
use crate::grid::pair_counter::{CountPairsResult, scanned};

verus! {

/// Invocations per writing work group.
pub const WORKGROUP_SIZE: usize = 256;

/// The scatter-writing stage, sized for one mesh.
pub struct PairWriter {
    pub work_groups_count: usize,
}

/// Work groups needed for one invocation per triangle.
pub open spec fn spec_write_groups(tc: int) -> int {
    tc / (WORKGROUP_SIZE as int) + if tc % (WORKGROUP_SIZE as int) == 0 {
        0int
    } else {
        1int
    }
}

/// The first `k` triangles stand in the reference buffer: each at slot
/// `offsets[c] + pairs_upto(t, c)` of every cell `c` its range covers.
pub open spec fn written_upto(
    mins: Seq<UVec3>,
    maxs: Seq<UVec3>,
    res: UVec3,
    offsets: Seq<u32>,
    refs: Seq<u32>,
    k: int,
    cc: int,
) -> bool {
    forall|t: int, c: int|
        0 <= t < k && 0 <= c < cc && #[trigger] model::covers_lin(mins, maxs, res, t, c)
            ==> offsets[c] + model::pairs_upto(mins, maxs, res, t, c) < refs.len() && refs[offsets[c]
            + model::pairs_upto(mins, maxs, res, t, c)] == t
}

impl PairWriter {
    /// Sizes the writing pass for `triangle_count` triangles.
    pub fn new(triangle_count: usize) -> (r: PairWriter)
        ensures
            r.work_groups_count == spec_write_groups(triangle_count as int),
    {
        let work_groups_count = triangle_count / WORKGROUP_SIZE;
        let work_groups_count = if triangle_count % WORKGROUP_SIZE == 0 {
            work_groups_count
        } else {
            work_groups_count + 1
        };
        PairWriter { work_groups_count }
    }

    /// Fills the reference buffer from the counter's recorded ranges and
    /// offsets.  Returns the offsets (handed through unchanged) and the
    /// completed reference buffer.
    pub fn write_pairs(&self, count_pairs_result: CountPairsResult, resolution: &UVec3) -> (r: (
        Vec<u32>,
        Vec<u32>,
    ))
        requires
            ({
                let cp = count_pairs_result;
                let tc = cp.min_cells_buffer@.len() as int;
                let cc = model::cell_count(*resolution);
                let total = model::pairs_total_upto_cell(
                    cp.min_cells_buffer@,
                    cp.max_cells_buffer@,
                    *resolution,
                    tc,
                    cc,
                );
                &&& model::res_wf(*resolution)
                &&& cc < usize::MAX
                &&& cp.max_cells_buffer@.len() == tc
                &&& tc <= u32::MAX
                &&& forall|t: int, a: int|
                    0 <= t < tc && 0 <= a < 3 ==> #[trigger] model::upos_at(
                        cp.max_cells_buffer@[t],
                        a,
                    ) < model::res_at(*resolution, a)
                &&& model::offsets_wf(
                    cp.min_cells_buffer@,
                    cp.max_cells_buffer@,
                    *resolution,
                    tc,
                    cp.cells_buffer@,
                )
                &&& total <= u32::MAX
                &&& cp.pair_count == total
            }),
        ensures
            ({
                let cp = count_pairs_result;
                let tc = cp.min_cells_buffer@.len() as int;
                &&& r.0@ == cp.cells_buffer@
                &&& r.1@.len() == cp.pair_count
                &&& model::references_wf(
                    cp.min_cells_buffer@,
                    cp.max_cells_buffer@,
                    *resolution,
                    tc,
                    cp.cells_buffer@,
                    r.1@,
                )
            }),
    {
        let ghost mins = count_pairs_result.min_cells_buffer@;
        let ghost maxs = count_pairs_result.max_cells_buffer@;
        let ghost tc_full = count_pairs_result.min_cells_buffer@.len() as int;
        let tc = count_pairs_result.min_cells_buffer.len();
        let nx = resolution.position[0];
        let ny = resolution.position[1];
        let nz = resolution.position[2];
        proof {
            assert((nx as u128) * (ny as u128) * (nz as u128) == model::cell_count(*resolution)
                && (nx as u128) * (ny as u128) <= 0x1_0000_0000_0000_0000u128
                && (nx as u128) * (ny as u128) * (nz as u128)
                <= 0x1_0000_0000_0000_0000_0000_0000u128) by (nonlinear_arith)
                requires
                    nx as int == model::res_at(*resolution, 0),
                    ny as int == model::res_at(*resolution, 1),
                    nz as int == model::res_at(*resolution, 2),
                    nx <= 0xFFFF_FFFFu32,
                    ny <= 0xFFFF_FFFFu32,
                    nz <= 0xFFFF_FFFFu32,
                    model::cell_count(*resolution) == model::res_at(*resolution, 0) * model::res_at(
                        *resolution,
                        1,
                    ) * model::res_at(*resolution, 2),
            ;
        }
        let m128: u128 = (nx as u128) * (ny as u128) * (nz as u128);
        let cc = m128 as usize;

        let mut cursors: Vec<u32> = Vec::with_capacity(cc);
        let mut i: usize = 0;
        while i < cc
            invariant
                i <= cc,
                cursors@.len() == i,
                forall|c: int| 0 <= c < i ==> #[trigger] cursors@[c] == 0,
            decreases cc - i,
        {
            cursors.push(0);
            i = i + 1;
        }

        let total = count_pairs_result.pair_count;
        let mut refs: Vec<u32> = Vec::with_capacity(total);
        let mut i: usize = 0;
        while i < total
            invariant
                i <= total,
                refs@.len() == i,
            decreases total - i,
        {
            refs.push(0);
            i = i + 1;
        }

        let offs = &count_pairs_result.cells_buffer;
        let mut t: usize = 0;
        while t < tc
            invariant
                model::res_wf(*resolution),
                model::cell_count(*resolution) == cc as int,
                tc as int == tc_full,
                tc_full <= u32::MAX,
                mins == count_pairs_result.min_cells_buffer@,
                maxs == count_pairs_result.max_cells_buffer@,
                mins.len() == tc_full,
                maxs.len() == tc_full,
                forall|q: int, a: int|
                    0 <= q < tc_full && 0 <= a < 3 ==> #[trigger] model::upos_at(maxs[q], a)
                        < model::res_at(*resolution, a),
                model::offsets_wf(mins, maxs, *resolution, tc_full, offs@),
                model::pairs_total_upto_cell(mins, maxs, *resolution, tc_full, cc as int)
                    <= u32::MAX,
                refs@.len() == model::pairs_total_upto_cell(
                    mins,
                    maxs,
                    *resolution,
                    tc_full,
                    cc as int,
                ),
                cursors@.len() == cc,
                t <= tc,
                forall|c: int| 0 <= c < cc ==> #[trigger] cursors@[c] == model::pairs_upto(
                    mins,
                    maxs,
                    *resolution,
                    t as int,
                    c,
                ),
                written_upto(mins, maxs, *resolution, offs@, refs@, t as int, cc as int),
            decreases tc - t,
        {
            let mn = count_pairs_result.min_cells_buffer[t];
            let mx = count_pairs_result.max_cells_buffer[t];
            scatter_write(
                &mut cursors,
                &mut refs,
                offs,
                mn,
                mx,
                *resolution,
                cc,
                t,
                Ghost(mins),
                Ghost(maxs),
                Ghost(tc_full),
            );
            t = t + 1;
        }
        let cells_buffer = count_pairs_result.cells_buffer;
        (cells_buffer, refs)
    }
}

/// Writes one triangle's index into every cell of its recorded range,
/// advancing each covered cell's cursor by one.
#[verifier::loop_isolation(false)]
#[verifier::rlimit(60)]
fn scatter_write(
    cursors: &mut Vec<u32>,
    refs: &mut Vec<u32>,
    offs: &Vec<u32>,
    mn: UVec3,
    mx: UVec3,
    res: UVec3,
    cc: usize,
    t: usize,
    Ghost(mins): Ghost<Seq<UVec3>>,
    Ghost(maxs): Ghost<Seq<UVec3>>,
    Ghost(tc_full): Ghost<int>,
)
    requires
        model::res_wf(res),
        model::cell_count(res) == cc as int,
        (t as int) < tc_full,
        tc_full <= u32::MAX,
        mins.len() == tc_full,
        maxs.len() == tc_full,
        mins[t as int] == mn,
        maxs[t as int] == mx,
        forall|a: int| 0 <= a < 3 ==> model::upos_at(mx, a) < model::res_at(res, a),
        offs@.len() == cc + 1,
        forall|j: int| 0 <= j <= cc ==> #[trigger] offs@[j] == model::pairs_total_upto_cell(
            mins,
            maxs,
            res,
            tc_full,
            j,
        ),
        model::pairs_total_upto_cell(mins, maxs, res, tc_full, cc as int) <= u32::MAX,
        old(refs)@.len() == model::pairs_total_upto_cell(mins, maxs, res, tc_full, cc as int),
        old(cursors)@.len() == cc,
        forall|c: int| 0 <= c < cc ==> #[trigger] old(cursors)@[c] == model::pairs_upto(
            mins,
            maxs,
            res,
            t as int,
            c,
        ),
        written_upto(mins, maxs, res, offs@, old(refs)@, t as int, cc as int),
    ensures
        final(cursors)@.len() == cc,
        final(refs)@.len() == old(refs)@.len(),
        forall|c: int| 0 <= c < cc ==> #[trigger] final(cursors)@[c] == model::pairs_upto(
            mins,
            maxs,
            res,
            t as int + 1,
            c,
        ),
        written_upto(mins, maxs, res, offs@, final(refs)@, t as int + 1, cc as int),
{
    let mn0 = mn.position[0];
    let mn1 = mn.position[1];
    let mn2 = mn.position[2];
    let mx0 = mx.position[0];
    let mx1 = mx.position[1];
    let mx2 = mx.position[2];
    let mut cz = mn2;
    while cz <= mx2
        invariant
            mn2 <= cz,
            cursors@.len() == cc,
            refs@.len() == old(refs)@.len(),
            forall|c: int| 0 <= c < cc ==> #[trigger] cursors@[c] == model::pairs_upto(
                mins,
                maxs,
                res,
                t as int,
                c,
            ) + (if scanned(mn, mx, res, cz as int, mn1 as int, mn0 as int, c) {
                1int
            } else {
                0int
            }),
            written_upto(mins, maxs, res, offs@, refs@, t as int, cc as int),
            forall|c: int|
                0 <= c < cc && #[trigger] scanned(mn, mx, res, cz as int, mn1 as int, mn0 as int, c)
                    ==> offs@[c] + model::pairs_upto(mins, maxs, res, t as int, c) < refs@.len()
                    && refs@[offs@[c] + model::pairs_upto(mins, maxs, res, t as int, c)] == t,
        decreases mx2 + 1 - cz,
    {
        let mut cy = mn1;
        while cy <= mx1
            invariant
                mn1 <= cy,
                cursors@.len() == cc,
                refs@.len() == old(refs)@.len(),
                forall|c: int| 0 <= c < cc ==> #[trigger] cursors@[c] == model::pairs_upto(
                    mins,
                    maxs,
                    res,
                    t as int,
                    c,
                ) + (if scanned(mn, mx, res, cz as int, cy as int, mn0 as int, c) {
                    1int
                } else {
                    0int
                }),
                written_upto(mins, maxs, res, offs@, refs@, t as int, cc as int),
                forall|c: int|
                    0 <= c < cc && #[trigger] scanned(
                        mn,
                        mx,
                        res,
                        cz as int,
                        cy as int,
                        mn0 as int,
                        c,
                    ) ==> offs@[c] + model::pairs_upto(mins, maxs, res, t as int, c) < refs@.len()
                        && refs@[offs@[c] + model::pairs_upto(mins, maxs, res, t as int, c)] == t,
            decreases mx1 + 1 - cy,
        {
            let mut cx = mn0;
            while cx <= mx0
                invariant
                    mn0 <= cx,
                    cursors@.len() == cc,
                    refs@.len() == old(refs)@.len(),
                    forall|c: int| 0 <= c < cc ==> #[trigger] cursors@[c] == model::pairs_upto(
                        mins,
                        maxs,
                        res,
                        t as int,
                        c,
                    ) + (if scanned(mn, mx, res, cz as int, cy as int, cx as int, c) {
                        1int
                    } else {
                        0int
                    }),
                    written_upto(mins, maxs, res, offs@, refs@, t as int, cc as int),
                    forall|c: int|
                        0 <= c < cc && #[trigger] scanned(
                            mn,
                            mx,
                            res,
                            cz as int,
                            cy as int,
                            cx as int,
                            c,
                        ) ==> offs@[c] + model::pairs_upto(mins, maxs, res, t as int, c)
                            < refs@.len() && refs@[offs@[c] + model::pairs_upto(
                            mins,
                            maxs,
                            res,
                            t as int,
                            c,
                        )] == t,
                decreases mx0 + 1 - cx,
            {
                proof {
                    model::lemma_lin_cell(res, cx as int, cy as int, cz as int);
                }
                let l = crate::grid::pair_counter::lin_index(&res, cx, cy, cz, cc);
                proof {
                    assert(!scanned(mn, mx, res, cz as int, cy as int, cx as int, l as int));
                    assert(model::covers_lin(mins, maxs, res, t as int, l as int));
                    model::lemma_pairs_upto_strict(mins, maxs, res, t as int, tc_full, l as int);
                    model::lemma_total_monotone(mins, maxs, res, tc_full, l as int + 1, cc as int);
                    assert(offs@[l as int] + model::pairs_upto(mins, maxs, res, t as int, l as int)
                        < refs@.len());
                }
                let off_l = offs[l];
                let cur_l = cursors[l];
                let slot = off_l + cur_l;
                let ghost refs_before = refs@;
                refs[slot as usize] = t as u32;
                cursors[l] = cur_l + 1;
                proof {
                    assert forall|c: int| 0 <= c < cc implies #[trigger] cursors@[c]
                        == model::pairs_upto(mins, maxs, res, t as int, c) + (if scanned(
                        mn,
                        mx,
                        res,
                        cz as int,
                        cy as int,
                        cx + 1,
                        c,
                    ) {
                        1int
                    } else {
                        0int
                    }) by {
                        if c == l as int {
                            assert(scanned(mn, mx, res, cz as int, cy as int, cx + 1, c));
                        } else {
                            model::lemma_decomp_cell(res, c);
                            assert(scanned(mn, mx, res, cz as int, cy as int, cx + 1, c) == scanned(
                                mn,
                                mx,
                                res,
                                cz as int,
                                cy as int,
                                cx as int,
                                c,
                            ));
                        }
                    }
                    assert forall|t2: int, c2: int|
                        0 <= t2 < t as int && 0 <= c2 < cc && #[trigger] model::covers_lin(
                            mins,
                            maxs,
                            res,
                            t2,
                            c2,
                        ) implies offs@[c2] + model::pairs_upto(mins, maxs, res, t2, c2)
                        < refs@.len() && refs@[offs@[c2] + model::pairs_upto(mins, maxs, res, t2, c2)]
                        == t2 by {
                        model::lemma_slots_distinct(
                            mins,
                            maxs,
                            res,
                            tc_full,
                            t2,
                            c2,
                            t as int,
                            l as int,
                        );
                    }
                    assert forall|c: int|
                        0 <= c < cc && #[trigger] scanned(
                            mn,
                            mx,
                            res,
                            cz as int,
                            cy as int,
                            cx + 1,
                            c,
                        ) implies offs@[c] + model::pairs_upto(mins, maxs, res, t as int, c)
                        < refs@.len() && refs@[offs@[c] + model::pairs_upto(mins, maxs, res, t as int, c)]
                        == t by {
                        if c == l as int {
                        } else {
                            model::lemma_decomp_cell(res, c);
                            assert(scanned(mn, mx, res, cz as int, cy as int, cx as int, c));
                            model::lemma_slots_distinct(
                                mins,
                                maxs,
                                res,
                                tc_full,
                                t as int,
                                c,
                                t as int,
                                l as int,
                            );
                        }
                    }
                }
                cx = cx + 1;
            }
            proof {
                assert forall|c: int| 0 <= c < cc implies (#[trigger] scanned(
                    mn,
                    mx,
                    res,
                    cz as int,
                    cy + 1,
                    mn0 as int,
                    c,
                ) == scanned(mn, mx, res, cz as int, cy as int, cx as int, c)) by {}
            }
            cy = cy + 1;
        }
        proof {
            assert forall|c: int| 0 <= c < cc implies (#[trigger] scanned(
                mn,
                mx,
                res,
                cz + 1,
                mn1 as int,
                mn0 as int,
                c,
            ) == scanned(mn, mx, res, cz as int, cy as int, mn0 as int, c)) by {}
        }
        cz = cz + 1;
    }
    proof {
        assert forall|c: int| 0 <= c < cc implies #[trigger] cursors@[c] == model::pairs_upto(
            mins,
            maxs,
            res,
            t as int + 1,
            c,
        ) by {
            assert(scanned(mn, mx, res, cz as int, mn1 as int, mn0 as int, c) == model::covers_lin(
                mins,
                maxs,
                res,
                t as int,
                c,
            ));
        }
        assert forall|t2: int, c2: int|
            0 <= t2 < t as int + 1 && 0 <= c2 < cc && #[trigger] model::covers_lin(
                mins,
                maxs,
                res,
                t2,
                c2,
            ) implies offs@[c2] + model::pairs_upto(mins, maxs, res, t2, c2) < refs@.len()
            && refs@[offs@[c2] + model::pairs_upto(mins, maxs, res, t2, c2)] == t2 by {
            if t2 == t as int {
                assert(scanned(mn, mx, res, cz as int, mn1 as int, mn0 as int, c2));
            }
        }
    }
}

} // verus!
