//! Scene bounding-box computation.
//!
//! The device algorithm partitions triangles into fixed-size work groups,
//! each reducing its triangles' vertex positions to a local min and max
//! written into a shared output array (first half mins, second half
//! maxes); the host then folds that small per-group array into the global
//! bounding box.  Here both halves are plain verified loops over the same
//! grouping.

use vstd::prelude::*;
use crate::gl_types::{Vec3, vec3_max, vec3_min};
use crate::grid::model;

verus! {

/// Invocations per work group; each invocation of the reduction handles
/// two triangles, so a group spans `2 * WORKGROUP_SIZE` triangles.
pub const WORKGROUP_SIZE: usize = 256;

/// Triangles spanned by one reduction work group.
pub const GROUP_SPAN: usize = 512;

/// An axis-aligned scene bounding box in fixed-point world units.
#[derive(Clone, Copy, Debug)]
pub struct BBox {
    pub min: Vec3,
    pub max: Vec3,
}

/// The bounding-box reduction stage, sized for one mesh.
pub struct BBoxFinder {
    pub triangle_count: usize,
    pub work_groups_count: usize,
}

/// Work groups needed to span `tc` triangles.
pub open spec fn spec_groups_for(tc: int) -> int {
    tc / (GROUP_SPAN as int) + if tc % (GROUP_SPAN as int) == 0 {
        0int
    } else {
        1int
    }
}

/// `m` bounds every vertex coordinate of triangles `[lo, hi)` from below,
/// and attains the bound.
pub open spec fn group_min_wf(
    positions: Seq<Vec3>,
    indices: Seq<crate::gl_types::UVec3>,
    lo: int,
    hi: int,
    m: Vec3,
) -> bool {
    &&& forall|t: int, k: int, a: int|
        lo <= t < hi && 0 <= k < 3 && 0 <= a < 3 ==> model::pos_at(m, a) <= #[trigger] model::tri_coord(
            positions,
            indices,
            t,
            k,
            a,
        )
    &&& forall|a: int| 0 <= a < 3 ==> attained_in(positions, indices, lo, hi, a, model::pos_at(m, a))
}

/// `m` bounds every vertex coordinate of triangles `[lo, hi)` from above,
/// and attains the bound.
pub open spec fn group_max_wf(
    positions: Seq<Vec3>,
    indices: Seq<crate::gl_types::UVec3>,
    lo: int,
    hi: int,
    m: Vec3,
) -> bool {
    &&& forall|t: int, k: int, a: int|
        lo <= t < hi && 0 <= k < 3 && 0 <= a < 3 ==> model::pos_at(m, a) >= #[trigger] model::tri_coord(
            positions,
            indices,
            t,
            k,
            a,
        )
    &&& forall|a: int| 0 <= a < 3 ==> attained_in(positions, indices, lo, hi, a, model::pos_at(m, a))
}

/// Some vertex of triangles `[lo, hi)` has value `v` on axis `a`.
pub open spec fn attained_in(
    positions: Seq<Vec3>,
    indices: Seq<crate::gl_types::UVec3>,
    lo: int,
    hi: int,
    a: int,
    v: int,
) -> bool {
    exists|t: int, k: int|
        lo <= t < hi && 0 <= k < 3 && #[trigger] model::tri_coord(positions, indices, t, k, a) == v
}

impl BBoxFinder {
    /// Sizes the reduction for `triangle_count` triangles.
    pub fn new(triangle_count: usize) -> (r: BBoxFinder)
        ensures
            r.triangle_count == triangle_count,
            r.work_groups_count == spec_groups_for(triangle_count as int),
    {
        let work_groups_count = triangle_count / GROUP_SPAN;
        let work_groups_count = if triangle_count % GROUP_SPAN == 0 {
            work_groups_count
        } else {
            work_groups_count + 1
        };
        BBoxFinder { triangle_count, work_groups_count }
    }

    /// Reduces all triangle vertices to the scene bounding box: per-group
    /// partial mins and maxes first, then a linear fold across the groups.
    pub fn calculate_bbox(&self, positions: &Vec<Vec3>, indices: &Vec<crate::gl_types::UVec3>) -> (r:
        BBox)
        requires
            model::mesh_wf(positions@, indices@, self.triangle_count as int),
            self.work_groups_count == spec_groups_for(self.triangle_count as int),
        ensures
            model::is_bbox_of(positions@, indices@, self.triangle_count as int, r),
    {
        let tc = self.triangle_count;
        let wg = self.work_groups_count;
        proof {
            lemma_group_layout(tc as int, wg as int);
        }
        let mut partials: Vec<Vec3> = Vec::with_capacity(2 * wg);

        let mut g: usize = 0;
        while g < wg
            invariant
                model::mesh_wf(positions@, indices@, tc as int),
                wg == spec_groups_for(tc as int),
                g <= wg,
                partials@.len() == g,
                forall|q: int|
                    0 <= q < g ==> group_min_wf(
                        positions@,
                        indices@,
                        q * (GROUP_SPAN as int),
                        model::min2((q + 1) * (GROUP_SPAN as int), tc as int),
                        #[trigger] partials@[q],
                    ),
            decreases wg - g,
        {
            proof {
                lemma_group_bounds(tc as int, wg as int, g as int);
            }
            let start = g * GROUP_SPAN;
            let end = if tc - start < GROUP_SPAN {
                tc
            } else {
                start + GROUP_SPAN
            };
            let m = group_reduce_min(positions, indices, start, end);
            partials.push(m);
            g = g + 1;
        }

        let mut g: usize = 0;
        while g < wg
            invariant
                model::mesh_wf(positions@, indices@, tc as int),
                wg == spec_groups_for(tc as int),
                g <= wg,
                partials@.len() == wg + g,
                forall|q: int|
                    0 <= q < wg ==> group_min_wf(
                        positions@,
                        indices@,
                        q * (GROUP_SPAN as int),
                        model::min2((q + 1) * (GROUP_SPAN as int), tc as int),
                        #[trigger] partials@[q],
                    ),
                forall|q: int|
                    0 <= q < g ==> group_max_wf(
                        positions@,
                        indices@,
                        q * (GROUP_SPAN as int),
                        model::min2((q + 1) * (GROUP_SPAN as int), tc as int),
                        #[trigger] partials@[wg + q],
                    ),
            decreases wg - g,
        {
            proof {
                lemma_group_bounds(tc as int, wg as int, g as int);
            }
            let start = g * GROUP_SPAN;
            let end = if tc - start < GROUP_SPAN {
                tc
            } else {
                start + GROUP_SPAN
            };
            let m = group_reduce_max(positions, indices, start, end);
            partials.push(m);
            g = g + 1;
        }

        proof {
            lemma_group_bounds(tc as int, wg as int, 0);
        }
        let mut bb_min = partials[0];
        let mut g: usize = 1;
        while g < wg
            invariant
                model::mesh_wf(positions@, indices@, tc as int),
                wg == spec_groups_for(tc as int),
                1 <= g <= wg,
                partials@.len() == 2 * wg,
                forall|q: int|
                    0 <= q < wg ==> group_min_wf(
                        positions@,
                        indices@,
                        q * (GROUP_SPAN as int),
                        model::min2((q + 1) * (GROUP_SPAN as int), tc as int),
                        #[trigger] partials@[q],
                    ),
                group_min_wf(
                    positions@,
                    indices@,
                    0,
                    model::min2(g * (GROUP_SPAN as int), tc as int),
                    bb_min,
                ),
            decreases wg - g,
        {
            proof {
                lemma_group_bounds(tc as int, wg as int, g as int);
            }
            bb_min = fold_min_step(positions, indices, bb_min, partials[g], g, tc);
            g = g + 1;
        }

        proof {
            assert(group_max_wf(
                positions@,
                indices@,
                0int * (GROUP_SPAN as int),
                model::min2((0int + 1) * (GROUP_SPAN as int), tc as int),
                partials@[wg as int + 0],
            ));
        }
        let mut bb_max = partials[wg];
        let mut g: usize = 1;
        while g < wg
            invariant
                model::mesh_wf(positions@, indices@, tc as int),
                wg == spec_groups_for(tc as int),
                1 <= g <= wg,
                partials@.len() == 2 * wg,
                forall|q: int|
                    0 <= q < wg ==> group_max_wf(
                        positions@,
                        indices@,
                        q * (GROUP_SPAN as int),
                        model::min2((q + 1) * (GROUP_SPAN as int), tc as int),
                        #[trigger] partials@[wg + q],
                    ),
                group_max_wf(
                    positions@,
                    indices@,
                    0,
                    model::min2(g * (GROUP_SPAN as int), tc as int),
                    bb_max,
                ),
            decreases wg - g,
        {
            proof {
                lemma_group_bounds(tc as int, wg as int, g as int);
            }
            bb_max = fold_max_step(positions, indices, bb_max, partials[wg + g], g, tc);
            g = g + 1;
        }

        proof {
            lemma_group_layout(tc as int, wg as int);
            assert(model::min2(wg as int * (GROUP_SPAN as int), tc as int) == tc as int);
        }
        BBox { min: bb_min, max: bb_max }
    }
}

/// One fold step of the host-side min reduction: extends the covered
/// triangle range by one group.
fn fold_min_step(
    positions: &Vec<Vec3>,
    indices: &Vec<crate::gl_types::UVec3>,
    acc: Vec3,
    part: Vec3,
    g: usize,
    tc: usize,
) -> (r: Vec3)
    requires
        group_min_wf(positions@, indices@, 0, model::min2(g * (GROUP_SPAN as int), tc as int), acc),
        group_min_wf(
            positions@,
            indices@,
            g * (GROUP_SPAN as int),
            model::min2((g + 1) * (GROUP_SPAN as int), tc as int),
            part,
        ),
        g * (GROUP_SPAN as int) < tc as int,
    ensures
        group_min_wf(
            positions@,
            indices@,
            0,
            model::min2((g + 1) * (GROUP_SPAN as int), tc as int),
            r,
        ),
{
    let r = vec3_min(&acc, &part);
    proof {
        let lo = g * (GROUP_SPAN as int);
        let mid = model::min2(lo, tc as int);
        let hi = model::min2((g + 1) * (GROUP_SPAN as int), tc as int);
        assert(mid == lo);
        assert forall|a: int| 0 <= a < 3 implies attained_in(
            positions@,
            indices@,
            0,
            hi,
            a,
            model::pos_at(r, a),
        ) by {
            if model::pos_at(r, a) == model::pos_at(acc, a) {
                let (t, k) = choose|t: int, k: int|
                    0 <= t < lo && 0 <= k < 3 && #[trigger] model::tri_coord(
                        positions@,
                        indices@,
                        t,
                        k,
                        a,
                    ) == model::pos_at(acc, a);
                assert(lo <= hi);
                assert(model::tri_coord(positions@, indices@, t, k, a) == model::pos_at(r, a));
            } else {
                let (t, k) = choose|t: int, k: int|
                    lo <= t < hi && 0 <= k < 3 && #[trigger] model::tri_coord(
                        positions@,
                        indices@,
                        t,
                        k,
                        a,
                    ) == model::pos_at(part, a);
                assert(model::tri_coord(positions@, indices@, t, k, a) == model::pos_at(r, a));
            }
        }
    }
    r
}

/// One fold step of the host-side max reduction.
fn fold_max_step(
    positions: &Vec<Vec3>,
    indices: &Vec<crate::gl_types::UVec3>,
    acc: Vec3,
    part: Vec3,
    g: usize,
    tc: usize,
) -> (r: Vec3)
    requires
        group_max_wf(positions@, indices@, 0, model::min2(g * (GROUP_SPAN as int), tc as int), acc),
        group_max_wf(
            positions@,
            indices@,
            g * (GROUP_SPAN as int),
            model::min2((g + 1) * (GROUP_SPAN as int), tc as int),
            part,
        ),
        g * (GROUP_SPAN as int) < tc as int,
    ensures
        group_max_wf(
            positions@,
            indices@,
            0,
            model::min2((g + 1) * (GROUP_SPAN as int), tc as int),
            r,
        ),
{
    let r = vec3_max(&acc, &part);
    proof {
        let lo = g * (GROUP_SPAN as int);
        let hi = model::min2((g + 1) * (GROUP_SPAN as int), tc as int);
        assert forall|a: int| 0 <= a < 3 implies attained_in(
            positions@,
            indices@,
            0,
            hi,
            a,
            model::pos_at(r, a),
        ) by {
            if model::pos_at(r, a) == model::pos_at(acc, a) {
                let (t, k) = choose|t: int, k: int|
                    0 <= t < lo && 0 <= k < 3 && #[trigger] model::tri_coord(
                        positions@,
                        indices@,
                        t,
                        k,
                        a,
                    ) == model::pos_at(acc, a);
                assert(model::tri_coord(positions@, indices@, t, k, a) == model::pos_at(r, a));
            } else {
                let (t, k) = choose|t: int, k: int|
                    lo <= t < hi && 0 <= k < 3 && #[trigger] model::tri_coord(
                        positions@,
                        indices@,
                        t,
                        k,
                        a,
                    ) == model::pos_at(part, a);
                assert(model::tri_coord(positions@, indices@, t, k, a) == model::pos_at(r, a));
            }
        }
    }
    r
}

/// Componentwise minimum over the vertices of triangles `[start, end)`.
fn group_reduce_min(
    positions: &Vec<Vec3>,
    indices: &Vec<crate::gl_types::UVec3>,
    start: usize,
    end: usize,
) -> (m: Vec3)
    requires
        model::mesh_wf(positions@, indices@, end as int),
        start < end,
    ensures
        group_min_wf(positions@, indices@, start as int, end as int, m),
{
    let (p0, p1, p2) = tri_vertices(positions, indices, start);
    let mut cur = vec3_min(&vec3_min(&p0, &p1), &p2);
    proof {
        assert forall|a: int| 0 <= a < 3 implies attained_in(
            positions@,
            indices@,
            start as int,
            start + 1,
            a,
            model::pos_at(cur, a),
        ) by {
            if model::pos_at(cur, a) == model::tri_coord(positions@, indices@, start as int, 0, a) {
            } else if model::pos_at(cur, a) == model::tri_coord(
                positions@,
                indices@,
                start as int,
                1,
                a,
            ) {
            } else {
                assert(model::pos_at(cur, a) == model::tri_coord(
                    positions@,
                    indices@,
                    start as int,
                    2,
                    a,
                ));
            }
        }
    }
    let mut t = start + 1;
    while t < end
        invariant
            model::mesh_wf(positions@, indices@, end as int),
            start < t <= end,
            group_min_wf(positions@, indices@, start as int, t as int, cur),
        decreases end - t,
    {
        let (q0, q1, q2) = tri_vertices(positions, indices, t);
        let next = vec3_min(&vec3_min(&vec3_min(&cur, &q0), &q1), &q2);
        proof {
            assert forall|a: int| 0 <= a < 3 implies attained_in(
                positions@,
                indices@,
                start as int,
                t + 1,
                a,
                model::pos_at(next, a),
            ) by {
                if model::pos_at(next, a) == model::pos_at(cur, a) {
                    let (t2, k2) = choose|t2: int, k2: int|
                        start <= t2 < t && 0 <= k2 < 3 && #[trigger] model::tri_coord(
                            positions@,
                            indices@,
                            t2,
                            k2,
                            a,
                        ) == model::pos_at(cur, a);
                    assert(model::tri_coord(positions@, indices@, t2, k2, a) == model::pos_at(
                        next,
                        a,
                    ));
                } else if model::pos_at(next, a) == model::tri_coord(
                    positions@,
                    indices@,
                    t as int,
                    0,
                    a,
                ) {
                } else if model::pos_at(next, a) == model::tri_coord(
                    positions@,
                    indices@,
                    t as int,
                    1,
                    a,
                ) {
                } else {
                    assert(model::pos_at(next, a) == model::tri_coord(
                        positions@,
                        indices@,
                        t as int,
                        2,
                        a,
                    ));
                }
            }
        }
        cur = next;
        t = t + 1;
    }
    cur
}

/// Componentwise maximum over the vertices of triangles `[start, end)`.
fn group_reduce_max(
    positions: &Vec<Vec3>,
    indices: &Vec<crate::gl_types::UVec3>,
    start: usize,
    end: usize,
) -> (m: Vec3)
    requires
        model::mesh_wf(positions@, indices@, end as int),
        start < end,
    ensures
        group_max_wf(positions@, indices@, start as int, end as int, m),
{
    let (p0, p1, p2) = tri_vertices(positions, indices, start);
    let mut cur = vec3_max(&vec3_max(&p0, &p1), &p2);
    proof {
        assert forall|a: int| 0 <= a < 3 implies attained_in(
            positions@,
            indices@,
            start as int,
            start + 1,
            a,
            model::pos_at(cur, a),
        ) by {
            if model::pos_at(cur, a) == model::tri_coord(positions@, indices@, start as int, 0, a) {
            } else if model::pos_at(cur, a) == model::tri_coord(
                positions@,
                indices@,
                start as int,
                1,
                a,
            ) {
            } else {
                assert(model::pos_at(cur, a) == model::tri_coord(
                    positions@,
                    indices@,
                    start as int,
                    2,
                    a,
                ));
            }
        }
    }
    let mut t = start + 1;
    while t < end
        invariant
            model::mesh_wf(positions@, indices@, end as int),
            start < t <= end,
            group_max_wf(positions@, indices@, start as int, t as int, cur),
        decreases end - t,
    {
        let (q0, q1, q2) = tri_vertices(positions, indices, t);
        let next = vec3_max(&vec3_max(&vec3_max(&cur, &q0), &q1), &q2);
        proof {
            assert forall|a: int| 0 <= a < 3 implies attained_in(
                positions@,
                indices@,
                start as int,
                t + 1,
                a,
                model::pos_at(next, a),
            ) by {
                if model::pos_at(next, a) == model::pos_at(cur, a) {
                    let (t2, k2) = choose|t2: int, k2: int|
                        start <= t2 < t && 0 <= k2 < 3 && #[trigger] model::tri_coord(
                            positions@,
                            indices@,
                            t2,
                            k2,
                            a,
                        ) == model::pos_at(cur, a);
                    assert(model::tri_coord(positions@, indices@, t2, k2, a) == model::pos_at(
                        next,
                        a,
                    ));
                } else if model::pos_at(next, a) == model::tri_coord(
                    positions@,
                    indices@,
                    t as int,
                    0,
                    a,
                ) {
                } else if model::pos_at(next, a) == model::tri_coord(
                    positions@,
                    indices@,
                    t as int,
                    1,
                    a,
                ) {
                } else {
                    assert(model::pos_at(next, a) == model::tri_coord(
                        positions@,
                        indices@,
                        t as int,
                        2,
                        a,
                    ));
                }
            }
        }
        cur = next;
        t = t + 1;
    }
    cur
}

/// The three vertex positions of triangle `t`.
pub(crate) fn tri_vertices(positions: &Vec<Vec3>, indices: &Vec<crate::gl_types::UVec3>, t: usize) -> (r: (
    Vec3,
    Vec3,
    Vec3,
))
    requires
        t < indices@.len(),
        forall|k: int| 0 <= k < 3 ==> #[trigger] model::upos_at(indices@[t as int], k)
            < positions@.len(),
    ensures
        r.0 == positions@[model::upos_at(indices@[t as int], 0)],
        r.1 == positions@[model::upos_at(indices@[t as int], 1)],
        r.2 == positions@[model::upos_at(indices@[t as int], 2)],
{
    let tri = indices[t];
    proof {
        assert(model::upos_at(indices@[t as int], 0) < positions@.len());
        assert(model::upos_at(indices@[t as int], 1) < positions@.len());
        assert(model::upos_at(indices@[t as int], 2) < positions@.len());
    }
    let p0 = positions[tri.position[0] as usize];
    let p1 = positions[tri.position[1] as usize];
    let p2 = positions[tri.position[2] as usize];
    (p0, p1, p2)
}

/// Facts about the work-group tiling of `[0, tc)`.
proof fn lemma_group_layout(tc: int, wg: int)
    requires
        tc >= 1,
        wg == spec_groups_for(tc),
    ensures
        wg >= 1,
        wg * (GROUP_SPAN as int) >= tc,
{
    let s = GROUP_SPAN as int;
    vstd::arithmetic::div_mod::lemma_fundamental_div_mod(tc, s);
    assert(wg * s >= tc) by (nonlinear_arith)
        requires
            tc == s * (tc / s) + tc % s,
            0 <= tc % s < s,
            wg == tc / s + if tc % s == 0 {
                0int
            } else {
                1int
            },
            s >= 1,
    ;
    assert(wg >= 1) by (nonlinear_arith)
        requires
            wg * s >= tc,
            tc >= 1,
            s >= 1,
    ;
}

/// Bounds on one work group's triangle range.
proof fn lemma_group_bounds(tc: int, wg: int, g: int)
    requires
        tc >= 1,
        wg == spec_groups_for(tc),
        0 <= g < wg,
    ensures
        g * (GROUP_SPAN as int) < tc,
        g * (GROUP_SPAN as int) >= 0,
{
    let s = GROUP_SPAN as int;
    vstd::arithmetic::div_mod::lemma_fundamental_div_mod(tc, s);
    assert(g * s < tc && g * s >= 0) by (nonlinear_arith)
        requires
            tc == s * (tc / s) + tc % s,
            0 <= tc % s < s,
            wg == tc / s + if tc % s == 0 {
                0int
            } else {
                1int
            },
            0 <= g < wg,
            s >= 1,
    ;
}

} // verus!
