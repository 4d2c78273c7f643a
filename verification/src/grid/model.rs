//! The mathematical model of the uniform grid.
//!
//! Everything the grid stages promise is stated over these spec functions:
//! which coordinates a triangle's bounding box spans, which cell a
//! coordinate falls into, how cells are linearised, and how many
//! triangle/cell overlap pairs precede a given triangle in a given cell.

use vstd::prelude::*;
use crate::gl_types::{UVec3, Vec3};

verus! {

/// Largest coordinate magnitude (in fixed-point world units) the grid
/// arithmetic accepts.  The bound keeps every intermediate product of the
/// resolution rule and of the cell-index computation inside `i128`/`u128`.
pub const COORD_LIMIT: i64 = 0x100_0000_0000;

/// One coordinate of a position record.
pub open spec fn pos_at(p: Vec3, a: int) -> int {
    p.position[a] as int
}

/// One component of an unsigned triple.
pub open spec fn upos_at(u: UVec3, a: int) -> int {
    u.position[a] as int
}

/// A well-formed mesh: at least one triangle, the first `tcount` index
/// triples all refer into `positions`, and every coordinate is within the
/// magnitude the grid arithmetic accepts.
pub open spec fn mesh_wf(positions: Seq<Vec3>, indices: Seq<UVec3>, tcount: int) -> bool {
    &&& 1 <= tcount
    &&& tcount <= indices.len()
    &&& tcount <= u32::MAX
    &&& forall|t: int, k: int|
        0 <= t < tcount && 0 <= k < 3 ==> #[trigger] upos_at(indices[t], k) < positions.len()
    &&& forall|i: int, a: int|
        0 <= i < positions.len() && 0 <= a < 3 ==> -COORD_LIMIT <= #[trigger] pos_at(
            positions[i],
            a,
        ) <= COORD_LIMIT
}

/// Coordinate `a` of vertex `k` of triangle `t`.
pub open spec fn tri_coord(
    positions: Seq<Vec3>,
    indices: Seq<UVec3>,
    t: int,
    k: int,
    a: int,
) -> int {
    pos_at(positions[upos_at(indices[t], k)], a)
}

/// The smaller of two mathematical integers.
pub open spec fn min2(x: int, y: int) -> int {
    if x <= y {
        x
    } else {
        y
    }
}

/// The larger of two mathematical integers.
pub open spec fn max2(x: int, y: int) -> int {
    if x >= y {
        x
    } else {
        y
    }
}

/// Smallest coordinate `a` over the three vertices of triangle `t`: the low
/// corner of the triangle's axis-aligned bounding box.
pub open spec fn tri_lo(positions: Seq<Vec3>, indices: Seq<UVec3>, t: int, a: int) -> int {
    min2(
        min2(tri_coord(positions, indices, t, 0, a), tri_coord(positions, indices, t, 1, a)),
        tri_coord(positions, indices, t, 2, a),
    )
}

/// Largest coordinate `a` over the three vertices of triangle `t`.
pub open spec fn tri_hi(positions: Seq<Vec3>, indices: Seq<UVec3>, t: int, a: int) -> int {
    max2(
        max2(tri_coord(positions, indices, t, 0, a), tri_coord(positions, indices, t, 1, a)),
        tri_coord(positions, indices, t, 2, a),
    )
}

/// Some vertex of the first `tcount` triangles attains value `v` on axis
/// `a`.
pub open spec fn coord_attained(
    positions: Seq<Vec3>,
    indices: Seq<UVec3>,
    tcount: int,
    a: int,
    v: int,
) -> bool {
    exists|t: int, k: int|
        0 <= t < tcount && 0 <= k < 3 && #[trigger] tri_coord(positions, indices, t, k, a) == v
}

/// A computed scene bounding box: it enclosed every vertex of the first
/// `tcount` triangles, and each face is attained by some vertex.
pub open spec fn is_bbox_of(
    positions: Seq<Vec3>,
    indices: Seq<UVec3>,
    tcount: int,
    bb: crate::grid::bbox::BBox,
) -> bool {
    &&& forall|t: int, k: int, a: int|
        0 <= t < tcount && 0 <= k < 3 && 0 <= a < 3 ==> pos_at(bb.min, a) <= #[trigger] tri_coord(
            positions,
            indices,
            t,
            k,
            a,
        ) <= pos_at(bb.max, a)
    &&& forall|a: int| 0 <= a < 3 ==> coord_attained(positions, indices, tcount, a, pos_at(bb.min, a))
    &&& forall|a: int| 0 <= a < 3 ==> coord_attained(positions, indices, tcount, a, pos_at(bb.max, a))
}

/// The cell a coordinate falls into along one axis: the floor of
/// `(x - mn) * res / extent`, clamped to `[0, res - 1]`.  A zero extent
/// always yields cell `0`.
pub open spec fn cell_coord(mn: int, extent: int, res: int, x: int) -> int {
    if extent <= 0 {
        0
    } else {
        let raw = ((x - mn) * res) / extent;
        if raw < 0 {
            0
        } else if raw >= res {
            res - 1
        } else {
            raw
        }
    }
}

/// The bounding-box extent of the scene along axis `a`.
pub open spec fn bb_extent(bb: crate::grid::bbox::BBox, a: int) -> int {
    pos_at(bb.max, a) - pos_at(bb.min, a)
}

/// The low corner, along axis `a`, of the cell range triangle `t` overlaps.
pub open spec fn tri_min_cell(
    positions: Seq<Vec3>,
    indices: Seq<UVec3>,
    bb: crate::grid::bbox::BBox,
    res: UVec3,
    t: int,
    a: int,
) -> int {
    cell_coord(pos_at(bb.min, a), bb_extent(bb, a), upos_at(res, a), tri_lo(positions, indices, t, a))
}

/// The high corner, along axis `a`, of the cell range triangle `t` overlaps.
pub open spec fn tri_max_cell(
    positions: Seq<Vec3>,
    indices: Seq<UVec3>,
    bb: crate::grid::bbox::BBox,
    res: UVec3,
    t: int,
    a: int,
) -> int {
    cell_coord(pos_at(bb.min, a), bb_extent(bb, a), upos_at(res, a), tri_hi(positions, indices, t, a))
}

/// The per-triangle cell-range sequences the counter records: entry `t`
/// holds the min (resp. max) cell coordinate of triangle `t` on each axis.
pub open spec fn tri_min_cells_seq(
    positions: Seq<Vec3>,
    indices: Seq<UVec3>,
    bb: crate::grid::bbox::BBox,
    res: UVec3,
    tcount: int,
) -> Seq<UVec3> {
    Seq::new(
        tcount as nat,
        |t: int|
            UVec3 {
                position: [
                    tri_min_cell(positions, indices, bb, res, t, 0) as u32,
                    tri_min_cell(positions, indices, bb, res, t, 1) as u32,
                    tri_min_cell(positions, indices, bb, res, t, 2) as u32,
                ],
            },
    )
}

/// Companion of `tri_min_cells_seq` for the high corners.
pub open spec fn tri_max_cells_seq(
    positions: Seq<Vec3>,
    indices: Seq<UVec3>,
    bb: crate::grid::bbox::BBox,
    res: UVec3,
    tcount: int,
) -> Seq<UVec3> {
    Seq::new(
        tcount as nat,
        |t: int|
            UVec3 {
                position: [
                    tri_max_cell(positions, indices, bb, res, t, 0) as u32,
                    tri_max_cell(positions, indices, bb, res, t, 1) as u32,
                    tri_max_cell(positions, indices, bb, res, t, 2) as u32,
                ],
            },
    )
}

/// Number of cells along axis `a`.
pub open spec fn res_at(res: UVec3, a: int) -> int {
    res.position[a] as int
}

/// A usable resolution: at least one cell along every axis.
pub open spec fn res_wf(res: UVec3) -> bool {
    res_at(res, 0) >= 1 && res_at(res, 1) >= 1 && res_at(res, 2) >= 1
}

/// Total number of grid cells.
pub open spec fn cell_count(res: UVec3) -> int {
    res_at(res, 0) * res_at(res, 1) * res_at(res, 2)
}

/// Linear id of cell `(cx, cy, cz)`: x varies fastest.
pub open spec fn lin_cell(res: UVec3, cx: int, cy: int, cz: int) -> int {
    cx + res_at(res, 0) * (cy + res_at(res, 1) * cz)
}

/// The x coordinate of the cell with linear id `c`.
pub open spec fn decomp_x(res: UVec3, c: int) -> int {
    c % res_at(res, 0)
}

/// The y coordinate of the cell with linear id `c`.
pub open spec fn decomp_y(res: UVec3, c: int) -> int {
    (c / res_at(res, 0)) % res_at(res, 1)
}

/// The z coordinate of the cell with linear id `c`.
pub open spec fn decomp_z(res: UVec3, c: int) -> int {
    c / (res_at(res, 0) * res_at(res, 1))
}

/// Whether `(cx, cy, cz)` is a cell of the grid.
pub open spec fn valid_cell(res: UVec3, cx: int, cy: int, cz: int) -> bool {
    &&& 0 <= cx < res_at(res, 0)
    &&& 0 <= cy < res_at(res, 1)
    &&& 0 <= cz < res_at(res, 2)
}

/// Whether cell `(cx, cy, cz)` lies inside the inclusive range `[mn, mx]`.
pub open spec fn cell_in_box(mn: UVec3, mx: UVec3, cx: int, cy: int, cz: int) -> bool {
    &&& upos_at(mn, 0) <= cx <= upos_at(mx, 0)
    &&& upos_at(mn, 1) <= cy <= upos_at(mx, 1)
    &&& upos_at(mn, 2) <= cz <= upos_at(mx, 2)
}

/// Whether triangle `t`'s recorded cell range covers the cell with linear
/// id `c`.
pub open spec fn covers_lin(mins: Seq<UVec3>, maxs: Seq<UVec3>, res: UVec3, t: int, c: int) -> bool {
    cell_in_box(mins[t], maxs[t], decomp_x(res, c), decomp_y(res, c), decomp_z(res, c))
}

/// Number of triangles with index below `k` whose recorded cell range
/// covers the cell with linear id `c`.
pub open spec fn pairs_upto(
    mins: Seq<UVec3>,
    maxs: Seq<UVec3>,
    res: UVec3,
    k: int,
    c: int,
) -> nat
    decreases k,
{
    if k <= 0 {
        0
    } else {
        pairs_upto(mins, maxs, res, k - 1, c) + if covers_lin(mins, maxs, res, k - 1, c) {
            1nat
        } else {
            0nat
        }
    }
}

/// Total number of pairs in the cells with linear id below `j`.
pub open spec fn pairs_total_upto_cell(
    mins: Seq<UVec3>,
    maxs: Seq<UVec3>,
    res: UVec3,
    tcount: int,
    j: int,
) -> nat
    decreases j,
{
    if j <= 0 {
        0
    } else {
        pairs_total_upto_cell(mins, maxs, res, tcount, j - 1) + pairs_upto(
            mins,
            maxs,
            res,
            tcount,
            j - 1,
        )
    }
}

/// The offsets array is the exclusive prefix sum of the per-cell pair
/// counts; its extra trailing slot holds the grand total.
pub open spec fn offsets_wf(
    mins: Seq<UVec3>,
    maxs: Seq<UVec3>,
    res: UVec3,
    tcount: int,
    offsets: Seq<u32>,
) -> bool {
    &&& offsets.len() == cell_count(res) + 1
    &&& forall|j: int| 0 <= j <= cell_count(res) ==> #[trigger] offsets[j] == pairs_total_upto_cell(
        mins,
        maxs,
        res,
        tcount,
        j,
    )
}

/// The scatter result: triangle `t` stands at slot
/// `offsets[c] + pairs_upto(t, c)` of every cell `c` it covers.  Together
/// with `offsets_wf` this pins each cell's reference range to exactly the
/// triangles covering that cell, with no gaps and no duplicates.
pub open spec fn references_wf(
    mins: Seq<UVec3>,
    maxs: Seq<UVec3>,
    res: UVec3,
    tcount: int,
    offsets: Seq<u32>,
    refs: Seq<u32>,
) -> bool {
    &&& refs.len() == pairs_total_upto_cell(mins, maxs, res, tcount, cell_count(res))
    &&& forall|t: int, c: int|
        0 <= t < tcount && 0 <= c < cell_count(res) && #[trigger] covers_lin(mins, maxs, res, t, c)
            ==> offsets[c] + pairs_upto(mins, maxs, res, t, c) < refs.len() && refs[offsets[c]
            + pairs_upto(mins, maxs, res, t, c)] == t
}

// ---------------------------------------------------------------------------
// Lemmas about the counting spec.
// ---------------------------------------------------------------------------

/// Pair counts never shrink as more triangles are considered.
pub proof fn lemma_pairs_upto_monotone(
    mins: Seq<UVec3>,
    maxs: Seq<UVec3>,
    res: UVec3,
    k1: int,
    k2: int,
    c: int,
)
    requires
        k1 <= k2,
    ensures
        pairs_upto(mins, maxs, res, k1, c) <= pairs_upto(mins, maxs, res, k2, c),
    decreases k2 - k1,
{
    if k1 < k2 {
        lemma_pairs_upto_monotone(mins, maxs, res, k1, k2 - 1, c);
    }
}

/// At most one pair per triangle: the count below `k` is at most `k`.
pub proof fn lemma_pairs_upto_le(mins: Seq<UVec3>, maxs: Seq<UVec3>, res: UVec3, k: int, c: int)
    ensures
        pairs_upto(mins, maxs, res, k, c) <= max2(k, 0),
    decreases k,
{
    if k > 0 {
        lemma_pairs_upto_le(mins, maxs, res, k - 1, c);
    }
}

/// A triangle covering `c` leaves its slot strictly inside the cell's
/// count: `pairs_upto(t, c) < pairs_upto(tcount, c)` for `t < tcount`.
pub proof fn lemma_pairs_upto_strict(
    mins: Seq<UVec3>,
    maxs: Seq<UVec3>,
    res: UVec3,
    t: int,
    tcount: int,
    c: int,
)
    requires
        0 <= t < tcount,
        covers_lin(mins, maxs, res, t, c),
    ensures
        pairs_upto(mins, maxs, res, t, c) < pairs_upto(mins, maxs, res, tcount, c),
{
    lemma_pairs_upto_monotone(mins, maxs, res, t + 1, tcount, c);
}

/// Counting is onto: every rank below a cell's count is taken by some
/// covering triangle.
pub proof fn lemma_pairs_inverse(
    mins: Seq<UVec3>,
    maxs: Seq<UVec3>,
    res: UVec3,
    tcount: int,
    c: int,
    n: int,
)
    requires
        0 <= n < pairs_upto(mins, maxs, res, tcount, c),
    ensures
        exists|t: int|
            0 <= t < tcount && #[trigger] covers_lin(mins, maxs, res, t, c) && pairs_upto(
                mins,
                maxs,
                res,
                t,
                c,
            ) == n,
    decreases tcount,
{
    if tcount > 0 {
        if covers_lin(mins, maxs, res, tcount - 1, c) && pairs_upto(mins, maxs, res, tcount - 1, c)
            == n {
            assert(0 <= tcount - 1 < tcount && covers_lin(mins, maxs, res, tcount - 1, c)
                && pairs_upto(mins, maxs, res, tcount - 1, c) == n);
        } else {
            lemma_pairs_inverse(mins, maxs, res, tcount - 1, c, n);
        }
    }
}

/// Per-cell running totals only grow with the cell id.
pub proof fn lemma_total_monotone(
    mins: Seq<UVec3>,
    maxs: Seq<UVec3>,
    res: UVec3,
    tcount: int,
    j1: int,
    j2: int,
)
    requires
        j1 <= j2,
    ensures
        pairs_total_upto_cell(mins, maxs, res, tcount, j1) <= pairs_total_upto_cell(
            mins,
            maxs,
            res,
            tcount,
            j2,
        ),
    decreases j2 - j1,
{
    if j1 < j2 {
        lemma_total_monotone(mins, maxs, res, tcount, j1, j2 - 1);
    }
}

/// Two distinct pairs (triangle, covered cell) land in distinct reference
/// slots: the scatter write has no collisions.
pub proof fn lemma_slots_distinct(
    mins: Seq<UVec3>,
    maxs: Seq<UVec3>,
    res: UVec3,
    tcount: int,
    t1: int,
    c1: int,
    t2: int,
    c2: int,
)
    requires
        0 <= t1 < tcount,
        0 <= t2 < tcount,
        0 <= c1,
        0 <= c2,
        covers_lin(mins, maxs, res, t1, c1),
        covers_lin(mins, maxs, res, t2, c2),
        t1 != t2 || c1 != c2,
    ensures
        pairs_total_upto_cell(mins, maxs, res, tcount, c1) + pairs_upto(mins, maxs, res, t1, c1)
            != pairs_total_upto_cell(mins, maxs, res, tcount, c2) + pairs_upto(
            mins,
            maxs,
            res,
            t2,
            c2,
        ),
{
    if c1 == c2 {
        if t1 < t2 {
            lemma_pairs_upto_monotone(mins, maxs, res, t1 + 1, t2, c1);
        } else {
            lemma_pairs_upto_monotone(mins, maxs, res, t2 + 1, t1, c1);
        }
    } else if c1 < c2 {
        lemma_pairs_upto_strict(mins, maxs, res, t1, tcount, c1);
        lemma_total_monotone(mins, maxs, res, tcount, c1 + 1, c2);
        lemma_pairs_upto_monotone(mins, maxs, res, 0, t2, c2);
    } else {
        lemma_pairs_upto_strict(mins, maxs, res, t2, tcount, c2);
        lemma_total_monotone(mins, maxs, res, tcount, c2 + 1, c1);
        lemma_pairs_upto_monotone(mins, maxs, res, 0, t1, c1);
    }
}

// ---------------------------------------------------------------------------
// Lemmas about the cell linearisation.
// ---------------------------------------------------------------------------

/// A valid cell's linear id lies in `[0, cell_count)`, and decomposing it
/// recovers the cell.
pub proof fn lemma_lin_cell(res: UVec3, cx: int, cy: int, cz: int)
    requires
        res_wf(res),
        valid_cell(res, cx, cy, cz),
    ensures
        0 <= lin_cell(res, cx, cy, cz) < cell_count(res),
        decomp_x(res, lin_cell(res, cx, cy, cz)) == cx,
        decomp_y(res, lin_cell(res, cx, cy, cz)) == cy,
        decomp_z(res, lin_cell(res, cx, cy, cz)) == cz,
{
    let nx = res_at(res, 0);
    let ny = res_at(res, 1);
    let nz = res_at(res, 2);
    let c = lin_cell(res, cx, cy, cz);
    assert(0 <= c < nx * ny * nz) by (nonlinear_arith)
        requires
            c == cx + nx * (cy + ny * cz),
            0 <= cx < nx,
            0 <= cy < ny,
            0 <= cz < nz,
    ;
    assert(c % nx == cx && c / nx == cy + ny * cz) by (nonlinear_arith)
        requires
            c == cx + nx * (cy + ny * cz),
            0 <= cx < nx,
    ;
    assert((cy + ny * cz) % ny == cy && (cy + ny * cz) / ny == cz) by (nonlinear_arith)
        requires
            0 <= cy < ny,
    ;
    assert(c / (nx * ny) == cz) by (nonlinear_arith)
        requires
            c == cx + nx * (cy + ny * cz),
            0 <= cx < nx,
            0 <= cy < ny,
            nx >= 1,
            ny >= 1,
    ;
}

/// The extra trailing slot at linear id `cell_count` decomposes to `z ==
/// nz`, one past the grid, so no cell range ever reaches it.
pub proof fn lemma_last_slot(res: UVec3)
    requires
        res_wf(res),
    ensures
        decomp_z(res, cell_count(res)) == res_at(res, 2),
{
    let nx = res_at(res, 0);
    let ny = res_at(res, 1);
    let nz = res_at(res, 2);
    assert((nx * ny * nz) / (nx * ny) == nz) by (nonlinear_arith)
        requires
            nx >= 1,
            ny >= 1,
            nz >= 0,
    ;
}

/// The extra trailing slot is never counted: no triangle's cell range
/// covers it.
pub proof fn lemma_pairs_upto_last(mins: Seq<UVec3>, maxs: Seq<UVec3>, res: UVec3, k: int)
    requires
        res_wf(res),
        forall|t: int| 0 <= t < k ==> upos_at(#[trigger] maxs[t], 2) < res_at(res, 2),
    ensures
        pairs_upto(mins, maxs, res, k, cell_count(res)) == 0,
    decreases k,
{
    if k > 0 {
        lemma_pairs_upto_last(mins, maxs, res, k - 1);
        lemma_last_slot(res);
    }
}

/// Every linear id in `[0, cell_count)` decomposes into a valid cell whose
/// linearisation is the id again.
pub proof fn lemma_decomp_cell(res: UVec3, c: int)
    requires
        res_wf(res),
        0 <= c < cell_count(res),
    ensures
        valid_cell(res, decomp_x(res, c), decomp_y(res, c), decomp_z(res, c)),
        lin_cell(res, decomp_x(res, c), decomp_y(res, c), decomp_z(res, c)) == c,
{
    let nx = res_at(res, 0);
    let ny = res_at(res, 1);
    let nz = res_at(res, 2);
    let cx = decomp_x(res, c);
    let cy = decomp_y(res, c);
    let cz = decomp_z(res, c);
    assert(0 <= cx < nx && c == cx + nx * (c / nx)) by (nonlinear_arith)
        requires
            cx == c % nx,
            0 <= c,
            nx >= 1,
    ;
    assert(0 <= cy < ny && c / nx == cy + ny * ((c / nx) / ny)) by (nonlinear_arith)
        requires
            cy == (c / nx) % ny,
            0 <= c,
            nx >= 1,
            ny >= 1,
    ;
    assert((c / nx) / ny == c / (nx * ny)) by (nonlinear_arith)
        requires
            0 <= c,
            nx >= 1,
            ny >= 1,
    ;
    assert(0 <= cz < nz) by (nonlinear_arith)
        requires
            cz == c / (nx * ny),
            0 <= c < nx * ny * nz,
            nx >= 1,
            ny >= 1,
            nz >= 1,
    ;
    assert(lin_cell(res, cx, cy, cz) == c);
}

} // verus!
