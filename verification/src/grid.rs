//! The uniform-grid acceleration structure and its builder.
//!
//! `GridBuilder` orchestrates the four stages — bounding box, resolution,
//! pair counting with the host-side prefix sum, and the scatter write —
//! into one build.  Every stage is a blocking step; the one data-dependent
//! handoff (the reference buffer's size) is the counter's readback, whose
//! total the writer takes as a plain value.  A failed stage aborts the
//! whole build: no partial grid is ever produced.

pub mod bbox;
pub mod model;
pub mod pair_counter;
pub mod pair_writer;
pub mod resolver;

use vstd::prelude::*;
use crate::gl_types::{UVec3, Vec3};
use self::bbox::{BBox, BBoxFinder};
use self::pair_counter::PairCounter;
use self::pair_writer::PairWriter;
use self::resolver::{CellSize, GridResolver};

verus! {

/// Why a grid build was aborted.  The first four are data-dependent
/// degeneracies the builder rejects before any stage runs; the last is a
/// resource-exhaustion condition that is surfaced, never truncated.
#[derive(Clone, Copy, Debug, PartialEq, Eq, Structural)]
pub enum GridError {
    /// No triangles: a mesh must exist before a grid is built.
    EmptyMesh,
    /// The stated triangle count exceeds the index buffer.
    InvalidTriangleCount,
    /// An index triple refers past the end of the position buffer.
    IndexOutOfBounds,
    /// A coordinate is too large in magnitude for the grid arithmetic.
    CoordinateOutOfRange,
    /// A count, resolution, cell count or total pair count exceeds what
    /// the buffers can address.
    CapacityExceeded,
}

/// The completed acceleration structure: immutable once built.
/// `cells_buffer[c]` is the exclusive prefix-sum offset of cell `c`'s
/// reference range, with the total pair count in the extra trailing slot;
/// `references_buffer` holds the triangle indices, bucketed by cell.
#[derive(Debug)]
pub struct Grid {
    pub bbox: BBox,
    pub resolution: UVec3,
    pub cell_size: CellSize,
    pub cells_buffer: Vec<u32>,
    pub references_buffer: Vec<u32>,
}

/// Every index triple among the first `tcount` refers into `positions`.
pub open spec fn spec_valid_indices(
    positions: Seq<Vec3>,
    indices: Seq<UVec3>,
    tcount: int,
) -> bool {
    forall|t: int, k: int|
        0 <= t < tcount && 0 <= k < 3 ==> #[trigger] model::upos_at(indices[t], k)
            < positions.len()
}

/// Every position coordinate is within the grid arithmetic's limit.
pub open spec fn spec_coords_in_range(positions: Seq<Vec3>) -> bool {
    forall|i: int, a: int|
        0 <= i < positions.len() && 0 <= a < 3 ==> -model::COORD_LIMIT <= #[trigger] model::pos_at(
            positions[i],
            a,
        ) <= model::COORD_LIMIT
}

/// The total pair count of the mesh under a given bounding box and
/// resolution: the sum, over all cells, of the number of triangles whose
/// recorded range covers the cell.
pub open spec fn spec_total_pairs(
    positions: Seq<Vec3>,
    indices: Seq<UVec3>,
    tcount: int,
    bb: BBox,
    res: UVec3,
) -> int {
    model::pairs_total_upto_cell(
        model::tri_min_cells_seq(positions, indices, bb, res, tcount),
        model::tri_max_cells_seq(positions, indices, bb, res, tcount),
        res,
        tcount,
        model::cell_count(res),
    ) as int
}

/// What a completed grid promises about the mesh it was built from: the
/// bounding box encloses the triangles, resolution and cell size follow
/// the density rule, the offsets are the exclusive prefix sums of the
/// per-cell pair counts, and every triangle stands once in the bucket of
/// every cell its range covers.
pub open spec fn grid_wf(positions: Seq<Vec3>, indices: Seq<UVec3>, tcount: int, g: Grid) -> bool {
    let mins = model::tri_min_cells_seq(positions, indices, g.bbox, g.resolution, tcount);
    let maxs = model::tri_max_cells_seq(positions, indices, g.bbox, g.resolution, tcount);
    &&& model::is_bbox_of(positions, indices, tcount, g.bbox)
    &&& resolver::is_resolution(g.bbox, tcount, g.resolution)
    &&& model::res_wf(g.resolution)
    &&& resolver::is_cell_size(g.bbox, g.resolution, g.cell_size)
    &&& model::offsets_wf(mins, maxs, g.resolution, tcount, g.cells_buffer@)
    &&& model::references_wf(
        mins,
        maxs,
        g.resolution,
        tcount,
        g.cells_buffer@,
        g.references_buffer@,
    )
}

/// Orchestrates one grid build over immutable scene buffers.
pub struct GridBuilder {
    pub positions: Vec<Vec3>,
    pub indices: Vec<UVec3>,
    pub triangle_count: usize,
    pub bbox_finder: BBoxFinder,
    pub ref_counter: PairCounter,
}

impl GridBuilder {
    /// The stage objects are sized for the builder's own triangle count.
    pub closed spec fn wf(&self) -> bool {
        &&& self.bbox_finder.triangle_count == self.triangle_count
        &&& self.bbox_finder.work_groups_count == bbox::spec_groups_for(self.triangle_count as int)
        &&& self.ref_counter.triangle_count == self.triangle_count
    }

    /// Binds the immutable scene buffers and sizes the stages.
    pub fn new(positions: Vec<Vec3>, indices: Vec<UVec3>, triangle_count: usize) -> (r: GridBuilder)
        ensures
            r.wf(),
            r.positions@ == positions@,
            r.indices@ == indices@,
            r.triangle_count == triangle_count,
    {
        let bbox_finder = BBoxFinder::new(triangle_count);
        let ref_counter = PairCounter::new(triangle_count);
        GridBuilder { positions, indices, triangle_count, bbox_finder, ref_counter }
    }

    /// Runs the full build.  Degenerate inputs are rejected before any
    /// stage runs, each with its own error; a capacity overflow anywhere
    /// in the pipeline surfaces as `CapacityExceeded`.  On success the
    /// grid satisfies `grid_wf` for exactly this mesh.
    pub fn build(&self) -> (r: Result<Grid, GridError>)
        requires
            self.wf(),
        ensures
            ({
                let tc = self.triangle_count as int;
                let ps = self.positions@;
                let ix = self.indices@;
                match r {
                    Ok(g) => {
                        &&& 1 <= tc <= ix.len()
                        &&& tc <= u32::MAX
                        &&& spec_valid_indices(ps, ix, tc)
                        &&& spec_coords_in_range(ps)
                        &&& grid_wf(ps, ix, tc, g)
                        &&& resolver::resolution_fits(g.bbox, tc)
                        &&& model::cell_count(g.resolution) < usize::MAX
                        &&& spec_total_pairs(ps, ix, tc, g.bbox, g.resolution) <= u32::MAX
                        &&& g.references_buffer@.len() == spec_total_pairs(
                            ps,
                            ix,
                            tc,
                            g.bbox,
                            g.resolution,
                        )
                    },
                    Err(e) => match e {
                        GridError::EmptyMesh => tc == 0,
                        GridError::InvalidTriangleCount => 1 <= tc && tc > ix.len(),
                        GridError::IndexOutOfBounds => {
                            &&& 1 <= tc <= ix.len()
                            &&& tc <= u32::MAX
                            &&& !spec_valid_indices(ps, ix, tc)
                        },
                        GridError::CoordinateOutOfRange => {
                            &&& 1 <= tc <= ix.len()
                            &&& tc <= u32::MAX
                            &&& spec_valid_indices(ps, ix, tc)
                            &&& !spec_coords_in_range(ps)
                        },
                        GridError::CapacityExceeded => {
                            &&& 1 <= tc <= ix.len()
                            &&& (tc > u32::MAX || (spec_valid_indices(ps, ix, tc)
                                && spec_coords_in_range(ps) && exists|bb: BBox|
                                #[trigger] model::is_bbox_of(ps, ix, tc, bb) && (
                                !resolver::resolution_fits(bb, tc) || exists|res: UVec3|
                                    #[trigger] resolver::is_resolution(bb, tc, res)
                                        && (model::cell_count(res) >= usize::MAX || spec_total_pairs(
                                        ps,
                                        ix,
                                        tc,
                                        bb,
                                        res,
                                    ) > u32::MAX))))
                        },
                    },
                }
            }),
    {
        let tc = self.triangle_count;
        if tc == 0 {
            return Err(GridError::EmptyMesh);
        }
        if tc > self.indices.len() {
            return Err(GridError::InvalidTriangleCount);
        }
        if tc > u32::MAX as usize {
            return Err(GridError::CapacityExceeded);
        }
        if !check_indices(&self.positions, &self.indices, tc) {
            return Err(GridError::IndexOutOfBounds);
        }
        if !check_coords(&self.positions) {
            return Err(GridError::CoordinateOutOfRange);
        }
        let bbox = self.bbox_finder.calculate_bbox(&self.positions, &self.indices);
        proof {
            lemma_bbox_bounded(self.positions@, self.indices@, tc as int, bbox);
        }
        let (resolution, cell_size) = match GridResolver::resolve(&bbox, tc) {
            Ok(rc) => rc,
            Err(_) => {
                proof {
                    assert(model::is_bbox_of(self.positions@, self.indices@, tc as int, bbox)
                        && !resolver::resolution_fits(bbox, tc as int));
                }
                return Err(GridError::CapacityExceeded);
            },
        };
        let cpr = match self.ref_counter.count_pairs(
            &self.positions,
            &self.indices,
            &bbox,
            &resolution,
        ) {
            Ok(c) => c,
            Err(_) => {
                proof {
                    assert(resolver::is_resolution(bbox, tc as int, resolution)
                        && (model::cell_count(resolution) >= usize::MAX || spec_total_pairs(
                        self.positions@,
                        self.indices@,
                        tc as int,
                        bbox,
                        resolution,
                    ) > u32::MAX));
                    assert(model::is_bbox_of(self.positions@, self.indices@, tc as int, bbox));
                }
                return Err(GridError::CapacityExceeded);
            },
        };
        proof {
            lemma_max_cells_in_range(self.positions@, self.indices@, bbox, resolution, tc as int);
        }
        let writer = PairWriter::new(tc);
        let (cells_buffer, references_buffer) = writer.write_pairs(cpr, &resolution);
        Ok(Grid { bbox, resolution, cell_size, cells_buffer, references_buffer })
    }
}

/// A bounding box of an in-range mesh is itself in range and ordered.
proof fn lemma_bbox_bounded(positions: Seq<Vec3>, indices: Seq<UVec3>, tcount: int, bb: BBox)
    requires
        model::mesh_wf(positions, indices, tcount),
        model::is_bbox_of(positions, indices, tcount, bb),
    ensures
        resolver::bbox_wf(bb),
{
    assert forall|a: int| 0 <= a < 3 implies -model::COORD_LIMIT <= #[trigger] model::pos_at(
        bb.min,
        a,
    ) <= model::pos_at(bb.max, a) <= model::COORD_LIMIT by {
        let (t1, k1) = choose|t: int, k: int|
            0 <= t < tcount && 0 <= k < 3 && #[trigger] model::tri_coord(positions, indices, t, k, a)
                == model::pos_at(bb.min, a);
        let (t2, k2) = choose|t: int, k: int|
            0 <= t < tcount && 0 <= k < 3 && #[trigger] model::tri_coord(positions, indices, t, k, a)
                == model::pos_at(bb.max, a);
        assert(model::upos_at(indices[t1], k1) < positions.len());
        assert(model::upos_at(indices[t2], k2) < positions.len());
        assert(-model::COORD_LIMIT <= model::pos_at(positions[model::upos_at(indices[t1], k1)], a)
            <= model::COORD_LIMIT);
        assert(-model::COORD_LIMIT <= model::pos_at(positions[model::upos_at(indices[t2], k2)], a)
            <= model::COORD_LIMIT);
        assert(model::pos_at(bb.min, a) <= model::tri_coord(positions, indices, t2, k2, a));
    }
}

/// Recorded high cell corners always lie inside the grid.
proof fn lemma_max_cells_in_range(
    positions: Seq<Vec3>,
    indices: Seq<UVec3>,
    bb: BBox,
    res: UVec3,
    tcount: int,
)
    requires
        model::res_wf(res),
    ensures
        forall|t: int, a: int|
            0 <= t < tcount && 0 <= a < 3 ==> #[trigger] model::upos_at(
                model::tri_max_cells_seq(positions, indices, bb, res, tcount)[t],
                a,
            ) < model::res_at(res, a),
{
    let maxs = model::tri_max_cells_seq(positions, indices, bb, res, tcount);
    assert forall|t: int, a: int| 0 <= t < tcount && 0 <= a < 3 implies #[trigger] model::upos_at(
        maxs[t],
        a,
    ) < model::res_at(res, a) by {
        let v = model::tri_max_cell(positions, indices, bb, res, t, a);
        assert(0 <= v < model::res_at(res, a));
        if a == 0 {
            assert(maxs[t].position[0] == v as u32);
        } else if a == 1 {
            assert(maxs[t].position[1] == v as u32);
        } else {
            assert(maxs[t].position[2] == v as u32);
        }
    }
}

/// Every index triple among the first `tc` refers into `positions`.
fn check_indices(positions: &Vec<Vec3>, indices: &Vec<UVec3>, tc: usize) -> (ok: bool)
    requires
        tc <= indices@.len(),
    ensures
        ok == spec_valid_indices(positions@, indices@, tc as int),
{
    let n = positions.len();
    let mut t: usize = 0;
    while t < tc
        invariant
            t <= tc,
            tc <= indices@.len(),
            n == positions@.len(),
            forall|q: int, k: int|
                0 <= q < t && 0 <= k < 3 ==> #[trigger] model::upos_at(indices@[q], k)
                    < positions@.len(),
        decreases tc - t,
    {
        let tri = indices[t];
        if tri.position[0] as usize >= n || tri.position[1] as usize >= n || tri.position[2]
            as usize >= n {
            proof {
                assert(model::upos_at(indices@[t as int], 0) >= n as int || model::upos_at(
                    indices@[t as int],
                    1,
                ) >= n as int || model::upos_at(indices@[t as int], 2) >= n as int);
            }
            return false;
        }
        proof {
            assert(model::upos_at(indices@[t as int], 0) < n as int);
            assert(model::upos_at(indices@[t as int], 1) < n as int);
            assert(model::upos_at(indices@[t as int], 2) < n as int);
        }
        t = t + 1;
    }
    true
}

/// Every position coordinate is within the grid arithmetic's limit.
fn check_coords(positions: &Vec<Vec3>) -> (ok: bool)
    ensures
        ok == spec_coords_in_range(positions@),
{
    let n = positions.len();
    let mut i: usize = 0;
    while i < n
        invariant
            i <= n,
            n == positions@.len(),
            forall|q: int, a: int|
                0 <= q < i && 0 <= a < 3 ==> -model::COORD_LIMIT <= #[trigger] model::pos_at(
                    positions@[q],
                    a,
                ) <= model::COORD_LIMIT,
        decreases n - i,
    {
        let p = positions[i];
        if p.position[0] < -model::COORD_LIMIT || p.position[0] > model::COORD_LIMIT
            || p.position[1] < -model::COORD_LIMIT || p.position[1] > model::COORD_LIMIT
            || p.position[2] < -model::COORD_LIMIT || p.position[2] > model::COORD_LIMIT {
            proof {
                assert(!(-model::COORD_LIMIT <= model::pos_at(positions@[i as int], 0)
                    <= model::COORD_LIMIT) || !(-model::COORD_LIMIT <= model::pos_at(
                    positions@[i as int],
                    1,
                ) <= model::COORD_LIMIT) || !(-model::COORD_LIMIT <= model::pos_at(
                    positions@[i as int],
                    2,
                ) <= model::COORD_LIMIT));
            }
            return false;
        }
        proof {
            assert(-model::COORD_LIMIT <= model::pos_at(positions@[i as int], 0)
                <= model::COORD_LIMIT);
            assert(-model::COORD_LIMIT <= model::pos_at(positions@[i as int], 1)
                <= model::COORD_LIMIT);
            assert(-model::COORD_LIMIT <= model::pos_at(positions@[i as int], 2)
                <= model::COORD_LIMIT);
        }
        i = i + 1;
    }
    true
}

// ---------------------------------------------------------------------------
// Laws of the completed grid.
// ---------------------------------------------------------------------------

/// The reference buffer's length, the grand total in the offsets' extra
/// slot, and the sum of the per-cell pair counts are one and the same
/// number.
pub proof fn lemma_total_pair_count(positions: Seq<Vec3>, indices: Seq<UVec3>, tcount: int, g: Grid)
    requires
        grid_wf(positions, indices, tcount, g),
    ensures
        g.references_buffer@.len() == spec_total_pairs(
            positions,
            indices,
            tcount,
            g.bbox,
            g.resolution,
        ),
        g.cells_buffer@[model::cell_count(g.resolution)] == spec_total_pairs(
            positions,
            indices,
            tcount,
            g.bbox,
            g.resolution,
        ),
        g.cells_buffer@[0] == 0,
{
    let mins = model::tri_min_cells_seq(positions, indices, g.bbox, g.resolution, tcount);
    let maxs = model::tri_max_cells_seq(positions, indices, g.bbox, g.resolution, tcount);
    assert(g.cells_buffer@[model::cell_count(g.resolution)] == model::pairs_total_upto_cell(
        mins,
        maxs,
        g.resolution,
        tcount,
        model::cell_count(g.resolution),
    ));
    assert(g.cells_buffer@[0] == model::pairs_total_upto_cell(mins, maxs, g.resolution, tcount, 0));
}

/// Every cell's reference range has exactly the cell's pair count as its
/// extent, and consecutive ranges tile the buffer with no gap and no
/// overlap.
pub proof fn lemma_cell_range_extent(
    positions: Seq<Vec3>,
    indices: Seq<UVec3>,
    tcount: int,
    g: Grid,
    c: int,
)
    requires
        grid_wf(positions, indices, tcount, g),
        0 <= c < model::cell_count(g.resolution),
    ensures
        g.cells_buffer@[c] <= g.cells_buffer@[c + 1] <= g.references_buffer@.len(),
        g.cells_buffer@[c + 1] - g.cells_buffer@[c] == model::pairs_upto(
            model::tri_min_cells_seq(positions, indices, g.bbox, g.resolution, tcount),
            model::tri_max_cells_seq(positions, indices, g.bbox, g.resolution, tcount),
            g.resolution,
            tcount,
            c,
        ),
{
    let mins = model::tri_min_cells_seq(positions, indices, g.bbox, g.resolution, tcount);
    let maxs = model::tri_max_cells_seq(positions, indices, g.bbox, g.resolution, tcount);
    let cc = model::cell_count(g.resolution);
    assert(g.cells_buffer@[c] == model::pairs_total_upto_cell(mins, maxs, g.resolution, tcount, c));
    assert(g.cells_buffer@[c + 1] == model::pairs_total_upto_cell(
        mins,
        maxs,
        g.resolution,
        tcount,
        c + 1,
    ));
    assert(g.cells_buffer@[cc] == model::pairs_total_upto_cell(
        mins,
        maxs,
        g.resolution,
        tcount,
        cc,
    ));
    model::lemma_total_monotone(mins, maxs, g.resolution, tcount, c + 1, cc);
}

/// A triangle's index stands in a cell's reference range exactly when the
/// triangle's recorded cell range covers that cell.
pub proof fn lemma_reference_membership(
    positions: Seq<Vec3>,
    indices: Seq<UVec3>,
    tcount: int,
    g: Grid,
    t: int,
    c: int,
)
    requires
        grid_wf(positions, indices, tcount, g),
        0 <= t < tcount,
        0 <= c < model::cell_count(g.resolution),
    ensures
        model::covers_lin(
            model::tri_min_cells_seq(positions, indices, g.bbox, g.resolution, tcount),
            model::tri_max_cells_seq(positions, indices, g.bbox, g.resolution, tcount),
            g.resolution,
            t,
            c,
        ) <==> exists|j: int|
            g.cells_buffer@[c] <= j < g.cells_buffer@[c + 1] && #[trigger] g.references_buffer@[j]
                == t,
{
    let mins = model::tri_min_cells_seq(positions, indices, g.bbox, g.resolution, tcount);
    let maxs = model::tri_max_cells_seq(positions, indices, g.bbox, g.resolution, tcount);
    let res = g.resolution;
    let offs = g.cells_buffer@;
    let refs = g.references_buffer@;
    lemma_cell_range_extent(positions, indices, tcount, g, c);
    if model::covers_lin(mins, maxs, res, t, c) {
        model::lemma_pairs_upto_strict(mins, maxs, res, t, tcount, c);
        let j = offs[c] + model::pairs_upto(mins, maxs, res, t, c);
        assert(offs[c] <= j < offs[c + 1] && refs[j] == t);
    }
    if exists|j: int| offs[c] <= j < offs[c + 1] && #[trigger] refs[j] == t {
        let j = choose|j: int| offs[c] <= j < offs[c + 1] && #[trigger] refs[j] == t;
        let n = j - offs[c];
        model::lemma_pairs_inverse(mins, maxs, res, tcount, c, n);
        let t2 = choose|t2: int|
            0 <= t2 < tcount && #[trigger] model::covers_lin(mins, maxs, res, t2, c)
                && model::pairs_upto(mins, maxs, res, t2, c) == n;
        assert(refs[offs[c] + model::pairs_upto(mins, maxs, res, t2, c)] == t2);
        assert(t == t2);
    }
}

/// No triangle index repeats inside one cell's reference range.
pub proof fn lemma_no_duplicates(
    positions: Seq<Vec3>,
    indices: Seq<UVec3>,
    tcount: int,
    g: Grid,
    c: int,
    j1: int,
    j2: int,
)
    requires
        grid_wf(positions, indices, tcount, g),
        0 <= c < model::cell_count(g.resolution),
        g.cells_buffer@[c] <= j1 < g.cells_buffer@[c + 1],
        g.cells_buffer@[c] <= j2 < g.cells_buffer@[c + 1],
        j1 != j2,
    ensures
        g.references_buffer@[j1] != g.references_buffer@[j2],
{
    let mins = model::tri_min_cells_seq(positions, indices, g.bbox, g.resolution, tcount);
    let maxs = model::tri_max_cells_seq(positions, indices, g.bbox, g.resolution, tcount);
    let res = g.resolution;
    let offs = g.cells_buffer@;
    let refs = g.references_buffer@;
    lemma_cell_range_extent(positions, indices, tcount, g, c);
    model::lemma_pairs_inverse(mins, maxs, res, tcount, c, j1 - offs[c]);
    model::lemma_pairs_inverse(mins, maxs, res, tcount, c, j2 - offs[c]);
    let t1 = choose|t: int|
        0 <= t < tcount && #[trigger] model::covers_lin(mins, maxs, res, t, c) && model::pairs_upto(
            mins,
            maxs,
            res,
            t,
            c,
        ) == j1 - offs[c];
    let t2 = choose|t: int|
        0 <= t < tcount && #[trigger] model::covers_lin(mins, maxs, res, t, c) && model::pairs_upto(
            mins,
            maxs,
            res,
            t,
            c,
        ) == j2 - offs[c];
    assert(refs[offs[c] + model::pairs_upto(mins, maxs, res, t1, c)] == t1);
    assert(refs[offs[c] + model::pairs_upto(mins, maxs, res, t2, c)] == t2);
    assert(t1 != t2);
}

/// Rebuilding from the same immutable buffers is idempotent: any two
/// grids that satisfy the build contract for one mesh agree on bounding
/// box, resolution, cell size and offsets.  (Reference order within a
/// cell is not part of the contract.)
pub proof fn lemma_build_deterministic(
    positions: Seq<Vec3>,
    indices: Seq<UVec3>,
    tcount: int,
    g1: Grid,
    g2: Grid,
)
    requires
        grid_wf(positions, indices, tcount, g1),
        grid_wf(positions, indices, tcount, g2),
    ensures
        g1.bbox.min == g2.bbox.min,
        g1.bbox.max == g2.bbox.max,
        g1.resolution == g2.resolution,
        g1.cell_size.num == g2.cell_size.num,
        g1.cell_size.den == g2.cell_size.den,
        g1.cells_buffer@ == g2.cells_buffer@,
{
    assert forall|a: int| 0 <= a < 3 implies model::pos_at(g1.bbox.min, a) == model::pos_at(
        g2.bbox.min,
        a,
    ) && model::pos_at(g1.bbox.max, a) == model::pos_at(g2.bbox.max, a) by {
        let (t1, k1) = choose|t: int, k: int|
            0 <= t < tcount && 0 <= k < 3 && #[trigger] model::tri_coord(positions, indices, t, k, a)
                == model::pos_at(g1.bbox.min, a);
        let (t2, k2) = choose|t: int, k: int|
            0 <= t < tcount && 0 <= k < 3 && #[trigger] model::tri_coord(positions, indices, t, k, a)
                == model::pos_at(g2.bbox.min, a);
        assert(model::pos_at(g1.bbox.min, a) <= model::tri_coord(positions, indices, t2, k2, a));
        assert(model::pos_at(g2.bbox.min, a) <= model::tri_coord(positions, indices, t1, k1, a));
        let (t3, k3) = choose|t: int, k: int|
            0 <= t < tcount && 0 <= k < 3 && #[trigger] model::tri_coord(positions, indices, t, k, a)
                == model::pos_at(g1.bbox.max, a);
        let (t4, k4) = choose|t: int, k: int|
            0 <= t < tcount && 0 <= k < 3 && #[trigger] model::tri_coord(positions, indices, t, k, a)
                == model::pos_at(g2.bbox.max, a);
        assert(model::pos_at(g1.bbox.max, a) >= model::tri_coord(positions, indices, t4, k4, a));
        assert(model::pos_at(g2.bbox.max, a) >= model::tri_coord(positions, indices, t3, k3, a));
    }
    assert(g1.bbox.min.position =~= g2.bbox.min.position);
    assert(g1.bbox.min =~= g2.bbox.min);
    assert(g1.bbox.max.position =~= g2.bbox.max.position);
    assert(g1.bbox.max =~= g2.bbox.max);
    assert(g1.bbox =~= g2.bbox);
    resolver::lemma_resolve_deterministic(g1.bbox, tcount, g1.resolution, g2.resolution);
    assert(g1.resolution.position =~= g2.resolution.position);
    assert(g1.resolution =~= g2.resolution);
    assert forall|a: int| 0 <= a < 3 implies (g1.cell_size.num[a] as int) == (g2.cell_size.num[a]
        as int) && (g1.cell_size.den[a] as int) == (g2.cell_size.den[a] as int) by {
        assert((g1.cell_size.num[a] as int) == model::bb_extent(g1.bbox, a));
        assert((g2.cell_size.num[a] as int) == model::bb_extent(g2.bbox, a));
        assert((g1.cell_size.den[a] as int) == model::res_at(g1.resolution, a));
        assert((g2.cell_size.den[a] as int) == model::res_at(g2.resolution, a));
    }
    assert(g1.cell_size.num =~= g2.cell_size.num);
    assert(g1.cell_size.den =~= g2.cell_size.den);
    let mins = model::tri_min_cells_seq(positions, indices, g1.bbox, g1.resolution, tcount);
    let maxs = model::tri_max_cells_seq(positions, indices, g1.bbox, g1.resolution, tcount);
    assert forall|j: int| 0 <= j < g1.cells_buffer@.len() implies g1.cells_buffer@[j]
        == g2.cells_buffer@[j] by {
        assert(g1.cells_buffer@[j] == model::pairs_total_upto_cell(
            mins,
            maxs,
            g1.resolution,
            tcount,
            j,
        ));
        assert(g2.cells_buffer@[j] == model::pairs_total_upto_cell(
            mins,
            maxs,
            g1.resolution,
            tcount,
            j,
        ));
    }
    assert(g1.cells_buffer@ =~= g2.cells_buffer@);
}

} // verus!
