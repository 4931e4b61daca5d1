//! Mathematical model of a lattice and of the generation step.
//!
//! `LatticeModel` is the ghost image of a running lattice: its cells as a
//! sequence, its dimensions, and its rule set as plain values. The spec
//! functions here define the linear coordinate mapping, the topology-filtered
//! neighbor count, and the per-cell transition rule; the engine's contracts
//! are stated over them.

use vstd::prelude::*;

verus! {

/// Ghost image of a lattice: cell contents, dimensions and rules.
pub ghost struct LatticeModel {
    pub cells: Seq<u8>,
    pub width: int,
    pub height: int,
    pub depth: int,
    pub creates: Seq<u32>,
    pub survives: Seq<u32>,
    pub initial: u32,
    pub topology: char,
}

/// A model is well formed when it holds exactly one cell per lattice site.
pub open spec fn model_wf(m: LatticeModel) -> bool {
    &&& m.width >= 0
    &&& m.height >= 0
    &&& m.depth >= 0
    &&& m.cells.len() == m.width * m.height * m.depth
}

/// The linear position of the cell at `(x, y, z)`: x-major, then y, then z.
pub open spec fn spec_index(w: int, h: int, x: int, y: int, z: int) -> int {
    x + y * w + z * w * h
}

/// Whether `(x, y, z)` lies inside the lattice. Boundaries are hard edges:
/// there is no wraparound, and sites outside simply do not exist.
pub open spec fn in_lattice(m: LatticeModel, x: int, y: int, z: int) -> bool {
    &&& 0 <= x < m.width
    &&& 0 <= y < m.height
    &&& 0 <= z < m.depth
}

/// The coordinate offset that enumeration step `i` in `[0, 3)` stands for.
pub open spec fn delta(i: int) -> int {
    if i == 0 {
        0
    } else if i == 1 {
        1
    } else {
        -1
    }
}

/// Whether enumeration steps `(i, j, k)` name an offset that the topology
/// admits as a neighbor. The cell itself, offset `(0, 0, 0)`, never does.
/// Every other offset counts under the full-cube topology; under `'V'` only
/// offsets whose component sum is exactly one do. That is a literal numeric
/// filter, not a face-adjacency test: it admits some diagonal offsets, and
/// is kept exactly as the rule set defines it.
pub open spec fn offset_allowed(topology: char, i: int, j: int, k: int) -> bool {
    &&& !(i == 0 && j == 0 && k == 0)
    &&& (topology == 'V' ==> delta(i) + delta(j) + delta(k) == 1)
}

/// Whether the neighbor at offset `(delta(i), delta(j), delta(k))` from
/// `(x, y, z)` exists and is live (value at least one) in the snapshot.
pub open spec fn neighbor_live(m: LatticeModel, x: int, y: int, z: int, i: int, j: int, k: int) -> bool {
    let nx = x + delta(i);
    let ny = y + delta(j);
    let nz = z + delta(k);
    &&& in_lattice(m, nx, ny, nz)
    &&& m.cells[spec_index(m.width, m.height, nx, ny, nz)] >= 1
}

/// What enumeration step `(i, j, k)` adds to the neighbor count: one for a
/// live neighbor at an admitted offset, zero otherwise.
pub open spec fn offset_tally(m: LatticeModel, x: int, y: int, z: int, i: int, j: int, k: int) -> nat {
    if offset_allowed(m.topology, i, j, k) && neighbor_live(m, x, y, z, i, j, k) {
        1
    } else {
        0
    }
}

/// Sum of the contributions of steps `(i, j, k')` for `k'` below `k`.
pub open spec fn row_count(m: LatticeModel, x: int, y: int, z: int, i: int, j: int, k: int) -> nat
    decreases k,
{
    if k <= 0 {
        0
    } else {
        row_count(m, x, y, z, i, j, k - 1) + offset_tally(m, x, y, z, i, j, k - 1)
    }
}

/// Sum of the contributions of steps `(i, j', _)` for `j'` below `j`.
pub open spec fn plane_count(m: LatticeModel, x: int, y: int, z: int, i: int, j: int) -> nat
    decreases j,
{
    if j <= 0 {
        0
    } else {
        plane_count(m, x, y, z, i, j - 1) + row_count(m, x, y, z, i, j - 1, 3)
    }
}

/// Sum of the contributions of steps `(i', _, _)` for `i'` below `i`.
pub open spec fn block_count(m: LatticeModel, x: int, y: int, z: int, i: int) -> nat
    decreases i,
{
    if i <= 0 {
        0
    } else {
        block_count(m, x, y, z, i - 1) + plane_count(m, x, y, z, i - 1, 3)
    }
}

/// The live-neighbor count of the cell at `(x, y, z)`: the sum over all 26
/// non-self offsets of the cube, filtered by the topology and the boundary.
pub open spec fn neighbor_count(m: LatticeModel, x: int, y: int, z: int) -> nat {
    block_count(m, x, y, z, 3)
}

/// The value a newborn cell starts at: the rule set's `initial`, truncated
/// into the cell's narrow width exactly as the engine stores it.
pub open spec fn born_value(initial: u32) -> u8 {
    initial as u8
}

/// The next value of the cell at `(x, y, z)`, computed from the snapshot
/// `m` alone: birth for a dead cell whose count is listed in `creates`,
/// the survival test for a terminal live cell, and one step of decay for
/// any higher value.
pub open spec fn step_cell(m: LatticeModel, x: int, y: int, z: int) -> u8 {
    let v = m.cells[spec_index(m.width, m.height, x, y, z)];
    let c = neighbor_count(m, x, y, z);
    if v == 0 {
        if m.creates.contains(c as u32) {
            born_value(m.initial)
        } else {
            0
        }
    } else if v == 1 {
        if m.survives.contains(c as u32) {
            1
        } else {
            0
        }
    } else {
        (v - 1) as u8
    }
}

/// The linear position of an in-range site lies within the cell array, and
/// each summand of the mapping is bounded by the array's length.
pub proof fn lemma_index_in_range(w: int, h: int, d: int, x: int, y: int, z: int)
    requires
        0 <= x < w,
        0 <= y < h,
        0 <= z < d,
    ensures
        0 <= y * w,
        0 <= z * w,
        z * w <= z * w * h,
        0 <= x + y * w + z * w * h < w * h * d,
        spec_index(w, h, x, y, z) == x + y * w + z * w * h,
{
    assert(0 <= y * w && 0 <= z * w && z * w <= z * w * h && x + y * w + z * w * h < w * h * d)
        by (nonlinear_arith)
        requires
            0 <= x < w,
            0 <= y < h,
            0 <= z < d,
    ;
}

/// Distinct in-range sites have distinct linear positions.
pub proof fn lemma_index_injective(
    w: int,
    h: int,
    x1: int,
    y1: int,
    z1: int,
    x2: int,
    y2: int,
    z2: int,
)
    requires
        0 <= x1 < w,
        0 <= y1 < h,
        0 <= z1,
        0 <= x2 < w,
        0 <= y2 < h,
        0 <= z2,
    ensures
        spec_index(w, h, x1, y1, z1) == spec_index(w, h, x2, y2, z2) ==> (x1 == x2 && y1 == y2
            && z1 == z2),
{
    if spec_index(w, h, x1, y1, z1) == spec_index(w, h, x2, y2, z2) {
        assert(x1 + w * (y1 + h * z1) == x1 + y1 * w + z1 * w * h) by (nonlinear_arith);
        assert(x2 + w * (y2 + h * z2) == x2 + y2 * w + z2 * w * h) by (nonlinear_arith);
        lemma_digit_split(w, x1, y1 + h * z1, x2, y2 + h * z2);
        lemma_digit_split(h, y1, z1, y2, z2);
    }
}

/// A value below `w` plus `w` times a quotient determines both parts.
proof fn lemma_digit_split(w: int, r1: int, q1: int, r2: int, q2: int)
    requires
        0 <= r1 < w,
        0 <= r2 < w,
        r1 + w * q1 == r2 + w * q2,
    ensures
        r1 == r2,
        q1 == q2,
{
    assert(r1 == r2 && q1 == q2) by (nonlinear_arith)
        requires
            0 <= r1 < w,
            0 <= r2 < w,
            r1 + w * q1 == r2 + w * q2,
    ;
}

/// Every linear position within the cell array is the position of exactly
/// one in-range site; this returns that site's coordinates.
pub proof fn lemma_index_inverse(w: int, h: int, d: int, t: int) -> (c: (int, int, int))
    requires
        0 < w,
        0 < h,
        0 < d,
        0 <= t < w * h * d,
    ensures
        0 <= c.0 < w,
        0 <= c.1 < h,
        0 <= c.2 < d,
        spec_index(w, h, c.0, c.1, c.2) == t,
{
    let x = t % w;
    let y = (t / w) % h;
    let z = (t / w) / h;
    vstd::arithmetic::div_mod::lemma_fundamental_div_mod(t, w);
    vstd::arithmetic::div_mod::lemma_mod_pos_bound(t, w);
    vstd::arithmetic::div_mod::lemma_div_pos_is_pos(t, w);
    vstd::arithmetic::div_mod::lemma_fundamental_div_mod(t / w, h);
    vstd::arithmetic::div_mod::lemma_mod_pos_bound(t / w, h);
    vstd::arithmetic::div_mod::lemma_div_pos_is_pos(t / w, h);
    assert(t / w < h * d) by (nonlinear_arith)
        requires
            0 < w,
            0 < h,
            0 < d,
            0 <= t < w * h * d,
            t == w * (t / w) + t % w,
            0 <= t % w < w,
    ;
    assert(z < d) by (nonlinear_arith)
        requires
            0 < h,
            0 < d,
            t / w < h * d,
            t / w == h * z + (t / w) % h,
            0 <= (t / w) % h < h,
            y == (t / w) % h,
            z == (t / w) / h,
    ;
    assert(x + y * w + z * w * h == t) by (nonlinear_arith)
        requires
            t == w * (t / w) + x,
            t / w == h * z + y,
    ;
    (x, y, z)
}

/// A cell none of whose 26 candidate offsets contributes has count zero.
pub proof fn lemma_count_of_none(m: LatticeModel, x: int, y: int, z: int)
    requires
        forall|i: int, j: int, k: int|
            0 <= i < 3 && 0 <= j < 3 && 0 <= k < 3 ==> offset_tally(m, x, y, z, i, j, k) == 0,
    ensures
        neighbor_count(m, x, y, z) == 0,
{
    lemma_block_of_none(m, x, y, z, 3);
}

proof fn lemma_row_of_none(m: LatticeModel, x: int, y: int, z: int, i: int, j: int, k: int)
    requires
        0 <= i < 3,
        0 <= j < 3,
        0 <= k <= 3,
        forall|i2: int, j2: int, k2: int|
            0 <= i2 < 3 && 0 <= j2 < 3 && 0 <= k2 < 3 ==> offset_tally(m, x, y, z, i2, j2, k2) == 0,
    ensures
        row_count(m, x, y, z, i, j, k) == 0,
    decreases k,
{
    if k > 0 {
        lemma_row_of_none(m, x, y, z, i, j, k - 1);
        assert(offset_tally(m, x, y, z, i, j, k - 1) == 0);
    }
}

proof fn lemma_plane_of_none(m: LatticeModel, x: int, y: int, z: int, i: int, j: int)
    requires
        0 <= i < 3,
        0 <= j <= 3,
        forall|i2: int, j2: int, k2: int|
            0 <= i2 < 3 && 0 <= j2 < 3 && 0 <= k2 < 3 ==> offset_tally(m, x, y, z, i2, j2, k2) == 0,
    ensures
        plane_count(m, x, y, z, i, j) == 0,
    decreases j,
{
    if j > 0 {
        lemma_plane_of_none(m, x, y, z, i, j - 1);
        lemma_row_of_none(m, x, y, z, i, j - 1, 3);
    }
}

proof fn lemma_block_of_none(m: LatticeModel, x: int, y: int, z: int, i: int)
    requires
        0 <= i <= 3,
        forall|i2: int, j2: int, k2: int|
            0 <= i2 < 3 && 0 <= j2 < 3 && 0 <= k2 < 3 ==> offset_tally(m, x, y, z, i2, j2, k2) == 0,
    ensures
        block_count(m, x, y, z, i) == 0,
    decreases i,
{
    if i > 0 {
        lemma_block_of_none(m, x, y, z, i - 1);
        lemma_plane_of_none(m, x, y, z, i - 1, 3);
    }
}

} // verus!
