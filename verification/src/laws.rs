//! Laws of the generation step, proved once and for all over the model.
//!
//! Each law is a public proof function whose statement stands on its own:
//! determinism of the step, unconditional decay, the absence of neighbors
//! at a single-cell lattice, the survival rule, and the stasis of an
//! all-dead lattice.

use crate::model::LatticeModel;
use crate::model::born_value;
use crate::model::delta;
use crate::model::in_lattice;
use crate::model::lemma_count_of_none;
use crate::model::lemma_index_in_range;
use crate::model::lemma_index_inverse;
use crate::model::model_wf;
use crate::model::neighbor_count;
use crate::model::offset_allowed;
use crate::model::offset_tally;
use crate::model::spec_index;
use crate::model::step_cell;
use vstd::prelude::*;

verus! {

/// Determinism. Advancing a generation admits exactly one result: any two
/// cell arrays in which every lattice site holds the step of the same
/// snapshot are equal. Two lattices constructed and seeded identically
/// therefore hold identical cell arrays after each generation.
pub proof fn lemma_advance_deterministic(m: LatticeModel, c1: Seq<u8>, c2: Seq<u8>)
    requires
        model_wf(m),
        c1.len() == m.cells.len(),
        c2.len() == m.cells.len(),
        forall|x: int, y: int, z: int|
            in_lattice(m, x, y, z) ==> c1[#[trigger] spec_index(m.width, m.height, x, y, z)]
                == step_cell(m, x, y, z),
        forall|x: int, y: int, z: int|
            in_lattice(m, x, y, z) ==> c2[#[trigger] spec_index(m.width, m.height, x, y, z)]
                == step_cell(m, x, y, z),
    ensures
        c1 == c2,
{
    assert forall|t: int| 0 <= t < c1.len() implies c1[t] == c2[t] by {
        assert(m.width > 0 && m.height > 0 && m.depth > 0) by (nonlinear_arith)
            requires
                m.width >= 0,
                m.height >= 0,
                m.depth >= 0,
                m.width * m.height * m.depth > 0,
        ;
        let c = lemma_index_inverse(m.width, m.height, m.depth, t);
        assert(in_lattice(m, c.0, c.1, c.2));
    }
    assert(c1 =~= c2);
}

/// Decay monotonicity. A cell at a decay stage (value at least two) steps
/// to exactly one less, whatever its neighbors hold and whatever the rules
/// list.
pub proof fn lemma_decay_monotonic(m: LatticeModel, x: int, y: int, z: int)
    requires
        model_wf(m),
        in_lattice(m, x, y, z),
        m.cells[spec_index(m.width, m.height, x, y, z)] >= 2,
    ensures
        step_cell(m, x, y, z) == m.cells[spec_index(m.width, m.height, x, y, z)] - 1,
{
}

/// Boundary exclusion. In a one-by-one-by-one lattice the single cell has
/// no neighbor under either topology, so when dead it is born exactly when
/// zero is a listed birth count.
pub proof fn lemma_boundary_exclusion(m: LatticeModel)
    requires
        m.width == 1,
        m.height == 1,
        m.depth == 1,
    ensures
        neighbor_count(m, 0, 0, 0) == 0,
        m.cells[0] == 0 && !m.creates.contains(0u32) ==> step_cell(m, 0, 0, 0) == 0,
        m.cells[0] == 0 && m.creates.contains(0u32) ==> step_cell(m, 0, 0, 0) == born_value(
            m.initial,
        ),
{
    assert forall|i: int, j: int, k: int|
        0 <= i < 3 && 0 <= j < 3 && 0 <= k < 3 implies offset_tally(m, 0, 0, 0, i, j, k) == 0 by {
        if offset_allowed(m.topology, i, j, k) {
            assert(delta(i) != 0 || delta(j) != 0 || delta(k) != 0);
            assert(!in_lattice(m, delta(i), delta(j), delta(k)));
        }
    }
    lemma_count_of_none(m, 0, 0, 0);
}

/// Survival versus death. A cell at the terminal live stage (value one)
/// stays at one exactly when its neighbor count is a listed survival
/// count, and dies to zero otherwise.
pub proof fn lemma_survival_rule(m: LatticeModel, x: int, y: int, z: int)
    requires
        model_wf(m),
        in_lattice(m, x, y, z),
        m.cells[spec_index(m.width, m.height, x, y, z)] == 1,
    ensures
        m.survives.contains(neighbor_count(m, x, y, z) as u32) ==> step_cell(m, x, y, z) == 1,
        !m.survives.contains(neighbor_count(m, x, y, z) as u32) ==> step_cell(m, x, y, z) == 0,
{
}

/// Idempotence of stasis. In an all-dead lattice every neighbor count is
/// zero, so unless zero is a listed birth count every cell stays dead;
/// by induction on generations an all-dead lattice remains all-dead after
/// any number of steps.
pub proof fn lemma_stasis(m: LatticeModel, x: int, y: int, z: int)
    requires
        model_wf(m),
        in_lattice(m, x, y, z),
        forall|t: int| 0 <= t < m.cells.len() ==> m.cells[t] == 0,
        !m.creates.contains(0u32),
    ensures
        step_cell(m, x, y, z) == 0,
{
    assert forall|i: int, j: int, k: int|
        0 <= i < 3 && 0 <= j < 3 && 0 <= k < 3 implies offset_tally(m, x, y, z, i, j, k) == 0 by {
        let nx = x + delta(i);
        let ny = y + delta(j);
        let nz = z + delta(k);
        if in_lattice(m, nx, ny, nz) {
            lemma_index_in_range(m.width, m.height, m.depth, nx, ny, nz);
        }
    }
    lemma_count_of_none(m, x, y, z);
    lemma_index_in_range(m.width, m.height, m.depth, x, y, z);
}

} // verus!
