//! The lattice engine: a dense 3D grid of cells and the rule set it evolves
//! under, with one operation that advances the whole grid by a generation.
//!
//! Every contract is stated over the ghost model in [`crate::model`]: the
//! view of a lattice is a [`LatticeModel`], and advancing a generation is
//! promised to rewrite every cell to [`step_cell`] of the old view.

use crate::model::LatticeModel;
use crate::model::block_count;
use crate::model::in_lattice;
use crate::model::lemma_index_in_range;
use crate::model::lemma_index_injective;
use crate::model::model_wf;
use crate::model::neighbor_count;
use crate::model::neighbor_live;
use crate::model::offset_allowed;
use crate::model::plane_count;
use crate::model::row_count;
use crate::model::spec_index;
use crate::model::step_cell;
use vstd::prelude::*;

verus! {

/// An immutable rule set: which neighbor counts cause birth, which keep a
/// terminal live cell alive, the decay stage a newborn starts at, and the
/// neighborhood topology (`'V'` selects the component-sum-one filter; any
/// other tag selects the full 26-offset cube).
///
/// No validation is performed: empty lists are legal and simply make birth
/// or survival impossible.
#[derive(Clone)]
pub struct Rules {
    pub creates: Vec<u32>,
    pub survives: Vec<u32>,
    pub initial: u32,
    pub simulation_type: char,
}

/// A cuboid lattice of cells evolving under a fixed rule set.
///
/// Cell values: `0` is dead; `1` is alive at the terminal stage, subject to
/// the survival test; any higher value is a decay stage that steps down by
/// one each generation regardless of its neighbors.
pub struct cellular_automata {
    cells: Vec<u8>,
    width: u32,
    height: u32,
    depth: u32,
    rules: Rules,
}

impl View for cellular_automata {
    type V = LatticeModel;

    closed spec fn view(&self) -> LatticeModel {
        LatticeModel {
            cells: self.cells@,
            width: self.width as int,
            height: self.height as int,
            depth: self.depth as int,
            creates: self.rules.creates@,
            survives: self.rules.survives@,
            initial: self.rules.initial,
            topology: self.rules.simulation_type,
        }
    }
}

/// Copies a rule list element by element.
fn copy_rule_list(v: &Vec<u32>) -> (r: Vec<u32>)
    ensures
        r@ == v@,
{
    let mut r: Vec<u32> = Vec::new();
    let mut i: usize = 0;
    while i < v.len()
        invariant
            i <= v@.len(),
            r@.len() == i,
            forall|q: int| 0 <= q < i ==> r@[q] == v@[q],
        decreases v@.len() - i,
    {
        r.push(v[i]);
        i = i + 1;
    }
    assert(r@ =~= v@);
    r
}

/// Copies the cell array element by element, giving the stable snapshot
/// that a generation step reads while it writes the next buffer.
fn copy_cells(v: &Vec<u8>) -> (r: Vec<u8>)
    ensures
        r@ == v@,
{
    let mut r: Vec<u8> = Vec::new();
    let mut i: usize = 0;
    while i < v.len()
        invariant
            i <= v@.len(),
            r@.len() == i,
            forall|q: int| 0 <= q < i ==> r@[q] == v@[q],
        decreases v@.len() - i,
    {
        r.push(v[i]);
        i = i + 1;
    }
    assert(r@ =~= v@);
    r
}

/// Whether a rule list holds the given neighbor count.
fn list_holds(v: &Vec<u32>, c: u32) -> (r: bool)
    ensures
        r == v@.contains(c),
{
    let mut i: usize = 0;
    while i < v.len()
        invariant
            i <= v@.len(),
            forall|q: int| 0 <= q < i ==> v@[q] != c,
        decreases v@.len() - i,
    {
        if v[i] == c {
            return true;
        }
        i = i + 1;
    }
    false
}

impl cellular_automata {
    /// The lattice holds one cell per site, and the site count fits the
    /// machine arithmetic the coordinate mapping is computed with.
    pub open spec fn wf(&self) -> bool {
        &&& model_wf(self@)
        &&& self@.width * self@.height * self@.depth <= u32::MAX as int
    }

    /// The linear position of the in-range cell at `(x, y, z)`.
    fn index(&self, x: u32, y: u32, z: u32) -> (r: usize)
        requires
            self.wf(),
            (x as int) < self@.width,
            (y as int) < self@.height,
            (z as int) < self@.depth,
        ensures
            r == spec_index(self@.width, self@.height, x as int, y as int, z as int),
            r < self@.cells.len(),
    {
        proof {
            lemma_index_in_range(
                self@.width,
                self@.height,
                self@.depth,
                x as int,
                y as int,
                z as int,
            );
        }
        (x + y * self.width + z * self.width * self.height) as usize
    }

    /// Builds a lattice of the given dimensions with every cell dead, over
    /// a copy of the given rule set. The site count must fit the cell
    /// array's index arithmetic.
    pub fn new(width: u32, height: u32, depth: u32, rules: &Rules) -> (r: cellular_automata)
        requires
            width * height * depth <= u32::MAX,
        ensures
            r.wf(),
            r@.width == width as int,
            r@.height == height as int,
            r@.depth == depth as int,
            r@.cells.len() == width * height * depth,
            forall|t: int| 0 <= t < r@.cells.len() ==> r@.cells[t] == 0,
            r@.creates == rules.creates@,
            r@.survives == rules.survives@,
            r@.initial == rules.initial,
            r@.topology == rules.simulation_type,
    {
        proof {
            assert((width as int) * (height as int) <= u32::MAX as int || depth == 0)
                by (nonlinear_arith)
                requires
                    (width as int) * (height as int) * (depth as int) <= u32::MAX as int,
            ;
            assert((width as int) * (height as int) <= (u32::MAX as int) * (u32::MAX as int))
                by (nonlinear_arith)
                requires
                    (width as int) <= u32::MAX as int,
                    (height as int) <= u32::MAX as int,
            ;
        }
        let wh: u64 = (width as u64) * (height as u64);
        let size: usize = (wh * (depth as u64)) as usize;
        let mut cells: Vec<u8> = Vec::new();
        while cells.len() < size
            invariant
                cells@.len() <= size,
                forall|q: int| 0 <= q < cells@.len() ==> cells@[q] == 0,
            decreases size - cells@.len(),
        {
            cells.push(0);
        }
        cellular_automata {
            cells,
            width,
            height,
            depth,
            rules: Rules {
                creates: copy_rule_list(&rules.creates),
                survives: copy_rule_list(&rules.survives),
                initial: rules.initial,
                simulation_type: rules.simulation_type,
            },
        }
    }

    /// Reads the cell at the in-range coordinates `(x, y, z)`.
    pub fn get_cell(&self, x: u32, y: u32, z: u32) -> (v: u8)
        requires
            self.wf(),
            (x as int) < self@.width,
            (y as int) < self@.height,
            (z as int) < self@.depth,
        ensures
            v == self@.cells[spec_index(self@.width, self@.height, x as int, y as int, z as int)],
    {
        let idx = self.index(x, y, z);
        self.cells[idx]
    }

    /// Seeds the cell at the in-range coordinates `(x, y, z)` to `v`,
    /// leaving every other cell and the rules untouched.
    pub fn set_cell(&mut self, x: u32, y: u32, z: u32, v: u8)
        requires
            old(self).wf(),
            (x as int) < old(self)@.width,
            (y as int) < old(self)@.height,
            (z as int) < old(self)@.depth,
        ensures
            final(self).wf(),
            final(self)@ == (LatticeModel {
                cells: old(self)@.cells.update(
                    spec_index(old(self)@.width, old(self)@.height, x as int, y as int, z as int),
                    v,
                ),
                ..old(self)@
            }),
    {
        let idx = self.index(x, y, z);
        self.cells[idx] = v;
    }

    /// Computes the next value of the cell at `(x, y, z)` from the snapshot
    /// `self` and writes it into `new_cells` at that cell's position; no
    /// other position changes. The position must still hold the snapshot's
    /// value for that cell, as it does under double-buffering.
    #[verifier::loop_isolation(false)]
    fn updateCell(&self, new_cells: &mut Vec<u8>, x: u32, y: u32, z: u32)
        requires
            self.wf(),
            (x as int) < self@.width,
            (y as int) < self@.height,
            (z as int) < self@.depth,
            old(new_cells)@.len() == self@.cells.len(),
            old(new_cells)@[spec_index(self@.width, self@.height, x as int, y as int, z as int)]
                == self@.cells[spec_index(self@.width, self@.height, x as int, y as int, z as int)],
        ensures
            final(new_cells)@.len() == old(new_cells)@.len(),
            final(new_cells)@[spec_index(self@.width, self@.height, x as int, y as int, z as int)]
                == step_cell(self@, x as int, y as int, z as int),
            forall|t: int|
                0 <= t < old(new_cells)@.len() && t != spec_index(
                    self@.width,
                    self@.height,
                    x as int,
                    y as int,
                    z as int,
                ) ==> final(new_cells)@[t] == old(new_cells)@[t],
    {
        let idx = self.index(x, y, z);

        let mut count: u32 = 0;
        let mut i: u32 = 0;
        while i < 3
            invariant
                i <= 3,
                count <= 9 * i,
                count == block_count(self@, x as int, y as int, z as int, i as int),
            decreases 3 - i,
        {
            let mut j: u32 = 0;
            while j < 3
                invariant
                    i < 3,
                    j <= 3,
                    count <= 9 * i + 3 * j,
                    count == block_count(self@, x as int, y as int, z as int, i as int)
                        + plane_count(self@, x as int, y as int, z as int, i as int, j as int),
                decreases 3 - j,
            {
                let mut k: u32 = 0;
                while k < 3
                    invariant
                        i < 3,
                        j < 3,
                        k <= 3,
                        count <= 9 * i + 3 * j + k,
                        count == block_count(self@, x as int, y as int, z as int, i as int)
                            + plane_count(self@, x as int, y as int, z as int, i as int, j as int)
                            + row_count(
                            self@,
                            x as int,
                            y as int,
                            z as int,
                            i as int,
                            j as int,
                            k as int,
                        ),
                    decreases 3 - k,
                {
                    let di: i64 = if i == 0 { 0 } else if i == 1 { 1 } else { -1 };
                    let dj: i64 = if j == 0 { 0 } else if j == 1 { 1 } else { -1 };
                    let dk: i64 = if k == 0 { 0 } else if k == 1 { 1 } else { -1 };

                    let mut allowed: bool = true;
                    if i == 0 && j == 0 && k == 0 {
                        allowed = false;
                    }
                    if self.rules.simulation_type == 'V' && di + dj + dk != 1 {
                        allowed = false;
                    }
                    proof {
                        assert(allowed == offset_allowed(
                            self@.topology,
                            i as int,
                            j as int,
                            k as int,
                        ));
                    }

                    let mut live: bool = false;
                    if allowed {
                        let nx: i64 = x as i64 + di;
                        let ny: i64 = y as i64 + dj;
                        let nz: i64 = z as i64 + dk;
                        if 0 <= nx && nx < self.width as i64 && 0 <= ny && ny < self.height as i64
                            && 0 <= nz && nz < self.depth as i64 {
                            let nidx = self.index(nx as u32, ny as u32, nz as u32);
                            if self.cells[nidx] >= 1 {
                                live = true;
                            }
                        }
                    }
                    proof {
                        assert(live == (offset_allowed(self@.topology, i as int, j as int, k as int)
                            && neighbor_live(self@, x as int, y as int, z as int, i as int, j as int, k as int)));
                    }

                    if live {
                        count = count + 1;
                    }
                    k = k + 1;
                }
                j = j + 1;
            }
            i = i + 1;
        }
        proof {
            assert(count == neighbor_count(self@, x as int, y as int, z as int));
        }

        let v = self.cells[idx];
        if v == 0 {
            if list_holds(&self.rules.creates, count) {
                new_cells[idx] = #[verifier::truncate] (self.rules.initial as u8);
            }
        } else if v == 1 {
            if !list_holds(&self.rules.survives, count) {
                new_cells[idx] = 0;
            }
        } else {
            let cur = new_cells[idx];
            new_cells[idx] = cur - 1;
        }
    }

    /// Advances the lattice one synchronous generation: every cell's next
    /// value is computed from the snapshot that existed at the start of the
    /// call, per [`step_cell`], and the grid is replaced in one swap. The
    /// dimensions and the rules never change, and the call cannot fail.
    #[verifier::loop_isolation(false)]
    pub fn updateState(&mut self)
        requires
            old(self).wf(),
        ensures
            final(self).wf(),
            final(self)@.width == old(self)@.width,
            final(self)@.height == old(self)@.height,
            final(self)@.depth == old(self)@.depth,
            final(self)@.creates == old(self)@.creates,
            final(self)@.survives == old(self)@.survives,
            final(self)@.initial == old(self)@.initial,
            final(self)@.topology == old(self)@.topology,
            final(self)@.cells.len() == old(self)@.cells.len(),
            forall|x: int, y: int, z: int|
                in_lattice(old(self)@, x, y, z) ==> final(self)@.cells[#[trigger] spec_index(
                    old(self)@.width,
                    old(self)@.height,
                    x,
                    y,
                    z,
                )] == step_cell(old(self)@, x, y, z),
    {
        let ghost m0 = self@;
        let ghost w = m0.width;
        let ghost h = m0.height;

        let mut new_cells = copy_cells(&self.cells);

        let mut z: u32 = 0;
        while z < self.depth
            invariant
                (z as int) <= m0.depth,
                new_cells@.len() == m0.cells.len(),
                forall|xx: int, yy: int, zz: int|
                    in_lattice(m0, xx, yy, zz) && zz < z as int ==> new_cells@[#[trigger] spec_index(
                        w,
                        h,
                        xx,
                        yy,
                        zz,
                    )] == step_cell(m0, xx, yy, zz),
                forall|xx: int, yy: int, zz: int|
                    in_lattice(m0, xx, yy, zz) && zz >= z as int ==> new_cells@[
                        #[trigger] spec_index(w, h, xx, yy, zz)] == m0.cells[spec_index(
                        w,
                        h,
                        xx,
                        yy,
                        zz,
                    )],
            decreases m0.depth - z as int,
        {
            let mut y: u32 = 0;
            while y < self.height
                invariant
                    (z as int) < m0.depth,
                    (y as int) <= m0.height,
                    new_cells@.len() == m0.cells.len(),
                    forall|xx: int, yy: int, zz: int|
                        in_lattice(m0, xx, yy, zz) && (zz < z as int || (zz == z as int && yy
                            < y as int)) ==> new_cells@[#[trigger] spec_index(w, h, xx, yy, zz)]
                            == step_cell(m0, xx, yy, zz),
                    forall|xx: int, yy: int, zz: int|
                        in_lattice(m0, xx, yy, zz) && !(zz < z as int || (zz == z as int && yy
                            < y as int)) ==> new_cells@[#[trigger] spec_index(w, h, xx, yy, zz)]
                            == m0.cells[spec_index(w, h, xx, yy, zz)],
                decreases m0.height - y as int,
            {
                let mut x: u32 = 0;
                while x < self.width
                    invariant
                        (z as int) < m0.depth,
                        (y as int) < m0.height,
                        (x as int) <= m0.width,
                        new_cells@.len() == m0.cells.len(),
                        forall|xx: int, yy: int, zz: int|
                            in_lattice(m0, xx, yy, zz) && (zz < z as int || (zz == z as int && yy
                                < y as int) || (zz == z as int && yy == y as int && xx < x as int))
                                ==> new_cells@[#[trigger] spec_index(w, h, xx, yy, zz)]
                                == step_cell(m0, xx, yy, zz),
                        forall|xx: int, yy: int, zz: int|
                            in_lattice(m0, xx, yy, zz) && !(zz < z as int || (zz == z as int && yy
                                < y as int) || (zz == z as int && yy == y as int && xx < x as int))
                                ==> new_cells@[#[trigger] spec_index(w, h, xx, yy, zz)]
                                == m0.cells[spec_index(w, h, xx, yy, zz)],
                    decreases m0.width - x as int,
                {
                    self.updateCell(&mut new_cells, x, y, z);
                    proof {
                        assert forall|xx: int, yy: int, zz: int|
                            in_lattice(m0, xx, yy, zz) implies 0 <= #[trigger] spec_index(
                            w,
                            h,
                            xx,
                            yy,
                            zz,
                        ) < m0.cells.len() by {
                            lemma_index_in_range(w, h, m0.depth, xx, yy, zz);
                        }
                        assert forall|xx: int, yy: int, zz: int|
                            in_lattice(m0, xx, yy, zz) && !(xx == x as int && yy == y as int && zz
                                == z as int) implies #[trigger] spec_index(w, h, xx, yy, zz)
                            != spec_index(w, h, x as int, y as int, z as int) by {
                            lemma_index_injective(
                                w,
                                h,
                                xx,
                                yy,
                                zz,
                                x as int,
                                y as int,
                                z as int,
                            );
                        }
                    }
                    x = x + 1;
                }
                y = y + 1;
            }
            z = z + 1;
        }

        self.cells = new_cells;
    }
}

} // verus!
