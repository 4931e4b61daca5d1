#![allow(non_snake_case)]

use simulation::Rules;
use simulation::cellular_automata;

fn moore_rules(creates: Vec<u32>, survives: Vec<u32>, initial: u32) -> Rules {
    Rules { creates, survives, initial, simulation_type: 'M' }
}

#[test]
fn testUpdateState() {
    let test_width: u32 = 10;
    let test_height: u32 = 10;
    let test_depth: u32 = 10;

    let mut automata = cellular_automata::new(
        test_width,
        test_height,
        test_depth,
        &Rules { creates: vec![4], survives: vec![4], initial: 5, simulation_type: 'M' },
    );

    automata.set_cell(5, 5, 5, 5);
    automata.set_cell(5, 5, 6, 5);
    automata.set_cell(7, 5, 5, 5);
    automata.set_cell(7, 5, 6, 5);

    automata.updateState();

    assert_eq!(automata.get_cell(6, 5, 5), 5);
    assert_eq!(automata.get_cell(6, 5, 6), 5);
    assert_eq!(automata.get_cell(6, 5, 7), 0);
    assert_eq!(automata.get_cell(5, 5, 5), 4);
    assert_eq!(automata.get_cell(5, 5, 6), 4);
    assert_eq!(automata.get_cell(7, 5, 5), 4);
    assert_eq!(automata.get_cell(7, 5, 6), 4);
}

#[test]
fn determinism_of_advance() {
    let mut a = cellular_automata::new(4, 4, 4, &moore_rules(vec![2, 3], vec![2], 3));
    let mut b = cellular_automata::new(4, 4, 4, &moore_rules(vec![2, 3], vec![2], 3));
    let seeds: [(u32, u32, u32, u8); 5] =
        [(0, 0, 0, 1), (1, 0, 0, 1), (1, 1, 0, 2), (2, 2, 2, 1), (3, 3, 3, 5)];
    for &(x, y, z, v) in seeds.iter() {
        a.set_cell(x, y, z, v);
        b.set_cell(x, y, z, v);
    }
    a.updateState();
    a.updateState();
    b.updateState();
    b.updateState();
    for x in 0..4u32 {
        for y in 0..4u32 {
            for z in 0..4u32 {
                assert_eq!(a.get_cell(x, y, z), b.get_cell(x, y, z));
            }
        }
    }
}

#[test]
fn decay_ignores_neighbors() {
    // A decaying cell steps down by one whatever its neighbors hold.
    let mut lonely = cellular_automata::new(3, 3, 3, &moore_rules(vec![], vec![], 0));
    lonely.set_cell(1, 1, 1, 5);
    lonely.updateState();
    assert_eq!(lonely.get_cell(1, 1, 1), 4);

    let mut crowded = cellular_automata::new(3, 3, 3, &moore_rules(vec![], vec![], 0));
    crowded.set_cell(1, 1, 1, 5);
    crowded.set_cell(0, 1, 1, 1);
    crowded.set_cell(2, 1, 1, 1);
    crowded.set_cell(1, 0, 1, 1);
    crowded.updateState();
    assert_eq!(crowded.get_cell(1, 1, 1), 4);
}

#[test]
fn decay_runs_to_death() {
    // With no survival counts listed, a cell decays 3, 2, 1, then dies.
    let mut automata = cellular_automata::new(2, 2, 2, &moore_rules(vec![], vec![], 0));
    automata.set_cell(0, 0, 0, 3);
    automata.updateState();
    assert_eq!(automata.get_cell(0, 0, 0), 2);
    automata.updateState();
    assert_eq!(automata.get_cell(0, 0, 0), 1);
    automata.updateState();
    assert_eq!(automata.get_cell(0, 0, 0), 0);
}

#[test]
fn single_cell_births_only_on_zero() {
    // The single cell of a 1x1x1 lattice has no neighbor, so its count is
    // zero and birth happens exactly when 0 is a listed birth count.
    let mut born = cellular_automata::new(1, 1, 1, &moore_rules(vec![0], vec![], 7));
    born.updateState();
    assert_eq!(born.get_cell(0, 0, 0), 7);

    let mut not_born = cellular_automata::new(1, 1, 1, &moore_rules(vec![1], vec![], 7));
    not_born.updateState();
    assert_eq!(not_born.get_cell(0, 0, 0), 0);

    let mut von_neumann = cellular_automata::new(
        1,
        1,
        1,
        &Rules { creates: vec![1], survives: vec![], initial: 7, simulation_type: 'V' },
    );
    von_neumann.updateState();
    assert_eq!(von_neumann.get_cell(0, 0, 0), 0);
}

#[test]
fn survival_keeps_terminal_cell() {
    // Cell at value 1 with two live neighbors: count 2 listed -> stays 1.
    let mut automata = cellular_automata::new(3, 1, 1, &moore_rules(vec![], vec![2], 0));
    automata.set_cell(0, 0, 0, 1);
    automata.set_cell(1, 0, 0, 1);
    automata.set_cell(2, 0, 0, 1);
    automata.updateState();
    assert_eq!(automata.get_cell(1, 0, 0), 1);
}

#[test]
fn death_without_listed_count() {
    // Cell at value 1 with two live neighbors: count 2 not listed -> dies.
    let mut automata = cellular_automata::new(3, 1, 1, &moore_rules(vec![], vec![1, 3], 0));
    automata.set_cell(0, 0, 0, 1);
    automata.set_cell(1, 0, 0, 1);
    automata.set_cell(2, 0, 0, 1);
    automata.updateState();
    assert_eq!(automata.get_cell(1, 0, 0), 0);
}

#[test]
fn topologies_count_differently() {
    // Around (1,1,1): a live cell at offset (1,1,-1), whose components sum
    // to one, and one at offset (1,0,1), whose components sum to two. The
    // full cube counts both; the filtered topology counts only the first,
    // so with creates = {1} only the filtered lattice births the center.
    let mut moore = cellular_automata::new(
        3,
        3,
        3,
        &Rules { creates: vec![1], survives: vec![], initial: 9, simulation_type: 'M' },
    );
    moore.set_cell(2, 2, 0, 1);
    moore.set_cell(2, 1, 2, 1);
    moore.updateState();
    assert_eq!(moore.get_cell(1, 1, 1), 0);

    let mut von_neumann = cellular_automata::new(
        3,
        3,
        3,
        &Rules { creates: vec![1], survives: vec![], initial: 9, simulation_type: 'V' },
    );
    von_neumann.set_cell(2, 2, 0, 1);
    von_neumann.set_cell(2, 1, 2, 1);
    von_neumann.updateState();
    assert_eq!(von_neumann.get_cell(1, 1, 1), 9);
}

#[test]
fn filter_is_literal_not_face_adjacency() {
    // The only live neighbor of (1,1,1) sits at the diagonal offset
    // (1,1,-1). Its components sum to one, so the filtered topology counts
    // it, although it is not face-adjacent: the center is born.
    let mut automata = cellular_automata::new(
        3,
        3,
        3,
        &Rules { creates: vec![1], survives: vec![], initial: 6, simulation_type: 'V' },
    );
    automata.set_cell(2, 2, 0, 1);
    automata.updateState();
    assert_eq!(automata.get_cell(1, 1, 1), 6);
}

#[test]
fn all_dead_stays_all_dead() {
    let mut automata = cellular_automata::new(5, 5, 5, &moore_rules(vec![3], vec![2, 3], 4));
    for _ in 0..4 {
        automata.updateState();
    }
    for x in 0..5u32 {
        for y in 0..5u32 {
            for z in 0..5u32 {
                assert_eq!(automata.get_cell(x, y, z), 0);
            }
        }
    }
}

#[test]
fn newborn_value_is_truncated() {
    // The decay stage is stored in a byte: a newborn from initial = 300
    // holds 300 mod 256 = 44.
    let mut automata = cellular_automata::new(1, 1, 1, &moore_rules(vec![0], vec![], 300));
    automata.updateState();
    assert_eq!(automata.get_cell(0, 0, 0), 44);
}

#[test]
fn newborn_at_one_faces_survival_at_once() {
    // initial = 1 gives a newborn no decay tail: the next generation it is
    // already subject to the survival test.
    let mut automata = cellular_automata::new(1, 1, 1, &moore_rules(vec![0], vec![], 1));
    automata.updateState();
    assert_eq!(automata.get_cell(0, 0, 0), 1);
    automata.updateState();
    assert_eq!(automata.get_cell(0, 0, 0), 0);

    let mut kept = cellular_automata::new(1, 1, 1, &moore_rules(vec![0], vec![0], 1));
    kept.updateState();
    assert_eq!(kept.get_cell(0, 0, 0), 1);
    kept.updateState();
    assert_eq!(kept.get_cell(0, 0, 0), 1);
}

#[test]
fn empty_lattice_advances() {
    // A dimension of zero gives a lattice with no cell; advancing it works.
    let mut automata = cellular_automata::new(0, 8, 8, &moore_rules(vec![0], vec![0], 1));
    automata.updateState();
}
