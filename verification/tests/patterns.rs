use game_of_life::sim::patterns::{place, presets, BLINKER, BLOCK, GLIDER, PULSAR, R_PENTOMINO};
use game_of_life::sim::Grid;

#[test]
fn block_pattern_places_four_live_cells() {
    let mut g = Grid::new(20, 20);
    place(&BLOCK, &mut g);
    assert_eq!(g.live_cell_count(), 4);
}

#[test]
fn blinker_pattern_places_three_live_cells() {
    let mut g = Grid::new(20, 20);
    place(&BLINKER, &mut g);
    assert_eq!(g.live_cell_count(), 3);
}

#[test]
fn pulsar_places_48_live_cells() {
    let mut g = Grid::new(20, 20);
    place(&PULSAR, &mut g);
    assert_eq!(g.live_cell_count(), 48);
}

#[test]
fn place_centres_on_grid() {
    let mut g = Grid::new(20, 20);
    place(&[(0, 0)], &mut g);
    assert!(g.get(10, 10));
}

#[test]
fn place_wraps_toroidally() {
    let mut g = Grid::new(5, 5);
    place(&[(-3, 0)], &mut g);
    assert!(g.get(4, 2));
}

// Laws and edge cases.

#[test]
fn place_clears_what_was_there() {
    let mut g = Grid::new(10, 10);
    g.set(0, 0, true);
    g.set(9, 9, true);
    place(&GLIDER, &mut g);
    assert!(!g.get(0, 0));
    assert!(!g.get(9, 9));
    assert_eq!(g.live_cell_count(), 5);
    assert!(g.get(6, 5));
    assert!(g.get(7, 6));
    assert!(g.get(5, 7));
}

#[test]
fn offsets_wrapping_onto_one_cell_give_one_live_cell() {
    let mut g = Grid::new(5, 5);
    place(&[(0, 0), (5, 0), (0, -5)], &mut g);
    assert_eq!(g.live_cell_count(), 1);
    assert!(g.get(2, 2));
}

#[test]
fn empty_pattern_leaves_an_empty_grid() {
    let mut g = Grid::new(4, 4);
    g.set(1, 2, true);
    place(&[], &mut g);
    assert_eq!(g.live_cell_count(), 0);
}

#[test]
fn odd_sizes_centre_on_half_rounded_down() {
    let mut g = Grid::new(7, 3);
    place(&[(0, 0)], &mut g);
    assert!(g.get(3, 1));
    assert_eq!(g.live_cell_count(), 1);
}

#[test]
fn r_pentomino_places_five_live_cells() {
    let mut g = Grid::new(20, 20);
    place(&R_PENTOMINO, &mut g);
    assert_eq!(g.live_cell_count(), 5);
    assert!(g.get(10, 9));
    assert!(g.get(11, 9));
    assert!(g.get(9, 10));
}

#[test]
fn presets_list_the_five_patterns() {
    let p = presets();
    assert_eq!(p.len(), 5);
    let names: Vec<&str> = p.iter().map(|d| d.name).collect();
    assert_eq!(names, vec!["Block", "Blinker", "Glider", "Pulsar", "R-pentomino"]);
    assert_eq!(p[0].cells, &BLOCK[..]);
    assert_eq!(p[1].cells, &BLINKER[..]);
    assert_eq!(p[2].cells, &GLIDER[..]);
    assert_eq!(p[3].cells, &PULSAR[..]);
    assert_eq!(p[4].cells, &R_PENTOMINO[..]);
    assert_eq!(p[0].description, "Still life. Score: 4.");
}

#[test]
fn placing_twice_is_placing_once() {
    let mut a = Grid::new(9, 9);
    a.set(0, 0, true);
    let mut b = Grid::new(9, 9);
    b.set(8, 3, true);
    place(&BLINKER, &mut a);
    place(&BLINKER, &mut b);
    assert_eq!(a.cells, b.cells);
    let once = a.cells.clone();
    place(&BLINKER, &mut a);
    assert_eq!(a.cells, once);
}
