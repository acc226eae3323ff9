use life::universe::{random_alive, Point, Universe};
use std::collections::HashSet;

fn points(v: &[(i32, i32)]) -> Vec<Point> {
    v.iter().map(|&(x, y)| Point(x, y)).collect()
}

fn as_set(v: &Vec<Point>) -> HashSet<(i32, i32)> {
    v.iter().map(|p| (p.0, p.1)).collect()
}

fn expect_set(v: &[(i32, i32)]) -> HashSet<(i32, i32)> {
    v.iter().cloned().collect()
}

#[test]
fn new_is_generation_zero() {
    let u = Universe::new(5, 5, points(&[(1, 1), (2, 2)]));
    assert_eq!(u.gen, 0);
    assert_eq!(u.xsize, 5);
    assert_eq!(u.ysize, 5);
    assert_eq!(as_set(&u.alive), expect_set(&[(1, 1), (2, 2)]));
    assert!(u.born.is_empty());
    assert!(u.died.is_empty());
}

#[test]
fn new_drops_out_of_bound_and_duplicates() {
    let u = Universe::new(
        3,
        3,
        points(&[(0, 0), (0, 0), (5, 5), (-1, 0), (2, 2), (0, 3)]),
    );
    assert_eq!(as_set(&u.alive), expect_set(&[(0, 0), (2, 2)]));
    assert_eq!(u.alive.len(), 2);
}

#[test]
fn neighbor_rule_counts() {
    // Center cell with exactly 2 live neighbors survives.
    let u = Universe::new(5, 5, points(&[(2, 2), (1, 1), (3, 3)]));
    let next = u.tick();
    assert!(as_set(&next.alive).contains(&(2, 2)));
    assert!(as_set(&next.died).contains(&(1, 1)));
    assert!(as_set(&next.died).contains(&(3, 3)));

    // Center cell with 4 live neighbors dies of over-population.
    let u = Universe::new(5, 5, points(&[(2, 2), (1, 1), (3, 3), (1, 3), (3, 1)]));
    let next = u.tick();
    assert!(as_set(&next.died).contains(&(2, 2)));

    // A dead cell with exactly 3 live neighbors is born.
    let u = Universe::new(5, 5, points(&[(1, 1), (3, 1), (2, 3)]));
    let next = u.tick();
    assert!(as_set(&next.born).contains(&(2, 2)));
}

#[test]
fn corner_does_not_wrap() {
    // Four isolated corner cells: with wraparound each would have 3 live
    // neighbors and survive; without it they all die.
    let u = Universe::new(5, 5, points(&[(0, 0), (4, 0), (0, 4), (4, 4)]));
    let next = u.tick();
    assert!(next.alive.is_empty());
    assert!(next.born.is_empty());
    assert_eq!(
        as_set(&next.died),
        expect_set(&[(0, 0), (4, 0), (0, 4), (4, 4)])
    );
}

#[test]
fn block_is_still_life() {
    let cells = [(1, 1), (2, 1), (1, 2), (2, 2)];
    let u = Universe::new(4, 4, points(&cells));
    let next = u.tick();
    assert_eq!(as_set(&next.alive), expect_set(&cells));
    assert!(next.born.is_empty());
    assert!(next.died.is_empty());
    assert_eq!(next.gen, 1);
}

#[test]
fn blinker_oscillates() {
    let u = Universe::new(5, 5, points(&[(1, 2), (2, 2), (3, 2)]));
    let u1 = u.tick();
    assert_eq!(as_set(&u1.alive), expect_set(&[(2, 1), (2, 2), (2, 3)]));
    assert_eq!(as_set(&u1.born), expect_set(&[(2, 1), (2, 3)]));
    assert_eq!(as_set(&u1.died), expect_set(&[(1, 2), (3, 2)]));
    let u2 = u1.tick();
    assert_eq!(as_set(&u2.alive), expect_set(&[(1, 2), (2, 2), (3, 2)]));
    assert_eq!(as_set(&u2.born), expect_set(&[(1, 2), (3, 2)]));
    assert_eq!(as_set(&u2.died), expect_set(&[(2, 1), (2, 3)]));
}

#[test]
fn lone_cell_dies() {
    let u = Universe::new(5, 5, points(&[(2, 2)]));
    let next = u.tick();
    assert!(next.alive.is_empty());
    assert!(next.born.is_empty());
    assert_eq!(as_set(&next.died), expect_set(&[(2, 2)]));
}

#[test]
fn empty_grid_stays_empty() {
    let u = Universe::new(3, 3, Vec::new());
    let next = u.tick();
    assert!(next.alive.is_empty());
    assert!(next.born.is_empty());
    assert!(next.died.is_empty());
    assert_eq!(next.gen, 1);
}

#[test]
fn generation_counter_counts() {
    let mut u = Universe::new(5, 5, points(&[(1, 2), (2, 2), (3, 2)]));
    for k in 0..6 {
        assert_eq!(u.gen, k);
        u = u.tick();
    }
    assert_eq!(u.gen, 6);
}

#[test]
fn order_of_seed_does_not_matter() {
    let a = Universe::new(5, 5, points(&[(1, 2), (2, 2), (3, 2)]));
    let b = Universe::new(5, 5, points(&[(3, 2), (1, 2), (2, 2)]));
    let na = a.tick();
    let nb = b.tick();
    assert_eq!(as_set(&na.alive), expect_set(&[(2, 1), (2, 2), (2, 3)]));
    assert_eq!(as_set(&na.alive), as_set(&nb.alive));
    assert_eq!(as_set(&na.born), as_set(&nb.born));
    assert_eq!(as_set(&na.died), as_set(&nb.died));
}

#[test]
fn random_population_is_in_bound() {
    let cells = random_alive(40, 7, 5, 12345);
    assert_eq!(cells.len(), 40);
    for p in &cells {
        assert!(0 <= p.0 && p.0 < 7, "x out of bound: {:?}", p);
        assert!(0 <= p.1 && p.1 < 5, "y out of bound: {:?}", p);
    }
}
