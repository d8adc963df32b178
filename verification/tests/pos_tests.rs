use std::cmp::Ordering;
use tilegrid::pos::{getmapvecidx, mapsize, Pos, IMPASSABLE};
use tilegrid::{MAPSIZE_MAX_X, MAPSIZE_MAX_Y, TILESIZE};

fn flat_costs(cost: usize) -> Vec<usize> {
    vec![cost; mapsize()]
}

#[test]
fn constants_agree() {
    assert_eq!(TILESIZE, 32);
    assert_eq!(mapsize(), (MAPSIZE_MAX_X * MAPSIZE_MAX_Y) as usize);
}

#[test]
fn index_is_row_major() {
    assert_eq!(getmapvecidx(0, 0), 0);
    assert_eq!(getmapvecidx(3, 0), 3);
    assert_eq!(getmapvecidx(0, 1), MAPSIZE_MAX_X as usize);
    assert_eq!(getmapvecidx(2, 3), 2 + 3 * MAPSIZE_MAX_X as usize);
    assert_eq!(
        getmapvecidx(MAPSIZE_MAX_X - 1, MAPSIZE_MAX_Y - 1),
        mapsize() - 1
    );
}

#[test]
fn index_distinguishes_cells() {
    let mut seen = vec![false; mapsize()];
    for y in 0..MAPSIZE_MAX_Y {
        for x in 0..MAPSIZE_MAX_X {
            let idx = getmapvecidx(x, y);
            assert!(!seen[idx]);
            seen[idx] = true;
        }
    }
    assert!(seen.iter().all(|s| *s));
}

#[test]
fn distance_is_manhattan() {
    assert_eq!(Pos(0, 0).distance(&Pos(0, 0)), 0);
    assert_eq!(Pos(1, 1).distance(&Pos(4, 6)), 8);
    assert_eq!(Pos(4, 6).distance(&Pos(1, 1)), 8);
    assert_eq!(Pos(-3, 2).distance(&Pos(2, -1)), 8);
}

#[test]
fn heuristic_is_a_third_of_the_distance() {
    assert_eq!(Pos(0, 0).heuristic(&Pos(0, 0)), 0);
    assert_eq!(Pos(0, 0).heuristic(&Pos(2, 0)), 0);
    assert_eq!(Pos(0, 0).heuristic(&Pos(3, 0)), 1);
    assert_eq!(Pos(1, 1).heuristic(&Pos(4, 6)), 2);
    assert_eq!(Pos(9, 9).heuristic(&Pos(0, 0)), 6);
}

#[test]
fn same_cell_compares_both_coordinates() {
    assert!(Pos(2, 3).same_cell(&Pos(2, 3)));
    assert!(!Pos(2, 3).same_cell(&Pos(3, 2)));
    assert!(!Pos(2, 3).same_cell(&Pos(2, 4)));
}

#[test]
fn successors_of_an_inner_cell() {
    let mut costs = flat_costs(1);
    costs[getmapvecidx(3, 4)] = 7;
    costs[getmapvecidx(5, 4)] = 8;
    costs[getmapvecidx(4, 3)] = 9;
    costs[getmapvecidx(4, 5)] = 10;
    assert_eq!(
        Pos(4, 4).successors(&costs),
        vec![
            (Pos(3, 4), 7),
            (Pos(5, 4), 8),
            (Pos(4, 3), 9),
            (Pos(4, 5), 10)
        ]
    );
}

#[test]
fn successors_stay_on_the_grid() {
    let costs = flat_costs(1);
    assert_eq!(
        Pos(0, 0).successors(&costs),
        vec![(Pos(1, 0), 1), (Pos(0, 1), 1)]
    );
    assert_eq!(
        Pos(MAPSIZE_MAX_X - 1, MAPSIZE_MAX_Y - 1).successors(&costs),
        vec![
            (Pos(MAPSIZE_MAX_X - 2, MAPSIZE_MAX_Y - 1), 1),
            (Pos(MAPSIZE_MAX_X - 1, MAPSIZE_MAX_Y - 2), 1)
        ]
    );
}

#[test]
fn successors_leave_out_impassable_cells() {
    let mut costs = flat_costs(2);
    costs[getmapvecidx(5, 4)] = IMPASSABLE;
    costs[getmapvecidx(4, 3)] = IMPASSABLE - 1;
    assert_eq!(
        Pos(4, 4).successors(&costs),
        vec![
            (Pos(3, 4), 2),
            (Pos(4, 3), IMPASSABLE - 1),
            (Pos(4, 5), 2)
        ]
    );
}

#[test]
fn successors_take_the_cost_of_the_entered_cell() {
    let mut costs = flat_costs(1);
    costs[getmapvecidx(4, 4)] = 50;
    let moves = Pos(4, 4).successors(&costs);
    assert!(moves.iter().all(|m| m.1 == 1));
    let back = Pos(3, 4).successors(&costs);
    assert!(back.contains(&(Pos(4, 4), 50)));
}

#[test]
fn edges_are_the_successors_widened() {
    let mut costs = flat_costs(3);
    costs[getmapvecidx(1, 0)] = IMPASSABLE - 1;
    costs[getmapvecidx(0, 1)] = IMPASSABLE;
    assert_eq!(
        Pos(0, 0).edges(&costs),
        vec![(Pos(1, 0), (IMPASSABLE - 1) as u128)]
    );
    assert_eq!(
        Pos(2, 2).edges(&costs),
        vec![
            (Pos(1, 2), 3u128),
            (Pos(3, 2), 3u128),
            (Pos(2, 1), 3u128),
            (Pos(2, 3), 3u128)
        ]
    );
}

#[test]
fn positions_order_by_x_then_y() {
    assert!(Pos(1, 9) < Pos(2, 0));
    assert!(Pos(2, 0) < Pos(2, 1));
    assert!(Pos(2, 1) > Pos(1, 9));
    assert!(Pos(-1, 5) < Pos(0, -5));
    assert_eq!(Pos(3, 3).partial_cmp(&Pos(3, 3)), Some(Ordering::Equal));
    assert_eq!(Pos(3, 2).partial_cmp(&Pos(3, 3)), Some(Ordering::Less));
    assert_eq!(Pos(4, 2).partial_cmp(&Pos(3, 3)), Some(Ordering::Greater));
    assert_eq!(Pos(3, 3).cmp(&Pos(3, 3)), Ordering::Equal);
    assert_eq!(Pos(3, 2).cmp(&Pos(3, 3)), Ordering::Less);
    assert_eq!(Pos(4, 2).cmp(&Pos(3, 3)), Ordering::Greater);
    assert_eq!(Pos(4, 2), Pos(4, 2));
    assert_ne!(Pos(4, 2), Pos(2, 4));
}

#[test]
fn positions_sort_lexicographically() {
    let mut cells = vec![Pos(2, 1), Pos(0, 5), Pos(2, 0), Pos(1, 7), Pos(0, 0)];
    cells.sort();
    assert_eq!(
        cells,
        vec![Pos(0, 0), Pos(0, 5), Pos(1, 7), Pos(2, 0), Pos(2, 1)]
    );
}
