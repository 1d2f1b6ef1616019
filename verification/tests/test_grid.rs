use life_game::cell::{Cell, Occupant};
use life_game::geometry::wrap_coordinate;
use life_game::grid::Grid;
use life_game::individual::predator::{step_toward, Predator};
use life_game::individual::prey::Prey;
use life_game::random::{draw_from, PROBABILITY_SCALE};

fn hunter(hunger: u32, max_hunger: u32) -> Predator {
    Predator { reproduction_factor: 0, hunting_factor: 0, death_rate: 0, hunger, max_hunger }
}

fn grazer() -> Prey {
    Prey::new(0, 0)
}

fn contents(grid: &Grid) -> Vec<Occupant> {
    (0..grid.len()).map(|at| grid.cell(at).content).collect()
}

#[test]
fn cell_starts_empty_and_alone() {
    let cell = Cell::new(3, 4);
    assert_eq!((cell.x, cell.y), (3, 4));
    assert_eq!(cell.content, Occupant::Empty);
    assert!(cell.neighbours.is_empty());
    assert!(cell.is_empty());
    assert!(!cell.is_prey());
    assert!(!cell.is_predator());
}

#[test]
fn cell_keeps_its_neighbours_in_order() {
    let mut cell = Cell::new(0, 0);
    cell.add_neighbour(7);
    cell.add_neighbour(2);
    cell.add_neighbour(7);
    assert_eq!(cell.neighbours, vec![7, 2, 7]);
}

#[test]
fn cell_tells_its_occupant_and_can_be_emptied() {
    let mut cell = Cell::new(1, 1);
    cell.content = Occupant::Prey(grazer());
    assert!(cell.is_prey() && !cell.is_empty() && !cell.is_predator());
    cell.content = Occupant::Predator(hunter(0, 4));
    assert!(cell.is_predator() && !cell.is_empty() && !cell.is_prey());
    cell.add_neighbour(5);
    cell.empty();
    assert!(cell.is_empty());
    assert_eq!(cell.content, Occupant::Empty);
    assert_eq!((cell.x, cell.y), (1, 1));
    assert_eq!(cell.neighbours, vec![5]);
}

#[test]
fn grid_needs_sites() {
    assert!(Grid::new(0, 3).is_none());
    assert!(Grid::new(3, 0).is_none());
    assert!(Grid::new(-1, 3).is_none());
    assert!(Grid::new(1, 1).is_some());
}

#[test]
fn grid_lays_sites_row_after_row() {
    let grid = Grid::new(4, 3).unwrap();
    assert_eq!(grid.width(), 4);
    assert_eq!(grid.height(), 3);
    assert_eq!(grid.len(), 12);
    for at in 0..12usize {
        let cell = grid.cell(at);
        assert_eq!(cell.x as usize, at % 4);
        assert_eq!(cell.y as usize, at / 4);
        assert!(cell.is_empty());
        assert_eq!(grid.index_of(cell.x, cell.y), Some(at));
    }
    assert_eq!(grid.index_of(3, 2), Some(11));
    assert_eq!(grid.index_of(4, 0), None);
    assert_eq!(grid.index_of(0, 3), None);
    assert_eq!(grid.index_of(-1, 0), None);
}

#[test]
fn corner_site_sees_across_the_edges() {
    let grid = Grid::new(3, 3).unwrap();
    assert_eq!(grid.cell(0).neighbours, vec![8, 2, 5, 6, 3, 7, 1, 4]);
    assert_eq!(grid.cell(4).neighbours, vec![0, 3, 6, 1, 7, 2, 5, 8]);
}

#[test]
fn small_grids_repeat_neighbours_but_never_name_the_site_itself() {
    let grid = Grid::new(2, 2).unwrap();
    assert_eq!(grid.cell(0).neighbours, vec![3, 1, 3, 2, 2, 3, 1, 3]);
    let single = Grid::new(1, 1).unwrap();
    assert!(single.cell(0).neighbours.is_empty());
    let column = Grid::new(1, 3).unwrap();
    assert_eq!(column.cell(0).neighbours, vec![2, 1, 2, 1, 2, 1]);
}

#[test]
fn neighbours_are_mutual() {
    for (width, height) in [(3, 3), (5, 4), (3, 7), (2, 2), (1, 4), (6, 1)] {
        let grid = Grid::new(width, height).unwrap();
        for c in 0..grid.len() {
            assert!(grid.cell(c).neighbours.len() <= 8);
            for &n in grid.cell(c).neighbours.iter() {
                assert!(n < grid.len());
                assert!(n != c);
                assert!(grid.cell(n).neighbours.contains(&c));
            }
        }
    }
}

#[test]
fn wrap_coordinate_meets_the_other_edge() {
    assert_eq!(wrap_coordinate(0, -1, 10), 9);
    assert_eq!(wrap_coordinate(9, 1, 10), 0);
    assert_eq!(wrap_coordinate(4, 1, 10), 5);
    assert_eq!(wrap_coordinate(4, -1, 10), 3);
    assert_eq!(wrap_coordinate(4, 0, 10), 4);
    assert_eq!(wrap_coordinate(0, 1, 1), 0);
    assert_eq!(wrap_coordinate(0, -1, 1), 0);
}

#[test]
fn step_toward_takes_the_shorter_way_round() {
    assert_eq!(step_toward(3, 3, 10), 0);
    assert_eq!(step_toward(0, 4, 10), 1);
    assert_eq!(step_toward(0, 5, 10), 1);
    assert_eq!(step_toward(0, 6, 10), -1);
    assert_eq!(step_toward(9, 0, 10), 1);
    assert_eq!(step_toward(5, 0, 10), -1);
    assert_eq!(step_toward(6, 0, 10), 1);
    assert_eq!(step_toward(8, 2, 10), 1);
    assert_eq!(step_toward(2, 8, 10), -1);
}

#[test]
fn set_content_changes_one_site() {
    let mut grid = Grid::new(3, 2).unwrap();
    grid.set_content(4, Occupant::Prey(grazer()));
    for at in 0..6usize {
        assert_eq!(grid.cell(at).is_prey(), at == 4);
        assert_eq!(grid.cell(at).is_empty(), at != 4);
    }
    assert_eq!((grid.cell(4).x, grid.cell(4).y), (1, 1));
}

#[test]
fn scans_of_the_sites_around() {
    let mut grid = Grid::new(3, 3).unwrap();
    grid.set_content(1, Occupant::Prey(grazer()));
    grid.set_content(8, Occupant::Prey(grazer()));
    grid.set_content(3, Occupant::Predator(hunter(0, 4)));
    assert_eq!(grid.empty_neighbours(0), vec![2, 5, 6, 7, 4]);
    assert_eq!(grid.prey_neighbours(0), 2);
    assert_eq!(grid.predator_neighbours(0), 1);
    assert_eq!(grid.first_prey_neighbour(0), Some(8));
    assert_eq!(grid.first_prey_neighbour(1), Some(8));
    assert_eq!(grid.first_site_at(&vec![2, 5, 6, 7, 4], 1, 2), Some(7));
    assert_eq!(grid.first_site_at(&vec![2, 5, 6, 4], 1, 2), None);
    assert_eq!(grid.prey_sites(), vec![1, 8]);
    assert_eq!(grid.predator_sites(), vec![3]);
    assert_eq!(grid.positions(&vec![1, 8, 3]), vec![(1, 0), (2, 2), (0, 1)]);
    grid.set_content(1, Occupant::Empty);
    grid.set_content(8, Occupant::Empty);
    assert_eq!(grid.first_prey_neighbour(0), None);
    assert_eq!(grid.prey_neighbours(0), 0);
}

#[test]
fn new_predator_starts_half_starved() {
    let p = Predator::new(1, 2, 3, 25);
    assert_eq!(
        p,
        Predator { reproduction_factor: 1, hunting_factor: 2, death_rate: 3, hunger: 12, max_hunger: 25 }
    );
    assert_eq!(Predator::new(0, 0, 0, 1).hunger, 0);
}

#[test]
fn hunger_grows_by_one_and_stops_at_the_top() {
    assert_eq!(hunter(3, 10).grow_hungrier().hunger, 4);
    assert_eq!(hunter(u32::MAX, 10).grow_hungrier().hunger, u32::MAX);
    assert_eq!(hunter(3, 10).grow_hungrier().max_hunger, 10);
}

#[test]
fn predator_one_turn_short_of_starving_dies() {
    let mut grid = Grid::new(3, 3).unwrap();
    grid.set_content(4, Occupant::Predator(hunter(9, 10)));
    let vacated = Predator::update(&mut grid, 4, None);
    assert!(vacated);
    for at in 0..9usize {
        assert!(grid.cell(at).is_empty());
    }
}

#[test]
fn predator_short_of_starving_dies_even_beside_prey() {
    let mut grid = Grid::new(3, 3).unwrap();
    let eager = Predator {
        reproduction_factor: PROBABILITY_SCALE,
        hunting_factor: PROBABILITY_SCALE,
        death_rate: 0,
        hunger: 6,
        max_hunger: 7,
    };
    grid.set_content(4, Occupant::Predator(eager));
    grid.set_content(5, Occupant::Prey(grazer()));
    assert!(Cell::update(&mut grid, 4, Some((2, 1))));
    assert!(grid.cell(4).is_empty());
    assert!(grid.cell(5).is_prey());
}

#[test]
fn predator_two_turns_short_of_starving_lives_one_more_turn() {
    let mut grid = Grid::new(3, 3).unwrap();
    grid.set_content(4, Occupant::Predator(hunter(8, 10)));
    assert!(!Predator::update(&mut grid, 4, None));
    assert_eq!(grid.cell(4).content, Occupant::Predator(hunter(9, 10)));
    assert!(Predator::update(&mut grid, 4, None));
    assert!(grid.cell(4).is_empty());
}

#[test]
fn certain_death_rate_kills() {
    let mut grid = Grid::new(3, 3).unwrap();
    let doomed = Predator { death_rate: PROBABILITY_SCALE, ..hunter(0, 100) };
    grid.set_content(0, Occupant::Predator(doomed));
    assert!(Predator::update(&mut grid, 0, None));
    assert!(grid.cell(0).is_empty());
}

#[test]
fn hunt_takes_the_first_prey_around() {
    let mut grid = Grid::new(3, 3).unwrap();
    let keen = Predator { hunting_factor: 100, ..hunter(5, 20) };
    grid.set_content(0, Occupant::Predator(keen));
    grid.set_content(5, Occupant::Prey(grazer()));
    grid.set_content(2, Occupant::Prey(grazer()));
    assert!(!Predator::hunt(&mut grid, 0, 100));
    assert!(grid.cell(2).is_prey() && grid.cell(5).is_prey());
    assert_eq!(grid.cell(0).content, Occupant::Predator(keen));
    assert!(Predator::hunt(&mut grid, 0, 99));
    assert!(grid.cell(2).is_empty());
    assert!(grid.cell(5).is_prey());
    assert_eq!(grid.cell(0).content, Occupant::Predator(Predator { hunger: 0, ..keen }));
}

#[test]
fn hunt_without_prey_changes_nothing() {
    let mut grid = Grid::new(3, 3).unwrap();
    let keen = Predator { hunting_factor: PROBABILITY_SCALE, ..hunter(5, 20) };
    grid.set_content(0, Occupant::Predator(keen));
    grid.set_content(1, Occupant::Predator(keen));
    let before = contents(&grid);
    assert!(!Predator::hunt(&mut grid, 0, 0));
    assert_eq!(contents(&grid), before);
}

#[test]
fn predator_young_need_company_and_luck() {
    let mut grid = Grid::new(3, 3).unwrap();
    let parent = Predator { reproduction_factor: 50, ..hunter(2, 20) };
    grid.set_content(4, Occupant::Predator(parent));
    assert!(!Predator::reproduce(&mut grid, 4, 0, Some(0)));
    grid.set_content(1, Occupant::Predator(parent));
    assert!(!Predator::reproduce(&mut grid, 4, 50, Some(0)));
    assert!(grid.cell(0).is_empty());
    assert!(Predator::reproduce(&mut grid, 4, 49, Some(0)));
    assert_eq!(grid.cell(0).content, Occupant::Predator(Predator { hunger: 10, ..parent }));
    assert_eq!(grid.cell(4).content, Occupant::Predator(parent));
    grid.set_content(2, Occupant::Predator(parent));
    assert!(Predator::reproduce(&mut grid, 4, 0, Some(3)));
    assert!(grid.cell(3).is_predator());
    assert!(!Predator::reproduce(&mut grid, 4, 0, Some(5)));
    assert!(grid.cell(5).is_empty());
}

#[test]
fn predator_steps_toward_the_nearest_prey() {
    let mut grid = Grid::new(10, 10).unwrap();
    let calm = hunter(0, 100);
    grid.set_content(0, Occupant::Predator(calm));
    grid.set_content(55, Occupant::Prey(grazer()));
    let room = grid.empty_neighbours(0);
    assert_eq!(room.len(), 8);
    assert!(Predator::move_to(&mut grid, 0, Some((5, 5)), Some(room[0])));
    assert!(grid.cell(0).is_empty());
    assert_eq!(grid.index_of(1, 1), Some(11));
    assert_eq!(grid.cell(11).content, Occupant::Predator(calm));
    assert_eq!(grid.predator_sites(), vec![11]);
}

#[test]
fn predator_turn_moves_one_step_toward_the_prey() {
    let mut grid = Grid::new(10, 10).unwrap();
    grid.set_content(0, Occupant::Predator(hunter(0, 100)));
    grid.set_content(55, Occupant::Prey(grazer()));
    assert!(Predator::update(&mut grid, 0, Some((5, 5))));
    assert_eq!(grid.predator_sites(), vec![11]);
    assert_eq!(grid.cell(11).content, Occupant::Predator(hunter(1, 100)));
    assert!(grid.cell(55).is_prey());
}

#[test]
fn predator_goes_round_the_edge_when_that_is_shorter() {
    let mut grid = Grid::new(10, 10).unwrap();
    grid.set_content(0, Occupant::Predator(hunter(0, 100)));
    grid.set_content(88, Occupant::Prey(grazer()));
    assert!(Predator::update(&mut grid, 0, Some((8, 8))));
    assert_eq!(grid.index_of(9, 9), Some(99));
    assert_eq!(grid.predator_sites(), vec![99]);
}

#[test]
fn predator_picks_another_site_when_the_way_is_taken() {
    let mut grid = Grid::new(10, 10).unwrap();
    let calm = hunter(0, 100);
    grid.set_content(0, Occupant::Predator(calm));
    grid.set_content(11, Occupant::Prey(grazer()));
    let room = grid.empty_neighbours(0);
    assert_eq!(room.len(), 7);
    assert!(Predator::move_to(&mut grid, 0, Some((1, 1)), Some(room[3])));
    assert!(grid.cell(0).is_empty());
    assert_eq!(grid.cell(room[3]).content, Occupant::Predator(calm));
    assert!(grid.cell(11).is_prey());
}

#[test]
fn predator_without_known_prey_goes_to_the_picked_site() {
    let mut grid = Grid::new(4, 4).unwrap();
    let calm = hunter(0, 100);
    grid.set_content(5, Occupant::Predator(calm));
    assert!(Predator::move_to(&mut grid, 5, None, Some(6)));
    assert_eq!(grid.predator_sites(), vec![6]);
}

#[test]
fn predator_hemmed_in_stays_put() {
    let mut grid = Grid::new(3, 3).unwrap();
    let calm = Predator { reproduction_factor: PROBABILITY_SCALE, ..hunter(0, 100) };
    for at in 0..9usize {
        grid.set_content(at, Occupant::Predator(calm));
    }
    assert!(!Predator::move_to(&mut grid, 4, Some((0, 0)), None));
    assert!(!Predator::update(&mut grid, 4, Some((0, 0))));
    for at in 0..9usize {
        let expected = if at == 4 { 1 } else { 0 };
        assert_eq!(grid.cell(at).content, Occupant::Predator(Predator { hunger: expected, ..calm }));
    }
}

#[test]
fn famished_predator_neither_breeds_nor_moves() {
    let mut grid = Grid::new(3, 3).unwrap();
    let parent = Predator { reproduction_factor: PROBABILITY_SCALE, ..hunter(9, 20) };
    grid.set_content(4, Occupant::Predator(parent));
    grid.set_content(1, Occupant::Predator(hunter(0, 100)));
    assert!(!Predator::update(&mut grid, 4, None));
    assert_eq!(grid.predator_sites(), vec![1, 4]);
    assert_eq!(grid.cell(4).content, Occupant::Predator(Predator { hunger: 10, ..parent }));
}

#[test]
fn predator_with_company_and_certain_rate_breeds_and_stays() {
    let mut grid = Grid::new(3, 3).unwrap();
    let parent = Predator { reproduction_factor: PROBABILITY_SCALE, ..hunter(0, 20) };
    grid.set_content(4, Occupant::Predator(parent));
    grid.set_content(1, Occupant::Predator(hunter(0, 100)));
    assert!(!Predator::update(&mut grid, 4, None));
    assert_eq!(grid.predator_sites().len(), 3);
    assert_eq!(grid.cell(4).content, Occupant::Predator(Predator { hunger: 1, ..parent }));
    let young = grid.predator_sites().into_iter().find(|&at| at != 1 && at != 4).unwrap();
    assert_eq!(grid.cell(young).content, Occupant::Predator(Predator { hunger: 10, ..parent }));
}

#[test]
fn prey_young_need_company_and_luck() {
    let mut grid = Grid::new(3, 3).unwrap();
    let parent = Prey::new(50, 0);
    grid.set_content(4, Occupant::Prey(parent));
    assert!(!Prey::reproduce(&mut grid, 4, 0, Some(0)));
    grid.set_content(1, Occupant::Prey(parent));
    assert!(!Prey::reproduce(&mut grid, 4, 50, Some(0)));
    assert!(Prey::reproduce(&mut grid, 4, 49, Some(0)));
    assert_eq!(grid.cell(0).content, Occupant::Prey(parent));
    assert!(grid.cell(4).is_prey());
    assert!(Prey::reproduce(&mut grid, 4, 0, Some(2)));
    assert_eq!(grid.prey_neighbours(4), 3);
    assert!(Prey::reproduce(&mut grid, 4, 0, Some(3)));
    assert_eq!(grid.prey_neighbours(4), 4);
    assert!(!Prey::reproduce(&mut grid, 4, 0, Some(5)));
    assert!(grid.cell(5).is_empty());
}

#[test]
fn prey_moves_when_the_draw_is_below_its_rate() {
    let mut grid = Grid::new(3, 3).unwrap();
    let walker = Prey::new(0, 10);
    grid.set_content(4, Occupant::Prey(walker));
    assert!(!Prey::move_to(&mut grid, 4, 10, Some(7)));
    assert_eq!(grid.prey_sites(), vec![4]);
    assert!(Prey::move_to(&mut grid, 4, 9, Some(7)));
    assert_eq!(grid.prey_sites(), vec![7]);
    assert_eq!(grid.cell(7).content, Occupant::Prey(walker));
}

#[test]
fn prey_hemmed_in_stays_put() {
    let mut grid = Grid::new(3, 3).unwrap();
    let eager = Prey::new(PROBABILITY_SCALE, PROBABILITY_SCALE);
    for at in 0..9usize {
        grid.set_content(at, Occupant::Predator(hunter(0, 100)));
    }
    grid.set_content(4, Occupant::Prey(eager));
    let before = contents(&grid);
    assert!(!Prey::move_to(&mut grid, 4, 0, None));
    assert!(!Prey::reproduce(&mut grid, 4, 0, None));
    assert!(!Prey::update(&mut grid, 4));
    assert!(!Cell::update(&mut grid, 4, None));
    assert_eq!(contents(&grid), before);
}

#[test]
fn lone_prey_with_certain_rates_moves_but_has_no_young() {
    let mut grid = Grid::new(4, 4).unwrap();
    grid.set_content(5, Occupant::Prey(Prey::new(PROBABILITY_SCALE, PROBABILITY_SCALE)));
    assert!(Prey::update(&mut grid, 5));
    assert_eq!(grid.prey_sites().len(), 1);
    assert!(grid.cell(5).is_empty());
    let now = grid.prey_sites()[0];
    assert!(grid.cell(5).neighbours.contains(&now));
}

#[test]
fn prey_with_company_and_certain_rate_has_young_and_stays() {
    let mut grid = Grid::new(4, 4).unwrap();
    let eager = Prey::new(PROBABILITY_SCALE, PROBABILITY_SCALE);
    grid.set_content(5, Occupant::Prey(eager));
    grid.set_content(6, Occupant::Prey(Prey::new(0, 0)));
    assert!(!Prey::update(&mut grid, 5));
    assert_eq!(grid.prey_sites().len(), 3);
    assert!(grid.cell(5).is_prey() && grid.cell(6).is_prey());
    let young = grid.prey_sites().into_iter().find(|&at| at != 5 && at != 6).unwrap();
    assert_eq!(grid.cell(young).content, Occupant::Prey(eager));
    assert!(grid.cell(5).neighbours.contains(&young));
}

#[test]
fn turn_of_an_empty_site_changes_nothing() {
    let mut grid = Grid::new(3, 3).unwrap();
    grid.set_content(1, Occupant::Prey(Prey::new(PROBABILITY_SCALE, PROBABILITY_SCALE)));
    let before = contents(&grid);
    assert!(!Cell::update(&mut grid, 0, Some((1, 0))));
    assert_eq!(contents(&grid), before);
}

#[test]
fn a_step_toward_a_coordinate_brings_one_site_nearer() {
    fn ring_distance(a: i32, b: i32, dim: i32) -> i32 {
        let direct = (a - b).abs();
        direct.min(dim - direct)
    }
    for dim in 1..12 {
        for from in 0..dim {
            for to in 0..dim {
                let step = step_toward(from, to, dim);
                assert_eq!(step == 0, from == to);
                let moved = wrap_coordinate(from, step, dim);
                if from != to {
                    assert_eq!(ring_distance(moved, to, dim), ring_distance(from, to, dim) - 1);
                }
            }
        }
    }
}

#[test]
fn a_draw_is_the_top_bits_of_the_random_ones() {
    assert_eq!(draw_from(0), 0);
    assert_eq!(draw_from(0xFF), 0);
    assert_eq!(draw_from(0x100), 1);
    assert_eq!(draw_from(0x1FF), 1);
    assert_eq!(draw_from(0x8000_0000), PROBABILITY_SCALE / 2);
    assert_eq!(draw_from(0xFFFF_FFFF), PROBABILITY_SCALE - 1);
}

#[test]
fn too_hungry_from_half_of_the_limit_on() {
    assert!(!hunter(2, 5).too_hungry());
    assert!(hunter(3, 5).too_hungry());
    assert!(!hunter(4, 10).too_hungry());
    assert!(hunter(5, 10).too_hungry());
    assert!(!hunter(0, 1).too_hungry());
    assert!(hunter(1, 1).too_hungry());
    assert!(hunter(0, 0).too_hungry());
    assert!(hunter(u32::MAX, u32::MAX).too_hungry());
    assert!(!hunter(0x7FFF_FFFF, u32::MAX).too_hungry());
}

#[test]
fn predator_below_half_of_an_odd_limit_still_moves() {
    let mut grid = Grid::new(4, 4).unwrap();
    grid.set_content(5, Occupant::Predator(hunter(1, 5)));
    assert!(Predator::update(&mut grid, 5, None));
    assert!(grid.cell(5).is_empty());
    assert_eq!(grid.predator_sites().len(), 1);
    let now = grid.predator_sites()[0];
    assert!(grid.cell(5).neighbours.contains(&now));
    assert_eq!(grid.cell(now).content, Occupant::Predator(hunter(2, 5)));
    assert!(!Predator::update(&mut grid, now, None));
    assert_eq!(grid.cell(now).content, Occupant::Predator(hunter(3, 5)));
}

#[test]
fn prey_that_always_moves_leaves_for_one_of_eight_empty_sites() {
    let mut grid = Grid::new(3, 3).unwrap();
    grid.set_content(0, Occupant::Prey(Prey::new(0, PROBABILITY_SCALE)));
    assert!(Prey::update(&mut grid, 0));
    assert!(grid.cell(0).is_empty());
    assert_eq!(grid.prey_sites().len(), 1);
    assert_eq!(grid.empty_neighbours(0).len(), 7);
}

#[test]
fn certain_death_comes_before_the_hunt() {
    let mut grid = Grid::new(3, 3).unwrap();
    let doomed = Predator {
        reproduction_factor: PROBABILITY_SCALE,
        hunting_factor: PROBABILITY_SCALE,
        death_rate: PROBABILITY_SCALE,
        hunger: 0,
        max_hunger: 100,
    };
    grid.set_content(4, Occupant::Predator(doomed));
    grid.set_content(5, Occupant::Prey(grazer()));
    grid.set_content(3, Occupant::Predator(hunter(0, 100)));
    let mut expected = contents(&grid);
    expected[4] = Occupant::Empty;
    assert!(Predator::update(&mut grid, 4, Some((2, 1))));
    assert_eq!(contents(&grid), expected);
}
