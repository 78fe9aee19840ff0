use ant_colony::environment::{Environment, GridError, FOOD_SEED, HARVEST_QUANTUM};
use ant_colony::fixed::FX_ONE;
use ant_colony::utils::Vec2;

#[test]
fn new_environment() {
    let environment = Environment::new(100, 900_000);
    assert_eq!(environment.cell_at(1, 1).coordinates, [1, 1]);
}

#[test]
fn environment_new_environment() {
    let environment = Environment::new(100, 900_000);
    assert_eq!(environment.cell_at(1, 1).coordinates, [1, 1]);
}

#[test]
fn boundary_ring_is_not_traversable() {
    let environment = Environment::new(50, 990_000);
    for i in 0..50 {
        assert!(!environment.cell_at(0, i).is_traversable);
        assert!(!environment.cell_at(49, i).is_traversable);
        assert!(!environment.cell_at(i, 0).is_traversable);
        assert!(!environment.cell_at(i, 49).is_traversable);
    }
}

#[test]
fn initial_food_total_is_twenty_five() {
    let environment = Environment::new(50, 990_000);
    // The 5x5 seeded block holds 1.0 per cell: 25.0 in micro-units.
    assert_eq!(environment.total_food_remaining(), 25 * FX_ONE);
}

#[test]
fn nest_block_is_marked() {
    let environment = Environment::new(50, 990_000);
    for i in 1..6 {
        for j in 1..6 {
            assert!(environment.cell_at(i, j).is_nest);
        }
    }
    assert!(!environment.cell_at(6, 6).is_nest);
    assert!(!environment.cell_at(0, 0).is_nest);
}

#[test]
fn decay_scales_concentration() {
    let mut environment = Environment::new(100, 900_000);
    environment.grid[0].nest_pheromone_concentration = FX_ONE;
    environment.update();
    assert_eq!(environment.grid[0].nest_pheromone_concentration, 900_000);
}

#[test]
fn decay_snaps_below_floor_to_zero() {
    let mut environment = Environment::new(100, 900_000);
    environment.grid[0].nest_pheromone_concentration = 9_999;
    environment.grid[1].food_pheromone_concentration = 10_000;
    environment.update();
    assert_eq!(environment.grid[0].nest_pheromone_concentration, 0);
    assert_eq!(environment.grid[1].food_pheromone_concentration, 9_000);
}

#[test]
fn repeated_decay_never_increases() {
    let mut environment = Environment::new(50, 990_000);
    environment.grid[7].nest_pheromone_concentration = FX_ONE;
    let mut previous = FX_ONE;
    for _ in 0..200 {
        environment.update();
        let current = environment.grid[7].nest_pheromone_concentration;
        assert!(current <= previous);
        assert!(current >= 0);
        previous = current;
    }
}

#[test]
fn deposit_adds_one_increment() {
    let mut environment = Environment::new(50, 990_000);
    environment.place_nest_pheromone([10, 10]);
    assert_eq!(environment.cell_at(10, 10).nest_pheromone_concentration, 10_000);
    environment.place_food_pheromone([10, 10]);
    assert_eq!(environment.cell_at(10, 10).food_pheromone_concentration, 10_000);
}

#[test]
fn deposit_saturates_at_one() {
    let mut environment = Environment::new(50, 990_000);
    for _ in 0..200 {
        environment.place_nest_pheromone([10, 10]);
        assert!(environment.cell_at(10, 10).nest_pheromone_concentration <= FX_ONE);
    }
    assert_eq!(environment.cell_at(10, 10).nest_pheromone_concentration, FX_ONE);
}

#[test]
fn take_food_removes_one_quantum_and_stops_at_zero() {
    let mut environment = Environment::new(50, 990_000);
    assert_eq!(environment.cell_at(46, 46).food_amount, FOOD_SEED);
    environment.take_food([46, 46]);
    assert_eq!(environment.cell_at(46, 46).food_amount, FOOD_SEED - HARVEST_QUANTUM);
    for _ in 0..20 {
        environment.take_food([46, 46]);
    }
    assert_eq!(environment.cell_at(46, 46).food_amount, 0);
}

#[test]
fn get_cell_from_point_resolves_and_rejects() {
    let environment = Environment::new(50, 990_000);
    let inside = environment.get_cell_from_point(Vec2 { x: 46 * FX_ONE + 1, y: 46 * FX_ONE + 1 });
    assert_eq!(inside.unwrap().coordinates, [46, 46]);
    let negative = environment.get_cell_from_point(Vec2 { x: -1, y: 0 });
    assert_eq!(negative.unwrap_err(), GridError::OutOfBounds);
    let beyond = environment.get_cell_from_point(Vec2 { x: 0, y: 50 * FX_ONE });
    assert_eq!(beyond.unwrap_err(), GridError::OutOfBounds);
}

#[test]
fn perceive_surroundings_returns_the_neighbourhood() {
    let environment = Environment::new(50, 990_000);
    let cells = environment.perceive_surroundings([10, 20]);
    assert_eq!(cells.len(), 9);
    assert_eq!(cells[0].coordinates, [9, 19]);
    assert_eq!(cells[4].coordinates, [10, 20]);
    assert_eq!(cells[8].coordinates, [11, 21]);
}

#[test]
fn visited_cells_are_counted() {
    let mut environment = Environment::new(50, 990_000);
    assert_eq!(environment.num_cells_visited(), 0);
    environment.set_cell_as_visited([3, 4]);
    environment.set_cell_as_visited([5, 6]);
    environment.set_cell_as_visited([3, 4]);
    assert_eq!(environment.num_cells_visited(), 2);
}
