use ant_colony::ant::Ant;
use ant_colony::environment::Environment;
use ant_colony::fixed::FX_ONE;
use ant_colony::neural_network::MLP;
use ant_colony::rng::Rng;
use ant_colony::utils::Vec2;

#[test]
fn ant_test_perceive_surroundings() {
    let environment = Environment::new(50, 990_000);
    let mut rng = Rng::new(1);
    let ant = Ant::new(&mut rng);
    let surroundings = ant.perceive_surroundings(&environment, &mut rng);
    assert_eq!(surroundings.len(), 5);
}

#[test]
fn ant_test_ant_get_feature_vector() {
    let environment = Environment::new(50, 990_000);
    let mut rng = Rng::new(2);
    let ant = Ant::new(&mut rng);
    let feature_vector = ant.get_feature_vector(&environment, &mut rng);
    assert_eq!(feature_vector.len(), 38);
}

#[test]
fn colony_test_perceive_surroundings() {
    let environment = Environment::new(50, 990_000);
    let mut rng = Rng::new(3);
    let ant = Ant::new(&mut rng);
    let surroundings = ant.perceive_surroundings(&environment, &mut rng);
    assert_eq!(surroundings.len(), 5);
}

#[test]
fn colony_test_ant_get_feature_vector() {
    let environment = Environment::new(50, 990_000);
    let mut rng = Rng::new(4);
    let ant = Ant::new(&mut rng);
    let feature_vector = ant.get_feature_vector(&environment, &mut rng);
    assert_eq!(feature_vector.len(), 38);
}

#[test]
fn ant_starts_seeking_at_the_start_cell() {
    let mut rng = Rng::new(5);
    let ant = Ant::new(&mut rng);
    assert!(!ant.has_food);
    assert_eq!(ant.grid_location, [1, 1]);
    assert_eq!(ant.coordinates, Vec2 { x: FX_ONE, y: FX_ONE });
}

#[test]
fn harvest_sets_carrying_and_removes_one_quantum() {
    let mut arena = Environment::new(50, 990_000);
    let mut rng = Rng::new(6);
    let network = MLP::new(38, vec![4, 1], &mut rng);
    let mut ant = Ant::new(&mut rng);
    // Stand still on a seeded food cell, carrying nothing.
    ant.velocity = 0;
    ant.coordinates = Vec2 { x: 46 * FX_ONE + 100_000, y: 46 * FX_ONE + 100_000 };
    ant.grid_location = [46, 46];
    assert_eq!(arena.cell_at(46, 46).food_amount, FX_ONE);
    let (_observation, reward) = ant.step(&mut arena, &network, &mut rng);
    assert!(ant.has_food);
    assert_eq!(arena.cell_at(46, 46).food_amount, 900_000);
    assert_eq!(reward, 100_000);
}

#[test]
fn delivery_clears_carrying_and_books_one_quantum() {
    let mut arena = Environment::new(50, 990_000);
    let mut rng = Rng::new(7);
    let network = MLP::new(38, vec![4, 1], &mut rng);
    let mut ant = Ant::new(&mut rng);
    // Stand still on a nest cell, carrying food.
    ant.velocity = 0;
    ant.coordinates = Vec2 { x: 2 * FX_ONE + 500_000, y: 2 * FX_ONE + 500_000 };
    ant.grid_location = [2, 2];
    ant.has_food = true;
    let before = arena.food_returned_to_nest;
    let (_observation, reward) = ant.step(&mut arena, &network, &mut rng);
    assert!(!ant.has_food);
    assert_eq!(arena.food_returned_to_nest, before + 100_000);
    assert_eq!(reward, 1_000_000);
    // The counter never decreases on further ticks.
    let after_delivery = arena.food_returned_to_nest;
    let _ = ant.step(&mut arena, &network, &mut rng);
    assert!(arena.food_returned_to_nest >= after_delivery);
}

#[test]
fn deposits_match_the_carrying_mode() {
    let mut arena = Environment::new(50, 990_000);
    let mut rng = Rng::new(8);
    let network = MLP::new(38, vec![4, 1], &mut rng);
    let mut ant = Ant::new(&mut rng);
    // Stand still on a plain cell, carrying nothing: a nest-pheromone
    // deposit marks the way home.
    ant.velocity = 0;
    ant.coordinates = Vec2 { x: 20 * FX_ONE + 500_000, y: 20 * FX_ONE + 500_000 };
    ant.grid_location = [20, 20];
    let _ = ant.step(&mut arena, &network, &mut rng);
    assert_eq!(arena.cell_at(20, 20).nest_pheromone_concentration, 10_000);
    assert_eq!(arena.cell_at(20, 20).food_pheromone_concentration, 0);
}

#[test]
fn colony_agents_draw_their_own_headings() {
    let mut rng = Rng::new(9);
    let network = MLP::new(38, vec![4, 1], &mut rng);
    let colony = ant_colony::colony::Colony::new(3, network, &mut rng);
    assert_eq!(colony.ants.len(), 3);
    assert_ne!(colony.ants[0].direction, colony.ants[1].direction);
    assert_ne!(colony.ants[1].direction, colony.ants[2].direction);
    for a in &colony.ants {
        assert!(!a.has_food);
        assert_eq!(a.grid_location, [1, 1]);
    }
}
