use ant_colony::fixed::FX_ONE;
use ant_colony::neural_network::MLP;
use ant_colony::nes::{NES, fitness_of};
use ant_colony::rng::Rng;
use ant_colony::simulation::{Simulation, SimulationResult};
use ant_colony::trig::{fx_sin, fx_cos};
use ant_colony::utils::{Vec2, normalize_array, rotate_array2, random_unit_vector, isqrt_u128};

#[test]
fn test_simulation_new() {
    let mut rng = Rng::new(31);
    let decision_network = MLP::new(37, vec![16, 1], &mut rng);
    let simulation = Simulation::new(50, 990_000, 100, decision_network, &mut rng);
    assert_eq!(simulation.arena.size, 50);
}

#[test]
fn test_simulation_run() {
    let mut rng = Rng::new(37);
    let decision_network = MLP::new(38, vec![16, 1], &mut rng);
    let mut simulation = Simulation::new(50, 990_000, 100, decision_network, &mut rng);
    let _sim_result = simulation.run(10, &mut rng);
}

#[test]
fn zero_step_run_reports_the_fresh_arena() {
    let mut rng = Rng::new(41);
    let decision_network = MLP::new(38, vec![16, 1], &mut rng);
    let mut simulation = Simulation::new(50, 990_000, 10, decision_network, &mut rng);
    let result = simulation.run(0, &mut rng);
    assert_eq!(result.num_iters, 0);
    assert_eq!(result.food_remaining, 25 * FX_ONE);
    assert_eq!(result.food_returned_to_nest, 0);
    assert_eq!(result.proportion_explored, 0);
}

#[test]
fn run_counts_its_ticks() {
    let mut rng = Rng::new(43);
    let decision_network = MLP::new(38, vec![8, 1], &mut rng);
    let mut simulation = Simulation::new(25, 990_000, 3, decision_network, &mut rng);
    let result = simulation.run(4, &mut rng);
    assert_eq!(result.num_iters, 4);
    assert!(result.food_returned_to_nest >= 0);
    assert!(result.proportion_explored >= 0);
}

#[test]
fn test_random_unit_vector() {
    let mut rng = Rng::new(47);
    let r1 = random_unit_vector(&mut rng);
    let r2 = random_unit_vector(&mut rng);
    assert_ne!(r1, r2);
}

#[test]
fn rng_is_deterministic_for_a_seed() {
    let mut a = Rng::new(12345);
    let mut b = Rng::new(12345);
    for _ in 0..10 {
        assert_eq!(a.next_u64(), b.next_u64());
    }
    let mut c = Rng::new(54321);
    assert_ne!(Rng::new(12345).next_u64(), c.next_u64());
}

#[test]
fn quadrant_values_of_the_circular_functions() {
    assert_eq!(fx_sin(0), 0);
    assert_eq!(fx_sin(250_000), FX_ONE);
    assert_eq!(fx_sin(500_000), 0);
    assert_eq!(fx_sin(750_000), -FX_ONE);
    assert_eq!(fx_cos(0), FX_ONE);
    assert_eq!(fx_cos(500_000), -FX_ONE);
}

#[test]
fn normalization_of_a_three_four_vector() {
    let r = normalize_array(Vec2 { x: 3 * FX_ONE, y: 4 * FX_ONE });
    assert_eq!(r, Vec2 { x: 600_000, y: 800_000 });
    let zero = normalize_array(Vec2 { x: 0, y: 0 });
    assert_eq!(zero, Vec2 { x: 0, y: 0 });
}

#[test]
fn rotation_by_a_quarter_turn() {
    let r = rotate_array2(Vec2 { x: FX_ONE, y: 0 }, 250_000);
    assert_eq!(r, Vec2 { x: 0, y: FX_ONE });
}

#[test]
fn integer_square_roots() {
    assert_eq!(isqrt_u128(0), 0);
    assert_eq!(isqrt_u128(1), 1);
    assert_eq!(isqrt_u128(24), 4);
    assert_eq!(isqrt_u128(25), 5);
    assert_eq!(isqrt_u128(26), 5);
}

#[test]
fn fitness_combines_the_episode_aggregates() {
    let result = SimulationResult::new(10, 300_000, 24_000_000, 50_000);
    // -delivered + remaining / 10 - explored.
    assert_eq!(fitness_of(&result), -300_000 + 2_400_000 - 50_000);
}

#[test]
fn mean_update_moves_towards_the_better_candidate() {
    let mut nes = NES::new(FX_ONE, FX_ONE, 2, vec![0]);
    let noises: Vec<Vec<i32>> = vec![vec![FX_ONE as i32], vec![-(FX_ONE as i32)]];
    // The optimizer minimizes: the first candidate scores lower (better),
    // so the mean moves towards its positive noise direction.
    let fitnesses: Vec<i64> = vec![0, 1_000];
    nes.update_mean(&noises, &fitnesses);
    assert_eq!(nes.mu, vec![500]);
}

#[test]
fn optimizer_step_preserves_its_shape() {
    let mut rng = Rng::new(53);
    let seed_network = MLP::new(38, vec![4, 1], &mut rng);
    let mu = seed_network.flatten_weights();
    let dim = mu.len();
    assert_eq!(dim, 38 * 4 + 4 + 4 * 1 + 1);
    let mut nes = NES::new(10_000, 500_000, 2, mu);
    let hidden_sizes: Vec<usize> = vec![4, 1];
    nes.step(&hidden_sizes, 25, 990_000, 2, 2, &mut rng);
    assert_eq!(nes.mu.len(), dim);
    assert_eq!(nes.population_size, 2);
    assert_eq!(nes.sigma, 500_000);
}
