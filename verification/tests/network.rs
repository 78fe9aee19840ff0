use ant_colony::fixed::FX_ONE;
use ant_colony::neural_network::{Layer, MLP, ParamError, relu};
use ant_colony::rng::Rng;

#[test]
fn new_layer() {
    let mut rng = Rng::new(7);
    let layer = Layer::new(8, 4, &mut rng);
    assert_eq!(layer.w.len() * layer.w[0].len(), 32);
    assert_eq!(layer.b.len(), 4);
}

#[test]
fn test_layer_from_existing_weights() {
    let mut rng = Rng::new(11);
    let reference = Layer::new(8, 4, &mut rng);
    let w = reference.w.clone();
    let b = reference.b.clone();
    let layer = Layer::from_existing_weights(w.clone(), b.clone());
    assert_eq!(layer.w, w);
    assert_eq!(layer.b, b);
}

#[test]
fn test_layer_forward() {
    let mut w: Vec<Vec<i32>> = Vec::new();
    for i in 0..4 {
        let mut row: Vec<i32> = Vec::new();
        for j in 0..4 {
            row.push(if i == j { FX_ONE as i32 } else { 0 });
        }
        w.push(row);
    }
    let b: Vec<i32> = vec![0, 0, 0, 0];
    let sample_input: Vec<i64> = vec![FX_ONE, FX_ONE, FX_ONE, FX_ONE];
    let layer = Layer::from_existing_weights(w, b);
    let out = layer.forward(&sample_input);
    assert_eq!(sample_input, out);
}

#[test]
fn test_mlp_new() {
    let mut rng = Rng::new(13);
    let mlp = MLP::new(4, vec![2, 2], &mut rng);
    assert_eq!(mlp.layers.len(), 2);
    assert_eq!(mlp.layers[0].w.len() * mlp.layers[0].w[0].len(), 8);
}

#[test]
fn test_mlp_from_flattened_weights() {
    let mut rng = Rng::new(17);
    let mlp = MLP::new(4, vec![2, 2], &mut rng);
    let flattened_weights = mlp.flatten_weights();
    let reconstructed_mlp = MLP::from_flattened_weights(4, vec![2, 2], flattened_weights).unwrap();
    assert_eq!(mlp.layers[0].w, reconstructed_mlp.layers[0].w);
}

#[test]
fn test_mlp_forward() {
    let mut rng = Rng::new(19);
    let mlp = MLP::new(4, vec![2, 2], &mut rng);
    let sample_input: Vec<i64> = vec![FX_ONE, FX_ONE, FX_ONE, FX_ONE];
    let sample_output = mlp.forward(&sample_input);
    assert_eq!(sample_output.len(), 2);
}

#[test]
fn test_flatten_weights() {
    let mut rng = Rng::new(23);
    let mlp = MLP::new(4, vec![2, 2], &mut rng);
    let flat_weights = mlp.flatten_weights();
    assert_eq!(flat_weights.len(), 16);
}

#[test]
fn parameter_round_trip_reproduces_every_value() {
    let mut rng = Rng::new(29);
    let mlp = MLP::new(6, vec![5, 3, 2], &mut rng);
    let flat = mlp.flatten_weights();
    let rebuilt = MLP::from_flattened_weights(6, vec![5, 3, 2], flat).unwrap();
    assert_eq!(mlp.layers.len(), rebuilt.layers.len());
    for k in 0..mlp.layers.len() {
        assert_eq!(mlp.layers[k].w, rebuilt.layers[k].w);
        assert_eq!(mlp.layers[k].b, rebuilt.layers[k].b);
    }
}

#[test]
fn from_flattened_weights_rejects_wrong_length() {
    let wrong: Vec<i32> = vec![1, 2, 3];
    let r = MLP::from_flattened_weights(4, vec![2, 2], wrong);
    match r {
        Ok(_) => panic!("a wrong-length vector must be rejected"),
        Err(e) => assert_eq!(e, ParamError::LengthMismatch),
    }
}

#[test]
fn relu_clamps_negatives() {
    let out = relu(vec![-5, 0, 7, -1_000_000, 3]);
    assert_eq!(out, vec![0, 0, 7, 0, 3]);
}

#[test]
fn concat_joins_in_order() {
    let parts: Vec<Vec<i64>> = vec![vec![1, 2], vec![], vec![3]];
    assert_eq!(ant_colony::neural_network::concat(&parts), vec![1, 2, 3]);
}

#[test]
fn forward_rectifies_the_final_output() {
    // A single layer whose bias drives the output negative: the rectifier
    // must clamp it to zero.
    let w: Vec<Vec<i32>> = vec![vec![FX_ONE as i32]];
    let b: Vec<i32> = vec![-(2 * FX_ONE) as i32];
    let layer = Layer::from_existing_weights(w, b);
    let out = layer.forward(&vec![FX_ONE]);
    assert_eq!(out, vec![0]);
}

#[test]
fn new_network_weights_are_small() {
    let mut rng = Rng::new(31);
    let mlp = MLP::new(4, vec![3, 2], &mut rng);
    for w in mlp.flatten_weights() {
        assert!(-500_000 < w && w < 500_000);
    }
}
