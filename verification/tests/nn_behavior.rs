//! Behaviour of the network operations: construction, crossover,
//! bounded mutation, and the weight encoding.

use snake::configs::{HIDDEN_LAYER_SIZE, INP_LAYER_SIZE, OUTPUT_LAYER_SIZE};
use snake::nn::{mutate_weight, Layer, Net};
use snake::rng::RandGen;

fn net_weights(net: &Net) -> Vec<f64> {
    let mut out = Vec::new();
    for layer in net.get_layers() {
        for node in layer.get_nodes() {
            for &w in node {
                out.push(f64::from_bits(w));
            }
        }
    }
    out
}

#[test]
fn new_net_has_default_topology() {
    let mut rng = RandGen::from_seed(1);
    let net = Net::new(&mut rng);
    assert_eq!(net.get_n_inputs(), INP_LAYER_SIZE);
    let layers = net.get_layers();
    assert_eq!(layers.len(), 2);
    assert_eq!(layers[0].get_nodes().len(), HIDDEN_LAYER_SIZE);
    assert_eq!(layers[1].get_nodes().len(), OUTPUT_LAYER_SIZE);
    for node in layers[0].get_nodes() {
        assert_eq!(node.len(), INP_LAYER_SIZE + 1);
    }
    for node in layers[1].get_nodes() {
        assert_eq!(node.len(), HIDDEN_LAYER_SIZE + 1);
    }
}

#[test]
fn new_net_weights_lie_in_unit_range() {
    let mut rng = RandGen::from_seed(2);
    let net = Net::new(&mut rng);
    for w in net_weights(&net) {
        assert!(w >= -1.0 && w <= 1.0);
        assert!(w.is_finite());
    }
}

#[test]
fn crossover_takes_each_weight_from_a_parent() {
    let one = 1.0f64.to_bits();
    let neg_one = (-1.0f64).to_bits();
    let mut rng = RandGen::from_seed(3);
    let a = Net::from_layers(2, vec![Layer::from_nodes(vec![vec![one, one, one]])]);
    let b = Net::from_layers(2, vec![Layer::from_nodes(vec![vec![neg_one, neg_one, neg_one]])]);
    let child = a.merge(&b, &mut rng);
    let ws = net_weights(&child);
    assert_eq!(ws.len(), 3);
    for w in ws {
        assert!(w == 1.0 || w == -1.0);
    }
}

#[test]
fn crossover_mixes_both_parents_over_many_draws() {
    let one = 1.0f64.to_bits();
    let neg_one = (-1.0f64).to_bits();
    let mut rng = RandGen::from_seed(4);
    let nodes_a: Vec<Vec<u64>> = vec![vec![one; 21]; 20];
    let nodes_b: Vec<Vec<u64>> = vec![vec![neg_one; 21]; 20];
    let a = Net::from_layers(20, vec![Layer::from_nodes(nodes_a)]);
    let b = Net::from_layers(20, vec![Layer::from_nodes(nodes_b)]);
    let child = a.merge(&b, &mut rng);
    let ws = net_weights(&child);
    let from_a = ws.iter().filter(|&&w| w == 1.0).count();
    let from_b = ws.iter().filter(|&&w| w == -1.0).count();
    assert_eq!(from_a + from_b, ws.len());
    assert!(from_a > 0);
    assert!(from_b > 0);
}

#[test]
fn mutation_keeps_every_weight_in_unit_range() {
    let mut rng = RandGen::from_seed(5);
    let mut net = Net::new(&mut rng);
    for _ in 0..20 {
        net.mutate(&mut rng);
        for w in net_weights(&net) {
            assert!(w >= -1.0 && w <= 1.0);
        }
    }
}

#[test]
fn mutation_changes_some_weight() {
    let mut rng = RandGen::from_seed(6);
    let mut net = Net::new(&mut rng);
    let before = net_weights(&net);
    net.mutate(&mut rng);
    net.mutate(&mut rng);
    let after = net_weights(&net);
    assert_eq!(before.len(), after.len());
    assert!(before.iter().zip(after.iter()).any(|(x, y)| x != y));
}

#[test]
fn mutation_preserves_topology() {
    let mut rng = RandGen::from_seed(7);
    let mut net = Net::new(&mut rng);
    net.mutate(&mut rng);
    assert_eq!(net.get_layers().len(), 2);
    assert_eq!(net.get_layers()[0].get_nodes().len(), HIDDEN_LAYER_SIZE);
    assert_eq!(net.get_layers()[1].get_nodes().len(), OUTPUT_LAYER_SIZE);
}

#[test]
fn bounded_mutation_primitive_stays_in_range() {
    let mut rng = RandGen::from_seed(8);
    for seed_weight in [1.0f64, -1.0, 0.0, 0.5, -0.999] {
        for _ in 0..200 {
            let r = mutate_weight(seed_weight.to_bits(), &mut rng);
            let v = f64::from_bits(r);
            assert!(v >= -1.0 && v <= 1.0);
            assert!(v.is_finite());
        }
    }
}

#[test]
fn node_sums_match_double_precision_arithmetic() {
    let bias = 0.5f64;
    let w1 = 0.25f64;
    let w2 = -1.0f64;
    let layer = Layer::from_nodes(vec![vec![bias.to_bits(), w1.to_bits(), w2.to_bits()]]);
    let x1 = 0.75f64;
    let x2 = 0.125f64;
    let sums = layer.node_sums(&vec![x1.to_bits(), x2.to_bits()]);
    assert_eq!(sums.len(), 1);
    let mut expected = bias;
    expected += w1 * x1;
    expected += w2 * x2;
    assert_eq!(sums[0], expected.to_bits());
}

#[test]
fn duplicate_copies_every_weight() {
    let mut rng = RandGen::from_seed(9);
    let net = Net::new(&mut rng);
    let copy = net.duplicate();
    assert_eq!(net_weights(&net), net_weights(&copy));
}

#[test]
fn seeded_generators_repeat_their_draws() {
    let mut r1 = RandGen::from_seed(10);
    let mut r2 = RandGen::from_seed(10);
    let a = Net::new(&mut r1);
    let b = Net::new(&mut r2);
    assert_eq!(net_weights(&a), net_weights(&b));
}
