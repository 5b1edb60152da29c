//! Fixed-topology feed-forward networks for neuro-evolution: random
//! construction, per-weight crossover and bounded mutation.
//!
//! Weights are IEEE 754 double-precision values carried as bit
//! patterns (see `fbits`); every weight lies in [-1.0, 1.0]. The
//! forward pass itself needs the exponential function, which no
//! integer-interface implementation here provides, so it is left to
//! the unverified driver; everything that creates or recombines
//! weights is verified.

use vstd::prelude::*;

use crate::configs::BRAIN_MUTATION_DEN;
use crate::configs::BRAIN_MUTATION_NUM;
use crate::configs::BRAIN_MUTATION_VARIATION_BITS;
use crate::configs::HIDDEN_LAYER_SIZE;
use crate::configs::INP_LAYER_SIZE;
use crate::configs::OUTPUT_LAYER_SIZE;
use crate::fbits::add64_bits;
use crate::fbits::apf64_add;
use crate::fbits::apf64_mul;
use crate::fbits::mul64_bits;
use crate::fbits::sample_unit_weight;
use crate::fbits::weight_in_range;
use crate::fbits::weight_in_range_bits;
use crate::rng::RandGen;

verus! {

/// One layer: for every output node, a weight vector of length
/// (previous layer size + 1); the first slot is the bias.
pub struct Layer {
    nodes: Vec<Vec<u64>>,
}

/// A feed-forward network: the input width and the layers that follow.
pub struct Net {
    n_inputs: usize,
    layers: Vec<Layer>,
}

impl View for Layer {
    type V = Seq<Seq<u64>>;

    closed spec fn view(&self) -> Seq<Seq<u64>> {
        self.nodes@.map_values(|n: Vec<u64>| n@)
    }
}

impl View for Net {
    type V = Seq<Seq<Seq<u64>>>;

    closed spec fn view(&self) -> Seq<Seq<Seq<u64>>> {
        self.layers@.map_values(|l: Layer| l@)
    }
}

/// The weighted sum one node computes over the activations `vals`:
/// the bias plus, term by term in order, the double-precision
/// product of each remaining weight with its activation, every
/// operation rounded to nearest as IEEE 754 directs.
pub open spec fn dot_pfx(node: Seq<u64>, vals: Seq<u64>, k: int) -> u64
    decreases k,
{
    if k <= 0 {
        node[0]
    } else {
        add64_bits(dot_pfx(node, vals, k - 1), mul64_bits(node[k], vals[k - 1]))
    }
}

/// The full weighted sum of a node over `vals`.
pub open spec fn dot_bits(node: Seq<u64>, vals: Seq<u64>) -> u64 {
    dot_pfx(node, vals, node.len() - 1)
}

/// A weight vector feeding off `prev_size` activations: one bias
/// slot plus one weight per activation, all within [-1.0, 1.0].
pub open spec fn node_ok(node: Seq<u64>, prev_size: nat) -> bool {
    &&& node.len() == prev_size + 1
    &&& forall|j: int| 0 <= j < node.len() ==> weight_in_range(#[trigger] node[j])
}

/// A non-empty layer whose nodes all feed off `prev_size` activations.
pub open spec fn layer_ok(layer: Seq<Seq<u64>>, prev_size: nat) -> bool {
    &&& layer.len() >= 1
    &&& forall|i: int| 0 <= i < layer.len() ==> node_ok(#[trigger] layer[i], prev_size)
}

/// A well-formed network: at least one input and one layer, each
/// layer sized against the one before it.
pub open spec fn net_ok(n_inputs: nat, net: Seq<Seq<Seq<u64>>>) -> bool {
    &&& n_inputs >= 1
    &&& net.len() >= 1
    &&& layer_ok(net[0], n_inputs)
    &&& forall|k: int| 1 <= k < net.len() ==> layer_ok(#[trigger] net[k], net[k - 1].len())
}

impl Layer {
    /// A layer of `layer_size` nodes with fresh uniform weights.
    pub fn new(layer_size: usize, prev_layer_size: usize, rng: &mut RandGen) -> (r: Layer)
        requires
            layer_size >= 1,
            prev_layer_size < usize::MAX,
        ensures
            r@.len() == layer_size,
            layer_ok(r@, prev_layer_size as nat),
    {
        let mut nodes: Vec<Vec<u64>> = Vec::new();
        for _i in 0..layer_size
            invariant
                prev_layer_size < usize::MAX,
                nodes@.len() == _i,
                forall|i: int| 0 <= i < nodes@.len()
                    ==> node_ok(#[trigger] nodes@[i]@, prev_layer_size as nat),
        {
            let mut node: Vec<u64> = Vec::new();
            for _j in 0..prev_layer_size + 1
                invariant
                    node@.len() == _j,
                    forall|j: int| 0 <= j < node@.len() ==> weight_in_range(#[trigger] node@[j]),
            {
                node.push(sample_unit_weight(rng));
            }
            nodes.push(node);
        }
        let r = Layer { nodes };
        assert(r@ =~= nodes@.map_values(|n: Vec<u64>| n@));
        r
    }

    /// A layer holding exactly the given weight vectors.
    pub fn from_nodes(nodes: Vec<Vec<u64>>) -> (r: Layer)
        ensures
            r@ == nodes@.map_values(|n: Vec<u64>| n@),
    {
        Layer { nodes }
    }

    /// The weight vectors, node by node.
    pub fn get_nodes(&self) -> (r: &Vec<Vec<u64>>)
        ensures
            r@.map_values(|n: Vec<u64>| n@) == self@,
    {
        &self.nodes
    }

    /// An identical copy.
    pub fn duplicate(&self) -> (r: Layer)
        ensures
            r@ == self@,
    {
        let mut nodes: Vec<Vec<u64>> = Vec::new();
        for i in 0..self.nodes.len()
            invariant
                nodes@.len() == i,
                forall|t: int| 0 <= t < i ==> #[trigger] nodes@[t]@ == self@[t],
        {
            nodes.push(dup_node(&self.nodes[i]));
            assert(self.nodes@[i as int]@ == self@[i as int]);
        }
        let r = Layer { nodes };
        assert(r@ =~= self@);
        r
    }

    /// Per-weight crossover: every slot is taken from `self` or from
    /// `other` by an independent fair coin flip.
    pub fn merge(&self, other: &Layer, rng: &mut RandGen) -> (r: Layer)
        requires
            self@.len() == other@.len(),
            forall|i: int| 0 <= i < self@.len()
                ==> (#[trigger] self@[i]).len() == (#[trigger] other@[i]).len(),
        ensures
            r@.len() == self@.len(),
            forall|i: int| 0 <= i < r@.len() ==> (#[trigger] r@[i]).len() == self@[i].len(),
            forall|i: int, j: int|
                0 <= i < r@.len() && 0 <= j < r@[i].len()
                    ==> #[trigger] r@[i][j] == self@[i][j] || r@[i][j] == other@[i][j],
    {
        let mut nodes: Vec<Vec<u64>> = Vec::new();
        let n = self.nodes.len();
        for i in 0..n
            invariant
                n == self@.len(),
                self@.len() == other@.len(),
                forall|t: int| 0 <= t < self@.len()
                    ==> (#[trigger] self@[t]).len() == (#[trigger] other@[t]).len(),
                nodes@.len() == i,
                forall|t: int| 0 <= t < i ==> (#[trigger] nodes@[t]@).len() == self@[t].len(),
                forall|t: int, j: int|
                    0 <= t < i && 0 <= j < nodes@[t]@.len()
                        ==> #[trigger] nodes@[t]@[j] == self@[t][j] || nodes@[t]@[j] == other@[t][j],
        {
            let a = &self.nodes[i];
            let b = &other.nodes[i];
            assert(a@ == self@[i as int] && b@ == other@[i as int]);
            let mut node: Vec<u64> = Vec::new();
            let m = a.len();
            for j in 0..m
                invariant
                    m == a@.len(),
                    a@.len() == b@.len(),
                    node@.len() == j,
                    forall|t: int| 0 <= t < j
                        ==> #[trigger] node@[t] == a@[t] || node@[t] == b@[t],
            {
                if rng.gen_bool() {
                    node.push(a[j]);
                } else {
                    node.push(b[j]);
                }
            }
            nodes.push(node);
        }
        let r = Layer { nodes };
        assert(r@ =~= nodes@.map_values(|nd: Vec<u64>| nd@));
        r
    }

    /// The pre-activation sums of this layer over the given input
    /// activations: for each node, its bias plus the weighted sum of
    /// the inputs. The caller applies the activation function to
    /// each sum.
    pub fn node_sums(&self, inputs: &Vec<u64>) -> (r: Vec<u64>)
        requires
            forall|i: int| 0 <= i < self@.len() ==> (#[trigger] self@[i]).len() == inputs@.len() + 1,
        ensures
            r@.len() == self@.len(),
            forall|i: int| 0 <= i < r@.len() ==> #[trigger] r@[i] == dot_bits(self@[i], inputs@),
    {
        let mut r: Vec<u64> = Vec::new();
        let n = self.nodes.len();
        for i in 0..n
            invariant
                n == self@.len(),
                forall|t: int| 0 <= t < self@.len()
                    ==> (#[trigger] self@[t]).len() == inputs@.len() + 1,
                r@.len() == i,
                forall|t: int| 0 <= t < i ==> #[trigger] r@[t] == dot_bits(self@[t], inputs@),
        {
            let node = &self.nodes[i];
            proof {
                assert(node@ == self@[i as int]);
            }
            let m = node.len();
            let mut total: u64 = node[0];
            let mut k: usize = 1;
            while k < m
                invariant
                    m == node@.len(),
                    m == inputs@.len() + 1,
                    1 <= k <= m,
                    total == dot_pfx(node@, inputs@, k - 1),
                decreases m - k,
            {
                total = apf64_add(total, apf64_mul(node[k], inputs[k - 1]));
                k = k + 1;
            }
            r.push(total);
        }
        r
    }

    /// In-place mutation: each weight is perturbed with probability
    /// num/den; a perturbed weight that leaves [-1.0, 1.0] is
    /// replaced by a fresh uniform weight.
    pub fn mutate(&mut self, rng: &mut RandGen)
        ensures
            final(self)@.len() == old(self)@.len(),
            forall|i: int| 0 <= i < final(self)@.len()
                ==> (#[trigger] final(self)@[i]).len() == old(self)@[i].len(),
            forall|i: int, j: int|
                0 <= i < final(self)@.len() && 0 <= j < final(self)@[i].len()
                    ==> weight_in_range(#[trigger] final(self)@[i][j])
                        || final(self)@[i][j] == old(self)@[i][j],
    {
        let mut nodes: Vec<Vec<u64>> = Vec::new();
        let n = self.nodes.len();
        for i in 0..n
            invariant
                n == self@.len(),
                nodes@.len() == i,
                forall|t: int| 0 <= t < i ==> (#[trigger] nodes@[t]@).len() == self@[t].len(),
                forall|t: int, j: int|
                    0 <= t < i && 0 <= j < nodes@[t]@.len()
                        ==> weight_in_range(#[trigger] nodes@[t]@[j])
                            || nodes@[t]@[j] == self@[t][j],
        {
            let src = &self.nodes[i];
            assert(src@ == self@[i as int]);
            let mut node: Vec<u64> = Vec::new();
            let m = src.len();
            for j in 0..m
                invariant
                    m == src@.len(),
                    node@.len() == j,
                    forall|t: int| 0 <= t < j
                        ==> weight_in_range(#[trigger] node@[t]) || node@[t] == src@[t],
            {
                if rng.gen_ratio(BRAIN_MUTATION_NUM, BRAIN_MUTATION_DEN) {
                    node.push(mutate_weight(src[j], rng));
                } else {
                    node.push(src[j]);
                }
            }
            nodes.push(node);
        }
        self.nodes = nodes;
        assert(self@ =~= nodes@.map_values(|nd: Vec<u64>| nd@));
    }
}

/// An identical copy of one weight vector.
fn dup_node(src: &Vec<u64>) -> (r: Vec<u64>)
    ensures
        r@ == src@,
{
    let mut r: Vec<u64> = Vec::new();
    for j in 0..src.len()
        invariant
            r@.len() == j,
            forall|t: int| 0 <= t < j ==> #[trigger] r@[t] == src@[t],
    {
        r.push(src[j]);
    }
    assert(r@ =~= src@);
    r
}

/// The bounded-mutation primitive: perturb the weight by a uniform
/// step of magnitude at most the configured variation; if the sum
/// leaves [-1.0, 1.0], discard it and draw a fresh uniform weight.
pub fn mutate_weight(w: u64, rng: &mut RandGen) -> (r: u64)
    ensures
        weight_in_range(r),
{
    let u = sample_unit_weight(rng);
    let delta = apf64_mul(u, BRAIN_MUTATION_VARIATION_BITS);
    let w2 = apf64_add(w, delta);
    if weight_in_range_bits(w2) {
        w2
    } else {
        sample_unit_weight(rng)
    }
}

impl Net {
    /// How many inputs the first layer expects.
    pub closed spec fn inputs_spec(&self) -> nat {
        self.n_inputs as nat
    }

    /// Well-formed: see `net_ok`.
    pub open spec fn wf(&self) -> bool {
        net_ok(self.inputs_spec(), self@)
    }

    /// Same input width and the same number of nodes in every layer.
    pub open spec fn topo_eq(&self, other: &Net) -> bool {
        &&& self.inputs_spec() == other.inputs_spec()
        &&& self@.len() == other@.len()
        &&& forall|k: int| 0 <= k < self@.len()
            ==> (#[trigger] self@[k]).len() == (#[trigger] other@[k]).len()
    }

    /// The default topology: input, hidden and output layer of the
    /// configured sizes.
    pub open spec fn default_topology(&self) -> bool {
        &&& self.inputs_spec() == INP_LAYER_SIZE
        &&& self@.len() == 2
        &&& self@[0].len() == HIDDEN_LAYER_SIZE
        &&& self@[1].len() == OUTPUT_LAYER_SIZE
    }

    /// A network of the given layer sizes with fresh uniform weights.
    /// At least two sizes, none empty: anything else is a
    /// configuration defect, which this contract makes impossible.
    fn from_sizes(sizes: &Vec<usize>, rng: &mut RandGen) -> (r: Net)
        requires
            sizes@.len() >= 2,
            forall|i: int| 0 <= i < sizes@.len() ==> 1 <= #[trigger] sizes@[i] < usize::MAX,
        ensures
            r.wf(),
            r.inputs_spec() == sizes@[0],
            r@.len() == sizes@.len() - 1,
            forall|k: int| 0 <= k < r@.len() ==> (#[trigger] r@[k]).len() == sizes@[k + 1],
    {
        let mut layers: Vec<Layer> = Vec::new();
        let n = sizes.len();
        for k in 1..n
            invariant
                n == sizes@.len(),
                sizes@.len() >= 2,
                forall|i: int| 0 <= i < sizes@.len() ==> 1 <= #[trigger] sizes@[i] < usize::MAX,
                layers@.len() == k - 1,
                forall|t: int| 0 <= t < layers@.len()
                    ==> (#[trigger] layers@[t]@).len() == sizes@[t + 1],
                forall|t: int| 0 <= t < layers@.len()
                    ==> layer_ok(#[trigger] layers@[t]@, sizes@[t] as nat),
        {
            layers.push(Layer::new(sizes[k], sizes[k - 1], rng));
        }
        let r = Net { n_inputs: sizes[0], layers };
        assert(r@ =~= layers@.map_values(|l: Layer| l@));
        assert forall|k: int| 1 <= k < r@.len() implies layer_ok(#[trigger] r@[k], r@[k - 1].len()) by {
            assert(r@[k - 1].len() == sizes@[k]);
        }
        r
    }

    /// A network of the default topology with fresh uniform weights.
    pub fn new(rng: &mut RandGen) -> (r: Net)
        ensures
            r.wf(),
            r.default_topology(),
    {
        let sizes: Vec<usize> = vec![INP_LAYER_SIZE, HIDDEN_LAYER_SIZE, OUTPUT_LAYER_SIZE];
        Net::from_sizes(&sizes, rng)
    }

    /// A network holding exactly the given layers.
    pub fn from_layers(n_inputs: usize, layers: Vec<Layer>) -> (r: Net)
        requires
            net_ok(n_inputs as nat, layers@.map_values(|l: Layer| l@)),
        ensures
            r.wf(),
            r.inputs_spec() == n_inputs,
            r@ == layers@.map_values(|l: Layer| l@),
    {
        Net { n_inputs, layers }
    }

    /// The layers, for reading the weights out.
    pub fn get_layers(&self) -> (r: &Vec<Layer>)
        ensures
            r@.map_values(|l: Layer| l@) == self@,
    {
        &self.layers
    }

    /// How many inputs the first layer expects.
    pub fn get_n_inputs(&self) -> (r: usize)
        ensures
            r == self.inputs_spec(),
    {
        self.n_inputs
    }

    /// An identical copy.
    pub fn duplicate(&self) -> (r: Net)
        ensures
            r@ == self@,
            r.inputs_spec() == self.inputs_spec(),
    {
        let mut layers: Vec<Layer> = Vec::new();
        for i in 0..self.layers.len()
            invariant
                layers@.len() == i,
                forall|t: int| 0 <= t < i ==> #[trigger] layers@[t]@ == self@[t],
        {
            layers.push(self.layers[i].duplicate());
            assert(self.layers@[i as int]@ == self@[i as int]);
        }
        let r = Net { n_inputs: self.n_inputs, layers };
        assert(r@ =~= self@);
        r
    }

    /// Crossover of two networks of one topology: every weight comes
    /// from `self` or from `other`, chosen by an independent fair
    /// coin flip — never a blend.
    pub fn merge(&self, other: &Net, rng: &mut RandGen) -> (r: Net)
        requires
            self.wf(),
            other.wf(),
            self.topo_eq(other),
        ensures
            r.wf(),
            r.topo_eq(self),
            r.inputs_spec() == self.inputs_spec(),
            forall|k: int, i: int, j: int|
                0 <= k < r@.len() && 0 <= i < r@[k].len() && 0 <= j < r@[k][i].len()
                    ==> #[trigger] r@[k][i][j] == self@[k][i][j] || r@[k][i][j] == other@[k][i][j],
    {
        let mut layers: Vec<Layer> = Vec::new();
        let n = self.layers.len();
        proof {
            assert(n == self@.len());
        }
        for k in 0..n
            invariant
                self.wf(),
                other.wf(),
                self.topo_eq(other),
                n == self@.len(),
                layers@.len() == k,
                forall|t: int| 0 <= t < k ==> (#[trigger] layers@[t]@).len() == self@[t].len(),
                forall|t: int, i: int| 0 <= t < k && 0 <= i < layers@[t]@.len()
                    ==> (#[trigger] layers@[t]@[i]).len() == self@[t][i].len(),
                forall|t: int, i: int, j: int|
                    0 <= t < k && 0 <= i < layers@[t]@.len() && 0 <= j < layers@[t]@[i].len()
                        ==> #[trigger] layers@[t]@[i][j] == self@[t][i][j]
                            || layers@[t]@[i][j] == other@[t][i][j],
        {
            proof {
                assert(self.layers@[k as int]@ == self@[k as int]);
                assert(other.layers@[k as int]@ == other@[k as int]);
                if k == 0 {
                    assert(layer_ok(self@[0], self.inputs_spec()));
                    assert(layer_ok(other@[0], other.inputs_spec()));
                } else {
                    assert(layer_ok(self@[k as int], self@[k - 1].len()));
                    assert(layer_ok(other@[k as int], other@[k - 1].len()));
                }
                assert forall|i: int| 0 <= i < self@[k as int].len()
                    implies (#[trigger] self@[k as int][i]).len() == other@[k as int][i].len() by {
                    assert(node_ok(self@[k as int][i], if k == 0 { self.inputs_spec() } else { self@[k - 1].len() }));
                    assert(node_ok(other@[k as int][i], if k == 0 { other.inputs_spec() } else { other@[k - 1].len() }));
                }
            }
            layers.push(self.layers[k].merge(&other.layers[k], rng));
        }
        let r = Net { n_inputs: self.n_inputs, layers };
        assert(r@ =~= layers@.map_values(|l: Layer| l@));
        proof {
            assert forall|k: int, i: int| 0 <= k < r@.len() && 0 <= i < r@[k].len()
                implies node_ok(#[trigger] r@[k][i], (if k == 0 { self.inputs_spec() } else { r@[k - 1].len() })) by {
                let prev: nat = if k == 0 { self.inputs_spec() } else { self@[k - 1].len() };
                assert(node_ok(self@[k][i], prev));
                assert(node_ok(other@[k][i], prev));
                assert(r@[k - 1].len() == self@[k - 1].len() || k == 0);
                assert forall|j: int| 0 <= j < r@[k][i].len()
                    implies weight_in_range(#[trigger] r@[k][i][j]) by {
                    assert(r@[k][i][j] == self@[k][i][j] || r@[k][i][j] == other@[k][i][j]);
                }
            }
        }
        r
    }

    /// In-place mutation of every layer; afterwards every weight
    /// still lies in [-1.0, 1.0] and the topology is unchanged.
    pub fn mutate(&mut self, rng: &mut RandGen)
        requires
            old(self).wf(),
        ensures
            final(self).wf(),
            final(self).topo_eq(&*old(self)),
            final(self).inputs_spec() == old(self).inputs_spec(),
    {
        let n = self.layers.len();
        let mut layers: Vec<Layer> = Vec::new();
        for k in 0..n
            invariant
                old(self).wf(),
                *self == *old(self),
                n == self@.len(),
                layers@.len() == k,
                forall|t: int| 0 <= t < k ==> (#[trigger] layers@[t]@).len() == self@[t].len(),
                forall|t: int, i: int| 0 <= t < k && 0 <= i < layers@[t]@.len()
                    ==> (#[trigger] layers@[t]@[i]).len() == self@[t][i].len(),
                forall|t: int, i: int, j: int|
                    0 <= t < k && 0 <= i < layers@[t]@.len() && 0 <= j < layers@[t]@[i].len()
                        ==> weight_in_range(#[trigger] layers@[t]@[i][j]),
        {
            let mut layer = self.layers[k].duplicate();
            proof {
                assert(self.layers@[k as int]@ == self@[k as int]);
                if k == 0 {
                    assert(layer_ok(self@[0], self.inputs_spec()));
                } else {
                    assert(layer_ok(self@[k as int], self@[k - 1].len()));
                }
            }
            layer.mutate(rng);
            proof {
                let prev: nat = if k == 0 { self.inputs_spec() } else { self@[k - 1].len() };
                assert forall|i: int, j: int|
                    0 <= i < layer@.len() && 0 <= j < layer@[i].len()
                        implies weight_in_range(#[trigger] layer@[i][j]) by {
                    assert(node_ok(self@[k as int][i], prev));
                    assert(layer@[i][j] == self@[k as int][i][j] || weight_in_range(layer@[i][j]));
                }
            }
            layers.push(layer);
        }
        let ghost pre = *self;
        self.layers = layers;
        proof {
            assert(self@ =~= layers@.map_values(|l: Layer| l@));
            assert(self.inputs_spec() == pre.inputs_spec());
            assert forall|k: int| 1 <= k < self@.len()
                implies layer_ok(#[trigger] self@[k], self@[k - 1].len()) by {
                assert(self@[k].len() == pre@[k].len());
                assert(self@[k - 1].len() == pre@[k - 1].len());
                assert(layer_ok(pre@[k], pre@[k - 1].len()));
                assert forall|i: int| 0 <= i < self@[k].len()
                    implies node_ok(#[trigger] self@[k][i], self@[k - 1].len()) by {
                    assert(node_ok(pre@[k][i], pre@[k - 1].len()));
                }
            }
            assert(layer_ok(self@[0], self.inputs_spec()));
        }
    }
}

} // verus!
