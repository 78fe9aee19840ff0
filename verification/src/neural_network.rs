//! The policy network: a chain of affine layers, each followed by a
//! rectifying nonlinearity, evaluated in fixed point.
//!
//! Weights and biases are fixed-point values held in `i32`; activations are
//! `i64` values clamped into `[-ACT_MAX, ACT_MAX]`, so every dot product
//! fits comfortably in 128-bit intermediates. Each neuron computes the
//! rescaled dot product of its inputs and weights, plus its bias, rectified
//! to be non-negative and capped at `ACT_MAX`.

use vstd::prelude::*;
use crate::fixed::{FX_ONE, tdiv};
use crate::rng::Rng;

verus! {

/// The largest activation magnitude a layer will produce or accept.
pub const ACT_MAX: i64 = 1_000_000_000_000;

/// The widest layer the network supports.
pub const MAX_WIDTH: usize = 10_000;

/// The longest chain of layers the network supports.
pub const MAX_LAYERS: usize = 1_000;

/// One affine layer: `w` holds one row of output weights per input, and
/// `b` one bias per output.
pub struct Layer {
    pub w: Vec<Vec<i32>>,
    pub b: Vec<i32>,
}

/// The rectifier with an upper cap: negatives become zero, and values
/// beyond `ACT_MAX` saturate.
pub open spec fn spec_relu_clip(v: int) -> int {
    if v <= 0 {
        0
    } else if v > ACT_MAX as int {
        ACT_MAX as int
    } else {
        v
    }
}

/// The dot product of the input with output column `j` over the first `n`
/// input rows.
pub open spec fn spec_dot_col(x: Seq<i64>, w: Seq<Vec<i32>>, j: int, n: int) -> int
    decreases n,
{
    if n <= 0 {
        0
    } else {
        spec_dot_col(x, w, j, n - 1) + x[n - 1] * w[n - 1]@[j]
    }
}

/// The value of output neuron `j`: the rescaled dot product plus the bias,
/// rectified and capped.
pub open spec fn spec_neuron(x: Seq<i64>, w: Seq<Vec<i32>>, b: Seq<i32>, j: int) -> int {
    spec_relu_clip(tdiv(spec_dot_col(x, w, j, w.len() as int), FX_ONE as int) + b[j])
}

/// A layer is well formed for `in_dim` inputs: a full rectangle of weights
/// with one bias per output, within the supported sizes.
pub open spec fn layer_wf(l: Layer, in_dim: int) -> bool {
    &&& l.w@.len() == in_dim
    &&& in_dim <= MAX_WIDTH
    &&& l.b@.len() <= MAX_WIDTH
    &&& forall|i: int| 0 <= i < in_dim ==> (#[trigger] l.w@[i])@.len() == l.b@.len()
}

/// The input width layer `k` of a chain sees.
pub open spec fn spec_in_dim(layers: Seq<Layer>, k: int, input_dim: int) -> int {
    if k == 0 {
        input_dim
    } else {
        layers[k - 1].b@.len() as int
    }
}

/// A chain of layers is well formed when each layer consumes exactly what
/// the one before it produces.
pub open spec fn mlp_wf(layers: Seq<Layer>, input_dim: int) -> bool {
    forall|k: int|
        0 <= k < layers.len() ==> layer_wf(#[trigger] layers[k], spec_in_dim(layers, k, input_dim))
}

/// The output of one layer applied to `x`.
pub open spec fn spec_layer_out(l: Layer, x: Seq<i64>) -> Seq<i64> {
    Seq::new(l.b@.len(), |j: int| spec_neuron(x, l.w@, l.b@, j) as i64)
}

/// The output of the first `n` layers applied to `x`.
pub open spec fn spec_mlp_forward(layers: Seq<Layer>, x: Seq<i64>, n: int) -> Seq<i64>
    decreases n,
{
    if n <= 0 {
        x
    } else {
        spec_layer_out(layers[n - 1], spec_mlp_forward(layers, x, n - 1))
    }
}

/// Whether every weight and bias of a layer lies strictly within
/// `(-FX_ONE/2, FX_ONE/2)`: the small random initialization range.
pub open spec fn layer_weights_small(l: Layer) -> bool {
    &&& forall|i: int, j: int|
        0 <= i < l.w@.len() && 0 <= j < l.w@[i]@.len() ==> -FX_ONE / 2
            < #[trigger] l.w@[i]@[j] < FX_ONE / 2
    &&& forall|j: int| 0 <= j < l.b@.len() ==> -FX_ONE / 2 < #[trigger] l.b@[j] < FX_ONE / 2
}

/// Whether every entry of `x` lies in `[-ACT_MAX, ACT_MAX]`.
pub open spec fn activations_bounded(x: Seq<i64>) -> bool {
    forall|k: int| 0 <= k < x.len() ==> -ACT_MAX <= #[trigger] x[k] <= ACT_MAX
}

impl Layer {
    /// A layer with weights and biases drawn uniformly from
    /// `(-FX_ONE/2, FX_ONE/2)`: small random values around zero.
    pub fn new(num_input: usize, num_output: usize, rng: &mut Rng) -> (r: Layer)
        requires
            num_input <= MAX_WIDTH,
            num_output <= MAX_WIDTH,
        ensures
            layer_wf(r, num_input as int),
            r.b@.len() == num_output,
            layer_weights_small(r),
    {
        let mut w: Vec<Vec<i32>> = Vec::new();
        let mut i: usize = 0;
        while i < num_input
            invariant
                i <= num_input,
                w@.len() == i,
                forall|t: int| 0 <= t < i ==> (#[trigger] w@[t])@.len() == num_output,
                forall|t: int, u: int|
                    0 <= t < i && 0 <= u < w@[t]@.len() ==> -FX_ONE / 2 < #[trigger] w@[t]@[u]
                        < FX_ONE / 2,
            decreases num_input - i,
        {
            let mut row: Vec<i32> = Vec::new();
            let mut j: usize = 0;
            while j < num_output
                invariant
                    j <= num_output,
                    row@.len() == j,
                    forall|u: int| 0 <= u < j ==> -FX_ONE / 2 < #[trigger] row@[u] < FX_ONE / 2,
                decreases num_output - j,
            {
                row.push(small_random_weight(rng));
                j += 1;
            }
            w.push(row);
            i += 1;
        }
        let mut b: Vec<i32> = Vec::new();
        let mut j: usize = 0;
        while j < num_output
            invariant
                j <= num_output,
                b@.len() == j,
                forall|u: int| 0 <= u < j ==> -FX_ONE / 2 < #[trigger] b@[u] < FX_ONE / 2,
            decreases num_output - j,
        {
            b.push(small_random_weight(rng));
            j += 1;
        }
        Layer { w, b }
    }

    /// A layer built from the given weight rectangle and bias vector.
    pub fn from_existing_weights(w: Vec<Vec<i32>>, b: Vec<i32>) -> (r: Layer)
        requires
            w@.len() <= MAX_WIDTH,
            b@.len() <= MAX_WIDTH,
            forall|i: int| 0 <= i < w@.len() ==> (#[trigger] w@[i])@.len() == b@.len(),
        ensures
            r.w == w,
            r.b == b,
            layer_wf(r, w@.len() as int),
    {
        Layer { w, b }
    }

    /// Applies the layer: for each output, the rescaled dot product of the
    /// input with that output's weight column, plus the bias, rectified.
    pub fn forward(&self, input: &Vec<i64>) -> (r: Vec<i64>)
        requires
            layer_wf(*self, input@.len() as int),
            activations_bounded(input@),
        ensures
            r@ == spec_layer_out(*self, input@),
            r@.len() == self.b@.len(),
            activations_bounded(r@),
            forall|j: int| 0 <= j < r@.len() ==> 0 <= #[trigger] r@[j],
    {
        let out_dim = self.b.len();
        let in_dim = self.w.len();
        let mut out: Vec<i64> = Vec::new();
        let mut j: usize = 0;
        while j < out_dim
            invariant
                layer_wf(*self, input@.len() as int),
                activations_bounded(input@),
                in_dim == self.w@.len(),
                out_dim == self.b@.len(),
                j <= out_dim,
                out@.len() == j,
                forall|t: int|
                    0 <= t < j ==> #[trigger] out@[t] == spec_neuron(
                        input@,
                        self.w@,
                        self.b@,
                        t,
                    ) as i64,
            decreases out_dim - j,
        {
            let mut acc: i128 = 0;
            let mut i: usize = 0;
            while i < in_dim
                invariant
                    layer_wf(*self, input@.len() as int),
                    activations_bounded(input@),
                    in_dim == self.w@.len(),
                    out_dim == self.b@.len(),
                    j < out_dim,
                    i <= in_dim,
                    acc == spec_dot_col(input@, self.w@, j as int, i as int),
                    -(i as int) * 0x2_0000_0000_0000_0000_0000 <= acc <= (i as int)
                        * 0x2_0000_0000_0000_0000_0000,
                decreases in_dim - i,
            {
                let xi: i64 = input[i];
                let wij: i32 = self.w[i][j];
                proof {
                    assert(-0x2_0000_0000_0000_0000_0000 <= (xi as int) * (wij as int)
                        <= 0x2_0000_0000_0000_0000_0000) by (nonlinear_arith)
                        requires
                            -ACT_MAX <= (xi as int) <= ACT_MAX,
                            -0x8000_0000 <= (wij as int) <= 0x7FFF_FFFF,
                    ;
                    assert((i as int) * 0x2_0000_0000_0000_0000_0000 <= 10_000
                        * 0x2_0000_0000_0000_0000_0000) by (nonlinear_arith)
                        requires
                            0 <= (i as int) <= 10_000,
                    ;
                    assert((i as int + 1) * 0x2_0000_0000_0000_0000_0000 == (i as int)
                        * 0x2_0000_0000_0000_0000_0000 + 0x2_0000_0000_0000_0000_0000)
                        by (nonlinear_arith);
                }
                acc = acc + (xi as i128) * (wij as i128);
                i += 1;
            }
            proof {
                assert((in_dim as int) * 0x2_0000_0000_0000_0000_0000 <= 10_000
                    * 0x2_0000_0000_0000_0000_0000) by (nonlinear_arith)
                    requires
                        0 <= (in_dim as int) <= 10_000,
                ;
            }
            let scaled: i128 = if acc >= 0 {
                acc / (FX_ONE as i128)
            } else {
                -((-acc) / (FX_ONE as i128))
            };
            assert(scaled == tdiv(acc as int, FX_ONE as int));
            let pre: i128 = scaled + (self.b[j] as i128);
            let v: i64 = if pre <= 0 {
                0
            } else if pre > ACT_MAX as i128 {
                ACT_MAX
            } else {
                pre as i64
            };
            assert(v as int == spec_neuron(input@, self.w@, self.b@, j as int));
            out.push(v);
            j += 1;
        }
        proof {
            assert(out@ =~= spec_layer_out(*self, input@));
        }
        out
    }
}

/// One weight drawn uniformly from `(-FX_ONE/2, FX_ONE/2)`.
fn small_random_weight(rng: &mut Rng) -> (r: i32)
    ensures
        -FX_ONE / 2 < r < FX_ONE / 2,
{
    let u = rng.next_below((FX_ONE - 1) as u64);
    (u as i32) - (FX_ONE / 2 - 1) as i32
}

/// The rectifier applied to every entry of a vector.
pub fn relu(array: Vec<i64>) -> (r: Vec<i64>)
    ensures
        r@.len() == array@.len(),
        forall|k: int|
            0 <= k < array@.len() ==> #[trigger] r@[k] == if array@[k] > 0 {
                array@[k] as int
            } else {
                0
            },
{
    let mut out: Vec<i64> = Vec::new();
    let mut k: usize = 0;
    let n = array.len();
    while k < n
        invariant
            n == array@.len(),
            k <= n,
            out@.len() == k,
            forall|t: int|
                0 <= t < k ==> #[trigger] out@[t] == if array@[t] > 0 {
                    array@[t] as int
                } else {
                    0
                },
        decreases n - k,
    {
        let v = array[k];
        out.push(if v > 0 {
            v
        } else {
            0
        });
        k += 1;
    }
    out
}

/// The error of rebuilding a network from a parameter vector of the wrong
/// length.
#[derive(Clone, Copy, PartialEq, Eq, Debug)]
pub enum ParamError {
    LengthMismatch,
}

/// The policy network: an ordered chain of affine-plus-rectifier layers,
/// shared read-only by every agent during a tick.
pub struct MLP {
    pub layers: Vec<Layer>,
}

/// The flattening of the first `n` weight rows.
pub open spec fn spec_flat_w(w: Seq<Vec<i32>>, n: int) -> Seq<i32>
    decreases n,
{
    if n <= 0 {
        Seq::empty()
    } else {
        spec_flat_w(w, n - 1) + w[n - 1]@
    }
}

/// One layer's parameters in flat order: all weights row by row, then the
/// biases.
pub open spec fn spec_layer_flat(l: Layer) -> Seq<i32> {
    spec_flat_w(l.w@, l.w@.len() as int) + l.b@
}

/// The first `n` layers' parameters in flat order.
pub open spec fn spec_flatten(layers: Seq<Layer>, n: int) -> Seq<i32>
    decreases n,
{
    if n <= 0 {
        Seq::empty()
    } else {
        spec_flatten(layers, n - 1) + spec_layer_flat(layers[n - 1])
    }
}

/// The input width of layer `k` under a declared architecture.
pub open spec fn spec_size_in_dim(input_dim: int, sizes: Seq<usize>, k: int) -> int {
    if k == 0 {
        input_dim
    } else {
        sizes[k - 1] as int
    }
}

/// How many parameters the first `n` layers of an architecture take:
/// weights plus biases, layer by layer.
pub open spec fn spec_expected_params(input_dim: int, sizes: Seq<usize>, n: int) -> int
    decreases n,
{
    if n <= 0 {
        0
    } else {
        spec_expected_params(input_dim, sizes, n - 1) + spec_size_in_dim(input_dim, sizes, n - 1)
            * sizes[n - 1] + sizes[n - 1]
    }
}

/// Two layers hold exactly the same weight and bias values.
pub open spec fn layer_values_equal(x: Layer, y: Layer) -> bool {
    &&& x.w@.len() == y.w@.len()
    &&& x.b@ == y.b@
    &&& forall|i: int| 0 <= i < x.w@.len() ==> (#[trigger] x.w@[i])@ == y.w@[i]@
}

/// A rectangle of `n` rows of width `out` flattens to `n * out` values.
proof fn lemma_flat_w_len(w: Seq<Vec<i32>>, n: int, out: int)
    requires
        0 <= n <= w.len(),
        out >= 0,
        forall|i: int| 0 <= i < n ==> (#[trigger] w[i])@.len() == out,
    ensures
        spec_flat_w(w, n).len() == n * out,
    decreases n,
{
    if n > 0 {
        lemma_flat_w_len(w, n - 1, out);
        assert(n * out == (n - 1) * out + out) by (nonlinear_arith);
    } else {
        assert(n * out == 0) by (nonlinear_arith)
            requires
                n == 0,
        ;
    }
}

/// Splitting equal concatenations at the same point yields equal parts.
proof fn lemma_seq_cancel(a1: Seq<i32>, a2: Seq<i32>, b1: Seq<i32>, b2: Seq<i32>)
    requires
        a1 + a2 == b1 + b2,
        a1.len() == b1.len(),
    ensures
        a1 == b1,
        a2 == b2,
{
    let s = a1 + a2;
    assert(a1 =~= s.subrange(0, a1.len() as int));
    assert(a2 =~= s.subrange(a1.len() as int, s.len() as int));
    assert(b1 =~= s.subrange(0, b1.len() as int));
    assert(b2 =~= s.subrange(b1.len() as int, s.len() as int));
}

/// Flattening the first `n` rows only reads those rows.
proof fn lemma_flat_w_prefix(w1: Seq<Vec<i32>>, w2: Seq<Vec<i32>>, n: int)
    requires
        0 <= n <= w1.len(),
        n <= w2.len(),
        forall|t: int| 0 <= t < n ==> w1[t] == w2[t],
    ensures
        spec_flat_w(w1, n) == spec_flat_w(w2, n),
    decreases n,
{
    if n > 0 {
        lemma_flat_w_prefix(w1, w2, n - 1);
    }
}

/// Flattening the first `n` layers only reads those layers.
proof fn lemma_flatten_prefix(l1: Seq<Layer>, l2: Seq<Layer>, n: int)
    requires
        0 <= n <= l1.len(),
        n <= l2.len(),
        forall|t: int| 0 <= t < n ==> l1[t] == l2[t],
    ensures
        spec_flatten(l1, n) == spec_flatten(l2, n),
    decreases n,
{
    if n > 0 {
        lemma_flatten_prefix(l1, l2, n - 1);
    }
}

/// Equal flattenings of same-shape weight rectangles come from equal rows.
proof fn lemma_flat_w_injective(wa: Seq<Vec<i32>>, wb: Seq<Vec<i32>>, n: int, out: int)
    requires
        0 <= n <= wa.len(),
        n <= wb.len(),
        out >= 0,
        forall|i: int| 0 <= i < n ==> (#[trigger] wa[i])@.len() == out,
        forall|i: int| 0 <= i < n ==> (#[trigger] wb[i])@.len() == out,
        spec_flat_w(wa, n) == spec_flat_w(wb, n),
    ensures
        forall|i: int| 0 <= i < n ==> (#[trigger] wa[i])@ == wb[i]@,
    decreases n,
{
    if n > 0 {
        lemma_flat_w_len(wa, n - 1, out);
        lemma_flat_w_len(wb, n - 1, out);
        lemma_seq_cancel(spec_flat_w(wa, n - 1), wa[n - 1]@, spec_flat_w(wb, n - 1), wb[n - 1]@);
        lemma_flat_w_injective(wa, wb, n - 1, out);
    }
}

/// Equal flattenings of same-shape layers come from equal parameters.
proof fn lemma_layer_flat_injective(a: Layer, b: Layer, in_dim: int)
    requires
        layer_wf(a, in_dim),
        layer_wf(b, in_dim),
        a.b@.len() == b.b@.len(),
        spec_layer_flat(a) == spec_layer_flat(b),
    ensures
        layer_values_equal(a, b),
{
    let out = a.b@.len() as int;
    lemma_flat_w_len(a.w@, in_dim, out);
    lemma_flat_w_len(b.w@, in_dim, out);
    lemma_seq_cancel(spec_flat_w(a.w@, in_dim), a.b@, spec_flat_w(b.w@, in_dim), b.b@);
    lemma_flat_w_injective(a.w@, b.w@, in_dim, out);
}

/// The parameter round trip: two well-formed networks of the same
/// architecture with the same flattened parameters hold exactly the same
/// weight and bias values, layer by layer. In particular a network rebuilt
/// from its own flattened parameters reproduces every value.
pub proof fn lemma_flatten_injective(a: Seq<Layer>, b: Seq<Layer>, input_dim: int, n: int)
    requires
        a.len() == b.len(),
        0 <= n <= a.len(),
        mlp_wf(a, input_dim),
        mlp_wf(b, input_dim),
        forall|k: int| 0 <= k < a.len() ==> (#[trigger] a[k]).b@.len() == b[k].b@.len(),
        spec_flatten(a, n) == spec_flatten(b, n),
    ensures
        forall|k: int| 0 <= k < n ==> layer_values_equal(#[trigger] a[k], b[k]),
    decreases n,
{
    if n > 0 {
        let in_dim = spec_in_dim(a, n - 1, input_dim);
        assert(spec_in_dim(b, n - 1, input_dim) == in_dim);
        assert(layer_wf(a[n - 1], in_dim));
        assert(layer_wf(b[n - 1], in_dim));
        let out = a[n - 1].b@.len() as int;
        lemma_flat_w_len(a[n - 1].w@, in_dim, out);
        lemma_flat_w_len(b[n - 1].w@, in_dim, out);
        assert(spec_layer_flat(a[n - 1]).len() == spec_layer_flat(b[n - 1]).len());
        assert(spec_flatten(a, n) == spec_flatten(a, n - 1) + spec_layer_flat(a[n - 1]));
        assert(spec_flatten(b, n) == spec_flatten(b, n - 1) + spec_layer_flat(b[n - 1]));
        assert(spec_flatten(a, n - 1).len() == spec_flatten(b, n - 1).len());
        lemma_seq_cancel(
            spec_flatten(a, n - 1),
            spec_layer_flat(a[n - 1]),
            spec_flatten(b, n - 1),
            spec_layer_flat(b[n - 1]),
        );
        lemma_layer_flat_injective(a[n - 1], b[n - 1], in_dim);
        lemma_flatten_injective(a, b, input_dim, n - 1);
    }
}

/// The parameter round-trip law at the network level. Rebuilding from
/// flattened parameters promises that the result's flattening equals the
/// given vector, and flattening promises that the vector equals the
/// network's flattening; so a network rebuilt over the same architecture
/// from `flatten_weights`'s output satisfies these hypotheses, and every
/// weight and bias value comes back identical.
pub proof fn lemma_parameter_round_trip(original: MLP, rebuilt: MLP, input_dim: int)
    requires
        mlp_wf(original.layers@, input_dim),
        mlp_wf(rebuilt.layers@, input_dim),
        original.layers@.len() == rebuilt.layers@.len(),
        forall|k: int|
            0 <= k < original.layers@.len() ==> (#[trigger] original.layers@[k]).b@.len()
                == rebuilt.layers@[k].b@.len(),
        spec_flatten(rebuilt.layers@, rebuilt.layers@.len() as int) == spec_flatten(
            original.layers@,
            original.layers@.len() as int,
        ),
    ensures
        forall|k: int|
            0 <= k < original.layers@.len() ==> layer_values_equal(
                #[trigger] original.layers@[k],
                rebuilt.layers@[k],
            ),
{
    lemma_flatten_injective(
        original.layers@,
        rebuilt.layers@,
        input_dim,
        original.layers@.len() as int,
    );
}

/// An architecture's parameter count grows with its layer count.
proof fn lemma_expected_monotone(input_dim: int, sizes: Seq<usize>, n1: int, n2: int)
    requires
        input_dim >= 0,
        0 <= n1 <= n2 <= sizes.len(),
    ensures
        spec_expected_params(input_dim, sizes, n1) <= spec_expected_params(input_dim, sizes, n2),
    decreases n2 - n1,
{
    if n1 < n2 {
        lemma_expected_monotone(input_dim, sizes, n1, n2 - 1);
        assert(spec_size_in_dim(input_dim, sizes, n2 - 1) * sizes[n2 - 1] >= 0)
            by (nonlinear_arith)
            requires
                spec_size_in_dim(input_dim, sizes, n2 - 1) >= 0,
                sizes[n2 - 1] >= 0,
        ;
    }
}

impl Layer {
    /// Appends this layer's parameters, weights first and biases after, to
    /// `out`.
    fn append_flat(&self, out: &mut Vec<i32>)
        ensures
            final(out)@ == old(out)@ + spec_layer_flat(*self),
    {
        let ghost base = out@;
        let in_dim = self.w.len();
        let mut i: usize = 0;
        while i < in_dim
            invariant
                in_dim == self.w@.len(),
                i <= in_dim,
                out@ == base + spec_flat_w(self.w@, i as int),
            decreases in_dim - i,
        {
            let m = self.w[i].len();
            let mut j: usize = 0;
            while j < m
                invariant
                    i < in_dim,
                    in_dim == self.w@.len(),
                    m == self.w@[i as int]@.len(),
                    j <= m,
                    out@ == base + spec_flat_w(self.w@, i as int) + self.w@[i as int]@.subrange(
                        0,
                        j as int,
                    ),
                decreases m - j,
            {
                let v = self.w[i][j];
                out.push(v);
                proof {
                    assert(self.w@[i as int]@.subrange(0, j as int + 1) =~= self.w@[
                        i as int]@.subrange(0, j as int).push(v));
                    assert(base + spec_flat_w(self.w@, i as int) + self.w@[i as int]@.subrange(
                        0,
                        j as int,
                    ).push(v) =~= (base + spec_flat_w(self.w@, i as int) + self.w@[
                        i as int]@.subrange(0, j as int)).push(v));
                }
                j += 1;
            }
            proof {
                assert(self.w@[i as int]@.subrange(0, m as int) =~= self.w@[i as int]@);
                assert(base + spec_flat_w(self.w@, i as int + 1) =~= base + spec_flat_w(
                    self.w@,
                    i as int,
                ) + self.w@[i as int]@);
            }
            i += 1;
        }
        let n = self.b.len();
        let mut j: usize = 0;
        while j < n
            invariant
                n == self.b@.len(),
                in_dim == self.w@.len(),
                j <= n,
                out@ == base + spec_flat_w(self.w@, in_dim as int) + self.b@.subrange(0, j as int),
            decreases n - j,
        {
            let v = self.b[j];
            out.push(v);
            proof {
                assert(self.b@.subrange(0, j as int + 1) =~= self.b@.subrange(0, j as int).push(
                    v,
                ));
                assert(base + spec_flat_w(self.w@, in_dim as int) + self.b@.subrange(
                    0,
                    j as int,
                ).push(v) =~= (base + spec_flat_w(self.w@, in_dim as int) + self.b@.subrange(
                    0,
                    j as int,
                )).push(v));
            }
            j += 1;
        }
        proof {
            assert(self.b@.subrange(0, n as int) =~= self.b@);
            assert(base + spec_flat_w(self.w@, in_dim as int) + self.b@ =~= base
                + spec_layer_flat(*self));
        }
    }

    /// Rebuilds one layer from the flat parameter block starting at `start`.
    fn from_flat_slice(v: &Vec<i32>, start: usize, in_dim: usize, out_dim: usize) -> (r: Layer)
        requires
            in_dim <= MAX_WIDTH,
            out_dim <= MAX_WIDTH,
            start + in_dim * out_dim + out_dim <= v@.len(),
        ensures
            layer_wf(r, in_dim as int),
            r.b@.len() == out_dim,
            spec_layer_flat(r) == v@.subrange(
                start as int,
                start + in_dim * out_dim + out_dim,
            ),
    {
        proof {
            assert((in_dim as int) * (out_dim as int) <= 100_000_000) by (nonlinear_arith)
                requires
                    0 <= (in_dim as int) <= 10_000,
                    0 <= (out_dim as int) <= 10_000,
            ;
        }
        let vlen = v.len();
        assert(v@.len() == vlen);
        let mut pos: usize = start;
        let mut w: Vec<Vec<i32>> = Vec::new();
        let mut i: usize = 0;
        while i < in_dim
            invariant
                in_dim <= MAX_WIDTH,
                out_dim <= MAX_WIDTH,
                start + in_dim * out_dim + out_dim <= v@.len(),
                v@.len() <= usize::MAX,
                i <= in_dim,
                w@.len() == i,
                pos == start + i * out_dim,
                forall|t: int| 0 <= t < i ==> (#[trigger] w@[t])@.len() == out_dim,
                spec_flat_w(w@, i as int) == v@.subrange(start as int, pos as int),
            decreases in_dim - i,
        {
            proof {
                assert((i as int + 1) * out_dim <= (in_dim as int) * out_dim) by (nonlinear_arith)
                    requires
                        0 <= (i as int) < in_dim as int,
                        out_dim >= 0,
                ;
                assert((i as int + 1) * out_dim == (i as int) * out_dim + out_dim)
                    by (nonlinear_arith);
            }
            let mut row: Vec<i32> = Vec::new();
            let mut j: usize = 0;
            while j < out_dim
                invariant
                    i < in_dim,
                    in_dim <= MAX_WIDTH,
                    out_dim <= MAX_WIDTH,
                    start + in_dim * out_dim + out_dim <= v@.len(),
                    v@.len() <= usize::MAX,
                    pos == start + i * out_dim,
                    (i as int + 1) * out_dim == (i as int) * out_dim + out_dim,
                    (i as int + 1) * out_dim <= (in_dim as int) * out_dim,
                    j <= out_dim,
                    row@.len() == j,
                    row@ == v@.subrange(pos as int, pos + j),
                decreases out_dim - j,
            {
                let x = v[pos + j];
                row.push(x);
                proof {
                    assert(v@.subrange(pos as int, pos + j + 1) =~= v@.subrange(
                        pos as int,
                        pos + j as int,
                    ).push(x));
                }
                j += 1;
            }
            let ghost w_before = w@;
            w.push(row);
            proof {
                lemma_flat_w_prefix(w_before, w@, i as int);
                assert(spec_flat_w(w@, i as int + 1) =~= v@.subrange(
                    start as int,
                    pos + out_dim,
                )) by {
                    assert(spec_flat_w(w@, i as int + 1) == spec_flat_w(w@, i as int) + w@[
                        i as int]@);
                    assert(v@.subrange(start as int, pos as int) + v@.subrange(
                        pos as int,
                        pos + out_dim,
                    ) =~= v@.subrange(start as int, pos + out_dim));
                }
                assert(pos + out_dim <= v@.len());
            }
            pos = pos + out_dim;
            i += 1;
        }
        let mut b: Vec<i32> = Vec::new();
        let mut j: usize = 0;
        while j < out_dim
            invariant
                in_dim <= MAX_WIDTH,
                out_dim <= MAX_WIDTH,
                start + in_dim * out_dim + out_dim <= v@.len(),
                v@.len() <= usize::MAX,
                pos == start + in_dim * out_dim,
                j <= out_dim,
                b@.len() == j,
                b@ == v@.subrange(pos as int, pos + j),
            decreases out_dim - j,
        {
            proof {
                assert(pos + j < v@.len());
            }
            let x = v[pos + j];
            b.push(x);
            proof {
                assert(v@.subrange(pos as int, pos + j + 1) =~= v@.subrange(
                    pos as int,
                    pos + j as int,
                ).push(x));
            }
            j += 1;
        }
        let r = Layer { w, b };
        proof {
            assert(spec_layer_flat(r) =~= v@.subrange(start as int, start + in_dim * out_dim
                + out_dim)) by {
                assert(spec_layer_flat(r) == spec_flat_w(r.w@, in_dim as int) + r.b@);
                assert(v@.subrange(start as int, pos as int) + v@.subrange(
                    pos as int,
                    pos + out_dim,
                ) =~= v@.subrange(start as int, pos + out_dim));
            }
        }
        r
    }
}

impl MLP {
    /// A chain of freshly randomized layers; the last entry of
    /// `hidden_sizes` is the output width.
    pub fn new(input_dimension: usize, hidden_sizes: Vec<usize>, rng: &mut Rng) -> (r: MLP)
        requires
            input_dimension <= MAX_WIDTH,
            hidden_sizes@.len() <= MAX_LAYERS,
            forall|k: int| 0 <= k < hidden_sizes@.len() ==> #[trigger] hidden_sizes@[k]
                <= MAX_WIDTH,
        ensures
            r.layers@.len() == hidden_sizes@.len(),
            mlp_wf(r.layers@, input_dimension as int),
            forall|k: int| 0 <= k < r.layers@.len() ==> (#[trigger] r.layers@[k]).b@.len()
                == hidden_sizes@[k],
            forall|k: int|
                0 <= k < r.layers@.len() ==> layer_weights_small(#[trigger] r.layers@[k]),
    {
        let mut layers: Vec<Layer> = Vec::new();
        let mut num_input = input_dimension;
        let n = hidden_sizes.len();
        let mut k: usize = 0;
        while k < n
            invariant
                n == hidden_sizes@.len(),
                n <= MAX_LAYERS,
                input_dimension <= MAX_WIDTH,
                forall|t: int| 0 <= t < n ==> #[trigger] hidden_sizes@[t] <= MAX_WIDTH,
                k <= n,
                layers@.len() == k,
                num_input == spec_in_dim(layers@, k as int, input_dimension as int),
                num_input <= MAX_WIDTH,
                forall|t: int| 0 <= t < k ==> (#[trigger] layers@[t]).b@.len()
                    == hidden_sizes@[t],
                forall|t: int| 0 <= t < k ==> layer_wf(
                    #[trigger] layers@[t],
                    spec_in_dim(layers@, t, input_dimension as int),
                ),
                forall|t: int| 0 <= t < k ==> layer_weights_small(#[trigger] layers@[t]),
            decreases n - k,
        {
            let layer = Layer::new(num_input, hidden_sizes[k], rng);
            num_input = hidden_sizes[k];
            layers.push(layer);
            k += 1;
        }
        MLP { layers }
    }

    /// Rebuilds a network by slicing `weight_array` into per-layer weight
    /// and bias blocks, in layer order; fails when the vector's length does
    /// not match the architecture's parameter count.
    pub fn from_flattened_weights(
        input_dimension: usize,
        hidden_sizes: Vec<usize>,
        weight_array: Vec<i32>,
    ) -> (r: Result<MLP, ParamError>)
        requires
            input_dimension <= MAX_WIDTH,
            hidden_sizes@.len() <= MAX_LAYERS,
            forall|k: int| 0 <= k < hidden_sizes@.len() ==> #[trigger] hidden_sizes@[k]
                <= MAX_WIDTH,
        ensures
            r is Ok <==> weight_array@.len() == spec_expected_params(
                input_dimension as int,
                hidden_sizes@,
                hidden_sizes@.len() as int,
            ),
            r is Err ==> r->Err_0 == ParamError::LengthMismatch,
            r is Ok ==> ({
                let m = r->Ok_0;
                &&& m.layers@.len() == hidden_sizes@.len()
                &&& mlp_wf(m.layers@, input_dimension as int)
                &&& forall|k: int| 0 <= k < m.layers@.len() ==> (#[trigger] m.layers@[k]).b@.len()
                    == hidden_sizes@[k]
                &&& spec_flatten(m.layers@, m.layers@.len() as int) == weight_array@
            }),
    {
        let n = hidden_sizes.len();
        // First pass: the architecture's exact parameter count.
        let mut expected: u64 = 0;
        let mut dim: u64 = input_dimension as u64;
        let mut k: usize = 0;
        while k < n
            invariant
                n == hidden_sizes@.len(),
                n <= MAX_LAYERS,
                input_dimension <= MAX_WIDTH,
                forall|t: int| 0 <= t < n ==> #[trigger] hidden_sizes@[t] <= MAX_WIDTH,
                k <= n,
                dim == spec_size_in_dim(input_dimension as int, hidden_sizes@, k as int),
                dim <= MAX_WIDTH,
                expected == spec_expected_params(input_dimension as int, hidden_sizes@, k as int),
                expected <= (k as int) * 100_010_000,
            decreases n - k,
        {
            let out = hidden_sizes[k] as u64;
            proof {
                assert((dim as int) * (out as int) <= 100_000_000) by (nonlinear_arith)
                    requires
                        0 <= (dim as int) <= 10_000,
                        0 <= (out as int) <= 10_000,
                ;
                assert((k as int) * 100_010_000 <= 1_000 * 100_010_000) by (nonlinear_arith)
                    requires
                        0 <= (k as int) <= 1_000,
                ;
                assert((k as int + 1) * 100_010_000 == (k as int) * 100_010_000 + 100_010_000)
                    by (nonlinear_arith);
            }
            expected = expected + dim * out + out;
            dim = out;
            k += 1;
        }
        if weight_array.len() as u64 != expected {
            return Err(ParamError::LengthMismatch);
        }
        // Second pass: slice the vector into layers.
        let mut layers: Vec<Layer> = Vec::new();
        let mut num_input = input_dimension;
        let mut idx: usize = 0;
        let mut k: usize = 0;
        while k < n
            invariant
                n == hidden_sizes@.len(),
                n <= MAX_LAYERS,
                input_dimension <= MAX_WIDTH,
                forall|t: int| 0 <= t < n ==> #[trigger] hidden_sizes@[t] <= MAX_WIDTH,
                weight_array@.len() == spec_expected_params(
                    input_dimension as int,
                    hidden_sizes@,
                    n as int,
                ),
                k <= n,
                layers@.len() == k,
                num_input == spec_in_dim(layers@, k as int, input_dimension as int),
                num_input == spec_size_in_dim(input_dimension as int, hidden_sizes@, k as int),
                num_input <= MAX_WIDTH,
                idx == spec_expected_params(input_dimension as int, hidden_sizes@, k as int),
                idx <= weight_array@.len(),
                weight_array@.len() <= usize::MAX,
                forall|t: int| 0 <= t < k ==> (#[trigger] layers@[t]).b@.len()
                    == hidden_sizes@[t],
                forall|t: int| 0 <= t < k ==> layer_wf(
                    #[trigger] layers@[t],
                    spec_in_dim(layers@, t, input_dimension as int),
                ),
                spec_flatten(layers@, k as int) == weight_array@.subrange(0, idx as int),
            decreases n - k,
        {
            let out_dim = hidden_sizes[k];
            proof {
                lemma_expected_monotone(
                    input_dimension as int,
                    hidden_sizes@,
                    k as int + 1,
                    n as int,
                );
                assert((num_input as int) * (out_dim as int) <= 100_000_000) by (nonlinear_arith)
                    requires
                        0 <= (num_input as int) <= 10_000,
                        0 <= (out_dim as int) <= 10_000,
                ;
            }
            proof {
                assert(idx + (num_input * out_dim + out_dim) <= weight_array@.len());
            }
            let layer = Layer::from_flat_slice(&weight_array, idx, num_input, out_dim);
            let step = num_input * out_dim + out_dim;
            let ghost layers_before = layers@;
            layers.push(layer);
            proof {
                lemma_flatten_prefix(layers_before, layers@, k as int);
                assert(spec_flatten(layers@, k as int + 1) =~= weight_array@.subrange(
                    0,
                    idx + step,
                )) by {
                    assert(spec_flatten(layers@, k as int + 1) == spec_flatten(
                        layers@,
                        k as int,
                    ) + spec_layer_flat(layers@[k as int]));
                    assert(weight_array@.subrange(0, idx as int) + weight_array@.subrange(
                        idx as int,
                        idx + step,
                    ) =~= weight_array@.subrange(0, idx + step));
                }
                assert(idx + step <= weight_array@.len());
            }
            idx = idx + step;
            num_input = out_dim;
            k += 1;
        }
        proof {
            assert(weight_array@.subrange(0, weight_array@.len() as int) =~= weight_array@);
        }
        Ok(MLP { layers })
    }

    /// Every layer's parameters in one flat vector: weights then biases, in
    /// layer order. The inverse of `from_flattened_weights`.
    pub fn flatten_weights(&self) -> (r: Vec<i32>)
        ensures
            r@ == spec_flatten(self.layers@, self.layers@.len() as int),
    {
        let mut out: Vec<i32> = Vec::new();
        let n = self.layers.len();
        let mut k: usize = 0;
        while k < n
            invariant
                n == self.layers@.len(),
                k <= n,
                out@ == spec_flatten(self.layers@, k as int),
            decreases n - k,
        {
            self.layers[k].append_flat(&mut out);
            k += 1;
        }
        out
    }

    /// Applies the layers in order; the rectifier runs after every layer,
    /// the final one included, so the network's outputs are non-negative.
    pub fn forward(&self, input: &Vec<i64>) -> (r: Vec<i64>)
        requires
            mlp_wf(self.layers@, input@.len() as int),
            activations_bounded(input@),
        ensures
            r@ == spec_mlp_forward(self.layers@, input@, self.layers@.len() as int),
            activations_bounded(r@),
    {
        let mut cur: Vec<i64> = Vec::new();
        let mut t: usize = 0;
        let in_len = input.len();
        while t < in_len
            invariant
                t <= in_len,
                in_len == input@.len(),
                cur@ == input@.subrange(0, t as int),
            decreases in_len - t,
        {
            let v = input[t];
            cur.push(v);
            proof {
                assert(input@.subrange(0, t as int + 1) =~= input@.subrange(0, t as int).push(v));
            }
            t += 1;
        }
        proof {
            assert(input@.subrange(0, in_len as int) =~= input@);
        }
        let n = self.layers.len();
        let mut k: usize = 0;
        while k < n
            invariant
                n == self.layers@.len(),
                mlp_wf(self.layers@, input@.len() as int),
                k <= n,
                cur@ == spec_mlp_forward(self.layers@, input@, k as int),
                cur@.len() == spec_in_dim(self.layers@, k as int, input@.len() as int) || (k == n
                    && n > 0),
                k < n ==> cur@.len() == spec_in_dim(
                    self.layers@,
                    k as int,
                    input@.len() as int,
                ),
                activations_bounded(cur@),
            decreases n - k,
        {
            let next = self.layers[k].forward(&cur);
            cur = next;
            k += 1;
        }
        cur
    }
}

/// The concatenation of the first `n` vectors.
pub open spec fn spec_concat(vs: Seq<Vec<i64>>, n: int) -> Seq<i64>
    decreases n,
{
    if n <= 0 {
        Seq::empty()
    } else {
        spec_concat(vs, n - 1) + vs[n - 1]@
    }
}

/// Concatenates a list of vectors into one.
pub fn concat(arrays: &Vec<Vec<i64>>) -> (r: Vec<i64>)
    ensures
        r@ == spec_concat(arrays@, arrays@.len() as int),
{
    let mut out: Vec<i64> = Vec::new();
    let mut k: usize = 0;
    let n = arrays.len();
    while k < n
        invariant
            n == arrays@.len(),
            k <= n,
            out@ == spec_concat(arrays@, k as int),
        decreases n - k,
    {
        let mut j: usize = 0;
        let m = arrays[k].len();
        while j < m
            invariant
                k < n,
                n == arrays@.len(),
                m == arrays@[k as int]@.len(),
                j <= m,
                out@ == spec_concat(arrays@, k as int) + arrays@[k as int]@.subrange(0, j as int),
            decreases m - j,
        {
            let v = arrays[k][j];
            out.push(v);
            proof {
                assert(arrays@[k as int]@.subrange(0, j as int + 1) =~= arrays@[
                    k as int]@.subrange(0, j as int).push(v));
            }
            j += 1;
        }
        proof {
            assert(arrays@[k as int]@.subrange(0, m as int) =~= arrays@[k as int]@);
        }
        k += 1;
    }
    proof {
        assert(spec_concat(arrays@, 0) =~= Seq::<i64>::empty());
    }
    out
}

} // verus!
