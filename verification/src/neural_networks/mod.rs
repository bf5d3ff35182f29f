use vstd::prelude::*;

use crate::models::FlatImage;

verus! {

/// What a layer is to a contract: one row of weights and one bias for each
/// output unit, every row as long as the input.
pub struct LayerView {
    pub weights: Seq<Seq<i32>>,
    pub bias: Seq<i64>,
    pub inputs: nat,
}

/// The sum of `weights[i] * pixels[i]` over the first `n` indices.
pub open spec fn weighted_sum(weights: Seq<i32>, pixels: Seq<u8>, n: nat) -> int
    decreases n,
{
    if n == 0 {
        0
    } else {
        weighted_sum(weights, pixels, (n - 1) as nat) + weights[n - 1] * pixels[n - 1]
    }
}

impl LayerView {
    /// There are as many rows as biases, and every row has one weight for
    /// each input.
    pub open spec fn wf(self) -> bool {
        &&& self.weights.len() == self.bias.len()
        &&& forall|unit: int|
            0 <= unit < self.weights.len() ==> (#[trigger] self.weights[unit]).len() == self.inputs
    }

    /// The number of output units.
    pub open spec fn outputs(self) -> nat {
        self.bias.len()
    }

    /// The score of one output unit: its bias plus the weighted sum of the
    /// pixels.
    pub open spec fn score(self, pixels: Seq<u8>, unit: int) -> int {
        self.bias[unit] + weighted_sum(self.weights[unit], pixels, self.inputs)
    }

    /// The scores of all output units, in their order.
    pub open spec fn scores(self, pixels: Seq<u8>) -> Seq<int> {
        Seq::new(self.outputs(), |unit: int| self.score(pixels, unit))
    }
}

/// The layer that [`Layer::new`] builds: every weight of row `unit` is
/// `unit + 1`, every bias is zero.
pub open spec fn placeholder(input: nat, output: nat) -> LayerView {
    LayerView {
        weights: Seq::new(output, |unit: int| Seq::new(input, |i: int| (unit + 1) as i32)),
        bias: Seq::new(output, |unit: int| 0i64),
        inputs: input,
    }
}

/// Two layers with the same weights, of which the second has every bias
/// larger by `delta`, give scores that differ by exactly `delta` on every
/// image.
pub proof fn lemma_bias_shifts_scores(
    layer: LayerView,
    shifted: LayerView,
    pixels: Seq<u8>,
    delta: int,
)
    requires
        layer.wf(),
        shifted.wf(),
        shifted.weights == layer.weights,
        shifted.inputs == layer.inputs,
        forall|unit: int|
            0 <= unit < layer.outputs() ==> #[trigger] shifted.bias[unit] == layer.bias[unit]
                + delta,
    ensures
        shifted.scores(pixels).len() == layer.scores(pixels).len(),
        forall|unit: int|
            0 <= unit < layer.outputs() ==> #[trigger] shifted.scores(pixels)[unit]
                == layer.scores(pixels)[unit] + delta,
{
}


/// An image was offered to a layer that has another number of inputs.
#[derive(Clone, Copy, Debug, PartialEq, Eq)]
pub struct DimensionError {
    /// The number of inputs of the layer.
    pub expected: usize,
    /// The number of pixels of the image.
    pub found: usize,
}

/// A single dense layer: an affine map from the pixels of an image to one
/// score per output unit. No activation is applied.
///
/// Weights and biases are integers, and so are the pixels, so the scores
/// are exact.
#[derive(Debug)]
pub struct Layer {
    weights: Vec<Vec<i32>>,
    bias: Vec<i64>,
    inputs: usize,
}

impl View for Layer {
    type V = LayerView;

    closed spec fn view(&self) -> LayerView {
        LayerView {
            weights: Seq::new(self.weights@.len(), |unit: int| self.weights@[unit]@),
            bias: self.bias@,
            inputs: self.inputs as nat,
        }
    }
}

/// The product of a weight and a pixel is at most 2^31 * 255 in magnitude.
proof fn lemma_term_bound(weight: i32, pixel: u8)
    ensures
        -547_608_330_240 <= weight * pixel <= 547_608_330_240,
{
    assert(-547_608_330_240 <= weight * pixel <= 547_608_330_240) by (nonlinear_arith)
        requires
            -0x8000_0000 <= weight <= 0x7fff_ffff,
            0 <= pixel <= 255,
    ;
}

impl Layer {
    #[verifier::type_invariant]
    spec fn rectangular(&self) -> bool {
        &&& self.weights@.len() == self.bias@.len()
        &&& forall|unit: int|
            0 <= unit < self.weights@.len() ==> (#[trigger] self.weights@[unit])@.len()
                == self.inputs
    }

    /// Produces a new layer with `input` input nodes and `output` output
    /// nodes, filled with placeholder values: row `unit` holds the weight
    /// `unit + 1` throughout, and every bias is zero.
    pub fn new(input: usize, output: usize) -> (layer: Self)
        requires
            output <= i32::MAX,
        ensures
            layer@ == placeholder(input as nat, output as nat),
            layer@.wf(),
    {
        let mut weights: Vec<Vec<i32>> = Vec::new();
        let mut bias: Vec<i64> = Vec::new();
        let mut unit: usize = 0;
        while unit < output
            invariant
                unit <= output <= i32::MAX,
                weights@.len() == unit,
                bias@.len() == unit,
                forall|k: int| 0 <= k < unit ==> bias@[k] == 0,
                forall|k: int|
                    0 <= k < unit ==> (#[trigger] weights@[k])@ == Seq::new(
                        input as nat,
                        |i: int| (k + 1) as i32,
                    ),
            decreases output - unit,
        {
            let weight: i32 = (unit + 1) as i32;
            let mut row: Vec<i32> = Vec::new();
            let mut i: usize = 0;
            while i < input
                invariant
                    i <= input,
                    row@.len() == i,
                    forall|k: int| 0 <= k < i ==> row@[k] == weight,
                decreases input - i,
            {
                row.push(weight);
                i += 1;
            }
            proof {
                assert(row@ =~= Seq::new(input as nat, |i: int| (unit + 1) as i32));
            }
            weights.push(row);
            bias.push(0);
            unit += 1;
        }
        let layer = Self { weights, bias, inputs: input };
        proof {
            let target = placeholder(input as nat, output as nat);
            assert(layer@.weights =~= target.weights);
            assert(layer@.bias =~= target.bias);
        }
        layer
    }

    /// Builds a layer from its weights, one row per output unit, and its
    /// biases. The result is `None` unless there are as many rows as biases
    /// and every row holds `input` weights.
    pub fn from_parameters(input: usize, weights: Vec<Vec<i32>>, bias: Vec<i64>) -> (layer: Option<
        Self,
    >)
        ensures
            layer is Some <==> {
                &&& weights@.len() == bias@.len()
                &&& forall|unit: int|
                    0 <= unit < weights@.len() ==> (#[trigger] weights@[unit])@.len() == input
            },
            layer matches Some(built) ==> {
                &&& built@.inputs == input
                &&& built@.bias == bias@
                &&& built@.weights.len() == weights@.len()
                &&& forall|unit: int|
                    0 <= unit < weights@.len() ==> #[trigger] built@.weights[unit]
                        == weights@[unit]@
                &&& built@.wf()
            },
    {
        if weights.len() != bias.len() {
            return None;
        }
        let mut unit: usize = 0;
        while unit < weights.len()
            invariant
                unit <= weights@.len(),
                forall|k: int| 0 <= k < unit ==> (#[trigger] weights@[k])@.len() == input,
            decreases weights@.len() - unit,
        {
            if weights[unit].len() != input {
                return None;
            }
            unit += 1;
        }
        Some(Self { weights, bias, inputs: input })
    }

    /// The number of pixels that an image must have for this layer.
    pub fn input_size(&self) -> (input: usize)
        ensures
            input == self@.inputs,
    {
        self.inputs
    }

    /// The number of output units, which is the number of scores.
    pub fn output_size(&self) -> (output: usize)
        ensures
            output == self@.outputs(),
            output == self@.weights.len(),
    {
        proof {
            use_type_invariant(self);
        }
        self.bias.len()
    }

    /// The weights, one row per output unit.
    pub fn weights(&self) -> (weights: &Vec<Vec<i32>>)
        ensures
            weights@.len() == self@.weights.len(),
            forall|unit: int|
                0 <= unit < weights@.len() ==> (#[trigger] weights@[unit])@ == self@.weights[unit],
            self@.wf(),
    {
        proof {
            use_type_invariant(self);
        }
        &self.weights
    }

    /// The biases, one per output unit.
    pub fn bias(&self) -> (bias: &Vec<i64>)
        ensures
            bias@ == self@.bias,
            self@.wf(),
    {
        proof {
            use_type_invariant(self);
        }
        &self.bias
    }

    /// The raw scores of an image: for each output unit its bias plus the
    /// sum, over the pixels, of weight times pixel. The image has exactly
    /// as many pixels as the layer has inputs.
    pub fn predict(&self, image: &FlatImage) -> (prediction: Vec<i128>)
        requires
            image@.pixels.len() == self@.inputs,
        ensures
            prediction@.len() == self@.outputs(),
            forall|unit: int|
                0 <= unit < prediction@.len() ==> #[trigger] prediction@[unit] == self@.score(
                    image@.pixels,
                    unit,
                ),
    {
        proof {
            use_type_invariant(self);
        }
        let pixels = image.as_bytes();
        let mut prediction: Vec<i128> = Vec::new();
        let mut unit: usize = 0;
        while unit < self.weights.len()
            invariant
                unit <= self.weights@.len(),
                self.rectangular(),
                pixels@ == image@.pixels,
                pixels@.len() == self.inputs,
                prediction@.len() == unit,
                forall|k: int|
                    0 <= k < unit ==> #[trigger] prediction@[k] == self@.score(image@.pixels, k),
            decreases self.weights@.len() - unit,
        {
            let row = &self.weights[unit];
            let mut sum: i128 = 0;
            let mut i: usize = 0;
            while i < row.len()
                invariant
                    i <= row@.len(),
                    row@.len() == pixels@.len(),
                    sum == weighted_sum(row@, pixels@, i as nat),
                    -(i * 547_608_330_240) <= sum <= i * 547_608_330_240,
                decreases row@.len() - i,
            {
                proof {
                    lemma_term_bound(row@[i as int], pixels@[i as int]);
                }
                let term: i128 = (row[i] as i128) * (pixels[i] as i128);
                sum = sum + term;
                i += 1;
            }
            prediction.push(sum + self.bias[unit] as i128);
            unit += 1;
        }
        prediction
    }

    /// The raw scores of an image, as [`Layer::predict`] gives them, or the
    /// error if the image has another number of pixels than the layer has
    /// inputs.
    pub fn try_predict(&self, image: &FlatImage) -> (result: Result<Vec<i128>, DimensionError>)
        ensures
            result is Ok <==> image@.pixels.len() == self@.inputs,
            result matches Ok(prediction) ==> {
                &&& prediction@.len() == self@.outputs()
                &&& forall|unit: int|
                    0 <= unit < prediction@.len() ==> #[trigger] prediction@[unit]
                        == self@.score(image@.pixels, unit)
            },
            result matches Err(error) ==> error.expected == self@.inputs && error.found
                == image@.pixels.len(),
    {
        let found = image.pixel_count();
        if found != self.inputs {
            return Err(DimensionError { expected: self.inputs, found });
        }
        Ok(self.predict(image))
    }
}

} // verus!
