//! A feed-forward network: layers that multiply by a weight, add a bias and take `relu`.
use crate::matrix::{
    product_defined, product_of, same_shape, sum_defined, sum_of, table, Matrix, MatrixError,
};
use crate::scalar::{default_is, lawful, ordered};
use core::cmp::Ordering;
use core::ops::{Add, Mul};
use vstd::prelude::*;
use vstd::std_specs::cmp::PartialOrdSpec;

verus! {

/// Why a network could not be built or evaluated.
#[derive(Debug)]
pub enum NeuralNetworkError {
    /// The parts of a network do not describe the same number of layers.
    InvalidArgument,
    /// A network was found in a state that its constructor rules out.
    BadInternalState,
    /// A matrix operation of a layer was refused.
    MatrixError(MatrixError),
}

impl From<MatrixError> for NeuralNetworkError {
    fn from(err: MatrixError) -> (r: Self) {
        NeuralNetworkError::MatrixError(err)
    }
}

impl vstd::std_specs::convert::FromSpecImpl<MatrixError> for NeuralNetworkError {
    open spec fn obeys_from_spec() -> bool {
        true
    }

    open spec fn from_spec(err: MatrixError) -> Self {
        NeuralNetworkError::MatrixError(err)
    }
}

/// `x` where it is greater than `zero`, and `zero` elsewhere.
pub open spec fn relu_of<T: PartialOrd>(zero: T, x: T) -> T {
    if x.partial_cmp_spec(&zero) == Some(Ordering::Greater) {
        x
    } else {
        zero
    }
}

/// The table that has `relu_of(zero, x)` where `a` has `x`.
pub open spec fn relu_table<T: PartialOrd>(zero: T, a: Seq<Seq<T>>) -> Seq<Seq<T>> {
    Seq::new(a.len(), |i: int| Seq::new(a[i].len(), |j: int| relu_of(zero, a[i][j])))
}

/// `x` where it is positive, and zero elsewhere.
pub fn relu<T: PartialOrd + Default>(x: T) -> (r: T)
    ensures
        ordered::<T>() ==> forall|zero: T| #[trigger] default_is(zero) ==> r == relu_of(zero, x),
{
    let zero = T::default();
    if x > zero {
        x
    } else {
        zero
    }
}

/// The matrix of the same shape that has `relu(v)` in each place where `x` has `v`.
pub fn relu_matrix<T: PartialOrd + Default + Copy>(x: Matrix<T>) -> (r: Matrix<T>)
    ensures
        r.wf(),
        same_shape(r@, x@),
        ordered::<T>() ==> forall|zero: T| #[trigger]
            default_is(zero) ==> r@ == relu_table(zero, x@),
{
    let mut rows: Vec<Vec<T>> = Vec::new();
    let mut i: usize = 0;
    while i < x.rows().len()
        invariant
            i <= x@.len(),
            rows@.len() == i,
            forall|k: int| 0 <= k < i ==> (#[trigger] rows@[k])@.len() == x@[k].len(),
            ordered::<T>() ==> forall|zero: T, k: int, l: int|
                #![trigger default_is(zero), rows@[k]@[l]]
                default_is(zero) && 0 <= k < i && 0 <= l < x@[k].len() ==> rows@[k]@[l] == relu_of(
                    zero,
                    x@[k][l],
                ),
        decreases x@.len() - i,
    {
        let row = &x.rows()[i];
        let mut new_row: Vec<T> = Vec::new();
        let mut j: usize = 0;
        while j < row.len()
            invariant
                i < x@.len(),
                row@ == x@[i as int],
                j <= row@.len(),
                new_row@.len() == j,
                ordered::<T>() ==> forall|zero: T, l: int|
                    #![trigger default_is(zero), new_row@[l]]
                    default_is(zero) && 0 <= l < j ==> new_row@[l] == relu_of(zero, row@[l]),
            decreases row@.len() - j,
        {
            new_row.push(relu(row[j]));
            j = j + 1;
        }
        rows.push(new_row);
        i = i + 1;
    }
    proof {
        assert(forall|k: int|
            0 <= k < x@.len() ==> (#[trigger] table(rows)[k]).len() == x@[0].len());
        if ordered::<T>() {
            assert forall|zero: T| #[trigger] default_is(zero) implies table(rows) == relu_table(
                zero,
                x@,
            ) by {
                assert(table(rows) =~~= relu_table(zero, x@));
            }
        }
    }
    match Matrix::new(rows) {
        Ok(m) => m,
        Err(_) => x,
    }
}

/// One layer of a network, as the contracts see it.
pub struct Layer<T> {
    /// Whether the layer ends with `relu`.
    pub use_relu: bool,
    /// The table by which the layer's input is multiplied.
    pub weight: Seq<Seq<T>>,
    /// The table that is added to the product.
    pub bias: Seq<Seq<T>>,
}

/// What a layer makes of `input`: the product of its weight and `input`, plus its bias,
/// and `relu` of each entry where the layer asks for it. Where the shapes do not fit, the
/// error of the matrix operation that refuses them.
pub open spec fn layer_output<T: Add<Output = T> + Mul<Output = T> + PartialOrd>(
    zero: T,
    layer: Layer<T>,
    input: Seq<Seq<T>>,
) -> Result<Seq<Seq<T>>, NeuralNetworkError> {
    let product = product_of(zero, layer.weight, input);
    let sum = sum_of(product, layer.bias);
    if layer.weight[0].len() != input.len() || !same_shape(product, layer.bias) {
        Err(NeuralNetworkError::MatrixError(MatrixError::InvalidArgument))
    } else if layer.use_relu {
        Ok(relu_table(zero, sum))
    } else {
        Ok(sum)
    }
}

/// Every sum and product of `layer_output(zero, layer, input)` is one that `T` can form,
/// and where the layer ends with `relu`, `T` is ordered as its specification says.
pub open spec fn layer_defined<T: Add<Output = T> + Mul<Output = T> + PartialOrd>(
    zero: T,
    layer: Layer<T>,
    input: Seq<Seq<T>>,
) -> bool {
    let product = product_of(zero, layer.weight, input);
    layer.weight[0].len() == input.len() ==> {
        &&& product_defined(zero, layer.weight, input)
        &&& same_shape(product, layer.bias) ==> {
            &&& sum_defined(product, layer.bias)
            &&& layer.use_relu ==> ordered::<T>()
        }
    }
}

/// What the layers make of `input`, one after the other; the first error ends it.
pub open spec fn forward<T: Add<Output = T> + Mul<Output = T> + PartialOrd>(
    zero: T,
    layers: Seq<Layer<T>>,
    input: Seq<Seq<T>>,
) -> Result<Seq<Seq<T>>, NeuralNetworkError>
    decreases layers.len(),
{
    if layers.len() == 0 {
        Ok(input)
    } else {
        match forward(zero, layers.drop_last(), input) {
            Ok(x) => layer_output(zero, layers.last(), x),
            Err(e) => Err(e),
        }
    }
}

/// Every layer that `forward(zero, layers, input)` reaches is defined on what reaches it.
pub open spec fn forward_defined<T: Add<Output = T> + Mul<Output = T> + PartialOrd>(
    zero: T,
    layers: Seq<Layer<T>>,
    input: Seq<Seq<T>>,
) -> bool
    decreases layers.len(),
{
    layers.len() == 0 || {
        &&& forward_defined(zero, layers.drop_last(), input)
        &&& forward(zero, layers.drop_last(), input) matches Ok(x) ==> layer_defined(
            zero,
            layers.last(),
            x,
        )
    }
}

/// A feed-forward network: a list of layers, each a weight, a bias and a switch for `relu`.
pub struct NeuralNetwork<T> {
    use_relu: Vec<bool>,
    weights: Vec<Matrix<T>>,
    biases: Vec<Matrix<T>>,
}

/// The layers that the three lists describe, in their order.
pub open spec fn layers_of<T>(
    use_relu: Vec<bool>,
    weights: Vec<Matrix<T>>,
    biases: Vec<Matrix<T>>,
) -> Seq<Layer<T>> {
    Seq::new(
        weights@.len(),
        |i: int| (Layer { use_relu: use_relu@[i], weight: weights@[i]@, bias: biases@[i]@ }),
    )
}

impl<T> View for NeuralNetwork<T> {
    type V = Seq<Layer<T>>;

    closed spec fn view(&self) -> Seq<Layer<T>> {
        layers_of(self.use_relu, self.weights, self.biases)
    }
}

impl<T> NeuralNetwork<T> {
    /// There is one switch, one weight and one bias for each layer.
    #[verifier::type_invariant]
    spec fn inv(&self) -> bool {
        &&& self.use_relu@.len() == self.weights@.len()
        &&& self.weights@.len() == self.biases@.len()
    }

    /// Builds a network from one switch, one weight and one bias for each layer.
    pub fn new(use_relu: Vec<bool>, weights: Vec<Matrix<T>>, biases: Vec<Matrix<T>>) -> (r: Result<
        Self,
        NeuralNetworkError,
    >)
        ensures
            use_relu@.len() == weights@.len() && weights@.len() == biases@.len() ==> (r matches Ok(
                n,
            ) && n@ == layers_of(use_relu, weights, biases)),
            !(use_relu@.len() == weights@.len() && weights@.len() == biases@.len())
                ==> r matches Err(NeuralNetworkError::InvalidArgument),
    {
        if use_relu.len() != weights.len() || weights.len() != biases.len() {
            return Err(NeuralNetworkError::InvalidArgument);
        }
        Ok(NeuralNetwork { use_relu, weights, biases })
    }
}

impl<T> NeuralNetwork<T> where T: Add<Output = T> + Mul<Output = T> + Default + Copy + PartialOrd {
    /// What the network makes of `input`: each layer in turn multiplies by its weight, adds
    /// its bias and, where it asks for it, takes `relu` of each entry.
    pub fn compute_output(&self, input: Matrix<T>) -> (r: Result<Matrix<T>, NeuralNetworkError>)
        requires
            exists|zero: T| #[trigger] lawful(zero) && forward_defined(zero, self@, input@),
        ensures
            r matches Ok(m) ==> m.wf(),
            forall|zero: T| #[trigger]
                lawful(zero) ==> output_is(r, forward(zero, self@, input@)),
    {
        let ghost zero = choose|zero: T| #[trigger]
            lawful(zero) && forward_defined(zero, self@, input@);
        let ghost first = input@;
        let mut input_val = input;
        let mut i: usize = 0;
        while i < self.weights.len()
            invariant
                first == input@,
                lawful(zero),
                forward_defined(zero, self@, first),
                i <= self@.len(),
                self@.len() == self.weights@.len(),
                forall|z: T| #[trigger]
                    lawful(z) ==> forward(z, self@.take(i as int), first) == Ok::<
                        Seq<Seq<T>>,
                        NeuralNetworkError,
                    >(input_val@),
            decreases self@.len() - i,
        {
            proof {
                use_type_invariant(self);
                use_type_invariant(&input_val);
            }
            if i >= self.biases.len() || i >= self.use_relu.len() {
                return Err(NeuralNetworkError::BadInternalState);
            }
            let weight = &self.weights[i];
            let bias = &self.biases[i];
            let use_relu = self.use_relu[i];
            let ghost layer = self@[i as int];
            let ghost before = input_val@;
            proof {
                lemma_forward_defined_prefix(zero, self@, first, i as int + 1);
                assert(self@.take(i as int + 1).drop_last() == self@.take(i as int));
                assert(layer.weight == weight@ && layer.bias == bias@ && layer.use_relu
                    == use_relu);
            }
            let product = match weight.mul(&input_val) {
                Ok(product) => product,
                Err(e) => {
                    proof {
                        assert forall|z: T| #[trigger] lawful(z) implies output_is(
                            Err::<Matrix<T>, NeuralNetworkError>(
                                NeuralNetworkError::MatrixError(e),
                            ),
                            forward(z, self@, first),
                        ) by {
                            lemma_forward_error_stays(z, self@, first, i as int + 1);
                        }
                    }
                    return Err(NeuralNetworkError::from(e));
                },
            };
            let sum = match product.add(bias) {
                Ok(sum) => sum,
                Err(e) => {
                    proof {
                        assert forall|z: T| #[trigger] lawful(z) implies output_is(
                            Err::<Matrix<T>, NeuralNetworkError>(
                                NeuralNetworkError::MatrixError(e),
                            ),
                            forward(z, self@, first),
                        ) by {
                            lemma_forward_error_stays(z, self@, first, i as int + 1);
                        }
                    }
                    return Err(NeuralNetworkError::from(e));
                },
            };
            input_val = if use_relu {
                relu_matrix(sum)
            } else {
                sum
            };
            i = i + 1;
        }
        proof {
            use_type_invariant(&input_val);
            assert(self@.take(i as int) == self@);
        }
        Ok(input_val)
    }
}

/// `r` is the result `expected`: the same error, or a matrix with the expected entries.
pub open spec fn output_is<T>(
    r: Result<Matrix<T>, NeuralNetworkError>,
    expected: Result<Seq<Seq<T>>, NeuralNetworkError>,
) -> bool {
    match r {
        Ok(m) => expected == Ok::<Seq<Seq<T>>, NeuralNetworkError>(m@),
        Err(e) => expected == Err::<Seq<Seq<T>>, NeuralNetworkError>(e),
    }
}

/// Where a whole run is defined, so is the run through the first `n` layers.
pub proof fn lemma_forward_defined_prefix<T: Add<Output = T> + Mul<Output = T> + PartialOrd>(
    zero: T,
    layers: Seq<Layer<T>>,
    input: Seq<Seq<T>>,
    n: int,
)
    requires
        0 <= n <= layers.len(),
        forward_defined(zero, layers, input),
    ensures
        forward_defined(zero, layers.take(n), input),
    decreases layers.len(),
{
    if n == layers.len() {
        assert(layers.take(n) == layers);
    } else {
        lemma_forward_defined_prefix(zero, layers.drop_last(), input, n);
        assert(layers.drop_last().take(n) == layers.take(n));
    }
}

/// An error of the first `n` layers is the error of the whole run.
pub proof fn lemma_forward_error_stays<T: Add<Output = T> + Mul<Output = T> + PartialOrd>(
    zero: T,
    layers: Seq<Layer<T>>,
    input: Seq<Seq<T>>,
    n: int,
)
    requires
        0 <= n <= layers.len(),
        forward(zero, layers.take(n), input) is Err,
    ensures
        forward(zero, layers, input) == forward(zero, layers.take(n), input),
    decreases layers.len(),
{
    if n == layers.len() {
        assert(layers.take(n) == layers);
    } else {
        assert(layers.drop_last().take(n) == layers.take(n));
        lemma_forward_error_stays(zero, layers.drop_last(), input, n);
    }
}

} // verus!
