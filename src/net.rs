use vstd::prelude::*;

use candle_core::{DType, Module, Tensor, D};
use candle_nn::{Linear, Optimizer, SGD};

use crate::ml::{meets_accuracy, MlError, TrainingRun, EPOCHS};

verus! {

#[verifier::external_type_specification]
#[verifier::external_body]
pub struct ExTensor(Tensor);

#[verifier::external_type_specification]
#[verifier::external_body]
pub struct ExCandleError(candle_core::Error);

#[verifier::external_type_specification]
#[verifier::external_body]
pub struct ExLinear(Linear);

#[verifier::external_type_specification]
#[verifier::external_body]
pub struct ExSgd(SGD);

/// Relies on `Module::forward` of candle-nn's `Linear`: the affine map of the layer.
#[verifier::external_body]
fn linear_forward(layer: &Linear, xs: &Tensor) -> (r: Result<Tensor, candle_core::Error>) {
    layer.forward(xs)
}

/// Relies on candle's `Tensor::relu`: the elementwise rectifier.
#[verifier::external_body]
fn relu(xs: &Tensor) -> (r: Result<Tensor, candle_core::Error>) {
    xs.relu()
}

/// Relies on candle-nn's `ops::log_softmax` over the last dimension.
#[verifier::external_body]
fn log_softmax_last(xs: &Tensor) -> (r: Result<Tensor, candle_core::Error>) {
    candle_nn::ops::log_softmax(xs, D::Minus1)
}

/// Relies on candle-nn's `loss::nll`: the mean negative log-likelihood of the targets.
#[verifier::external_body]
fn nll(log_probs: &Tensor, targets: &Tensor) -> (r: Result<Tensor, candle_core::Error>) {
    candle_nn::loss::nll(log_probs, targets)
}

/// Relies on `Optimizer::backward_step` of candle-nn's `SGD`: back-propagates the loss
/// and takes one gradient-descent step on the optimiser's variables.
#[verifier::external_body]
fn backward_step(sgd: &mut SGD, loss: &Tensor) -> (r: Result<(), candle_core::Error>) {
    sgd.backward_step(loss)
}

/// Relies on candle's `Tensor::argmax` over the last dimension: the index of a largest
/// value of each row, as `u32`; the CPU kernel keeps the first of equal maxima.
#[verifier::external_body]
fn argmax_last(xs: &Tensor) -> (r: Result<Tensor, candle_core::Error>) {
    xs.argmax(D::Minus1)
}

/// Relies on candle's `Tensor::eq`: elementwise equality, one for equal and zero otherwise.
#[verifier::external_body]
fn equal(a: &Tensor, b: &Tensor) -> (r: Result<Tensor, candle_core::Error>) {
    a.eq(b)
}

/// Relies on candle's `Tensor::to_dtype` towards `u32`.
#[verifier::external_body]
fn to_u32(xs: &Tensor) -> (r: Result<Tensor, candle_core::Error>) {
    xs.to_dtype(DType::U32)
}

/// Relies on candle's `Tensor::sum_all`: the sum of all elements, as a scalar tensor.
#[verifier::external_body]
fn sum_all(xs: &Tensor) -> (r: Result<Tensor, candle_core::Error>) {
    xs.sum_all()
}

/// Relies on candle's `Tensor::to_scalar::<u32>`: the value of a scalar `u32` tensor.
#[verifier::external_body]
fn scalar_u32(xs: &Tensor) -> (r: Result<u32, candle_core::Error>) {
    xs.to_scalar::<u32>()
}

/// Relies on candle's `Tensor::dims1`: the length of a one-dimensional tensor.
#[verifier::external_body]
fn dims1(xs: &Tensor) -> (r: Result<usize, candle_core::Error>) {
    xs.dims1()
}

/// Relies on candle's `Tensor::get`: the slice at index `i` of the first dimension.
#[verifier::external_body]
fn get(xs: &Tensor, i: usize) -> (r: Result<Tensor, candle_core::Error>) {
    xs.get(i)
}

/// The input tensors of a training run: feature vectors of shape `(n, 65536)` and class
/// indices of shape `(n,)`, for the training and the test partition.
pub struct TensorSet {
    pub train_inputs: Tensor,
    pub train_outputs: Tensor,
    pub test_inputs: Tensor,
    pub test_outputs: Tensor,
}

/// The classifier: a linear layer from the 65536 features to a hidden layer, a rectifier,
/// and a linear layer from the hidden layer to one logit per class.
pub struct Network {
    pub ln1: Linear,
    pub ln2: Linear,
}

/// Number of features of one input vector.
pub const N_INPUT: usize = 65536;

/// Width of the hidden layer.
pub const N_HIDDEN_1: usize = 512;

impl Network {
    /// The raw logits of a batch of feature vectors, one row per vector.
    pub fn forward(&self, xs: &Tensor) -> (r: Result<Tensor, MlError>)
        ensures
            r matches Err(e) ==> e == MlError::Compute,
    {
        let hidden = match linear_forward(&self.ln1, xs) {
            Ok(t) => t,
            Err(_) => return Err(MlError::Compute),
        };
        let hidden = match relu(&hidden) {
            Ok(t) => t,
            Err(_) => return Err(MlError::Compute),
        };
        match linear_forward(&self.ln2, &hidden) {
            Ok(t) => Ok(t),
            Err(_) => Err(MlError::Compute),
        }
    }

    /// The class index with the largest logit for a batch holding one feature vector.
    pub fn predict(&self, input: &Tensor) -> (r: Result<u32, MlError>)
        ensures
            r matches Err(e) ==> e == MlError::Compute,
    {
        let logits = self.forward(input)?;
        let best = match argmax_last(&logits) {
            Ok(t) => t,
            Err(_) => return Err(MlError::Compute),
        };
        let first = match get(&best, 0) {
            Ok(t) => t,
            Err(_) => return Err(MlError::Compute),
        };
        match scalar_u32(&first) {
            Ok(c) => Ok(c),
            Err(_) => Err(MlError::Compute),
        }
    }

    /// How many test vectors the network puts in their own class, out of how many.
    pub fn score(&self, inputs: &Tensor, outputs: &Tensor) -> (r: Result<(u64, u64), MlError>)
        ensures
            r matches Err(e) ==> e == MlError::Compute,
    {
        let logits = self.forward(inputs)?;
        let best = match argmax_last(&logits) {
            Ok(t) => t,
            Err(_) => return Err(MlError::Compute),
        };
        let hits = match equal(&best, outputs) {
            Ok(t) => t,
            Err(_) => return Err(MlError::Compute),
        };
        let hits = match to_u32(&hits) {
            Ok(t) => t,
            Err(_) => return Err(MlError::Compute),
        };
        let hits = match sum_all(&hits) {
            Ok(t) => t,
            Err(_) => return Err(MlError::Compute),
        };
        let correct = match scalar_u32(&hits) {
            Ok(c) => c,
            Err(_) => return Err(MlError::Compute),
        };
        let total = match dims1(outputs) {
            Ok(n) => n,
            Err(_) => return Err(MlError::Compute),
        };
        if total as u128 > u64::MAX as u128 {
            return Err(MlError::Compute);
        }
        Ok((correct as u64, total as u64))
    }
}

/// Trains the network by full-batch gradient descent: each epoch runs the training
/// inputs forward, takes the cross-entropy loss against the training labels, lets the
/// optimiser take one step, and then measures the test accuracy. The run stops early at a
/// perfect test accuracy and otherwise after `EPOCHS` epochs; it fails with
/// `TrainingFailed` when the last test accuracy is below `min_accuracy` percent, and with
/// `Compute` when a tensor operation fails.
pub fn train(net: &Network, sgd: &mut SGD, data: &TensorSet, min_accuracy: u32) -> (r: Result<
    TrainingRun,
    MlError,
>)
    ensures
        r matches Ok(run) ==> {
            &&& 1 <= run.epochs_done <= EPOCHS
            &&& run.min_accuracy == min_accuracy
            &&& meets_accuracy(run.correct as int, run.total as int, min_accuracy as int)
            &&& run.epochs_done < EPOCHS ==> run.correct == run.total
        },
        r matches Err(e) ==> e == MlError::TrainingFailed || e == MlError::Compute,
{
    let mut run = TrainingRun::new(min_accuracy);
    loop
        invariant_except_break
            run.epochs_done < EPOCHS,
        invariant
            run.min_accuracy == min_accuracy,
        ensures
            1 <= run.epochs_done <= EPOCHS,
            run.min_accuracy == min_accuracy,
            run.epochs_done < EPOCHS ==> run.correct == run.total,
        decreases EPOCHS - run.epochs_done,
    {
        let logits = net.forward(&data.train_inputs)?;
        let log_probs = match log_softmax_last(&logits) {
            Ok(t) => t,
            Err(_) => return Err(MlError::Compute),
        };
        let loss = match nll(&log_probs, &data.train_outputs) {
            Ok(t) => t,
            Err(_) => return Err(MlError::Compute),
        };
        match backward_step(sgd, &loss) {
            Ok(()) => {},
            Err(_) => return Err(MlError::Compute),
        }
        let (correct, total) = net.score(&data.test_inputs, &data.test_outputs)?;
        if !run.record(correct, total) {
            break;
        }
    }
    match run.outcome() {
        Ok(()) => Ok(run),
        Err(e) => Err(e),
    }
}

} // verus!
