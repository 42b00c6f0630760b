//! Loss functions built on the tensor operations.
//!
//! Each loss is a straight-line composition of shape-checked tensor
//! operations, so its contract states the exact word the backend's
//! arithmetic produces for it, element by element, and exactly which inputs
//! are rejected.

use vstd::prelude::*;

use crate::backend::Backend;
use crate::shape::dims_equal;
use crate::tensor::{Tensor, TensorError, ONE_WORD, ZERO_WORD};

verus! {

/// The element word of the tiny positive constant predictions are clipped
/// away from zero with, so no logarithm sees an exact zero.
pub const EPSILON_WORD: u32 = 0x2690_1D7D;

/// A shape violation detected by a loss function before any tensor work.
#[derive(Debug, Clone)]
pub enum LossError {
    InvalidShape { expected: Vec<usize>, got: Vec<usize> },
    InvalidOperation { op: &'static str, reason: String },
}

/// The error a loss computation surfaces: either its own shape check, or a
/// violation raised by one of the tensor operations it composes.
#[derive(Debug, Clone)]
pub enum MlError {
    TensorError(TensorError),
    LossError(LossError),
}

/// The word of `1 - x` as the engine computes it: negate, then add one.
pub open spec fn one_minus<B: Backend>(x: u32) -> u32 {
    B::add_spec(B::neg_spec(x), ONE_WORD)
}

/// A prediction clipped into the unit interval, away from an exact zero.
/// The upper bound is the word of one itself: one minus the tiny epsilon
/// rounds back to one in single precision.
pub open spec fn clipped<B: Backend>(p: u32) -> u32 {
    B::clamp_spec(p, EPSILON_WORD, ONE_WORD)
}

/// The per-element cross-entropy term `y * ln(p) + (1 - y) * ln(1 - p)`,
/// computed on the clipped prediction.
pub open spec fn entropy_term<B: Backend>(p: u32, y: u32) -> u32 {
    B::add_spec(
        B::mul_spec(y, B::ln_spec(clipped::<B>(p))),
        B::mul_spec(one_minus::<B>(y), B::ln_spec(one_minus::<B>(clipped::<B>(p)))),
    )
}

/// The running sum of squared elements of a difference buffer, folded left
/// to right from the zero word.
pub open spec fn sq_sum<B: Backend>(d: Seq<u32>, count: int) -> u32
    decreases count,
{
    if count <= 0 {
        ZERO_WORD
    } else {
        B::add_spec(sq_sum::<B>(d, count - 1), B::mul_spec(d[count - 1], d[count - 1]))
    }
}

/// Mean squared error: the squared elementwise difference summed and divided
/// by the element count.  Operands of different shapes are rejected.
pub fn calculate_mse_loss<B: Backend>(predictions: &Tensor<B>, labels: &Tensor<B>) -> (r: Result<
    u32,
    MlError,
>)
    requires
        predictions.wf(),
        labels.wf(),
    ensures
        ({
            let p = predictions.spec_data();
            let l = labels.spec_data();
            let diff = Seq::new(p.len(), |i: int| B::sub_spec(p[i], l[i]));
            &&& predictions.spec_shape() != labels.spec_shape() ==> (r matches Err(
                MlError::LossError(LossError::InvalidShape { expected, got }),
            ) && expected@ == predictions.spec_shape() && got@ == labels.spec_shape())
            &&& predictions.spec_shape() == labels.spec_shape() ==> (r matches Ok(v) && v
                == B::div_spec(sq_sum::<B>(diff, p.len() as int), B::count_spec(p.len() as usize)))
        }),
{
    if !dims_equal(predictions.shape(), labels.shape()) {
        return Err(MlError::LossError(LossError::InvalidShape {
            expected: vstd::slice::slice_to_vec(predictions.shape()),
            got: vstd::slice::slice_to_vec(labels.shape()),
        }));
    }
    let diff = match predictions.sub(labels) {
        Ok(t) => t,
        Err(e) => {
            return Err(MlError::TensorError(e));
        },
    };
    let ghost diff_seq = Seq::new(
        predictions.spec_data().len(),
        |i: int| B::sub_spec(predictions.spec_data()[i], labels.spec_data()[i]),
    );
    proof {
        assert(diff.spec_data() =~= diff_seq);
    }
    let d = diff.data();
    let len = d.len();
    let mut acc: u32 = ZERO_WORD;
    let mut i: usize = 0;
    while i < len
        invariant
            d@ == diff_seq,
            len == d@.len(),
            0 <= i <= len,
            acc == sq_sum::<B>(diff_seq, i as int),
        decreases len - i,
    {
        let sq = predictions.backend().scalar_mul(d[i], d[i]);
        acc = predictions.backend().scalar_add(acc, sq);
        i += 1;
    }
    let count = predictions.backend().scalar_from_count(len);
    Ok(predictions.backend().scalar_div(acc, count))
}

/// Cross-entropy loss: the mean of the negated per-element entropy terms of
/// the clipped predictions against the targets.  A target tensor of another
/// shape is rejected by the elementwise multiplication it feeds, and an
/// empty prediction has no mean and is rejected.
pub fn calculate_cross_entropy_loss<B: Backend>(
    predictions: &Tensor<B>,
    targets: &Tensor<B>,
) -> (r: Result<u32, MlError>)
    requires
        predictions.wf(),
        targets.wf(),
    ensures
        ({
            let p = predictions.spec_data();
            let y = targets.spec_data();
            &&& targets.spec_shape() != predictions.spec_shape() ==> (r matches Err(
                MlError::TensorError(TensorError::InvalidShape { expected, got }),
            ) && expected@ == targets.spec_shape() && got@ == predictions.spec_shape())
            &&& targets.spec_shape() == predictions.spec_shape() && p.len() == 0 ==> (r matches Err(
                MlError::TensorError(TensorError::InvalidOperation { op, reason }),
            ) && op@ == "mean"@ && reason@ == "Cannot compute mean of empty tensor"@)
            &&& targets.spec_shape() == predictions.spec_shape() && p.len() > 0 ==> (r matches Ok(v)
                && v == B::mean_spec(
                Seq::new(p.len(), |i: int| B::neg_spec(entropy_term::<B>(p[i], y[i]))),
            ))
        }),
{
    let clipped_preds = match predictions.clip(EPSILON_WORD, ONE_WORD) {
        Ok(t) => t,
        Err(e) => {
            return Err(MlError::TensorError(e));
        },
    };
    let log_probs = match clipped_preds.log() {
        Ok(t) => t,
        Err(e) => {
            return Err(MlError::TensorError(e));
        },
    };
    let neg_clipped = match clipped_preds.neg() {
        Ok(t) => t,
        Err(e) => {
            return Err(MlError::TensorError(e));
        },
    };
    let one_minus_preds = match neg_clipped.add_scalar(ONE_WORD) {
        Ok(t) => t,
        Err(e) => {
            return Err(MlError::TensorError(e));
        },
    };
    let log_neg_probs = match one_minus_preds.log() {
        Ok(t) => t,
        Err(e) => {
            return Err(MlError::TensorError(e));
        },
    };
    let term1 = match targets.mul(&log_probs) {
        Ok(t) => t,
        Err(e) => {
            return Err(MlError::TensorError(e));
        },
    };
    let neg_targets = match targets.neg() {
        Ok(t) => t,
        Err(e) => {
            return Err(MlError::TensorError(e));
        },
    };
    let one_minus_targets = match neg_targets.add_scalar(ONE_WORD) {
        Ok(t) => t,
        Err(e) => {
            return Err(MlError::TensorError(e));
        },
    };
    let term2 = match one_minus_targets.mul(&log_neg_probs) {
        Ok(t) => t,
        Err(e) => {
            return Err(MlError::TensorError(e));
        },
    };
    let losses = match term1.add(&term2) {
        Ok(t) => t,
        Err(e) => {
            return Err(MlError::TensorError(e));
        },
    };
    let neg_losses = match losses.neg() {
        Ok(t) => t,
        Err(e) => {
            return Err(MlError::TensorError(e));
        },
    };
    proof {
        let p = predictions.spec_data();
        let y = targets.spec_data();
        assert(neg_losses.spec_data() =~= Seq::new(
            p.len(),
            |i: int| B::neg_spec(entropy_term::<B>(p[i], y[i])),
        ));
    }
    match neg_losses.mean() {
        Ok(v) => Ok(v),
        Err(e) => Err(MlError::TensorError(e)),
    }
}

/// Binary cross-entropy loss: the negated mean of the per-element entropy
/// terms.  Operands of different shapes are rejected up front, and an empty
/// prediction has no mean and is rejected.
pub fn calculate_binary_cross_entropy_loss<B: Backend>(
    predictions: &Tensor<B>,
    targets: &Tensor<B>,
) -> (r: Result<u32, MlError>)
    requires
        predictions.wf(),
        targets.wf(),
    ensures
        ({
            let p = predictions.spec_data();
            let y = targets.spec_data();
            &&& predictions.spec_shape() != targets.spec_shape() ==> (r matches Err(
                MlError::LossError(LossError::InvalidShape { expected, got }),
            ) && expected@ == predictions.spec_shape() && got@ == targets.spec_shape())
            &&& predictions.spec_shape() == targets.spec_shape() && p.len() == 0 ==> (r matches Err(
                MlError::TensorError(TensorError::InvalidOperation { op, reason }),
            ) && op@ == "mean"@ && reason@ == "Cannot compute mean of empty tensor"@)
            &&& predictions.spec_shape() == targets.spec_shape() && p.len() > 0 ==> (r matches Ok(v)
                && v == B::neg_spec(
                B::mean_spec(Seq::new(p.len(), |i: int| entropy_term::<B>(p[i], y[i]))),
            ))
        }),
{
    if !dims_equal(predictions.shape(), targets.shape()) {
        return Err(MlError::LossError(LossError::InvalidShape {
            expected: vstd::slice::slice_to_vec(predictions.shape()),
            got: vstd::slice::slice_to_vec(targets.shape()),
        }));
    }
    let clipped_preds = match predictions.clip(EPSILON_WORD, ONE_WORD) {
        Ok(t) => t,
        Err(e) => {
            return Err(MlError::TensorError(e));
        },
    };
    let log_probs = match clipped_preds.log() {
        Ok(t) => t,
        Err(e) => {
            return Err(MlError::TensorError(e));
        },
    };
    let neg_clipped = match clipped_preds.neg() {
        Ok(t) => t,
        Err(e) => {
            return Err(MlError::TensorError(e));
        },
    };
    let one_minus_preds = match neg_clipped.add_scalar(ONE_WORD) {
        Ok(t) => t,
        Err(e) => {
            return Err(MlError::TensorError(e));
        },
    };
    let log_neg_probs = match one_minus_preds.log() {
        Ok(t) => t,
        Err(e) => {
            return Err(MlError::TensorError(e));
        },
    };
    let neg_targets = match targets.neg() {
        Ok(t) => t,
        Err(e) => {
            return Err(MlError::TensorError(e));
        },
    };
    let one_minus_targets = match neg_targets.add_scalar(ONE_WORD) {
        Ok(t) => t,
        Err(e) => {
            return Err(MlError::TensorError(e));
        },
    };
    let term1 = match targets.mul(&log_probs) {
        Ok(t) => t,
        Err(e) => {
            return Err(MlError::TensorError(e));
        },
    };
    let term2 = match one_minus_targets.mul(&log_neg_probs) {
        Ok(t) => t,
        Err(e) => {
            return Err(MlError::TensorError(e));
        },
    };
    let summed = match term1.add(&term2) {
        Ok(t) => t,
        Err(e) => {
            return Err(MlError::TensorError(e));
        },
    };
    proof {
        let p = predictions.spec_data();
        let y = targets.spec_data();
        assert(summed.spec_data() =~= Seq::new(
            p.len(),
            |i: int| entropy_term::<B>(p[i], y[i]),
        ));
    }
    let mean_loss = match summed.mean() {
        Ok(v) => v,
        Err(e) => {
            return Err(MlError::TensorError(e));
        },
    };
    Ok(predictions.backend().scalar_neg(mean_loss))
}

} // verus!
