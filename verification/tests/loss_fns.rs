//! Loss functions exercised against a reference CPU backend.

use std::sync::Arc;

use minitensor::backend::Backend;
use minitensor::loss::{calculate_binary_cross_entropy_loss, calculate_cross_entropy_loss,
    calculate_mse_loss, LossError, MlError};
use minitensor::tensor::Tensor;

struct CpuBackend;

impl Backend for CpuBackend {
    fn matmul(&self, a: &Vec<u32>, b: &Vec<u32>, m: usize, k: usize, n: usize) -> Vec<u32> {
        let mut out = Vec::new();
        for i in 0..m {
            for j in 0..n {
                let mut acc = 0.0f32;
                for p in 0..k {
                    acc += f32::from_bits(a[i * k + p]) * f32::from_bits(b[p * n + j]);
                }
                out.push(acc.to_bits());
            }
        }
        out
    }

    fn add(&self, a: &Vec<u32>, b: &Vec<u32>) -> Vec<u32> {
        let mut out = Vec::new();
        for i in 0..a.len() {
            out.push((f32::from_bits(a[i]) + f32::from_bits(b[i])).to_bits());
        }
        out
    }

    fn sub(&self, a: &Vec<u32>, b: &Vec<u32>) -> Vec<u32> {
        let mut out = Vec::new();
        for i in 0..a.len() {
            out.push((f32::from_bits(a[i]) - f32::from_bits(b[i])).to_bits());
        }
        out
    }

    fn multiply(&self, a: &Vec<u32>, b: &Vec<u32>) -> Vec<u32> {
        let mut out = Vec::new();
        for i in 0..a.len() {
            out.push((f32::from_bits(a[i]) * f32::from_bits(b[i])).to_bits());
        }
        out
    }

    fn div(&self, a: &Vec<u32>, b: &Vec<u32>) -> Vec<u32> {
        let mut out = Vec::new();
        for i in 0..a.len() {
            out.push((f32::from_bits(a[i]) / f32::from_bits(b[i])).to_bits());
        }
        out
    }

    fn sum(&self, a: &Vec<u32>) -> u32 {
        let mut acc = 0.0f32;
        for i in 0..a.len() {
            acc += f32::from_bits(a[i]);
        }
        acc.to_bits()
    }

    fn mean(&self, a: &Vec<u32>) -> u32 {
        let mut acc = 0.0f32;
        for i in 0..a.len() {
            acc += f32::from_bits(a[i]);
        }
        (acc / a.len() as f32).to_bits()
    }

    fn exp(&self, a: &Vec<u32>) -> Vec<u32> {
        let mut out = Vec::new();
        for i in 0..a.len() {
            out.push(f32::from_bits(a[i]).exp().to_bits());
        }
        out
    }

    fn sqrt(&self, a: &Vec<u32>) -> Vec<u32> {
        let mut out = Vec::new();
        for i in 0..a.len() {
            out.push(f32::from_bits(a[i]).sqrt().to_bits());
        }
        out
    }

    fn pow(&self, a: &Vec<u32>, exponent: u32) -> Vec<u32> {
        let mut out = Vec::new();
        for i in 0..a.len() {
            out.push(f32::from_bits(a[i]).powf(f32::from_bits(exponent)).to_bits());
        }
        out
    }

    fn scalar_add(&self, a: u32, b: u32) -> u32 {
        (f32::from_bits(a) + f32::from_bits(b)).to_bits()
    }

    fn scalar_sub(&self, a: u32, b: u32) -> u32 {
        (f32::from_bits(a) - f32::from_bits(b)).to_bits()
    }

    fn scalar_mul(&self, a: u32, b: u32) -> u32 {
        (f32::from_bits(a) * f32::from_bits(b)).to_bits()
    }

    fn scalar_div(&self, a: u32, b: u32) -> u32 {
        (f32::from_bits(a) / f32::from_bits(b)).to_bits()
    }

    fn scalar_neg(&self, a: u32) -> u32 {
        (-f32::from_bits(a)).to_bits()
    }

    fn scalar_ln(&self, a: u32) -> u32 {
        f32::from_bits(a).ln().to_bits()
    }

    fn scalar_clamp(&self, a: u32, lo: u32, hi: u32) -> u32 {
        f32::from_bits(a).clamp(f32::from_bits(lo), f32::from_bits(hi)).to_bits()
    }

    fn scalar_max(&self, a: u32, b: u32) -> u32 {
        f32::from_bits(a).max(f32::from_bits(b)).to_bits()
    }

    fn scalar_from_count(&self, n: usize) -> u32 {
        (n as f32).to_bits()
    }
}

fn cpu() -> Arc<CpuBackend> {
    Arc::new(CpuBackend)
}

fn bits(vals: &[f32]) -> Vec<u32> {
    let mut out = Vec::new();
    for &x in vals {
        out.push(x.to_bits());
    }
    out
}

fn matrix(rows: &[&[f32]]) -> Tensor<CpuBackend> {
    let mut data = Vec::new();
    for &row in rows {
        data.push(bits(row));
    }
    Tensor::new(data, cpu()).unwrap()
}

#[test]
fn test_mse_perfect_prediction() {
    let predictions = matrix(&[&[1.0, 0.0, 1.0]]);
    let targets = matrix(&[&[1.0, 0.0, 1.0]]);

    let loss = f32::from_bits(calculate_mse_loss(&predictions, &targets).unwrap());
    assert!((loss - 0.0).abs() < 1e-5);
}

#[test]
fn test_mse_worst_prediction() {
    let predictions = matrix(&[&[1.0, 1.0]]);
    let targets = matrix(&[&[0.0, 0.0]]);

    let loss = f32::from_bits(calculate_mse_loss(&predictions, &targets).unwrap());
    assert!((loss - 1.0).abs() < 1e-5);
}

#[test]
fn test_mse_partial_error() {
    let predictions = matrix(&[&[0.5, 0.5]]);
    let targets = matrix(&[&[1.0, 0.0]]);

    let loss = f32::from_bits(calculate_mse_loss(&predictions, &targets).unwrap());
    assert!((loss - 0.25).abs() < 1e-5);
}

#[test]
fn test_mse_invalid_shapes() {
    let predictions = matrix(&[&[1.0, 0.0]]);
    let targets = matrix(&[&[1.0]]);

    let result = calculate_mse_loss(&predictions, &targets);
    assert!(result.is_err());
}

#[test]
fn test_cross_entropy_perfect_prediction() {
    let predictions = matrix(&[&[0.9999, 0.0001]]);
    let targets = matrix(&[&[1.0, 0.0]]);

    let loss = f32::from_bits(calculate_cross_entropy_loss(&predictions, &targets).unwrap());
    assert!((loss - 0.0).abs() < 1e-3);
}

#[test]
fn test_cross_entropy_worst_prediction() {
    let predictions = matrix(&[&[0.0001, 0.9999]]);
    let targets = matrix(&[&[1.0, 0.0]]);

    let loss = f32::from_bits(calculate_cross_entropy_loss(&predictions, &targets).unwrap());
    assert!(loss > 5.0);
}

#[test]
fn test_cross_entropy_uncertain_prediction() {
    let predictions = matrix(&[&[0.5, 0.5]]);
    let targets = matrix(&[&[1.0, 0.0]]);

    let loss = f32::from_bits(calculate_cross_entropy_loss(&predictions, &targets).unwrap());
    assert!((loss - 0.693).abs() < 1e-3);
}

#[test]
fn test_binary_cross_entropy_perfect_prediction() {
    let predictions = matrix(&[&[0.9999, 0.0001]]);
    let targets = matrix(&[&[1.0, 0.0]]);

    let loss =
        f32::from_bits(calculate_binary_cross_entropy_loss(&predictions, &targets).unwrap());
    assert!((loss - 0.0).abs() < 1e-3);
}

#[test]
fn test_binary_cross_entropy_worst_prediction() {
    let predictions = matrix(&[&[0.0, 1.0]]);
    let targets = matrix(&[&[1.0, 0.0]]);

    let loss =
        f32::from_bits(calculate_binary_cross_entropy_loss(&predictions, &targets).unwrap());
    assert!(loss > 10.0);
}

#[test]
fn test_binary_cross_entropy_uncertain_prediction() {
    let predictions = matrix(&[&[0.5, 0.5]]);
    let targets = matrix(&[&[1.0, 0.0]]);

    let loss =
        f32::from_bits(calculate_binary_cross_entropy_loss(&predictions, &targets).unwrap());
    assert!((loss - 0.693).abs() < 1e-3);
}

#[test]
fn test_binary_cross_entropy_invalid_shapes() {
    let predictions = matrix(&[&[1.0, 0.0]]);
    let targets = matrix(&[&[1.0]]);

    let result = calculate_binary_cross_entropy_loss(&predictions, &targets);
    assert!(result.is_err());
}

#[test]
fn test_binary_cross_entropy_batch() {
    let predictions = matrix(&[&[0.9, 0.1], &[0.1, 0.9]]);
    let targets = matrix(&[&[1.0, 0.0], &[0.0, 1.0]]);

    let loss =
        f32::from_bits(calculate_binary_cross_entropy_loss(&predictions, &targets).unwrap());
    assert!(loss > 0.0 && loss < 0.5);
}

#[test]
fn test_mse_shape_error_carries_shapes() {
    let predictions = matrix(&[&[1.0, 0.0]]);
    let targets = matrix(&[&[1.0]]);

    match calculate_mse_loss(&predictions, &targets) {
        Err(MlError::LossError(LossError::InvalidShape { expected, got })) => {
            assert_eq!(expected, vec![1, 2]);
            assert_eq!(got, vec![1, 1]);
        }
        _ => panic!("expected a loss shape error"),
    }
}

#[test]
fn test_cross_entropy_shape_error_is_tensor_error() {
    let predictions = matrix(&[&[0.5, 0.5]]);
    let targets = matrix(&[&[1.0]]);

    let result = calculate_cross_entropy_loss(&predictions, &targets);
    assert!(matches!(result, Err(MlError::TensorError(_))));
}
