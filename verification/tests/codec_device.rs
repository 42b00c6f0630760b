//! The byte encoding and the device-selection policy.

use std::sync::Arc;

use minitensor::backend::{resolve_constructed_device, select_default_device, Backend, DeviceType};
use minitensor::tensor::{Tensor, TensorError};

struct CpuBackend;

impl Backend for CpuBackend {
    fn matmul(&self, a: &Vec<u32>, b: &Vec<u32>, m: usize, k: usize, n: usize) -> Vec<u32> {
        let mut out = Vec::new();
        for i in 0..m {
            for j in 0..n {
                let mut acc = 0.0f32;
                for p in 0..k {
                    acc += f32::from_bits(a[i * k + p]) * f32::from_bits(b[p * n + j]);
                }
                out.push(acc.to_bits());
            }
        }
        out
    }

    fn add(&self, a: &Vec<u32>, b: &Vec<u32>) -> Vec<u32> {
        let mut out = Vec::new();
        for i in 0..a.len() {
            out.push((f32::from_bits(a[i]) + f32::from_bits(b[i])).to_bits());
        }
        out
    }

    fn sub(&self, a: &Vec<u32>, b: &Vec<u32>) -> Vec<u32> {
        let mut out = Vec::new();
        for i in 0..a.len() {
            out.push((f32::from_bits(a[i]) - f32::from_bits(b[i])).to_bits());
        }
        out
    }

    fn multiply(&self, a: &Vec<u32>, b: &Vec<u32>) -> Vec<u32> {
        let mut out = Vec::new();
        for i in 0..a.len() {
            out.push((f32::from_bits(a[i]) * f32::from_bits(b[i])).to_bits());
        }
        out
    }

    fn div(&self, a: &Vec<u32>, b: &Vec<u32>) -> Vec<u32> {
        let mut out = Vec::new();
        for i in 0..a.len() {
            out.push((f32::from_bits(a[i]) / f32::from_bits(b[i])).to_bits());
        }
        out
    }

    fn sum(&self, a: &Vec<u32>) -> u32 {
        let mut acc = 0.0f32;
        for i in 0..a.len() {
            acc += f32::from_bits(a[i]);
        }
        acc.to_bits()
    }

    fn mean(&self, a: &Vec<u32>) -> u32 {
        let mut acc = 0.0f32;
        for i in 0..a.len() {
            acc += f32::from_bits(a[i]);
        }
        (acc / a.len() as f32).to_bits()
    }

    fn exp(&self, a: &Vec<u32>) -> Vec<u32> {
        let mut out = Vec::new();
        for i in 0..a.len() {
            out.push(f32::from_bits(a[i]).exp().to_bits());
        }
        out
    }

    fn sqrt(&self, a: &Vec<u32>) -> Vec<u32> {
        let mut out = Vec::new();
        for i in 0..a.len() {
            out.push(f32::from_bits(a[i]).sqrt().to_bits());
        }
        out
    }

    fn pow(&self, a: &Vec<u32>, exponent: u32) -> Vec<u32> {
        let mut out = Vec::new();
        for i in 0..a.len() {
            out.push(f32::from_bits(a[i]).powf(f32::from_bits(exponent)).to_bits());
        }
        out
    }

    fn scalar_add(&self, a: u32, b: u32) -> u32 {
        (f32::from_bits(a) + f32::from_bits(b)).to_bits()
    }

    fn scalar_sub(&self, a: u32, b: u32) -> u32 {
        (f32::from_bits(a) - f32::from_bits(b)).to_bits()
    }

    fn scalar_mul(&self, a: u32, b: u32) -> u32 {
        (f32::from_bits(a) * f32::from_bits(b)).to_bits()
    }

    fn scalar_div(&self, a: u32, b: u32) -> u32 {
        (f32::from_bits(a) / f32::from_bits(b)).to_bits()
    }

    fn scalar_neg(&self, a: u32) -> u32 {
        (-f32::from_bits(a)).to_bits()
    }

    fn scalar_ln(&self, a: u32) -> u32 {
        f32::from_bits(a).ln().to_bits()
    }

    fn scalar_clamp(&self, a: u32, lo: u32, hi: u32) -> u32 {
        f32::from_bits(a).clamp(f32::from_bits(lo), f32::from_bits(hi)).to_bits()
    }

    fn scalar_max(&self, a: u32, b: u32) -> u32 {
        f32::from_bits(a).max(f32::from_bits(b)).to_bits()
    }

    fn scalar_from_count(&self, n: usize) -> u32 {
        (n as f32).to_bits()
    }
}

fn cpu() -> Arc<CpuBackend> {
    Arc::new(CpuBackend)
}

fn bits(vals: &[f32]) -> Vec<u32> {
    let mut out = Vec::new();
    for &x in vals {
        out.push(x.to_bits());
    }
    out
}

#[test]
fn test_serialize_layout() {
    let t = Tensor::from_vec(bits(&[1.0, 2.0]), &[1, 2], cpu()).unwrap();
    let bytes = t.serialize();
    let mut expected: Vec<u8> = Vec::new();
    expected.extend_from_slice(&2u32.to_le_bytes());
    expected.extend_from_slice(&1u32.to_le_bytes());
    expected.extend_from_slice(&2u32.to_le_bytes());
    expected.extend_from_slice(&1.0f32.to_le_bytes());
    expected.extend_from_slice(&2.0f32.to_le_bytes());
    assert_eq!(bytes, expected);
}

#[test]
fn test_serialize_deserialize_roundtrip() {
    let t = Tensor::from_vec(bits(&[1.5, -2.25, 3.0, 0.0, 7.125, -0.5]), &[2, 3], cpu()).unwrap();
    let bytes = t.serialize();
    let back = Tensor::<CpuBackend>::deserialize(&bytes, cpu()).unwrap();
    assert_eq!(back.shape(), t.shape());
    assert_eq!(back.data(), t.data());
}

#[test]
fn test_roundtrip_scalar_shape() {
    let t = Tensor::from_vec(bits(&[42.0]), &[1], cpu()).unwrap();
    let bytes = t.serialize();
    let back = Tensor::<CpuBackend>::deserialize(&bytes, cpu()).unwrap();
    assert_eq!(back.shape(), &[1][..]);
    assert_eq!(f32::from_bits(back.data()[0]), 42.0);
}

#[test]
fn test_deserialize_ignores_trailing_bytes() {
    let t = Tensor::from_vec(bits(&[1.0, 2.0]), &[2], cpu()).unwrap();
    let mut bytes = t.serialize();
    bytes.push(0xAB);
    bytes.push(0xCD);
    let back = Tensor::<CpuBackend>::deserialize(&bytes, cpu()).unwrap();
    assert_eq!(back.shape(), &[2][..]);
    assert_eq!(back.data(), t.data());
}

#[test]
fn test_deserialize_too_short() {
    let r = Tensor::<CpuBackend>::deserialize(&[1, 2, 3], cpu());
    assert!(matches!(r, Err(TensorError::InvalidOperation { op: "deserialize", .. })));
}

#[test]
fn test_deserialize_truncated_header() {
    let mut bytes: Vec<u8> = Vec::new();
    bytes.extend_from_slice(&3u32.to_le_bytes());
    bytes.extend_from_slice(&2u32.to_le_bytes());
    let r = Tensor::<CpuBackend>::deserialize(&bytes, cpu());
    assert!(matches!(r, Err(TensorError::InvalidOperation { op: "deserialize", .. })));
}

#[test]
fn test_deserialize_length_mismatch() {
    let mut bytes: Vec<u8> = Vec::new();
    bytes.extend_from_slice(&1u32.to_le_bytes());
    bytes.extend_from_slice(&3u32.to_le_bytes());
    bytes.extend_from_slice(&1.0f32.to_le_bytes());
    let r = Tensor::<CpuBackend>::deserialize(&bytes, cpu());
    match r {
        Err(TensorError::InvalidDataLength { expected, got }) => {
            assert_eq!(expected, 3);
            assert_eq!(got, 1);
        }
        _ => panic!("expected a data-length error"),
    }
}

#[test]
fn test_device_selection_priority() {
    assert_eq!(select_default_device(true, true, true), DeviceType::Cuda);
    assert_eq!(select_default_device(false, true, true), DeviceType::Vulkan);
    assert_eq!(select_default_device(false, false, true), DeviceType::Mps);
    assert_eq!(select_default_device(false, false, false), DeviceType::Cpu);
}

#[test]
fn test_fallback_to_reference_device() {
    assert!(matches!(
        resolve_constructed_device(DeviceType::Cuda, true, true),
        Ok(DeviceType::Cuda)
    ));
    assert!(matches!(
        resolve_constructed_device(DeviceType::Cuda, false, true),
        Ok(DeviceType::Cpu)
    ));
    assert!(matches!(
        resolve_constructed_device(DeviceType::Cpu, false, true),
        Ok(DeviceType::Cpu)
    ));
    let fatal = resolve_constructed_device(DeviceType::Vulkan, false, false);
    assert!(matches!(
        fatal,
        Err(TensorError::InvalidBackend { backend: DeviceType::Cpu })
    ));
}

#[test]
fn test_construction_succeeds_without_accelerators() {
    let chosen = select_default_device(false, false, false);
    assert_eq!(chosen, DeviceType::Cpu);
    let t = Tensor::new(vec![bits(&[1.0, 2.0])], cpu());
    assert!(t.is_ok());
}
