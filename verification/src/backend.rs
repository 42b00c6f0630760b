//! The device model and the backend capability contract.
//!
//! A backend interprets tensor elements, which the core carries as opaque
//! 32-bit words (the little-endian bit patterns of single-precision scalars),
//! and executes the numeric kernels on whatever device family it targets.
//! The core never interprets a word itself: each implementation fixes the
//! meaning of its arithmetic through the abstract `*_spec` functions of the
//! [`Backend`] trait, and every buffer kernel is required to agree with those
//! word-level functions.  The shape and dispatch logic proved in this crate
//! therefore holds for any backend that honours this contract.

use vstd::prelude::*;

verus! {

/// The device families a backend may target: the reference CPU executor, a
/// native-kernel GPU bridge, a vendor-shader GPU bridge, and a compute-shader
/// GPU bridge.
#[derive(Clone, Copy, Debug, PartialEq, Eq, Structural)]
pub enum DeviceType {
    Cpu,
    Cuda,
    Mps,
    Vulkan,
}

/// The device the default-selection policy picks, given which accelerated
/// families report an available device: the first available family in the
/// fixed priority order, and the reference CPU family when none is available.
pub open spec fn select_device_spec(cuda: bool, vulkan: bool, mps: bool) -> DeviceType {
    if cuda {
        DeviceType::Cuda
    } else if vulkan {
        DeviceType::Vulkan
    } else if mps {
        DeviceType::Mps
    } else {
        DeviceType::Cpu
    }
}

/// Picks the default device from the availability of each accelerated family,
/// probed by the caller.  Selection is total: the reference CPU family is the
/// unconditional fallback, so no combination of probe results is an error.
pub fn select_default_device(cuda_available: bool, vulkan_available: bool, mps_available: bool) -> (d:
    DeviceType)
    ensures
        d == select_device_spec(cuda_available, vulkan_available, mps_available),
{
    if cuda_available {
        DeviceType::Cuda
    } else if vulkan_available {
        DeviceType::Vulkan
    } else if mps_available {
        DeviceType::Mps
    } else {
        DeviceType::Cpu
    }
}

/// The device a tensor construction ends on, given the selected device and
/// the outcome of the construction attempts: an accelerated device that
/// constructed serves the tensor; otherwise construction falls back to the
/// reference CPU backend, and only a reference backend that itself failed to
/// construct is a fatal, surfaced error.
pub open spec fn resolve_device_spec(
    requested: DeviceType,
    accelerated_ok: bool,
    reference_ok: bool,
) -> Result<DeviceType, crate::tensor::TensorError> {
    if requested != DeviceType::Cpu && accelerated_ok {
        Ok(requested)
    } else if reference_ok {
        Ok(DeviceType::Cpu)
    } else {
        Err(crate::tensor::TensorError::InvalidBackend { backend: DeviceType::Cpu })
    }
}

/// Decides which device serves a tensor whose construction requested
/// `requested`, where `accelerated_ok` reports whether the requested
/// accelerated backend constructed and `reference_ok` whether the reference
/// backend can construct.  The caller performs the probing and construction;
/// this is the fallback policy itself.
pub fn resolve_constructed_device(
    requested: DeviceType,
    accelerated_ok: bool,
    reference_ok: bool,
) -> (r: Result<DeviceType, crate::tensor::TensorError>)
    ensures
        r == resolve_device_spec(requested, accelerated_ok, reference_ok),
{
    if requested != DeviceType::Cpu && accelerated_ok {
        Ok(requested)
    } else if reference_ok {
        Ok(DeviceType::Cpu)
    } else {
        Err(crate::tensor::TensorError::InvalidBackend { backend: DeviceType::Cpu })
    }
}

/// Construction is total whenever the reference backend is available: with
/// no accelerated device available, or with every accelerated construction
/// failing, a tensor is still served, by the reference CPU backend.
pub proof fn lemma_reference_fallback_total(requested: DeviceType, accelerated_ok: bool)
    ensures
        resolve_device_spec(requested, accelerated_ok, true) is Ok,
        !(requested != DeviceType::Cpu && accelerated_ok) ==> resolve_device_spec(
            requested,
            accelerated_ok,
            true,
        ) == Ok::<DeviceType, crate::tensor::TensorError>(DeviceType::Cpu),
{
}

/// Row `i` of an `m x k` row-major buffer.
pub open spec fn mat_row(a: Seq<u32>, i: int, k: int) -> Seq<u32> {
    a.subrange(i * k, i * k + k)
}

/// Column `j` of a `k x n` row-major buffer.
pub open spec fn mat_col(b: Seq<u32>, j: int, k: int, n: int) -> Seq<u32> {
    Seq::new(k as nat, |p: int| b[p * n + j])
}

/// The capability contract every device backend implements.
///
/// All kernels take flat row-major buffers plus explicit dimensions, never
/// mutate their inputs, and return fully materialised buffers.  The word-level
/// `*_spec` functions are deliberately abstract: each implementation computes
/// with its own floating-point path, and the contract only pins down, for the
/// proofs above it, that buffers are combined element by element (or row by
/// column, or by a whole-buffer reduction) using that implementation's fixed
/// word-level arithmetic.
///
/// Each ghost function carries an opaque default, so an implementation
/// written outside the proofs compiles without stating one; nothing verified
/// here assumes anything about an implementation's ghost functions beyond
/// what the kernel contracts relate them to.
pub trait Backend: Sized {
    /// The word an addition of two element words yields.
    closed spec fn add_spec(a: u32, b: u32) -> u32 {
        arbitrary()
    }

    /// The word a subtraction of two element words yields.
    closed spec fn sub_spec(a: u32, b: u32) -> u32 {
        arbitrary()
    }

    /// The word a multiplication of two element words yields.
    closed spec fn mul_spec(a: u32, b: u32) -> u32 {
        arbitrary()
    }

    /// The word a division of two element words yields.
    closed spec fn div_spec(a: u32, b: u32) -> u32 {
        arbitrary()
    }

    /// The word the negation of an element word yields.
    closed spec fn neg_spec(a: u32) -> u32 {
        arbitrary()
    }

    /// The word the exponential of an element word yields.
    closed spec fn exp_spec(a: u32) -> u32 {
        arbitrary()
    }

    /// The word the square root of an element word yields.
    closed spec fn sqrt_spec(a: u32) -> u32 {
        arbitrary()
    }

    /// The word the natural logarithm of an element word yields.
    closed spec fn ln_spec(a: u32) -> u32 {
        arbitrary()
    }

    /// The word raising an element word to a scalar power yields.
    closed spec fn pow_spec(a: u32, exponent: u32) -> u32 {
        arbitrary()
    }

    /// The word clamping an element word into an inclusive range yields.
    closed spec fn clamp_spec(a: u32, lo: u32, hi: u32) -> u32 {
        arbitrary()
    }

    /// The word the maximum of two element words is.
    closed spec fn max_spec(a: u32, b: u32) -> u32 {
        arbitrary()
    }

    /// The word the dot product of two equal-length vectors of element words
    /// yields, in this backend's reduction order.
    closed spec fn dot_spec(a: Seq<u32>, b: Seq<u32>) -> u32 {
        arbitrary()
    }

    /// The word the whole-buffer sum reduction yields, in this backend's
    /// reduction order.
    closed spec fn reduce_sum_spec(s: Seq<u32>) -> u32 {
        arbitrary()
    }

    /// The word the whole-buffer mean reduction yields on a non-empty buffer.
    closed spec fn mean_spec(s: Seq<u32>) -> u32 {
        arbitrary()
    }

    /// The element word that stands for an exact element count.
    closed spec fn count_spec(n: usize) -> u32 {
        arbitrary()
    }

    /// Dense matrix product of an `m x k` by a `k x n` row-major buffer.
    fn matmul(&self, a: &Vec<u32>, b: &Vec<u32>, m: usize, k: usize, n: usize) -> (r: Vec<u32>)
        requires
            a@.len() == m * k,
            b@.len() == k * n,
            m * n <= usize::MAX,
        ensures
            r@.len() == m * n,
            forall|i: int, j: int|
                #![trigger mat_row(a@, i, k as int), mat_col(b@, j, k as int, n as int)]
                0 <= i < m && 0 <= j < n ==> r@[i * (n as int) + j] == Self::dot_spec(
                    mat_row(a@, i, k as int),
                    mat_col(b@, j, k as int, n as int),
                ),
    ;

    /// Elementwise addition of equal-length buffers.
    fn add(&self, a: &Vec<u32>, b: &Vec<u32>) -> (r: Vec<u32>)
        requires
            a@.len() == b@.len(),
        ensures
            r@.len() == a@.len(),
            forall|i: int| 0 <= i < a@.len() ==> #[trigger] r@[i] == Self::add_spec(a@[i], b@[i]),
    ;

    /// Elementwise subtraction of equal-length buffers.
    fn sub(&self, a: &Vec<u32>, b: &Vec<u32>) -> (r: Vec<u32>)
        requires
            a@.len() == b@.len(),
        ensures
            r@.len() == a@.len(),
            forall|i: int| 0 <= i < a@.len() ==> #[trigger] r@[i] == Self::sub_spec(a@[i], b@[i]),
    ;

    /// Elementwise multiplication of equal-length buffers.
    fn multiply(&self, a: &Vec<u32>, b: &Vec<u32>) -> (r: Vec<u32>)
        requires
            a@.len() == b@.len(),
        ensures
            r@.len() == a@.len(),
            forall|i: int| 0 <= i < a@.len() ==> #[trigger] r@[i] == Self::mul_spec(a@[i], b@[i]),
    ;

    /// Elementwise division of equal-length buffers.
    fn div(&self, a: &Vec<u32>, b: &Vec<u32>) -> (r: Vec<u32>)
        requires
            a@.len() == b@.len(),
        ensures
            r@.len() == a@.len(),
            forall|i: int| 0 <= i < a@.len() ==> #[trigger] r@[i] == Self::div_spec(a@[i], b@[i]),
    ;

    /// Whole-buffer sum reduction.
    fn sum(&self, a: &Vec<u32>) -> (r: u32)
        ensures
            r == Self::reduce_sum_spec(a@),
    ;

    /// Whole-buffer mean reduction; the contract demands a non-empty buffer,
    /// since a mean of nothing has no defined word.
    fn mean(&self, a: &Vec<u32>) -> (r: u32)
        requires
            a@.len() > 0,
        ensures
            r == Self::mean_spec(a@),
    ;

    /// Elementwise exponential.
    fn exp(&self, a: &Vec<u32>) -> (r: Vec<u32>)
        ensures
            r@.len() == a@.len(),
            forall|i: int| 0 <= i < a@.len() ==> #[trigger] r@[i] == Self::exp_spec(a@[i]),
    ;

    /// Elementwise square root.
    fn sqrt(&self, a: &Vec<u32>) -> (r: Vec<u32>)
        ensures
            r@.len() == a@.len(),
            forall|i: int| 0 <= i < a@.len() ==> #[trigger] r@[i] == Self::sqrt_spec(a@[i]),
    ;

    /// Elementwise exponentiation by a scalar power word.
    fn pow(&self, a: &Vec<u32>, exponent: u32) -> (r: Vec<u32>)
        ensures
            r@.len() == a@.len(),
            forall|i: int|
                0 <= i < a@.len() ==> #[trigger] r@[i] == Self::pow_spec(a@[i], exponent),
    ;

    /// Addition of two single element words.
    fn scalar_add(&self, a: u32, b: u32) -> (r: u32)
        ensures
            r == Self::add_spec(a, b),
    ;

    /// Subtraction of two single element words.
    fn scalar_sub(&self, a: u32, b: u32) -> (r: u32)
        ensures
            r == Self::sub_spec(a, b),
    ;

    /// Multiplication of two single element words.
    fn scalar_mul(&self, a: u32, b: u32) -> (r: u32)
        ensures
            r == Self::mul_spec(a, b),
    ;

    /// Division of two single element words.
    fn scalar_div(&self, a: u32, b: u32) -> (r: u32)
        ensures
            r == Self::div_spec(a, b),
    ;

    /// Negation of a single element word.
    fn scalar_neg(&self, a: u32) -> (r: u32)
        ensures
            r == Self::neg_spec(a),
    ;

    /// Natural logarithm of a single element word.
    fn scalar_ln(&self, a: u32) -> (r: u32)
        ensures
            r == Self::ln_spec(a),
    ;

    /// Inclusive clamp of a single element word.
    fn scalar_clamp(&self, a: u32, lo: u32, hi: u32) -> (r: u32)
        ensures
            r == Self::clamp_spec(a, lo, hi),
    ;

    /// Maximum of two single element words.
    fn scalar_max(&self, a: u32, b: u32) -> (r: u32)
        ensures
            r == Self::max_spec(a, b),
    ;

    /// The element word standing for an exact count, used when a local
    /// reduction divides by the number of elements.
    fn scalar_from_count(&self, n: usize) -> (r: u32)
        ensures
            r == Self::count_spec(n),
    ;
}

} // verus!
