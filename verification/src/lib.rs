//! A dense-tensor computation core with a pluggable numeric backend.
//!
//! Tensors own a flat row-major buffer of 32-bit scalar words together with a
//! shape vector, and delegate all numeric interpretation of those words to a
//! shared [`backend::Backend`] handle chosen once, at construction time.  The
//! shape, broadcast and validation rules that guard every operation are stated
//! as contracts and proved; the per-word arithmetic of each device family is
//! specified abstractly by the backend capability contract.

pub mod backend;
pub mod codec;
pub mod loss;
pub mod shape;
pub mod tensor;
