//! Numeric kernels for measuring call overhead and raw throughput: a trivial
//! addition probe, byte masking and modular polynomial addition, the latter
//! two in scalar, word-parallel and lane-parallel forms.

pub mod lanes;
pub mod mask;
pub mod modadd;
pub mod probe;
pub mod words;
