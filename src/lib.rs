//! Obfuscation of string literals: a repeating-key XOR cipher over a
//! keystream with a fixed index-advance policy, a carrier form of the
//! secret key, and the encode / decode pair that must agree byte for byte.

pub mod keystream;
pub mod cipher;
pub mod carrier;
pub mod session;
pub mod codec;
pub mod tokens;
