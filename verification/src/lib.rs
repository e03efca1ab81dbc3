//! A pairing-based threshold identity-based encryption engine.
//!
//! A sender encrypts to a bare identity string under one master public key.
//! Decryption capability is split across independent authorities by a secret
//! polynomial: any `threshold + 1` of them can jointly issue a working
//! decryption value by Lagrange interpolation over elliptic-curve group
//! elements, while fewer learn nothing.
//!
//! Group and field arithmetic is performed by the `pairing` crate's BLS12-381
//! implementation behind a small trusted layer.  Every group element carried
//! by this library is an element of the prime-order subgroup and is modelled
//! by its discrete logarithm with respect to the fixed generator; scalars are
//! modelled by their canonical value below the group order.  All contracts
//! are stated over those models.

pub mod error;
pub mod field;
pub mod group;
pub mod hashing;
pub mod keys;
pub mod keyset;
pub mod cipher;
pub mod interp;
pub mod poly;
pub mod session;

pub use crate::cipher::Ciphertext;
pub use crate::cipher::DecryptionShare;
pub use crate::error::Error;
pub use crate::error::FromBytesError;
pub use crate::field::Scalar;
pub use crate::hashing::hash_fr;
pub use crate::hashing::hash_g1;
pub use crate::hashing::hash_g1_g2;
pub use crate::hashing::hash_g1_g2_new;
pub use crate::hashing::hash_g1_m;
pub use crate::hashing::hash_g2;
pub use crate::interp::interpolate;
pub use crate::interp::into_fr_plus_1;
pub use crate::keys::GParameter;
pub use crate::keys::PkgPublicKey;
pub use crate::keys::PkgPublicKeyShare;
pub use crate::keys::SecretKey;
pub use crate::keys::SecretKeyShare;
pub use crate::keys::PK_SIZE;
pub use crate::keyset::PkgPublicKeySet;
pub use crate::keyset::SecretKeySet;
pub use crate::poly::Commitment;
pub use crate::poly::Poly;
pub use crate::session::Receiver;
pub use crate::session::Sender;
pub use crate::session::SubPKG;
pub use crate::session::SubPKGManager;
pub use crate::session::SystemSetting;
