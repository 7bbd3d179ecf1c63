use vstd::prelude::*;

verus! {

/// The error vocabulary of the mesh core.
///
/// `Serialization` covers malformed persisted data, malformed wire data and
/// malformed invitations; `Cryptography` covers every failure reported by the
/// cryptographic engine (handshake failure, decryption failure, corrupt key
/// material); the two not-found variants name the missing record.
#[derive(Debug)]
pub enum MeshError {
    Serialization,
    Cryptography,
    DeviceNotFound(u128),
    SessionNotFound(u128, u128),
}

pub type MeshResult<T> = Result<T, MeshError>;

} // verus!
