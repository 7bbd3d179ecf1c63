use vstd::prelude::*;
use crate::errors::MeshError;
use crate::invitation::quote_free;
use vodozemac::olm::Session as OlmSession;

verus! {

// The cryptographic engine is an external collaborator: its account, session,
// key and message types are opaque values that the core only carries around,
// pickles and unpickles. Every call into it goes through one of the wrappers
// below, and nothing is promised of what the engine computes: the core's
// contracts state what holds whatever the engine returns.

#[verifier::external_type_specification]
#[verifier::external_body]
pub struct ExAccount(vodozemac::olm::Account);

#[verifier::external_type_specification]
#[verifier::external_body]
pub struct ExOlmSession(OlmSession);

#[verifier::external_type_specification]
#[verifier::external_body]
pub struct ExOlmMessage(vodozemac::olm::OlmMessage);

#[verifier::external_type_specification]
#[verifier::external_body]
pub struct ExCurve25519PublicKey(vodozemac::Curve25519PublicKey);

/// Relies on vodozemac::olm::Account::new: a fresh random identity keypair.
#[verifier::external_body]
pub(crate) fn fresh_account() -> vodozemac::olm::Account {
    vodozemac::olm::Account::new()
}

/// Relies on vodozemac::olm::Account::pickle and serde_json::to_string to
/// write an account's state as storable text; every failure is reported as a
/// serialization failure.
#[verifier::external_body]
pub(crate) fn pickle_account(account: &vodozemac::olm::Account) -> (r: Result<String, MeshError>)
    ensures
        r matches Err(e) ==> e matches MeshError::Serialization,
{
    serde_json::to_string(&account.pickle()).map_err(|_e| MeshError::Serialization)
}

/// Relies on serde_json::from_str and vodozemac::olm::Account::from_pickle to
/// restore an account from its storable text; every failure is reported as a
/// serialization failure.
#[verifier::external_body]
pub(crate) fn unpickle_account(pickled: &str) -> (r: Result<vodozemac::olm::Account, MeshError>)
    ensures
        r matches Err(e) ==> e matches MeshError::Serialization,
{
    let pickle: vodozemac::olm::AccountPickle =
        serde_json::from_str(pickled).map_err(|_e| MeshError::Serialization)?;
    Ok(vodozemac::olm::Account::from_pickle(pickle))
}

/// Relies on vodozemac::olm::Account::generate_one_time_keys: adds `count`
/// fresh one-time keys to the account's pool.
#[verifier::external_body]
pub(crate) fn generate_one_time_keys(account: &mut vodozemac::olm::Account, count: usize) {
    account.generate_one_time_keys(count);
}

/// Relies on vodozemac::olm::Account::curve25519_key and
/// vodozemac::Curve25519PublicKey::to_base64: the public identity key as
/// text. The text is unpadded standard base64, so it carries no quote
/// character.
#[verifier::external_body]
pub(crate) fn identity_key_b64(account: &vodozemac::olm::Account) -> (r: String)
    ensures
        quote_free(r@),
{
    account.curve25519_key().to_base64()
}

/// Relies on vodozemac::olm::Account::one_time_keys and
/// vodozemac::Curve25519PublicKey::to_base64: the public one-time keys as
/// text, in no particular order. Each text is unpadded standard base64, so
/// it carries no quote character.
#[verifier::external_body]
pub(crate) fn one_time_keys_b64(account: &vodozemac::olm::Account) -> (r: Vec<String>)
    ensures
        forall|i: int| 0 <= i < r@.len() ==> quote_free(r@[i]@),
{
    account.one_time_keys().values().map(|k| k.to_base64()).collect()
}

/// Relies on vodozemac::Curve25519PublicKey::from_base64 to read a public key
/// from its text form; malformed key text is a validation failure, reported
/// as a serialization failure.
#[verifier::external_body]
pub(crate) fn parse_key(key_b64: &str) -> (r: Result<vodozemac::Curve25519PublicKey, MeshError>)
    ensures
        r matches Err(e) ==> e matches MeshError::Serialization,
{
    vodozemac::Curve25519PublicKey::from_base64(key_b64).map_err(|_e| MeshError::Serialization)
}

/// Relies on vodozemac::olm::Account::create_outbound_session with the
/// engine's first session configuration: the initiator's half of the
/// handshake.
#[verifier::external_body]
pub(crate) fn create_outbound(
    account: &vodozemac::olm::Account,
    identity_key: &vodozemac::Curve25519PublicKey,
    one_time_key: &vodozemac::Curve25519PublicKey,
) -> (r: Result<vodozemac::olm::Session, MeshError>)
    ensures
        r matches Err(e) ==> e matches MeshError::Cryptography,
{
    account
        .create_outbound_session(
            vodozemac::olm::SessionConfig::version_1(),
            *identity_key,
            *one_time_key,
        )
        .map_err(|_e| MeshError::Cryptography)
}

/// Relies on vodozemac::olm::Account::create_inbound_session and
/// vodozemac::olm::PreKeyMessage::identity_key: the responder's half of the
/// handshake, consuming the one-time key the message was built against. A
/// ciphertext that is not a handshake message is a cryptography failure, as
/// is every failure of the engine.
#[verifier::external_body]
pub(crate) fn create_inbound(
    account: &mut vodozemac::olm::Account,
    message: &vodozemac::olm::OlmMessage,
) -> (r: Result<(vodozemac::olm::Session, String), MeshError>)
    ensures
        r matches Err(e) ==> e matches MeshError::Cryptography,
{
    match message {
        vodozemac::olm::OlmMessage::PreKey(m) => account
            .create_inbound_session(
                vodozemac::olm::SessionConfig::version_1(),
                m.identity_key(),
                m,
            )
            .map(|r| (r.session, String::from_utf8_lossy(&r.plaintext).into_owned()))
            .map_err(|_e| MeshError::Cryptography),
        vodozemac::olm::OlmMessage::Normal(_m) => Err(MeshError::Cryptography),
    }
}

/// Relies on vodozemac::olm::Session::encrypt: encrypts one plaintext and
/// advances the session's ratchet; every failure is a cryptography failure.
#[verifier::external_body]
pub(crate) fn encrypt_message(
    session: &mut vodozemac::olm::Session,
    plaintext: &str,
) -> (r: Result<vodozemac::olm::OlmMessage, MeshError>)
    ensures
        r matches Err(e) ==> e matches MeshError::Cryptography,
{
    session.encrypt(plaintext).map_err(|_e| MeshError::Cryptography)
}

/// Relies on vodozemac::olm::Session::decrypt: decrypts one ciphertext and
/// advances the session's ratchet; every failure is a cryptography failure,
/// and reports nothing but the failure.
#[verifier::external_body]
pub(crate) fn decrypt_message(
    session: &mut vodozemac::olm::Session,
    message: &vodozemac::olm::OlmMessage,
) -> (r: Result<String, MeshError>)
    ensures
        r matches Err(e) ==> e matches MeshError::Cryptography,
{
    session
        .decrypt(message)
        .map(|p| String::from_utf8_lossy(&p).into_owned())
        .map_err(|_e| MeshError::Cryptography)
}

/// Relies on vodozemac::olm::Session::pickle and serde_json::to_string to
/// write a session's ratchet state as storable text; every failure is
/// reported as a serialization failure.
#[verifier::external_body]
pub(crate) fn pickle_session(session: &vodozemac::olm::Session) -> (r: Result<String, MeshError>)
    ensures
        r matches Err(e) ==> e matches MeshError::Serialization,
{
    serde_json::to_string(&session.pickle()).map_err(|_e| MeshError::Serialization)
}

/// Relies on serde_json::from_str and vodozemac::olm::Session::from_pickle to
/// restore a session from its storable text; every failure is reported as a
/// serialization failure.
#[verifier::external_body]
pub(crate) fn unpickle_session(pickled: &str) -> (r: Result<vodozemac::olm::Session, MeshError>)
    ensures
        r matches Err(e) ==> e matches MeshError::Serialization,
{
    let pickle: vodozemac::olm::SessionPickle =
        serde_json::from_str(pickled).map_err(|_e| MeshError::Serialization)?;
    Ok(vodozemac::olm::Session::from_pickle(pickle))
}

/// Relies on uuid::Uuid::new_v4: a fresh random identifier, carried as its
/// 128-bit value.
#[verifier::external_body]
pub(crate) fn fresh_device_id() -> u128 {
    uuid::Uuid::new_v4().as_u128()
}

/// Relies on chrono::Utc::now and chrono::DateTime::timestamp_millis: the
/// current wall-clock time.
#[verifier::external_body]
pub(crate) fn now_millis_raw() -> i64 {
    chrono::Utc::now().timestamp_millis()
}

/// The current wall-clock time in milliseconds, clamped to the epoch for
/// clocks that report an earlier instant.
pub(crate) fn now_millis() -> u64 {
    let t = now_millis_raw();
    if t < 0 {
        0
    } else {
        t as u64
    }
}

} // verus!
