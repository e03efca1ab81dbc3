use portex_pkg::{Error, FromBytesError};

/// No-op function that compiles only if its argument is `Send + Sync`.
fn is_send_and_sync<T: Send + Sync>(_: T) {}

#[test]
fn errors_are_send_and_sync() {
    is_send_and_sync(Error::NotEnoughShares);
}

#[test]
fn error_messages_name_the_failure() {
    assert_eq!(Error::NotEnoughShares.message(), "Not enough signature shares");
    assert_eq!(
        Error::DuplicateEntry.message(),
        "Signature shares contain a duplicated index"
    );
    assert_eq!(
        Error::DegreeTooHigh.message(),
        "The degree is too high for the coefficients to be indexed by usize."
    );
    assert_eq!(Error::InvalidCiphertext.message(), "The ciphertext is not valid");
    assert_eq!(FromBytesError::Invalid.message(), "Invalid representation.");
}

#[test]
fn extreme_thresholds_are_rejected() {
    let sks = portex_pkg::SecretKeySet::random(0);
    assert_eq!(0, sks.threshold());
    assert!(portex_pkg::SecretKeySet::try_random(usize::MAX).is_err());
    assert_eq!(
        portex_pkg::SecretKeySet::try_random(usize::MAX).err(),
        Some(Error::DegreeTooHigh)
    );
}
