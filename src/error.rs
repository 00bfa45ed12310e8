use vstd::prelude::*;

verus! {

/// The single flat error type that callers of the library see.
#[derive(Debug, Clone, Copy, PartialEq, Eq, Structural)]
pub enum Error {
    /// The key derivation function rejected its parameters.
    DeriveKey,
    /// A sync operation was asked of a session that was unlocked offline.
    SyncInOfflineMode,
    /// The server answered with an HTTP error status.
    ApiError(u16),
    /// The server could not be reached.
    NetworkError,
    /// The server refused a write because another user owns the id.
    ConflictError,
    /// The target entity is absent from the local store.
    NotFound,
    /// Tag failure, short ciphertext, wrong key length, non-UTF-8 plaintext or invalid base64.
    CryptoError,
    /// The local store could not be read or written.
    StoreError,
    /// The password-authenticated handshake failed or the server's answer was malformed.
    AuthError,
    /// A sync cycle is already running.
    SyncBusy,
}

impl Error {
    /// Whether the sync engine may retry the operation that failed with this error.
    pub open spec fn spec_is_retryable(self) -> bool {
        match self {
            Error::NetworkError => true,
            Error::ApiError(status) => 500 <= status && status <= 599,
            _ => false,
        }
    }

    pub fn is_retryable(&self) -> (r: bool)
        ensures
            r == self.spec_is_retryable(),
    {
        match self {
            Error::NetworkError => true,
            Error::ApiError(status) => 500 <= *status && *status <= 599,
            _ => false,
        }
    }
}

} // verus!
