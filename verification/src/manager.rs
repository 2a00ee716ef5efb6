//! The download coordinator: at most one in-flight download process-wide.
//!
//! The coordinator owns the one cancellation-handle slot.  Its presence is
//! the single-flight lock: beginning a download while the slot is occupied
//! fails with [`StorageError::AlreadyInProgress`] and changes nothing;
//! otherwise a fresh handle is created, stored, and a clone of it handed to
//! the caller to race against the transfer.  The slot is cleared on every
//! exit path — completion, failure, or cancellation — so the handle never
//! leaks.

use vstd::prelude::*;

use crate::StorageError;

verus! {

/// The cancellation handle of tokio-util, declared so that the coordinator
/// can own one.  Its value is opaque here; cancellation is delivered
/// through it by the surrounding application, which awaits it.
#[verifier::external_type_specification]
#[verifier::external_body]
pub struct ExCancellationToken(tokio_util::sync::CancellationToken);

/// Relies on CancellationToken::new: creates a fresh handle in the
/// non-cancelled state.  Nothing is assumed of the handle's value.
pub assume_specification[ tokio_util::sync::CancellationToken::new ]() -> tokio_util::sync::CancellationToken;

/// Relies on CancellationToken::clone: the clone is cancelled whenever the
/// original is, and vice versa.  Nothing is assumed of the handle's value.
pub assume_specification[ <tokio_util::sync::CancellationToken as Clone>::clone ](
    t: &tokio_util::sync::CancellationToken,
) -> tokio_util::sync::CancellationToken;

/// Relies on CancellationToken::cancel: signals the handle and every clone
/// of it.  Nothing is observable of it here.
pub assume_specification[ tokio_util::sync::CancellationToken::cancel ](
    t: &tokio_util::sync::CancellationToken,
);

/// The single-flight download coordinator.
pub struct DownloadManager {
    token: Option<tokio_util::sync::CancellationToken>,
}

impl DownloadManager {
    /// Whether a download is in flight: the handle slot is occupied.
    pub closed spec fn active(self) -> bool {
        self.token is Some
    }

    /// A coordinator with no download in flight.
    pub fn new() -> (r: DownloadManager)
        ensures
            !r.active(),
    {
        DownloadManager { token: None }
    }

    /// Whether a download is in flight.
    pub fn is_active(&self) -> (r: bool)
        ensures
            r == self.active(),
    {
        self.token.is_some()
    }

    /// Claims the single-flight slot.  While a download is active this
    /// always fails with `AlreadyInProgress` and changes nothing, so a
    /// second transfer never starts; otherwise it stores a fresh
    /// cancellation handle and returns a clone of it for the transfer.
    pub fn try_begin(&mut self) -> (r: Result<
        tokio_util::sync::CancellationToken,
        StorageError,
    >)
        ensures
            old(self).active() ==> (r matches Err(e) && e is AlreadyInProgress) && *final(self)
                == *old(self),
            !old(self).active() ==> r is Ok && final(self).active(),
    {
        match &self.token {
            Some(_) => Err(StorageError::AlreadyInProgress),
            None => {
                let t = tokio_util::sync::CancellationToken::new();
                let handle = t.clone();
                self.token = Some(t);
                Ok(handle)
            },
        }
    }

    /// Releases the single-flight slot without signalling: the transfer
    /// ended, by success or failure.
    pub fn finish(&mut self)
        ensures
            !final(self).active(),
    {
        self.token = None;
    }

    /// Cancels the download in flight, if any: signals the stored handle
    /// and releases the slot at once, without waiting for the transfer to
    /// observe the signal.  Cancelling while idle is a no-op.  Reports
    /// whether a download was in flight.
    pub fn cancel(&mut self) -> (was_active: bool)
        ensures
            !final(self).active(),
            was_active == old(self).active(),
    {
        let mut slot: Option<tokio_util::sync::CancellationToken> = None;
        core::mem::swap(&mut self.token, &mut slot);
        match slot {
            Some(t) => {
                t.cancel();
                true
            },
            None => false,
        }
    }
}

} // verus!
