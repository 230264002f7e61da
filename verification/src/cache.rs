//! The slot that holds the key bundle in use.
//!
//! The slot is empty until a bundle is published. Publishing again puts the
//! new bundle in the place of the old one. A reader gets a handle that keeps
//! its bundle alive for as long as the reader holds it, whatever is
//! published meanwhile.

use crate::errors::{status_of, ServiceError};
use crate::keystore::{key_store_contents, read_arkzkey_no_print, ProvingKeyBundle};
use std::sync::Arc;
use vstd::prelude::*;

verus! {

/// Holds no key bundle or one.
pub struct KeyCache {
    slot: Option<Arc<ProvingKeyBundle>>,
}

impl View for KeyCache {
    type V = Option<ProvingKeyBundle>;

    /// The bundle that is published, if one is.
    closed spec fn view(&self) -> Option<ProvingKeyBundle> {
        match self.slot {
            Some(handle) => Some(*handle),
            None => None,
        }
    }
}

/// Calls `Arc::clone` of std: the new handle points to the same value.
#[verifier::external_body]
fn share(handle: &Arc<ProvingKeyBundle>) -> (out: Arc<ProvingKeyBundle>)
    ensures
        *out == **handle,
{
    Arc::clone(handle)
}

impl KeyCache {
    /// An empty slot.
    pub fn new() -> (out: KeyCache)
        ensures
            out@ is None,
    {
        KeyCache { slot: None }
    }

    /// Whether a bundle is published.
    pub fn is_loaded(&self) -> (out: bool)
        ensures
            out == (self@ is Some),
    {
        self.slot.is_some()
    }

    /// Publishes a bundle, in the place of the one that was there.
    pub fn set(&mut self, bundle: ProvingKeyBundle)
        ensures
            final(self)@ == Some(bundle),
    {
        self.slot = Some(Arc::new(bundle));
    }

    /// A slot of its own that holds what this one holds now, and keeps it
    /// whatever is published here later.
    pub fn snapshot(&self) -> (out: KeyCache)
        ensures
            out@ == self@,
    {
        match &self.slot {
            Some(handle) => KeyCache { slot: Some(share(handle)) },
            None => KeyCache { slot: None },
        }
    }

    /// A handle to the published bundle, or `KeyNotLoaded` where the slot is empty.
    pub fn get(&self) -> (out: Result<Arc<ProvingKeyBundle>, ServiceError>)
        ensures
            match out {
                Ok(handle) => self@ == Some(*handle),
                Err(reason) => self@ is None && reason == ServiceError::KeyNotLoaded,
            },
    {
        match &self.slot {
            Some(handle) => Ok(share(handle)),
            None => Err(ServiceError::KeyNotLoaded),
        }
    }
}

/// Reads a key store and publishes its bundle. Gives zero where the bundle
/// was published, and the status of the failure, with the slot left as it
/// was, where the bytes are no key store.
pub fn read_zkey(cache: &mut KeyCache, bytes: &[u8]) -> (status: i32)
    ensures
        match key_store_contents(bytes@) {
            Ok((key, matrices)) => {
                &&& status == 0
                &&& final(cache)@ matches Some(bundle)
                &&& bundle.spec_key() == key
                &&& bundle.spec_matrices() == matrices
            },
            Err(reason) => status == status_of(reason) && status != 0 && final(cache)@ == old(
                cache,
            )@,
        },
{
    match read_arkzkey_no_print(bytes) {
        Ok(bundle) => {
            cache.set(bundle);
            0
        },
        Err(reason) => reason.status(),
    }
}

} // verus!
