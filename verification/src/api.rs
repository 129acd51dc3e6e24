//! The API state shared by the handlers, and the signature guard put in front of every
//! API surface.

use vstd::prelude::*;
use std::sync::Arc;
use crate::signature::SignatureState;

verus! {

/// Another handle on the same shared value: `Arc::clone`, which, as std documents it,
/// makes a new pointer to the same allocation.
#[verifier::external_body]
fn share<T>(a: &Arc<T>) -> (r: Arc<T>)
    ensures
        r == *a,
{
    Arc::clone(a)
}

/// The state that API handlers share: the application state and the signature settings.
pub struct BackendApi<S> {
    state: Arc<S>,
    signature_state: Arc<SignatureState>,
}

impl<S> BackendApi<S> {
    /// The application state.
    pub closed spec fn app_state(&self) -> Arc<S> {
        self.state
    }

    /// The signature settings.
    pub closed spec fn signatures(&self) -> Arc<SignatureState> {
        self.signature_state
    }

    /// Handler state made of the application state and the signature settings.
    pub fn new(state: Arc<S>, signature_state: Arc<SignatureState>) -> (api: Self)
        ensures
            api.app_state() == state,
            api.signatures() == signature_state,
    {
        BackendApi { state, signature_state }
    }

    /// The application state.
    pub fn state(&self) -> (s: Arc<S>)
        ensures
            s == self.app_state(),
    {
        share(&self.state)
    }

    /// The signature settings.
    pub fn signature_state(&self) -> (s: Arc<SignatureState>)
        ensures
            s == self.signatures(),
    {
        share(&self.signature_state)
    }
}

/// The signature guard as a middleware layer: whether it is on, and its settings.
pub struct SignatureLayer {
    enabled: bool,
    state: Arc<SignatureState>,
}

impl SignatureLayer {
    /// The guard is on.
    pub closed spec fn is_enabled(&self) -> bool {
        self.enabled
    }

    /// The guard's settings.
    pub closed spec fn settings(&self) -> Arc<SignatureState> {
        self.state
    }

    fn new(enabled: bool, state: Arc<SignatureState>) -> (l: Self)
        ensures
            l.is_enabled() == enabled,
            l.settings() == state,
    {
        SignatureLayer { enabled, state }
    }

    /// Whether the guard is on.
    pub fn enabled(&self) -> (b: bool)
        ensures
            b == self.is_enabled(),
    {
        self.enabled
    }

    /// The guard's settings.
    pub fn state(&self) -> (s: Arc<SignatureState>)
        ensures
            s == self.settings(),
    {
        share(&self.state)
    }

    /// The guard wrapped around the service `inner`.
    pub fn layer<T>(&self, inner: T) -> (s: SignatureService<T>)
        ensures
            s.inner_service() == inner,
            s.is_enabled() == self.is_enabled(),
            s.settings() == self.settings(),
    {
        SignatureService { inner, enabled: self.enabled, state: share(&self.state) }
    }
}

/// The signature guard of `state`, on or off.
pub fn signature_layer(enabled: bool, state: Arc<SignatureState>) -> (l: SignatureLayer)
    ensures
        l.is_enabled() == enabled,
        l.settings() == state,
{
    SignatureLayer::new(enabled, state)
}

/// A service behind the signature guard.
pub struct SignatureService<T> {
    inner: T,
    enabled: bool,
    state: Arc<SignatureState>,
}

impl<T> SignatureService<T> {
    /// The guarded service.
    pub closed spec fn inner_service(&self) -> T {
        self.inner
    }

    /// The guard is on.
    pub closed spec fn is_enabled(&self) -> bool {
        self.enabled
    }

    /// The guard's settings.
    pub closed spec fn settings(&self) -> Arc<SignatureState> {
        self.state
    }

    /// The guarded service, whether the guard is on, and its settings.
    pub fn into_parts(self) -> (parts: (T, bool, Arc<SignatureState>))
        ensures
            parts.0 == self.inner_service(),
            parts.1 == self.is_enabled(),
            parts.2 == self.settings(),
    {
        (self.inner, self.enabled, self.state)
    }
}

/// The main API documentation: title, version, description and tags of the published
/// specification.
pub struct ApiDoc;

/// The API documentation of the staff flow endpoints.
pub struct StaffFlowOpenApi;

} // verus!
