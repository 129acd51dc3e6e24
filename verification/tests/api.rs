use kyc_backend::api::{signature_layer, BackendApi};
use kyc_backend::signature::SignatureState;
use std::sync::Arc;

fn settings() -> Arc<SignatureState> {
    Arc::new(SignatureState {
        signature_secret: "test-secret".to_string(),
        max_clock_skew_seconds: 120,
        max_body_bytes: 1024,
    })
}

#[test]
fn backend_api_shares_its_state() {
    let state = Arc::new(7u32);
    let sig = settings();
    let api = BackendApi::new(state.clone(), sig.clone());
    assert!(Arc::ptr_eq(&api.state(), &state));
    assert!(Arc::ptr_eq(&api.signature_state(), &sig));
}

#[test]
fn signature_layer_wraps_services() {
    let sig = settings();
    let layer = signature_layer(true, sig.clone());
    assert!(layer.enabled());
    assert!(Arc::ptr_eq(&layer.state(), &sig));
    let service = layer.layer("inner");
    let (inner, enabled, state) = service.into_parts();
    assert_eq!(inner, "inner");
    assert!(enabled);
    assert_eq!(state.max_body_bytes, 1024);
    assert!(!signature_layer(false, sig).enabled());
}
