use vm_exec_instrument::capi_error::CApiError;
use vm_exec_instrument::service::BasicExecutorService;

#[test]
fn new_service_has_no_error() {
    let service = BasicExecutorService::new();
    assert_eq!(service.get_last_error_string(), "");
}

#[test]
fn service_keeps_last_error() {
    let mut service = BasicExecutorService::new();
    service.update_last_error_str("first".to_string());
    service.update_last_error_str("wasm bytes ptr is null".to_string());
    assert_eq!(service.get_last_error_string(), "wasm bytes ptr is null");
}

#[test]
fn capi_error_keeps_message() {
    let err = CApiError::new("instance ptr is null");
    assert_eq!(err.message(), "instance ptr is null");
}
