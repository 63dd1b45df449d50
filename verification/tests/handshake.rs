//! Unit creation: the startup handshake decides between a working unit
//! and a module-loading failure.

use wasmworker::error::InitError;
use wasmworker::webworker::com::{evaluate_handshake, PostInit};

#[test]
fn successful_handshake_lets_creation_proceed() {
    let outcome = evaluate_handshake(PostInit { success: true, message: None });
    assert_eq!(outcome, Ok(()));
}

#[test]
fn can_handle_invalid_paths() {
    // A unit pointed at an invalid bootstrap target reports a failed
    // import in its handshake; creation must end in a module-loading
    // error, never a panic.
    let outcome = evaluate_handshake(PostInit {
        success: false,
        message: Some(String::from("Unable to import module something")),
    });
    assert_eq!(
        outcome,
        Err(InitError::WebWorkerModuleLoading(String::from(
            "Unable to import module something"
        )))
    );
}

#[test]
fn failed_handshake_without_message_still_fails_cleanly() {
    let outcome = evaluate_handshake(PostInit { success: false, message: None });
    assert_eq!(outcome, Err(InitError::WebWorkerModuleLoading(String::new())));
}
