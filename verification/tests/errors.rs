use janitor::auth::error::{sign_in_failed, SessionError, SignInError};
use janitor::auth::method::MethodError;
use janitor::model::provider::{AppError, FetchFailReason};

#[test]
fn error_sdk_variants_do_not_print_secret_material() {
    let e = SessionError::Sdk { context: "GetSecretValue".into() };
    let shown = format!("{} | {e:?}", e.to_string());
    assert!(shown.contains("GetSecretValue"));
    assert!(!shown.contains("hunter2"), "no secret leaked");
}

#[test]
fn sdk_variants_do_not_print_secret_material() {
    let e = SessionError::Sdk { context: "GetSecretValue".into() };
    let shown = format!("{} | {e:?}", e.to_string());
    assert!(shown.contains("GetSecretValue"));
    assert!(!shown.contains("hunter2"), "no secret leaked");
    let e = SignInError::Sdk { context: "RegisterClient".into() };
    assert_eq!(e.to_string(), "Sign-in failed: RegisterClient");
}

#[test]
fn role_not_entitled_display_carries_no_secret() {
    let e = SessionError::RoleNotEntitled { context: "ForbiddenException: No access".into() };
    let shown = format!("{} | {e:?}", e.to_string());
    assert!(shown.contains("ForbiddenException"));
    assert!(!shown.contains("hunter2"), "no secret leaked");
}

#[test]
fn error_reauth_is_distinct_from_access_denied() {
    assert!(matches!(SessionError::ReauthRequired, SessionError::ReauthRequired));
    assert!(matches!(SessionError::AccessDenied, SessionError::AccessDenied));
    assert_ne!(SessionError::ReauthRequired, SessionError::AccessDenied);
}

#[test]
fn reauth_is_distinct_from_access_denied() {
    assert!(matches!(SessionError::ReauthRequired, SessionError::ReauthRequired));
    assert!(matches!(SessionError::AccessDenied, SessionError::AccessDenied));
}

fn every_reason() {
    assert_eq!(FetchFailReason::from(&SessionError::ReauthRequired), FetchFailReason::NeedsSignIn);
    assert_eq!(FetchFailReason::from(&SessionError::AccessDenied), FetchFailReason::AccessDenied);
    assert_eq!(
        FetchFailReason::from(&SessionError::RoleNotEntitled { context: "Forbidden".into() }),
        FetchFailReason::AccessDenied
    );
    assert_eq!(FetchFailReason::from(&SessionError::NotFound), FetchFailReason::NotFound);
    assert_eq!(FetchFailReason::from(&SessionError::Throttled), FetchFailReason::Throttled);
    assert_eq!(FetchFailReason::from(&SessionError::Unsupported), FetchFailReason::Unsupported);
    assert_eq!(
        FetchFailReason::from(&SessionError::Sdk { context: "GetSecretValue".into() }),
        FetchFailReason::Other
    );
}

#[test]
fn error_maps_every_session_error_to_a_reason() {
    every_reason();
}

#[test]
fn session_maps_every_session_error_to_a_reason() {
    every_reason();
}

#[test]
fn error_describe_never_leaks_sdk_text() {
    let r = FetchFailReason::from(&SessionError::Sdk { context: "hunter2".into() });
    assert!(!r.describe().contains("hunter2"));
    assert_eq!(r.describe(), "AWS error");
}

#[test]
fn session_describe_never_leaks_sdk_text() {
    let r = FetchFailReason::from(&SessionError::Sdk { context: "hunter2".into() });
    assert!(!r.describe().contains("hunter2"));
    assert_eq!(r.describe(), "AWS error");
}

#[test]
fn each_reason_has_its_phrase() {
    assert_eq!(FetchFailReason::NeedsSignIn.describe(), "session expired — sign in again");
    assert_eq!(FetchFailReason::AccessDenied.describe(), "access denied");
    assert_eq!(FetchFailReason::NotFound.describe(), "secret not found");
    assert_eq!(FetchFailReason::Throttled.describe(), "throttled, try again");
    assert_eq!(FetchFailReason::Unsupported.describe(), "unsupported secret content");
}

#[test]
fn sign_in_error_maps_to_the_agnostic_port_type_preserving_its_safe_display() {
    for e in [
        SignInError::NoLoopbackPort,
        SignInError::StateMismatch,
        SignInError::Network,
        SignInError::Sdk { context: "TokenEndpoint".into() },
    ] {
        let expected = e.to_string();
        let masked = sign_in_failed(&e);
        assert_eq!(masked.message, expected, "the error-safe banner string is kept verbatim");
    }
}

#[test]
fn each_sign_in_error_has_its_message() {
    assert_eq!(SignInError::BrowserLaunch.to_string(), "could not launch a browser for Sign-in");
    assert_eq!(
        SignInError::ListenerTimeout.to_string(),
        "timed out waiting for the Sign-in redirect"
    );
    assert_eq!(
        SignInError::NoLoopbackPort.to_string(),
        "the Sign-in redirect could not be bound to a loopback port"
    );
    assert_eq!(
        SignInError::StateMismatch.to_string(),
        "the Sign-in redirect failed CSRF state validation"
    );
    assert_eq!(
        SignInError::TokenEndpoint.to_string(),
        "the Identity Center token endpoint rejected the Sign-in"
    );
    assert_eq!(SignInError::Network.to_string(), "a network error occurred during Sign-in");
}

#[test]
fn each_session_error_has_its_message() {
    assert_eq!(
        SessionError::ReauthRequired.to_string(),
        "the Session expired; a fresh Sign-in is required"
    );
    assert_eq!(SessionError::NotFound.to_string(), "no secret found for this Mapping");
    assert_eq!(
        SessionError::Throttled.to_string(),
        "the request was throttled or hit a transient error"
    );
    assert_eq!(
        SessionError::Unsupported.to_string(),
        "unsupported secret content for this operation"
    );
    assert_eq!(SessionError::Sdk { context: "x".into() }.to_string(), "AWS call failed: x");
}

#[test]
fn session_error_masks_through_the_session_variant() {
    let e = MethodError::Session(SessionError::AccessDenied);
    assert_eq!(e.reason(), FetchFailReason::AccessDenied);
    assert_eq!(e.detail(), "access denied for this Mapping");
    assert!(!e.is_reauth());

    let dead = MethodError::Session(SessionError::ReauthRequired);
    assert_eq!(dead.reason(), FetchFailReason::NeedsSignIn);
    assert!(dead.is_reauth());
}

#[test]
fn content_error_is_unsupported_and_preserves_its_detail_without_recovery() {
    let e = MethodError::Content { detail: "malformed .env line 4".into() };
    assert_eq!(e.reason(), FetchFailReason::Unsupported);
    assert_eq!(e.detail(), "malformed .env line 4");
    assert!(!e.is_reauth());
}

#[test]
fn content_detail_never_leaks_sdk_text_for_a_session_sdk_error() {
    let e = MethodError::Session(SessionError::Sdk { context: "GetSecretValue".into() });
    assert_eq!(e.reason(), FetchFailReason::Other);
    assert!(!e.detail().contains("hunter2"));
}

#[test]
fn needs_sign_in_names_a_synthetic_environment() {
    let e = AppError::needs_sign_in();
    assert_eq!(e.failures.len(), 1);
    assert_eq!(e.failures[0].reason, FetchFailReason::NeedsSignIn);
    assert_eq!(e.failures[0].environment, "(sign-in)");
    assert_eq!(e.failures[0].detail, "a fresh Sign-in is required");
}
