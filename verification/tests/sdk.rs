use janitor::auth::aws_impl::{
    account_summary, authorize_endpoint, classify_aws, credential_expiry, err_detail,
    issued_token, map_aws_err, map_role_err, minted_credential, registration, role_summary,
    token_expiry, PageStep, Pages, RoleKeys, SdkFailure,
};
use janitor::auth::error::{SessionError, SignInError};
use janitor::auth::types::Timestamp;
use janitor::auth::wire::{AccountSummary, RoleSummary};
use janitor::aws::aws_impl::{classify_stage_err, map_secret_err, secret_summary, AwsSecretsApi};
use janitor::aws::wire::{CasOutcome, SecretSummary};

fn service(code: &str, message: &str) -> SdkFailure {
    SdkFailure::Service { code: Some(code.into()), message: Some(message.into()) }
}

#[test]
fn only_token_invalidity_at_role_step_routes_to_reauth() {
    for code in ["UnauthorizedException", "ExpiredTokenException"] {
        assert!(
            matches!(
                classify_aws("GetRoleCredentials", Some(code), "d".into()),
                SessionError::ReauthRequired
            ),
            "{code} at role step should be ReauthRequired"
        );
    }
}

#[test]
fn a_token_code_elsewhere_is_no_reauth() {
    assert_eq!(
        classify_aws("GetSecretValue", Some("UnauthorizedException"), "d".into()),
        SessionError::Sdk { context: "d".into() }
    );
    assert_eq!(
        classify_aws("GetSecretValue", None, "d".into()),
        SessionError::Sdk { context: "d".into() }
    );
}

#[test]
fn role_step_entitlement_denials_are_role_not_entitled_keeping_detail() {
    for code in ["ForbiddenException", "AccessDeniedException"] {
        match classify_aws("GetRoleCredentials", Some(code), format!("{code}: No access")) {
            SessionError::RoleNotEntitled { context } => {
                assert_eq!(context, format!("{code}: No access"));
            }
            other => panic!("{code} at role step must be RoleNotEntitled, got {other:?}"),
        }
    }
}

#[test]
fn secret_step_codes_classify_into_taxonomy() {
    assert!(matches!(
        classify_aws("GetSecretValue", Some("AccessDeniedException"), "d".into()),
        SessionError::AccessDenied
    ));
    assert!(matches!(
        classify_aws("GetSecretValue", Some("ResourceNotFoundException"), "d".into()),
        SessionError::NotFound
    ));
    assert!(matches!(
        classify_aws("GetSecretValue", Some("ThrottlingException"), "d".into()),
        SessionError::Throttled
    ));
}

#[test]
fn unknown_codes_keep_the_real_detail_not_a_discriminant() {
    let e = classify_aws(
        "GetSecretValue",
        Some("DecryptionFailure"),
        "DecryptionFailure: KMS denied".into(),
    );
    match e {
        SessionError::Sdk { context } => assert_eq!(context, "DecryptionFailure: KMS denied"),
        other => panic!("expected Sdk carrying detail, got {other:?}"),
    }
}

#[test]
fn authorize_endpoint_prefers_response_when_present() {
    assert_eq!(
        authorize_endpoint(Some("https://oidc.eu-west-1.amazonaws.com/authorize"), "us-west-2"),
        "https://oidc.eu-west-1.amazonaws.com/authorize"
    );
}

#[test]
fn authorize_endpoint_derives_from_region_when_absent() {
    assert_eq!(
        authorize_endpoint(None, "us-west-2"),
        "https://oidc.us-west-2.amazonaws.com/authorize"
    );
    assert_eq!(
        authorize_endpoint(Some(""), "us-east-1"),
        "https://oidc.us-east-1.amazonaws.com/authorize"
    );
}

#[test]
fn non_service_sdk_errors_map_to_scrubbed_sdk_with_safe_detail() {
    let cases: Vec<(SdkFailure, &str)> = vec![
        (SdkFailure::Timeout, "request timed out"),
        (SdkFailure::Dispatch, "network/dispatch failure"),
        (SdkFailure::Construction, "request construction failure"),
        (SdkFailure::Response, "unexpected response"),
        (SdkFailure::Unknown, "unknown error"),
    ];
    for (err, expected) in cases {
        match map_aws_err("GetSecretValue", &err) {
            SessionError::Sdk { context } => assert_eq!(context, expected),
            other => panic!("expected scrubbed Sdk, got {other:?}"),
        }
    }
}

#[test]
fn a_service_error_is_told_by_code_and_message() {
    assert_eq!(err_detail(&service("ForbiddenException", "No access")), "ForbiddenException: No access");
    assert_eq!(
        err_detail(&SdkFailure::Service { code: None, message: Some("m".into()) }),
        "Unknown: m"
    );
    assert_eq!(err_detail(&SdkFailure::Service { code: Some("C".into()), message: None }), "C");
    assert_eq!(
        map_role_err(&service("ForbiddenException", "No access")),
        SessionError::RoleNotEntitled { context: "ForbiddenException: No access".into() }
    );
    assert_eq!(
        map_secret_err(&service("AccessDeniedException", "no")),
        SessionError::AccessDenied
    );
}

#[test]
fn a_lost_race_is_a_mismatch_and_anything_else_an_error() {
    for code in ["InvalidParameterException", "InvalidRequestException"] {
        assert_eq!(classify_stage_err(&service(code, "m")), Ok(CasOutcome::Mismatch));
    }
    assert_eq!(
        classify_stage_err(&service("ResourceNotFoundException", "m")),
        Err(SessionError::NotFound)
    );
    assert_eq!(
        classify_stage_err(&SdkFailure::Timeout),
        Err(SessionError::Sdk { context: "request timed out".into() })
    );
}

#[test]
fn a_registration_falls_back_to_the_regional_endpoint() {
    let r = registration(Some("id".into()), None, None, "eu-west-1");
    assert_eq!(r.client_id, "id");
    assert_eq!(r.client_secret, "");
    assert_eq!(r.authorization_endpoint, "https://oidc.eu-west-1.amazonaws.com/authorize");
}

#[test]
fn expiries_count_from_now_and_from_the_epoch() {
    let now = Timestamp { nanos: 5_000_000_000 };
    assert_eq!(token_expiry(now, 10).nanos, 15_000_000_000);
    assert_eq!(token_expiry(now, -10).nanos, 5_000_000_000);
    assert_eq!(credential_expiry(1_500).nanos, 1_500_000_000);
    assert_eq!(credential_expiry(-1).nanos, 0);
}

#[test]
fn pages_are_joined_in_order() {
    let pages: Pages<u32> = Pages::new();
    assert_eq!(pages.next_token(), None);
    let PageStep::More(pages) = pages.resume(vec![1, 2], Some("t".into())) else {
        panic!("more");
    };
    assert_eq!(pages.next_token(), Some("t"));
    let PageStep::Done(items) = pages.resume(vec![3], None) else {
        panic!("done");
    };
    assert_eq!(items, vec![1, 2, 3]);
}

#[test]
fn each_request_of_a_listing_carries_the_token_of_the_page_before() {
    let script = [
        (vec![1], Some("a")),
        (vec![], Some("b")),
        (vec![2, 3], Some("c")),
        (vec![4], None),
    ];
    let mut pages: Pages<u32> = Pages::new();
    let mut asked: Vec<Option<String>> = Vec::new();
    for (items, next) in script {
        asked.push(pages.next_token().map(|t| t.to_string()));
        match pages.resume(items, next.map(|t| t.to_string())) {
            PageStep::More(more) => pages = more,
            PageStep::Done(all) => {
                assert_eq!(all, vec![1, 2, 3, 4]);
                assert_eq!(
                    asked,
                    vec![None, Some("a".into()), Some("b".into()), Some("c".into())]
                );
                return;
            }
        }
    }
    panic!("the last page ends the listing");
}

#[test]
fn summaries_expose_keys_and_labels() {
    let a = AccountSummary { id: "111".into(), name: "Prod".into() };
    assert_eq!(a.key(), "111");
    assert_eq!(a.label(), "Prod (111)");

    let r = RoleSummary { name: "ReadOnly".into() };
    assert_eq!(r.key(), "ReadOnly");
    assert_eq!(r.label(), "ReadOnly");
}

#[test]
fn wire_summaries_expose_keys_and_labels() {
    let s = SecretSummary { name: "myapp/prod".into(), arn: "arn:aws:...:myapp/prod".into() };
    assert_eq!(s.key(), "arn:aws:...:myapp/prod");
    assert_eq!(s.label(), "myapp/prod");
    assert_eq!(secret_summary(Some("n".into()), None), SecretSummary { name: "n".into(), arn: "".into() });
    assert_eq!(AwsSecretsApi::new(), AwsSecretsApi::default());
}

#[test]
fn a_token_reply_becomes_a_token_or_an_endpoint_error() {
    let now = Timestamp { nanos: 5_000_000_000 };
    let token = issued_token(Some("tok".into()), now, 3600).unwrap();
    assert_eq!(token.expose(), "tok");
    assert_eq!(token.expires_at.nanos, 3_605_000_000_000);
    let past = issued_token(Some("tok".into()), now, -1).unwrap();
    assert_eq!(past.expires_at.nanos, 5_000_000_000, "a negative lifetime is none");
    assert_eq!(issued_token(None, now, 3600).unwrap_err(), SignInError::TokenEndpoint);
}

#[test]
fn a_role_reply_becomes_a_credential_or_an_error() {
    let cred = minted_credential(Some(RoleKeys {
        access_key_id: Some("AKIA".into()),
        secret_access_key: Some("sk".into()),
        session_token: None,
        expiration: 1_500,
    }))
    .unwrap();
    assert_eq!(cred.access_key_id(), "AKIA");
    assert_eq!(cred.secret_access_key(), "sk");
    assert_eq!(cred.session_token(), "");
    assert_eq!(cred.expiration.nanos, 1_500_000_000);
    assert_eq!(
        minted_credential(None).unwrap_err(),
        SessionError::Sdk { context: "GetRoleCredentials(empty)".into() }
    );
}

#[test]
fn a_summary_without_its_parts_is_blank() {
    let account = account_summary(Some("111122223333".into()), None);
    assert_eq!(account.id, "111122223333");
    assert_eq!(account.name, "");
    assert_eq!(role_summary(Some("ReadOnly".into())).name, "ReadOnly");
    assert_eq!(role_summary(None).name, "");
}
