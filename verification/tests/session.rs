use janitor::auth::broker::{CredentialBroker, CredentialStep};
use janitor::auth::climb::ClimbStep;
use janitor::auth::error::{SessionError, SignInError};
use janitor::auth::load::LoadStep;
use janitor::auth::types::{Credential, SsoToken, Timestamp, NANOS_PER_SEC};
use janitor::auth::wire::{AccountSummary, RawSecret, RoleSummary};
use janitor::aws::discovery::WalkStep;
use janitor::aws::secrets::{shape, SecretShape};
use janitor::aws::session::{load_reply, Session};
use janitor::aws::source::AuthenticatedSource;
use janitor::aws::wire::SecretSummary;
use janitor::model::config::{Application, Mapping, Method};
use janitor::model::matrix::MatrixView;
use janitor::model::provider::{AppError, FetchFailReason, Step};

/// The outside, scripted: what it answers in order, and how often it was asked.
#[derive(Default)]
struct Outside {
    sign_in_fails: bool,
    sign_ins: u32,
    mints: Vec<Result<Credential, SessionError>>,
    mint_count: u32,
    reads: Vec<Result<RawSecret, SessionError>>,
    read_count: u32,
    account_lists: Vec<Result<Vec<AccountSummary>, SessionError>>,
    role_lists: Vec<Result<Vec<RoleSummary>, SessionError>>,
    role_list_count: u32,
    /// The token and the account of every listing of roles.
    listed: Vec<(String, String)>,
    /// The token of every mint.
    minted_with: Vec<String>,
    secret_lists: Vec<Result<Vec<SecretSummary>, SessionError>>,
}

impl Outside {
    fn token(&mut self) -> Result<SsoToken, SignInError> {
        self.sign_ins += 1;
        if self.sign_in_fails {
            Err(SignInError::TokenEndpoint)
        } else {
            Ok(SsoToken::new(format!("token-{}", self.sign_ins), at(28800)))
        }
    }

    fn mint(&mut self) -> Result<Credential, SessionError> {
        self.mint_count += 1;
        self.mints.remove(0)
    }

    fn sign_in(&mut self, s: &mut Session<SecretShape>) -> Result<(), SignInError> {
        if s.is_signed_in() {
            return Ok(());
        }
        s.sign_in(self.token())
    }

    fn fetch(
        &mut self,
        source: &mut AuthenticatedSource,
        m: &Mapping,
    ) -> Result<SecretShape, SessionError> {
        let mut step = source.fetch(m, at(0));
        loop {
            step = match step {
                ClimbStep::Mint(rung) => {
                    self.minted_with.push(source.mint_call(&rung).token.expose().to_string());
                    let reply = self.mint();
                    source.minted(rung, reply)
                }
                ClimbStep::Call(rung) => {
                    self.read_count += 1;
                    let reply = self.reads.remove(0).and_then(shape);
                    source.read(rung, reply)
                }
                ClimbStep::SignIn(rung) => {
                    let reply = self.token();
                    source.signed_in(rung, reply, at(0))
                }
                ClimbStep::Done(end) => return end,
            };
        }
    }

    fn load(
        &mut self,
        s: &mut Session<SecretShape>,
        app: &Application,
    ) -> Result<Vec<Mapping>, AppError> {
        let _ = self.sign_in(s);
        let mut step = s.load(app);
        loop {
            step = match step {
                LoadStep::Fetch(turn) => {
                    let m = turn.mapping().clone();
                    let end = self.fetch(s.facade_mut().expect("signed in"), &m);
                    turn.resume(load_reply(end))
                }
                LoadStep::Recover(turn) => {
                    self.role_list_count += 1;
                    let (token, account) = s.roles_to_list(&turn).expect("signed in");
                    self.listed.push((token.expose().to_string(), account.to_string()));
                    turn.resume(self.role_lists.remove(0))
                }
                LoadStep::Retry(turn) => {
                    let m = turn.mapping().clone();
                    let end = self.fetch(s.facade_mut().expect("signed in"), &m);
                    turn.resume(load_reply(end))
                }
                LoadStep::Done(end) => return s.finish_load(end),
            };
        }
    }

    fn walk(&mut self, s: &mut Session<SecretShape>, first: WalkStep) -> Step {
        let mut step = first;
        loop {
            step = match step {
                WalkStep::Accounts(turn) => turn.resume(self.account_lists.remove(0)),
                WalkStep::Roles(turn) => turn.resume(self.role_lists.remove(0)),
                WalkStep::Mint(turn) => {
                    let reply = self.mint();
                    turn.resume(reply)
                }
                WalkStep::Secrets(turn) => turn.resume(self.secret_lists.remove(0)),
                WalkStep::Rest { step, walk } => return s.walk_rested(walk, step),
            };
        }
    }

    fn begin_discovery(
        &mut self,
        s: &mut Session<SecretShape>,
        environment: &str,
        region: &str,
    ) -> Result<Step, SignInError> {
        self.sign_in(s)?;
        let first = s
            .begin_discovery(environment.into(), region.into(), None)
            .expect("signed in");
        Ok(self.walk(s, first))
    }
}

fn at(secs: i128) -> Timestamp {
    Timestamp { nanos: secs * NANOS_PER_SEC as i128 }
}

fn mapping(env: &str, secret_id: &str) -> Mapping {
    Mapping {
        environment: env.into(),
        account_id: "111111111111".into(),
        region: "us-east-1".into(),
        secret_id: secret_id.into(),
        permission_set: "ReadOnly".into(),
        method: Method::SecretsManager,
    }
}

fn app(environments: Vec<Mapping>) -> Application {
    Application { name: "app".into(), environments }
}

fn one_env(secret_id: &str) -> Application {
    app(vec![mapping("prod", secret_id)])
}

fn cred(tag: &str, expires_in: i128) -> Result<Credential, SessionError> {
    Ok(Credential::new(format!("AKIA-{tag}"), "s".into(), "t".into(), at(expires_in)))
}

fn cred_ok() -> Result<Credential, SessionError> {
    cred("t", 3600)
}

fn role_not_entitled() -> Result<Credential, SessionError> {
    Err(SessionError::RoleNotEntitled { context: "ForbiddenException: No access".into() })
}

fn secret_json(json: &str) -> Result<RawSecret, SessionError> {
    Ok(RawSecret::new(Some(json.into()), None))
}

fn roles(names: &[&str]) -> Result<Vec<RoleSummary>, SessionError> {
    Ok(names.iter().map(|n| RoleSummary { name: (*n).into() }).collect())
}

fn cached_names(s: &Session<SecretShape>) -> Vec<&str> {
    s.cached().iter().map(|(name, _)| name.as_str()).collect()
}

#[test]
fn session_sign_in_is_idempotent_one_browser() {
    let mut outside = Outside::default();
    let mut s = Session::new();
    assert!(!s.is_signed_in());
    outside.sign_in(&mut s).unwrap();
    outside.sign_in(&mut s).unwrap();
    assert!(s.is_signed_in());
    assert_eq!(outside.sign_ins, 1, "second sign_in must be a no-op");
}

#[test]
fn session_load_all_envs_succeed_returns_view_and_caches() {
    let mut outside = Outside {
        mints: vec![cred_ok(), cred_ok()],
        reads: vec![secret_json(r#"{"A":"1","B":"x"}"#), secret_json(r#"{"A":"1"}"#)],
        ..Outside::default()
    };
    let mut s = Session::new();
    let corrected = outside
        .load(&mut s, &app(vec![mapping("prod", "app/prod"), mapping("staging", "app/staging")]))
        .unwrap();
    assert!(corrected.is_empty(), "no recovery on the happy path");
    assert_eq!(cached_names(&s), vec!["prod", "staging"]);
    assert!(matches!(&s.cached()[0].1, SecretShape::Json(t) if t.expose() == r#"{"A":"1","B":"x"}"#));
    assert!(matches!(&s.cached()[1].1, SecretShape::Json(t) if t.expose() == r#"{"A":"1"}"#));
}

#[test]
fn session_load_one_env_fails_is_whole_app_error_naming_it() {
    let mut outside = Outside {
        mints: vec![cred_ok(), cred_ok()],
        reads: vec![
            secret_json(r#"{"A":"1"}"#),
            Err(SessionError::AccessDenied),
            Err(SessionError::AccessDenied),
        ],
        ..Outside::default()
    };
    let mut s = Session::new();
    let err = outside
        .load(&mut s, &app(vec![mapping("prod", "app/prod"), mapping("staging", "app/staging")]))
        .unwrap_err();
    assert_eq!(err.failures.len(), 1);
    assert_eq!(err.failures[0].environment, "staging");
    assert_eq!(err.failures[0].reason, FetchFailReason::AccessDenied);
}

#[test]
fn session_load_maps_signin_failure_to_needs_sign_in() {
    let mut outside = Outside { sign_in_fails: true, ..Outside::default() };
    let mut s = Session::new();
    let err = outside.load(&mut s, &app(vec![mapping("prod", "a/prod")])).unwrap_err();
    assert_eq!(err.failures[0].reason, FetchFailReason::NeedsSignIn);
}

#[test]
fn session_single_role_auto_corrects_retries_and_persists_corrected_mapping() {
    let mut outside = Outside {
        mints: vec![role_not_entitled(), cred_ok()],
        reads: vec![secret_json(r#"{"A":"1"}"#)],
        role_lists: vec![roles(&["PowerUser"])],
        ..Outside::default()
    };
    let mut s = Session::new();
    let corrected = outside.load(&mut s, &one_env("app/prod")).unwrap();
    assert_eq!(cached_names(&s), vec!["prod"]);
    assert_eq!(corrected.len(), 1);
    let c = &corrected[0];
    assert_eq!(c.environment, "prod");
    assert_eq!(c.permission_set, "PowerUser", "role rewritten");
    assert_eq!(c.account_id, "111111111111", "ONLY permission_set changed");
    assert_eq!(c.secret_id, "app/prod");
    assert_eq!(outside.role_list_count, 1, "exactly one re-list");
    assert_eq!(outside.mint_count, 2, "denied mint + corrected mint");
    assert_eq!(outside.sign_ins, 1, "recovery reuses the session token — no 2nd sign-in");
}

#[test]
fn session_ambiguous_roles_keeps_failure_and_never_auto_picks() {
    let mut outside = Outside {
        mints: vec![role_not_entitled()],
        role_lists: vec![roles(&["A", "B"])],
        ..Outside::default()
    };
    let mut s = Session::new();
    let err = outside.load(&mut s, &one_env("app/prod")).unwrap_err();
    assert_eq!(err.failures[0].reason, FetchFailReason::AccessDenied);
    assert_eq!(
        err.failures[0].detail, "ForbiddenException: No access",
        "keeps the real denial detail"
    );
    assert_eq!(outside.mint_count, 1, "no retry mint proves no silent pick");
    assert_eq!(outside.role_list_count, 1);
}

#[test]
fn session_no_entitled_roles_keeps_failure() {
    let mut outside = Outside {
        mints: vec![role_not_entitled()],
        role_lists: vec![roles(&[])],
        ..Outside::default()
    };
    let mut s = Session::new();
    let err = outside.load(&mut s, &one_env("app/prod")).unwrap_err();
    assert_eq!(err.failures[0].reason, FetchFailReason::AccessDenied);
    assert_eq!(outside.mint_count, 1, "no retry");
}

#[test]
fn session_single_role_equal_to_stored_is_a_noop() {
    let mut outside = Outside {
        mints: vec![role_not_entitled()],
        role_lists: vec![roles(&["ReadOnly"])],
        ..Outside::default()
    };
    let mut s = Session::new();
    let err = outside.load(&mut s, &one_env("app/prod")).unwrap_err();
    assert_eq!(err.failures[0].reason, FetchFailReason::AccessDenied);
    assert_eq!(outside.mint_count, 1, "no retry for a same-role 'correction'");
}

#[test]
fn session_recovery_retry_failure_surfaces_and_never_recovers_again() {
    let mut outside = Outside {
        mints: vec![role_not_entitled(), role_not_entitled()],
        role_lists: vec![roles(&["PowerUser"])],
        ..Outside::default()
    };
    let mut s = Session::new();
    let err = outside.load(&mut s, &one_env("app/prod")).unwrap_err();
    assert_eq!(err.failures[0].reason, FetchFailReason::AccessDenied);
    assert_eq!(outside.mint_count, 2, "denied + one retry, no more");
    assert_eq!(outside.role_list_count, 1, "at-most-once: no second re-list");
}

#[test]
fn session_reauth_at_role_step_does_not_trigger_recovery() {
    let mut outside = Outside {
        mints: vec![Err(SessionError::ReauthRequired), cred_ok()],
        reads: vec![secret_json(r#"{"A":"1"}"#)],
        ..Outside::default()
    };
    let mut s = Session::new();
    let corrected = outside.load(&mut s, &one_env("app/prod")).unwrap();
    assert!(corrected.is_empty());
    assert_eq!(outside.role_list_count, 0, "recovery never entered for a dead token");
    assert_eq!(outside.sign_ins, 2, "load sign-in + facade re-sign-in");
}

#[test]
fn session_list_roles_error_during_recovery_keeps_original_failure() {
    let mut outside = Outside {
        mints: vec![role_not_entitled()],
        role_lists: vec![Err(SessionError::Throttled)],
        ..Outside::default()
    };
    let mut s = Session::new();
    let err = outside.load(&mut s, &one_env("app/prod")).unwrap_err();
    assert_eq!(err.failures[0].reason, FetchFailReason::AccessDenied);
    assert_eq!(outside.mint_count, 1, "no retry when the re-list itself fails");
    assert_eq!(outside.role_list_count, 1);
}

#[test]
fn multi_env_only_the_failing_env_recovers() {
    let mut outside = Outside {
        mints: vec![role_not_entitled(), cred_ok(), cred_ok()],
        reads: vec![secret_json(r#"{"A":"1"}"#), secret_json(r#"{"A":"1"}"#)],
        role_lists: vec![roles(&["PowerUser"])],
        ..Outside::default()
    };
    let mut s = Session::new();
    let m_a = Mapping { account_id: "111".into(), ..mapping("prod", "app/prod") };
    let m_b = Mapping {
        account_id: "222".into(),
        environment: "staging".into(),
        ..m_a.clone()
    };
    let corrected = outside.load(&mut s, &app(vec![m_a, m_b])).unwrap();
    assert_eq!(cached_names(&s), vec!["prod", "staging"]);
    assert_eq!(corrected.len(), 1, "only the failing env was corrected");
    assert_eq!(corrected[0].environment, "prod");
    assert_eq!(corrected[0].permission_set, "PowerUser");
    assert_eq!(outside.role_list_count, 1, "only one env needed recovery");
}

#[test]
fn session_recovery_after_a_resign_in_uses_the_live_token() {
    let mut outside = Outside {
        mints: vec![Err(SessionError::ReauthRequired), role_not_entitled(), cred_ok()],
        reads: vec![secret_json(r#"{"A":"1"}"#)],
        role_lists: vec![roles(&["PowerUser"])],
        ..Outside::default()
    };
    let mut s = Session::new();
    let corrected = outside.load(&mut s, &one_env("app/prod")).unwrap();
    assert_eq!(corrected.len(), 1);
    assert_eq!(corrected[0].permission_set, "PowerUser");
    assert_eq!(outside.sign_ins, 2, "initial sign-in + one re-sign-in");
    assert_eq!(outside.role_list_count, 1, "recovery re-listed once");
    assert_eq!(outside.mint_count, 3, "dead + de-assigned + corrected mint");
    let live = s.facade_mut().expect("signed in").current_token().expose().to_string();
    assert_eq!(live, "token-2");
    assert_eq!(outside.listed, vec![("token-2".to_string(), "111111111111".to_string())]);
    assert_eq!(outside.minted_with, vec!["token-1", "token-2", "token-2"]);
}

#[test]
fn reveal_is_none_before_load_and_for_absent() {
    let s: Session<SecretShape> = Session::new();
    assert!(s.cached().is_empty(), "nothing cached yet");
}

#[test]
fn matrixview_and_shape_are_send() {
    fn assert_send<T: Send>() {}
    assert_send::<MatrixView>();
    assert_send::<SecretShape>();
    assert_send::<AppError>();
}

#[test]
fn begin_discovery_signs_in_then_auto_picks_to_done() {
    let mut outside = Outside {
        mints: vec![cred_ok()],
        account_lists: vec![Ok(vec![AccountSummary { id: "111".into(), name: "Prod".into() }])],
        role_lists: vec![roles(&["ReadOnly"])],
        secret_lists: vec![Ok(vec![SecretSummary {
            name: "app/prod".into(),
            arn: "arn:secret:app/prod".into(),
        }])],
        ..Outside::default()
    };
    let mut s = Session::new();
    let step = outside.begin_discovery(&mut s, "prod", "us-west-2").unwrap();
    let Step::Done(m) = step else {
        panic!("expected Done, got {step:?}");
    };
    assert_eq!(m.environment, "prod");
    assert_eq!(m.account_id, "111");
    assert_eq!(m.region, "us-west-2");
    assert_eq!(m.secret_id, "arn:secret:app/prod");
    assert_eq!(outside.sign_ins, 1, "discovery signs in exactly once");
    assert!(s.is_signed_in());
}

#[test]
fn discovery_reuses_the_load_token_without_a_second_sign_in() {
    let mut outside = Outside {
        mints: vec![cred_ok(), cred_ok()],
        reads: vec![secret_json(r#"{"A":"1"}"#)],
        account_lists: vec![Ok(vec![AccountSummary { id: "222".into(), name: "Staging".into() }])],
        role_lists: vec![roles(&["ReadOnly"])],
        secret_lists: vec![Ok(vec![SecretSummary {
            name: "app/staging".into(),
            arn: "arn:secret:app/staging".into(),
        }])],
        ..Outside::default()
    };
    let mut s = Session::new();
    outside.load(&mut s, &app(vec![mapping("prod", "app/prod")])).unwrap();
    let step = outside.begin_discovery(&mut s, "staging", "us-east-1").unwrap();
    assert!(matches!(step, Step::Done(_)));
    assert_eq!(outside.sign_ins, 1, "load + discovery share one Sign-in");
}

#[test]
fn session_discovery_reauth_clears_sign_in_so_next_sign_in_reauthenticates() {
    let mut outside = Outside {
        account_lists: vec![Err(SessionError::ReauthRequired)],
        ..Outside::default()
    };
    let mut s = Session::new();
    let step = outside.begin_discovery(&mut s, "prod", "us-east-1").unwrap();
    assert!(matches!(step, Step::Reauth));
    assert!(!s.is_signed_in(), "a dead-token discovery clears the session");
    outside.sign_in(&mut s).unwrap();
    assert_eq!(
        outside.sign_ins, 2,
        "re-sign-in re-authenticates against a fresh token, not a no-op"
    );
}

#[test]
fn advance_discovery_is_none_without_a_walk() {
    let mut s: Session<SecretShape> = Session::new();
    assert!(s.advance_discovery(0).is_none());
}

#[test]
fn a_session_goes_on_with_the_walk_that_rests() {
    let mut outside = Outside {
        mints: vec![cred_ok()],
        account_lists: vec![Ok(vec![
            AccountSummary { id: "111".into(), name: "Prod".into() },
            AccountSummary { id: "222".into(), name: "Staging".into() },
        ])],
        role_lists: vec![roles(&["ReadOnly"])],
        secret_lists: vec![Ok(vec![SecretSummary { name: "s".into(), arn: "arn:s".into() }])],
        ..Outside::default()
    };
    let mut s = Session::new();
    assert!(s.begin_discovery("e".into(), "r".into(), None).is_none(), "not signed in");
    let step = outside.begin_discovery(&mut s, "prod", "us-east-1").unwrap();
    assert!(matches!(step, Step::Ask { .. }));
    let next = s.advance_discovery(1).expect("a walk rests");
    let Step::Done(m) = outside.walk(&mut s, next) else {
        panic!("expected Done");
    };
    assert_eq!(m.account_id, "222");
}

fn source() -> AuthenticatedSource {
    AuthenticatedSource::new(CredentialBroker::new(SsoToken::new("t0".into(), at(28800))))
}

fn plain_mapping() -> Mapping {
    mapping("prod", "myapp/prod")
}

#[test]
fn happy_path_fetches_without_refresh_or_reauth() {
    let mut outside = Outside {
        mints: vec![cred("a", 3600)],
        reads: vec![secret_json(r#"{"A":"1"}"#)],
        ..Outside::default()
    };
    let shape = outside.fetch(&mut source(), &plain_mapping()).unwrap();
    assert!(matches!(shape, SecretShape::Json(_)));
    assert_eq!(outside.mint_count, 1);
    assert_eq!(outside.read_count, 1);
    assert_eq!(outside.sign_ins, 0);
}

#[test]
fn source_stale_credential_force_refreshes_once_then_succeeds() {
    let mut outside = Outside {
        mints: vec![cred("stale", 3600), cred("fresh", 3600)],
        reads: vec![Err(SessionError::AccessDenied), secret_json(r#"{"A":"1"}"#)],
        ..Outside::default()
    };
    let shape = outside.fetch(&mut source(), &plain_mapping()).unwrap();
    assert!(matches!(shape, SecretShape::Json(_)));
    assert_eq!(outside.mint_count, 2, "one initial mint + one force_refresh");
    assert_eq!(outside.read_count, 2, "one denied + one retry");
    assert_eq!(outside.sign_ins, 0, "no browser for a stale role credential");
}

#[test]
fn source_true_denial_force_refreshes_once_then_gives_access_denied() {
    let mut outside = Outside {
        mints: vec![cred("a", 3600), cred("b", 3600)],
        reads: vec![Err(SessionError::AccessDenied), Err(SessionError::AccessDenied)],
        ..Outside::default()
    };
    let err = outside.fetch(&mut source(), &plain_mapping()).unwrap_err();
    assert!(matches!(err, SessionError::AccessDenied));
    assert_eq!(outside.mint_count, 2, "exactly one wasted re-mint, no loop");
    assert_eq!(outside.read_count, 2);
    assert_eq!(outside.sign_ins, 0);
}

#[test]
fn source_dead_token_re_signs_in_once_then_succeeds() {
    let mut outside = Outside {
        mints: vec![Err(SessionError::ReauthRequired), cred("after-reauth", 3600)],
        reads: vec![secret_json(r#"{"A":"1"}"#)],
        ..Outside::default()
    };
    let shape = outside.fetch(&mut source(), &plain_mapping()).unwrap();
    assert!(matches!(shape, SecretShape::Json(_)));
    assert_eq!(outside.sign_ins, 1, "exactly one browser Sign-in");
    assert_eq!(outside.mint_count, 2);
}

#[test]
fn still_unauthorized_after_reauth_is_fatal() {
    let mut outside = Outside {
        mints: vec![Err(SessionError::ReauthRequired), Err(SessionError::ReauthRequired)],
        ..Outside::default()
    };
    let err = outside.fetch(&mut source(), &plain_mapping()).unwrap_err();
    assert!(matches!(err, SessionError::AccessDenied), "fatal, not another browser");
    assert_eq!(outside.sign_ins, 1, "browser opened at most once");
}

#[test]
fn a_failed_re_sign_in_keeps_the_session_and_needs_a_sign_in() {
    let mut outside = Outside {
        sign_in_fails: true,
        mints: vec![Err(SessionError::ReauthRequired)],
        ..Outside::default()
    };
    let mut source = source();
    let err = outside.fetch(&mut source, &plain_mapping()).unwrap_err();
    assert!(matches!(err, SessionError::ReauthRequired));
    assert_eq!(source.current_token().expose(), "t0");
}

#[test]
fn the_longest_climb_makes_two_calls_twice_and_opens_one_browser() {
    let mut outside = Outside {
        mints: vec![
            cred("a", 3600),
            cred("b", 3600),
            cred("c", 3600),
            cred("d", 3600),
        ],
        reads: vec![
            Err(SessionError::AccessDenied),
            Err(SessionError::ReauthRequired),
            Err(SessionError::AccessDenied),
            Err(SessionError::ReauthRequired),
        ],
        ..Outside::default()
    };
    let err = outside.fetch(&mut source(), &plain_mapping()).unwrap_err();
    assert!(matches!(err, SessionError::AccessDenied));
    assert_eq!((outside.mint_count, outside.read_count, outside.sign_ins), (4, 4, 1));
}

/// A Credential for the Mapping at `now`, minted where it has to be.
fn credential_at(
    outside: &mut Outside,
    broker: &mut CredentialBroker,
    now: i128,
) -> Result<Credential, SessionError> {
    match broker.credentials_for(&plain_mapping(), at(now)) {
        CredentialStep::Ready(c) => Ok(c),
        CredentialStep::Mint(turn) => {
            let reply = outside.mint();
            broker.minted(turn, reply)
        }
    }
}

#[test]
fn first_call_mints_and_second_call_hits_cache() {
    let mut outside = Outside { mints: vec![cred("first", 3600)], ..Outside::default() };
    let mut broker = CredentialBroker::new(SsoToken::new("token".into(), at(28800)));
    let c1 = credential_at(&mut outside, &mut broker, 0).unwrap();
    let c2 = credential_at(&mut outside, &mut broker, 0).unwrap();
    assert_eq!(c1.access_key_id(), "AKIA-first");
    assert_eq!(c2.access_key_id(), "AKIA-first");
    assert_eq!(outside.mint_count, 1, "second call must hit cache, not re-mint");
}

#[test]
fn near_expiry_triggers_remint() {
    let mut outside =
        Outside { mints: vec![cred("first", 3600), cred("second", 7200)], ..Outside::default() };
    let mut broker = CredentialBroker::new(SsoToken::new("token".into(), at(28800)));
    let first = credential_at(&mut outside, &mut broker, 0).unwrap();
    assert_eq!(first.access_key_id(), "AKIA-first");
    let second = credential_at(&mut outside, &mut broker, 3550).unwrap();
    assert_eq!(second.access_key_id(), "AKIA-second", "stale → re-minted");
    assert_eq!(outside.mint_count, 2);
}

#[test]
fn dead_token_surfaces_reauth_required() {
    let mut outside =
        Outside { mints: vec![Err(SessionError::ReauthRequired)], ..Outside::default() };
    let mut broker = CredentialBroker::new(SsoToken::new("token".into(), at(0)));
    let err = credential_at(&mut outside, &mut broker, 0).unwrap_err();
    assert!(matches!(err, SessionError::ReauthRequired));
}

#[test]
fn a_kept_credential_is_for_one_account_role_and_region() {
    assert_eq!(
        CredentialBroker::cache_key(&plain_mapping()),
        "111111111111|ReadOnly|us-east-1"
    );
    let mut outside = Outside { mints: vec![cred("first", 3600)], ..Outside::default() };
    let mut broker = CredentialBroker::new(SsoToken::new("token".into(), at(28800)));
    credential_at(&mut outside, &mut broker, 0).unwrap();
    for other in [
        Mapping { account_id: "2".into(), ..plain_mapping() },
        Mapping { permission_set: "Admin".into(), ..plain_mapping() },
        Mapping { region: "eu-west-1".into(), ..plain_mapping() },
    ] {
        assert!(matches!(broker.credentials_for(&other, at(0)), CredentialStep::Mint(_)));
    }
    let elsewhere = Mapping { secret_id: "other".into(), ..plain_mapping() };
    assert!(matches!(broker.credentials_for(&elsewhere, at(0)), CredentialStep::Ready(_)));
    assert!(matches!(broker.credentials_for(&plain_mapping(), at(3539)), CredentialStep::Ready(_)));
    assert!(matches!(broker.credentials_for(&plain_mapping(), at(3540)), CredentialStep::Mint(_)));
}
