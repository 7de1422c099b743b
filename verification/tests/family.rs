use janitor::auth::broker::CredentialStep;
use janitor::auth::climb::ClimbStep;
use janitor::auth::error::{SessionError, SignInError};
use janitor::auth::family::{stamp_method, write_outcome, AwsFamilyProvider};
use janitor::auth::load::{
    declined_note, recover_role, LoadStep, MethodInfo, Registry, RoleResolution,
};
use janitor::auth::method::MethodError;
use janitor::auth::types::{Credential, SsoToken, Timestamp, NANOS_PER_SEC};
use janitor::auth::wire::RoleSummary;
use janitor::aws::secrets::SecretShape;
use janitor::model::config::{Application, Mapping, Method};
use janitor::model::provider::{AppError, Failure, FetchFailReason, SignInFailed, Step, What};
use janitor::model::write::WriteOutcome;
use janitor::outside::secret::Plaintext;

/// How a scripted walk behaves.
#[derive(Debug, Clone)]
enum Disco {
    DoneNow { advisory: Option<String> },
    Reauth,
    InputThenDone,
}

/// A scripted walk at rest.
#[derive(Debug, Clone)]
struct ScriptedWalk {
    disco: Disco,
    environment: String,
    region: String,
    advisory: Option<String>,
}

impl ScriptedWalk {
    fn next(&self, chosen: &[String]) -> Step {
        let done = Step::Done(Mapping {
            environment: self.environment.clone(),
            account_id: "111".into(),
            region: self.region.clone(),
            secret_id: chosen.last().cloned().unwrap_or_else(|| "loc".into()),
            permission_set: "ReadOnly".into(),
            method: Method::SecretsManager,
        });
        match &self.disco {
            Disco::DoneNow { .. } => done,
            Disco::Reauth => Step::Reauth,
            Disco::InputThenDone if chosen.is_empty() => Step::Input {
                what: What::FilePath,
                prompt: "path".into(),
                default: Some("/app/.env".into()),
            },
            Disco::InputThenDone => done,
        }
    }
}

type Provider = AwsFamilyProvider<SecretShape, ScriptedWalk>;

/// The outside, scripted: what it answers in order, and how often it was asked.
#[derive(Default)]
struct Outside {
    sign_in_fails: bool,
    sign_ins: u32,
    mints: Vec<Result<Credential, SessionError>>,
    mint_count: u32,
    role_lists: Vec<Result<Vec<RoleSummary>, SessionError>>,
    role_list_count: u32,
    /// The token and the account of every listing of roles.
    listed: Vec<(String, String)>,
    /// The token of every mint.
    minted_with: Vec<String>,
    fetches: Vec<Result<SecretShape, MethodError>>,
    fetched: Vec<Method>,
    advisory: Option<String>,
    advisory_count: u32,
    writes: Vec<Result<WriteOutcome, MethodError>>,
    write_count: u32,
}

impl Outside {
    fn token(&mut self) -> Result<SsoToken, SignInError> {
        self.sign_ins += 1;
        if self.sign_in_fails {
            Err(SignInError::TokenEndpoint)
        } else {
            Ok(SsoToken::new(format!("token-{}", self.sign_ins), at(28800)))
        }
    }

    fn mint(&mut self) -> Result<Credential, SessionError> {
        self.mint_count += 1;
        self.mints.remove(0)
    }

    fn sign_in(&mut self, p: &mut Provider) -> Result<(), SignInFailed> {
        if p.is_signed_in() {
            return Ok(());
        }
        p.sign_in(self.token())
    }

    fn climb<T>(
        &mut self,
        p: &mut Provider,
        first: ClimbStep<T, MethodError>,
        call: &mut dyn FnMut(&mut Outside, &Mapping) -> Result<T, MethodError>,
    ) -> Result<T, MethodError> {
        let mut step = first;
        loop {
            step = match step {
                ClimbStep::Mint(rung) => {
                    let call = p.broker().expect("signed in").mint_call(rung.mint());
                    self.minted_with.push(call.token.expose().to_string());
                    let reply = self.mint();
                    rung.resume(p.broker_mut().expect("signed in"), reply)
                }
                ClimbStep::Call(rung) => {
                    let reply = call(self, rung.target());
                    rung.resume(p.broker().expect("signed in"), reply)
                }
                ClimbStep::SignIn(rung) => {
                    let reply = self.token();
                    rung.resume(p.broker_mut().expect("signed in"), reply, at(0))
                }
                ClimbStep::Done(end) => return end,
            };
        }
    }

    fn fetch(&mut self, p: &mut Provider, m: &Mapping) -> Result<SecretShape, MethodError> {
        let first = p.fetch_with_ladder(m, at(0)).expect("signed in");
        self.climb(p, first, &mut |outside, m| {
            outside.fetched.push(m.method);
            outside.fetches.remove(0)
        })
    }

    fn load(&mut self, p: &mut Provider, app: &Application) -> Result<Vec<Mapping>, AppError> {
        let _ = self.sign_in(p);
        for m in p.probe_targets(app) {
            let broker = p.broker().expect("signed in");
            let ready = match broker.credentials_for(&m, at(0)) {
                CredentialStep::Ready(_) => true,
                CredentialStep::Mint(turn) => {
                    let reply = self.mint();
                    p.probe_minted(turn, reply).is_some()
                }
            };
            if ready {
                self.advisory_count += 1;
                if let Some(note) = self.advisory.clone() {
                    p.push_advisory(note);
                }
            }
        }
        let mut step = p.load(app);
        loop {
            step = match step {
                LoadStep::Fetch(turn) => {
                    let m = turn.mapping().clone();
                    turn.resume(self.fetch(p, &m))
                }
                LoadStep::Recover(turn) => {
                    self.role_list_count += 1;
                    let (token, account) = p.roles_to_list(&turn).expect("signed in");
                    self.listed.push((token.expose().to_string(), account.to_string()));
                    turn.resume(self.role_lists.remove(0))
                }
                LoadStep::Retry(turn) => {
                    let m = turn.mapping().clone();
                    turn.resume(self.fetch(p, &m))
                }
                LoadStep::Done(end) => return p.finish_load(end),
            };
        }
    }

    fn write(&mut self, p: &mut Provider, m: &Mapping) -> Result<WriteOutcome, Failure> {
        let _ = self.sign_in(p);
        let first = p.write(m, at(0))?;
        let end = self.climb(p, first, &mut |outside, _| {
            outside.write_count += 1;
            outside.writes.remove(0)
        });
        write_outcome(m, end)
    }

    fn begin_discovery(
        &mut self,
        p: &mut Provider,
        method: Method,
        environment: &str,
        region: &str,
        disco: Disco,
    ) -> Result<Step, SignInFailed> {
        self.sign_in(p)?;
        if let Some(step) = p.refuse_discovery(method) {
            return Ok(step);
        }
        let advisory = match &disco {
            Disco::DoneNow { advisory } => advisory.clone(),
            _ => None,
        };
        let mut walk = ScriptedWalk {
            disco,
            environment: environment.into(),
            region: region.into(),
            advisory,
        };
        let step = walk.next(&[]);
        let note = walk.advisory.take();
        Ok(p.walk_rested(method, walk, step, note))
    }
}

fn at(secs: i128) -> Timestamp {
    Timestamp { nanos: secs * NANOS_PER_SEC as i128 }
}

fn mapping(env: &str, secret_id: &str) -> Mapping {
    Mapping {
        environment: env.into(),
        account_id: "111111111111".into(),
        region: "us-east-1".into(),
        secret_id: secret_id.into(),
        permission_set: "ReadOnly".into(),
        method: Method::SecretsManager,
    }
}

fn ssm(env: &str, secret_id: &str) -> Mapping {
    Mapping { method: Method::SsmDotenv, ..mapping(env, secret_id) }
}

fn app(environments: Vec<Mapping>) -> Application {
    Application { name: "app".into(), environments }
}

fn one_env(secret_id: &str) -> Application {
    app(vec![mapping("prod", secret_id)])
}

fn cred_ok() -> Result<Credential, SessionError> {
    Ok(Credential::new("AKIA-t".into(), "s".into(), "t".into(), at(3600)))
}

fn role_not_entitled() -> Result<Credential, SessionError> {
    Err(SessionError::RoleNotEntitled { context: "ForbiddenException: No access".into() })
}

fn json(s: &str) -> Result<SecretShape, MethodError> {
    Ok(SecretShape::from_secret_string(Plaintext::new(s.into())))
}

fn denied<T>() -> Result<T, MethodError> {
    Err(MethodError::Session(SessionError::AccessDenied))
}

fn roles(names: &[&str]) -> Result<Vec<RoleSummary>, SessionError> {
    Ok(names.iter().map(|n| RoleSummary { name: (*n).into() }).collect())
}

const QUIET: MethodInfo = MethodInfo { has_advisory: false };
const NOTED: MethodInfo = MethodInfo { has_advisory: true };

fn sm_only() -> Provider {
    Provider::new(Registry { secrets_manager: Some(QUIET), ssm_dotenv: None })
}

fn ssm_only(info: MethodInfo) -> Provider {
    Provider::new(Registry { secrets_manager: None, ssm_dotenv: Some(info) })
}

fn cached_names(p: &Provider) -> Vec<&str> {
    p.cached().iter().map(|(name, _)| name.as_str()).collect()
}

fn cached_text(p: &Provider, i: usize) -> &str {
    match &p.cached()[i].1 {
        SecretShape::Json(text) => text.expose(),
        other => panic!("expected a JSON object, got {other:?}"),
    }
}

#[test]
fn family_sign_in_is_idempotent_one_browser() {
    let mut outside = Outside::default();
    let mut p = sm_only();
    assert!(!p.is_signed_in());
    outside.sign_in(&mut p).unwrap();
    outside.sign_in(&mut p).unwrap();
    assert!(p.is_signed_in());
    assert_eq!(outside.sign_ins, 1, "second sign_in must be a no-op");
    // Even a token that is handed over again does not replace the session's.
    p.sign_in(Ok(SsoToken::new("other".into(), at(1)))).unwrap();
    assert_eq!(p.broker().expect("signed in").token().expose(), "token-1");
}

#[test]
fn family_load_all_envs_succeed_returns_view_and_caches() {
    let mut outside = Outside {
        mints: vec![cred_ok(), cred_ok()],
        fetches: vec![json(r#"{"A":"1","B":"x"}"#), json(r#"{"A":"1"}"#)],
        ..Outside::default()
    };
    let mut p = sm_only();
    let corrected = outside
        .load(&mut p, &app(vec![mapping("prod", "app/prod"), mapping("staging", "app/staging")]))
        .unwrap();
    assert!(corrected.is_empty(), "no recovery on the happy path");
    assert_eq!(cached_names(&p), vec!["prod", "staging"]);
    assert_eq!(cached_text(&p, 0), r#"{"A":"1","B":"x"}"#);
    assert_eq!(cached_text(&p, 1), r#"{"A":"1"}"#, "B is a gap here");
}

#[test]
fn family_load_one_env_fails_is_whole_app_error_naming_it() {
    let mut outside = Outside {
        mints: vec![cred_ok(), cred_ok(), cred_ok()],
        fetches: vec![json(r#"{"A":"1"}"#), denied(), denied()],
        ..Outside::default()
    };
    let mut p = sm_only();
    let err = outside
        .load(&mut p, &app(vec![mapping("prod", "app/prod"), mapping("staging", "app/staging")]))
        .unwrap_err();
    assert_eq!(err.failures.len(), 1);
    assert_eq!(err.failures[0].environment, "staging");
    assert_eq!(err.failures[0].reason, FetchFailReason::AccessDenied);
    assert!(p.cached().is_empty(), "a failed load keeps nothing");
}

#[test]
fn family_load_maps_signin_failure_to_needs_sign_in() {
    let mut outside = Outside { sign_in_fails: true, ..Outside::default() };
    let mut p = sm_only();
    let err = outside.load(&mut p, &one_env("a/prod")).unwrap_err();
    assert_eq!(err.failures[0].reason, FetchFailReason::NeedsSignIn);
}

#[test]
fn reveal_is_none_before_load() {
    assert!(sm_only().cached().is_empty(), "nothing cached yet");
}

#[test]
fn content_error_is_unsupported_and_never_force_refreshed() {
    let mut outside = Outside {
        mints: vec![cred_ok()],
        fetches: vec![Err(MethodError::Content { detail: "malformed .env line 2".into() })],
        ..Outside::default()
    };
    let mut p = ssm_only(QUIET);
    let err = outside.load(&mut p, &app(vec![ssm("prod", "i-0abc:/app/.env")])).unwrap_err();
    assert_eq!(err.failures[0].reason, FetchFailReason::Unsupported);
    assert_eq!(err.failures[0].detail, "malformed .env line 2");
    assert_eq!(outside.fetched.len(), 1, "no force-refresh on a Content error");
}

#[test]
fn family_stale_credential_force_refreshes_once_then_succeeds() {
    let mut outside = Outside {
        mints: vec![cred_ok(), cred_ok()],
        fetches: vec![denied(), json(r#"{"A":"1"}"#)],
        ..Outside::default()
    };
    let mut p = sm_only();
    outside.load(&mut p, &one_env("app/prod")).unwrap();
    assert_eq!(outside.mint_count, 2, "one initial mint + one force_refresh");
    assert_eq!(outside.fetched.len(), 2, "one denied + one retry");
    assert_eq!(outside.sign_ins, 1, "no extra browser for a stale credential");
}

#[test]
fn family_true_denial_force_refreshes_once_then_gives_access_denied() {
    let mut outside = Outside {
        mints: vec![cred_ok(), cred_ok()],
        fetches: vec![denied(), denied()],
        ..Outside::default()
    };
    let mut p = sm_only();
    let err = outside.load(&mut p, &one_env("app/prod")).unwrap_err();
    assert_eq!(err.failures[0].reason, FetchFailReason::AccessDenied);
    assert_eq!(outside.mint_count, 2, "exactly one wasted re-mint, no loop");
    assert_eq!(outside.fetched.len(), 2);
}

#[test]
fn family_dead_token_re_signs_in_once_then_succeeds() {
    let mut outside = Outside {
        mints: vec![Err(SessionError::ReauthRequired), cred_ok()],
        fetches: vec![json(r#"{"A":"1"}"#)],
        ..Outside::default()
    };
    let mut p = sm_only();
    outside.load(&mut p, &one_env("app/prod")).unwrap();
    assert_eq!(outside.sign_ins, 2, "load sign-in + one re-sign-in");
    assert_eq!(outside.mint_count, 2);
    assert_eq!(outside.fetched.len(), 1, "fetch only after a good mint");
    assert_eq!(p.broker().expect("signed in").token().expose(), "token-2");
}

#[test]
fn still_unauthorized_after_reauth_is_fatal_no_browser_loop() {
    let mut outside = Outside {
        mints: vec![Err(SessionError::ReauthRequired), Err(SessionError::ReauthRequired)],
        ..Outside::default()
    };
    let mut p = sm_only();
    let err = outside.load(&mut p, &one_env("app/prod")).unwrap_err();
    assert_eq!(err.failures[0].reason, FetchFailReason::AccessDenied);
    assert_eq!(outside.sign_ins, 2, "load sign-in + at most one re-sign-in");
}

#[test]
fn a_re_sign_in_that_fails_needs_a_sign_in() {
    let mut outside =
        Outside { mints: vec![Err(SessionError::ReauthRequired)], ..Outside::default() };
    let mut p = sm_only();
    outside.sign_in(&mut p).unwrap();
    outside.sign_in_fails = true;
    let err = outside.load(&mut p, &one_env("app/prod")).unwrap_err();
    assert_eq!(err.failures[0].reason, FetchFailReason::NeedsSignIn);
}

#[test]
fn a_dead_token_at_the_call_is_answered_with_a_sign_in() {
    let mut outside = Outside {
        mints: vec![cred_ok(), cred_ok()],
        fetches: vec![
            Err(MethodError::Session(SessionError::ReauthRequired)),
            json(r#"{"A":"1"}"#),
        ],
        ..Outside::default()
    };
    let mut p = sm_only();
    outside.load(&mut p, &one_env("app/prod")).unwrap();
    assert_eq!(outside.sign_ins, 2);
    assert_eq!(outside.mint_count, 2, "nothing minted under the dead token is used again");
}

#[test]
fn family_single_role_auto_corrects_retries_and_persists_corrected_mapping() {
    let mut outside = Outside {
        mints: vec![role_not_entitled(), cred_ok()],
        role_lists: vec![roles(&["PowerUser"])],
        fetches: vec![json(r#"{"A":"1"}"#)],
        ..Outside::default()
    };
    let mut p = sm_only();
    let corrected = outside.load(&mut p, &one_env("app/prod")).unwrap();
    assert_eq!(cached_names(&p), vec!["prod"]);
    assert_eq!(corrected.len(), 1);
    let c = &corrected[0];
    assert_eq!(c.permission_set, "PowerUser", "role rewritten");
    assert_eq!(c.account_id, "111111111111", "ONLY permission_set changed");
    assert_eq!(c.method, Method::SecretsManager, "the method tag is preserved");
    assert_eq!(outside.role_list_count, 1, "exactly one re-list");
    assert_eq!(outside.mint_count, 2, "denied mint + corrected mint");
    assert_eq!(outside.sign_ins, 1, "recovery reuses the token — no 2nd sign-in");
}

#[test]
fn family_ambiguous_roles_keeps_failure_and_never_auto_picks() {
    let mut outside = Outside {
        mints: vec![role_not_entitled()],
        role_lists: vec![roles(&["A", "B"])],
        ..Outside::default()
    };
    let mut p = sm_only();
    let err = outside.load(&mut p, &one_env("app/prod")).unwrap_err();
    assert_eq!(err.failures[0].reason, FetchFailReason::AccessDenied);
    assert_eq!(
        err.failures[0].detail, "ForbiddenException: No access",
        "keeps the real denial detail"
    );
    assert_eq!(outside.mint_count, 1, "no retry mint proves no silent pick");
    assert_eq!(outside.role_list_count, 1);
}

#[test]
fn family_no_entitled_roles_keeps_failure() {
    let mut outside = Outside {
        mints: vec![role_not_entitled()],
        role_lists: vec![roles(&[])],
        ..Outside::default()
    };
    let mut p = sm_only();
    let err = outside.load(&mut p, &one_env("app/prod")).unwrap_err();
    assert_eq!(err.failures[0].reason, FetchFailReason::AccessDenied);
    assert_eq!(outside.mint_count, 1, "no retry");
}

#[test]
fn family_single_role_equal_to_stored_is_a_noop() {
    let mut outside = Outside {
        mints: vec![role_not_entitled()],
        role_lists: vec![roles(&["ReadOnly"])],
        ..Outside::default()
    };
    let mut p = sm_only();
    let err = outside.load(&mut p, &one_env("app/prod")).unwrap_err();
    assert_eq!(err.failures[0].reason, FetchFailReason::AccessDenied);
    assert_eq!(outside.mint_count, 1, "no retry for a same-role 'correction'");
}

#[test]
fn family_recovery_retry_failure_surfaces_and_never_recovers_again() {
    let mut outside = Outside {
        mints: vec![role_not_entitled(), role_not_entitled()],
        role_lists: vec![roles(&["PowerUser"])],
        ..Outside::default()
    };
    let mut p = sm_only();
    let err = outside.load(&mut p, &one_env("app/prod")).unwrap_err();
    assert_eq!(err.failures[0].reason, FetchFailReason::AccessDenied);
    assert_eq!(outside.mint_count, 2, "denied + one retry, no more");
    assert_eq!(outside.role_list_count, 1, "at-most-once: no second re-list");
}

#[test]
fn family_reauth_at_role_step_does_not_trigger_recovery() {
    let mut outside = Outside {
        mints: vec![Err(SessionError::ReauthRequired), cred_ok()],
        fetches: vec![json(r#"{"A":"1"}"#)],
        ..Outside::default()
    };
    let mut p = sm_only();
    let corrected = outside.load(&mut p, &one_env("app/prod")).unwrap();
    assert!(corrected.is_empty());
    assert_eq!(outside.role_list_count, 0, "recovery never entered for a dead token");
    assert_eq!(outside.sign_ins, 2, "load sign-in + facade re-sign-in");
}

#[test]
fn family_list_roles_error_during_recovery_keeps_original_failure() {
    let mut outside = Outside {
        mints: vec![role_not_entitled()],
        role_lists: vec![Err(SessionError::Throttled)],
        ..Outside::default()
    };
    let mut p = sm_only();
    let err = outside.load(&mut p, &one_env("app/prod")).unwrap_err();
    assert_eq!(err.failures[0].reason, FetchFailReason::AccessDenied);
    assert_eq!(outside.mint_count, 1, "no retry when the re-list itself fails");
    assert_eq!(outside.role_list_count, 1);
}

#[test]
fn family_recovery_after_a_resign_in_uses_the_live_token() {
    let mut outside = Outside {
        mints: vec![Err(SessionError::ReauthRequired), role_not_entitled(), cred_ok()],
        role_lists: vec![roles(&["PowerUser"])],
        fetches: vec![json(r#"{"A":"1"}"#)],
        ..Outside::default()
    };
    let mut p = sm_only();
    let corrected = outside.load(&mut p, &one_env("app/prod")).unwrap();
    assert_eq!(corrected.len(), 1);
    assert_eq!(corrected[0].permission_set, "PowerUser");
    assert_eq!(outside.sign_ins, 2, "initial sign-in + one re-sign-in");
    assert_eq!(outside.role_list_count, 1, "recovery re-listed once");
    assert_eq!(outside.mint_count, 3, "dead + de-assigned + corrected mint");
    assert_eq!(p.broker().expect("signed in").token().expose(), "token-2");
    assert_eq!(outside.listed, vec![("token-2".to_string(), "111111111111".to_string())]);
    assert_eq!(outside.minted_with, vec!["token-1", "token-2", "token-2"]);
}

#[test]
fn mixed_method_matrix_dispatches_per_mapping_and_reveals() {
    let mut outside = Outside {
        mints: vec![cred_ok(), cred_ok()],
        fetches: vec![json(r#"{"A":"1","B":"x"}"#), json(r#"{"A":"1"}"#)],
        ..Outside::default()
    };
    let mut p =
        Provider::new(Registry { secrets_manager: Some(QUIET), ssm_dotenv: Some(QUIET) });
    outside
        .load(&mut p, &app(vec![mapping("prod", "arn:prod"), ssm("staging", "i-stg:/app/.env")]))
        .unwrap();
    assert_eq!(cached_names(&p), vec!["prod", "staging"]);
    assert_eq!(
        outside.fetched,
        vec![Method::SecretsManager, Method::SsmDotenv],
        "each Method fetched its own Environment"
    );
    assert_eq!(cached_text(&p, 1), r#"{"A":"1"}"#, "reveal the SSM cell");
}

#[test]
fn load_with_no_method_in_registry_is_a_masked_failure() {
    let mut outside = Outside::default();
    let mut p = sm_only();
    let err = outside.load(&mut p, &app(vec![ssm("prod", "x")])).unwrap_err();
    assert_eq!(err.failures[0].reason, FetchFailReason::Other);
    assert_eq!(err.failures[0].detail, "no method configured for this Environment");
}

#[test]
fn load_surfaces_one_advisory_per_distinct_method_then_dedupes() {
    let mut outside = Outside {
        mints: vec![cred_ok(), cred_ok()],
        advisory: Some("logged to CloudWatch".into()),
        fetches: vec![
            json(r#"{"A":"1"}"#),
            json(r#"{"A":"1"}"#),
            json(r#"{"A":"1"}"#),
            json(r#"{"A":"1"}"#),
        ],
        ..Outside::default()
    };
    let mut p = ssm_only(NOTED);
    let both = app(vec![ssm("prod", "i-a:/app/.env"), ssm("staging", "i-b:/app/.env")]);
    outside.load(&mut p, &both).unwrap();
    assert_eq!(outside.advisory_count, 1, "probed once per DISTINCT method, not once per env");
    let adv = p.take_advisories();
    assert_eq!(adv.len(), 1);
    assert!(adv[0].contains("CloudWatch"));
    assert!(p.take_advisories().is_empty(), "advisories drained");
    outside.load(&mut p, &both).unwrap();
    assert!(p.take_advisories().is_empty(), "the same advisory is not surfaced twice");
    assert_eq!(outside.mint_count, 1, "both Environments share one kept Credential");
}

#[test]
fn a_probe_without_a_credential_is_left_out() {
    let mut outside = Outside {
        mints: vec![Err(SessionError::Throttled), cred_ok()],
        advisory: Some("logged to CloudWatch".into()),
        fetches: vec![json(r#"{"A":"1"}"#)],
        ..Outside::default()
    };
    let mut p = ssm_only(NOTED);
    outside.load(&mut p, &app(vec![ssm("prod", "i-a:/app/.env")])).unwrap();
    assert_eq!(outside.advisory_count, 0);
    assert!(p.take_advisories().is_empty());
    assert_eq!(outside.mint_count, 2, "the load mints for itself");
}

#[test]
fn no_advisory_from_the_secrets_manager_method() {
    let mut outside = Outside {
        mints: vec![cred_ok()],
        fetches: vec![json(r#"{"A":"1"}"#)],
        ..Outside::default()
    };
    let mut p = sm_only();
    outside.load(&mut p, &one_env("app/prod")).unwrap();
    assert!(p.take_advisories().is_empty(), "SM has no side-effect advisory");
    assert_eq!(outside.advisory_count, 0);
}

#[test]
fn begin_discovery_signs_in_drives_to_done_and_stamps_the_method() {
    let mut outside = Outside::default();
    let mut p = ssm_only(QUIET);
    let step = outside
        .begin_discovery(
            &mut p,
            Method::SsmDotenv,
            "prod",
            "us-west-2",
            Disco::DoneNow { advisory: None },
        )
        .unwrap();
    let Step::Done(m) = step else {
        panic!("expected Done, got {step:?}");
    };
    assert_eq!(m.environment, "prod");
    assert_eq!(
        m.method,
        Method::SsmDotenv,
        "the chosen method is stamped onto the discovered Mapping"
    );
    assert_eq!(outside.sign_ins, 1, "discovery signs in exactly once");
    assert!(p.is_signed_in());
}

#[test]
fn discovery_surfaces_a_mid_walk_advisory() {
    let mut outside = Outside::default();
    let mut p = ssm_only(QUIET);
    outside
        .begin_discovery(
            &mut p,
            Method::SsmDotenv,
            "prod",
            "us-east-1",
            Disco::DoneNow { advisory: Some("logged to S3".into()) },
        )
        .unwrap();
    let adv = p.take_advisories();
    assert_eq!(adv.len(), 1);
    assert!(adv[0].contains("S3"));
}

#[test]
fn provide_input_completes_a_walk_and_stamps_the_method() {
    let mut outside = Outside::default();
    let mut p = ssm_only(QUIET);
    let step = outside
        .begin_discovery(&mut p, Method::SsmDotenv, "prod", "us-east-1", Disco::InputThenDone)
        .unwrap();
    assert!(matches!(step, Step::Input { .. }));
    let (method, walk) = p.take_walk().expect("a walk is in progress");
    let step = walk.next(&["/srv/.env".to_string()]);
    let Step::Done(m) = p.walk_rested(method, walk, step, None) else {
        panic!("expected Done from the typed text");
    };
    assert_eq!(m.secret_id, "/srv/.env");
    assert_eq!(m.method, Method::SsmDotenv);
}

#[test]
fn family_discovery_reauth_clears_sign_in_so_next_sign_in_reauthenticates() {
    let mut outside = Outside::default();
    let mut p = sm_only();
    let step = outside
        .begin_discovery(&mut p, Method::SecretsManager, "prod", "us-east-1", Disco::Reauth)
        .unwrap();
    assert!(matches!(step, Step::Reauth));
    assert!(!p.is_signed_in(), "a dead-token discovery clears the session");
    assert!(p.take_walk().is_none());
    outside.sign_in(&mut p).unwrap();
    assert_eq!(outside.sign_ins, 2, "re-sign-in against a fresh token, not a no-op");
}

#[test]
fn advance_and_provide_input_are_none_without_a_walk() {
    assert!(sm_only().take_walk().is_none());
}

#[test]
fn begin_discovery_with_unknown_method_is_a_masked_failed() {
    let mut outside = Outside::default();
    let mut p = sm_only();
    let step = outside
        .begin_discovery(
            &mut p,
            Method::SsmDotenv,
            "prod",
            "us-east-1",
            Disco::DoneNow { advisory: None },
        )
        .unwrap();
    assert!(matches!(step, Step::Failed(FetchFailReason::Other)));
}

#[test]
fn write_dispatches_through_the_method_and_returns_the_cas_outcome() {
    let mut outside = Outside {
        mints: vec![cred_ok()],
        writes: vec![Ok(WriteOutcome::Applied)],
        ..Outside::default()
    };
    let mut p = ssm_only(QUIET);
    let outcome = outside.write(&mut p, &ssm("prod", "i-a:/app/.env")).unwrap();
    assert_eq!(outcome, WriteOutcome::Applied);
    assert_eq!(outside.sign_ins, 1, "write signs in once");
    assert_eq!(outside.mint_count, 1, "one Credential minted for the write");
    assert_eq!(outside.write_count, 1, "the method's write ran once");
}

#[test]
fn write_surfaces_a_cas_conflict_as_ok_not_an_error() {
    let mut outside = Outside {
        mints: vec![cred_ok()],
        writes: vec![Ok(WriteOutcome::Conflict)],
        ..Outside::default()
    };
    let mut p = ssm_only(QUIET);
    assert_eq!(
        outside.write(&mut p, &ssm("prod", "i-a:/app/.env")).unwrap(),
        WriteOutcome::Conflict
    );
}

#[test]
fn write_force_refreshes_once_on_access_denied_then_succeeds() {
    let mut outside = Outside {
        mints: vec![cred_ok(), cred_ok()],
        writes: vec![denied(), Ok(WriteOutcome::Applied)],
        ..Outside::default()
    };
    let mut p = ssm_only(QUIET);
    assert_eq!(
        outside.write(&mut p, &ssm("prod", "i-a:/app/.env")).unwrap(),
        WriteOutcome::Applied
    );
    assert_eq!(outside.mint_count, 2, "initial mint + one force_refresh");
    assert_eq!(outside.write_count, 2, "one denied + one retry");
}

#[test]
fn write_true_denial_force_refreshes_once_then_masks_access_denied() {
    let mut outside = Outside {
        mints: vec![cred_ok(), cred_ok()],
        writes: vec![denied(), denied()],
        ..Outside::default()
    };
    let mut p = ssm_only(QUIET);
    let err = outside.write(&mut p, &ssm("prod", "i-a:/app/.env")).unwrap_err();
    assert_eq!(err.reason, FetchFailReason::AccessDenied);
    assert_eq!(err.environment, "prod");
    assert_eq!(outside.mint_count, 2, "exactly one wasted re-mint, no loop");
    assert_eq!(outside.write_count, 2);
}

#[test]
fn write_re_signs_in_once_on_dead_token_then_succeeds() {
    let mut outside = Outside {
        mints: vec![Err(SessionError::ReauthRequired), cred_ok()],
        writes: vec![Ok(WriteOutcome::Applied)],
        ..Outside::default()
    };
    let mut p = ssm_only(QUIET);
    assert_eq!(
        outside.write(&mut p, &ssm("prod", "i-a:/app/.env")).unwrap(),
        WriteOutcome::Applied
    );
    assert_eq!(outside.sign_ins, 2, "write sign-in + one re-sign-in");
    assert_eq!(outside.write_count, 1, "write only after a good mint");
}

#[test]
fn write_still_unauthorized_after_reauth_is_fatal_no_loop() {
    let mut outside = Outside {
        mints: vec![Err(SessionError::ReauthRequired), Err(SessionError::ReauthRequired)],
        ..Outside::default()
    };
    let mut p = ssm_only(QUIET);
    let err = outside.write(&mut p, &ssm("prod", "i-a:/app/.env")).unwrap_err();
    assert_eq!(err.reason, FetchFailReason::AccessDenied);
    assert_eq!(outside.sign_ins, 2, "write sign-in + at most one re-sign-in");
}

#[test]
fn write_role_not_entitled_masks_access_denied_without_recovery() {
    let mut outside = Outside {
        mints: vec![role_not_entitled()],
        role_lists: vec![roles(&["PowerUser"])],
        ..Outside::default()
    };
    let mut p = ssm_only(QUIET);
    let err = outside.write(&mut p, &ssm("prod", "i-a:/app/.env")).unwrap_err();
    assert_eq!(err.reason, FetchFailReason::AccessDenied);
    assert_eq!(outside.role_list_count, 0, "no recovery re-list on a write");
    assert_eq!(outside.write_count, 0, "the mint denial precedes any write");
}

#[test]
fn write_with_no_method_in_registry_is_a_masked_other_failure() {
    let mut outside = Outside::default();
    let mut p = sm_only();
    let err = outside.write(&mut p, &ssm("prod", "x")).unwrap_err();
    assert_eq!(err.reason, FetchFailReason::Other);
}

#[test]
fn write_maps_a_sign_in_failure_to_needs_sign_in() {
    let mut outside = Outside { sign_in_fails: true, ..Outside::default() };
    let mut p = sm_only();
    let err = outside.write(&mut p, &mapping("prod", "a/prod")).unwrap_err();
    assert_eq!(err.reason, FetchFailReason::NeedsSignIn);
    assert_eq!(err.detail, "a fresh Sign-in is required");
}

#[test]
fn a_failed_load_keeps_the_sets_of_the_one_before() {
    let mut outside = Outside {
        mints: vec![cred_ok(), cred_ok()],
        fetches: vec![json(r#"{"A":"1"}"#), denied(), denied()],
        ..Outside::default()
    };
    let mut p = sm_only();
    outside.load(&mut p, &one_env("app/prod")).unwrap();
    outside.load(&mut p, &one_env("app/prod")).unwrap_err();
    assert_eq!(cached_text(&p, 0), r#"{"A":"1"}"#);
}

#[test]
fn every_environment_that_fails_is_named_and_none_else() {
    let mut outside = Outside {
        mints: vec![cred_ok()],
        fetches: vec![
            Err(MethodError::Session(SessionError::NotFound)),
            json("{}"),
            Err(MethodError::Content { detail: "bad".into() }),
        ],
        ..Outside::default()
    };
    let mut p = sm_only();
    let err = outside
        .load(
            &mut p,
            &app(vec![
                mapping("a", "1"),
                ssm("b", "2"),
                mapping("c", "3"),
                mapping("d", "4"),
            ]),
        )
        .unwrap_err();
    let named: Vec<_> = err.failures.iter().map(|f| (f.environment.as_str(), f.reason)).collect();
    assert_eq!(
        named,
        vec![
            ("a", FetchFailReason::NotFound),
            ("b", FetchFailReason::Other),
            ("d", FetchFailReason::Unsupported),
        ]
    );
}

#[test]
fn stamping_touches_only_a_finished_walk() {
    let Step::Done(m) = stamp_method(Step::Done(mapping("e", "s")), Method::SsmDotenv) else {
        panic!("still done");
    };
    assert_eq!(m, Mapping { method: Method::SsmDotenv, ..mapping("e", "s") });
    assert_eq!(stamp_method(Step::Reauth, Method::SsmDotenv), Step::Reauth);
}

#[test]
fn each_declined_recovery_has_its_note() {
    assert_eq!(recover_role(&roles(&["A", "B", "C"])), RoleResolution::Ambiguous(3));
    assert_eq!(recover_role(&roles(&["A"])), RoleResolution::Single("A".into()));
    assert_eq!(recover_role(&roles(&[])), RoleResolution::NoRole);
    assert_eq!(recover_role(&Err(SessionError::Throttled)), RoleResolution::ListFailed);
    assert_eq!(
        declined_note(&RoleResolution::Ambiguous(3)),
        "multiple entitled roles; not auto-selecting — surfacing access denied"
    );
    assert_eq!(declined_note(&RoleResolution::NoRole), "no entitled roles on this account");
    assert_eq!(
        declined_note(&RoleResolution::ListFailed),
        "could not list roles for recovery — keeping original denial"
    );
    assert_eq!(
        declined_note(&RoleResolution::Single("A".into())),
        "stored role is the only entitled one; denial is not a stale-role problem"
    );
}

#[test]
fn a_failed_load_has_one_failure_for_each_failed_environment_in_order() {
    let mut outside = Outside {
        mints: vec![cred_ok(), cred_ok(), cred_ok(), cred_ok(), cred_ok()],
        fetches: vec![denied(), denied(), json(r#"{"A":"1"}"#), denied(), denied()],
        ..Outside::default()
    };
    let mut p = sm_only();
    let unregistered = Mapping { method: Method::SsmDotenv, ..mapping("ssm", "i-1") };
    let err = outside
        .load(
            &mut p,
            &app(vec![
                mapping("dev", "app/dev"),
                mapping("prod", "app/prod"),
                unregistered,
                mapping("staging", "app/staging"),
            ]),
        )
        .unwrap_err();
    let named: Vec<&str> = err.failures.iter().map(|f| f.environment.as_str()).collect();
    assert_eq!(named, ["dev", "ssm", "staging"]);
}
