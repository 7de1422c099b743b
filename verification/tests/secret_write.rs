use janitor::auth::broker::CredentialBroker;
use janitor::auth::error::SessionError;
use janitor::auth::types::{Credential, SsoToken, Timestamp, NANOS_PER_SEC};
use janitor::auth::wire::RawSecret;
use janitor::aws::secret_write::{
    merge, parse_flat, validate_edits, write_secret, SecretWriteError, WriteStep, MAX_ATTEMPTS,
};
use janitor::aws::wire::{CasOutcome, ReadSecret};
use janitor::aws::writer::{SecretsManagerWriter, WriterStep};
use janitor::model::config::{Mapping, Method};
use janitor::model::provider::FetchFailReason;
use janitor::model::write::{EnvEdit, EnvWriteError, WriteOutcome};

struct PutCall {
    secret_string: String,
    token: String,
    version_stages: Vec<String>,
}

struct StageCall {
    version_stage: String,
    move_to: Option<String>,
    remove_from: Option<String>,
}

/// A scripted service: it answers in order and writes down what it was asked.
#[derive(Default)]
struct FakeSecretsApi {
    reads: Vec<Result<ReadSecret, SessionError>>,
    puts: Vec<Result<String, SessionError>>,
    stages: Vec<Result<CasOutcome, SessionError>>,
    calls: u32,
    /// The secret and the region of every call, in order.
    places: Vec<(String, String)>,
    put_calls: Vec<PutCall>,
    stage_calls: Vec<StageCall>,
}

impl FakeSecretsApi {
    fn commits(&self) -> Vec<&StageCall> {
        self.stage_calls.iter().filter(|c| c.move_to.is_some()).collect()
    }

    fn strips(&self) -> Vec<&StageCall> {
        self.stage_calls.iter().filter(|c| c.move_to.is_none()).collect()
    }

    fn at_place(&mut self, secret_id: &str, region: &str) {
        self.places.push((secret_id.to_string(), region.to_string()));
    }

    fn drive(&mut self, first: WriteStep) -> Result<WriteOutcome, SecretWriteError> {
        let mut step = first;
        loop {
            step = match step {
                WriteStep::Read(turn) => {
                    self.calls += 1;
                    self.at_place(turn.secret_id(), turn.region());
                    turn.resume(self.reads.remove(0))
                }
                WriteStep::Put(turn) => {
                    self.at_place(turn.secret_id(), turn.region());
                    self.put_calls.push(PutCall {
                        secret_string: turn.payload().to_string(),
                        token: turn.token().to_string(),
                        version_stages: vec![turn.pending().to_string()],
                    });
                    turn.resume(self.puts.remove(0))
                }
                WriteStep::Commit(turn) => {
                    self.at_place(turn.secret_id(), turn.region());
                    self.stage_calls.push(StageCall {
                        version_stage: turn.version_stage().to_string(),
                        move_to: Some(turn.move_to().to_string()),
                        remove_from: Some(turn.remove_from().to_string()),
                    });
                    turn.resume(self.stages.remove(0))
                }
                WriteStep::Strip(turn) => {
                    self.at_place(turn.secret_id(), turn.region());
                    self.stage_calls.push(StageCall {
                        version_stage: turn.pending().to_string(),
                        move_to: None,
                        remove_from: Some(turn.remove_from().to_string()),
                    });
                    turn.resume()
                }
                WriteStep::Done(end) => return end,
            };
        }
    }

    fn write(&mut self, edits: Vec<EnvEdit>) -> Result<WriteOutcome, SecretWriteError> {
        self.drive(write_secret("myapp/prod".to_string(), "us-east-1".to_string(), edits))
    }
}

fn read_json(text: &str, version: &str) -> Result<ReadSecret, SessionError> {
    Ok(ReadSecret {
        raw: RawSecret::new(Some(text.to_string()), None),
        version_id: Some(version.to_string()),
    })
}

fn set(key: &str, value: &str) -> EnvEdit {
    EnvEdit::put(key.to_string(), value.to_string())
}

fn at(secs: i128) -> Timestamp {
    Timestamp { nanos: secs * NANOS_PER_SEC as i128 }
}

#[test]
fn applied_stages_merges_commits_and_settles() {
    let mut api = FakeSecretsApi {
        reads: vec![read_json(r#"{"A":"1","B":"2"}"#, "v1")],
        puts: vec![Ok("v2".into())],
        stages: vec![Ok(CasOutcome::Committed)],
        ..FakeSecretsApi::default()
    };
    assert_eq!(api.write(vec![set("B", "x")]).unwrap(), WriteOutcome::Applied);

    assert_eq!(api.put_calls.len(), 1, "exactly one staged put");
    assert_eq!(api.put_calls[0].secret_string, r#"{"A":"1","B":"x"}"#);
    assert_eq!(
        api.put_calls[0].version_stages,
        vec![format!("janitor-pending-{}", api.put_calls[0].token)]
    );

    let commit = &api.commits()[0];
    assert_eq!(commit.version_stage, "AWSCURRENT");
    assert_eq!(commit.move_to.as_deref(), Some("v2"));
    assert_eq!(commit.remove_from.as_deref(), Some("v1"), "CAS base is the read version");
    let strip = &api.strips()[0];
    assert_eq!(strip.version_stage, format!("janitor-pending-{}", api.put_calls[0].token));
    assert_eq!(strip.move_to, None);
    assert_eq!(strip.remove_from.as_deref(), Some("v2"));
}

#[test]
fn preserves_untouched_non_string_scalar_verbatim() {
    let mut api = FakeSecretsApi {
        reads: vec![read_json(r#"{"A":1,"B":"2"}"#, "v1")],
        puts: vec![Ok("v2".into())],
        stages: vec![Ok(CasOutcome::Committed)],
        ..FakeSecretsApi::default()
    };
    api.write(vec![set("B", "x")]).unwrap();
    assert_eq!(api.put_calls[0].secret_string, r#"{"A":1,"B":"x"}"#);
}

#[test]
fn non_flat_payloads_are_unsupported_and_never_write() {
    for blob in [
        r#"{"A":{"b":1}}"#,
        r#"{"A":[1,2,3]}"#,
        r#"[1,2,3]"#,
        "just-a-token",
        r#""quoted-scalar""#,
    ] {
        let mut api =
            FakeSecretsApi { reads: vec![read_json(blob, "v1")], ..FakeSecretsApi::default() };
        let err = api.write(vec![set("B", "x")]).unwrap_err();
        assert_eq!(err.reason(), FetchFailReason::Unsupported, "blob {blob:?}");
        assert!(matches!(err, SecretWriteError::NotFlat));
        assert!(api.put_calls.is_empty(), "no write for {blob:?}");
        assert!(api.stage_calls.is_empty());
    }
}

#[test]
fn binary_payload_is_unsupported() {
    let mut api = FakeSecretsApi {
        reads: vec![Ok(ReadSecret {
            raw: RawSecret::new(None, Some(vec![1, 2, 3])),
            version_id: Some("v1".into()),
        })],
        ..FakeSecretsApi::default()
    };
    let err = api.write(vec![set("B", "x")]).unwrap_err();
    assert!(matches!(err, SecretWriteError::NotFlat));
    assert!(api.put_calls.is_empty());
}

#[test]
fn same_key_concurrent_change_stops_with_conflict() {
    let mut api = FakeSecretsApi {
        reads: vec![
            read_json(r#"{"A":"1","B":"2"}"#, "v1"),
            read_json(r#"{"A":"1","B":"99"}"#, "v3"),
        ],
        puts: vec![Ok("v2".into())],
        stages: vec![Ok(CasOutcome::Mismatch)],
        ..FakeSecretsApi::default()
    };
    let outcome = api.write(vec![set("B", "x")]).unwrap();
    assert_eq!(outcome, WriteOutcome::Conflict, "stop, never auto-merge");
    assert_eq!(api.calls, 2, "re-read on CAS race");
    assert_eq!(api.put_calls.len(), 1, "only the first attempt staged");
}

#[test]
fn other_key_change_replays_onto_fresh_and_applies() {
    let mut api = FakeSecretsApi {
        reads: vec![
            read_json(r#"{"A":"1","B":"2"}"#, "v1"),
            read_json(r#"{"A":"1","B":"2","C":"3"}"#, "v3"),
        ],
        puts: vec![Ok("v2".into()), Ok("v4".into())],
        stages: vec![Ok(CasOutcome::Mismatch), Ok(CasOutcome::Committed)],
        ..FakeSecretsApi::default()
    };
    assert_eq!(api.write(vec![set("B", "x")]).unwrap(), WriteOutcome::Applied);
    assert_eq!(api.put_calls.len(), 2);
    assert_eq!(api.put_calls[0].secret_string, r#"{"A":"1","B":"x"}"#);
    assert_eq!(
        api.put_calls[1].secret_string, r#"{"A":"1","B":"x","C":"3"}"#,
        "the retry preserves the teammate's C (replay-on-fresh)"
    );
    assert_ne!(api.put_calls[0].token, api.put_calls[1].token, "distinct payload → fresh token");
    assert_eq!(api.commits()[1].remove_from.as_deref(), Some("v3"));
}

#[test]
fn cas_failure_strips_the_orphaned_pending_label() {
    let mut api = FakeSecretsApi {
        reads: vec![read_json(r#"{"A":"1"}"#, "v1"), read_json(r#"{"A":"2"}"#, "v3")],
        puts: vec![Ok("v2".into()), Ok("v4".into())],
        stages: vec![Ok(CasOutcome::Mismatch), Ok(CasOutcome::Committed)],
        ..FakeSecretsApi::default()
    };
    api.write(vec![set("B", "x")]).unwrap();
    let strips = api.strips();
    let cleanup = strips
        .iter()
        .find(|c| c.remove_from.as_deref() == Some("v2"))
        .expect("the orphaned pending label was stripped");
    assert!(cleanup.version_stage.starts_with("janitor-pending-"));
    assert_eq!(cleanup.move_to, None);
}

#[test]
fn persistent_cas_race_exhausts_to_conflict() {
    let mut api = FakeSecretsApi {
        reads: vec![
            read_json(r#"{"A":"1"}"#, "v1"),
            read_json(r#"{"A":"1"}"#, "v1"),
            read_json(r#"{"A":"1"}"#, "v1"),
        ],
        puts: vec![Ok("v2".into()), Ok("v2".into()), Ok("v2".into())],
        stages: vec![
            Ok(CasOutcome::Mismatch),
            Ok(CasOutcome::Mismatch),
            Ok(CasOutcome::Mismatch),
        ],
        ..FakeSecretsApi::default()
    };
    assert_eq!(api.write(vec![set("B", "x")]).unwrap(), WriteOutcome::Conflict);
    assert_eq!(api.calls, MAX_ATTEMPTS, "exactly MAX_ATTEMPTS reads");
    assert_eq!(api.put_calls.len(), MAX_ATTEMPTS as usize);
    let tokens: std::collections::HashSet<_> =
        api.put_calls.iter().map(|p| p.token.clone()).collect();
    assert_eq!(tokens.len(), 1, "identical payload reuses one token");
}

#[test]
fn no_op_edit_writes_nothing() {
    let mut api = FakeSecretsApi {
        reads: vec![read_json(r#"{"A":"1","B":"2"}"#, "v1")],
        ..FakeSecretsApi::default()
    };
    let outcome = api.write(vec![set("B", "2"), EnvEdit::remove("ABSENT".to_string())]).unwrap();
    assert_eq!(outcome, WriteOutcome::Applied);
    assert_eq!(api.calls, 1, "read only");
    assert!(api.put_calls.is_empty(), "no PutSecretValue for a no-op");
    assert!(api.stage_calls.is_empty());
}

#[test]
fn invalid_key_fails_closed_without_any_io() {
    let mut api = FakeSecretsApi::default();
    let err = api.write(vec![set("", "v")]).unwrap_err();
    assert_eq!(err.reason(), FetchFailReason::Unsupported);
    assert!(matches!(err, SecretWriteError::Edit(EnvWriteError::InvalidKey)));
    assert_eq!(api.calls, 0, "no read for an invalid edit");
}

#[test]
fn read_failure_is_masked_and_skips_the_write() {
    let mut api = FakeSecretsApi {
        reads: vec![Err(SessionError::AccessDenied)],
        ..FakeSecretsApi::default()
    };
    let err = api.write(vec![set("B", "x")]).unwrap_err();
    assert_eq!(err.reason(), FetchFailReason::AccessDenied);
    assert!(!err.is_reauth());
    assert!(api.put_calls.is_empty());
}

#[test]
fn reauth_read_failure_is_flagged_for_reauth_routing() {
    let mut api = FakeSecretsApi {
        reads: vec![Err(SessionError::ReauthRequired)],
        ..FakeSecretsApi::default()
    };
    let err = api.write(vec![set("B", "x")]).unwrap_err();
    assert!(err.is_reauth());
    assert_eq!(err.reason(), FetchFailReason::NeedsSignIn);
}

#[test]
fn writer_mints_a_credential_then_writes() {
    let broker = CredentialBroker::new(SsoToken::new("t".into(), at(28800)));
    let mut api = FakeSecretsApi {
        reads: vec![read_json(r#"{"A":"1"}"#, "v1")],
        puts: vec![Ok("v2".into())],
        stages: vec![Ok(CasOutcome::Committed)],
        ..FakeSecretsApi::default()
    };
    let mut writer = SecretsManagerWriter::new(broker);
    let mapping = Mapping {
        environment: "prod".into(),
        account_id: "111111111111".into(),
        region: "us-east-1".into(),
        secret_id: "myapp/prod".into(),
        permission_set: "ReadOnly".into(),
        method: Method::SecretsManager,
    };
    let WriterStep::Mint(turn) = writer.write(&mapping, vec![set("A", "2")], at(0)) else {
        panic!("a Credential is minted first");
    };
    let call = writer.mint_call(&turn);
    assert_eq!(call.token.expose(), "t");
    assert_eq!(call.account_id, "111111111111");
    assert_eq!(call.permission_set, "ReadOnly");
    assert_eq!(call.region, "us-east-1");
    let minted = Credential::new("AKIA-t".into(), "s".into(), "t".into(), at(3600));
    let WriterStep::Write { credential, step } = writer.minted(turn, Ok(minted)) else {
        panic!("and then it writes");
    };
    assert_eq!(credential.access_key_id(), "AKIA-t");
    assert_eq!(api.drive(step).unwrap(), WriteOutcome::Applied);
    assert_eq!(api.put_calls[0].secret_string, r#"{"A":"2"}"#);
    assert!(api.places.iter().all(|p| p.0 == "myapp/prod" && p.1 == "us-east-1"));
    // The next write finds the Credential kept: minted exactly one.
    assert!(matches!(
        writer.write(&mapping, vec![set("A", "3")], at(0)),
        WriterStep::Write { .. }
    ));
}

#[test]
fn a_writer_without_a_credential_writes_nothing() {
    let broker = CredentialBroker::new(SsoToken::new("t".into(), at(28800)));
    let mut writer = SecretsManagerWriter::new(broker);
    let mapping = Mapping {
        environment: "prod".into(),
        account_id: "1".into(),
        region: "r".into(),
        secret_id: "s".into(),
        permission_set: "p".into(),
        method: Method::SecretsManager,
    };
    let WriterStep::Mint(turn) = writer.write(&mapping, vec![set("", "2")], at(0)) else {
        panic!("the mint comes before the edits are looked at");
    };
    let step = writer.minted(turn, Err(SessionError::Throttled));
    assert!(matches!(
        step,
        WriterStep::Failed(SecretWriteError::Session(SessionError::Throttled))
    ));
}

#[test]
fn a_read_without_a_version_cannot_be_compared_with() {
    let mut api = FakeSecretsApi {
        reads: vec![Ok(ReadSecret {
            raw: RawSecret::new(Some("{}".to_string()), None),
            version_id: None,
        })],
        ..FakeSecretsApi::default()
    };
    let err = api.write(vec![set("A", "1")]).unwrap_err();
    assert_eq!(err.reason(), FetchFailReason::Other);
    assert!(err.detail().contains("GetSecretValue: no VersionId"));
}

#[test]
fn a_failed_staging_or_move_ends_the_write() {
    let mut api = FakeSecretsApi {
        reads: vec![read_json("{}", "v1")],
        puts: vec![Err(SessionError::Throttled)],
        ..FakeSecretsApi::default()
    };
    let err = api.write(vec![set("A", "1")]).unwrap_err();
    assert_eq!(err.reason(), FetchFailReason::Throttled);
    assert!(api.stage_calls.is_empty());

    let mut api = FakeSecretsApi {
        reads: vec![read_json("{}", "v1")],
        puts: vec![Ok("v2".into())],
        stages: vec![Err(SessionError::AccessDenied)],
        ..FakeSecretsApi::default()
    };
    let err = api.write(vec![set("A", "1")]).unwrap_err();
    assert_eq!(err.reason(), FetchFailReason::AccessDenied);
    assert_eq!(api.stage_calls.len(), 1);
}

#[test]
fn each_write_error_has_its_detail() {
    assert_eq!(
        SecretWriteError::NotFlat.detail(),
        "secret is not a flat JSON object (cannot merge safely)"
    );
    assert_eq!(SecretWriteError::Edit(EnvWriteError::InvalidKey).detail(), "invalid key");
    assert_eq!(
        SecretWriteError::Session(SessionError::AccessDenied).detail(),
        SessionError::AccessDenied.to_string()
    );
}

#[test]
fn a_merge_obeys_the_last_edit_and_keeps_the_rest() {
    let fields = parse_flat(r#"{"keep":true,"gone":"x","n":-0.0,"z":null}"#).expect("flat");
    let edits = vec![
        set("new", "1"),
        set("new", "2"),
        EnvEdit::remove("gone".to_string()),
        set("gone2", "y"),
        EnvEdit::remove("gone2".to_string()),
    ];
    let once = merge(&fields, &edits);
    assert_eq!(once.get("keep"), Some(&serde_json::Value::Bool(true)));
    assert_eq!(once.get("z"), Some(&serde_json::Value::Null));
    assert_eq!(once.get("new"), Some(&serde_json::Value::String("2".into())));
    assert!(!once.contains_key("gone"));
    assert!(!once.contains_key("gone2"));
    assert_eq!(merge(&once, &edits), once, "merging again changes nothing");
}

#[test]
fn only_flat_objects_parse() {
    assert!(parse_flat("{}").is_some());
    assert!(parse_flat(r#"{"a":1,"b":"","c":null,"d":false}"#).is_some());
    assert!(parse_flat(r#"{"a":[]}"#).is_none());
    assert!(parse_flat(r#"{"a":{}}"#).is_none());
    assert!(parse_flat("7").is_none());
    assert!(parse_flat("").is_none());
}

#[test]
fn edits_without_a_key_are_refused_wherever_they_stand() {
    assert_eq!(validate_edits(&vec![]), Ok(()));
    assert_eq!(validate_edits(&vec![set("a", ""), EnvEdit::remove("b".into())]), Ok(()));
    assert_eq!(
        validate_edits(&vec![set("a", "1"), EnvEdit::remove(String::new())]),
        Err(EnvWriteError::InvalidKey)
    );
}

/// A write among other writers: whatever others put into the secret between its read
/// and its move of the label is kept.
#[test]
fn a_write_keeps_what_others_put_there_meanwhile() {
    let mut texts = vec![("v1".to_string(), r#"{"A":"1"}"#.to_string())];
    let mut current = "v1".to_string();
    let mut others = vec![("v9".to_string(), r#"{"A":"1","THEIRS":"t"}"#.to_string())];
    let mut step = write_secret("s".to_string(), "r".to_string(), vec![set("MINE", "m")]);
    let outcome = loop {
        step = match step {
            WriteStep::Read(turn) => {
                let text = texts.iter().find(|(v, _)| *v == current).expect("kept").1.clone();
                turn.resume(read_json(&text, &current))
            }
            WriteStep::Put(turn) => {
                texts.push((turn.token().to_string(), turn.payload().to_string()));
                let staged = turn.token().to_string();
                if let Some(other) = others.pop() {
                    current = other.0.clone();
                    texts.push(other);
                }
                turn.resume(Ok(staged))
            }
            WriteStep::Commit(turn) => {
                let outcome = if turn.remove_from() == current {
                    current = turn.move_to().to_string();
                    CasOutcome::Committed
                } else {
                    CasOutcome::Mismatch
                };
                turn.resume(Ok(outcome))
            }
            WriteStep::Strip(turn) => turn.resume(),
            WriteStep::Done(end) => break end.expect("no call fails"),
        };
    };
    assert_eq!(outcome, WriteOutcome::Applied);
    let text = &texts.iter().find(|(v, _)| *v == current).expect("kept").1;
    assert_eq!(text, r#"{"A":"1","MINE":"m","THEIRS":"t"}"#);
}

#[test]
fn a_committed_write_is_read_back() {
    let held = r#"{"BIG":18446744073709551615,"LOW":-9223372036854775808,"FLAG":null,"A\"B":"é\n","OLD":"x"}"#;
    let mut api = FakeSecretsApi {
        reads: vec![read_json(held, "v1")],
        puts: vec![Ok("v2".into())],
        stages: vec![Ok(CasOutcome::Committed)],
        ..FakeSecretsApi::default()
    };
    let edits = || vec![set("NEW", "tab\t\"quoted\""), EnvEdit::remove("OLD".to_string())];
    assert_eq!(api.write(edits()).unwrap(), WriteOutcome::Applied);

    let staged = api.put_calls[0].secret_string.clone();
    let was = parse_flat(held).unwrap();
    let now = parse_flat(&staged).expect("what is staged is a flat object");
    assert_eq!(now.get("NEW").and_then(|v| v.as_str()), Some("tab\t\"quoted\""));
    assert_eq!(now.get("OLD"), None);
    for key in ["BIG", "LOW", "FLAG", "A\"B"] {
        assert_eq!(now.get(key), was.get(key), "{key} is as it was");
    }

    let mut again =
        FakeSecretsApi { reads: vec![read_json(&staged, "v2")], ..FakeSecretsApi::default() };
    assert_eq!(again.write(edits()).unwrap(), WriteOutcome::Applied);
    assert!(again.put_calls.is_empty(), "the edits are in effect already");
}

#[test]
fn a_number_with_a_fraction_takes_nothing_else_with_it() {
    let held = r#"{"RATE":0.1,"PORT":5432,"HOST":"a"}"#;
    let mut api = FakeSecretsApi {
        reads: vec![read_json(held, "v1")],
        puts: vec![Ok("v2".into())],
        stages: vec![Ok(CasOutcome::Committed)],
        ..FakeSecretsApi::default()
    };
    assert_eq!(api.write(vec![set("HOST", "b")]).unwrap(), WriteOutcome::Applied);
    let now = parse_flat(&api.put_calls[0].secret_string).unwrap();
    assert_eq!(now.len(), 3);
    assert!(now.get("RATE").unwrap().is_number());
    assert_eq!(now.get("PORT").and_then(|v| v.as_u64()), Some(5432));
    assert_eq!(now.get("HOST").and_then(|v| v.as_str()), Some("b"));
}

#[test]
fn a_number_with_an_exponent_takes_nothing_else_with_it() {
    let held = r#"{"HUGE":1e300,"TINY":2.5e-7,"PORT":5432,"HOST":"a"}"#;
    let mut api = FakeSecretsApi {
        reads: vec![read_json(held, "v1")],
        puts: vec![Ok("v2".into())],
        stages: vec![Ok(CasOutcome::Committed)],
        ..FakeSecretsApi::default()
    };
    assert_eq!(api.write(vec![set("HOST", "b")]).unwrap(), WriteOutcome::Applied);
    let now = parse_flat(&api.put_calls[0].secret_string).expect("what is staged is read back");
    assert_eq!(now.len(), 4);
    assert_eq!(now.get("HUGE").and_then(|v| v.as_f64()), Some(1e300));
    assert_eq!(now.get("TINY").and_then(|v| v.as_f64()), Some(2.5e-7));
    assert_eq!(now.get("PORT").and_then(|v| v.as_u64()), Some(5432));
    assert_eq!(now.get("HOST").and_then(|v| v.as_str()), Some("b"));
}

#[test]
fn every_call_of_a_write_is_on_the_one_secret() {
    let mut api = FakeSecretsApi {
        reads: vec![read_json(r#"{"A":"1"}"#, "v1"), read_json(r#"{"A":"1","B":"x"}"#, "v9")],
        puts: vec![Ok("v2".into()), Ok("v3".into())],
        stages: vec![Ok(CasOutcome::Mismatch), Ok(CasOutcome::Committed)],
        ..FakeSecretsApi::default()
    };
    assert_eq!(api.write(vec![set("A", "2")]).unwrap(), WriteOutcome::Applied);
    assert_eq!(api.places.len(), 8, "two attempts of four calls");
    for place in &api.places {
        assert_eq!(*place, ("myapp/prod".to_string(), "us-east-1".to_string()));
    }
}

/// The outcome of a write of `A` that finds `then` where it had read `first`.
fn rewritten(first: &str, then: &str) -> WriteOutcome {
    let mut api = FakeSecretsApi {
        reads: vec![read_json(first, "v1"), read_json(then, "v9")],
        puts: vec![Ok("v2".into()), Ok("v3".into())],
        stages: vec![Ok(CasOutcome::Mismatch), Ok(CasOutcome::Committed)],
        ..FakeSecretsApi::default()
    };
    api.write(vec![set("A", "mine")]).unwrap()
}

#[test]
fn only_the_two_zeros_are_one_number() {
    assert_eq!(rewritten(r#"{"A":0.0}"#, r#"{"A":-0.0}"#), WriteOutcome::Applied);
    assert_eq!(rewritten(r#"{"A":-0.0}"#, r#"{"A":0.0}"#), WriteOutcome::Applied);
    assert_eq!(rewritten(r#"{"A":1.5}"#, r#"{"A":1.50}"#), WriteOutcome::Applied);
    for (first, then) in [
        (r#"{"A":0}"#, r#"{"A":0.0}"#),
        (r#"{"A":1}"#, r#"{"A":1.0}"#),
        (r#"{"A":1.5}"#, r#"{"A":-1.5}"#),
    ] {
        assert!(
            matches!(rewritten(first, then), WriteOutcome::Conflict { .. }),
            "{first} and {then} differ"
        );
    }
}
