use janitor::auth::authwalk::{
    front_half, front_half_accounts, front_half_mint, front_half_roles, terminal_for, FrontCall,
    FrontHalf, StepPlan,
};
use janitor::auth::error::SessionError;
use janitor::auth::method::MethodError;
use janitor::auth::types::{Credential, Timestamp, NANOS_PER_SEC};
use janitor::auth::wire::{AccountSummary, RawSecret, RoleSummary};
use janitor::aws::discovery::{Discovery, WalkStep};
use janitor::aws::harness::{
    masked_length, parse_edit_line, raw_line, value_line, what_word, EditLine,
};
use janitor::aws::method::SecretsManagerMethod;
use janitor::aws::presenter::{parse_choice, present, what_title, MenuAnswer, Presentation};
use janitor::aws::secret_write::{SecretWriteError, WriteStep};
use janitor::aws::secrets::{shape, SecretShape, SecretsClient};
use janitor::aws::wire::{CasOutcome, ReadSecret, SecretSummary};
use janitor::model::config::{Mapping, Method};
use janitor::model::provider::{FetchFailReason, Step, What};
use janitor::model::select::{plan_selection, Choice, SelectionPlan};
use janitor::model::write::{EnvEdit, EnvWriteError, WriteOutcome};

/// The outside, scripted: what it answers in order, and how often it was asked.
#[derive(Default)]
struct Outside {
    accounts: Vec<Result<Vec<AccountSummary>, SessionError>>,
    roles: Vec<Result<Vec<RoleSummary>, SessionError>>,
    role_list_count: u32,
    mints: Vec<Result<Credential, SessionError>>,
    mint_count: u32,
    secrets: Vec<Result<Vec<SecretSummary>, SessionError>>,
}

impl Outside {
    /// Answer a walk until it rests.
    fn rest(&mut self, first: WalkStep) -> (Step, Discovery) {
        let mut step = first;
        loop {
            step = match step {
                WalkStep::Accounts(turn) => turn.resume(self.accounts.remove(0)),
                WalkStep::Roles(turn) => {
                    self.role_list_count += 1;
                    turn.resume(self.roles.remove(0))
                }
                WalkStep::Mint(turn) => {
                    self.mint_count += 1;
                    turn.resume(self.mints.remove(0))
                }
                WalkStep::Secrets(turn) => turn.resume(self.secrets.remove(0)),
                WalkStep::Rest { step, walk } => return (step, walk),
            };
        }
    }

    fn start(&mut self, walk: Discovery) -> (Step, Discovery) {
        self.rest(walk.start())
    }

    /// Drive a walk to its end, typing the lines, and give what was printed.
    fn drive(&mut self, walk: Discovery, lines: &[&str]) -> (Step, String) {
        let mut lines = lines.iter();
        let mut printed = String::new();
        let (mut step, mut walk) = self.start(walk);
        loop {
            let next = match present(step) {
                Presentation::End(step) => return (step, printed),
                Presentation::Menu(turn) => {
                    let mut turn = turn;
                    let choice = loop {
                        printed.push_str(&turn.text());
                        let refusal = turn.refusal();
                        match turn.resume(lines.next().copied()) {
                            MenuAnswer::Choice(i) => break i,
                            MenuAnswer::Again(same) => {
                                printed.push_str(refusal);
                                turn = same;
                            }
                        }
                    };
                    walk.advance(choice)
                }
                Presentation::Input(turn) => {
                    printed.push_str(&turn.text());
                    walk.provide_input(turn.resume(lines.next().copied()))
                }
            };
            (step, walk) = self.rest(next);
        }
    }
}

fn at(secs: i128) -> Timestamp {
    Timestamp { nanos: secs * NANOS_PER_SEC as i128 }
}

fn account(id: &str, name: &str) -> AccountSummary {
    AccountSummary { id: id.into(), name: name.into() }
}

fn role(name: &str) -> RoleSummary {
    RoleSummary { name: name.into() }
}

fn secret(name: &str, arn: &str) -> SecretSummary {
    SecretSummary { name: name.into(), arn: arn.into() }
}

fn cred_ok() -> Result<Credential, SessionError> {
    Ok(Credential::new("AKIA-t".into(), "s".into(), "t".into(), at(3600)))
}

fn mapping() -> Mapping {
    Mapping {
        environment: "prod".into(),
        account_id: "111111111111".into(),
        region: "us-east-1".into(),
        secret_id: "myapp/prod".into(),
        permission_set: "ReadOnly".into(),
        method: Method::SecretsManager,
    }
}

fn remembered(account_id: &str, role: &str, secret_id: &str) -> Option<Mapping> {
    Some(Mapping {
        environment: "live".into(),
        account_id: account_id.into(),
        region: "us-east-1".into(),
        secret_id: secret_id.into(),
        permission_set: role.into(),
        method: Method::SecretsManager,
    })
}

fn walk(environment: &str, region: &str, remembered: Option<Mapping>) -> Discovery {
    Discovery::new(environment.into(), region.into(), remembered)
}

fn two_accounts() -> Outside {
    Outside {
        accounts: vec![Ok(vec![account("111", "Prod"), account("222", "Staging")])],
        roles: vec![Ok(vec![role("ReadOnly")])],
        mints: vec![cred_ok()],
        secrets: vec![Ok(vec![secret("myapp/s", "arn:secret:myapp/s")])],
        ..Outside::default()
    }
}

fn expect_list(plan: StepPlan) -> (What, Vec<String>, Vec<String>, Option<String>) {
    let StepPlan::List { what, choices, remembered } = plan else {
        panic!("expected a List plan");
    };
    let keys = choices.iter().map(|c| c.key.clone()).collect();
    let labels = choices.into_iter().map(|c| c.label).collect();
    (what, keys, labels, remembered)
}

#[test]
fn lists_accounts_when_nothing_chosen_and_passes_the_remembered_key() {
    assert_eq!(front_half(&vec![], "us-east-1"), FrontCall::ListAccounts, "no mint while listing");
    let FrontHalf::Plan(plan) = front_half_accounts(
        Ok(vec![account("111", "Prod"), account("222", "Staging")]),
        Some("222"),
    ) else {
        panic!("expected a Plan");
    };
    let (what, keys, labels, remembered) = expect_list(plan);
    assert_eq!(what, What::Accounts);
    assert_eq!(keys, vec!["111".to_string(), "222".to_string()]);
    assert_eq!(labels, vec!["Prod (111)".to_string(), "Staging (222)".to_string()]);
    assert_eq!(remembered.as_deref(), Some("222"));
}

#[test]
fn lists_roles_for_the_chosen_account() {
    assert_eq!(
        front_half(&vec!["111".into()], "us-east-1"),
        FrontCall::ListRoles { account_id: "111".into() },
        "listed roles for the account"
    );
    let FrontHalf::Plan(plan) =
        front_half_roles(Ok(vec![role("ReadOnly"), role("Admin")]), Some("Admin"))
    else {
        panic!("expected a Plan");
    };
    let (what, keys, _labels, remembered) = expect_list(plan);
    assert_eq!(what, What::Roles);
    assert_eq!(keys, vec!["ReadOnly".to_string(), "Admin".to_string()]);
    assert_eq!(remembered.as_deref(), Some("Admin"));
}

#[test]
fn mints_once_when_account_and_role_are_chosen() {
    assert_eq!(
        front_half(&vec!["111".into(), "ReadOnly".into()], "us-east-1"),
        FrontCall::Mint {
            account_id: "111".into(),
            role: "ReadOnly".into(),
            region: "us-east-1".into(),
        }
    );
    let FrontHalf::Ready { account_id, role, cred: _ } =
        front_half_mint("111", "ReadOnly", cred_ok())
    else {
        panic!("expected Ready once both keys are chosen");
    };
    assert_eq!(account_id, "111");
    assert_eq!(role, "ReadOnly");
}

#[test]
fn masks_a_list_error_as_a_terminal_failed_with_no_sdk_text() {
    let FrontHalf::Plan(StepPlan::Terminal(Step::Failed(reason))) =
        front_half_accounts(Err(SessionError::Sdk { context: "hunter2".into() }), None)
    else {
        panic!("expected a masked Failed terminal");
    };
    assert_eq!(reason, FetchFailReason::Other);
    assert!(!reason.describe().contains("hunter2"), "no SDK text leaks");
}

#[test]
fn a_dead_token_at_mint_is_a_reauth_terminal() {
    let outcome = front_half_mint("111", "ReadOnly", Err(SessionError::ReauthRequired));
    assert!(matches!(outcome, FrontHalf::Plan(StepPlan::Terminal(Step::Reauth))));
}

#[test]
fn terminal_for_routes_reauth_to_reauth_and_others_to_masked_failed() {
    assert!(matches!(terminal_for(&SessionError::ReauthRequired), Step::Reauth));
    let Step::Failed(reason) = terminal_for(&SessionError::AccessDenied) else {
        panic!("non-reauth is a masked Failed");
    };
    assert_eq!(reason, FetchFailReason::AccessDenied);
}

#[test]
fn single_account_role_secret_auto_picks_to_done() {
    let mut outside = Outside {
        accounts: vec![Ok(vec![account("111111111111", "Prod")])],
        roles: vec![Ok(vec![role("ReadOnly")])],
        mints: vec![cred_ok()],
        secrets: vec![Ok(vec![secret(
            "myapp/prod",
            "arn:aws:secretsmanager:us-west-2:111111111111:secret:myapp/prod",
        )])],
        ..Outside::default()
    };
    let (step, _) = outside.start(walk("prod", "us-west-2", None));
    let Step::Done(m) = step else {
        panic!("expected Done, got {step:?}");
    };
    assert_eq!(m.environment, "prod");
    assert_eq!(m.account_id, "111111111111");
    assert_eq!(m.region, "us-west-2");
    assert_eq!(m.permission_set, "ReadOnly");
    assert_eq!(
        m.secret_id, "arn:aws:secretsmanager:us-west-2:111111111111:secret:myapp/prod",
        "secret_id is the ARN, not the friendly name"
    );
    assert_eq!(outside.mint_count, 1, "minted exactly once");
}

#[test]
fn two_walks_with_different_browse_regions_yield_cross_region_mappings() {
    let discover_in = |region: &str, env: &str| {
        let mut outside = Outside {
            accounts: vec![Ok(vec![account("111111111111", "Prod")])],
            roles: vec![Ok(vec![role("ReadOnly")])],
            mints: vec![cred_ok()],
            secrets: vec![Ok(vec![secret("myapp", "arn:secret:myapp")])],
            ..Outside::default()
        };
        let Step::Done(m) = outside.start(walk(env, region, None)).0 else {
            panic!("expected Done");
        };
        m
    };
    let east = discover_in("us-east-1", "prod");
    let west = discover_in("us-west-2", "staging");
    assert_eq!(east.region, "us-east-1");
    assert_eq!(west.region, "us-west-2");
    assert_ne!(east.region, west.region, "the two Environments of one Application span regions");
}

#[test]
fn many_accounts_ask_carries_labels_and_remembered_default() {
    let mut outside = two_accounts();
    let (step, _) =
        outside.start(walk("staging", "us-east-1", remembered("222", "ReadOnly", "arn:old")));
    let Step::Ask { what, choices, default } = step else {
        panic!("expected Ask");
    };
    assert_eq!(what, What::Accounts);
    assert_eq!(
        choices,
        vec!["Prod (111)".to_string(), "Staging (222)".to_string()],
        "choices are the presenter labels, in list order"
    );
    assert_eq!(default, Some(1), "remembered account 222 pre-selects index 1");
}

#[test]
fn many_accounts_asks_first_without_over_fetching_then_advances_to_done() {
    let mut outside = Outside {
        secrets: vec![Ok(vec![secret("myapp/staging", "arn:secret:myapp/staging")])],
        ..two_accounts()
    };
    let (step, rested) = outside.start(walk("staging", "us-east-1", None));
    let Step::Ask { what, choices, .. } = step else {
        panic!("expected Ask, got {step:?}");
    };
    assert_eq!(what, What::Accounts);
    assert_eq!(choices.len(), 2);
    assert_eq!(outside.role_list_count, 0, "must not list roles before the account is chosen");
    assert_eq!(outside.mint_count, 0, "must not mint before the account is chosen");

    let (step, _) = outside.rest(rested.advance(1));
    let Step::Done(m) = step else {
        panic!("expected Done, got {step:?}");
    };
    assert_eq!(m.account_id, "222", "advanced to the chosen account");
    assert_eq!(m.permission_set, "ReadOnly");
    assert_eq!(m.secret_id, "arn:secret:myapp/staging");
}

#[test]
fn single_account_then_many_roles_asks_roles_with_remembered_default() {
    let mut outside = Outside {
        accounts: vec![Ok(vec![account("111", "Prod")])],
        roles: vec![Ok(vec![role("ReadOnly"), role("Admin")])],
        mints: vec![cred_ok()],
        secrets: vec![Ok(vec![secret("s", "arn:s")])],
        ..Outside::default()
    };
    let (step, rested) =
        outside.start(walk("prod", "us-east-1", remembered("111", "Admin", "arn:old")));
    let Step::Ask { what, choices, default } = step else {
        panic!("expected Ask roles");
    };
    assert_eq!(what, What::Roles);
    assert_eq!(choices, vec!["ReadOnly".to_string(), "Admin".to_string()]);
    assert_eq!(default, Some(1), "remembered role Admin pre-selects index 1");
    assert_eq!(outside.mint_count, 0, "must not mint a credential before the role is chosen");

    let Step::Done(m) = outside.rest(rested.advance(0)).0 else {
        panic!("expected Done");
    };
    assert_eq!(m.account_id, "111");
    assert_eq!(m.permission_set, "ReadOnly");
}

#[test]
fn many_secrets_asks_secrets_and_chosen_secret_arn_lands_in_mapping() {
    let mut outside = Outside {
        accounts: vec![Ok(vec![account("111", "Prod")])],
        roles: vec![Ok(vec![role("ReadOnly")])],
        mints: vec![cred_ok()],
        secrets: vec![Ok(vec![secret("myapp/a", "arn:a"), secret("myapp/b", "arn:b")])],
        ..Outside::default()
    };
    let (step, rested) =
        outside.start(walk("prod", "us-east-1", remembered("111", "ReadOnly", "arn:b")));
    let Step::Ask { what, choices, default } = step else {
        panic!("expected Ask secrets");
    };
    assert_eq!(what, What::Secrets);
    assert_eq!(
        choices,
        vec!["myapp/a".to_string(), "myapp/b".to_string()],
        "secrets are labelled by friendly name, not ARN"
    );
    assert_eq!(default, Some(1), "remembered secret arn:b pre-selects index 1");
    assert_eq!(outside.mint_count, 1, "credential minted once to list secrets");

    let Step::Done(m) = outside.rest(rested.advance(0)).0 else {
        panic!("expected Done");
    };
    assert_eq!(m.secret_id, "arn:a", "chosen secret's ARN lands in the Mapping");
    assert_eq!(outside.mint_count, 1, "and not minted again");
}

#[test]
fn advance_clamps_out_of_range_choice() {
    let mut outside = two_accounts();
    let (step, rested) = outside.start(walk("prod", "us-east-1", None));
    assert!(matches!(step, Step::Ask { .. }));
    let Step::Done(m) = outside.rest(rested.advance(99)).0 else {
        panic!("expected Done");
    };
    assert_eq!(m.account_id, "222", "out-of-range clamps to the last account");
}

#[test]
fn no_accounts_is_empty_for_that_step() {
    let mut outside = Outside { accounts: vec![Ok(vec![])], ..Outside::default() };
    let (step, _) = outside.start(walk("prod", "us-east-1", None));
    assert!(matches!(step, Step::Empty(What::Accounts)));
}

#[test]
fn list_error_is_failed_with_a_masked_reason() {
    let mut outside = Outside {
        accounts: vec![Err(SessionError::Sdk { context: "hunter2".into() })],
        ..Outside::default()
    };
    let Step::Failed(reason) = outside.start(walk("prod", "us-east-1", None)).0 else {
        panic!("expected Failed");
    };
    assert_eq!(reason, FetchFailReason::Other);
    assert!(!reason.describe().contains("hunter2"), "no SDK text leaks");
}

#[test]
fn reauth_required_listing_accounts_is_reauth_step() {
    let mut outside =
        Outside { accounts: vec![Err(SessionError::ReauthRequired)], ..Outside::default() };
    assert!(matches!(outside.start(walk("prod", "us-east-1", None)).0, Step::Reauth));
}

#[test]
fn access_denied_listing_roles_is_failed_with_that_reason() {
    let mut outside = Outside {
        accounts: vec![Ok(vec![account("111", "Prod")])],
        roles: vec![Err(SessionError::AccessDenied)],
        ..Outside::default()
    };
    let Step::Failed(reason) = outside.start(walk("prod", "us-east-1", None)).0 else {
        panic!("expected Failed");
    };
    assert_eq!(reason, FetchFailReason::AccessDenied);
}

#[test]
fn throttled_listing_secrets_is_failed_with_that_reason_no_leak() {
    let mut outside = Outside {
        accounts: vec![Ok(vec![account("111", "Prod")])],
        roles: vec![Ok(vec![role("ReadOnly")])],
        mints: vec![cred_ok()],
        secrets: vec![Err(SessionError::Throttled)],
        ..Outside::default()
    };
    let Step::Failed(reason) = outside.start(walk("prod", "us-east-1", None)).0 else {
        panic!("expected Failed");
    };
    assert_eq!(reason, FetchFailReason::Throttled);
    assert_eq!(reason.describe(), "throttled, try again");
}

#[test]
fn reauth_required_listing_roles_is_reauth_step() {
    let mut outside = Outside {
        accounts: vec![Ok(vec![account("111", "Prod")])],
        roles: vec![Err(SessionError::ReauthRequired)],
        ..Outside::default()
    };
    assert!(matches!(outside.start(walk("prod", "us-east-1", None)).0, Step::Reauth));
}

#[test]
fn reauth_required_minting_credentials_is_reauth_step() {
    let mut outside = Outside {
        accounts: vec![Ok(vec![account("111", "Prod")])],
        roles: vec![Ok(vec![role("ReadOnly")])],
        mints: vec![Err(SessionError::ReauthRequired)],
        ..Outside::default()
    };
    assert!(matches!(outside.start(walk("prod", "us-east-1", None)).0, Step::Reauth));
}

#[test]
fn reauth_required_listing_secrets_is_reauth_step() {
    let mut outside = Outside {
        accounts: vec![Ok(vec![account("111", "Prod")])],
        roles: vec![Ok(vec![role("ReadOnly")])],
        mints: vec![cred_ok()],
        secrets: vec![Err(SessionError::ReauthRequired)],
        ..Outside::default()
    };
    assert!(matches!(outside.start(walk("prod", "us-east-1", None)).0, Step::Reauth));
}

#[test]
fn a_walk_asks_for_the_account_role_and_region_it_was_told() {
    let WalkStep::Accounts(turn) = walk("prod", "eu-west-1", None).start() else {
        panic!("accounts first");
    };
    let WalkStep::Roles(turn) = turn.resume(Ok(vec![account("111", "Prod")])) else {
        panic!("roles next");
    };
    assert_eq!(turn.account_id(), "111");
    let WalkStep::Mint(turn) = turn.resume(Ok(vec![role("ReadOnly")])) else {
        panic!("then a Credential");
    };
    assert_eq!((turn.account_id(), turn.role(), turn.region()), ("111", "ReadOnly", "eu-west-1"));
    let WalkStep::Secrets(turn) = turn.resume(cred_ok()) else {
        panic!("then the secrets");
    };
    assert_eq!(turn.region(), "eu-west-1");
    assert_eq!(turn.credential().access_key_id(), "AKIA-t");
}

#[test]
fn an_answer_to_no_question_fails_closed() {
    let WalkStep::Rest { step, walk } = walk("prod", "r", None).advance(0) else {
        panic!("rests");
    };
    assert!(matches!(step, Step::Failed(FetchFailReason::Other)));
    let WalkStep::Rest { step, .. } = walk.provide_input("/x".into()) else {
        panic!("rests");
    };
    assert!(matches!(step, Step::Failed(FetchFailReason::Other)));
}

#[test]
fn a_selection_is_planned_by_how_many_there_are() {
    let one = |key: &str| Choice { key: key.into(), label: key.into() };
    assert_eq!(plan_selection(&vec![], Some("a")), SelectionPlan::Empty);
    assert_eq!(plan_selection(&vec![one("a")], Some("b")), SelectionPlan::Auto(0));
    let two = vec![one("a"), one("b")];
    assert_eq!(plan_selection(&two, None), SelectionPlan::Ask { default: None });
    assert_eq!(plan_selection(&two, Some("b")), SelectionPlan::Ask { default: Some(1) });
    assert_eq!(plan_selection(&two, Some("gone")), SelectionPlan::Ask { default: None });
}

#[test]
fn many_choices_render_a_numbered_menu_and_a_typed_pick_advances() {
    let mut outside = two_accounts();
    let (step, rendered) = outside.drive(walk("env", "us-east-1", None), &["2\n"]);
    let Step::Done(m) = step else {
        panic!("expected Done, got {step:?}");
    };
    assert_eq!(m.account_id, "222", "typed '2' chose the second account");
    assert!(rendered.contains("[1] Prod (111)"), "menu line 1: {rendered}");
    assert!(rendered.contains("[2] Staging (222)"), "menu line 2: {rendered}");
    assert_eq!(
        rendered,
        "\nChoose an account:\n  [1] Prod (111)\n  [2] Staging (222)\nchoose 1-2: "
    );
}

#[test]
fn empty_line_accepts_the_remembered_default() {
    let mut outside = two_accounts();
    let (step, rendered) = outside
        .drive(walk("env", "us-east-1", remembered("222", "ReadOnly", "arn:old")), &["\n"]);
    let Step::Done(m) = step else {
        panic!("expected Done");
    };
    assert_eq!(m.account_id, "222", "Enter accepted the remembered default");
    assert!(
        rendered.contains("[2] Staging (222) (default)"),
        "default is marked: {rendered}"
    );
    assert!(rendered.contains("[default 2]"), "hint names the default: {rendered}");
}

#[test]
fn invalid_input_reprompts_then_accepts_a_valid_choice() {
    let mut outside = two_accounts();
    let (step, rendered) =
        outside.drive(walk("env", "us-east-1", None), &["9\n", "abc\n", "1\n"]);
    let Step::Done(m) = step else {
        panic!("expected Done");
    };
    assert_eq!(m.account_id, "111", "the valid '1' was accepted");
    assert_eq!(
        rendered.matches("invalid choice, try again").count(),
        2,
        "two invalid lines were rejected: {rendered}"
    );
}

#[test]
fn empty_and_failed_walks_pass_their_terminal_step_through() {
    let mut empty = Outside { accounts: vec![Ok(vec![])], ..Outside::default() };
    let (step, printed) = empty.drive(walk("prod", "us-east-1", None), &[]);
    assert!(matches!(step, Step::Empty(What::Accounts)), "got {step:?}");
    assert!(printed.is_empty(), "no menu for an empty walk");

    let mut failed = Outside {
        accounts: vec![Ok(vec![account("111", "Prod")])],
        roles: vec![Err(SessionError::AccessDenied)],
        ..Outside::default()
    };
    let Step::Failed(reason) = failed.drive(walk("prod", "us-east-1", None), &[]).0 else {
        panic!("expected Failed");
    };
    assert_eq!(reason, FetchFailReason::AccessDenied);
}

#[test]
fn singleton_walk_auto_picks_to_done_without_reading_input() {
    let mut outside = Outside {
        accounts: vec![Ok(vec![account("111111111111", "Prod")])],
        roles: vec![Ok(vec![role("ReadOnly")])],
        mints: vec![cred_ok()],
        secrets: vec![Ok(vec![secret(
            "myapp/prod",
            "arn:aws:secretsmanager:us-west-2:111111111111:secret:myapp/prod",
        )])],
        ..Outside::default()
    };
    let (step, printed) = outside.drive(walk("prod", "us-west-2", None), &[]);
    let Step::Done(m) = step else {
        panic!("expected Done, got {step:?}");
    };
    assert_eq!(m.account_id, "111111111111");
    assert_eq!(m.permission_set, "ReadOnly");
    assert!(printed.is_empty(), "no menu should be rendered for an all-singleton walk");
}

fn path_question() -> Step {
    Step::Input {
        what: What::FilePath,
        prompt: "Path to the remote .env".into(),
        default: Some("/app/.env".into()),
    }
}

#[test]
fn input_step_reads_a_typed_line_and_feeds_it_back() {
    let Presentation::Input(turn) = present(path_question()) else {
        panic!("a text is asked for");
    };
    let rendered = turn.text();
    assert!(
        rendered.contains("Path to the remote .env"),
        "the Input prompt is rendered: {rendered}"
    );
    assert!(
        rendered.contains("[default /app/.env]"),
        "the remembered default is offered: {rendered}"
    );
    assert_eq!(turn.resume(Some("/custom/path/.env\n")), "/custom/path/.env");
}

#[test]
fn input_step_empty_line_accepts_the_remembered_default() {
    let Presentation::Input(turn) = present(path_question()) else {
        panic!("a text is asked for");
    };
    assert_eq!(turn.resume(Some("\n")), "/app/.env");
    let Presentation::Input(turn) = present(path_question()) else {
        panic!("a text is asked for");
    };
    assert_eq!(turn.resume(None), "/app/.env", "so does the end of the input");
    let Presentation::Input(turn) =
        present(Step::Input { what: What::FilePath, prompt: "p".into(), default: None })
    else {
        panic!("a text is asked for");
    };
    assert_eq!(turn.text(), "\np: ");
    assert_eq!(turn.resume(Some("  \n")), "");
}

#[test]
fn a_line_means_an_entry_the_default_or_nothing() {
    assert_eq!(parse_choice(" 2 \n", 3, None), Some(1));
    assert_eq!(parse_choice("+2", 3, None), Some(1));
    assert_eq!(parse_choice("0", 3, Some(1)), None);
    assert_eq!(parse_choice("4", 3, Some(1)), None);
    assert_eq!(parse_choice("-1", 3, None), None);
    assert_eq!(parse_choice("", 3, Some(1)), Some(1));
    assert_eq!(parse_choice("\t", 3, None), None);
    assert_eq!(parse_choice("99999999999999999999999999", 3, None), None);
    assert_eq!(what_title(What::Instances), "Choose an instance:");
    assert_eq!(what_title(What::FilePath), "Enter a path:");
}

#[test]
fn the_end_of_the_input_takes_the_default_or_the_first() {
    let ask = |default| Step::Ask {
        what: What::Roles,
        choices: vec!["a".into(), "b".into()],
        default,
    };
    let Presentation::Menu(turn) = present(ask(None)) else {
        panic!("a menu");
    };
    assert!(matches!(turn.resume(None), MenuAnswer::Choice(0)));
    let Presentation::Menu(turn) = present(ask(Some(1))) else {
        panic!("a menu");
    };
    assert!(matches!(turn.resume(None), MenuAnswer::Choice(1)));
}

fn fetch(raw: Result<RawSecret, SessionError>) -> Result<SecretShape, SessionError> {
    let turn = SecretsClient::new().fetch(&mapping());
    assert_eq!((turn.secret_id(), turn.region()), ("myapp/prod", "us-east-1"));
    turn.resume(raw)
}

#[test]
fn json_object_string_becomes_json_shape() {
    let shape = fetch(Ok(RawSecret::new(Some(r#"{"A":"1"}"#.into()), None))).unwrap();
    assert!(matches!(shape, SecretShape::Json(_)));
}

#[test]
fn non_json_string_becomes_raw_shape() {
    let shape = fetch(Ok(RawSecret::new(Some("just-a-token".into()), None))).unwrap();
    assert!(matches!(shape, SecretShape::Raw(_)));
}

#[test]
fn binary_becomes_binary_shape() {
    match fetch(Ok(RawSecret::new(None, Some(vec![1, 2, 3, 4])))).unwrap() {
        SecretShape::Binary(b) => assert_eq!(b.expose(), &[1, 2, 3, 4]),
        other => panic!("expected Binary, got {other:?}"),
    }
}

#[test]
fn empty_response_is_not_found() {
    let err = fetch(Ok(RawSecret::new(None, None))).unwrap_err();
    assert!(matches!(err, SessionError::NotFound));
}

#[test]
fn propagates_access_denied() {
    let err = fetch(Err(SessionError::AccessDenied)).unwrap_err();
    assert!(matches!(err, SessionError::AccessDenied));
}

#[test]
fn a_text_goes_before_bytes_and_a_shape_never_shows_itself() {
    let both = shape(RawSecret::new(Some("[1]".into()), Some(vec![1]))).unwrap();
    assert!(matches!(&both, SecretShape::Raw(t) if t.expose() == "[1]"));
    let hidden = shape(RawSecret::new(Some("hunter2".into()), None)).unwrap();
    assert!(!format!("{hidden:?}").contains("hunter2"));
}

#[test]
fn kind_is_secrets_manager_and_no_advisory() {
    let m = SecretsManagerMethod::new();
    assert_eq!(m.kind(), Method::SecretsManager);
    assert!(!m.has_advisory(), "Secrets Manager has no operator advisory");
    assert!(!m.info().has_advisory);
}

#[test]
fn fetch_shapes_a_json_secret() {
    let m = SecretsManagerMethod::new();
    let turn = m.fetch(&mapping());
    let shape = m.fetched(turn, Ok(RawSecret::new(Some(r#"{"A":"1"}"#.into()), None))).unwrap();
    assert!(matches!(shape, SecretShape::Json(_)));
}

#[test]
fn fetch_masks_a_read_error_into_a_session_method_error() {
    let m = SecretsManagerMethod::new();
    let turn = m.fetch(&mapping());
    let err = m.fetched(turn, Err(SessionError::AccessDenied)).unwrap_err();
    assert!(matches!(err, MethodError::Session(SessionError::AccessDenied)));
    assert_eq!(err.reason(), FetchFailReason::AccessDenied);
    let err = m.fetched(m.fetch(&mapping()), Ok(RawSecret::new(None, None))).unwrap_err();
    assert!(matches!(err, MethodError::Session(SessionError::NotFound)));
}

fn read_json(text: &str) -> Result<ReadSecret, SessionError> {
    Ok(ReadSecret {
        raw: RawSecret::new(Some(text.into()), None),
        version_id: Some("v1".into()),
    })
}

#[test]
fn write_applies_a_flat_json_edit_through_the_engine() {
    let m = SecretsManagerMethod::new();
    let edits = vec![EnvEdit::put("A".into(), "2".into())];
    let WriteStep::Read(turn) = m.write(&mapping(), edits) else {
        panic!("reads first");
    };
    let WriteStep::Put(turn) = turn.resume(read_json(r#"{"A":"1"}"#)) else {
        panic!("then stages");
    };
    assert_eq!(turn.payload(), r#"{"A":"2"}"#);
    assert_eq!((turn.secret_id(), turn.region()), ("myapp/prod", "us-east-1"));
    let WriteStep::Commit(turn) = turn.resume(Ok("v2".into())) else {
        panic!("then moves the label");
    };
    let WriteStep::Strip(turn) = turn.resume(Ok(CasOutcome::Committed)) else {
        panic!("then settles");
    };
    let WriteStep::Done(end) = turn.resume() else {
        panic!("and is done");
    };
    assert_eq!(m.written(end).unwrap(), WriteOutcome::Applied);
}

#[test]
fn write_of_a_non_flat_secret_masks_to_unsupported_content() {
    let m = SecretsManagerMethod::new();
    let edits = vec![EnvEdit::put("A".into(), "2".into())];
    let WriteStep::Read(turn) = m.write(&mapping(), edits) else {
        panic!("reads first");
    };
    let WriteStep::Done(end) = turn.resume(read_json(r#"{"A":{"b":1}}"#)) else {
        panic!("and stages nothing");
    };
    let err = m.written(end).unwrap_err();
    assert_eq!(err.reason(), FetchFailReason::Unsupported);
    assert!(matches!(err, MethodError::Content { .. }));
}

#[test]
fn a_failed_write_is_masked_by_what_failed() {
    let m = SecretsManagerMethod::new();
    let err = m.written(Err(SecretWriteError::Session(SessionError::Throttled))).unwrap_err();
    assert_eq!(err, MethodError::Session(SessionError::Throttled));
    let err = m.written(Err(SecretWriteError::Edit(EnvWriteError::InvalidKey))).unwrap_err();
    assert_eq!(err, MethodError::Content { detail: "invalid key".into() });
}

#[test]
fn discovery_steps_drive_the_account_role_secret_tail_to_done() {
    let mut outside = Outside {
        accounts: vec![Ok(vec![account("111", "Prod")])],
        roles: vec![Ok(vec![role("ReadOnly")])],
        mints: vec![cred_ok()],
        secrets: vec![Ok(vec![secret("myapp/prod", "arn:secret:myapp/prod")])],
        ..Outside::default()
    };
    let steps = SecretsManagerMethod::new().discovery_steps("prod".into(), "us-west-2".into(), None);
    let Step::Done(mapping) = outside.start(steps).0 else {
        panic!("expected Done from the SM discovery tail");
    };
    assert_eq!(mapping.account_id, "111");
    assert_eq!(mapping.secret_id, "arn:secret:myapp/prod");
    assert_eq!(mapping.method, Method::SecretsManager);
}

#[test]
fn a_typed_line_finishes_removes_or_asks_for_a_value() {
    assert!(matches!(parse_edit_line("\r\n"), EditLine::Finish));
    assert!(matches!(parse_edit_line(""), EditLine::Finish));
    assert!(matches!(parse_edit_line("-OLD\n"), EditLine::Edit(EnvEdit::Remove { key }) if key == "OLD"));
    assert!(matches!(parse_edit_line(" K \n"), EditLine::NeedsValue { key } if key == " K "));
    match value_line("K".into(), " v \n") {
        EnvEdit::Put { key, value } => assert_eq!((key.as_str(), value.expose()), ("K", " v ")),
        other => panic!("expected Put, got {other:?}"),
    }
    assert_eq!(raw_line("a\nb\r\n\n"), "a\nb");
    assert_eq!(
        [What::Accounts, What::Roles, What::Secrets, What::Instances, What::FilePath]
            .map(what_word),
        ["accounts", "roles", "secrets", "instances", "paths"]
    );
}

#[test]
fn a_masked_report_says_how_long_a_value_is() {
    let entries = vec![("A".to_string(), 4), ("A.B".to_string(), 0)];
    assert_eq!(masked_length(&entries, "A"), Some(4));
    assert_eq!(masked_length(&entries, "A.B"), Some(0));
    assert_eq!(masked_length(&entries, "B"), None);
}
