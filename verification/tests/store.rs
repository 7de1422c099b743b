use janitor::model::config::{
    method_choices, Application, Config, IdentityCenter, Mapping, Method,
};
use janitor::model::matrix::{LoadStatus, MainPane};
use janitor::model::write::{summarize_edits, EditAction, EnvEdit};
use janitor::outside::secret::Plaintext;
use janitor::store::{is_revealed, ConfigError, ConfigFailure, ConfigStore, Edited, SinkError};

fn mapping() -> Mapping {
    Mapping {
        environment: "prod".to_string(),
        account_id: "111122223333".to_string(),
        region: "us-east-1".to_string(),
        secret_id: "billing/prod".to_string(),
        permission_set: "ReadOnly".to_string(),
        method: Method::SecretsManager,
    }
}

fn seeded_config() -> Config {
    Config {
        sso_start_url: "https://example.awsapps.com/start".to_string(),
        sso_region: "us-west-2".to_string(),
        applications: vec![Application {
            name: "payments".to_string(),
            environments: vec![Mapping { secret_id: "payments/prod".to_string(), ..mapping() }],
        }],
        ..Config::default()
    }
}

fn store() -> ConfigStore {
    ConfigStore::in_memory(seeded_config())
}

#[test]
fn the_in_memory_store_never_writes() {
    let mut store = store();
    assert!(!store.add_application("scratch".to_string()).save);
    assert!(!store.set_browse_region("eu-west-1".to_string()).save);
    assert!(!store.set_identity_center("u".to_string(), "r".to_string()).save);
    assert!(!store.rename_application(0, "other".to_string()).save);
    assert!(!store.add_environment(1, mapping()).save);
    assert!(!store.remove_environment(1, 0).save);
    assert!(!store.remove_application(1).save);
    assert_eq!(store.browse_region(), "eu-west-1");
}

#[test]
fn config_edits_run_the_core_rules() {
    let mut store = store();
    let before = store.applications().len();

    assert_eq!(store.add_application("   ".to_string()).answer, None);
    assert_eq!(store.applications().len(), before);

    let index = store
        .add_application("  payments  ".to_string())
        .answer
        .expect("a real name lands");
    assert_eq!(store.applications()[index].name, "payments", "trimmed");

    assert!(!store.rename_application(index, "  ".to_string()).answer);
    assert_eq!(store.applications()[index].name, "payments");
    assert!(store.rename_application(index, "billing".to_string()).answer);
    assert_eq!(store.applications()[index].name, "billing");
    assert!(
        !store.rename_application(9_999, "nowhere".to_string()).answer,
        "an index out of range is refused, not a panic"
    );

    assert!(store.add_environment(index, mapping()).answer);
    assert!(
        !store.add_environment(index, mapping()).answer,
        "a duplicate Environment is refused, never overwritten"
    );
    assert_eq!(store.environments(index).len(), 1);
    assert!(
        store.environments(9_999).is_empty(),
        "an index out of range answers empty rather than trapping"
    );

    store.remove_environment(index, 0);
    assert!(store.environments(index).is_empty());

    store.remove_application(index);
    assert_eq!(store.applications().len(), before);
}

#[test]
fn a_corrected_role_lands_on_the_environment_it_was_computed_for() {
    let mut store = store();
    let index =
        store.add_application("billing".to_string()).answer.expect("a real name lands");
    let gone = Mapping { permission_set: "GoneRole".to_string(), ..mapping() };
    assert!(store.add_environment(index, gone.clone()).answer);

    let recovered = Mapping { permission_set: "WorkingRole".to_string(), ..gone.clone() };
    assert_eq!(store.apply_corrected_roles(index, vec![recovered]).answer, 1);
    assert_eq!(store.environments(index)[0].permission_set, "WorkingRole");

    let elsewhere = Mapping {
        secret_id: "someone-else/prod".to_string(),
        permission_set: "WrongRole".to_string(),
        ..gone
    };
    assert_eq!(store.apply_corrected_roles(index, vec![elsewhere]).answer, 0);
    assert_eq!(store.environments(index)[0].permission_set, "WorkingRole");
}

#[test]
fn the_browse_region_and_the_org_are_one_value_each() {
    let mut store = store();
    assert_eq!(store.browse_region(), "us-west-2", "the org's where none is set");
    store.set_browse_region("ap-southeast-2".to_string());
    assert_eq!(store.browse_region(), "ap-southeast-2");
    assert!(
        store
            .region_choices(vec!["us-east-1".to_string(), "eu-west-1".to_string()])
            .contains(&"ap-southeast-2".to_string()),
        "the operator's own region is always offered"
    );

    store.set_identity_center(
        "https://acme.awsapps.com/start".to_string(),
        "us-east-1".to_string(),
    );
    assert_eq!(
        store.identity_center(),
        IdentityCenter {
            start_url: "https://acme.awsapps.com/start".to_string(),
            region: "us-east-1".to_string(),
        }
    );
    assert_eq!(store.snapshot().sso_region, "us-east-1");
}

#[test]
fn regions_are_offered_once_and_the_known_ones_first() {
    let mut store = store();
    store.set_browse_region("eu-north-1".to_string());
    let known = vec!["eu-west-1".to_string(), "us-east-1".to_string()];
    assert_eq!(
        store.region_choices(known),
        ["eu-west-1", "us-east-1", "eu-north-1", "us-west-2"],
        "then the browsed region and the org's; the Environment's is known already"
    );
    assert_eq!(
        store.region_choices(Vec::new()),
        ["eu-north-1", "us-west-2", "us-east-1"]
    );
}

#[test]
fn the_store_answers_the_panes() {
    let store = store();
    assert_eq!(store.main_pane(LoadStatus::Idle), MainPane::SignIn);
    assert_eq!(store.main_pane(LoadStatus::Loaded), MainPane::Matrix);
    let empty = ConfigStore::in_memory(Config::default());
    assert_eq!(
        empty.main_pane(LoadStatus::Loaded),
        MainPane::EmptyApps,
        "signed in with nothing configured points at the sidebar, not a blank matrix"
    );
    assert_eq!(empty.main_pane(LoadStatus::SigningIn), MainPane::Signing);
    assert_eq!(empty.main_pane(LoadStatus::Loading), MainPane::Loading);
    assert_eq!(empty.main_pane(LoadStatus::Failed), MainPane::Error);
}

#[test]
fn a_config_failure_keeps_its_reason() {
    assert!(matches!(
        ConfigFailure::from(ConfigError::NoConfigDir),
        ConfigFailure::NoConfigDir
    ));
    let io = std::io::Error::other("disk is full").to_string();
    match ConfigFailure::from(ConfigError::Other { message: io.clone() }) {
        ConfigFailure::File { reason } => assert_eq!(reason, io),
        other => panic!("an I/O failure is a File failure, got {other:?}"),
    }
    assert_eq!(
        ConfigFailure::NoConfigDir.to_string(),
        "could not determine the OS config directory"
    );
    assert_eq!(ConfigFailure::File { reason: io.clone() }.to_string(), io);
}

#[test]
fn the_exported_reveal_gate_is_the_core_one() {
    for row in 0..4i32 {
        for col in 0..4i32 {
            assert_eq!(is_revealed(1, 2, row, col), row == 1 && col == 2);
        }
    }
    assert!(!is_revealed(-1, -1, 0, 0), "the idle sentinel reveals nothing");
    assert!(!is_revealed(-1, -1, -1, -1), "not even itself");
}

#[test]
fn methods_are_listed_in_order_and_edits_are_masked() {
    assert_eq!(method_choices(), vec![Method::SecretsManager, Method::SsmDotenv]);
    let edits =
        vec![EnvEdit::put("A".to_string(), "1234".to_string()), EnvEdit::remove("B".to_string())];
    let summary = summarize_edits(&edits);
    assert_eq!(
        summary[0].value_len,
        Some(4),
        "a Set is masked to the new Value's length, never the Value"
    );
    assert_eq!((summary[0].key.as_str(), summary[0].action), ("A", EditAction::Put));
    assert_eq!((summary[1].key.as_str(), summary[1].action), ("B", EditAction::Remove));
    assert_eq!(summary[1].value_len, None);
}

#[test]
fn a_plaintext_redacts_its_debug() {
    let back = Plaintext::new(Plaintext::new("sk_live_prod_b80a0011".to_string()).expose_owned());
    assert_eq!(back.expose(), "sk_live_prod_b80a0011");
    assert!(
        !format!("{back:?}").contains("sk_live"),
        "a Plaintext must redact its Debug"
    );
    let edit = EnvEdit::put("K".to_string(), "sk_live_prod_b80a0011".to_string());
    assert!(!format!("{edit:?}").contains("sk_live"));
    assert!(!format!("{:?}", back.duplicate()).contains("sk_live"));
}

#[test]
fn a_persisting_store_asks_for_a_save_only_when_something_changed() {
    let mut store = ConfigStore::load(seeded_config());
    assert_eq!(store.add_application(" x ".to_string()), Edited { answer: Some(1), save: true });
    assert_eq!(store.add_application("\t".to_string()), Edited { answer: None, save: false });
    assert_eq!(
        store.rename_application(1, " x ".to_string()),
        Edited { answer: false, save: false },
        "the name it has"
    );
    assert!(store.rename_application(1, "y".to_string()).save);
    assert!(!store.remove_application(7).save);
    assert!(!store.remove_environment(0, 7).save);
    assert!(!store.remove_environment(7, 0).save);
    assert!(store.set_browse_region("eu-west-1".to_string()).save);
    assert!(!store.set_browse_region("eu-west-1".to_string()).save);
    assert!(store.set_identity_center("u".to_string(), "r".to_string()).save);
    assert!(!store.set_identity_center("u".to_string(), "r".to_string()).save);
    assert!(store.add_environment(1, mapping()).save);
    assert!(!store.add_environment(1, mapping()).save);
    assert!(!store.add_environment(9, mapping()).save);
    let before = store.snapshot();
    let same = Edited { answer: 0, save: false };
    assert_eq!(store.apply_corrected_roles(1, vec![mapping()]), same, "the role it has");
    assert_eq!(store.apply_corrected_roles(9, vec![mapping()]), same);
    assert_eq!(store.snapshot(), before);
    let admin = Mapping { permission_set: "Admin".to_string(), ..mapping() };
    assert_eq!(
        store.apply_corrected_roles(1, vec![admin.clone(), mapping(), mapping()]),
        Edited { answer: 2, save: true }
    );
    assert!(store.remove_environment(1, 0).save);
    assert!(store.remove_application(1).save);
    assert_eq!(store.applications().len(), 1);
}

#[test]
fn a_refused_event_has_its_message() {
    assert_eq!(SinkError::Rejected.to_string(), "the event sink did not accept the event");
}
