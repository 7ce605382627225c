use domain_replay_supervisor_app::constants::{default_max_keys, default_region, MANIFEST_SCHEMA_VERSION};
use domain_replay_supervisor_app::planning::validation::validate_manifest;
use domain_replay_supervisor_app::types::{AuthorityMigrationInput, DomainReplayManifest, DomainRuntimeSpec};

fn domain() -> DomainRuntimeSpec {
    DomainRuntimeSpec {
        domain_id: "intel-candidate".to_owned(),
        target_app: "intel-candidate-app".to_owned(),
        target_mode: "replay".to_owned(),
        input_bucket: "input-bucket".to_owned(),
        input_region: "ap-northeast-2".to_owned(),
        input_profile: None,
        input_prefixes: vec!["structured-intel-packet/schema=structured_intel_packet_v1/".to_owned()],
        input_suffixes: vec![".json".to_owned(), ".jsonl".to_owned()],
        max_keys_per_prefix: 100,
        replay_triggers: vec!["scoring_policy_version_changed".to_owned()],
        output_bucket: "output-bucket".to_owned(),
        output_region: "ap-northeast-2".to_owned(),
        output_report_prefix: "candidate-replay-report".to_owned(),
        command_template: vec![
            "/usr/local/bin/intel-candidate-replay-worker".to_owned(),
            "--input-s3-bucket".to_owned(),
            "{input_bucket}".to_owned(),
            "--output-s3-bucket".to_owned(),
            "{output_bucket}".to_owned(),
            "{repeat_input_prefixes}".to_owned(),
        ],
    }
}

fn manifest() -> DomainReplayManifest {
    DomainReplayManifest {
        schema_version: MANIFEST_SCHEMA_VERSION.to_owned(),
        manifest_id: "manifest_001".to_owned(),
        domains: vec![domain()],
        authority_migration_records: vec![AuthorityMigrationInput {
            authority_scope: "control-plane-lite:domain-replay-supervisor".to_owned(),
            from_app: Some("legacy-supervisor".to_owned()),
            to_app: "domain-replay-supervisor-app".to_owned(),
            migration_reason: "centralized_replay_authority".to_owned(),
            effective_at_ms: Some(7_200_000),
        }],
    }
}

#[test]
fn manifest_validation_accepts_complete_manifest() {
    validate_manifest(&manifest()).expect("complete manifest should validate");
}

#[test]
fn manifest_validation_rejects_top_level_contract_errors() {
    let mut wrong_schema = manifest();
    wrong_schema.schema_version = "wrong".to_owned();
    assert!(validate_manifest(&wrong_schema)
        .unwrap_err()
        .to_string()
        .contains("schema_version"));

    let mut missing_id = manifest();
    missing_id.manifest_id = " ".to_owned();
    assert!(validate_manifest(&missing_id)
        .unwrap_err()
        .to_string()
        .contains("manifest_id"));

    let mut empty_domains = manifest();
    empty_domains.domains.clear();
    assert!(validate_manifest(&empty_domains)
        .unwrap_err()
        .to_string()
        .contains("at least one domain"));
}

#[test]
fn manifest_validation_rejects_incomplete_domain_specs() {
    let mut manifest = manifest();
    manifest.domains[0].input_prefixes.clear();

    let error = validate_manifest(&manifest).unwrap_err().to_string();

    assert!(error.contains("missing required fields"));
    assert!(error.contains("intel-candidate"));
}

#[test]
fn manifest_validation_rejects_incomplete_authority_migrations() {
    let mut missing_scope = manifest();
    missing_scope.authority_migration_records[0].authority_scope = " ".to_owned();
    assert!(validate_manifest(&missing_scope)
        .unwrap_err()
        .to_string()
        .contains("authority_migration_records require"));

    let mut negative_effective_at = manifest();
    negative_effective_at.authority_migration_records[0].effective_at_ms = Some(-1);
    assert!(validate_manifest(&negative_effective_at)
        .unwrap_err()
        .to_string()
        .contains("effective_at_ms must be non-negative"));
}

#[test]
fn manifest_validation_names_the_first_incomplete_domain() {
    let mut manifest = manifest();
    let mut second = domain();
    second.domain_id = "second".to_owned();
    second.output_bucket = "\t\n".to_owned();
    let mut third = domain();
    third.domain_id = "third".to_owned();
    third.command_template.clear();
    manifest.domains.push(second);
    manifest.domains.push(third);
    assert_eq!(
        validate_manifest(&manifest).unwrap_err().to_string(),
        "domain second is missing required fields"
    );
    assert_eq!(
        {
            let mut m = manifest.clone();
            m.schema_version = "v0".to_owned();
            validate_manifest(&m).unwrap_err().to_string()
        },
        format!("manifest schema_version must be {MANIFEST_SCHEMA_VERSION}")
    );
}

#[test]
fn manifest_defaults_are_region_and_key_limit() {
    assert_eq!(default_region(), "ap-northeast-2");
    assert_eq!(default_max_keys(), 10_000);
}
