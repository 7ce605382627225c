use domain_replay_supervisor_app::constants::{
    AUTHORITY_MIGRATION_RECORD_SCHEMA_VERSION, CONTROL_PLANE_RUN_RECORD_SCHEMA_VERSION,
};
use domain_replay_supervisor_app::planning::authority::build_authority_migration_records;
use domain_replay_supervisor_app::planning::command::build_workflow_command;
use domain_replay_supervisor_app::planning::control_plane::{
    build_control_plane_run_record, seal_run_record, ControlPlaneRunRecordInput,
};
use domain_replay_supervisor_app::types::{AuthorityMigrationInput, DomainRuntimeSpec};

fn domain() -> DomainRuntimeSpec {
    DomainRuntimeSpec {
        domain_id: "intel-candidate".to_owned(),
        target_app: "intel-candidate-app".to_owned(),
        target_mode: "replay".to_owned(),
        input_bucket: "input-bucket".to_owned(),
        input_region: "ap-northeast-2".to_owned(),
        input_profile: None,
        input_prefixes: vec!["structured-intel-packet/schema=structured_intel_packet_v1/".to_owned()],
        input_suffixes: vec![".json".to_owned(), ".jsonl".to_owned()],
        max_keys_per_prefix: 100,
        replay_triggers: vec!["scoring_policy_version_changed".to_owned()],
        output_bucket: "output-bucket".to_owned(),
        output_region: "ap-northeast-2".to_owned(),
        output_report_prefix: "candidate-replay-report".to_owned(),
        command_template: vec![
            "/usr/local/bin/intel-candidate-replay-worker".to_owned(),
            "--input-s3-bucket".to_owned(),
            "{input_bucket}".to_owned(),
            "--output-s3-bucket".to_owned(),
            "{output_bucket}".to_owned(),
            "{repeat_input_prefixes}".to_owned(),
        ],
    }
}

#[test]
fn tests_control_plane_run_record_captures_commands_and_authority_migrations() {
    let changed_triggers = vec!["scoring_policy_version_changed".to_owned()];
    let command = build_workflow_command(
        "supervisor_run_001",
        &domain(),
        &changed_triggers,
        3,
        1_700_000_000_000,
    );
    let migrations = build_authority_migration_records(
        &vec![AuthorityMigrationInput {
            authority_scope: "control-plane-lite:domain-replay-supervisor".to_owned(),
            from_app: None,
            to_app: "domain-replay-supervisor-app".to_owned(),
            migration_reason: "initial_owner".to_owned(),
            effective_at_ms: None,
        }],
        "control_run_001",
        1_700_000_000_000,
        "manifest_001",
        "checksum_001",
    );
    let record = build_control_plane_run_record(ControlPlaneRunRecordInput {
        control_plane_run_record_id: "control_run_001",
        created_at_ms: 1_700_000_000_000,
        manifest_id: "manifest_001",
        manifest_checksum: "checksum_001",
        changed_triggers: &changed_triggers,
        domains_seen: 1,
        workflow_commands: &[command],
        authority_migration_records: &migrations,
        output_report_key: Some("domain-replay-supervisor/report.json".to_owned()),
    })
    .unwrap();

    assert_eq!(record.schema_version, CONTROL_PLANE_RUN_RECORD_SCHEMA_VERSION);
    assert_eq!(record.domains_seen, 1);
    assert_eq!(record.domains_selected, 1);
    assert_eq!(record.workflow_command_ids.len(), 1);
    assert_eq!(record.authority_migration_record_ids.len(), 1);
    assert!(!record.checksum.is_empty());
    assert_eq!(migrations[0].schema_version, AUTHORITY_MIGRATION_RECORD_SCHEMA_VERSION);
    assert_eq!(migrations[0].control_plane_run_record_id, "control_run_001");
}

#[test]
fn records_control_plane_run_record_captures_commands_and_authority_migrations() {
    let changed_triggers = vec!["scoring_policy_version_changed".to_owned()];
    let command = build_workflow_command(
        "supervisor_run_001",
        &domain(),
        &changed_triggers,
        3,
        1_700_000_000_000,
    );
    let migrations = build_authority_migration_records(
        &vec![AuthorityMigrationInput {
            authority_scope: "control-plane-lite:domain-replay-supervisor".to_owned(),
            from_app: None,
            to_app: "domain-replay-supervisor-app".to_owned(),
            migration_reason: "initial_owner".to_owned(),
            effective_at_ms: None,
        }],
        "control_run_001",
        1_700_000_000_000,
        "manifest_001",
        "checksum_001",
    );
    let record = build_control_plane_run_record(ControlPlaneRunRecordInput {
        control_plane_run_record_id: "control_run_001",
        created_at_ms: 1_700_000_000_000,
        manifest_id: "manifest_001",
        manifest_checksum: "checksum_001",
        changed_triggers: &changed_triggers,
        domains_seen: 1,
        workflow_commands: &[command],
        authority_migration_records: &migrations,
        output_report_key: Some("domain-replay-supervisor/report.json".to_owned()),
    })
    .unwrap();

    assert_eq!(record.schema_version, CONTROL_PLANE_RUN_RECORD_SCHEMA_VERSION);
    assert_eq!(record.domains_seen, 1);
    assert_eq!(record.domains_selected, 1);
    assert_eq!(record.workflow_command_ids.len(), 1);
    assert_eq!(record.authority_migration_record_ids.len(), 1);
    assert!(!record.checksum.is_empty());
    assert_eq!(migrations[0].schema_version, AUTHORITY_MIGRATION_RECORD_SCHEMA_VERSION);
    assert_eq!(migrations[0].control_plane_run_record_id, "control_run_001");
}

#[test]
fn authority_records_default_effective_time_and_ids() {
    let inputs = vec![
        AuthorityMigrationInput {
            authority_scope: "scope".to_owned(),
            from_app: Some("old".to_owned()),
            to_app: "new".to_owned(),
            migration_reason: "why".to_owned(),
            effective_at_ms: Some(5),
        },
        AuthorityMigrationInput {
            authority_scope: "scope".to_owned(),
            from_app: None,
            to_app: "new".to_owned(),
            migration_reason: "why".to_owned(),
            effective_at_ms: None,
        },
    ];
    let records = build_authority_migration_records(&inputs, "cp", 99, "m", "c");
    assert_eq!(records.len(), 2);
    assert_eq!(records[0].effective_at_ms, 5);
    assert_eq!(records[1].effective_at_ms, 99);
    assert_eq!(records[0].from_app, Some("old".to_owned()));
    assert_eq!(records[1].from_app, None);
    assert!(records[0].authority_migration_record_id.starts_with("authority_migration_"));
    assert!(records[0].idempotency_key.starts_with("authority_migration_idem_"));
    assert_ne!(
        records[0].authority_migration_record_id,
        records[1].authority_migration_record_id
    );
    assert_eq!(records[1].manifest_id, "m");
    assert_eq!(records[1].manifest_checksum, "c");
}

#[test]
fn run_record_checksum_ignores_previous_checksum() {
    let changed = vec!["t".to_owned()];
    let record = build_control_plane_run_record(ControlPlaneRunRecordInput {
        control_plane_run_record_id: "cp",
        created_at_ms: 1,
        manifest_id: "m",
        manifest_checksum: "c",
        changed_triggers: &changed,
        domains_seen: 0,
        workflow_commands: &[],
        authority_migration_records: &[],
        output_report_key: None,
    })
    .unwrap();
    assert_eq!(record.checksum.len(), 64);
    let mut tampered = record.clone();
    tampered.checksum = "something else".to_owned();
    seal_run_record(&mut tampered);
    assert_eq!(tampered, record);
    let mut changed_record = record.clone();
    changed_record.domains_seen = 2;
    seal_run_record(&mut changed_record);
    assert_ne!(changed_record.checksum, record.checksum);
}
