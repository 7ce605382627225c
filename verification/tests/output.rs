use domain_replay_supervisor_app::constants::{PRODUCER_APP, REPORT_SCHEMA_VERSION};
use domain_replay_supervisor_app::output::jsonl::{authority_migrations_jsonl, commands_jsonl};
use domain_replay_supervisor_app::output::local::{local_output_path, plan_local_outputs, validate_file_id};
use domain_replay_supervisor_app::output::s3::{prepare_s3_outputs, s3_uri};
use domain_replay_supervisor_app::types::{
    AuthorityMigrationRecord, ControlPlaneRunRecord, DomainReplaySupervisorReport, S3OutputArgs,
};

fn minimal_report() -> DomainReplaySupervisorReport {
    DomainReplaySupervisorReport {
        schema_version: REPORT_SCHEMA_VERSION.to_owned(),
        supervisor_run_id: "domain_replay_supervisor_run_abc123".to_owned(),
        producer_app: PRODUCER_APP.to_owned(),
        producer_version: "0.1.0".to_owned(),
        created_at_ms: 1_700_000_000_000,
        manifest_id: "manifest_001".to_owned(),
        manifest_checksum: "checksum_001".to_owned(),
        changed_triggers: Vec::new(),
        domains_seen: 0,
        domains_selected: 0,
        workflow_commands_created: 0,
        input_keys_estimated: 0,
        skipped_domains: Vec::new(),
        workflow_commands: Vec::new(),
        control_plane_run_record: ControlPlaneRunRecord {
            schema_version: "control_plane_run_record_v1".to_owned(),
            control_plane_run_record_id: "control_plane_run_record_abc123".to_owned(),
            producer_app: PRODUCER_APP.to_owned(),
            producer_version: "0.1.0".to_owned(),
            created_at_ms: 1_700_000_000_000,
            run_type: "domain_replay_supervisor".to_owned(),
            manifest_id: "manifest_001".to_owned(),
            manifest_checksum: "checksum_001".to_owned(),
            changed_triggers: Vec::new(),
            domains_seen: 0,
            domains_selected: 0,
            workflow_command_ids: Vec::new(),
            authority_migration_record_ids: Vec::new(),
            output_report_key: None,
            checksum: "checksum_002".to_owned(),
        },
        authority_migration_records: Vec::new(),
        report_key: None,
        checksum: "checksum_003".to_owned(),
    }
}

fn migration() -> AuthorityMigrationRecord {
    AuthorityMigrationRecord {
        schema_version: "authority_migration_record_v1".to_owned(),
        authority_migration_record_id: "am_1".to_owned(),
        control_plane_run_record_id: "cp_1".to_owned(),
        authority_scope: "scope".to_owned(),
        from_app: None,
        to_app: "to".to_owned(),
        migration_reason: "reason".to_owned(),
        effective_at_ms: -3,
        created_at_ms: 4,
        manifest_id: "m".to_owned(),
        manifest_checksum: "c".to_owned(),
        idempotency_key: "k".to_owned(),
    }
}

#[test]
fn local_output_path_rejects_unsafe_ids() {
    let output_dir = "/tmp/domain-replay-output";
    for id in ["", ".", "..", "../escape", "nested/id", "line\nbreak"] {
        let error = local_output_path(output_dir, id, "report.json")
            .expect_err("unsafe id must be rejected")
            .to_string();
        assert!(
            error.contains("local output id"),
            "expected local output id error for {id:?}, got {error}"
        );
    }
}

#[test]
fn write_local_outputs_rejects_relative_output_dir() {
    let error = plan_local_outputs(
        &minimal_report(),
        "relative-output",
        "domain_replay_supervisor_run_abc123",
        "control_plane_run_record_abc123",
    )
    .err()
    .expect("relative output dir must be rejected")
    .to_string();

    assert!(error.contains("absolute path"));
}

#[test]
fn write_local_outputs_rejects_ambiguous_absolute_output_dir() {
    let error = plan_local_outputs(
        &minimal_report(),
        "/tmp/../domain-replay-ambiguous-output",
        "domain_replay_supervisor_run_abc123",
        "control_plane_run_record_abc123",
    )
    .err()
    .expect("ambiguous output dir must be rejected")
    .to_string();

    assert!(error.contains("relative path components"));
}

#[test]
fn write_local_outputs_keeps_files_inside_output_dir() {
    let output_dir = "/tmp/domain-replay-supervisor-output-safe";
    let plan = plan_local_outputs(
        &minimal_report(),
        output_dir,
        "domain_replay_supervisor_run_abc123",
        "control_plane_run_record_abc123",
    )
    .ok()
    .expect("safe output ids write successfully");

    assert_eq!(plan.output_files.len(), 3);
    assert!(plan.output_files.iter().all(|file| file.starts_with(output_dir)));
    assert_eq!(
        plan.output_files,
        vec![
            "/tmp/domain-replay-supervisor-output-safe/domain_replay_supervisor_run_abc123.report.json",
            "/tmp/domain-replay-supervisor-output-safe/domain_replay_supervisor_run_abc123.commands.jsonl",
            "/tmp/domain-replay-supervisor-output-safe/control_plane_run_record_abc123.control-plane-run-record.json",
        ]
    );
    assert_eq!(plan.commands_body, "\n");
    assert!(plan.migrations_path.is_none());
}

#[test]
fn local_outputs_include_migrations_when_present() {
    let mut report = minimal_report();
    report.authority_migration_records.push(migration());
    let plan = plan_local_outputs(&report, "/out/", "run", "cp")
        .ok()
        .expect("valid output");
    assert_eq!(plan.output_files.len(), 4);
    assert_eq!(plan.migrations_path, Some("/out/cp.authority-migrations.jsonl".to_owned()));
    assert_eq!(plan.report_path, "/out/run.report.json");
    let body = plan.migrations_body.expect("migrations body");
    assert!(body.ends_with("}\n"));
    assert!(body.contains("\"from_app\":null"));
    assert!(body.contains("\"effective_at_ms\":-3"));
}

#[test]
fn local_output_ids_are_checked_after_the_directory() {
    let error = plan_local_outputs(&minimal_report(), "/out", "run", "bad/id")
        .err()
        .expect("unsafe id");
    assert_eq!(error.to_string(), "local output id must be a single safe path segment");
    assert_eq!(
        validate_file_id("").unwrap_err().to_string(),
        "local output id must not be empty"
    );
    assert!(validate_file_id("a.b-c_d").is_ok());
}

#[test]
fn jsonl_writes_one_line_per_record() {
    let body = authority_migrations_jsonl(&[migration(), migration()]).expect("jsonl");
    assert_eq!(body.matches('\n').count(), 2);
    let first = body.lines().next().expect("first line");
    assert_eq!(
        first,
        "{\"schema_version\":\"authority_migration_record_v1\",\"authority_migration_record_id\":\"am_1\",\"control_plane_run_record_id\":\"cp_1\",\"authority_scope\":\"scope\",\"from_app\":null,\"to_app\":\"to\",\"migration_reason\":\"reason\",\"effective_at_ms\":-3,\"created_at_ms\":4,\"manifest_id\":\"m\",\"manifest_checksum\":\"c\",\"idempotency_key\":\"k\"}"
    );
    assert_eq!(commands_jsonl(&minimal_report()).expect("jsonl"), "\n");
}

#[test]
fn s3_outputs_record_the_report_key_and_reseal() {
    let mut report = minimal_report();
    report.authority_migration_records.push(migration());
    let s3 = S3OutputArgs {
        bucket: "bucket".to_owned(),
        region: "ap-northeast-2".to_owned(),
        prefix: "/reports/".to_owned(),
        profile: None,
    };
    let plan = prepare_s3_outputs(&s3, &mut report, 7_200_000, "run_001", "cp_001")
        .ok()
        .expect("plan");
    assert_eq!(
        plan.report_key,
        format!("reports/schema={REPORT_SCHEMA_VERSION}/dt=1970-01-01/hour=02/supervisor_run_id=run_001/report.json")
    );
    assert_eq!(report.report_key, Some(plan.report_key.clone()));
    assert_eq!(
        report.control_plane_run_record.output_report_key,
        Some(plan.report_key.clone())
    );
    assert_eq!(report.checksum.len(), 64);
    assert_ne!(report.checksum, "checksum_003");
    assert_eq!(report.control_plane_run_record.checksum.len(), 64);
    assert_eq!(plan.output_s3_uris.len(), 4);
    assert_eq!(plan.output_s3_uris[0], format!("s3://bucket/{}", plan.report_key));
    assert!(plan.output_s3_uris[3].ends_with("/part-000001.jsonl"));
    assert_eq!(s3_uri("b", "k/x"), "s3://b/k/x");
}
