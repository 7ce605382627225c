use domain_replay_supervisor_app::constants::MANIFEST_SCHEMA_VERSION;
use domain_replay_supervisor_app::output::jsonl::commands_jsonl;
use domain_replay_supervisor_app::planning::input::{count_matching_keys, normalized_suffixes};
use domain_replay_supervisor_app::run::report::{
    build_run_summary, build_supervisor_report, control_plane_run_record_id, supervisor_run_id,
    SupervisorReportInput,
};
use domain_replay_supervisor_app::run::selection::select_domains;
use domain_replay_supervisor_app::types::{Args, AuthorityMigrationInput, DomainReplayManifest, DomainRuntimeSpec};

fn domain(id: &str, triggers: &[&str]) -> DomainRuntimeSpec {
    DomainRuntimeSpec {
        domain_id: id.to_owned(),
        target_app: format!("{id}-app"),
        target_mode: "replay".to_owned(),
        input_bucket: "input-bucket".to_owned(),
        input_region: "ap-northeast-2".to_owned(),
        input_profile: None,
        input_prefixes: vec![format!("{id}/")],
        input_suffixes: Vec::new(),
        max_keys_per_prefix: 100,
        replay_triggers: triggers.iter().map(|t| t.to_string()).collect(),
        output_bucket: "output-bucket".to_owned(),
        output_region: "ap-northeast-2".to_owned(),
        output_report_prefix: "report".to_owned(),
        command_template: vec!["run".to_owned(), "{repeat_input_prefixes}".to_owned()],
    }
}

fn manifest() -> DomainReplayManifest {
    DomainReplayManifest {
        schema_version: MANIFEST_SCHEMA_VERSION.to_owned(),
        manifest_id: "manifest_001".to_owned(),
        domains: vec![
            domain("alpha", &["policy_changed"]),
            domain("beta", &["schema_changed"]),
            domain("gamma", &["policy_changed", "schema_changed"]),
        ],
        authority_migration_records: vec![AuthorityMigrationInput {
            authority_scope: "scope".to_owned(),
            from_app: None,
            to_app: "domain-replay-supervisor-app".to_owned(),
            migration_reason: "initial_owner".to_owned(),
            effective_at_ms: None,
        }],
    }
}

fn args(triggers: &[&str]) -> Args {
    Args {
        manifest_file: "/tmp/domain-replay-manifest.dev.json".to_owned(),
        changed_triggers: triggers.iter().map(|t| t.to_string()).collect(),
        output_dir: None,
        output_s3: None,
        now_ms: Some(1_700_000_000_000),
    }
}

#[test]
fn selection_issues_commands_for_matching_domains_only() {
    let manifest = manifest();
    let selection = select_domains(&manifest, &vec!["policy_changed".to_owned()], "run", 5, &vec![2, 3]);
    assert_eq!(selection.workflow_commands.len(), 2);
    assert_eq!(selection.workflow_commands[0].domain_id, "alpha");
    assert_eq!(selection.workflow_commands[0].estimated_input_keys, 2);
    assert_eq!(selection.workflow_commands[1].domain_id, "gamma");
    assert_eq!(selection.workflow_commands[1].estimated_input_keys, 3);
    assert_eq!(selection.skipped_domains.len(), 1);
    assert_eq!(selection.skipped_domains[0].domain_id, "beta");
    assert_eq!(selection.skipped_domains[0].reason, "trigger_not_matched");
    assert_eq!(selection.input_keys_estimated, 5);
}

#[test]
fn force_all_selects_every_domain() {
    let selection = select_domains(&manifest(), &vec!["force_all".to_owned()], "run", 5, &vec![1, 1, 1]);
    assert_eq!(selection.workflow_commands.len(), 3);
    assert!(selection.skipped_domains.is_empty());
}

#[test]
fn report_counts_match_the_selection() {
    let manifest = manifest();
    let args = args(&["policy_changed"]);
    let created_at_ms = 1_700_000_000_000;
    let run_id = supervisor_run_id(&manifest.manifest_id, "checksum", created_at_ms);
    assert!(run_id.starts_with("domain_replay_supervisor_run_"));
    let cp_id = control_plane_run_record_id(&run_id);
    assert!(cp_id.starts_with("control_plane_run_record_"));
    let selection = select_domains(&manifest, &args.changed_triggers, &run_id, created_at_ms, &vec![4, 6]);
    let report = build_supervisor_report(SupervisorReportInput {
        manifest: &manifest,
        manifest_checksum: "checksum",
        args: &args,
        supervisor_run_id: &run_id,
        control_plane_run_record_id: &cp_id,
        created_at_ms,
        selection,
    })
    .ok()
    .expect("report");
    assert_eq!(report.domains_seen, 3);
    assert_eq!(report.domains_selected, 2);
    assert_eq!(report.workflow_commands_created, 2);
    assert_eq!(report.input_keys_estimated, 10);
    assert_eq!(report.control_plane_run_record.domains_selected, 2);
    assert_eq!(report.control_plane_run_record.run_type, "replay_repair_planning");
    assert_eq!(
        report.control_plane_run_record.workflow_command_ids,
        vec![
            report.workflow_commands[0].workflow_command_id.clone(),
            report.workflow_commands[1].workflow_command_id.clone()
        ]
    );
    assert_eq!(report.authority_migration_records.len(), 1);
    assert_eq!(report.authority_migration_records[0].effective_at_ms, created_at_ms);
    assert_eq!(report.authority_migration_records[0].control_plane_run_record_id, cp_id);
    assert_eq!(report.checksum.len(), 64);
    assert_eq!(report.report_key, None);
    let summary = build_run_summary(run_id.clone(), vec!["f".to_owned()], Vec::new(), &report);
    assert_eq!(summary.supervisor_run_id, run_id);
    assert_eq!(summary.domains_selected, 2);
    assert_eq!(summary.input_keys_estimated, 10);
    assert_eq!(summary.output_files, vec!["f".to_owned()]);
}

#[test]
fn input_keys_are_counted_once_and_filtered_by_suffix() {
    let listed = vec![
        vec!["a/1.json".to_owned(), "a/2.txt".to_owned(), "a/3.jsonl".to_owned()],
        vec!["a/1.json".to_owned(), "b/4.json".to_owned()],
    ];
    assert_eq!(count_matching_keys(&listed, &vec![" .json ".to_owned(), ".jsonl".to_owned()]), 3);
    assert_eq!(count_matching_keys(&listed, &vec!["  ".to_owned()]), 4);
    assert_eq!(count_matching_keys(&listed, &Vec::new()), 4);
    assert_eq!(count_matching_keys(&Vec::new(), &Vec::new()), 0);
    assert_eq!(
        normalized_suffixes(&vec![" b ".to_owned(), "a".to_owned(), "".to_owned(), "b".to_owned()]),
        vec!["a".to_owned(), "b".to_owned()]
    );
}

#[test]
fn commands_file_has_one_line_per_command() {
    let mut manifest = manifest();
    manifest.domains[0].target_app = "multi\nline\napp".to_owned();
    let args = args(&["force_all"]);
    let selection = select_domains(&manifest, &args.changed_triggers, "run", 1, &vec![0, 0, 0]);
    let report = build_supervisor_report(SupervisorReportInput {
        manifest: &manifest,
        manifest_checksum: "checksum",
        args: &args,
        supervisor_run_id: "run",
        control_plane_run_record_id: "cp",
        created_at_ms: 1,
        selection,
    })
    .ok()
    .expect("report");
    let body = commands_jsonl(&report).expect("jsonl");
    assert_eq!(body.matches('\n').count(), 3);
    assert!(body.contains("multi\\nline\\napp"));
}
