use domain_replay_supervisor_app::planning::command::{build_workflow_command, render_command_template};
use domain_replay_supervisor_app::types::DomainRuntimeSpec;

fn domain() -> DomainRuntimeSpec {
    DomainRuntimeSpec {
        domain_id: "intel-candidate".to_owned(),
        target_app: "intel-candidate-app".to_owned(),
        target_mode: "replay".to_owned(),
        input_bucket: "input-bucket".to_owned(),
        input_region: "ap-northeast-2".to_owned(),
        input_profile: None,
        input_prefixes: vec!["structured-intel-packet/schema=structured_intel_packet_v1/".to_owned()],
        input_suffixes: vec![".json".to_owned(), ".jsonl".to_owned()],
        max_keys_per_prefix: 100,
        replay_triggers: vec!["scoring_policy_version_changed".to_owned()],
        output_bucket: "output-bucket".to_owned(),
        output_region: "ap-northeast-2".to_owned(),
        output_report_prefix: "candidate-replay-report".to_owned(),
        command_template: vec![
            "/usr/local/bin/intel-candidate-replay-worker".to_owned(),
            "--input-s3-bucket".to_owned(),
            "{input_bucket}".to_owned(),
            "--output-s3-bucket".to_owned(),
            "{output_bucket}".to_owned(),
            "{repeat_input_prefixes}".to_owned(),
        ],
    }
}

#[test]
fn tests_command_template_is_rendered() {
    let command = render_command_template(&domain());
    assert_eq!(
        command,
        vec![
            "/usr/local/bin/intel-candidate-replay-worker",
            "--input-s3-bucket",
            "input-bucket",
            "--output-s3-bucket",
            "output-bucket",
            "--replay-input-prefix",
            "structured-intel-packet/schema=structured_intel_packet_v1/"
        ]
    );
}

#[test]
fn command_command_template_is_rendered() {
    let command = render_command_template(&domain());
    assert_eq!(
        command,
        vec![
            "/usr/local/bin/intel-candidate-replay-worker",
            "--input-s3-bucket",
            "input-bucket",
            "--output-s3-bucket",
            "output-bucket",
            "--replay-input-prefix",
            "structured-intel-packet/schema=structured_intel_packet_v1/"
        ]
    );
}

#[test]
fn command_template_fills_every_placeholder_and_repeats_prefixes() {
    let mut domain = domain();
    domain.input_prefixes = vec!["a/".to_owned(), "b/".to_owned()];
    domain.command_template = vec![
        "--in={input_bucket}".to_owned(),
        "--out={output_bucket}/{output_report_prefix}".to_owned(),
        "--prefixes={input_prefixes}".to_owned(),
        "{repeat_input_prefixes}".to_owned(),
        "{unknown}".to_owned(),
    ];
    assert_eq!(
        render_command_template(&domain),
        vec![
            "--in=input-bucket",
            "--out=output-bucket/candidate-replay-report",
            "--prefixes=a/,b/",
            "--replay-input-prefix",
            "a/",
            "--replay-input-prefix",
            "b/",
            "{unknown}",
        ]
    );
}

#[test]
fn command_template_replaces_each_occurrence_once() {
    let mut domain = domain();
    domain.input_bucket = "{output_bucket}".to_owned();
    domain.command_template = vec!["{input_bucket}{input_bucket}".to_owned()];
    assert_eq!(render_command_template(&domain), vec!["output-bucketoutput-bucket"]);
}

#[test]
fn workflow_command_carries_domain_and_triggers() {
    let triggers = vec!["a_changed".to_owned(), "b_changed".to_owned()];
    let command = build_workflow_command("run_001", &domain(), &triggers, 7, 1_700_000_000_000);
    assert_eq!(command.schema_version, "workflow_command_v1");
    assert_eq!(command.workflow_type, "healing_action");
    assert_eq!(command.reason, "a_changed,b_changed");
    assert_eq!(
        command.target_scope,
        "structured-intel-packet/schema=structured_intel_packet_v1/"
    );
    assert_eq!(command.source_run_record_id, "run_001");
    assert_eq!(command.estimated_input_keys, 7);
    assert_eq!(command.issued_at_ms, 1_700_000_000_000);
    assert!(command.workflow_command_id.starts_with("workflow_cmd_"));
    assert_eq!(command.workflow_command_id.len(), "workflow_cmd_".len() + 32);
    assert!(command.idempotency_key.starts_with("workflow_cmd_idem_"));
    let again = build_workflow_command("run_001", &domain(), &triggers, 9, 5);
    assert_eq!(again.workflow_command_id, command.workflow_command_id);
    let other = build_workflow_command("run_002", &domain(), &triggers, 7, 1_700_000_000_000);
    assert_ne!(other.workflow_command_id, command.workflow_command_id);
}

#[test]
fn template_without_placeholders_renders_verbatim() {
    let mut domain = domain();
    domain.command_template = vec!["/bin/worker".to_owned(), "--flag".to_owned(), "value}".to_owned()];
    assert_eq!(render_command_template(&domain), domain.command_template);
}
