use domain_replay_supervisor_app::args::help_text;
use domain_replay_supervisor_app::constants::{
    AUTHORITY_MIGRATION_RECORD_SCHEMA_VERSION, CONTROL_PLANE_RUN_RECORD_SCHEMA_VERSION,
    REPORT_SCHEMA_VERSION,
};
use domain_replay_supervisor_app::keys::{
    authority_migration_records_key, control_plane_run_record_key, partitioned_key, path_segment,
    supervisor_commands_key, supervisor_report_key,
};
use domain_replay_supervisor_app::time::time_part;

#[test]
fn supervisor_output_keys_are_partitioned_and_prefix_normalized() {
    assert_eq!(
        supervisor_report_key("/domain-replay-supervisor/", 7_200_000, "run_001"),
        format!(
            "domain-replay-supervisor/schema={REPORT_SCHEMA_VERSION}/dt=1970-01-01/hour=02/supervisor_run_id=run_001/report.json"
        )
    );
    assert_eq!(
        supervisor_commands_key("/domain-replay-supervisor/", 7_200_000, "run_001"),
        format!(
            "domain-replay-supervisor/schema={REPORT_SCHEMA_VERSION}/dt=1970-01-01/hour=02/supervisor_run_id=run_001/commands.jsonl"
        )
    );
}

#[test]
fn control_plane_keys_use_their_own_schema_partition() {
    assert_eq!(
        control_plane_run_record_key("control-plane", 7_200_000, "control_run_001"),
        format!(
            "control-plane/schema={CONTROL_PLANE_RUN_RECORD_SCHEMA_VERSION}/dt=1970-01-01/hour=02/control_plane_run_record_id=control_run_001/record.json"
        )
    );
    assert_eq!(
        authority_migration_records_key("control-plane", 7_200_000, "control_run_001"),
        format!(
            "control-plane/schema={AUTHORITY_MIGRATION_RECORD_SCHEMA_VERSION}/dt=1970-01-01/hour=02/control_plane_run_record_id=control_run_001/part-000001.jsonl"
        )
    );
}

#[test]
fn help_text_names_required_contract_inputs() {
    let text = help_text();

    assert!(text.contains("domain-replay-supervisor-app"));
    assert!(text.contains("--manifest-file"));
    assert!(text.contains("--changed-trigger"));
    assert!(text.contains("--output-s3-bucket"));
}

#[test]
fn time_part_gives_utc_date_and_hour() {
    let part = time_part(0);
    assert_eq!(part.event_date, "1970-01-01");
    assert_eq!(part.hour, 0);
    let part = time_part(1_700_000_000_000);
    assert_eq!(part.event_date, "2023-11-14");
    assert_eq!(part.hour, 22);
    let part = time_part(951_782_400_000);
    assert_eq!(part.event_date, "2000-02-29");
    assert_eq!(part.hour, 0);
    let part = time_part(1_709_251_199_999);
    assert_eq!(part.event_date, "2024-02-29");
    assert_eq!(part.hour, 23);
    let part = time_part(1_735_689_600_000);
    assert_eq!(part.event_date, "2025-01-01");
}

#[test]
fn path_segment_replaces_unsafe_characters() {
    assert_eq!(path_segment("run_001"), "run_001");
    assert_eq!(path_segment("../escape"), ".._escape");
    assert_eq!(path_segment("nested/id"), "nested_id");
    assert_eq!(path_segment("line\nbreak"), "line_break");
    assert_eq!(path_segment("a b=c"), "a_b_c");
}

#[test]
fn keys_make_ids_single_segments() {
    assert_eq!(
        partitioned_key("p", 3_600_000, "a/b", "x.json"),
        format!("p/schema={REPORT_SCHEMA_VERSION}/dt=1970-01-01/hour=01/supervisor_run_id=a_b/x.json")
    );
}

#[test]
fn prefix_slashes_do_not_change_keys() {
    let plain = supervisor_report_key("prefix/inner", 86_400_000, "run");
    assert_eq!(supervisor_report_key("//prefix/inner//", 86_400_000, "run"), plain);
    assert!(plain.starts_with("prefix/inner/schema="));
    assert!(plain.contains("/dt=1970-01-02/hour=00/"));
}

#[test]
fn time_part_handles_times_before_1970() {
    let part = time_part(-1);
    assert_eq!(part.event_date, "1969-12-31");
    assert_eq!(part.hour, 23);
    let part = time_part(-31_536_000_000);
    assert_eq!(part.event_date, "1969-01-01");
    assert_eq!(part.hour, 0);
    assert_eq!(time_part(-62_167_219_200_000).event_date, "0000-01-01");
    assert_eq!(time_part(-62_167_219_200_001).event_date, "-0001-12-31");
    assert_eq!(time_part(253_402_300_799_999).event_date, "9999-12-31");
    assert_eq!(time_part(253_402_300_800_000).event_date, "10000-01-01");
}

#[test]
fn checksum_json_is_stable_for_same_payload() {
    // The compact JSON that serde_json writes for {"domain": "intel-candidate", "count": 1}.
    let payload = "{\"count\":1,\"domain\":\"intel-candidate\"}";
    let one = domain_replay_supervisor_app::hash::checksum_text(payload);
    let two = domain_replay_supervisor_app::hash::checksum_text(payload);

    assert_eq!(one, two);
    assert_eq!(one.len(), 64);
}
