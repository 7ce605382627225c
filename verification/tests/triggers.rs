use domain_replay_supervisor_app::planning::command::domain_matches_triggers;
use domain_replay_supervisor_app::types::DomainRuntimeSpec;

fn domain() -> DomainRuntimeSpec {
    DomainRuntimeSpec {
        domain_id: "intel-candidate".to_owned(),
        target_app: "intel-candidate-app".to_owned(),
        target_mode: "replay".to_owned(),
        input_bucket: "input-bucket".to_owned(),
        input_region: "ap-northeast-2".to_owned(),
        input_profile: None,
        input_prefixes: vec!["structured-intel-packet/schema=structured_intel_packet_v1/".to_owned()],
        input_suffixes: vec![".json".to_owned(), ".jsonl".to_owned()],
        max_keys_per_prefix: 100,
        replay_triggers: vec!["scoring_policy_version_changed".to_owned()],
        output_bucket: "output-bucket".to_owned(),
        output_region: "ap-northeast-2".to_owned(),
        output_report_prefix: "candidate-replay-report".to_owned(),
        command_template: vec![
            "/usr/local/bin/intel-candidate-replay-worker".to_owned(),
            "--input-s3-bucket".to_owned(),
            "{input_bucket}".to_owned(),
            "--output-s3-bucket".to_owned(),
            "{output_bucket}".to_owned(),
            "{repeat_input_prefixes}".to_owned(),
        ],
    }
}

#[test]
fn tests_trigger_matching_allows_force_all() {
    let domain = domain();
    assert!(domain_matches_triggers(&domain, &vec!["force_all".to_owned()]));
}

#[test]
fn tests_trigger_matching_requires_overlap() {
    let domain = domain();
    assert!(domain_matches_triggers(
        &domain,
        &vec!["scoring_policy_version_changed".to_owned()]
    ));
    assert!(!domain_matches_triggers(&domain, &vec!["unrelated".to_owned()]));
}

#[test]
fn triggers_trigger_matching_allows_force_all() {
    let domain = domain();
    assert!(domain_matches_triggers(&domain, &vec!["force_all".to_owned()]));
}

#[test]
fn triggers_trigger_matching_requires_overlap() {
    let domain = domain();
    assert!(domain_matches_triggers(
        &domain,
        &vec!["scoring_policy_version_changed".to_owned()]
    ));
    assert!(!domain_matches_triggers(&domain, &vec!["unrelated".to_owned()]));
}

#[test]
fn trigger_matching_rejects_empty_trigger_list() {
    assert!(!domain_matches_triggers(&domain(), &Vec::new()));
}

#[test]
fn force_all_selects_domain_without_replay_triggers() {
    let mut domain = domain();
    domain.replay_triggers = Vec::new();
    assert!(domain_matches_triggers(
        &domain,
        &vec!["a_trigger".to_owned(), "force_all".to_owned()]
    ));
    assert!(!domain_matches_triggers(&domain, &vec!["a_trigger".to_owned()]));
}
