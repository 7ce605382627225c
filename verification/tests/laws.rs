use domain_replay_supervisor_app::args::parse_non_negative_i64;
use domain_replay_supervisor_app::keys::{partitioned_key, supervisor_report_key};
use domain_replay_supervisor_app::output::s3::{next_put_step, s3_puts, PutStep, S3Body, S3OutputPlan};
use domain_replay_supervisor_app::planning::input::normalized_suffixes;
use domain_replay_supervisor_app::text::i64_to_string;

#[test]
fn prefix_is_trimmed_of_slashes_before_keying() {
    let t = 1_700_000_000_000;
    let trimmed = partitioned_key("a/b", t, "run 1", "report.json");
    for prefix in ["/a/b", "a/b/", "///a/b//", "a/b"] {
        assert_eq!(partitioned_key(prefix, t, "run 1", "report.json"), trimmed);
        assert_eq!(supervisor_report_key(prefix, t, "run 1"), trimmed);
    }
    assert!(trimmed.starts_with("a/b/schema="));
    assert!(trimmed.ends_with("/supervisor_run_id=run_1/report.json"));
}

#[test]
fn normalizing_suffixes_twice_changes_nothing() {
    let values = vec![
        " .json ".to_owned(),
        "".to_owned(),
        ".jsonl".to_owned(),
        "\t.json".to_owned(),
        "   ".to_owned(),
    ];
    let once = normalized_suffixes(&values);
    assert_eq!(once, vec![".json".to_owned(), ".jsonl".to_owned()]);
    assert_eq!(normalized_suffixes(&once), once);
}

#[test]
fn timestamps_written_by_to_string_read_back() {
    for n in [0i64, 7, 10, 1_700_000_000_000, i64::MAX] {
        assert_eq!(parse_non_negative_i64(&i64_to_string(n)).ok(), Some(n));
    }
    for n in [-1i64, i64::MIN] {
        let error = parse_non_negative_i64(&i64_to_string(n)).expect_err("negative");
        assert_eq!(error.to_string(), "timestamp must be non-negative");
    }
}

fn plan(with_migrations: bool) -> S3OutputPlan {
    S3OutputPlan {
        report_key: "r".to_owned(),
        commands_key: "c".to_owned(),
        commands_body: String::new(),
        run_record_key: "k".to_owned(),
        migrations_key: if with_migrations { Some("m".to_owned()) } else { None },
        migrations_body: if with_migrations { Some(String::new()) } else { None },
        output_s3_uris: Vec::new(),
    }
}

#[test]
fn objects_are_put_in_order_and_stop_at_the_first_failure() {
    let puts = s3_puts(&plan(true));
    let keys: Vec<&str> = puts.iter().map(|p| p.key.as_str()).collect();
    assert_eq!(keys, vec!["r", "c", "k", "m"]);
    assert!(matches!(puts[0].body, S3Body::Report));
    assert!(matches!(puts[3].body, S3Body::Migrations));
    assert_eq!(puts[1].content_type, "application/x-ndjson");
    assert_eq!(s3_puts(&plan(false)).len(), 3);

    assert!(matches!(next_put_step(4, 0, false), PutStep::Put(0)));
    assert!(matches!(next_put_step(4, 2, false), PutStep::Put(2)));
    assert!(matches!(next_put_step(4, 2, true), PutStep::Stopped));
    assert!(matches!(next_put_step(4, 4, false), PutStep::Finished));
}
