use domain_replay_supervisor_app::args::{
    absolute_path_arg, default_s3_output, parse_args, parse_non_negative_i64,
};
use domain_replay_supervisor_app::types::S3OutputArgs;

fn strings(values: &[&str]) -> Vec<String> {
    values.iter().map(|v| v.to_string()).collect()
}

#[test]
fn parse_args_rejects_paths_with_relative_components() {
    for (flag, value) in [
        ("--manifest-file", "/tmp/../domain-replay-manifest.dev.json"),
        ("--output-dir", "/tmp/./domain-replay-out"),
    ] {
        let error = parse_args(&strings(&[
            "--manifest-file",
            "/tmp/domain-replay-manifest.dev.json",
            "--changed-trigger",
            "force_all",
            flag,
            value,
        ]))
        .expect_err("ambiguous absolute path should fail");
        let text = error.to_string();
        assert!(
            text.contains(flag),
            "expected {flag} in error for {value:?}, got {text}"
        );
        assert!(
            text.contains("relative path components"),
            "expected relative component error for {value:?}, got {text}"
        );
    }
}

#[test]
fn parse_args_reads_a_full_command_line() {
    let args = parse_args(&strings(&[
        "--manifest-file",
        "/tmp/domain-replay-manifest.dev.json",
        "--changed-trigger",
        "zeta",
        "--changed-trigger",
        "alpha",
        "--changed-trigger",
        "zeta",
        "--output-dir",
        "/tmp/out",
        "--output-s3-prefix",
        "reports",
        "--output-s3-bucket",
        "bucket",
        "--aws-profile",
        "dev",
        "--now-ms",
        "+7200000",
    ]))
    .expect("valid arguments")
    .expect("not a help request");
    assert_eq!(args.manifest_file, "/tmp/domain-replay-manifest.dev.json");
    assert_eq!(args.changed_triggers, vec!["alpha".to_owned(), "zeta".to_owned()]);
    assert_eq!(args.output_dir, Some("/tmp/out".to_owned()));
    assert_eq!(
        args.output_s3,
        Some(S3OutputArgs {
            bucket: "bucket".to_owned(),
            region: "ap-northeast-2".to_owned(),
            prefix: "reports".to_owned(),
            profile: Some("dev".to_owned()),
        })
    );
    assert_eq!(args.now_ms, Some(7_200_000));
}

#[test]
fn parse_args_help_wins() {
    assert_eq!(parse_args(&strings(&["--help"])).expect("help"), None);
    assert_eq!(
        parse_args(&strings(&["--changed-trigger", "x", "-h", "--bogus"])).expect("help"),
        None
    );
}

#[test]
fn parse_args_reports_each_error() {
    let cases: [(&[&str], &str); 8] = [
        (&[], "--manifest-file is required"),
        (&["--manifest-file", "/m.json"], "--changed-trigger is required"),
        (&["--manifest-file"], "--manifest-file requires an absolute path"),
        (
            &["--manifest-file", "m.json"],
            "--manifest-file requires an absolute path; --manifest-file must be an absolute path: m.json",
        ),
        (&["--changed-trigger"], "--changed-trigger requires a value"),
        (
            &["--manifest-file", "/m.json", "--changed-trigger", "t", "--output-s3-region", "us-east-1"],
            "--output-s3-bucket and --output-s3-prefix are required for S3 output",
        ),
        (&["--now-ms", "-5"], "timestamp must be non-negative"),
        (&["--now-ms", "12x"], "invalid timestamp 12x: invalid digit found in string"),
    ];
    for (values, expected) in cases {
        let error = parse_args(&strings(values)).expect_err("must fail");
        assert_eq!(error.to_string(), expected);
    }
    let error = parse_args(&strings(&["--verbose"])).expect_err("unknown");
    assert!(error.to_string().starts_with("unknown argument: --verbose\n\ndomain-replay-supervisor-app"));
}

#[test]
fn parse_non_negative_i64_follows_integer_parsing() {
    assert_eq!(parse_non_negative_i64("0").expect("zero"), 0);
    assert_eq!(parse_non_negative_i64("9223372036854775807").expect("max"), i64::MAX);
    assert_eq!(
        parse_non_negative_i64("9223372036854775808").unwrap_err().to_string(),
        "invalid timestamp 9223372036854775808: number too large to fit in target type"
    );
    assert_eq!(
        parse_non_negative_i64("").unwrap_err().to_string(),
        "invalid timestamp : cannot parse integer from empty string"
    );
    assert_eq!(
        parse_non_negative_i64("-").unwrap_err().to_string(),
        "invalid timestamp -: invalid digit found in string"
    );
    assert_eq!(
        parse_non_negative_i64("-9223372036854775809").unwrap_err().to_string(),
        "invalid timestamp -9223372036854775809: number too small to fit in target type"
    );
    assert_eq!(
        parse_non_negative_i64("-9223372036854775808").unwrap_err().to_string(),
        "timestamp must be non-negative"
    );
}

#[test]
fn absolute_path_arg_labels_errors_with_the_option() {
    assert_eq!(
        absolute_path_arg(Some("/ok/path".to_owned()), "--output-dir requires an absolute path")
            .expect("absolute"),
        "/ok/path"
    );
    assert_eq!(
        absolute_path_arg(Some("/a/..".to_owned()), "--output-dir requires an absolute path")
            .unwrap_err()
            .to_string(),
        "--output-dir requires an absolute path; --output-dir must not contain relative path components: /a/.."
    );
    assert_eq!(
        absolute_path_arg(None, "--output-dir requires an absolute path")
            .unwrap_err()
            .to_string(),
        "--output-dir requires an absolute path"
    );
    assert!(absolute_path_arg(Some("/a/.b/..c".to_owned()), "x requires y").is_ok());
}

#[test]
fn default_s3_output_uses_default_region() {
    let s3 = default_s3_output();
    assert_eq!(s3.bucket, "");
    assert_eq!(s3.region, "ap-northeast-2");
    assert_eq!(s3.prefix, "");
    assert_eq!(s3.profile, None);
}

#[test]
fn parse_args_without_storage_options_reads_trigger_set() {
    let args = parse_args(&strings(&[
        "--changed-trigger",
        "zeta",
        "--manifest-file",
        "/m.json",
        "--changed-trigger",
        "alpha",
        "--changed-trigger",
        "zeta",
    ]))
    .expect("accepted")
    .expect("not help");
    assert_eq!(args.manifest_file, "/m.json");
    assert_eq!(args.changed_triggers, vec!["alpha".to_owned(), "zeta".to_owned()]);
    assert!(args.output_s3.is_none());

    let missing_manifest = parse_args(&strings(&["--changed-trigger", "t", "--now-ms", "5"]))
        .expect_err("manifest missing");
    assert_eq!(missing_manifest.to_string(), "--manifest-file is required");
    let missing_trigger = parse_args(&strings(&["--manifest-file", "/m.json", "--output-dir", "/out"]))
        .expect_err("trigger missing");
    assert_eq!(missing_trigger.to_string(), "--changed-trigger is required");
}

#[test]
fn parse_args_with_storage_options_uses_last_values() {
    let args = parse_args(&strings(&[
        "--manifest-file",
        "/m.json",
        "--changed-trigger",
        "t",
        "--output-s3-bucket",
        "first",
        "--aws-profile",
        "dev",
        "--output-s3-prefix",
        "p",
        "--output-s3-bucket",
        "second",
    ]))
    .expect("accepted")
    .expect("not help");
    assert_eq!(
        args.output_s3,
        Some(S3OutputArgs {
            bucket: "second".to_owned(),
            region: "ap-northeast-2".to_owned(),
            prefix: "p".to_owned(),
            profile: Some("dev".to_owned()),
        })
    );

    let blank_bucket = parse_args(&strings(&[
        "--manifest-file",
        "/m.json",
        "--changed-trigger",
        "t",
        "--output-s3-bucket",
        "b",
        "--output-s3-prefix",
        "p",
        "--output-s3-bucket",
        "  ",
    ]))
    .expect_err("blank bucket");
    assert_eq!(
        blank_bucket.to_string(),
        "--output-s3-bucket and --output-s3-prefix are required for S3 output"
    );
}
