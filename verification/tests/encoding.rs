use domain_replay_supervisor_app::hash::{checksum_text, sha256_hex, stable_id};
use domain_replay_supervisor_app::json::{json_opt_str, json_str, json_strings_of, skipped_to_json};
use domain_replay_supervisor_app::run::report::manifest_checksum;
use domain_replay_supervisor_app::text::{i64_to_string, join_strings, replace, trim, trim_slashes, is_blank};
use domain_replay_supervisor_app::types::SkippedDomain;

#[test]
fn json_strings_escape_quotes_backslashes_and_controls() {
    for (text, expected) in [
        ("plain", "\"plain\""),
        ("quote \" and backslash \\", "\"quote \\\" and backslash \\\\\""),
        (
            "controls \u{0} \u{1} \u{8} \t \n \u{b} \u{c} \r \u{1f} \u{7f}",
            "\"controls \\u0000 \\u0001 \\b \\t \\n \\u000b \\f \\r \\u001f \u{7f}\"",
        ),
        ("unicode é 한글 \u{2028}", "\"unicode é 한글 \u{2028}\""),
        ("slash / stays", "\"slash / stays\""),
        ("", "\"\""),
    ] {
        assert_eq!(json_str(text), expected);
    }
}

#[test]
fn json_values_have_compact_form() {
    assert_eq!(json_opt_str(&None), "null");
    assert_eq!(json_opt_str(&Some("a".to_owned())), "\"a\"");
    assert_eq!(json_strings_of(&vec!["a".to_owned(), "b\"".to_owned()]), "[\"a\",\"b\\\"\"]");
    assert_eq!(json_strings_of(&Vec::new()), "[]");
    assert_eq!(
        skipped_to_json(&SkippedDomain {
            domain_id: "d".to_owned(),
            reason: "trigger_not_matched".to_owned(),
        }),
        "{\"domain_id\":\"d\",\"reason\":\"trigger_not_matched\"}"
    );
}

#[test]
fn sha256_matches_known_digests() {
    assert_eq!(
        sha256_hex(b""),
        "e3b0c44298fc1c149afbf4c8996fb92427ae41e4649b934ca495991b7852b855"
    );
    assert_eq!(
        manifest_checksum(b"abc"),
        "ba7816bf8f01cfea414140de5dae2223b00361a396177a9cb410ff61f20015ad"
    );
    assert_eq!(checksum_text("abc"), manifest_checksum(b"abc"));
}

#[test]
fn stable_ids_are_prefixed_and_deterministic() {
    let a = stable_id("workflow_cmd", &["x", "y"]);
    assert_eq!(a, stable_id("workflow_cmd", &["x", "y"]));
    assert_ne!(a, stable_id("workflow_cmd", &["x", "z"]));
    assert_eq!(a.len(), "workflow_cmd_".len() + 32);
    assert_eq!(&a["workflow_cmd_".len()..], &sha256_hex(b"x|y")[..32]);
}

#[test]
fn text_helpers_follow_std() {
    assert_eq!(trim("  \t a b \n\u{3000}"), "a b");
    assert_eq!(trim_slashes("//a/b//"), "a/b");
    assert!(is_blank(" \u{a0}\n"));
    assert!(!is_blank(" x "));
    assert_eq!(replace("aXbXX", "X", "yy"), "ayybyyyy");
    assert_eq!(replace("aaa", "aa", "b"), "ba");
    assert_eq!(join_strings(&vec!["a".to_owned(), "b".to_owned()], ','), "a,b");
    assert_eq!(i64_to_string(i64::MIN), i64::MIN.to_string());
    assert_eq!(i64_to_string(0), "0");
}
