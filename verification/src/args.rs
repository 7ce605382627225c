//! Command-line arguments: parsing, with the exact error of each rejected input.
use crate::constants::DEFAULT_AWS_REGION;
use crate::number::{int_error_message, int_error_text, lemma_parse_i64_in_range, parse_i64, parse_i64_str};
use crate::order::{insert_sorted, is_sorted_set, string_set};
use crate::path::{has_relative_component, is_absolute, path_check, validate_config_absolute_path};
use crate::text::{blank, is_blank, matches_at, occurs_at, str_eq, views};
use crate::types::{opt_view, AppError, Args, S3OutputArgs};
use vstd::prelude::*;
use vstd::string::*;

pub mod laws;

verus! {

/// The usage text.
pub const HELP_TEXT: &'static str = r#"domain-replay-supervisor-app
Usage:
  domain-replay-supervisor-app \
    --manifest-file /Volumes/WD/Developments/nangman-crypto/domains/runtime/domain-replay-manifest.dev.json \
    --changed-trigger scoring_policy_version_changed \
    --output-dir /Volumes/WD/Developments/nangman-crypto/data/replay-supervisor \
    --output-s3-bucket nangman-crypto-dev-control-plane-<account-suffix> \
    --output-s3-prefix domain-replay-supervisor

This app does not implement domain logic. It scans durable input prefixes,
creates workflow_command records, and writes a durable supervisor report."#;

/// The usage text.
pub fn help_text() -> (r: &'static str)
    ensures
        r@ == HELP_TEXT@,
{
    HELP_TEXT
}

/// The object storage target, as plain values.
pub struct S3Model {
    pub bucket: Seq<char>,
    pub region: Seq<char>,
    pub prefix: Seq<char>,
    pub profile: Option<Seq<char>>,
}

/// The arguments, as plain values; the changed triggers form a set.
pub struct ArgsModel {
    pub manifest_file: Seq<char>,
    pub changed_triggers: Set<Seq<char>>,
    pub output_dir: Option<Seq<char>>,
    pub output_s3: Option<S3Model>,
    pub now_ms: Option<int>,
}

/// The object storage target of the arguments, as plain values.
pub open spec fn s3_model(s: S3OutputArgs) -> S3Model {
    S3Model {
        bucket: s.bucket@,
        region: s.region@,
        prefix: s.prefix@,
        profile: opt_view(s.profile),
    }
}

/// An optional object storage target, as plain values.
pub open spec fn opt_s3_model(o: Option<S3OutputArgs>) -> Option<S3Model> {
    match o {
        Some(s) => Some(s3_model(s)),
        None => None,
    }
}

/// An optional time, as an integer.
pub open spec fn opt_int(o: Option<i64>) -> Option<int> {
    match o {
        Some(v) => Some(v as int),
        None => None,
    }
}

/// The arguments, as plain values.
pub open spec fn args_model(a: Args) -> ArgsModel {
    ArgsModel {
        manifest_file: a.manifest_file@,
        changed_triggers: string_set(a.changed_triggers@),
        output_dir: opt_view(a.output_dir),
        output_s3: opt_s3_model(a.output_s3),
        now_ms: opt_int(a.now_ms),
    }
}

/// The object storage target before any of its options is given.
pub open spec fn default_s3_model() -> S3Model {
    S3Model {
        bucket: Seq::empty(),
        region: DEFAULT_AWS_REGION@,
        prefix: Seq::empty(),
        profile: None,
    }
}

/// The object storage target, or the default one.
pub open spec fn s3_or_default(o: Option<S3Model>) -> S3Model {
    match o {
        Some(s) => s,
        None => default_s3_model(),
    }
}

/// The arguments before any is read.
pub open spec fn initial_args() -> ArgsModel {
    ArgsModel {
        manifest_file: Seq::empty(),
        changed_triggers: Set::empty(),
        output_dir: None,
        output_s3: None,
        now_ms: None,
    }
}

/// The first position at or after `i` where `pat` occurs in `s`.
pub open spec fn find_from(s: Seq<char>, pat: Seq<char>, i: int) -> Option<int>
    decreases s.len() - i,
{
    if i < 0 || i + pat.len() > s.len() {
        None
    } else if occurs_at(s, pat, i) {
        Some(i)
    } else if i >= s.len() {
        None
    } else {
        find_from(s, pat, i + 1)
    }
}

/// The part of a message before `" requires"`, which names the option.
pub open spec fn label_of(message: Seq<char>) -> Seq<char> {
    match find_from(message, " requires"@, 0) {
        Some(k) => message.take(k),
        None => message,
    }
}

/// The value after position `i`, if there is one.
pub open spec fn next_value(values: Seq<Seq<char>>, i: int) -> Option<Seq<char>> {
    if 0 <= i + 1 < values.len() {
        Some(values[i + 1])
    } else {
        None
    }
}

/// A required value: present, or the error `message`.
pub open spec fn string_arg(value: Option<Seq<char>>, message: Seq<char>) -> Result<
    Seq<char>,
    Seq<char>,
> {
    match value {
        Some(v) => Ok(v),
        None => Err(message),
    }
}

/// An absolute path without `.` or `..` components, or the error.
pub open spec fn path_arg(value: Option<Seq<char>>, message: Seq<char>) -> Result<
    Seq<char>,
    Seq<char>,
> {
    match value {
        None => Err(message),
        Some(p) => match path_check(p, label_of(message)) {
            Ok(()) => Ok(p),
            Err(e) => Err(message + "; "@ + e),
        },
    }
}

/// A non-negative `i64`, or the error.
pub open spec fn timestamp_arg(value: Seq<char>) -> Result<int, Seq<char>> {
    match parse_i64(value) {
        Err(k) => Err("invalid timestamp "@ + value + ": "@ + int_error_text(k)),
        Ok(v) => if v < 0 {
            Err("timestamp must be non-negative"@)
        } else {
            Ok(v)
        },
    }
}

/// The checks made once every argument is read.
pub open spec fn required_args_check(a: ArgsModel) -> Result<(), Seq<char>> {
    if a.manifest_file.len() == 0 {
        Err("--manifest-file is required"@)
    } else if a.changed_triggers.is_empty() {
        Err("--changed-trigger is required"@)
    } else if a.output_s3 matches Some(s) && (blank(s.bucket) || blank(s.prefix)) {
        Err("--output-s3-bucket and --output-s3-prefix are required for S3 output"@)
    } else {
        Ok(())
    }
}

/// The object storage target with one field set (0 bucket, 1 region, 2 prefix, 3 profile),
/// created with defaults if there was none.
pub open spec fn s3_with(o: Option<S3Model>, field: int, v: Seq<char>) -> S3Model {
    let s = s3_or_default(o);
    if field == 0 {
        S3Model { bucket: v, ..s }
    } else if field == 1 {
        S3Model { region: v, ..s }
    } else if field == 2 {
        S3Model { prefix: v, ..s }
    } else {
        S3Model { profile: Some(v), ..s }
    }
}

/// The arguments with one field of the object storage target set.
pub open spec fn with_s3(a: ArgsModel, field: int, v: Seq<char>) -> ArgsModel {
    ArgsModel { output_s3: Some(s3_with(a.output_s3, field, v)), ..a }
}

/// The result of reading the arguments from position `i` on, with `a` read so far.
pub open spec fn parse_from(values: Seq<Seq<char>>, i: int, a: ArgsModel) -> Result<
    Option<ArgsModel>,
    Seq<char>,
>
    decreases values.len() - i,
{
    if i < 0 || i >= values.len() {
        match required_args_check(a) {
            Ok(()) => Ok(Some(a)),
            Err(e) => Err(e),
        }
    } else {
        let arg = values[i];
        let next = next_value(values, i);
        if arg == "-h"@ || arg == "--help"@ {
            Ok(None)
        } else if arg == "--manifest-file"@ {
            match path_arg(next, "--manifest-file requires an absolute path"@) {
                Err(e) => Err(e),
                Ok(p) => parse_from(values, i + 2, ArgsModel { manifest_file: p, ..a }),
            }
        } else if arg == "--changed-trigger"@ {
            match string_arg(next, "--changed-trigger requires a value"@) {
                Err(e) => Err(e),
                Ok(t) => parse_from(
                    values,
                    i + 2,
                    ArgsModel { changed_triggers: a.changed_triggers.insert(t), ..a },
                ),
            }
        } else if arg == "--output-dir"@ {
            match path_arg(next, "--output-dir requires an absolute path"@) {
                Err(e) => Err(e),
                Ok(p) => parse_from(values, i + 2, ArgsModel { output_dir: Some(p), ..a }),
            }
        } else if arg == "--output-s3-bucket"@ {
            match string_arg(next, "--output-s3-bucket requires a bucket"@) {
                Err(e) => Err(e),
                Ok(v) => parse_from(values, i + 2, with_s3(a, 0, v)),
            }
        } else if arg == "--output-s3-region"@ {
            match string_arg(next, "--output-s3-region requires a region"@) {
                Err(e) => Err(e),
                Ok(v) => parse_from(values, i + 2, with_s3(a, 1, v)),
            }
        } else if arg == "--output-s3-prefix"@ {
            match string_arg(next, "--output-s3-prefix requires a prefix"@) {
                Err(e) => Err(e),
                Ok(v) => parse_from(values, i + 2, with_s3(a, 2, v)),
            }
        } else if arg == "--aws-profile"@ {
            match string_arg(next, "--aws-profile requires a profile"@) {
                Err(e) => Err(e),
                Ok(v) => parse_from(values, i + 2, with_s3(a, 3, v)),
            }
        } else if arg == "--now-ms"@ {
            match string_arg(next, "--now-ms requires a timestamp"@) {
                Err(e) => Err(e),
                Ok(v) => match timestamp_arg(v) {
                    Err(e) => Err(e),
                    Ok(t) => parse_from(values, i + 2, ArgsModel { now_ms: Some(t), ..a }),
                },
            }
        } else {
            Err("unknown argument: "@ + arg + "\n\n"@ + HELP_TEXT@)
        }
    }
}

/// What the parser answers for the argument list `values` (the program name excluded):
/// `Ok(None)` for a help request, the arguments, or the message of the error.
pub open spec fn parse_args_spec(values: Seq<Seq<char>>) -> Result<Option<ArgsModel>, Seq<char>> {
    parse_from(values, 0, initial_args())
}

/// The option a message names: the text before `" requires"`.
pub fn option_label(message: &str) -> (r: String)
    ensures
        r@ == label_of(message@),
{
    let n = message.unicode_len();
    let pat = " requires";
    proof {
        reveal_strlit(" requires");
    }
    let m = pat.unicode_len();
    let mut i: usize = 0;
    while m <= n - i
        invariant
            n == message@.len(),
            m == pat@.len(),
            m == 9,
            pat@ == " requires"@,
            i <= n,
            find_from(message@, pat@, 0) == find_from(message@, pat@, i as int),
        decreases n - i,
    {
        if matches_at(message, pat, i) {
            return message.substring_char(0, i).to_owned();
        }
        i = i + 1;
    }
    message.to_owned()
}

/// The value after an option, or the error `message`.
pub fn next_string(value: Option<String>, message: &str) -> (r: Result<String, AppError>)
    ensures
        match r {
            Ok(v) => string_arg(opt_view(value), message@) == Ok::<Seq<char>, Seq<char>>(v@),
            Err(e) => string_arg(opt_view(value), message@) == Err::<Seq<char>, Seq<char>>(
                e.message@,
            ),
        },
{
    match value {
        Some(v) => Ok(v),
        None => Err(AppError { message: message.to_owned() }),
    }
}

/// The absolute path after an option, or the error: `message` when the value is
/// missing, else `message`, `"; "` and the reason the path is refused.
pub fn absolute_path_arg(value: Option<String>, message: &str) -> (r: Result<String, AppError>)
    ensures
        match r {
            Ok(v) => path_arg(opt_view(value), message@) == Ok::<Seq<char>, Seq<char>>(v@),
            Err(e) => path_arg(opt_view(value), message@) == Err::<Seq<char>, Seq<char>>(
                e.message@,
            ),
        },
{
    match value {
        None => Err(AppError { message: message.to_owned() }),
        Some(v) => {
            let label = option_label(message);
            match validate_config_absolute_path(v.as_str(), label.as_str()) {
                Ok(()) => Ok(v),
                Err(e) => {
                    let mut text = message.to_owned();
                    text.append("; ");
                    text.append(e.message.as_str());
                    Err(AppError { message: text })
                },
            }
        },
    }
}

/// A non-negative `i64`, or the error.
pub fn parse_non_negative_i64(value: &str) -> (r: Result<i64, AppError>)
    ensures
        match r {
            Ok(v) => timestamp_arg(value@) == Ok::<int, Seq<char>>(v as int),
            Err(e) => timestamp_arg(value@) == Err::<int, Seq<char>>(e.message@),
        },
{
    match parse_i64_str(value) {
        Err(kind) => {
            let mut text = "invalid timestamp ".to_owned();
            text.append(value);
            text.append(": ");
            text.append(int_error_message(kind));
            Err(AppError { message: text })
        },
        Ok(v) => {
            if v < 0 {
                Err(AppError { message: "timestamp must be non-negative".to_owned() })
            } else {
                Ok(v)
            }
        },
    }
}

/// The object storage target before any of its options is given.
pub fn default_s3_output() -> (r: S3OutputArgs)
    ensures
        s3_model(r) == default_s3_model(),
{
    S3OutputArgs {
        bucket: String::new(),
        region: DEFAULT_AWS_REGION.to_owned(),
        prefix: String::new(),
        profile: None,
    }
}

/// The checks made once every argument is read.
pub fn validate_required_args(args: &Args) -> (r: Result<(), AppError>)
    ensures
        match r {
            Ok(()) => required_args_check(args_model(*args)) == Ok::<(), Seq<char>>(()),
            Err(e) => required_args_check(args_model(*args)) == Err::<(), Seq<char>>(
                e.message@,
            ),
        },
{
    if args.manifest_file.as_str().unicode_len() == 0 {
        return Err(AppError { message: "--manifest-file is required".to_owned() });
    }
    if args.changed_triggers.len() == 0 {
        assert(string_set(args.changed_triggers@) =~= Set::<Seq<char>>::empty());
        return Err(AppError { message: "--changed-trigger is required".to_owned() });
    }
    assert(string_set(args.changed_triggers@).contains(views(args.changed_triggers@)[0]));
    match &args.output_s3 {
        Some(s3) => {
            if is_blank(s3.bucket.as_str()) || is_blank(s3.prefix.as_str()) {
                return Err(
                    AppError {
                        message: "--output-s3-bucket and --output-s3-prefix are required for S3 output".to_owned(),
                    },
                );
            }
        },
        None => {},
    }
    Ok(())
}

/// The value at position `i + 1`, if there is one.
fn value_after(values: &Vec<String>, i: usize) -> (r: Option<String>)
    requires
        i < values.len(),
    ensures
        opt_view(r) == next_value(views(values@), i as int),
{
    if i + 1 < values.len() {
        Some(values[i + 1].clone())
    } else {
        None
    }
}

/// Sets one field of the object storage target, creating it with defaults if needed.
fn set_s3(current: Option<S3OutputArgs>, field: usize, v: String) -> (r: S3OutputArgs)
    requires
        field < 4,
    ensures
        s3_model(r) == s3_with(opt_s3_model(current), field as int, v@),
{
    let s = match current {
        Some(s) => s,
        None => default_s3_output(),
    };
    if field == 0 {
        S3OutputArgs { bucket: v, ..s }
    } else if field == 1 {
        S3OutputArgs { region: v, ..s }
    } else if field == 2 {
        S3OutputArgs { prefix: v, ..s }
    } else {
        S3OutputArgs { profile: Some(v), ..s }
    }
}

/// Reads the argument list (the program name excluded). `Ok(None)` asks for the usage
/// text; otherwise the arguments, or the first error, exactly as `parse_args_spec` says.
pub fn parse_args(values: &Vec<String>) -> (r: Result<Option<Args>, AppError>)
    ensures
        match r {
            Ok(Some(a)) => parse_args_spec(views(values@)) == Ok::<
                Option<ArgsModel>,
                Seq<char>,
            >(Some(args_model(a))) && is_sorted_set(a.changed_triggers@),
            Ok(None) => parse_args_spec(views(values@)) == Ok::<Option<ArgsModel>, Seq<char>>(
                None,
            ),
            Err(e) => parse_args_spec(views(values@)) == Err::<Option<ArgsModel>, Seq<char>>(
                e.message@,
            ),
        },
{
    let ghost vs = views(values@);
    let mut manifest_file = String::new();
    let mut changed_triggers: Vec<String> = Vec::new();
    let mut output_dir: Option<String> = None;
    let mut output_s3: Option<S3OutputArgs> = None;
    let mut now_ms: Option<i64> = None;
    proof {
        assert(string_set(changed_triggers@) =~= Set::<Seq<char>>::empty());
    }
    let mut i: usize = 0;
    while i < values.len()
        invariant
            vs == views(values@),
            i <= values.len(),
            is_sorted_set(changed_triggers@),
            parse_args_spec(vs) == parse_from(
                vs,
                i as int,
                ArgsModel {
                    manifest_file: manifest_file@,
                    changed_triggers: string_set(changed_triggers@),
                    output_dir: opt_view(output_dir),
                    output_s3: opt_s3_model(output_s3),
                    now_ms: opt_int(now_ms),
                },
            ),
        decreases values.len() - i,
    {
        let ghost before = ArgsModel {
            manifest_file: manifest_file@,
            changed_triggers: string_set(changed_triggers@),
            output_dir: opt_view(output_dir),
            output_s3: opt_s3_model(output_s3),
            now_ms: opt_int(now_ms),
        };
        let arg = values[i].as_str();
        assert(arg@ == vs[i as int]);
        let next = value_after(values, i);
        if str_eq(arg, "-h") || str_eq(arg, "--help") {
            return Ok(None);
        } else if str_eq(arg, "--manifest-file") {
            manifest_file = absolute_path_arg(next, "--manifest-file requires an absolute path")?;
        } else if str_eq(arg, "--changed-trigger") {
            let t = next_string(next, "--changed-trigger requires a value")?;
            insert_sorted(&mut changed_triggers, t);
        } else if str_eq(arg, "--output-dir") {
            output_dir = Some(absolute_path_arg(next, "--output-dir requires an absolute path")?);
        } else if str_eq(arg, "--output-s3-bucket") {
            let v = next_string(next, "--output-s3-bucket requires a bucket")?;
            output_s3 = Some(set_s3(output_s3, 0, v));
        } else if str_eq(arg, "--output-s3-region") {
            let v = next_string(next, "--output-s3-region requires a region")?;
            output_s3 = Some(set_s3(output_s3, 1, v));
        } else if str_eq(arg, "--output-s3-prefix") {
            let v = next_string(next, "--output-s3-prefix requires a prefix")?;
            output_s3 = Some(set_s3(output_s3, 2, v));
        } else if str_eq(arg, "--aws-profile") {
            let v = next_string(next, "--aws-profile requires a profile")?;
            output_s3 = Some(set_s3(output_s3, 3, v));
        } else if str_eq(arg, "--now-ms") {
            let v = next_string(next, "--now-ms requires a timestamp")?;
            now_ms = Some(parse_non_negative_i64(v.as_str())?);
        } else {
            let mut text = "unknown argument: ".to_owned();
            text.append(arg);
            text.append("\n\n");
            text.append(help_text());
            return Err(AppError { message: text });
        }
        i = i + 2;
    }
    let args = Args { manifest_file, changed_triggers, output_dir, output_s3, now_ms };
    validate_required_args(&args)?;
    Ok(Some(args))
}

/// An absolute path without `.` or `..` components.
pub open spec fn valid_config_path(p: Seq<char>) -> bool {
    is_absolute(p) && !has_relative_component(p)
}

/// What every accepted argument list satisfies.
pub open spec fn args_well_formed(m: ArgsModel) -> bool {
    &&& valid_config_path(m.manifest_file)
    &&& !m.changed_triggers.is_empty()
    &&& m.output_dir matches Some(d) ==> valid_config_path(d)
    &&& m.output_s3 matches Some(s) ==> !blank(s.bucket) && !blank(s.prefix)
    &&& m.now_ms matches Some(t) ==> 0 <= t <= i64::MAX
}

/// What holds of the arguments at every step of the parse.
pub open spec fn args_partial(m: ArgsModel) -> bool {
    &&& m.manifest_file.len() == 0 || valid_config_path(m.manifest_file)
    &&& m.output_dir matches Some(d) ==> valid_config_path(d)
    &&& m.now_ms matches Some(t) ==> 0 <= t <= i64::MAX
}

proof fn lemma_path_arg_valid(value: Option<Seq<char>>, message: Seq<char>)
    ensures
        path_arg(value, message) matches Ok(p) ==> valid_config_path(p),
{
}

proof fn lemma_timestamp_arg_range(value: Seq<char>)
    ensures
        timestamp_arg(value) matches Ok(t) ==> 0 <= t <= i64::MAX,
{
    lemma_parse_i64_in_range(value);
}

proof fn lemma_parse_from_well_formed(values: Seq<Seq<char>>, i: int, a: ArgsModel)
    requires
        args_partial(a),
    ensures
        parse_from(values, i, a) matches Ok(Some(m)) ==> args_well_formed(m),
    decreases values.len() - i,
{
    if 0 <= i < values.len() {
        let next = next_value(values, i);
        lemma_path_arg_valid(next, "--manifest-file requires an absolute path"@);
        lemma_path_arg_valid(next, "--output-dir requires an absolute path"@);
        match path_arg(next, "--manifest-file requires an absolute path"@) {
            Ok(p) => lemma_parse_from_well_formed(values, i + 2, ArgsModel { manifest_file: p, ..a }),
            Err(_) => {},
        }
        match string_arg(next, "--changed-trigger requires a value"@) {
            Ok(t) => lemma_parse_from_well_formed(
                values,
                i + 2,
                ArgsModel { changed_triggers: a.changed_triggers.insert(t), ..a },
            ),
            Err(_) => {},
        }
        match path_arg(next, "--output-dir requires an absolute path"@) {
            Ok(p) => lemma_parse_from_well_formed(values, i + 2, ArgsModel { output_dir: Some(p), ..a }),
            Err(_) => {},
        }
        match next {
            Some(v) => {
                lemma_parse_from_well_formed(values, i + 2, with_s3(a, 0, v));
                lemma_parse_from_well_formed(values, i + 2, with_s3(a, 1, v));
                lemma_parse_from_well_formed(values, i + 2, with_s3(a, 2, v));
                lemma_parse_from_well_formed(values, i + 2, with_s3(a, 3, v));
                lemma_timestamp_arg_range(v);
                match timestamp_arg(v) {
                    Ok(t) => lemma_parse_from_well_formed(values, i + 2, ArgsModel { now_ms: Some(t), ..a }),
                    Err(_) => {},
                }
            },
            None => {},
        }
    }
}

/// Every argument list that the parser accepts names an absolute manifest path
/// without `.` or `..` components, at least one changed trigger, an output
/// directory of the same kind if any, a non-blank bucket and prefix if object
/// storage output is asked for, and a non-negative time if one is given.
pub proof fn lemma_accepted_args_well_formed(values: Seq<Seq<char>>)
    ensures
        parse_args_spec(values) matches Ok(Some(m)) ==> args_well_formed(m),
{
    lemma_parse_from_well_formed(values, 0, initial_args());
}

proof fn lemma_parse_from_help(values: Seq<Seq<char>>, i: int, a: ArgsModel)
    ensures
        parse_from(values, i, a) matches Ok(None) ==> exists|k: int|
            0 <= k < values.len() && (#[trigger] values[k] == "-h"@ || values[k] == "--help"@),
    decreases values.len() - i,
{
    if 0 <= i < values.len() {
        let next = next_value(values, i);
        if values[i] == "-h"@ || values[i] == "--help"@ {
            assert(values[i] == "-h"@ || values[i] == "--help"@);
        } else {
            match path_arg(next, "--manifest-file requires an absolute path"@) {
                Ok(p) => lemma_parse_from_help(values, i + 2, ArgsModel { manifest_file: p, ..a }),
                Err(_) => {},
            }
            match string_arg(next, "--changed-trigger requires a value"@) {
                Ok(t) => lemma_parse_from_help(
                    values,
                    i + 2,
                    ArgsModel { changed_triggers: a.changed_triggers.insert(t), ..a },
                ),
                Err(_) => {},
            }
            match path_arg(next, "--output-dir requires an absolute path"@) {
                Ok(p) => lemma_parse_from_help(values, i + 2, ArgsModel { output_dir: Some(p), ..a }),
                Err(_) => {},
            }
            match next {
                Some(v) => {
                    lemma_parse_from_help(values, i + 2, with_s3(a, 0, v));
                    lemma_parse_from_help(values, i + 2, with_s3(a, 1, v));
                    lemma_parse_from_help(values, i + 2, with_s3(a, 2, v));
                    lemma_parse_from_help(values, i + 2, with_s3(a, 3, v));
                    match timestamp_arg(v) {
                        Ok(t) => lemma_parse_from_help(values, i + 2, ArgsModel { now_ms: Some(t), ..a }),
                        Err(_) => {},
                    }
                },
                None => {},
            }
        }
    }
}

/// The parser answers with the usage text only when `-h` or `--help` is among the arguments.
pub proof fn lemma_help_only_when_asked(values: Seq<Seq<char>>)
    ensures
        parse_args_spec(values) matches Ok(None) ==> exists|k: int|
            0 <= k < values.len() && (#[trigger] values[k] == "-h"@ || values[k] == "--help"@),
{
    lemma_parse_from_help(values, 0, initial_args());
}

} // verus!
