//! What the parser answers for a list of option/value pairs, stated over the
//! options given rather than over the steps of the parse.
use crate::args::{
    default_s3_model, initial_args, next_value, parse_args_spec, parse_from, path_arg,
    required_args_check, s3_or_default, timestamp_arg, valid_config_path, with_s3,
    ArgsModel, S3Model,
};
use crate::number::lemma_parse_signed_decimal;
use crate::path::path_check;
use crate::text::{blank, signed_decimal};
use vstd::prelude::*;

verus! {

/// `flag` is one of the object storage options.
pub open spec fn is_storage_flag(flag: Seq<char>) -> bool {
    ||| flag == "--output-s3-bucket"@
    ||| flag == "--output-s3-region"@
    ||| flag == "--output-s3-prefix"@
    ||| flag == "--aws-profile"@
}

/// `flag` is an option that the parser knows and `v` a value that it accepts for it.
pub open spec fn option_pair_ok(flag: Seq<char>, v: Seq<char>) -> bool {
    ||| flag == "--manifest-file"@ && valid_config_path(v)
    ||| flag == "--changed-trigger"@
    ||| flag == "--output-dir"@ && valid_config_path(v)
    ||| is_storage_flag(flag)
    ||| flag == "--now-ms"@ && timestamp_arg(v) is Ok
}

/// From position `i` on, the list is a run of complete option/value pairs, each accepted.
pub open spec fn pairs_ok_from(values: Seq<Seq<char>>, i: int) -> bool
    decreases values.len() - i,
{
    if i < 0 || i >= values.len() {
        true
    } else {
        &&& i + 1 < values.len()
        &&& option_pair_ok(values[i], values[i + 1])
        &&& pairs_ok_from(values, i + 2)
    }
}

/// The whole list is a run of complete option/value pairs, each accepted.
pub open spec fn option_pairs(values: Seq<Seq<char>>) -> bool {
    pairs_ok_from(values, 0)
}

/// The value of the last pair from position `i` on whose option is `flag`.
pub open spec fn last_value(values: Seq<Seq<char>>, i: int, flag: Seq<char>) -> Option<Seq<char>>
    decreases values.len() - i,
{
    if i < 0 || i + 1 >= values.len() {
        None
    } else {
        match last_value(values, i + 2, flag) {
            Some(v) => Some(v),
            None => if values[i] == flag {
                Some(values[i + 1])
            } else {
                None
            },
        }
    }
}

/// The values of the `--changed-trigger` pairs from position `i` on.
pub open spec fn trigger_values(values: Seq<Seq<char>>, i: int) -> Set<Seq<char>>
    decreases values.len() - i,
{
    if i < 0 || i + 1 >= values.len() {
        Set::empty()
    } else if values[i] == "--changed-trigger"@ {
        trigger_values(values, i + 2).insert(values[i + 1])
    } else {
        trigger_values(values, i + 2)
    }
}

/// Whether an object storage option occurs in a pair from position `i` on.
pub open spec fn has_storage_option(values: Seq<Seq<char>>, i: int) -> bool
    decreases values.len() - i,
{
    if i < 0 || i + 1 >= values.len() {
        false
    } else {
        is_storage_flag(values[i]) || has_storage_option(values, i + 2)
    }
}

/// The value, or `d` when there is none.
pub open spec fn value_or(o: Option<Seq<char>>, d: Seq<char>) -> Seq<char> {
    match o {
        Some(v) => v,
        None => d,
    }
}

/// The object storage target that the pairs from position `i` on make of `base`: the last
/// value of each of its options, and the base value of those not given.
pub open spec fn storage_from(values: Seq<Seq<char>>, i: int, base: S3Model) -> S3Model {
    S3Model {
        bucket: value_or(last_value(values, i, "--output-s3-bucket"@), base.bucket),
        region: value_or(last_value(values, i, "--output-s3-region"@), base.region),
        prefix: value_or(last_value(values, i, "--output-s3-prefix"@), base.prefix),
        profile: match last_value(values, i, "--aws-profile"@) {
            Some(p) => Some(p),
            None => base.profile,
        },
    }
}

/// The object storage target that a list of pairs asks for: the last bucket, region,
/// prefix and profile given, with an empty bucket and prefix, the default region and no
/// profile in place of those not given.
pub open spec fn storage_model(values: Seq<Seq<char>>) -> S3Model {
    storage_from(values, 0, default_s3_model())
}

/// What one accepted pair sets, tested in the order the parser tests the options.
spec fn apply_option(a: ArgsModel, flag: Seq<char>, v: Seq<char>) -> ArgsModel {
    if flag == "--manifest-file"@ {
        ArgsModel { manifest_file: v, ..a }
    } else if flag == "--changed-trigger"@ {
        ArgsModel { changed_triggers: a.changed_triggers.insert(v), ..a }
    } else if flag == "--output-dir"@ {
        ArgsModel { output_dir: Some(v), ..a }
    } else if flag == "--output-s3-bucket"@ {
        with_s3(a, 0, v)
    } else if flag == "--output-s3-region"@ {
        with_s3(a, 1, v)
    } else if flag == "--output-s3-prefix"@ {
        with_s3(a, 2, v)
    } else if flag == "--aws-profile"@ {
        with_s3(a, 3, v)
    } else {
        match timestamp_arg(v) {
            Ok(t) => ArgsModel { now_ms: Some(t), ..a },
            Err(_) => a,
        }
    }
}

/// The arguments after the pairs from position `i` on are read into `a`.
spec fn after_pairs(values: Seq<Seq<char>>, i: int, a: ArgsModel) -> ArgsModel {
    ArgsModel {
        manifest_file: value_or(last_value(values, i, "--manifest-file"@), a.manifest_file),
        changed_triggers: a.changed_triggers.union(trigger_values(values, i)),
        output_dir: match last_value(values, i, "--output-dir"@) {
            Some(p) => Some(p),
            None => a.output_dir,
        },
        output_s3: if has_storage_option(values, i) {
            Some(storage_from(values, i, s3_or_default(a.output_s3)))
        } else {
            a.output_s3
        },
        now_ms: match last_value(values, i, "--now-ms"@) {
            Some(v) => match timestamp_arg(v) {
                Ok(t) => Some(t),
                Err(_) => a.now_ms,
            },
            None => a.now_ms,
        },
    }
}

/// What the parser answers once every argument is read into `a`.
spec fn finish(a: ArgsModel) -> Result<Option<ArgsModel>, Seq<char>> {
    match required_args_check(a) {
        Ok(()) => Ok(Some(a)),
        Err(e) => Err(e),
    }
}

/// The option names differ: by length, and the three of equal length at position 12.
proof fn lemma_option_names_distinct()
    ensures
        "-h"@.len() == 2,
        "--help"@.len() == 6,
        "--manifest-file"@.len() == 15,
        "--changed-trigger"@.len() == 17,
        "--output-dir"@.len() == 12,
        "--output-s3-bucket"@.len() == 18,
        "--output-s3-region"@.len() == 18,
        "--output-s3-prefix"@.len() == 18,
        "--aws-profile"@.len() == 13,
        "--now-ms"@.len() == 8,
        "--output-s3-bucket"@[12] == 'b',
        "--output-s3-region"@[12] == 'r',
        "--output-s3-prefix"@[12] == 'p',
{
    reveal_strlit("-h");
    reveal_strlit("--help");
    reveal_strlit("--manifest-file");
    reveal_strlit("--changed-trigger");
    reveal_strlit("--output-dir");
    reveal_strlit("--output-s3-bucket");
    reveal_strlit("--output-s3-region");
    reveal_strlit("--output-s3-prefix");
    reveal_strlit("--aws-profile");
    reveal_strlit("--now-ms");
}

/// One accepted pair is one step of the parse.
proof fn lemma_parse_step(values: Seq<Seq<char>>, i: int, a: ArgsModel)
    requires
        0 <= i,
        i + 1 < values.len(),
        option_pair_ok(values[i], values[i + 1]),
    ensures
        parse_from(values, i, a) == parse_from(values, i + 2, apply_option(a, values[i], values[i + 1])),
{
    lemma_option_names_distinct();
    let f = values[i];
    let v = values[i + 1];
    assert(next_value(values, i) == Some(v));
    if f == "--manifest-file"@ {
        assert(path_check(v, crate::args::label_of("--manifest-file requires an absolute path"@)) is Ok);
        assert(path_arg(Some(v), "--manifest-file requires an absolute path"@) == Ok::<Seq<char>, Seq<char>>(v));
    } else if f == "--output-dir"@ {
        assert(path_check(v, crate::args::label_of("--output-dir requires an absolute path"@)) is Ok);
        assert(path_arg(Some(v), "--output-dir requires an absolute path"@) == Ok::<Seq<char>, Seq<char>>(v));
    }
}

/// After the last pair the arguments are unchanged.
proof fn lemma_after_no_pairs(values: Seq<Seq<char>>, i: int, a: ArgsModel)
    requires
        0 <= i,
        i >= values.len(),
    ensures
        after_pairs(values, i, a) == a,
{
    assert(a.changed_triggers.union(trigger_values(values, i)) =~= a.changed_triggers);
}

/// Without object storage options no such option has a value.
proof fn lemma_no_storage_values(values: Seq<Seq<char>>, i: int, flag: Seq<char>)
    requires
        is_storage_flag(flag),
        !has_storage_option(values, i),
    ensures
        last_value(values, i, flag) is None,
    decreases values.len() - i,
{
    if 0 <= i && i + 1 < values.len() {
        lemma_no_storage_values(values, i + 2, flag);
    }
}

/// Reading one pair, then the rest, reads the same as reading them all.
proof fn lemma_after_step(values: Seq<Seq<char>>, i: int, a: ArgsModel)
    requires
        0 <= i,
        pairs_ok_from(values, i),
        i + 1 < values.len(),
    ensures
        after_pairs(values, i + 2, apply_option(a, values[i], values[i + 1])) == after_pairs(values, i, a),
{
    lemma_option_names_distinct();
    let f = values[i];
    let v = values[i + 1];
    let b = apply_option(a, f, v);
    let x = after_pairs(values, i + 2, b);
    let y = after_pairs(values, i, a);
    if f == "--changed-trigger"@ {
        assert(x.changed_triggers =~= y.changed_triggers);
    } else {
        assert(b.changed_triggers == a.changed_triggers);
        assert(x.changed_triggers =~= y.changed_triggers);
    }
    let base = s3_or_default(a.output_s3);
    if is_storage_flag(f) {
        let field = if f == "--output-s3-bucket"@ {
            0int
        } else if f == "--output-s3-region"@ {
            1int
        } else if f == "--output-s3-prefix"@ {
            2int
        } else {
            3int
        };
        assert(b == with_s3(a, field, v));
        assert(s3_or_default(b.output_s3) == crate::args::s3_with(a.output_s3, field, v));
        assert(has_storage_option(values, i));
        if has_storage_option(values, i + 2) {
            assert(storage_from(values, i + 2, s3_or_default(b.output_s3)) == storage_from(values, i, base));
        } else {
            lemma_no_storage_values(values, i + 2, "--output-s3-bucket"@);
            lemma_no_storage_values(values, i + 2, "--output-s3-region"@);
            lemma_no_storage_values(values, i + 2, "--output-s3-prefix"@);
            lemma_no_storage_values(values, i + 2, "--aws-profile"@);
            assert(s3_or_default(b.output_s3) == storage_from(values, i, base));
        }
        assert(x.output_s3 == y.output_s3);
    } else {
        assert(b.output_s3 == a.output_s3);
        assert(x.output_s3 == y.output_s3);
    }
    assert(x.manifest_file == y.manifest_file);
    assert(x.output_dir == y.output_dir);
    if f == "--now-ms"@ {
        assert(!is_storage_flag(f));
        assert(b == match timestamp_arg(v) {
            Ok(t) => ArgsModel { now_ms: Some(t), ..a },
            Err(_) => a,
        });
        if last_value(values, i + 2, "--now-ms"@) is None {
            assert(last_value(values, i, "--now-ms"@) == Some(v));
        } else {
            lemma_now_value_valid(values, i + 2);
        }
        assert(x.now_ms == y.now_ms);
    } else {
        assert(b.now_ms == a.now_ms);
        assert(x.now_ms == y.now_ms);
    }
}

/// Over accepted pairs, the parse reads every pair and then checks the result.
proof fn lemma_parse_pairs(values: Seq<Seq<char>>, i: int, a: ArgsModel)
    requires
        0 <= i,
        pairs_ok_from(values, i),
    ensures
        parse_from(values, i, a) == finish(after_pairs(values, i, a)),
    decreases values.len() - i,
{
    if i >= values.len() {
        lemma_after_no_pairs(values, i, a);
    } else {
        let b = apply_option(a, values[i], values[i + 1]);
        lemma_parse_step(values, i, a);
        lemma_parse_pairs(values, i + 2, b);
        lemma_after_step(values, i, a);
    }
}

/// A manifest path given in accepted pairs is a valid path, so it is not empty.
proof fn lemma_manifest_value_valid(values: Seq<Seq<char>>, i: int)
    requires
        0 <= i,
        pairs_ok_from(values, i),
    ensures
        last_value(values, i, "--manifest-file"@) matches Some(p) ==> valid_config_path(p),
    decreases values.len() - i,
{
    if i < values.len() {
        lemma_option_names_distinct();
        lemma_manifest_value_valid(values, i + 2);
    }
}

/// A time given in accepted pairs is one the parser accepts.
proof fn lemma_now_value_valid(values: Seq<Seq<char>>, i: int)
    requires
        0 <= i,
        pairs_ok_from(values, i),
    ensures
        last_value(values, i, "--now-ms"@) matches Some(v) ==> timestamp_arg(v) is Ok,
    decreases values.len() - i,
{
    if i < values.len() {
        lemma_option_names_distinct();
        lemma_now_value_valid(values, i + 2);
    }
}

/// The changed triggers are empty exactly when no `--changed-trigger` pair is given.
proof fn lemma_triggers_empty(values: Seq<Seq<char>>, i: int)
    requires
        0 <= i,
    ensures
        trigger_values(values, i).is_empty() <==> last_value(values, i, "--changed-trigger"@) is None,
    decreases values.len() - i,
{
    if i + 1 < values.len() {
        lemma_triggers_empty(values, i + 2);
        if values[i] == "--changed-trigger"@ {
            assert(trigger_values(values, i).contains(values[i + 1]));
        }
    } else {
        assert(trigger_values(values, i) =~= Set::empty());
    }
}

/// A list of accepted option/value pairs with no object storage option: without
/// `--manifest-file` the parser answers that it is required; with it but without
/// `--changed-trigger`, that the trigger is required; with both, the arguments, whose
/// changed triggers are the set of the values given and which ask for no object storage.
pub proof fn lemma_parse_without_storage_options(values: Seq<Seq<char>>)
    requires
        option_pairs(values),
        !has_storage_option(values, 0),
    ensures
        last_value(values, 0, "--manifest-file"@) is None ==> parse_args_spec(values) == Err::<
            Option<ArgsModel>,
            Seq<char>,
        >("--manifest-file is required"@),
        (last_value(values, 0, "--manifest-file"@) is Some && last_value(values, 0, "--changed-trigger"@) is None)
            ==> parse_args_spec(values) == Err::<Option<ArgsModel>, Seq<char>>(
            "--changed-trigger is required"@,
        ),
        (last_value(values, 0, "--manifest-file"@) is Some && last_value(values, 0, "--changed-trigger"@) is Some)
            ==> (parse_args_spec(values) matches Ok(Some(m)) && m.manifest_file == last_value(
            values,
            0,
            "--manifest-file"@,
        )->0 && m.changed_triggers == trigger_values(values, 0) && m.output_s3 is None),
{
    let a = initial_args();
    lemma_parse_pairs(values, 0, a);
    lemma_manifest_value_valid(values, 0);
    lemma_triggers_empty(values, 0);
    let m = after_pairs(values, 0, a);
    assert(m.changed_triggers =~= trigger_values(values, 0));
}

/// A list of accepted option/value pairs with `--manifest-file`, `--changed-trigger` and
/// at least one object storage option: the parser accepts it, asking for the object
/// storage target of the last values given (`storage_model`), exactly when that bucket
/// and that prefix are not blank; otherwise it answers that both are required.
pub proof fn lemma_parse_with_storage_options(values: Seq<Seq<char>>)
    requires
        option_pairs(values),
        has_storage_option(values, 0),
        last_value(values, 0, "--manifest-file"@) is Some,
        last_value(values, 0, "--changed-trigger"@) is Some,
    ensures
        (!blank(storage_model(values).bucket) && !blank(storage_model(values).prefix))
            ==> (parse_args_spec(values) matches Ok(Some(m)) && m.output_s3 == Some(
            storage_model(values),
        ) && m.changed_triggers == trigger_values(values, 0)),
        (blank(storage_model(values).bucket) || blank(storage_model(values).prefix))
            ==> parse_args_spec(values) == Err::<Option<ArgsModel>, Seq<char>>(
            "--output-s3-bucket and --output-s3-prefix are required for S3 output"@,
        ),
{
    let a = initial_args();
    lemma_parse_pairs(values, 0, a);
    lemma_manifest_value_valid(values, 0);
    lemma_triggers_empty(values, 0);
    let m = after_pairs(values, 0, a);
    assert(m.changed_triggers =~= trigger_values(values, 0));
    assert(s3_or_default(a.output_s3) == default_s3_model());
}

/// A time written as `i64::to_string` writes it is read back as that time when it is not
/// negative, and refused as negative otherwise.
pub proof fn lemma_timestamp_round_trip(n: int)
    requires
        i64::MIN <= n <= i64::MAX,
    ensures
        n >= 0 ==> timestamp_arg(signed_decimal(n)) == Ok::<int, Seq<char>>(n),
        n < 0 ==> timestamp_arg(signed_decimal(n)) == Err::<int, Seq<char>>(
            "timestamp must be non-negative"@,
        ),
{
    lemma_parse_signed_decimal(n);
}

} // verus!
