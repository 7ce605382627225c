//! Storage keys of the outputs, partitioned by schema, date and hour.
use crate::constants::{
    AUTHORITY_MIGRATION_RECORD_SCHEMA_VERSION, CONTROL_PLANE_RUN_RECORD_SCHEMA_VERSION,
    REPORT_SCHEMA_VERSION,
};
use crate::text::{
    decimal, digit_char, lemma_trim_slash_idempotent, padded_decimal, push_padded, strip_end, strip_start, trim_slash,
    trim_slashes,
};
use crate::number::{digit_value, is_ascii_digit, lemma_digit_char};
use crate::time::{event_date_of, hour_of, time_part};
use vstd::prelude::*;
use vstd::string::*;

verus! {

/// Characters that a path segment keeps: ASCII letters and digits, `-`, `_` and `.`.
pub open spec fn safe_path_char(c: char) -> bool {
    let u = c as u32;
    ||| 48 <= u <= 57
    ||| 65 <= u <= 90
    ||| 97 <= u <= 122
    ||| c == '-'
    ||| c == '_'
    ||| c == '.'
}

/// `s` with every character that a path segment does not keep replaced by `_`.
pub open spec fn path_segment_of(s: Seq<char>) -> Seq<char> {
    s.map_values(|c: char| if safe_path_char(c) { c } else { '_' })
}

/// The key `<prefix>/schema=<schema>/dt=<date>/hour=<HH><id_field><id>/<leaf>`, where the
/// prefix loses its leading and trailing `/`, `id_field` is `/<name>=` and the id is
/// made a single path segment.
pub open spec fn partition_key(
    prefix: Seq<char>,
    schema: Seq<char>,
    ms: int,
    id_field: Seq<char>,
    id: Seq<char>,
    leaf: Seq<char>,
) -> Seq<char> {
    trim_slash(prefix) + "/schema="@ + schema + "/dt="@ + event_date_of(ms) + "/hour="@
        + padded_decimal(hour_of(ms) as nat, 2) + id_field + path_segment_of(id) + seq!['/']
        + leaf
}

/// `s` with every character that a path segment does not keep replaced by `_`.
pub fn path_segment(s: &str) -> (r: String)
    ensures
        r@ == path_segment_of(s@),
{
    let n = s.unicode_len();
    let mut out = String::new();
    let mut i: usize = 0;
    while i < n
        invariant
            n == s@.len(),
            i <= n,
            out@ == path_segment_of(s@.take(i as int)),
        decreases n - i,
    {
        let c = s.get_char(i);
        let u = c as u32;
        let keep = (48 <= u && u <= 57) || (65 <= u && u <= 90) || (97 <= u && u <= 122) || c
            == '-' || c == '_' || c == '.';
        if keep {
            out.push(c);
        } else {
            out.push('_');
        }
        assert(s@.take(i + 1) =~= s@.take(i as int).push(c));
        assert(path_segment_of(s@.take(i + 1)) =~= path_segment_of(s@.take(i as int)).push(
            if safe_path_char(c) {
                c
            } else {
                '_'
            },
        ));
        i = i + 1;
    }
    assert(s@.take(n as int) =~= s@);
    out
}

fn build_partition_key(
    prefix: &str,
    schema: &str,
    created_at_ms: i64,
    id_field: &str,
    id: &str,
    leaf: &str,
) -> (r: String)
    ensures
        r@ == partition_key(prefix@, schema@, created_at_ms as int, id_field@, id@, leaf@),
{
    let part = time_part(created_at_ms);
    let mut key = trim_slashes(prefix);
    key.append("/schema=");
    key.append(schema);
    key.append("/dt=");
    key.append(part.event_date.as_str());
    key.append("/hour=");
    push_padded(&mut key, part.hour as u64, 2);
    key.append(id_field);
    let segment = path_segment(id);
    key.append(segment.as_str());
    key.push('/');
    key.append(leaf);
    assert(key@ =~= partition_key(prefix@, schema@, created_at_ms as int, id_field@, id@, leaf@));
    key
}

/// The key of a file of a supervisor run under the report schema.
pub fn partitioned_key(prefix: &str, created_at_ms: i64, supervisor_run_id: &str, leaf: &str) -> (r:
    String)
    ensures
        r@ == partition_key(
            prefix@,
            REPORT_SCHEMA_VERSION@,
            created_at_ms as int,
            "/supervisor_run_id="@,
            supervisor_run_id@,
            leaf@,
        ),
{
    build_partition_key(
        prefix,
        REPORT_SCHEMA_VERSION,
        created_at_ms,
        "/supervisor_run_id=",
        supervisor_run_id,
        leaf,
    )
}

/// The key of the report of a supervisor run.
pub fn supervisor_report_key(prefix: &str, created_at_ms: i64, supervisor_run_id: &str) -> (r:
    String)
    ensures
        r@ == partition_key(
            prefix@,
            REPORT_SCHEMA_VERSION@,
            created_at_ms as int,
            "/supervisor_run_id="@,
            supervisor_run_id@,
            "report.json"@,
        ),
{
    partitioned_key(prefix, created_at_ms, supervisor_run_id, "report.json")
}

/// The key of the workflow commands of a supervisor run.
pub fn supervisor_commands_key(prefix: &str, created_at_ms: i64, supervisor_run_id: &str) -> (r:
    String)
    ensures
        r@ == partition_key(
            prefix@,
            REPORT_SCHEMA_VERSION@,
            created_at_ms as int,
            "/supervisor_run_id="@,
            supervisor_run_id@,
            "commands.jsonl"@,
        ),
{
    partitioned_key(prefix, created_at_ms, supervisor_run_id, "commands.jsonl")
}

/// The key of a control-plane run record, under its own schema.
pub fn control_plane_run_record_key(
    prefix: &str,
    created_at_ms: i64,
    control_plane_run_record_id: &str,
) -> (r: String)
    ensures
        r@ == partition_key(
            prefix@,
            CONTROL_PLANE_RUN_RECORD_SCHEMA_VERSION@,
            created_at_ms as int,
            "/control_plane_run_record_id="@,
            control_plane_run_record_id@,
            "record.json"@,
        ),
{
    build_partition_key(
        prefix,
        CONTROL_PLANE_RUN_RECORD_SCHEMA_VERSION,
        created_at_ms,
        "/control_plane_run_record_id=",
        control_plane_run_record_id,
        "record.json",
    )
}

/// The key of the authority migration records of a run, under their own schema.
pub fn authority_migration_records_key(
    prefix: &str,
    created_at_ms: i64,
    control_plane_run_record_id: &str,
) -> (r: String)
    ensures
        r@ == partition_key(
            prefix@,
            AUTHORITY_MIGRATION_RECORD_SCHEMA_VERSION@,
            created_at_ms as int,
            "/control_plane_run_record_id="@,
            control_plane_run_record_id@,
            "part-000001.jsonl"@,
        ),
{
    build_partition_key(
        prefix,
        AUTHORITY_MIGRATION_RECORD_SCHEMA_VERSION,
        created_at_ms,
        "/control_plane_run_record_id=",
        control_plane_run_record_id,
        "part-000001.jsonl",
    )
}

proof fn lemma_strip_start_slash_prefix(p: Seq<char>)
    ensures
        strip_start(seq!['/'] + p, true) == strip_start(p, true),
{
    assert((seq!['/'] + p).drop_first() =~= p);
}

proof fn lemma_strip_end_slash_suffix(p: Seq<char>)
    ensures
        strip_end(p + seq!['/'], true) == strip_end(p, true),
{
    assert((p + seq!['/']).drop_last() =~= p);
}

proof fn lemma_strip_start_then_suffix(p: Seq<char>)
    ensures
        strip_end(strip_start(p + seq!['/'], true), true) == strip_end(strip_start(p, true), true),
    decreases p.len(),
{
    if p.len() > 0 && p[0] == '/' {
        assert((p + seq!['/']).drop_first() =~= p.drop_first() + seq!['/']);
        lemma_strip_start_then_suffix(p.drop_first());
    } else if p.len() == 0 {
        assert(seq!['/'].drop_first() =~= Seq::<char>::empty());
        assert(strip_start(Seq::<char>::empty() + seq!['/'], true) == strip_start(
            seq!['/'].drop_first(),
            true,
        ));
        assert(Seq::<char>::empty() + seq!['/'] =~= seq!['/']);
    } else {
        assert((p + seq!['/'])[0] == p[0]);
        lemma_strip_end_slash_suffix(p);
    }
}

/// A prefix keys the same outputs with or without a leading or trailing `/`.
pub proof fn lemma_prefix_slashes_ignored(
    p: Seq<char>,
    schema: Seq<char>,
    ms: int,
    id_field: Seq<char>,
    id: Seq<char>,
    leaf: Seq<char>,
)
    ensures
        partition_key(seq!['/'] + p, schema, ms, id_field, id, leaf) == partition_key(
            p,
            schema,
            ms,
            id_field,
            id,
            leaf,
        ),
        partition_key(p + seq!['/'], schema, ms, id_field, id, leaf) == partition_key(
            p,
            schema,
            ms,
            id_field,
            id,
            leaf,
        ),
{
    lemma_strip_start_slash_prefix(p);
    lemma_strip_start_then_suffix(p);
}

/// A prefix keys the same outputs as the prefix with its leading and trailing `/` trimmed:
/// the key of `p` is the key of `p.trim_matches('/')`, for every `p`.
pub proof fn lemma_prefix_trim_ignored(
    p: Seq<char>,
    schema: Seq<char>,
    ms: int,
    id_field: Seq<char>,
    id: Seq<char>,
    leaf: Seq<char>,
)
    ensures
        partition_key(p, schema, ms, id_field, id, leaf) == partition_key(
            trim_slash(p),
            schema,
            ms,
            id_field,
            id,
            leaf,
        ),
{
    lemma_trim_slash_idempotent(p);
}

/// A key starts with `<trimmed prefix>/schema=<schema>/dt=` and ends with
/// `<id_field><id as a path segment>/<leaf>`.
pub proof fn lemma_partition_key_shape(
    p: Seq<char>,
    schema: Seq<char>,
    ms: int,
    id_field: Seq<char>,
    id: Seq<char>,
    leaf: Seq<char>,
)
    ensures
        ({
            let k = partition_key(p, schema, ms, id_field, id, leaf);
            let start = trim_slash(p) + "/schema="@ + schema + "/dt="@;
            let end = id_field + path_segment_of(id) + seq!['/'] + leaf;
            &&& k.len() >= start.len() + end.len()
            &&& k.take(start.len() as int) == start
            &&& k.skip(k.len() - end.len()) == end
        }),
{
    let k = partition_key(p, schema, ms, id_field, id, leaf);
    let start = trim_slash(p) + "/schema="@ + schema + "/dt="@;
    let mid = event_date_of(ms) + "/hour="@ + padded_decimal(hour_of(ms) as nat, 2);
    let end = id_field + path_segment_of(id) + seq!['/'] + leaf;
    assert(k =~= start + mid + end);
    assert((start + mid + end).take(start.len() as int) =~= start);
    assert((start + mid + end).skip(k.len() - end.len()) =~= end);
}

/// A number below one hundred written with two digits: both are ASCII digits and they
/// read back as the number.
proof fn lemma_two_digits(n: nat)
    requires
        n < 100,
    ensures
        padded_decimal(n, 2).len() == 2,
        is_ascii_digit(padded_decimal(n, 2)[0]),
        is_ascii_digit(padded_decimal(n, 2)[1]),
        digit_value(padded_decimal(n, 2)[0]) * 10 + digit_value(padded_decimal(n, 2)[1]) == n,
{
    if n < 10 {
        lemma_digit_char(n);
        lemma_digit_char(0);
        assert(decimal(n).len() == 1);
        assert(padded_decimal(n, 1) == decimal(n));
        assert(padded_decimal(n, 2) =~= seq!['0'] + decimal(n));
        assert(digit_char(0) == '0');
    } else {
        lemma_digit_char(n / 10);
        lemma_digit_char(n % 10);
        assert(decimal((n / 10) as nat) =~= seq![digit_char((n / 10) as nat)]);
        assert(decimal(n) =~= seq![digit_char((n / 10) as nat), digit_char((n % 10) as nat)]);
    }
}

/// The hour segment of every key is two ASCII digits whose value is the UTC hour of the
/// time: the number of whole hours since the start of its UTC day, from 0 to 23.
pub proof fn lemma_hour_segment(
    p: Seq<char>,
    schema: Seq<char>,
    ms: int,
    id_field: Seq<char>,
    id: Seq<char>,
    leaf: Seq<char>,
)
    ensures
        ({
            let key = partition_key(p, schema, ms, id_field, id, leaf);
            let pre = trim_slash(p) + "/schema="@ + schema + "/dt="@ + event_date_of(ms) + "/hour="@;
            let post = id_field + path_segment_of(id) + seq!['/'] + leaf;
            let n = pre.len() as int;
            let h = digit_value(key[n]) * 10 + digit_value(key[n + 1]);
            &&& key.len() == pre.len() + 2 + post.len()
            &&& key.take(n) == pre
            &&& key.skip(n + 2) == post
            &&& is_ascii_digit(key[n])
            &&& is_ascii_digit(key[n + 1])
            &&& 0 <= h < 24
            &&& h * 3_600_000 <= ms % 86_400_000 < (h + 1) * 3_600_000
        }),
{
    let key = partition_key(p, schema, ms, id_field, id, leaf);
    let pre = trim_slash(p) + "/schema="@ + schema + "/dt="@ + event_date_of(ms) + "/hour="@;
    let post = id_field + path_segment_of(id) + seq!['/'] + leaf;
    let hour = hour_of(ms);
    let r = ms % 86_400_000;
    assert(0 <= r < 86_400_000);
    assert(hour == r / 3_600_000);
    assert(0 <= hour < 24);
    assert(hour * 3_600_000 <= r < (hour + 1) * 3_600_000);
    let digits = padded_decimal(hour as nat, 2);
    lemma_two_digits(hour as nat);
    assert(key =~= pre + digits + post);
    let n = pre.len() as int;
    assert(key[n] == digits[0]);
    assert(key[n + 1] == digits[1]);
    assert(key.take(n) =~= pre);
    assert(key.skip(n + 2) =~= post);
}

} // verus!
