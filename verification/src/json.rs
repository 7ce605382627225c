//! The compact JSON form of the records: fields in declaration order, strings escaped
//! by `serde_json`, `null` for an absent value, no white space.
use crate::hash::hex_digit;
use crate::text::{decimal, digit_char, i64_to_string, join, join_strings, signed_decimal, usize_to_string, views};
use crate::types::{
    opt_view, AuthorityMigrationRecord, ControlPlaneRunRecord, DomainReplaySupervisorReport,
    SkippedDomain, WorkflowCommand,
};
use vstd::prelude::*;
use vstd::string::*;

verus! {

/// How one character is written inside a JSON string.
pub open spec fn escape_char(c: char) -> Seq<char> {
    let u = c as u32;
    if c == '"' {
        seq!['\\', '"']
    } else if c == '\\' {
        seq!['\\', '\\']
    } else if u == 8 {
        seq!['\\', 'b']
    } else if u == 9 {
        seq!['\\', 't']
    } else if u == 10 {
        seq!['\\', 'n']
    } else if u == 12 {
        seq!['\\', 'f']
    } else if u == 13 {
        seq!['\\', 'r']
    } else if u < 32 {
        seq!['\\', 'u', '0', '0', hex_digit((u / 16) as nat), hex_digit((u % 16) as nat)]
    } else {
        seq![c]
    }
}

/// The characters of a text, each escaped.
pub open spec fn escape_text(s: Seq<char>) -> Seq<char>
    decreases s.len(),
{
    if s.len() == 0 {
        Seq::empty()
    } else {
        escape_text(s.drop_last()) + escape_char(s.last())
    }
}

/// A JSON string.
#[verifier::opaque]
pub open spec fn json_string(s: Seq<char>) -> Seq<char> {
    seq!['"'] + escape_text(s) + seq!['"']
}

/// `null`.
pub open spec fn json_null() -> Seq<char> {
    seq!['n', 'u', 'l', 'l']
}

/// A JSON string, or `null`.
#[verifier::opaque]
pub open spec fn json_opt_string(o: Option<Seq<char>>) -> Seq<char> {
    match o {
        Some(s) => json_string(s),
        None => json_null(),
    }
}

/// A JSON array of already written values.
#[verifier::opaque]
pub open spec fn json_list(items: Seq<Seq<char>>) -> Seq<char> {
    seq!['['] + join(items, seq![',']) + seq![']']
}

/// A JSON object of already written fields.
#[verifier::opaque]
pub open spec fn json_object(fields: Seq<Seq<char>>) -> Seq<char> {
    seq!['{'] + join(fields, seq![',']) + seq!['}']
}

/// One field of a JSON object.
#[verifier::opaque]
pub open spec fn json_field(name: Seq<char>, value: Seq<char>) -> Seq<char> {
    json_string(name) + seq![':'] + value
}

/// A JSON array of strings.
#[verifier::opaque]
pub open spec fn json_strings(v: Seq<Seq<char>>) -> Seq<char> {
    json_list(v.map_values(|s: Seq<char>| json_string(s)))
}

/// A workflow command in compact JSON.
pub open spec fn command_json(c: WorkflowCommand) -> Seq<char> {
    json_object(command_fields(c))
}

/// The fields of a workflow command in compact JSON.
pub open spec fn command_fields(c: WorkflowCommand) -> Seq<Seq<char>> {
    seq![
        json_field("schema_version"@, json_string(c.schema_version@)),
        json_field("workflow_command_id"@, json_string(c.workflow_command_id@)),
        json_field("workflow_type"@, json_string(c.workflow_type@)),
        json_field("target_app"@, json_string(c.target_app@)),
        json_field("target_scope"@, json_string(c.target_scope@)),
        json_field("target_mode"@, json_string(c.target_mode@)),
        json_field("reason"@, json_string(c.reason@)),
        json_field("source_run_record_id"@, json_string(c.source_run_record_id@)),
        json_field("issued_at_ms"@, signed_decimal(c.issued_at_ms as int)),
        json_field("idempotency_key"@, json_string(c.idempotency_key@)),
        json_field("domain_id"@, json_string(c.domain_id@)),
        json_field("input_bucket"@, json_string(c.input_bucket@)),
        json_field("input_prefixes"@, json_strings(views(c.input_prefixes@))),
        json_field("estimated_input_keys"@, decimal(c.estimated_input_keys as nat)),
        json_field("command"@, json_strings(views(c.command@))),
    ]
}

/// An authority migration record in compact JSON.
pub open spec fn authority_record_json(r: AuthorityMigrationRecord) -> Seq<char> {
    json_object(authority_record_fields(r))
}

/// The fields of that record in compact JSON.
pub open spec fn authority_record_fields(r: AuthorityMigrationRecord) -> Seq<Seq<char>> {
seq![
        json_field("schema_version"@, json_string(r.schema_version@)),
        json_field(
            "authority_migration_record_id"@,
            json_string(r.authority_migration_record_id@),
        ),
        json_field("control_plane_run_record_id"@, json_string(r.control_plane_run_record_id@)),
        json_field("authority_scope"@, json_string(r.authority_scope@)),
        json_field("from_app"@, json_opt_string(opt_view(r.from_app))),
        json_field("to_app"@, json_string(r.to_app@)),
        json_field("migration_reason"@, json_string(r.migration_reason@)),
        json_field("effective_at_ms"@, signed_decimal(r.effective_at_ms as int)),
        json_field("created_at_ms"@, signed_decimal(r.created_at_ms as int)),
        json_field("manifest_id"@, json_string(r.manifest_id@)),
        json_field("manifest_checksum"@, json_string(r.manifest_checksum@)),
        json_field("idempotency_key"@, json_string(r.idempotency_key@)),
]
}

/// A control-plane run record in compact JSON.
pub open spec fn run_record_json(r: ControlPlaneRunRecord) -> Seq<char> {
    json_object(run_record_fields(r))
}

/// The fields of that record in compact JSON.
pub open spec fn run_record_fields(r: ControlPlaneRunRecord) -> Seq<Seq<char>> {
seq![
        json_field("schema_version"@, json_string(r.schema_version@)),
        json_field("control_plane_run_record_id"@, json_string(r.control_plane_run_record_id@)),
        json_field("producer_app"@, json_string(r.producer_app@)),
        json_field("producer_version"@, json_string(r.producer_version@)),
        json_field("created_at_ms"@, signed_decimal(r.created_at_ms as int)),
        json_field("run_type"@, json_string(r.run_type@)),
        json_field("manifest_id"@, json_string(r.manifest_id@)),
        json_field("manifest_checksum"@, json_string(r.manifest_checksum@)),
        json_field("changed_triggers"@, json_strings(views(r.changed_triggers@))),
        json_field("domains_seen"@, decimal(r.domains_seen as nat)),
        json_field("domains_selected"@, decimal(r.domains_selected as nat)),
        json_field("workflow_command_ids"@, json_strings(views(r.workflow_command_ids@))),
        json_field(
            "authority_migration_record_ids"@,
            json_strings(views(r.authority_migration_record_ids@)),
        ),
        json_field("output_report_key"@, json_opt_string(opt_view(r.output_report_key))),
        json_field("checksum"@, json_string(r.checksum@)),
]
}

/// A skipped domain in compact JSON.
pub open spec fn skipped_json(s: SkippedDomain) -> Seq<char> {
    json_object(skipped_fields(s))
}

/// The fields of that record in compact JSON.
pub open spec fn skipped_fields(s: SkippedDomain) -> Seq<Seq<char>> {
seq![
        json_field("domain_id"@, json_string(s.domain_id@)),
        json_field("reason"@, json_string(s.reason@)),
]
}

/// A supervisor report in compact JSON.
pub open spec fn report_json(r: DomainReplaySupervisorReport) -> Seq<char> {
    json_object(report_fields(r))
}

/// The fields of that record in compact JSON.
pub open spec fn report_fields(r: DomainReplaySupervisorReport) -> Seq<Seq<char>> {
seq![
        json_field("schema_version"@, json_string(r.schema_version@)),
        json_field("supervisor_run_id"@, json_string(r.supervisor_run_id@)),
        json_field("producer_app"@, json_string(r.producer_app@)),
        json_field("producer_version"@, json_string(r.producer_version@)),
        json_field("created_at_ms"@, signed_decimal(r.created_at_ms as int)),
        json_field("manifest_id"@, json_string(r.manifest_id@)),
        json_field("manifest_checksum"@, json_string(r.manifest_checksum@)),
        json_field("changed_triggers"@, json_strings(views(r.changed_triggers@))),
        json_field("domains_seen"@, decimal(r.domains_seen as nat)),
        json_field("domains_selected"@, decimal(r.domains_selected as nat)),
        json_field("workflow_commands_created"@, decimal(r.workflow_commands_created as nat)),
        json_field("input_keys_estimated"@, decimal(r.input_keys_estimated as nat)),
        json_field(
            "skipped_domains"@,
            json_list(r.skipped_domains@.map_values(|s: SkippedDomain| skipped_json(s))),
        ),
        json_field(
            "workflow_commands"@,
            json_list(r.workflow_commands@.map_values(|c: WorkflowCommand| command_json(c))),
        ),
        json_field("control_plane_run_record"@, run_record_json(r.control_plane_run_record)),
        json_field(
            "authority_migration_records"@,
            json_list(
                r.authority_migration_records@.map_values(
                    |a: AuthorityMigrationRecord| authority_record_json(a),
                ),
            ),
        ),
        json_field("report_key"@, json_opt_string(opt_view(r.report_key))),
        json_field("checksum"@, json_string(r.checksum@)),
]
}

/// A text without a line break.
pub open spec fn no_newline(s: Seq<char>) -> bool {
    forall|i: int| 0 <= i < s.len() ==> s[i] != '\n'
}

proof fn lemma_concat_no_newline(a: Seq<char>, b: Seq<char>)
    requires
        no_newline(a),
        no_newline(b),
    ensures
        no_newline(a + b),
{
    assert forall|i: int| 0 <= i < (a + b).len() implies (a + b)[i] != '\n' by {
        if i >= a.len() {
            assert((a + b)[i] == b[i - a.len()]);
        }
    }
}

proof fn lemma_escape_no_newline(s: Seq<char>)
    ensures
        no_newline(escape_text(s)),
    decreases s.len(),
{
    if s.len() > 0 {
        lemma_escape_no_newline(s.drop_last());
        let c = s.last();
        let u = c as u32;
        if u < 32 && u != 8 && u != 9 && u != 10 && u != 12 && u != 13 {
            assert(hex_digit((u / 16) as nat) != '\n');
            assert(hex_digit((u % 16) as nat) != '\n');
        }
        assert(no_newline(escape_char(c)));
        lemma_concat_no_newline(escape_text(s.drop_last()), escape_char(c));
    }
}

proof fn lemma_json_string_no_newline(s: Seq<char>)
    ensures
        no_newline(json_string(s)),
{
    reveal(json_string);
    lemma_escape_no_newline(s);
    lemma_concat_no_newline(seq!['"'], escape_text(s));
    lemma_concat_no_newline(seq!['"'] + escape_text(s), seq!['"']);
}

proof fn lemma_decimal_no_newline(n: nat)
    ensures
        no_newline(decimal(n)),
    decreases n,
{
    if n >= 10 {
        lemma_decimal_no_newline(n / 10);
        assert(digit_char((n % 10) as nat) != '\n');
    } else {
        assert(digit_char(n) != '\n');
    }
}

proof fn lemma_signed_decimal_no_newline(i: int)
    ensures
        no_newline(signed_decimal(i)),
{
    if i < 0 {
        lemma_decimal_no_newline((-i) as nat);
        lemma_concat_no_newline(seq!['-'], decimal((-i) as nat));
    } else {
        lemma_decimal_no_newline(i as nat);
    }
}

proof fn lemma_join_no_newline(parts: Seq<Seq<char>>, sep: Seq<char>)
    requires
        forall|k: int| 0 <= k < parts.len() ==> no_newline(#[trigger] parts[k]),
        no_newline(sep),
    ensures
        no_newline(join(parts, sep)),
    decreases parts.len(),
{
    if parts.len() > 1 {
        lemma_join_no_newline(parts.drop_last(), sep);
        assert(no_newline(parts[parts.len() - 1]));
        lemma_concat_no_newline(join(parts.drop_last(), sep), sep);
        lemma_concat_no_newline(join(parts.drop_last(), sep) + sep, parts.last());
    } else if parts.len() == 1 {
        assert(no_newline(parts[0]));
    }
}

proof fn lemma_list_no_newline(items: Seq<Seq<char>>)
    requires
        forall|k: int| 0 <= k < items.len() ==> no_newline(#[trigger] items[k]),
    ensures
        no_newline(json_list(items)),
{
    reveal(json_list);
    lemma_join_no_newline(items, seq![',']);
    lemma_concat_no_newline(seq!['['], join(items, seq![',']));
    lemma_concat_no_newline(seq!['['] + join(items, seq![',']), seq![']']);
}

proof fn lemma_object_no_newline(fields: Seq<Seq<char>>)
    requires
        forall|k: int| 0 <= k < fields.len() ==> no_newline(#[trigger] fields[k]),
    ensures
        no_newline(json_object(fields)),
{
    reveal(json_object);
    lemma_join_no_newline(fields, seq![',']);
    lemma_concat_no_newline(seq!['{'], join(fields, seq![',']));
    lemma_concat_no_newline(seq!['{'] + join(fields, seq![',']), seq!['}']);
}

proof fn lemma_strings_no_newline(v: Seq<Seq<char>>)
    ensures
        no_newline(json_strings(v)),
{
    reveal(json_strings);
    let items = v.map_values(|s: Seq<char>| json_string(s));
    assert forall|k: int| 0 <= k < items.len() implies no_newline(#[trigger] items[k]) by {
        lemma_json_string_no_newline(v[k]);
    }
    lemma_list_no_newline(items);
}

proof fn lemma_opt_string_no_newline(o: Option<Seq<char>>)
    ensures
        no_newline(json_opt_string(o)),
{
    reveal(json_opt_string);
    match o {
        Some(s) => lemma_json_string_no_newline(s),
        None => {},
    }
}

proof fn lemma_field_no_newline(name: Seq<char>, value: Seq<char>)
    requires
        no_newline(value),
    ensures
        no_newline(json_field(name, value)),
{
    reveal(json_field);
    lemma_json_string_no_newline(name);
    lemma_concat_no_newline(json_string(name), seq![':']);
    lemma_concat_no_newline(json_string(name) + seq![':'], value);
}

/// The compact JSON of a workflow command is a single line.
pub proof fn lemma_command_json_one_line(c: WorkflowCommand)
    ensures
        no_newline(command_json(c)),
{
    let f = command_fields(c);
    lemma_json_string_no_newline(c.schema_version@);
    lemma_json_string_no_newline(c.workflow_command_id@);
    lemma_json_string_no_newline(c.workflow_type@);
    lemma_json_string_no_newline(c.target_app@);
    lemma_json_string_no_newline(c.target_scope@);
    lemma_json_string_no_newline(c.target_mode@);
    lemma_json_string_no_newline(c.reason@);
    lemma_json_string_no_newline(c.source_run_record_id@);
    lemma_signed_decimal_no_newline(c.issued_at_ms as int);
    lemma_json_string_no_newline(c.idempotency_key@);
    lemma_json_string_no_newline(c.domain_id@);
    lemma_json_string_no_newline(c.input_bucket@);
    lemma_strings_no_newline(views(c.input_prefixes@));
    lemma_decimal_no_newline(c.estimated_input_keys as nat);
    lemma_strings_no_newline(views(c.command@));
    lemma_field_no_newline("schema_version"@, json_string(c.schema_version@));
    lemma_field_no_newline("workflow_command_id"@, json_string(c.workflow_command_id@));
    lemma_field_no_newline("workflow_type"@, json_string(c.workflow_type@));
    lemma_field_no_newline("target_app"@, json_string(c.target_app@));
    lemma_field_no_newline("target_scope"@, json_string(c.target_scope@));
    lemma_field_no_newline("target_mode"@, json_string(c.target_mode@));
    lemma_field_no_newline("reason"@, json_string(c.reason@));
    lemma_field_no_newline("source_run_record_id"@, json_string(c.source_run_record_id@));
    lemma_field_no_newline("issued_at_ms"@, signed_decimal(c.issued_at_ms as int));
    lemma_field_no_newline("idempotency_key"@, json_string(c.idempotency_key@));
    lemma_field_no_newline("domain_id"@, json_string(c.domain_id@));
    lemma_field_no_newline("input_bucket"@, json_string(c.input_bucket@));
    lemma_field_no_newline("input_prefixes"@, json_strings(views(c.input_prefixes@)));
    lemma_field_no_newline("estimated_input_keys"@, decimal(c.estimated_input_keys as nat));
    lemma_field_no_newline("command"@, json_strings(views(c.command@)));
    assert forall|k: int| 0 <= k < f.len() implies no_newline(#[trigger] f[k]) by {
    }
    lemma_object_no_newline(f);
}

/// The compact JSON of an authority migration record is a single line.
pub proof fn lemma_authority_record_json_one_line(r: AuthorityMigrationRecord)
    ensures
        no_newline(authority_record_json(r)),
{
    let f = authority_record_fields(r);
    lemma_json_string_no_newline(r.schema_version@);
    lemma_json_string_no_newline(r.authority_migration_record_id@);
    lemma_json_string_no_newline(r.control_plane_run_record_id@);
    lemma_json_string_no_newline(r.authority_scope@);
    lemma_opt_string_no_newline(opt_view(r.from_app));
    lemma_json_string_no_newline(r.to_app@);
    lemma_json_string_no_newline(r.migration_reason@);
    lemma_signed_decimal_no_newline(r.effective_at_ms as int);
    lemma_signed_decimal_no_newline(r.created_at_ms as int);
    lemma_json_string_no_newline(r.manifest_id@);
    lemma_json_string_no_newline(r.manifest_checksum@);
    lemma_json_string_no_newline(r.idempotency_key@);
    lemma_field_no_newline("schema_version"@, json_string(r.schema_version@));
    lemma_field_no_newline(
        "authority_migration_record_id"@,
        json_string(r.authority_migration_record_id@),
    );
    lemma_field_no_newline("control_plane_run_record_id"@, json_string(r.control_plane_run_record_id@));
    lemma_field_no_newline("authority_scope"@, json_string(r.authority_scope@));
    lemma_field_no_newline("from_app"@, json_opt_string(opt_view(r.from_app)));
    lemma_field_no_newline("to_app"@, json_string(r.to_app@));
    lemma_field_no_newline("migration_reason"@, json_string(r.migration_reason@));
    lemma_field_no_newline("effective_at_ms"@, signed_decimal(r.effective_at_ms as int));
    lemma_field_no_newline("created_at_ms"@, signed_decimal(r.created_at_ms as int));
    lemma_field_no_newline("manifest_id"@, json_string(r.manifest_id@));
    lemma_field_no_newline("manifest_checksum"@, json_string(r.manifest_checksum@));
    lemma_field_no_newline("idempotency_key"@, json_string(r.idempotency_key@));
    assert forall|k: int| 0 <= k < f.len() implies no_newline(#[trigger] f[k]) by {
    }
    lemma_object_no_newline(f);
}

/// Calls `serde_json::to_string` on a string slice. The contract claims that the result is
/// the string in double quotes with each character written as `escape_char` says, which is
/// what `format_escaped_str` does with its `ESCAPE` table. Writing into a `Vec<u8>` cannot
/// fail, so the error arm is never taken.
#[verifier::external_body]
fn serde_json_to_string(s: &str) -> (r: String)
    ensures
        r@ == json_string(s@),
{
    match serde_json::to_string(s) {
        Ok(text) => text,
        Err(_) => String::new(),
    }
}

/// A JSON string.
pub fn json_str(s: &str) -> (r: String)
    ensures
        r@ == json_string(s@),
{
    serde_json_to_string(s)
}

/// A JSON string, or `null`.
pub fn json_opt_str(o: &Option<String>) -> (r: String)
    ensures
        r@ == json_opt_string(opt_view(*o)),
{
    match o {
        Some(s) => {
            reveal(json_opt_string);
            json_str(s.as_str())
        },
        None => {
            let mut out = String::new();
            out.push('n');
            out.push('u');
            out.push('l');
            out.push('l');
            assert(out@ =~= json_null());
            reveal(json_opt_string);
            out
        },
    }
}

/// A JSON array of already written values.
pub fn json_list_of(items: &Vec<String>) -> (r: String)
    ensures
        r@ == json_list(views(items@)),
{
    let mut out = String::new();
    out.push('[');
    let body = join_strings(items, ',');
    out.append(body.as_str());
    out.push(']');
    reveal(json_list);
    assert(out@ =~= json_list(views(items@)));
    out
}

/// A JSON object of already written fields.
pub fn json_object_of(fields: &Vec<String>) -> (r: String)
    ensures
        r@ == json_object(views(fields@)),
{
    let mut out = String::new();
    out.push('{');
    let body = join_strings(fields, ',');
    out.append(body.as_str());
    out.push('}');
    reveal(json_object);
    assert(out@ =~= json_object(views(fields@)));
    out
}

/// One field of a JSON object.
pub fn json_field_of(name: &str, value: String) -> (r: String)
    ensures
        r@ == json_field(name@, value@),
{
    let mut out = json_str(name);
    out.push(':');
    out.append(value.as_str());
    reveal(json_field);
    assert(out@ =~= json_field(name@, value@));
    out
}

/// A JSON array of strings.
pub fn json_strings_of(v: &Vec<String>) -> (r: String)
    ensures
        r@ == json_strings(views(v@)),
{
    let mut items: Vec<String> = Vec::new();
    let mut i: usize = 0;
    while i < v.len()
        invariant
            i <= v.len(),
            views(items@) =~= views(v@).take(i as int).map_values(
                |s: Seq<char>| json_string(s),
            ),
        decreases v.len() - i,
    {
        let ghost prev = views(items@);
        items.push(json_str(v[i].as_str()));
        assert(views(items@) =~= prev.push(json_string(v@[i as int]@)));
        assert(views(v@).take(i + 1).map_values(|s: Seq<char>| json_string(s)) =~= views(
            v@,
        ).take(i as int).map_values(|s: Seq<char>| json_string(s)).push(json_string(v@[i as int]@)));
        i = i + 1;
    }
    assert(views(v@).take(v.len() as int) =~= views(v@));
    reveal(json_strings);
    json_list_of(&items)
}

/// Appends one field of a JSON object to the fields written so far.
pub fn push_field(fields: &mut Vec<String>, name: &str, value: String)
    ensures
        views(final(fields)@) == views(old(fields)@).push(json_field(name@, value@)),
{
    let f = json_field_of(name, value);
    fields.push(f);
    assert(views(fields@) =~= views(old(fields)@).push(json_field(name@, value@)));
}

/// A workflow command in compact JSON, as `serde_json::to_string` writes it.
pub fn command_to_json(c: &WorkflowCommand) -> (r: String)
    ensures
        r@ == command_json(*c),
{
    let mut f: Vec<String> = Vec::new();
    assert(views(f@) =~= Seq::<Seq<char>>::empty());
    push_field(&mut f, "schema_version", json_str(c.schema_version.as_str()));
    push_field(&mut f, "workflow_command_id", json_str(c.workflow_command_id.as_str()));
    push_field(&mut f, "workflow_type", json_str(c.workflow_type.as_str()));
    push_field(&mut f, "target_app", json_str(c.target_app.as_str()));
    push_field(&mut f, "target_scope", json_str(c.target_scope.as_str()));
    push_field(&mut f, "target_mode", json_str(c.target_mode.as_str()));
    push_field(&mut f, "reason", json_str(c.reason.as_str()));
    push_field(&mut f, "source_run_record_id", json_str(c.source_run_record_id.as_str()));
    push_field(&mut f, "issued_at_ms", i64_to_string(c.issued_at_ms));
    push_field(&mut f, "idempotency_key", json_str(c.idempotency_key.as_str()));
    push_field(&mut f, "domain_id", json_str(c.domain_id.as_str()));
    push_field(&mut f, "input_bucket", json_str(c.input_bucket.as_str()));
    push_field(&mut f, "input_prefixes", json_strings_of(&c.input_prefixes));
    push_field(&mut f, "estimated_input_keys", usize_to_string(c.estimated_input_keys));
    push_field(&mut f, "command", json_strings_of(&c.command));
    assert(views(f@) =~= command_fields(*c));
    json_object_of(&f)
}

/// An authority migration record in compact JSON, as `serde_json::to_string` writes it.
pub fn authority_record_to_json(r: &AuthorityMigrationRecord) -> (out: String)
    ensures
        out@ == authority_record_json(*r),
{
    let mut f: Vec<String> = Vec::new();
    assert(views(f@) =~= Seq::<Seq<char>>::empty());
    push_field(&mut f, "schema_version", json_str(r.schema_version.as_str()));
    push_field(
        &mut f,
        "authority_migration_record_id",
        json_str(r.authority_migration_record_id.as_str()),
    );
    push_field(&mut f, "control_plane_run_record_id", json_str(r.control_plane_run_record_id.as_str()));
    push_field(&mut f, "authority_scope", json_str(r.authority_scope.as_str()));
    push_field(&mut f, "from_app", json_opt_str(&r.from_app));
    push_field(&mut f, "to_app", json_str(r.to_app.as_str()));
    push_field(&mut f, "migration_reason", json_str(r.migration_reason.as_str()));
    push_field(&mut f, "effective_at_ms", i64_to_string(r.effective_at_ms));
    push_field(&mut f, "created_at_ms", i64_to_string(r.created_at_ms));
    push_field(&mut f, "manifest_id", json_str(r.manifest_id.as_str()));
    push_field(&mut f, "manifest_checksum", json_str(r.manifest_checksum.as_str()));
    push_field(&mut f, "idempotency_key", json_str(r.idempotency_key.as_str()));
    assert(views(f@) =~= authority_record_fields(*r));
    json_object_of(&f)
}

/// A control-plane run record in compact JSON, as `serde_json::to_string` writes it.
pub fn run_record_to_json(r: &ControlPlaneRunRecord) -> (out: String)
    ensures
        out@ == run_record_json(*r),
{
    let mut f: Vec<String> = Vec::new();
    assert(views(f@) =~= Seq::<Seq<char>>::empty());
    push_field(&mut f, "schema_version", json_str(r.schema_version.as_str()));
    push_field(&mut f, "control_plane_run_record_id", json_str(r.control_plane_run_record_id.as_str()));
    push_field(&mut f, "producer_app", json_str(r.producer_app.as_str()));
    push_field(&mut f, "producer_version", json_str(r.producer_version.as_str()));
    push_field(&mut f, "created_at_ms", i64_to_string(r.created_at_ms));
    push_field(&mut f, "run_type", json_str(r.run_type.as_str()));
    push_field(&mut f, "manifest_id", json_str(r.manifest_id.as_str()));
    push_field(&mut f, "manifest_checksum", json_str(r.manifest_checksum.as_str()));
    push_field(&mut f, "changed_triggers", json_strings_of(&r.changed_triggers));
    push_field(&mut f, "domains_seen", usize_to_string(r.domains_seen));
    push_field(&mut f, "domains_selected", usize_to_string(r.domains_selected));
    push_field(&mut f, "workflow_command_ids", json_strings_of(&r.workflow_command_ids));
    push_field(
        &mut f,
        "authority_migration_record_ids",
        json_strings_of(&r.authority_migration_record_ids),
    );
    push_field(&mut f, "output_report_key", json_opt_str(&r.output_report_key));
    push_field(&mut f, "checksum", json_str(r.checksum.as_str()));
    assert(views(f@) =~= run_record_fields(*r));
    json_object_of(&f)
}

/// A skipped domain in compact JSON.
pub fn skipped_to_json(s: &SkippedDomain) -> (out: String)
    ensures
        out@ == skipped_json(*s),
{
    let mut f: Vec<String> = Vec::new();
    assert(views(f@) =~= Seq::<Seq<char>>::empty());
    push_field(&mut f, "domain_id", json_str(s.domain_id.as_str()));
    push_field(&mut f, "reason", json_str(s.reason.as_str()));
    assert(views(f@) =~= skipped_fields(*s));
    json_object_of(&f)
}

/// The skipped domains as a JSON array.
pub fn skipped_list_to_json(v: &Vec<SkippedDomain>) -> (out: String)
    ensures
        out@ == json_list(v@.map_values(|s: SkippedDomain| skipped_json(s))),
{
    let mut items: Vec<String> = Vec::new();
    let mut i: usize = 0;
    while i < v.len()
        invariant
            i <= v.len(),
            views(items@) =~= v@.take(i as int).map_values(|s: SkippedDomain| skipped_json(s)),
        decreases v.len() - i,
    {
        let ghost prev = views(items@);
        items.push(skipped_to_json(&v[i]));
        assert(views(items@) =~= prev.push(skipped_json(v@[i as int])));
        assert(v@.take(i + 1).map_values(|s: SkippedDomain| skipped_json(s)) =~= v@.take(
            i as int,
        ).map_values(|s: SkippedDomain| skipped_json(s)).push(skipped_json(v@[i as int])));
        i = i + 1;
    }
    assert(v@.take(v.len() as int) =~= v@);
    json_list_of(&items)
}

/// The workflow commands as a JSON array.
pub fn command_list_to_json(v: &Vec<WorkflowCommand>) -> (out: String)
    ensures
        out@ == json_list(v@.map_values(|c: WorkflowCommand| command_json(c))),
{
    let mut items: Vec<String> = Vec::new();
    let mut i: usize = 0;
    while i < v.len()
        invariant
            i <= v.len(),
            views(items@) =~= v@.take(i as int).map_values(|c: WorkflowCommand| command_json(c)),
        decreases v.len() - i,
    {
        let ghost prev = views(items@);
        items.push(command_to_json(&v[i]));
        assert(views(items@) =~= prev.push(command_json(v@[i as int])));
        assert(v@.take(i + 1).map_values(|c: WorkflowCommand| command_json(c)) =~= v@.take(
            i as int,
        ).map_values(|c: WorkflowCommand| command_json(c)).push(command_json(v@[i as int])));
        i = i + 1;
    }
    assert(v@.take(v.len() as int) =~= v@);
    json_list_of(&items)
}

/// The authority migration records as a JSON array.
pub fn authority_list_to_json(v: &Vec<AuthorityMigrationRecord>) -> (out: String)
    ensures
        out@ == json_list(
            v@.map_values(|a: AuthorityMigrationRecord| authority_record_json(a)),
        ),
{
    let mut items: Vec<String> = Vec::new();
    let mut i: usize = 0;
    while i < v.len()
        invariant
            i <= v.len(),
            views(items@) =~= v@.take(i as int).map_values(
                |a: AuthorityMigrationRecord| authority_record_json(a),
            ),
        decreases v.len() - i,
    {
        let ghost prev = views(items@);
        items.push(authority_record_to_json(&v[i]));
        assert(views(items@) =~= prev.push(authority_record_json(v@[i as int])));
        assert(v@.take(i + 1).map_values(|a: AuthorityMigrationRecord| authority_record_json(a))
            =~= v@.take(i as int).map_values(
            |a: AuthorityMigrationRecord| authority_record_json(a),
        ).push(authority_record_json(v@[i as int])));
        i = i + 1;
    }
    assert(v@.take(v.len() as int) =~= v@);
    json_list_of(&items)
}

/// A supervisor report in compact JSON, as `serde_json::to_string` writes it.
pub fn report_to_json(r: &DomainReplaySupervisorReport) -> (out: String)
    ensures
        out@ == report_json(*r),
{
    let mut f: Vec<String> = Vec::new();
    assert(views(f@) =~= Seq::<Seq<char>>::empty());
    push_field(&mut f, "schema_version", json_str(r.schema_version.as_str()));
    push_field(&mut f, "supervisor_run_id", json_str(r.supervisor_run_id.as_str()));
    push_field(&mut f, "producer_app", json_str(r.producer_app.as_str()));
    push_field(&mut f, "producer_version", json_str(r.producer_version.as_str()));
    push_field(&mut f, "created_at_ms", i64_to_string(r.created_at_ms));
    push_field(&mut f, "manifest_id", json_str(r.manifest_id.as_str()));
    push_field(&mut f, "manifest_checksum", json_str(r.manifest_checksum.as_str()));
    push_field(&mut f, "changed_triggers", json_strings_of(&r.changed_triggers));
    push_field(&mut f, "domains_seen", usize_to_string(r.domains_seen));
    push_field(&mut f, "domains_selected", usize_to_string(r.domains_selected));
    push_field(&mut f, "workflow_commands_created", usize_to_string(r.workflow_commands_created));
    push_field(&mut f, "input_keys_estimated", usize_to_string(r.input_keys_estimated));
    push_field(&mut f, "skipped_domains", skipped_list_to_json(&r.skipped_domains));
    push_field(&mut f, "workflow_commands", command_list_to_json(&r.workflow_commands));
    push_field(&mut f, "control_plane_run_record", run_record_to_json(&r.control_plane_run_record));
    push_field(
        &mut f,
        "authority_migration_records",
        authority_list_to_json(&r.authority_migration_records),
    );
    push_field(&mut f, "report_key", json_opt_str(&r.report_key));
    push_field(&mut f, "checksum", json_str(r.checksum.as_str()));
    assert(views(f@) =~= report_fields(*r));
    json_object_of(&f)
}

/// `part` occurs in `text`.
pub open spec fn contains_text(text: Seq<char>, part: Seq<char>) -> bool {
    exists|i: int|
        0 <= i && i + part.len() <= text.len() && #[trigger] text.subrange(i, i + part.len()) == part
}

/// Where part `k` starts in the parts joined with `sep`.
pub proof fn join_offset(parts: Seq<Seq<char>>, sep: Seq<char>, k: int) -> (i: int)
    requires
        0 <= k < parts.len(),
    ensures
        0 <= i,
        i + parts[k].len() <= join(parts, sep).len(),
        join(parts, sep).subrange(i, i + parts[k].len()) == parts[k],
    decreases parts.len(),
{
    if parts.len() == 1 {
        assert(join(parts, sep).subrange(0, parts[k].len() as int) =~= parts[k]);
        0
    } else {
        let head = join(parts.drop_last(), sep);
        if k == parts.len() - 1 {
            let i: int = (head.len() + sep.len()) as int;
            assert(join(parts, sep).subrange(i, i + parts[k].len()) =~= parts[k]);
            i
        } else {
            let i = join_offset(parts.drop_last(), sep, k);
            assert(join(parts, sep).subrange(i, i + parts[k].len()) =~= head.subrange(
                i,
                i + parts[k].len(),
            ));
            i
        }
    }
}

/// Every field of an object occurs in its JSON text.
proof fn lemma_object_contains(fields: Seq<Seq<char>>, k: int)
    requires
        0 <= k < fields.len(),
    ensures
        contains_text(json_object(fields), fields[k]),
{
    reveal(json_object);
    let body = join(fields, seq![',']);
    let i = join_offset(fields, seq![','], k);
    let text = seq!['{'] + body + seq!['}'];
    assert(text.subrange(i + 1, i + 1 + fields[k].len()) =~= body.subrange(i, i + fields[k].len()));
    assert(text.subrange(i + 1, i + 1 + fields[k].len()) == fields[k]);
}

/// The JSON line of a workflow command holds each field of the command under its own
/// name, with that field's own value.
pub proof fn lemma_command_json_members(c: WorkflowCommand)
    ensures
        contains_text(command_json(c), json_field("schema_version"@, json_string(c.schema_version@))),
        contains_text(command_json(c), json_field("workflow_command_id"@, json_string(c.workflow_command_id@))),
        contains_text(command_json(c), json_field("workflow_type"@, json_string(c.workflow_type@))),
        contains_text(command_json(c), json_field("target_app"@, json_string(c.target_app@))),
        contains_text(command_json(c), json_field("target_scope"@, json_string(c.target_scope@))),
        contains_text(command_json(c), json_field("target_mode"@, json_string(c.target_mode@))),
        contains_text(command_json(c), json_field("reason"@, json_string(c.reason@))),
        contains_text(command_json(c), json_field("source_run_record_id"@, json_string(c.source_run_record_id@))),
        contains_text(command_json(c), json_field("issued_at_ms"@, signed_decimal(c.issued_at_ms as int))),
        contains_text(command_json(c), json_field("idempotency_key"@, json_string(c.idempotency_key@))),
        contains_text(command_json(c), json_field("domain_id"@, json_string(c.domain_id@))),
        contains_text(command_json(c), json_field("input_bucket"@, json_string(c.input_bucket@))),
        contains_text(command_json(c), json_field("input_prefixes"@, json_strings(views(c.input_prefixes@)))),
        contains_text(command_json(c), json_field("estimated_input_keys"@, decimal(c.estimated_input_keys as nat))),
        contains_text(command_json(c), json_field("command"@, json_strings(views(c.command@)))),
{
    lemma_object_contains(command_fields(c), 0);
    lemma_object_contains(command_fields(c), 1);
    lemma_object_contains(command_fields(c), 2);
    lemma_object_contains(command_fields(c), 3);
    lemma_object_contains(command_fields(c), 4);
    lemma_object_contains(command_fields(c), 5);
    lemma_object_contains(command_fields(c), 6);
    lemma_object_contains(command_fields(c), 7);
    lemma_object_contains(command_fields(c), 8);
    lemma_object_contains(command_fields(c), 9);
    lemma_object_contains(command_fields(c), 10);
    lemma_object_contains(command_fields(c), 11);
    lemma_object_contains(command_fields(c), 12);
    lemma_object_contains(command_fields(c), 13);
    lemma_object_contains(command_fields(c), 14);
}

/// The JSON line of an authority migration record holds each field of the record under
/// its own name, with that field's own value.
pub proof fn lemma_authority_record_json_members(r: AuthorityMigrationRecord)
    ensures
        contains_text(authority_record_json(r), json_field("schema_version"@, json_string(r.schema_version@))),
        contains_text(authority_record_json(r), json_field("authority_migration_record_id"@, json_string(r.authority_migration_record_id@))),
        contains_text(authority_record_json(r), json_field("control_plane_run_record_id"@, json_string(r.control_plane_run_record_id@))),
        contains_text(authority_record_json(r), json_field("authority_scope"@, json_string(r.authority_scope@))),
        contains_text(authority_record_json(r), json_field("from_app"@, json_opt_string(opt_view(r.from_app)))),
        contains_text(authority_record_json(r), json_field("to_app"@, json_string(r.to_app@))),
        contains_text(authority_record_json(r), json_field("migration_reason"@, json_string(r.migration_reason@))),
        contains_text(authority_record_json(r), json_field("effective_at_ms"@, signed_decimal(r.effective_at_ms as int))),
        contains_text(authority_record_json(r), json_field("created_at_ms"@, signed_decimal(r.created_at_ms as int))),
        contains_text(authority_record_json(r), json_field("manifest_id"@, json_string(r.manifest_id@))),
        contains_text(authority_record_json(r), json_field("manifest_checksum"@, json_string(r.manifest_checksum@))),
        contains_text(authority_record_json(r), json_field("idempotency_key"@, json_string(r.idempotency_key@))),
{
    lemma_object_contains(authority_record_fields(r), 0);
    lemma_object_contains(authority_record_fields(r), 1);
    lemma_object_contains(authority_record_fields(r), 2);
    lemma_object_contains(authority_record_fields(r), 3);
    lemma_object_contains(authority_record_fields(r), 4);
    lemma_object_contains(authority_record_fields(r), 5);
    lemma_object_contains(authority_record_fields(r), 6);
    lemma_object_contains(authority_record_fields(r), 7);
    lemma_object_contains(authority_record_fields(r), 8);
    lemma_object_contains(authority_record_fields(r), 9);
    lemma_object_contains(authority_record_fields(r), 10);
    lemma_object_contains(authority_record_fields(r), 11);
}

/// The JSON of a control-plane run record holds each field of the record under its own
/// name, with that field's own value.
pub proof fn lemma_run_record_json_members(r: ControlPlaneRunRecord)
    ensures
        contains_text(run_record_json(r), json_field("schema_version"@, json_string(r.schema_version@))),
        contains_text(run_record_json(r), json_field("control_plane_run_record_id"@, json_string(r.control_plane_run_record_id@))),
        contains_text(run_record_json(r), json_field("producer_app"@, json_string(r.producer_app@))),
        contains_text(run_record_json(r), json_field("producer_version"@, json_string(r.producer_version@))),
        contains_text(run_record_json(r), json_field("created_at_ms"@, signed_decimal(r.created_at_ms as int))),
        contains_text(run_record_json(r), json_field("run_type"@, json_string(r.run_type@))),
        contains_text(run_record_json(r), json_field("manifest_id"@, json_string(r.manifest_id@))),
        contains_text(run_record_json(r), json_field("manifest_checksum"@, json_string(r.manifest_checksum@))),
        contains_text(run_record_json(r), json_field("changed_triggers"@, json_strings(views(r.changed_triggers@)))),
        contains_text(run_record_json(r), json_field("domains_seen"@, decimal(r.domains_seen as nat))),
        contains_text(run_record_json(r), json_field("domains_selected"@, decimal(r.domains_selected as nat))),
        contains_text(run_record_json(r), json_field("workflow_command_ids"@, json_strings(views(r.workflow_command_ids@)))),
        contains_text(run_record_json(r), json_field("authority_migration_record_ids"@, json_strings(views(r.authority_migration_record_ids@)))),
        contains_text(run_record_json(r), json_field("output_report_key"@, json_opt_string(opt_view(r.output_report_key)))),
        contains_text(run_record_json(r), json_field("checksum"@, json_string(r.checksum@))),
{
    lemma_object_contains(run_record_fields(r), 0);
    lemma_object_contains(run_record_fields(r), 1);
    lemma_object_contains(run_record_fields(r), 2);
    lemma_object_contains(run_record_fields(r), 3);
    lemma_object_contains(run_record_fields(r), 4);
    lemma_object_contains(run_record_fields(r), 5);
    lemma_object_contains(run_record_fields(r), 6);
    lemma_object_contains(run_record_fields(r), 7);
    lemma_object_contains(run_record_fields(r), 8);
    lemma_object_contains(run_record_fields(r), 9);
    lemma_object_contains(run_record_fields(r), 10);
    lemma_object_contains(run_record_fields(r), 11);
    lemma_object_contains(run_record_fields(r), 12);
    lemma_object_contains(run_record_fields(r), 13);
    lemma_object_contains(run_record_fields(r), 14);
}

/// The JSON of a skipped domain holds its domain and its reason.
pub proof fn lemma_skipped_json_members(s: SkippedDomain)
    ensures
        contains_text(skipped_json(s), json_field("domain_id"@, json_string(s.domain_id@))),
        contains_text(skipped_json(s), json_field("reason"@, json_string(s.reason@))),
{
    lemma_object_contains(skipped_fields(s), 0);
    lemma_object_contains(skipped_fields(s), 1);
}

/// The JSON of a supervisor report holds each of its fields under its own name, with that
/// field's own value; the run record is held as its own JSON.
pub proof fn lemma_report_json_members(r: DomainReplaySupervisorReport)
    ensures
        contains_text(report_json(r), json_field("schema_version"@, json_string(r.schema_version@))),
        contains_text(report_json(r), json_field("supervisor_run_id"@, json_string(r.supervisor_run_id@))),
        contains_text(report_json(r), json_field("producer_app"@, json_string(r.producer_app@))),
        contains_text(report_json(r), json_field("producer_version"@, json_string(r.producer_version@))),
        contains_text(report_json(r), json_field("created_at_ms"@, signed_decimal(r.created_at_ms as int))),
        contains_text(report_json(r), json_field("manifest_id"@, json_string(r.manifest_id@))),
        contains_text(report_json(r), json_field("manifest_checksum"@, json_string(r.manifest_checksum@))),
        contains_text(report_json(r), json_field("changed_triggers"@, json_strings(views(r.changed_triggers@)))),
        contains_text(report_json(r), json_field("domains_seen"@, decimal(r.domains_seen as nat))),
        contains_text(report_json(r), json_field("domains_selected"@, decimal(r.domains_selected as nat))),
        contains_text(report_json(r), json_field("workflow_commands_created"@, decimal(r.workflow_commands_created as nat))),
        contains_text(report_json(r), json_field("input_keys_estimated"@, decimal(r.input_keys_estimated as nat))),
        contains_text(report_json(r), json_field("control_plane_run_record"@, run_record_json(r.control_plane_run_record))),
        contains_text(report_json(r), json_field("report_key"@, json_opt_string(opt_view(r.report_key)))),
        contains_text(report_json(r), json_field("checksum"@, json_string(r.checksum@))),
        contains_text(
            report_json(r),
            json_field(
                "workflow_commands"@,
                json_list(r.workflow_commands@.map_values(|c: WorkflowCommand| command_json(c))),
            ),
        ),
        contains_text(
            report_json(r),
            json_field(
                "skipped_domains"@,
                json_list(r.skipped_domains@.map_values(|s: SkippedDomain| skipped_json(s))),
            ),
        ),
{
    lemma_object_contains(report_fields(r), 0);
    lemma_object_contains(report_fields(r), 1);
    lemma_object_contains(report_fields(r), 2);
    lemma_object_contains(report_fields(r), 3);
    lemma_object_contains(report_fields(r), 4);
    lemma_object_contains(report_fields(r), 5);
    lemma_object_contains(report_fields(r), 6);
    lemma_object_contains(report_fields(r), 7);
    lemma_object_contains(report_fields(r), 8);
    lemma_object_contains(report_fields(r), 9);
    lemma_object_contains(report_fields(r), 10);
    lemma_object_contains(report_fields(r), 11);
    lemma_object_contains(report_fields(r), 12);
    lemma_object_contains(report_fields(r), 13);
    lemma_object_contains(report_fields(r), 14);
    lemma_object_contains(report_fields(r), 15);
    lemma_object_contains(report_fields(r), 16);
    lemma_object_contains(report_fields(r), 17);
}

} // verus!
