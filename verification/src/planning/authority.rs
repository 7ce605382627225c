//! Records of the authority migrations that a manifest declares.
use crate::constants::AUTHORITY_MIGRATION_RECORD_SCHEMA_VERSION;
use crate::hash::{hex_lower, sha256, stable_id, stable_id_of, str_views};
use crate::number::lemma_parse_signed_decimal;
use crate::text::{i64_to_string, join, signed_decimal};
use crate::types::{opt_view, AuthorityMigrationInput, AuthorityMigrationRecord};
use vstd::prelude::*;
use vstd::string::*;
use vstd::utf8::encode_utf8;

verus! {

/// When a migration takes effect: its own time, or the creation time of the run.
pub open spec fn effective_of(input: AuthorityMigrationInput, created_at_ms: i64) -> i64 {
    match input.effective_at_ms {
        Some(t) => t,
        None => created_at_ms,
    }
}

/// The application a migration starts from, or `none`.
pub open spec fn from_app_or_none(input: AuthorityMigrationInput) -> Seq<char> {
    match input.from_app {
        Some(s) => s@,
        None => "none"@,
    }
}

/// The identifier of the record of a migration in a run.
pub open spec fn authority_record_id_of(
    control_plane_run_record_id: Seq<char>,
    input: AuthorityMigrationInput,
    created_at_ms: i64,
) -> Seq<char> {
    stable_id_of(
        "authority_migration"@,
        seq![
            control_plane_run_record_id,
            input.authority_scope@,
            from_app_or_none(input),
            input.to_app@,
            signed_decimal(effective_of(input, created_at_ms) as int),
        ],
    )
}

/// `r` is the record of the migration `input` in the run `control_plane_run_record_id`.
pub open spec fn is_authority_record_for(
    r: AuthorityMigrationRecord,
    input: AuthorityMigrationInput,
    control_plane_run_record_id: Seq<char>,
    created_at_ms: i64,
    manifest_id: Seq<char>,
    manifest_checksum: Seq<char>,
) -> bool {
    let id = authority_record_id_of(control_plane_run_record_id, input, created_at_ms);
    &&& r.schema_version@ == AUTHORITY_MIGRATION_RECORD_SCHEMA_VERSION@
    &&& r.authority_migration_record_id@ == id
    &&& r.control_plane_run_record_id@ == control_plane_run_record_id
    &&& r.authority_scope@ == input.authority_scope@
    &&& opt_view(r.from_app) == opt_view(input.from_app)
    &&& r.to_app@ == input.to_app@
    &&& r.migration_reason@ == input.migration_reason@
    &&& r.effective_at_ms == effective_of(input, created_at_ms)
    &&& r.created_at_ms == created_at_ms
    &&& r.manifest_id@ == manifest_id
    &&& r.manifest_checksum@ == manifest_checksum
    &&& r.idempotency_key@ == stable_id_of("authority_migration_idem"@, seq![id])
}

/// The record of one migration.
fn build_authority_migration_record(
    input: &AuthorityMigrationInput,
    control_plane_run_record_id: &str,
    created_at_ms: i64,
    manifest_id: &str,
    manifest_checksum: &str,
) -> (r: AuthorityMigrationRecord)
    ensures
        is_authority_record_for(
            r,
            *input,
            control_plane_run_record_id@,
            created_at_ms,
            manifest_id@,
            manifest_checksum@,
        ),
{
    let effective_at_ms = match input.effective_at_ms {
        Some(t) => t,
        None => created_at_ms,
    };
    let from_text = match &input.from_app {
        Some(s) => s.as_str(),
        None => "none",
    };
    let effective_text = i64_to_string(effective_at_ms);
    let parts = [
        control_plane_run_record_id,
        input.authority_scope.as_str(),
        from_text,
        input.to_app.as_str(),
        effective_text.as_str(),
    ];
    let id = stable_id("authority_migration", &parts);
    assert(str_views(parts@) =~= seq![
        control_plane_run_record_id@,
        input.authority_scope@,
        from_app_or_none(*input),
        input.to_app@,
        signed_decimal(effective_of(*input, created_at_ms) as int),
    ]);
    let id_parts = [id.as_str()];
    let idempotency_key = stable_id("authority_migration_idem", &id_parts);
    assert(str_views(id_parts@) =~= seq![id@]);
    let from_app = match &input.from_app {
        Some(s) => Some(s.clone()),
        None => None,
    };
    AuthorityMigrationRecord {
        schema_version: AUTHORITY_MIGRATION_RECORD_SCHEMA_VERSION.to_owned(),
        authority_migration_record_id: id,
        control_plane_run_record_id: control_plane_run_record_id.to_owned(),
        authority_scope: input.authority_scope.clone(),
        from_app,
        to_app: input.to_app.clone(),
        migration_reason: input.migration_reason.clone(),
        effective_at_ms,
        created_at_ms,
        manifest_id: manifest_id.to_owned(),
        manifest_checksum: manifest_checksum.to_owned(),
        idempotency_key,
    }
}

/// One record per declared migration, in the order of the manifest.
pub fn build_authority_migration_records(
    inputs: &Vec<AuthorityMigrationInput>,
    control_plane_run_record_id: &str,
    created_at_ms: i64,
    manifest_id: &str,
    manifest_checksum: &str,
) -> (r: Vec<AuthorityMigrationRecord>)
    ensures
        r@.len() == inputs@.len(),
        forall|i: int|
            0 <= i < r@.len() ==> is_authority_record_for(
                #[trigger] r@[i],
                inputs@[i],
                control_plane_run_record_id@,
                created_at_ms,
                manifest_id@,
                manifest_checksum@,
            ),
{
    let mut records: Vec<AuthorityMigrationRecord> = Vec::new();
    let mut i: usize = 0;
    while i < inputs.len()
        invariant
            i <= inputs.len(),
            records@.len() == i,
            forall|k: int|
                0 <= k < i ==> is_authority_record_for(
                    #[trigger] records@[k],
                    inputs@[k],
                    control_plane_run_record_id@,
                    created_at_ms,
                    manifest_id@,
                    manifest_checksum@,
                ),
        decreases inputs.len() - i,
    {
        let record = build_authority_migration_record(
            &inputs[i],
            control_plane_run_record_id,
            created_at_ms,
            manifest_id,
            manifest_checksum,
        );
        records.push(record);
        i = i + 1;
    }
    records
}

/// The text that the identifier of a migration record is the digest of: the run record
/// id, the scope, the application it starts from (or `none`), the target application and
/// the effective time in decimal, joined with `|`.
pub proof fn lemma_authority_record_id_text(
    r: AuthorityMigrationRecord,
    input: AuthorityMigrationInput,
    control_plane_run_record_id: Seq<char>,
    created_at_ms: i64,
    manifest_id: Seq<char>,
    manifest_checksum: Seq<char>,
)
    requires
        is_authority_record_for(
            r,
            input,
            control_plane_run_record_id,
            created_at_ms,
            manifest_id,
            manifest_checksum,
        ),
    ensures
        ({
            let from = match r.from_app {
                Some(a) => a@,
                None => "none"@,
            };
            let text = control_plane_run_record_id + seq!['|'] + r.authority_scope@ + seq!['|'] + from
                + seq!['|'] + r.to_app@ + seq!['|'] + signed_decimal(r.effective_at_ms as int);
            r.authority_migration_record_id@ == "authority_migration"@ + seq!['_'] + hex_lower(
                sha256(encode_utf8(text)).take(16),
            )
        }),
{
    let from = from_app_or_none(input);
    let parts = seq![
        control_plane_run_record_id,
        input.authority_scope@,
        from,
        input.to_app@,
        signed_decimal(effective_of(input, created_at_ms) as int),
    ];
    assert(parts.drop_last().drop_last().drop_last().drop_last() =~= seq![control_plane_run_record_id]);
    assert(parts.drop_last().drop_last().drop_last() =~= seq![control_plane_run_record_id, input.authority_scope@]);
    assert(parts.drop_last().drop_last() =~= seq![control_plane_run_record_id, input.authority_scope@, from]);
    assert(parts.drop_last() =~= seq![control_plane_run_record_id, input.authority_scope@, from, input.to_app@]);
    let sep = seq!['|'];
    assert(join(seq![control_plane_run_record_id], sep) == control_plane_run_record_id);
    assert(join(seq![control_plane_run_record_id, input.authority_scope@], sep)
        == control_plane_run_record_id + sep + input.authority_scope@);
    assert(join(seq![control_plane_run_record_id, input.authority_scope@, from], sep)
        == control_plane_run_record_id + sep + input.authority_scope@ + sep + from);
    assert(join(seq![control_plane_run_record_id, input.authority_scope@, from, input.to_app@], sep)
        == control_plane_run_record_id + sep + input.authority_scope@ + sep + from + sep + input.to_app@);
    assert(join(parts, seq!['|']) =~= control_plane_run_record_id + seq!['|'] + input.authority_scope@
        + seq!['|'] + from + seq!['|'] + input.to_app@ + seq!['|'] + signed_decimal(
        effective_of(input, created_at_ms) as int,
    ));
}

/// Two migration records of one run that differ only in their effective time have
/// identifiers digested from different texts, so the effective time is part of the
/// identity of a migration.
pub proof fn lemma_authority_ids_depend_on_effective_time(
    r1: AuthorityMigrationRecord,
    r2: AuthorityMigrationRecord,
    input1: AuthorityMigrationInput,
    input2: AuthorityMigrationInput,
    control_plane_run_record_id: Seq<char>,
    created_at_ms: i64,
    manifest_id: Seq<char>,
    manifest_checksum: Seq<char>,
)
    requires
        is_authority_record_for(r1, input1, control_plane_run_record_id, created_at_ms, manifest_id, manifest_checksum),
        is_authority_record_for(r2, input2, control_plane_run_record_id, created_at_ms, manifest_id, manifest_checksum),
        input1.authority_scope@ == input2.authority_scope@,
        opt_view(input1.from_app) == opt_view(input2.from_app),
        input1.to_app@ == input2.to_app@,
        r1.effective_at_ms != r2.effective_at_ms,
    ensures
        exists|t1: Seq<char>, t2: Seq<char>|
            t1 != t2 && r1.authority_migration_record_id@ == "authority_migration"@ + seq!['_']
                + hex_lower(sha256(encode_utf8(t1)).take(16)) && r2.authority_migration_record_id@
                == "authority_migration"@ + seq!['_'] + hex_lower(sha256(encode_utf8(t2)).take(16)),
{
    lemma_authority_record_id_text(r1, input1, control_plane_run_record_id, created_at_ms, manifest_id, manifest_checksum);
    lemma_authority_record_id_text(r2, input2, control_plane_run_record_id, created_at_ms, manifest_id, manifest_checksum);
    let from = match r1.from_app {
        Some(a) => a@,
        None => "none"@,
    };
    let head = control_plane_run_record_id + seq!['|'] + r1.authority_scope@ + seq!['|'] + from + seq!['|']
        + r1.to_app@ + seq!['|'];
    let d1 = signed_decimal(r1.effective_at_ms as int);
    let d2 = signed_decimal(r2.effective_at_ms as int);
    let t1 = head + d1;
    let t2 = head + d2;
    lemma_parse_signed_decimal(r1.effective_at_ms as int);
    lemma_parse_signed_decimal(r2.effective_at_ms as int);
    assert(d1 != d2);
    if t1 == t2 {
        assert(t1.skip(head.len() as int) =~= d1);
        assert(t2.skip(head.len() as int) =~= d2);
    }
    assert(t1 != t2);
}

} // verus!
