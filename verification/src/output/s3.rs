//! The objects a run puts into object storage.
use crate::constants::{
    AUTHORITY_MIGRATION_RECORD_SCHEMA_VERSION, CONTROL_PLANE_RUN_RECORD_SCHEMA_VERSION,
    REPORT_SCHEMA_VERSION,
};
use crate::keys::{
    authority_migration_records_key, control_plane_run_record_key, partition_key,
    supervisor_commands_key, supervisor_report_key,
};
use crate::output::jsonl::{
    authority_migrations_jsonl, authority_migrations_jsonl_of, commands_jsonl, commands_jsonl_of,
};
use crate::planning::control_plane::{run_record_sealed, seal_run_record};
use crate::run::report::{report_sealed, seal_report};
use crate::text::views;
use crate::types::{opt_view, AppError, ControlPlaneRunRecord, DomainReplaySupervisorReport, S3OutputArgs};
use vstd::prelude::*;
use vstd::string::*;

verus! {

/// The URI `s3://<bucket>/<key>`.
pub open spec fn s3_uri_of(bucket: Seq<char>, key: Seq<char>) -> Seq<char> {
    seq!['s', '3', ':', '/', '/'] + bucket + seq!['/'] + key
}

/// The URI `s3://<bucket>/<key>`.
pub fn s3_uri(bucket: &str, key: &str) -> (r: String)
    ensures
        r@ == s3_uri_of(bucket@, key@),
{
    let mut out = String::new();
    out.push('s');
    out.push('3');
    out.push(':');
    out.push('/');
    out.push('/');
    out.append(bucket);
    out.push('/');
    out.append(key);
    assert(out@ =~= s3_uri_of(bucket@, key@));
    out
}

/// The objects of a run in object storage, and the contents that this library writes.
pub struct S3OutputPlan {
    /// The report, put as pretty JSON.
    pub report_key: String,
    /// The workflow commands, newline-delimited JSON.
    pub commands_key: String,
    pub commands_body: String,
    /// The control-plane run record, put as pretty JSON.
    pub run_record_key: String,
    /// The authority migration records, when the report has any.
    pub migrations_key: Option<String>,
    pub migrations_body: Option<String>,
    /// The URIs of the objects, in the order they are put.
    pub output_s3_uris: Vec<String>,
}

/// Two run records that agree except in the report key and the checksum.
pub open spec fn run_record_same_but_key(a: ControlPlaneRunRecord, b: ControlPlaneRunRecord) -> bool {
    &&& a.schema_version@ == b.schema_version@
    &&& a.control_plane_run_record_id@ == b.control_plane_run_record_id@
    &&& a.producer_app@ == b.producer_app@
    &&& a.producer_version@ == b.producer_version@
    &&& a.created_at_ms == b.created_at_ms
    &&& a.run_type@ == b.run_type@
    &&& a.manifest_id@ == b.manifest_id@
    &&& a.manifest_checksum@ == b.manifest_checksum@
    &&& views(a.changed_triggers@) == views(b.changed_triggers@)
    &&& a.domains_seen == b.domains_seen
    &&& a.domains_selected == b.domains_selected
    &&& views(a.workflow_command_ids@) == views(b.workflow_command_ids@)
    &&& views(a.authority_migration_record_ids@) == views(b.authority_migration_record_ids@)
}

/// Two reports that agree except in the report key, the run record's report key and the
/// checksums.
pub open spec fn report_same_but_key(a: DomainReplaySupervisorReport, b: DomainReplaySupervisorReport) -> bool {
    &&& a.schema_version == b.schema_version
    &&& a.supervisor_run_id == b.supervisor_run_id
    &&& a.producer_app == b.producer_app
    &&& a.producer_version == b.producer_version
    &&& a.created_at_ms == b.created_at_ms
    &&& a.manifest_id == b.manifest_id
    &&& a.manifest_checksum == b.manifest_checksum
    &&& a.changed_triggers@ == b.changed_triggers@
    &&& a.domains_seen == b.domains_seen
    &&& a.domains_selected == b.domains_selected
    &&& a.workflow_commands_created == b.workflow_commands_created
    &&& a.input_keys_estimated == b.input_keys_estimated
    &&& a.skipped_domains@ == b.skipped_domains@
    &&& a.workflow_commands@ == b.workflow_commands@
    &&& a.authority_migration_records@ == b.authority_migration_records@
    &&& run_record_same_but_key(a.control_plane_run_record, b.control_plane_run_record)
}

/// Records the report key in the report and in its run record, seals both again, and
/// gives the keys, the newline-delimited contents and the URIs of the objects to put.
pub fn prepare_s3_outputs(
    s3: &S3OutputArgs,
    report: &mut DomainReplaySupervisorReport,
    created_at_ms: i64,
    supervisor_run_id: &str,
    control_plane_run_record_id: &str,
) -> (r: Result<S3OutputPlan, AppError>)
    ensures
        r is Ok,
        report_same_but_key(*old(report), *final(report)),
        run_record_sealed(final(report).control_plane_run_record),
        report_sealed(*final(report)),
        r matches Ok(p) && ({
            let with_migrations = final(report).authority_migration_records@.len() > 0;
            &&& p.report_key@ == partition_key(
                s3.prefix@,
                REPORT_SCHEMA_VERSION@,
                created_at_ms as int,
                "/supervisor_run_id="@,
                supervisor_run_id@,
                "report.json"@,
            )
            &&& opt_view(final(report).report_key) == Some(p.report_key@)
            &&& opt_view(final(report).control_plane_run_record.output_report_key) == Some(
                p.report_key@,
            )
            &&& p.commands_key@ == partition_key(
                s3.prefix@,
                REPORT_SCHEMA_VERSION@,
                created_at_ms as int,
                "/supervisor_run_id="@,
                supervisor_run_id@,
                "commands.jsonl"@,
            )
            &&& p.commands_body@ == commands_jsonl_of(*final(report))
            &&& p.run_record_key@ == partition_key(
                s3.prefix@,
                CONTROL_PLANE_RUN_RECORD_SCHEMA_VERSION@,
                created_at_ms as int,
                "/control_plane_run_record_id="@,
                control_plane_run_record_id@,
                "record.json"@,
            )
            &&& with_migrations ==> (p.migrations_key matches Some(k) && k@ == partition_key(
                s3.prefix@,
                AUTHORITY_MIGRATION_RECORD_SCHEMA_VERSION@,
                created_at_ms as int,
                "/control_plane_run_record_id="@,
                control_plane_run_record_id@,
                "part-000001.jsonl"@,
            ))
            &&& with_migrations ==> (p.migrations_body matches Some(b) && b@
                == authority_migrations_jsonl_of(final(report).authority_migration_records@))
            &&& !with_migrations ==> p.migrations_key is None && p.migrations_body is None
            &&& p.output_s3_uris@.len() == if with_migrations {
                4int
            } else {
                3int
            }
            &&& p.output_s3_uris@[0]@ == s3_uri_of(s3.bucket@, p.report_key@)
            &&& p.output_s3_uris@[1]@ == s3_uri_of(s3.bucket@, p.commands_key@)
            &&& p.output_s3_uris@[2]@ == s3_uri_of(s3.bucket@, p.run_record_key@)
            &&& with_migrations ==> p.output_s3_uris@[3]@ == s3_uri_of(
                s3.bucket@,
                p.migrations_key->0@,
            )
            &&& p.output_s3_uris@.len() == put_keys(p).len()
            &&& forall|k: int|
                0 <= k < put_keys(p).len() ==> (#[trigger] p.output_s3_uris@[k])@ == s3_uri_of(
                    s3.bucket@,
                    put_keys(p)[k],
                )
        }),
{
    let report_key = supervisor_report_key(s3.prefix.as_str(), created_at_ms, supervisor_run_id);
    report.report_key = Some(report_key.clone());
    report.control_plane_run_record.output_report_key = Some(report_key.clone());
    seal_run_record(&mut report.control_plane_run_record);
    seal_report(report);
    let commands_key = supervisor_commands_key(
        s3.prefix.as_str(),
        created_at_ms,
        supervisor_run_id,
    );
    let commands_body = match commands_jsonl(report) {
        Ok(body) => body,
        Err(e) => {
            return Err(e);
        },
    };
    let run_record_key = control_plane_run_record_key(
        s3.prefix.as_str(),
        created_at_ms,
        control_plane_run_record_id,
    );
    let mut output_s3_uris: Vec<String> = Vec::new();
    output_s3_uris.push(s3_uri(s3.bucket.as_str(), report_key.as_str()));
    output_s3_uris.push(s3_uri(s3.bucket.as_str(), commands_key.as_str()));
    output_s3_uris.push(s3_uri(s3.bucket.as_str(), run_record_key.as_str()));
    let mut migrations_key: Option<String> = None;
    let mut migrations_body: Option<String> = None;
    if report.authority_migration_records.len() > 0 {
        let key = authority_migration_records_key(
            s3.prefix.as_str(),
            created_at_ms,
            control_plane_run_record_id,
        );
        let body = match authority_migrations_jsonl(report.authority_migration_records.as_slice()) {
            Ok(body) => body,
            Err(e) => {
                return Err(e);
            },
        };
        output_s3_uris.push(s3_uri(s3.bucket.as_str(), key.as_str()));
        migrations_key = Some(key);
        migrations_body = Some(body);
    }
    Ok(
        S3OutputPlan {
            report_key,
            commands_key,
            commands_body,
            run_record_key,
            migrations_key,
            migrations_body,
            output_s3_uris,
        },
    )
}

/// What an object holds: the report and the run record go as pretty JSON, which the
/// program writes from the records; the commands and the migrations are the
/// newline-delimited contents of the plan.
pub enum S3Body {
    Report,
    Commands,
    RunRecord,
    Migrations,
}

/// One object to put: its key, its content type and what it holds.
pub struct S3Put {
    pub key: String,
    pub content_type: String,
    pub body: S3Body,
}

/// The keys of a plan in the order they are put: report, commands, run record, and the
/// authority migrations when there are any.
pub open spec fn put_keys(p: S3OutputPlan) -> Seq<Seq<char>> {
    let base = seq![p.report_key@, p.commands_key@, p.run_record_key@];
    match p.migrations_key {
        Some(k) => base.push(k@),
        None => base,
    }
}

/// The objects of a plan, in the order they are put.
pub fn s3_puts(plan: &S3OutputPlan) -> (r: Vec<S3Put>)
    ensures
        r@.len() == put_keys(*plan).len(),
        forall|k: int| 0 <= k < r@.len() ==> (#[trigger] r@[k]).key@ == put_keys(*plan)[k],
        r@[0].body is Report && r@[0].content_type@ == "application/json"@,
        r@[1].body is Commands && r@[1].content_type@ == "application/x-ndjson"@,
        r@[2].body is RunRecord && r@[2].content_type@ == "application/json"@,
        r@.len() == 4 ==> r@[3].body is Migrations && r@[3].content_type@ == "application/x-ndjson"@,
{
    let mut puts: Vec<S3Put> = Vec::new();
    puts.push(
        S3Put {
            key: plan.report_key.clone(),
            content_type: "application/json".to_owned(),
            body: S3Body::Report,
        },
    );
    puts.push(
        S3Put {
            key: plan.commands_key.clone(),
            content_type: "application/x-ndjson".to_owned(),
            body: S3Body::Commands,
        },
    );
    puts.push(
        S3Put {
            key: plan.run_record_key.clone(),
            content_type: "application/json".to_owned(),
            body: S3Body::RunRecord,
        },
    );
    match &plan.migrations_key {
        Some(k) => {
            puts.push(
                S3Put {
                    key: k.clone(),
                    content_type: "application/x-ndjson".to_owned(),
                    body: S3Body::Migrations,
                },
            );
        },
        None => {},
    }
    puts
}

/// What the program does next while putting objects.
pub enum PutStep {
    /// Put the object at this position.
    Put(usize),
    /// Every object is in storage: answer with the URIs.
    Finished,
    /// The last put failed: answer with its error and put nothing more.
    Stopped,
}

/// After `done` of `count` puts, the last of which failed or not: the next put in order,
/// the end, or a stop at the first failure.
pub fn next_put_step(count: usize, done: usize, last_put_failed: bool) -> (r: PutStep)
    ensures
        last_put_failed ==> r is Stopped,
        (!last_put_failed && done < count) ==> (r matches PutStep::Put(i) && i == done),
        (!last_put_failed && done >= count) ==> r is Finished,
{
    if last_put_failed {
        PutStep::Stopped
    } else if done < count {
        PutStep::Put(done)
    } else {
        PutStep::Finished
    }
}

} // verus!
