//! The supervisor report of a run, its identifiers and its summary.
use crate::constants::{PRODUCER_APP, PRODUCER_VERSION, REPORT_SCHEMA_VERSION};
use crate::order::is_sorted_set;
use crate::hash::{checksum_of, checksum_text, hex_lower, sha256, sha256_hex, stable_id, stable_id_of, str_views};
use crate::json::{json_field, json_object, json_string, report_fields, report_json, report_to_json};
use crate::planning::authority::{build_authority_migration_records, is_authority_record_for};
use crate::planning::control_plane::{
    authority_record_ids, build_control_plane_run_record, command_ids, is_run_record_for,
    run_record_sealed, ControlPlaneRunRecordInput,
};
use crate::run::selection::DomainSelection;
use crate::text::{clone_strings, i64_to_string, signed_decimal, views};
use crate::types::{AppError, Args, DomainReplayManifest, DomainReplaySupervisorReport, RunSummary};
use vstd::prelude::*;
use vstd::string::*;

verus! {

/// What a supervisor report is made from.
pub struct SupervisorReportInput<'a> {
    pub manifest: &'a DomainReplayManifest,
    pub manifest_checksum: &'a str,
    pub args: &'a Args,
    pub supervisor_run_id: &'a str,
    pub control_plane_run_record_id: &'a str,
    pub created_at_ms: i64,
    pub selection: DomainSelection,
}

/// The identifier of a run of a manifest at a time.
pub open spec fn supervisor_run_id_of(manifest_id: Seq<char>, manifest_checksum: Seq<char>, created_at_ms: i64) -> Seq<char> {
    stable_id_of(
        "domain_replay_supervisor_run"@,
        seq![manifest_id, manifest_checksum, signed_decimal(created_at_ms as int)],
    )
}

/// The identifier of the control-plane record of a run.
pub open spec fn control_plane_run_record_id_of(supervisor_run_id: Seq<char>) -> Seq<char> {
    stable_id_of("control_plane_run_record"@, seq![supervisor_run_id])
}

/// The checksum of a report: the SHA-256 of its compact JSON with the checksum empty.
pub open spec fn report_checksum(r: DomainReplaySupervisorReport) -> Seq<char> {
    checksum_of(
        json_object(
            report_fields(r).update(17, json_field("checksum"@, json_string(Seq::empty()))),
        ),
    )
}

/// `r` carries the checksum of its own content.
pub open spec fn report_sealed(r: DomainReplaySupervisorReport) -> bool {
    r.checksum@ == report_checksum(r)
}

/// Two reports that differ at most in their checksum.
pub open spec fn same_report_content(a: DomainReplaySupervisorReport, b: DomainReplaySupervisorReport) -> bool {
    &&& a.schema_version == b.schema_version
    &&& a.supervisor_run_id == b.supervisor_run_id
    &&& a.producer_app == b.producer_app
    &&& a.producer_version == b.producer_version
    &&& a.created_at_ms == b.created_at_ms
    &&& a.manifest_id == b.manifest_id
    &&& a.manifest_checksum == b.manifest_checksum
    &&& a.changed_triggers@ == b.changed_triggers@
    &&& a.domains_seen == b.domains_seen
    &&& a.domains_selected == b.domains_selected
    &&& a.workflow_commands_created == b.workflow_commands_created
    &&& a.input_keys_estimated == b.input_keys_estimated
    &&& a.skipped_domains@ == b.skipped_domains@
    &&& a.workflow_commands@ == b.workflow_commands@
    &&& a.control_plane_run_record == b.control_plane_run_record
    &&& a.authority_migration_records@ == b.authority_migration_records@
    &&& a.report_key == b.report_key
}

/// The checksum of a report does not depend on the checksum it carries.
pub proof fn lemma_report_checksum_ignores_checksum(a: DomainReplaySupervisorReport, b: DomainReplaySupervisorReport)
    requires
        same_report_content(a, b),
    ensures
        report_checksum(a) == report_checksum(b),
{
    assert(report_fields(a).update(17, json_field("checksum"@, json_string(Seq::empty())))
        =~= report_fields(b).update(17, json_field("checksum"@, json_string(Seq::empty()))));
}

/// Sets the checksum of a report to the checksum of its content.
pub fn seal_report(report: &mut DomainReplaySupervisorReport)
    ensures
        same_report_content(*old(report), *final(report)),
        report_sealed(*final(report)),
        final(report).checksum@.len() == 64,
{
    report.checksum = String::new();
    let json = report_to_json(report);
    assert(report_fields(*report) =~= report_fields(*report).update(
        17,
        json_field("checksum"@, json_string(Seq::empty())),
    ));
    let checksum = checksum_text(json.as_str());
    let ghost before = *report;
    report.checksum = checksum;
    proof {
        lemma_report_checksum_ignores_checksum(before, *report);
    }
}

/// `r` is the report made from these values.
pub open spec fn is_report_for(
    r: DomainReplaySupervisorReport,
    manifest: DomainReplayManifest,
    manifest_checksum: Seq<char>,
    changed_triggers: Seq<Seq<char>>,
    supervisor_run_id: Seq<char>,
    control_plane_run_record_id: Seq<char>,
    created_at_ms: i64,
    selection: DomainSelection,
) -> bool {
    let migrations = manifest.authority_migration_records@;
    &&& r.schema_version@ == REPORT_SCHEMA_VERSION@
    &&& r.supervisor_run_id@ == supervisor_run_id
    &&& r.producer_app@ == PRODUCER_APP@
    &&& r.producer_version@ == PRODUCER_VERSION@
    &&& r.created_at_ms == created_at_ms
    &&& r.manifest_id@ == manifest.manifest_id@
    &&& r.manifest_checksum@ == manifest_checksum
    &&& views(r.changed_triggers@) == changed_triggers
    &&& r.domains_seen == manifest.domains@.len()
    &&& r.domains_selected == selection.workflow_commands@.len()
    &&& r.workflow_commands_created == selection.workflow_commands@.len()
    &&& r.input_keys_estimated == selection.input_keys_estimated
    &&& r.skipped_domains@ == selection.skipped_domains@
    &&& r.workflow_commands@ == selection.workflow_commands@
    &&& r.authority_migration_records@.len() == migrations.len()
    &&& forall|i: int|
        0 <= i < migrations.len() ==> is_authority_record_for(
            #[trigger] r.authority_migration_records@[i],
            migrations[i],
            control_plane_run_record_id,
            created_at_ms,
            manifest.manifest_id@,
            manifest_checksum,
        )
    &&& is_run_record_for(
        r.control_plane_run_record,
        control_plane_run_record_id,
        created_at_ms,
        manifest.manifest_id@,
        manifest_checksum,
        changed_triggers,
        manifest.domains@.len() as usize,
        selection.workflow_commands@,
        r.authority_migration_records@,
        None,
    )
    &&& r.report_key is None
    &&& report_sealed(r)
    &&& r.checksum@.len() == 64
}

/// The identifier of a run of a manifest at a time.
pub fn supervisor_run_id(manifest_id: &str, manifest_checksum: &str, created_at_ms: i64) -> (r: String)
    ensures
        r@ == supervisor_run_id_of(manifest_id@, manifest_checksum@, created_at_ms),
{
    let created = i64_to_string(created_at_ms);
    let parts = [manifest_id, manifest_checksum, created.as_str()];
    let id = stable_id("domain_replay_supervisor_run", &parts);
    assert(str_views(parts@) =~= seq![manifest_id@, manifest_checksum@, signed_decimal(created_at_ms as int)]);
    id
}

/// The identifier of the control-plane record of a run.
pub fn control_plane_run_record_id(supervisor_run_id: &str) -> (r: String)
    ensures
        r@ == control_plane_run_record_id_of(supervisor_run_id@),
{
    let parts = [supervisor_run_id];
    let id = stable_id("control_plane_run_record", &parts);
    assert(str_views(parts@) =~= seq![supervisor_run_id@]);
    id
}

/// The checksum of the manifest file: the lower-case hex SHA-256 of its bytes.
pub fn manifest_checksum(bytes: &[u8]) -> (r: String)
    ensures
        r@ == hex_lower(sha256(bytes@)),
        r@.len() == 64,
{
    sha256_hex(bytes)
}

/// The report of a run: its authority migration records, its control-plane record and
/// the selection, sealed with its checksum. It never fails.
pub fn build_supervisor_report(input: SupervisorReportInput<'_>) -> (r: Result<
    DomainReplaySupervisorReport,
    AppError,
>)
    requires
        is_sorted_set(input.args.changed_triggers@),
    ensures
        r is Ok,
        r matches Ok(rep) ==> is_report_for(
            rep,
            *input.manifest,
            input.manifest_checksum@,
            views(input.args.changed_triggers@),
            input.supervisor_run_id@,
            input.control_plane_run_record_id@,
            input.created_at_ms,
            input.selection,
        ),
{
    let authority_migration_records = build_authority_migration_records(
        &input.manifest.authority_migration_records,
        input.control_plane_run_record_id,
        input.created_at_ms,
        input.manifest.manifest_id.as_str(),
        input.manifest_checksum,
    );
    let control_plane_run_record = match build_control_plane_run_record(
        ControlPlaneRunRecordInput {
            control_plane_run_record_id: input.control_plane_run_record_id,
            created_at_ms: input.created_at_ms,
            manifest_id: input.manifest.manifest_id.as_str(),
            manifest_checksum: input.manifest_checksum,
            changed_triggers: &input.args.changed_triggers,
            domains_seen: input.manifest.domains.len(),
            workflow_commands: input.selection.workflow_commands.as_slice(),
            authority_migration_records: authority_migration_records.as_slice(),
            output_report_key: None,
        },
    ) {
        Ok(record) => record,
        Err(e) => {
            return Err(e);
        },
    };
    let selected = input.selection.workflow_commands.len();
    let mut report = DomainReplaySupervisorReport {
        schema_version: REPORT_SCHEMA_VERSION.to_owned(),
        supervisor_run_id: input.supervisor_run_id.to_owned(),
        producer_app: PRODUCER_APP.to_owned(),
        producer_version: PRODUCER_VERSION.to_owned(),
        created_at_ms: input.created_at_ms,
        manifest_id: input.manifest.manifest_id.clone(),
        manifest_checksum: input.manifest_checksum.to_owned(),
        changed_triggers: clone_strings(&input.args.changed_triggers),
        domains_seen: input.manifest.domains.len(),
        domains_selected: selected,
        workflow_commands_created: selected,
        input_keys_estimated: input.selection.input_keys_estimated,
        skipped_domains: input.selection.skipped_domains,
        workflow_commands: input.selection.workflow_commands,
        control_plane_run_record,
        authority_migration_records,
        report_key: None,
        checksum: String::new(),
    };
    seal_report(&mut report);
    Ok(report)
}

/// What a run prints when it ends.
pub fn build_run_summary(
    supervisor_run_id: String,
    output_files: Vec<String>,
    output_s3_uris: Vec<String>,
    report: &DomainReplaySupervisorReport,
) -> (r: RunSummary)
    ensures
        r.supervisor_run_id == supervisor_run_id,
        r.domains_selected == report.domains_selected,
        r.workflow_commands_created == report.workflow_commands_created,
        r.input_keys_estimated == report.input_keys_estimated,
        r.output_files == output_files,
        r.output_s3_uris == output_s3_uris,
{
    RunSummary {
        supervisor_run_id,
        domains_selected: report.domains_selected,
        workflow_commands_created: report.workflow_commands_created,
        input_keys_estimated: report.input_keys_estimated,
        output_files,
        output_s3_uris,
    }
}

/// In a report, the counts agree: selected domains, commands created, the commands listed
/// and the run record's selected domains; the run record lists the report's command and
/// authority migration identifiers in order; both carry the checksums of their content, 64 hex digits each.
pub proof fn lemma_report_counts_agree(
    r: DomainReplaySupervisorReport,
    manifest: DomainReplayManifest,
    manifest_checksum: Seq<char>,
    changed_triggers: Seq<Seq<char>>,
    supervisor_run_id: Seq<char>,
    control_plane_run_record_id: Seq<char>,
    created_at_ms: i64,
    selection: DomainSelection,
)
    requires
        is_report_for(
            r,
            manifest,
            manifest_checksum,
            changed_triggers,
            supervisor_run_id,
            control_plane_run_record_id,
            created_at_ms,
            selection,
        ),
    ensures
        r.domains_selected == r.workflow_commands_created,
        r.domains_selected == r.workflow_commands@.len(),
        r.control_plane_run_record.domains_selected == r.domains_selected,
        r.control_plane_run_record.domains_seen == r.domains_seen,
        views(r.control_plane_run_record.workflow_command_ids@) == command_ids(r.workflow_commands@),
        views(r.control_plane_run_record.authority_migration_record_ids@) == authority_record_ids(
            r.authority_migration_records@,
        ),
        r.control_plane_run_record.control_plane_run_record_id@ == control_plane_run_record_id,
        forall|i: int|
            0 <= i < r.authority_migration_records@.len() ==> (#[trigger] r.authority_migration_records@[i]).control_plane_run_record_id@
                == control_plane_run_record_id,
        run_record_sealed(r.control_plane_run_record),
        report_sealed(r),
        r.control_plane_run_record.checksum@.len() == 64,
        r.checksum@.len() == 64,
{
    assert forall|i: int| 0 <= i < r.authority_migration_records@.len() implies (
    #[trigger] r.authority_migration_records@[i]).control_plane_run_record_id@
        == control_plane_run_record_id by {
        assert(is_authority_record_for(
            r.authority_migration_records@[i],
            manifest.authority_migration_records@[i],
            control_plane_run_record_id,
            created_at_ms,
            manifest.manifest_id@,
            manifest_checksum,
        ));
    }
}

/// A report's checksum is the checksum of its own JSON with the checksum left empty: the
/// JSON of any report with the same content and an empty checksum.
pub proof fn lemma_report_checksum_is_of_its_json(
    r: DomainReplaySupervisorReport,
    unsealed: DomainReplaySupervisorReport,
)
    requires
        same_report_content(r, unsealed),
        unsealed.checksum@ == Seq::<char>::empty(),
    ensures
        report_checksum(r) == checksum_of(report_json(unsealed)),
{
    assert(report_fields(r).update(17, json_field("checksum"@, json_string(Seq::empty())))
        =~= report_fields(unsealed));
}

} // verus!
