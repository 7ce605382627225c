//! The control-plane record of a run, sealed with the checksum of its own JSON.
use crate::constants::{CONTROL_PLANE_RUN_RECORD_SCHEMA_VERSION, PRODUCER_APP, PRODUCER_VERSION};
use crate::order::is_sorted_set;
use crate::hash::{checksum_of, checksum_text};
use crate::json::{
    json_field, json_object, json_string, run_record_fields, run_record_json, run_record_to_json,
};
use crate::text::{clone_strings, views};
use crate::types::{opt_view, AppError, AuthorityMigrationRecord, ControlPlaneRunRecord, WorkflowCommand};
use vstd::prelude::*;
use vstd::string::*;

verus! {

/// What a control-plane run record is made from.
pub struct ControlPlaneRunRecordInput<'a> {
    pub control_plane_run_record_id: &'a str,
    pub created_at_ms: i64,
    pub manifest_id: &'a str,
    pub manifest_checksum: &'a str,
    pub changed_triggers: &'a Vec<String>,
    pub domains_seen: usize,
    pub workflow_commands: &'a [WorkflowCommand],
    pub authority_migration_records: &'a [AuthorityMigrationRecord],
    pub output_report_key: Option<String>,
}

/// The identifiers of the workflow commands, in order.
pub open spec fn command_ids(cs: Seq<WorkflowCommand>) -> Seq<Seq<char>> {
    cs.map_values(|c: WorkflowCommand| c.workflow_command_id@)
}

/// The identifiers of the authority migration records, in order.
pub open spec fn authority_record_ids(rs: Seq<AuthorityMigrationRecord>) -> Seq<Seq<char>> {
    rs.map_values(|r: AuthorityMigrationRecord| r.authority_migration_record_id@)
}

/// The checksum of a run record: the SHA-256 of its compact JSON with the checksum empty.
pub open spec fn run_record_checksum(r: ControlPlaneRunRecord) -> Seq<char> {
    checksum_of(
        json_object(
            run_record_fields(r).update(14, json_field("checksum"@, json_string(Seq::empty()))),
        ),
    )
}

/// `r` carries the checksum of its own content.
pub open spec fn run_record_sealed(r: ControlPlaneRunRecord) -> bool {
    r.checksum@ == run_record_checksum(r)
}

/// `r` is the run record made from these values.
pub open spec fn is_run_record_for(
    r: ControlPlaneRunRecord,
    control_plane_run_record_id: Seq<char>,
    created_at_ms: i64,
    manifest_id: Seq<char>,
    manifest_checksum: Seq<char>,
    changed_triggers: Seq<Seq<char>>,
    domains_seen: usize,
    commands: Seq<WorkflowCommand>,
    records: Seq<AuthorityMigrationRecord>,
    output_report_key: Option<Seq<char>>,
) -> bool {
    &&& r.schema_version@ == CONTROL_PLANE_RUN_RECORD_SCHEMA_VERSION@
    &&& r.control_plane_run_record_id@ == control_plane_run_record_id
    &&& r.producer_app@ == PRODUCER_APP@
    &&& r.producer_version@ == PRODUCER_VERSION@
    &&& r.created_at_ms == created_at_ms
    &&& r.run_type@ == "replay_repair_planning"@
    &&& r.manifest_id@ == manifest_id
    &&& r.manifest_checksum@ == manifest_checksum
    &&& views(r.changed_triggers@) == changed_triggers
    &&& r.domains_seen == domains_seen
    &&& r.domains_selected == commands.len()
    &&& views(r.workflow_command_ids@) == command_ids(commands)
    &&& views(r.authority_migration_record_ids@) == authority_record_ids(records)
    &&& opt_view(r.output_report_key) == output_report_key
    &&& run_record_sealed(r)
    &&& r.checksum@.len() == 64
}

/// Two run records that differ at most in their checksum.
pub open spec fn same_run_record_content(a: ControlPlaneRunRecord, b: ControlPlaneRunRecord) -> bool {
    &&& a.schema_version@ == b.schema_version@
    &&& a.control_plane_run_record_id@ == b.control_plane_run_record_id@
    &&& a.producer_app@ == b.producer_app@
    &&& a.producer_version@ == b.producer_version@
    &&& a.created_at_ms == b.created_at_ms
    &&& a.run_type@ == b.run_type@
    &&& a.manifest_id@ == b.manifest_id@
    &&& a.manifest_checksum@ == b.manifest_checksum@
    &&& views(a.changed_triggers@) == views(b.changed_triggers@)
    &&& a.domains_seen == b.domains_seen
    &&& a.domains_selected == b.domains_selected
    &&& views(a.workflow_command_ids@) == views(b.workflow_command_ids@)
    &&& views(a.authority_migration_record_ids@) == views(b.authority_migration_record_ids@)
    &&& opt_view(a.output_report_key) == opt_view(b.output_report_key)
}

/// The checksum of a run record does not depend on the checksum it carries.
pub proof fn lemma_run_record_checksum_ignores_checksum(a: ControlPlaneRunRecord, b: ControlPlaneRunRecord)
    requires
        same_run_record_content(a, b),
    ensures
        run_record_checksum(a) == run_record_checksum(b),
{
    assert(run_record_fields(a).update(14, json_field("checksum"@, json_string(Seq::empty())))
        =~= run_record_fields(b).update(14, json_field("checksum"@, json_string(Seq::empty()))));
}

/// Sets the checksum of a run record to the checksum of its content.
pub fn seal_run_record(record: &mut ControlPlaneRunRecord)
    ensures
        same_run_record_content(*old(record), *final(record)),
        run_record_sealed(*final(record)),
        final(record).checksum@.len() == 64,
{
    record.checksum = String::new();
    let json = run_record_to_json(record);
    assert(run_record_fields(*record) =~= run_record_fields(*record).update(
        14,
        json_field("checksum"@, json_string(Seq::empty())),
    ));
    let checksum = checksum_text(json.as_str());
    let ghost before = *record;
    record.checksum = checksum;
    proof {
        lemma_run_record_checksum_ignores_checksum(before, *record);
    }
}

/// The control-plane record of a run, sealed with its checksum. It never fails.
pub fn build_control_plane_run_record(input: ControlPlaneRunRecordInput<'_>) -> (r: Result<
    ControlPlaneRunRecord,
    AppError,
>)
    requires
        is_sorted_set(input.changed_triggers@),
    ensures
        r is Ok,
        r matches Ok(rec) ==> is_run_record_for(
            rec,
            input.control_plane_run_record_id@,
            input.created_at_ms,
            input.manifest_id@,
            input.manifest_checksum@,
            views(input.changed_triggers@),
            input.domains_seen,
            input.workflow_commands@,
            input.authority_migration_records@,
            opt_view(input.output_report_key),
        ),
{
    let mut workflow_command_ids: Vec<String> = Vec::new();
    let mut i: usize = 0;
    while i < input.workflow_commands.len()
        invariant
            i <= input.workflow_commands@.len(),
            views(workflow_command_ids@) == command_ids(input.workflow_commands@).take(i as int),
        decreases input.workflow_commands@.len() - i,
    {
        let ghost before = views(workflow_command_ids@);
        let id = input.workflow_commands[i].workflow_command_id.clone();
        assert(id@ == command_ids(input.workflow_commands@)[i as int]);
        workflow_command_ids.push(id);
        assert(views(workflow_command_ids@) =~= before.push(id@));
        assert(views(workflow_command_ids@) =~= command_ids(input.workflow_commands@).take(
            i + 1,
        ));
        i = i + 1;
    }
    assert(command_ids(input.workflow_commands@).take(input.workflow_commands@.len() as int)
        =~= command_ids(input.workflow_commands@));
    let mut authority_migration_record_ids: Vec<String> = Vec::new();
    let mut i: usize = 0;
    while i < input.authority_migration_records.len()
        invariant
            i <= input.authority_migration_records@.len(),
            views(authority_migration_record_ids@) == authority_record_ids(
                input.authority_migration_records@,
            ).take(i as int),
        decreases input.authority_migration_records@.len() - i,
    {
        let ghost before = views(authority_migration_record_ids@);
        let id = input.authority_migration_records[i].authority_migration_record_id.clone();
        assert(id@ == authority_record_ids(input.authority_migration_records@)[i as int]);
        authority_migration_record_ids.push(id);
        assert(views(authority_migration_record_ids@) =~= before.push(id@));
        assert(views(authority_migration_record_ids@) =~= authority_record_ids(
            input.authority_migration_records@,
        ).take(i + 1));
        i = i + 1;
    }
    assert(authority_record_ids(input.authority_migration_records@).take(
        input.authority_migration_records@.len() as int,
    ) =~= authority_record_ids(input.authority_migration_records@));
    let mut record = ControlPlaneRunRecord {
        schema_version: CONTROL_PLANE_RUN_RECORD_SCHEMA_VERSION.to_owned(),
        control_plane_run_record_id: input.control_plane_run_record_id.to_owned(),
        producer_app: PRODUCER_APP.to_owned(),
        producer_version: PRODUCER_VERSION.to_owned(),
        created_at_ms: input.created_at_ms,
        run_type: "replay_repair_planning".to_owned(),
        manifest_id: input.manifest_id.to_owned(),
        manifest_checksum: input.manifest_checksum.to_owned(),
        changed_triggers: clone_strings(input.changed_triggers),
        domains_seen: input.domains_seen,
        domains_selected: input.workflow_commands.len(),
        workflow_command_ids,
        authority_migration_record_ids,
        output_report_key: input.output_report_key,
        checksum: String::new(),
    };
    seal_run_record(&mut record);
    Ok(record)
}

/// A run record's checksum is the checksum of its own JSON with the checksum left empty:
/// the JSON of any record with the same content and an empty checksum.
pub proof fn lemma_run_record_checksum_is_of_its_json(r: ControlPlaneRunRecord, unsealed: ControlPlaneRunRecord)
    requires
        same_run_record_content(r, unsealed),
        unsealed.checksum@ == Seq::<char>::empty(),
    ensures
        run_record_checksum(r) == checksum_of(run_record_json(unsealed)),
{
    assert(run_record_fields(r).update(14, json_field("checksum"@, json_string(Seq::empty())))
        =~= run_record_fields(unsealed));
}

} // verus!
