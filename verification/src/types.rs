//! The values that flow through a supervisor run: arguments, the manifest, the
//! workflow commands, the control-plane records and the report.
use vstd::prelude::*;

verus! {

/// Command-line arguments of a run.
#[derive(Debug, Clone, PartialEq, Eq)]
pub struct Args {
    /// Absolute path of the manifest file.
    pub manifest_file: String,
    /// The changed triggers, strictly sorted and without repetition.
    pub changed_triggers: Vec<String>,
    /// Absolute path of the local output directory, if any.
    pub output_dir: Option<String>,
    /// Where the outputs go in object storage, if anywhere.
    pub output_s3: Option<S3OutputArgs>,
    /// Creation time of the run, if given.
    pub now_ms: Option<i64>,
}

/// Object storage target of the outputs.
#[derive(Debug, Clone, PartialEq, Eq)]
pub struct S3OutputArgs {
    pub bucket: String,
    pub region: String,
    pub prefix: String,
    pub profile: Option<String>,
}

/// The replay manifest: which domains exist and how to replay them.
#[derive(Debug, Clone, PartialEq, Eq)]
pub struct DomainReplayManifest {
    pub schema_version: String,
    pub manifest_id: String,
    pub domains: Vec<DomainRuntimeSpec>,
    pub authority_migration_records: Vec<AuthorityMigrationInput>,
}

/// One domain of the manifest.
#[derive(Debug, Clone, PartialEq, Eq)]
pub struct DomainRuntimeSpec {
    pub domain_id: String,
    pub target_app: String,
    pub target_mode: String,
    pub input_bucket: String,
    pub input_region: String,
    pub input_profile: Option<String>,
    pub input_prefixes: Vec<String>,
    pub input_suffixes: Vec<String>,
    pub max_keys_per_prefix: usize,
    pub replay_triggers: Vec<String>,
    pub output_bucket: String,
    pub output_region: String,
    pub output_report_prefix: String,
    pub command_template: Vec<String>,
}

/// An authority migration that the manifest declares.
#[derive(Debug, Clone, PartialEq, Eq)]
pub struct AuthorityMigrationInput {
    pub authority_scope: String,
    pub from_app: Option<String>,
    pub to_app: String,
    pub migration_reason: String,
    pub effective_at_ms: Option<i64>,
}

/// A command that asks a target application to replay one domain.
#[derive(Debug, Clone, PartialEq, Eq)]
pub struct WorkflowCommand {
    pub schema_version: String,
    pub workflow_command_id: String,
    pub workflow_type: String,
    pub target_app: String,
    pub target_scope: String,
    pub target_mode: String,
    pub reason: String,
    pub source_run_record_id: String,
    pub issued_at_ms: i64,
    pub idempotency_key: String,
    pub domain_id: String,
    pub input_bucket: String,
    pub input_prefixes: Vec<String>,
    pub estimated_input_keys: usize,
    pub command: Vec<String>,
}

/// The record of one authority migration, made during a run.
#[derive(Debug, Clone, PartialEq, Eq)]
pub struct AuthorityMigrationRecord {
    pub schema_version: String,
    pub authority_migration_record_id: String,
    pub control_plane_run_record_id: String,
    pub authority_scope: String,
    pub from_app: Option<String>,
    pub to_app: String,
    pub migration_reason: String,
    pub effective_at_ms: i64,
    pub created_at_ms: i64,
    pub manifest_id: String,
    pub manifest_checksum: String,
    pub idempotency_key: String,
}

/// The control-plane record of a run.
#[derive(Debug, Clone, PartialEq, Eq)]
pub struct ControlPlaneRunRecord {
    pub schema_version: String,
    pub control_plane_run_record_id: String,
    pub producer_app: String,
    pub producer_version: String,
    pub created_at_ms: i64,
    pub run_type: String,
    pub manifest_id: String,
    pub manifest_checksum: String,
    pub changed_triggers: Vec<String>,
    pub domains_seen: usize,
    pub domains_selected: usize,
    pub workflow_command_ids: Vec<String>,
    pub authority_migration_record_ids: Vec<String>,
    pub output_report_key: Option<String>,
    pub checksum: String,
}

/// The report of a supervisor run.
#[derive(Debug, Clone, PartialEq, Eq)]
pub struct DomainReplaySupervisorReport {
    pub schema_version: String,
    pub supervisor_run_id: String,
    pub producer_app: String,
    pub producer_version: String,
    pub created_at_ms: i64,
    pub manifest_id: String,
    pub manifest_checksum: String,
    pub changed_triggers: Vec<String>,
    pub domains_seen: usize,
    pub domains_selected: usize,
    pub workflow_commands_created: usize,
    pub input_keys_estimated: usize,
    pub skipped_domains: Vec<SkippedDomain>,
    pub workflow_commands: Vec<WorkflowCommand>,
    pub control_plane_run_record: ControlPlaneRunRecord,
    pub authority_migration_records: Vec<AuthorityMigrationRecord>,
    pub report_key: Option<String>,
    pub checksum: String,
}

/// A domain that a run did not select, and why.
#[derive(Debug, Clone, PartialEq, Eq)]
pub struct SkippedDomain {
    pub domain_id: String,
    pub reason: String,
}

/// What a run prints when it ends.
#[derive(Debug, Clone, PartialEq, Eq)]
pub struct RunSummary {
    pub supervisor_run_id: String,
    pub domains_selected: usize,
    pub workflow_commands_created: usize,
    pub input_keys_estimated: usize,
    pub output_files: Vec<String>,
    pub output_s3_uris: Vec<String>,
}

/// An error of a run, with the message the user sees.
#[derive(Debug, Clone, PartialEq, Eq)]
pub struct AppError {
    pub message: String,
}

impl AppError {
    /// The message of the error.
    pub fn to_string(&self) -> (r: String)
        ensures
            r@ == self.message@,
    {
        self.message.clone()
    }
}

/// The view of an optional string.
pub open spec fn opt_view(o: Option<String>) -> Option<Seq<char>> {
    match o {
        Some(s) => Some(s@),
        None => None,
    }
}

} // verus!
