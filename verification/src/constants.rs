//! Schema versions and defaults shared by the records this library produces.
use vstd::prelude::*;

verus! {

/// Schema version that a manifest must declare.
pub const MANIFEST_SCHEMA_VERSION: &'static str = "domain_replay_manifest_v1";

/// Schema version of the supervisor report and of its storage partition.
pub const REPORT_SCHEMA_VERSION: &'static str = "domain_replay_supervisor_report_v1";

/// Schema version of each workflow command.
pub const COMMAND_SCHEMA_VERSION: &'static str = "workflow_command_v1";

/// Schema version of the control-plane run record and of its storage partition.
pub const CONTROL_PLANE_RUN_RECORD_SCHEMA_VERSION: &'static str = "control_plane_run_record_v1";

/// Schema version of each authority migration record and of their storage partition.
pub const AUTHORITY_MIGRATION_RECORD_SCHEMA_VERSION: &'static str = "authority_migration_record_v1";

/// The name this application writes into the records it produces.
pub const PRODUCER_APP: &'static str = "domain-replay-supervisor-app";

/// The version this application writes into the records it produces.
pub const PRODUCER_VERSION: &'static str = "0.1.0";

/// Region used when a manifest or the arguments name none.
pub const DEFAULT_AWS_REGION: &'static str = "ap-northeast-2";

/// Key listing limit per prefix used when a manifest names none.
pub const DEFAULT_MAX_KEYS_PER_PREFIX: usize = 10000;

/// The region a domain gets when its manifest entry names none.
pub fn default_region() -> (r: String)
    ensures
        r@ == DEFAULT_AWS_REGION@,
{
    DEFAULT_AWS_REGION.to_owned()
}

/// The key listing limit a domain gets when its manifest entry names none.
pub fn default_max_keys() -> (r: usize)
    ensures
        r == 10000,
{
    DEFAULT_MAX_KEYS_PER_PREFIX
}

} // verus!
