//! Validation of the replay manifest.
use crate::constants::MANIFEST_SCHEMA_VERSION;
use crate::text::{blank, is_blank, str_eq};
use crate::types::{AppError, AuthorityMigrationInput, DomainReplayManifest, DomainRuntimeSpec};
use vstd::prelude::*;
use vstd::string::*;

verus! {

/// A domain with every field that a replay needs.
pub open spec fn domain_complete(d: DomainRuntimeSpec) -> bool {
    &&& !blank(d.domain_id@)
    &&& !blank(d.target_app@)
    &&& !blank(d.target_mode@)
    &&& !blank(d.input_bucket@)
    &&& d.input_prefixes@.len() > 0
    &&& !blank(d.output_bucket@)
    &&& !blank(d.output_report_prefix@)
    &&& d.command_template@.len() > 0
}

/// An authority migration with its scope, target and reason.
pub open spec fn migration_complete(r: AuthorityMigrationInput) -> bool {
    !blank(r.authority_scope@) && !blank(r.to_app@) && !blank(r.migration_reason@)
}

/// An authority migration that the manifest may declare.
pub open spec fn migration_valid(r: AuthorityMigrationInput) -> bool {
    migration_complete(r) && !(r.effective_at_ms matches Some(t) && t < 0)
}

/// The first incomplete domain.
pub open spec fn first_incomplete_domain(ds: Seq<DomainRuntimeSpec>) -> int {
    choose|i: int|
        0 <= i < ds.len() && !domain_complete(ds[i]) && forall|j: int|
            0 <= j < i ==> domain_complete(#[trigger] ds[j])
}

/// The first invalid authority migration.
pub open spec fn first_invalid_migration(rs: Seq<AuthorityMigrationInput>) -> int {
    choose|i: int|
        0 <= i < rs.len() && !migration_valid(rs[i]) && forall|j: int|
            0 <= j < i ==> migration_valid(#[trigger] rs[j])
}

/// What `validate_manifest` answers: the first rule that the manifest breaks, in this
/// order: schema version, manifest id, at least one domain, complete domains, complete
/// and non-negative authority migrations.
pub open spec fn manifest_check(m: DomainReplayManifest) -> Result<(), Seq<char>> {
    let ds = m.domains@;
    let rs = m.authority_migration_records@;
    if m.schema_version@ != MANIFEST_SCHEMA_VERSION@ {
        Err("manifest schema_version must be "@ + MANIFEST_SCHEMA_VERSION@)
    } else if blank(m.manifest_id@) {
        Err("manifest_id is required"@)
    } else if ds.len() == 0 {
        Err("at least one domain is required"@)
    } else if exists|i: int| 0 <= i < ds.len() && !domain_complete(#[trigger] ds[i]) {
        Err("domain "@ + ds[first_incomplete_domain(ds)].domain_id@ + " is missing required fields"@)
    } else if exists|i: int| 0 <= i < rs.len() && !migration_valid(#[trigger] rs[i]) {
        if !migration_complete(rs[first_invalid_migration(rs)]) {
            Err(
                "authority_migration_records require authority_scope, to_app, and migration_reason"@,
            )
        } else {
            Err("authority_migration_records.effective_at_ms must be non-negative"@)
        }
    } else {
        Ok(())
    }
}

fn check_domain(d: &DomainRuntimeSpec) -> (r: bool)
    ensures
        r == domain_complete(*d),
{
    !(is_blank(d.domain_id.as_str()) || is_blank(d.target_app.as_str()) || is_blank(
        d.target_mode.as_str(),
    ) || is_blank(d.input_bucket.as_str()) || d.input_prefixes.len() == 0 || is_blank(
        d.output_bucket.as_str(),
    ) || is_blank(d.output_report_prefix.as_str()) || d.command_template.len() == 0)
}

/// Checks the manifest; the error is the first rule it breaks, as `manifest_check` says.
pub fn validate_manifest(manifest: &DomainReplayManifest) -> (r: Result<(), AppError>)
    ensures
        match r {
            Ok(()) => manifest_check(*manifest) == Ok::<(), Seq<char>>(()),
            Err(e) => manifest_check(*manifest) == Err::<(), Seq<char>>(e.message@),
        },
{
    let ghost ds = manifest.domains@;
    let ghost rs = manifest.authority_migration_records@;
    if !str_eq(manifest.schema_version.as_str(), MANIFEST_SCHEMA_VERSION) {
        let mut message = "manifest schema_version must be ".to_owned();
        message.append(MANIFEST_SCHEMA_VERSION);
        return Err(AppError { message });
    }
    if is_blank(manifest.manifest_id.as_str()) {
        return Err(AppError { message: "manifest_id is required".to_owned() });
    }
    if manifest.domains.len() == 0 {
        return Err(AppError { message: "at least one domain is required".to_owned() });
    }
    let mut i: usize = 0;
    while i < manifest.domains.len()
        invariant
            manifest.schema_version@ == MANIFEST_SCHEMA_VERSION@,
            !blank(manifest.manifest_id@),
            ds.len() > 0,
            ds == manifest.domains@,
            i <= ds.len(),
            forall|j: int| 0 <= j < i ==> domain_complete(#[trigger] ds[j]),
        decreases ds.len() - i,
    {
        let d = &manifest.domains[i];
        if !check_domain(d) {
            let mut message = "domain ".to_owned();
            message.append(d.domain_id.as_str());
            message.append(" is missing required fields");
            proof {
                assert(!domain_complete(ds[i as int]));
                let k = first_incomplete_domain(ds);
                assert(0 <= k < ds.len() && !domain_complete(ds[k]));
                if k < i {
                } else if k > i {
                    assert(domain_complete(ds[i as int]));
                }
                assert(k == i);
            }
            return Err(AppError { message });
        }
        i = i + 1;
    }
    let mut i: usize = 0;
    while i < manifest.authority_migration_records.len()
        invariant
            manifest.schema_version@ == MANIFEST_SCHEMA_VERSION@,
            !blank(manifest.manifest_id@),
            ds.len() > 0,
            ds == manifest.domains@,
            rs == manifest.authority_migration_records@,
            forall|j: int| 0 <= j < ds.len() ==> domain_complete(#[trigger] ds[j]),
            i <= rs.len(),
            forall|j: int| 0 <= j < i ==> migration_valid(#[trigger] rs[j]),
        decreases rs.len() - i,
    {
        let record = &manifest.authority_migration_records[i];
        let complete = !(is_blank(record.authority_scope.as_str()) || is_blank(
            record.to_app.as_str(),
        ) || is_blank(record.migration_reason.as_str()));
        let negative = match record.effective_at_ms {
            Some(t) => t < 0,
            None => false,
        };
        if !complete || negative {
            proof {
                let k = first_invalid_migration(rs);
                assert(!migration_valid(rs[i as int]));
                assert(0 <= k < rs.len() && !migration_valid(rs[k]));
                if k > i {
                    assert(migration_valid(rs[i as int]));
                }
                assert(k == i);
            }
            if !complete {
                return Err(
                    AppError {
                        message: "authority_migration_records require authority_scope, to_app, and migration_reason".to_owned(),
                    },
                );
            }
            return Err(
                AppError {
                    message: "authority_migration_records.effective_at_ms must be non-negative".to_owned(),
                },
            );
        }
        i = i + 1;
    }
    Ok(())
}

/// Every domain of an accepted manifest names its domain, target application and mode,
/// input bucket, output bucket and report prefix (none of them blank), and has input
/// prefixes and a command template.
pub proof fn lemma_accepted_domains_are_complete(m: DomainReplayManifest)
    ensures
        manifest_check(m) is Ok ==> forall|k: int|
            0 <= k < m.domains@.len() ==> ({
                let d = #[trigger] m.domains@[k];
                !blank(d.domain_id@) && !blank(d.target_app@) && !blank(d.target_mode@)
                && !blank(d.input_bucket@) && d.input_prefixes@.len() > 0 && !blank(d.output_bucket@)
                && !blank(d.output_report_prefix@) && d.command_template@.len() > 0
            }),
{
    if manifest_check(m) is Ok {
        assert forall|k: int| 0 <= k < m.domains@.len() implies domain_complete(
            #[trigger] m.domains@[k],
        ) by {}
    }
}

/// A manifest with the right schema, an identifier and domains, whose domain `k` lacks one
/// of those fields while every domain before it has them all, is refused with the message
/// that names domain `k`.
pub proof fn lemma_first_incomplete_domain_refused(m: DomainReplayManifest, k: int)
    requires
        m.schema_version@ == MANIFEST_SCHEMA_VERSION@,
        !blank(m.manifest_id@),
        0 <= k < m.domains@.len(),
        !({
            let d = m.domains@[k];
            !blank(d.domain_id@) && !blank(d.target_app@) && !blank(d.target_mode@)
                && !blank(d.input_bucket@) && d.input_prefixes@.len() > 0 && !blank(d.output_bucket@)
                && !blank(d.output_report_prefix@) && d.command_template@.len() > 0
        }),
        forall|j: int|
            0 <= j < k ==> ({
                let d = #[trigger] m.domains@[j];
                !blank(d.domain_id@) && !blank(d.target_app@) && !blank(d.target_mode@)
                && !blank(d.input_bucket@) && d.input_prefixes@.len() > 0 && !blank(d.output_bucket@)
                && !blank(d.output_report_prefix@) && d.command_template@.len() > 0
            }),
    ensures
        manifest_check(m) == Err::<(), Seq<char>>(
            "domain "@ + m.domains@[k].domain_id@ + " is missing required fields"@,
        ),
{
    let ds = m.domains@;
    assert(!domain_complete(ds[k]));
    let i = first_incomplete_domain(ds);
    assert(0 <= i < ds.len() && !domain_complete(ds[i]));
    if i < k {
        assert(domain_complete(ds[i]));
    } else if i > k {
        assert(domain_complete(ds[k]));
    }
}

/// Every authority migration of an accepted manifest has a scope, a target application
/// and a reason, none of them blank, and no negative effective time.
pub proof fn lemma_accepted_migrations_are_complete(m: DomainReplayManifest)
    ensures
        manifest_check(m) is Ok ==> forall|k: int|
            0 <= k < m.authority_migration_records@.len() ==> ({
                let r = #[trigger] m.authority_migration_records@[k];
                !blank(r.authority_scope@) && !blank(r.to_app@) && !blank(r.migration_reason@)
                    && !(r.effective_at_ms matches Some(t) && t < 0)
            }),
{
    if manifest_check(m) is Ok {
        assert forall|k: int| 0 <= k < m.authority_migration_records@.len() implies migration_valid(
            #[trigger] m.authority_migration_records@[k],
        ) by {}
    }
}

} // verus!
