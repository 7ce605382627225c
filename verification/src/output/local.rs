//! The files a run writes into a local output directory.
use crate::keys::{path_segment, path_segment_of};
use crate::output::jsonl::{
    authority_migrations_jsonl, authority_migrations_jsonl_of, commands_jsonl, commands_jsonl_of,
};
use crate::path::{path_check, validate_config_absolute_path};
use crate::text::str_eq;
use crate::types::{AppError, DomainReplaySupervisorReport};
use vstd::prelude::*;
use vstd::string::*;

verus! {

/// What `validate_file_id` answers: an identifier must be one non-empty path segment,
/// neither `.` nor `..`, that `path_segment` keeps as it is.
pub open spec fn file_id_check(id: Seq<char>) -> Result<(), Seq<char>> {
    if id.len() == 0 {
        Err("local output id must not be empty"@)
    } else if id == seq!['.'] || id == seq!['.', '.'] || id != path_segment_of(id) {
        Err("local output id must be a single safe path segment"@)
    } else {
        Ok(())
    }
}

/// `name` under the directory `dir`, as `Path::join` forms it for a relative name.
pub open spec fn path_join(dir: Seq<char>, name: Seq<char>) -> Seq<char> {
    if dir.len() == 0 || dir.last() == '/' {
        dir + name
    } else {
        dir + seq!['/'] + name
    }
}

/// The file `<id>.<suffix>` under `dir`.
pub open spec fn output_file_path(dir: Seq<char>, id: Seq<char>, suffix: Seq<char>) -> Seq<char> {
    path_join(dir, id + seq!['.'] + suffix)
}

/// Accepts an identifier that names one safe file.
pub fn validate_file_id(id: &str) -> (r: Result<(), AppError>)
    ensures
        match r {
            Ok(()) => file_id_check(id@) == Ok::<(), Seq<char>>(()),
            Err(e) => file_id_check(id@) == Err::<(), Seq<char>>(e.message@),
        },
{
    if id.unicode_len() == 0 {
        return Err(AppError { message: "local output id must not be empty".to_owned() });
    }
    proof {
        reveal_strlit(".");
        reveal_strlit("..");
        assert("."@ =~= seq!['.']);
        assert(".."@ =~= seq!['.', '.']);
    }
    let segment = path_segment(id);
    if str_eq(id, ".") || str_eq(id, "..") || !str_eq(id, segment.as_str()) {
        return Err(
            AppError { message: "local output id must be a single safe path segment".to_owned() },
        );
    }
    Ok(())
}

/// The path of the file `<id>.<suffix>` under the output directory, once the identifier
/// is known to be safe.
pub fn local_output_path(output_dir: &str, id: &str, suffix: &str) -> (r: Result<String, AppError>)
    ensures
        match r {
            Ok(p) => file_id_check(id@) == Ok::<(), Seq<char>>(()) && p@ == output_file_path(
                output_dir@,
                id@,
                suffix@,
            ),
            Err(e) => file_id_check(id@) == Err::<(), Seq<char>>(e.message@),
        },
{
    validate_file_id(id)?;
    let mut path = output_dir.to_owned();
    let n = output_dir.unicode_len();
    if n > 0 && output_dir.get_char(n - 1) != '/' {
        path.push('/');
    }
    path.append(id);
    path.push('.');
    path.append(suffix);
    assert(path@ =~= output_file_path(output_dir@, id@, suffix@));
    Ok(path)
}

/// The files of a run in a local directory, and the contents that this library writes.
pub struct LocalOutputPlan {
    /// The report, written as pretty JSON.
    pub report_path: String,
    /// The workflow commands, newline-delimited JSON.
    pub commands_path: String,
    pub commands_body: String,
    /// The control-plane run record, written as pretty JSON.
    pub run_record_path: String,
    /// The authority migration records, when the report has any.
    pub migrations_path: Option<String>,
    pub migrations_body: Option<String>,
    /// The paths written, in order.
    pub output_files: Vec<String>,
}

/// What `plan_local_outputs` answers when the directory and identifiers are accepted.
pub open spec fn is_local_plan_for(
    p: LocalOutputPlan,
    report: DomainReplaySupervisorReport,
    dir: Seq<char>,
    supervisor_run_id: Seq<char>,
    control_plane_run_record_id: Seq<char>,
) -> bool {
    let with_migrations = report.authority_migration_records@.len() > 0;
    &&& p.report_path@ == output_file_path(dir, supervisor_run_id, "report.json"@)
    &&& p.commands_path@ == output_file_path(dir, supervisor_run_id, "commands.jsonl"@)
    &&& p.commands_body@ == commands_jsonl_of(report)
    &&& p.run_record_path@ == output_file_path(
        dir,
        control_plane_run_record_id,
        "control-plane-run-record.json"@,
    )
    &&& with_migrations ==> (p.migrations_path matches Some(m) && m@ == output_file_path(
        dir,
        control_plane_run_record_id,
        "authority-migrations.jsonl"@,
    ))
    &&& with_migrations ==> (p.migrations_body matches Some(b) && b@
        == authority_migrations_jsonl_of(report.authority_migration_records@))
    &&& !with_migrations ==> p.migrations_path is None && p.migrations_body is None
    &&& p.output_files@.len() == if with_migrations {
        4int
    } else {
        3int
    }
    &&& p.output_files@[0]@ == p.report_path@
    &&& p.output_files@[1]@ == p.commands_path@
    &&& p.output_files@[2]@ == p.run_record_path@
    &&& with_migrations ==> p.output_files@[3]@ == p.migrations_path->0@
}

/// The first reason a local output is refused: the directory, then the run identifier,
/// then the control-plane record identifier.
pub open spec fn local_output_check(
    dir: Seq<char>,
    supervisor_run_id: Seq<char>,
    control_plane_run_record_id: Seq<char>,
) -> Result<(), Seq<char>> {
    if path_check(dir, "output dir"@) is Err {
        path_check(dir, "output dir"@)
    } else if file_id_check(supervisor_run_id) is Err {
        file_id_check(supervisor_run_id)
    } else {
        file_id_check(control_plane_run_record_id)
    }
}

/// The files of a run in the output directory and the newline-delimited contents; the
/// directory must be absolute without `.` or `..` components and both identifiers safe.
pub fn plan_local_outputs(
    report: &DomainReplaySupervisorReport,
    output_dir: &str,
    supervisor_run_id: &str,
    control_plane_run_record_id: &str,
) -> (r: Result<LocalOutputPlan, AppError>)
    ensures
        match r {
            Ok(p) => local_output_check(output_dir@, supervisor_run_id@, control_plane_run_record_id@)
                == Ok::<(), Seq<char>>(()) && is_local_plan_for(
                p,
                *report,
                output_dir@,
                supervisor_run_id@,
                control_plane_run_record_id@,
            ),
            Err(e) => local_output_check(output_dir@, supervisor_run_id@, control_plane_run_record_id@)
                == Err::<(), Seq<char>>(e.message@),
        },
{
    validate_config_absolute_path(output_dir, "output dir")?;
    let report_path = local_output_path(output_dir, supervisor_run_id, "report.json")?;
    let commands_path = local_output_path(output_dir, supervisor_run_id, "commands.jsonl")?;
    let run_record_path = local_output_path(
        output_dir,
        control_plane_run_record_id,
        "control-plane-run-record.json",
    )?;
    let commands_body = match commands_jsonl(report) {
        Ok(body) => body,
        Err(e) => {
            return Err(e);
        },
    };
    let mut output_files: Vec<String> = Vec::new();
    output_files.push(report_path.clone());
    output_files.push(commands_path.clone());
    output_files.push(run_record_path.clone());
    let mut migrations_path: Option<String> = None;
    let mut migrations_body: Option<String> = None;
    if report.authority_migration_records.len() > 0 {
        let path = local_output_path(
            output_dir,
            control_plane_run_record_id,
            "authority-migrations.jsonl",
        )?;
        let body = match authority_migrations_jsonl(report.authority_migration_records.as_slice()) {
            Ok(body) => body,
            Err(e) => {
                return Err(e);
            },
        };
        output_files.push(path.clone());
        migrations_path = Some(path);
        migrations_body = Some(body);
    }
    Ok(
        LocalOutputPlan {
            report_path,
            commands_path,
            commands_body,
            run_record_path,
            migrations_path,
            migrations_body,
            output_files,
        },
    )
}

/// An accepted identifier is one path segment: it holds no `/` and is neither `.` nor
/// `..`, so each output file lies directly in the output directory.
pub proof fn lemma_accepted_id_is_one_segment(id: Seq<char>)
    requires
        file_id_check(id) is Ok,
    ensures
        forall|i: int| 0 <= i < id.len() ==> id[i] != '/',
        id != seq!['.'],
        id != seq!['.', '.'],
        id.len() > 0,
{
    assert forall|i: int| 0 <= i < id.len() implies id[i] != '/' by {
        assert(path_segment_of(id)[i] == id[i]);
    }
}

} // verus!
