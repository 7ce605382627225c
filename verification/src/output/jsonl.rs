//! Newline-delimited JSON of the commands and of the authority migration records.
use crate::json::{
    authority_record_json, authority_record_to_json, command_json, command_to_json,
    lemma_authority_record_json_one_line, lemma_command_json_one_line, no_newline,
};
use crate::text::{join, join_strings, views};
use crate::types::{AuthorityMigrationRecord, DomainReplaySupervisorReport, WorkflowCommand};
use vstd::prelude::*;
use vstd::string::*;

verus! {

/// One compact JSON line per item, each line ended by a newline (a lone newline when empty).
pub open spec fn jsonl(lines: Seq<Seq<char>>) -> Seq<char> {
    join(lines, seq!['\n']).push('\n')
}

/// The workflow commands of a report as newline-delimited JSON.
pub open spec fn commands_jsonl_of(report: DomainReplaySupervisorReport) -> Seq<char> {
    jsonl(report.workflow_commands@.map_values(|c: WorkflowCommand| command_json(c)))
}

/// Authority migration records as newline-delimited JSON.
pub open spec fn authority_migrations_jsonl_of(records: Seq<AuthorityMigrationRecord>) -> Seq<char> {
    jsonl(records.map_values(|r: AuthorityMigrationRecord| authority_record_json(r)))
}

/// The workflow commands of a report as newline-delimited JSON.
pub fn commands_jsonl(report: &DomainReplaySupervisorReport) -> (r: Result<String, crate::types::AppError>)
    ensures
        r matches Ok(s) && s@ == commands_jsonl_of(*report),
{
    let v = &report.workflow_commands;
    let mut lines: Vec<String> = Vec::new();
    let mut i: usize = 0;
    while i < v.len()
        invariant
            v == &report.workflow_commands,
            i <= v.len(),
            views(lines@) =~= v@.take(i as int).map_values(|c: WorkflowCommand| command_json(c)),
        decreases v.len() - i,
    {
        let ghost prev = views(lines@);
        lines.push(command_to_json(&v[i]));
        assert(views(lines@) =~= prev.push(command_json(v@[i as int])));
        assert(v@.take(i + 1).map_values(|c: WorkflowCommand| command_json(c)) =~= v@.take(
            i as int,
        ).map_values(|c: WorkflowCommand| command_json(c)).push(command_json(v@[i as int])));
        i = i + 1;
    }
    assert(v@.take(v.len() as int) =~= v@);
    let mut out = join_strings(&lines, '\n');
    out.push('\n');
    Ok(out)
}

/// Authority migration records as newline-delimited JSON.
pub fn authority_migrations_jsonl(records: &[AuthorityMigrationRecord]) -> (r: Result<String, crate::types::AppError>)
    ensures
        r matches Ok(s) && s@ == authority_migrations_jsonl_of(records@),
{
    let mut lines: Vec<String> = Vec::new();
    let mut i: usize = 0;
    while i < records.len()
        invariant
            i <= records@.len(),
            views(lines@) =~= records@.take(i as int).map_values(
                |r: AuthorityMigrationRecord| authority_record_json(r),
            ),
        decreases records@.len() - i,
    {
        let ghost prev = views(lines@);
        lines.push(authority_record_to_json(&records[i]));
        assert(views(lines@) =~= prev.push(authority_record_json(records@[i as int])));
        assert(records@.take(i + 1).map_values(|r: AuthorityMigrationRecord| authority_record_json(r))
            =~= records@.take(i as int).map_values(
            |r: AuthorityMigrationRecord| authority_record_json(r),
        ).push(authority_record_json(records@[i as int])));
        i = i + 1;
    }
    assert(records@.take(records@.len() as int) =~= records@);
    let mut out = join_strings(&lines, '\n');
    out.push('\n');
    Ok(out)
}

/// How many line breaks a text holds.
pub open spec fn count_newlines(s: Seq<char>) -> nat
    decreases s.len(),
{
    if s.len() == 0 {
        0
    } else {
        count_newlines(s.drop_last()) + if s.last() == '\n' {
            1nat
        } else {
            0nat
        }
    }
}

proof fn lemma_count_concat(a: Seq<char>, b: Seq<char>)
    ensures
        count_newlines(a + b) == count_newlines(a) + count_newlines(b),
    decreases b.len(),
{
    if b.len() == 0 {
        assert(a + b =~= a);
    } else {
        lemma_count_concat(a, b.drop_last());
        assert((a + b).drop_last() =~= a + b.drop_last());
    }
}

proof fn lemma_count_single_line(s: Seq<char>)
    requires
        no_newline(s),
    ensures
        count_newlines(s) == 0,
    decreases s.len(),
{
    if s.len() > 0 {
        lemma_count_single_line(s.drop_last());
    }
}

proof fn lemma_join_count(lines: Seq<Seq<char>>)
    requires
        lines.len() > 0,
        forall|k: int| 0 <= k < lines.len() ==> no_newline(#[trigger] lines[k]),
    ensures
        count_newlines(join(lines, seq!['\n'])) + 1 == lines.len(),
    decreases lines.len(),
{
    if lines.len() == 1 {
        lemma_count_single_line(lines[0]);
    } else {
        lemma_join_count(lines.drop_last());
        assert(seq!['\n'].drop_last() =~= Seq::<char>::empty());
        let nl = seq!['\n'];
        assert(nl.len() == 1 && nl.last() == '\n');
        assert(count_newlines(nl.drop_last()) == 0);
        assert(count_newlines(nl) == 1);
        assert(no_newline(lines[lines.len() - 1]));
        lemma_count_single_line(lines.last());
        lemma_count_concat(join(lines.drop_last(), seq!['\n']), seq!['\n']);
        lemma_count_concat(join(lines.drop_last(), seq!['\n']) + seq!['\n'], lines.last());
    }
}

/// Newline-delimited JSON of records that are each one line holds one line break per record.
pub proof fn lemma_jsonl_one_line_per_record(lines: Seq<Seq<char>>)
    requires
        lines.len() > 0,
        forall|k: int| 0 <= k < lines.len() ==> no_newline(#[trigger] lines[k]),
    ensures
        count_newlines(jsonl(lines)) == lines.len(),
{
    lemma_join_count(lines);
    assert(jsonl(lines).drop_last() =~= join(lines, seq!['\n']));
}

/// The commands file holds exactly one line per workflow command.
pub proof fn lemma_commands_jsonl_lines(report: DomainReplaySupervisorReport)
    requires
        report.workflow_commands@.len() > 0,
    ensures
        count_newlines(commands_jsonl_of(report)) == report.workflow_commands@.len(),
{
    let lines = report.workflow_commands@.map_values(|c: WorkflowCommand| command_json(c));
    assert forall|k: int| 0 <= k < lines.len() implies no_newline(#[trigger] lines[k]) by {
        lemma_command_json_one_line(report.workflow_commands@[k]);
    }
    lemma_jsonl_one_line_per_record(lines);
}

/// The authority migrations file holds exactly one line per record.
pub proof fn lemma_authority_migrations_jsonl_lines(records: Seq<AuthorityMigrationRecord>)
    requires
        records.len() > 0,
    ensures
        count_newlines(authority_migrations_jsonl_of(records)) == records.len(),
{
    let lines = records.map_values(|r: AuthorityMigrationRecord| authority_record_json(r));
    assert forall|k: int| 0 <= k < lines.len() implies no_newline(#[trigger] lines[k]) by {
        lemma_authority_record_json_one_line(records[k]);
    }
    lemma_jsonl_one_line_per_record(lines);
}

} // verus!
