//! Trigger matching, command templates and workflow commands.
use crate::constants::COMMAND_SCHEMA_VERSION;
use crate::hash::{stable_id, stable_id_of, str_views};
use crate::json::{contains_text, join_offset};
use crate::order::{is_sorted_set, string_set};
use crate::text::{join, join_strings, occurs_at, replace, replace_all, str_eq, views};
use crate::types::{DomainRuntimeSpec, WorkflowCommand};
use vstd::prelude::*;
use vstd::string::*;

verus! {

/// The trigger that selects every domain.
pub const FORCE_ALL: &'static str = "force_all";

/// The template part that expands to one `--replay-input-prefix` pair per input prefix.
pub const REPEAT_INPUT_PREFIXES: &'static str = "{repeat_input_prefixes}";

/// A domain is selected when `force_all` changed, or when one of its replay triggers changed.
pub open spec fn matches_triggers(replay: Set<Seq<char>>, changed: Set<Seq<char>>) -> bool {
    changed.contains(FORCE_ALL@) || exists|t: Seq<char>| changed.contains(t) && replay.contains(t)
}

/// The input prefixes joined with `,`.
pub open spec fn prefixes_text(d: DomainRuntimeSpec) -> Seq<char> {
    join(views(d.input_prefixes@), seq![','])
}

/// A template part with its placeholders filled in, one placeholder after the other.
pub open spec fn substitute(part: Seq<char>, d: DomainRuntimeSpec) -> Seq<char> {
    replace_all(
        replace_all(
            replace_all(
                replace_all(part, "{input_bucket}"@, d.input_bucket@),
                "{output_bucket}"@,
                d.output_bucket@,
            ),
            "{input_prefixes}"@,
            prefixes_text(d),
        ),
        "{output_report_prefix}"@,
        d.output_report_prefix@,
    )
}

/// `--replay-input-prefix <prefix>` for each prefix, in order.
pub open spec fn prefix_args(ps: Seq<Seq<char>>) -> Seq<Seq<char>>
    decreases ps.len(),
{
    if ps.len() == 0 {
        Seq::empty()
    } else {
        prefix_args(ps.drop_last()).push("--replay-input-prefix"@).push(ps.last())
    }
}

/// What one template part renders to.
pub open spec fn render_part(part: Seq<char>, d: DomainRuntimeSpec) -> Seq<Seq<char>> {
    if part == REPEAT_INPUT_PREFIXES@ {
        prefix_args(views(d.input_prefixes@))
    } else {
        seq![substitute(part, d)]
    }
}

/// What a command template renders to, part after part.
pub open spec fn render_template(t: Seq<Seq<char>>, d: DomainRuntimeSpec) -> Seq<Seq<char>>
    decreases t.len(),
{
    if t.len() == 0 {
        Seq::empty()
    } else {
        render_template(t.drop_last(), d) + render_part(t.last(), d)
    }
}

/// The identifier of the command that a run issues for a domain.
pub open spec fn workflow_command_id_of(supervisor_run_id: Seq<char>, d: DomainRuntimeSpec) -> Seq<
    char,
> {
    stable_id_of(
        "workflow_cmd"@,
        seq![supervisor_run_id, d.domain_id@, d.target_app@, d.target_mode@, prefixes_text(d)],
    )
}

/// `c` is the command that run `supervisor_run_id` issues for domain `d` at `issued_at_ms`,
/// with the changed triggers listed in `triggers` and `estimated` input keys.
pub open spec fn is_command_for(
    c: WorkflowCommand,
    supervisor_run_id: Seq<char>,
    d: DomainRuntimeSpec,
    triggers: Seq<Seq<char>>,
    estimated: usize,
    issued_at_ms: i64,
) -> bool {
    &&& c.schema_version@ == COMMAND_SCHEMA_VERSION@
    &&& c.workflow_command_id@ == workflow_command_id_of(supervisor_run_id, d)
    &&& c.workflow_type@ == "healing_action"@
    &&& c.target_app@ == d.target_app@
    &&& c.target_scope@ == prefixes_text(d)
    &&& c.target_mode@ == d.target_mode@
    &&& c.reason@ == join(triggers, seq![','])
    &&& c.source_run_record_id@ == supervisor_run_id
    &&& c.issued_at_ms == issued_at_ms
    &&& c.idempotency_key@ == stable_id_of(
        "workflow_cmd_idem"@,
        seq![workflow_command_id_of(supervisor_run_id, d)],
    )
    &&& c.domain_id@ == d.domain_id@
    &&& c.input_bucket@ == d.input_bucket@
    &&& views(c.input_prefixes@) == views(d.input_prefixes@)
    &&& c.estimated_input_keys == estimated
    &&& views(c.command@) == render_template(views(d.command_template@), d)
}

/// Whether `force_all` is among the changed triggers, or one of them is a replay trigger
/// of the domain.
pub fn domain_matches_triggers(domain: &DomainRuntimeSpec, changed_triggers: &Vec<String>) -> (r:
    bool)
    requires
        is_sorted_set(changed_triggers@),
    ensures
        r == matches_triggers(views(domain.replay_triggers@).to_set(), string_set(changed_triggers@)),
{
    let ghost changed = views(changed_triggers@);
    let ghost replay = views(domain.replay_triggers@);
    let mut i: usize = 0;
    while i < changed_triggers.len()
        invariant
            changed == views(changed_triggers@),
            i <= changed_triggers.len(),
            forall|k: int| 0 <= k < i ==> changed[k] != FORCE_ALL@,
        decreases changed_triggers.len() - i,
    {
        if str_eq(changed_triggers[i].as_str(), FORCE_ALL) {
            assert(changed.to_set().contains(changed[i as int]));
            return true;
        }
        i = i + 1;
    }
    assert(!changed.to_set().contains(FORCE_ALL@));
    let mut i: usize = 0;
    while i < changed_triggers.len()
        invariant
            changed == views(changed_triggers@),
            replay == views(domain.replay_triggers@),
            i <= changed_triggers.len(),
            forall|k: int, j: int| 0 <= k < i && 0 <= j < replay.len() ==> changed[k] != replay[j],
        decreases changed_triggers.len() - i,
    {
        let mut j: usize = 0;
        while j < domain.replay_triggers.len()
            invariant
                changed == views(changed_triggers@),
                replay == views(domain.replay_triggers@),
                i < changed_triggers.len(),
                j <= domain.replay_triggers.len(),
                forall|k: int, l: int| 0 <= k < i && 0 <= l < replay.len() ==> changed[k] != replay[l],
                forall|l: int| 0 <= l < j ==> changed[i as int] != replay[l],
            decreases domain.replay_triggers.len() - j,
        {
            if changed_triggers[i] == domain.replay_triggers[j] {
                assert(changed.to_set().contains(changed[i as int]));
                assert(replay.to_set().contains(replay[j as int]));
                return true;
            }
            j = j + 1;
        }
        i = i + 1;
    }
    assert forall|t: Seq<char>| !(changed.to_set().contains(t) && replay.to_set().contains(t)) by {
        if changed.to_set().contains(t) && replay.to_set().contains(t) {
            let k = choose|k: int| 0 <= k < changed.len() && changed[k] == t;
            let l = choose|l: int| 0 <= l < replay.len() && replay[l] == t;
            assert(changed[k] != replay[l]);
        }
    }
    false
}

/// A template part with its placeholders filled in.
fn substitute_part(part: &str, domain: &DomainRuntimeSpec, prefixes: &str) -> (r: String)
    requires
        prefixes@ == prefixes_text(*domain),
    ensures
        r@ == substitute(part@, *domain),
{
    proof {
        reveal_strlit("{input_bucket}");
        reveal_strlit("{output_bucket}");
        reveal_strlit("{input_prefixes}");
        reveal_strlit("{output_report_prefix}");
    }
    let a = replace(part, "{input_bucket}", domain.input_bucket.as_str());
    let b = replace(a.as_str(), "{output_bucket}", domain.output_bucket.as_str());
    let c = replace(b.as_str(), "{input_prefixes}", prefixes);
    replace(c.as_str(), "{output_report_prefix}", domain.output_report_prefix.as_str())
}

/// The command of a domain: its template with `{repeat_input_prefixes}` expanded to one
/// `--replay-input-prefix <prefix>` pair per input prefix, and `{input_bucket}`,
/// `{output_bucket}`, `{input_prefixes}` and `{output_report_prefix}` filled in elsewhere.
pub fn render_command_template(domain: &DomainRuntimeSpec) -> (r: Vec<String>)
    ensures
        views(r@) == render_template(views(domain.command_template@), *domain),
{
    let prefixes = join_strings(&domain.input_prefixes, ',');
    let ghost t = views(domain.command_template@);
    let ghost ps = views(domain.input_prefixes@);
    let mut rendered: Vec<String> = Vec::new();
    let mut i: usize = 0;
    assert(views(rendered@) =~= render_template(t.take(0), *domain));
    while i < domain.command_template.len()
        invariant
            t == views(domain.command_template@),
            ps == views(domain.input_prefixes@),
            prefixes@ == prefixes_text(*domain),
            i <= domain.command_template.len(),
            views(rendered@) == render_template(t.take(i as int), *domain),
        decreases domain.command_template.len() - i,
    {
        let part = domain.command_template[i].as_str();
        assert(t.take(i + 1).drop_last() =~= t.take(i as int));
        assert(t.take(i + 1).last() == part@);
        if str_eq(part, REPEAT_INPUT_PREFIXES) {
            let ghost base = views(rendered@);
            let mut j: usize = 0;
            assert(ps.take(0) =~= Seq::<Seq<char>>::empty());
            assert(base + prefix_args(ps.take(0)) =~= base);
            while j < domain.input_prefixes.len()
                invariant
                    ps == views(domain.input_prefixes@),
                    j <= domain.input_prefixes.len(),
                    views(rendered@) == base + prefix_args(ps.take(j as int)),
                decreases domain.input_prefixes.len() - j,
            {
                assert(ps.take(j + 1).drop_last() =~= ps.take(j as int));
                assert(ps.take(j + 1).last() == ps[j as int]);
                let ghost before = views(rendered@);
                let flag = "--replay-input-prefix".to_owned();
                let p = domain.input_prefixes[j].clone();
                assert(p@ == ps[j as int]);
                rendered.push(flag);
                rendered.push(p);
                assert(views(rendered@) =~= before.push("--replay-input-prefix"@).push(ps[j as int]));
                assert(prefix_args(ps.take(j + 1)) == prefix_args(ps.take(j as int)).push(
                    "--replay-input-prefix"@,
                ).push(ps[j as int]));
                assert(views(rendered@) =~= base + prefix_args(ps.take(j + 1)));
                j = j + 1;
            }
            assert(ps.take(domain.input_prefixes.len() as int) =~= ps);
        } else {
            let s = substitute_part(part, domain, prefixes.as_str());
            let ghost base = views(rendered@);
            rendered.push(s);
            assert(views(rendered@) =~= base + seq![substitute(part@, *domain)]);
        }
        i = i + 1;
    }
    assert(t.take(domain.command_template.len() as int) =~= t);
    rendered
}

/// The command that run `supervisor_run_id` issues for `domain`.
pub fn build_workflow_command(
    supervisor_run_id: &str,
    domain: &DomainRuntimeSpec,
    changed_triggers: &Vec<String>,
    estimated_input_keys: usize,
    issued_at_ms: i64,
) -> (r: WorkflowCommand)
    requires
        is_sorted_set(changed_triggers@),
    ensures
        is_command_for(
            r,
            supervisor_run_id@,
            *domain,
            views(changed_triggers@),
            estimated_input_keys,
            issued_at_ms,
        ),
{
    let target_scope = join_strings(&domain.input_prefixes, ',');
    let reason = join_strings(changed_triggers, ',');
    let parts = [
        supervisor_run_id,
        domain.domain_id.as_str(),
        domain.target_app.as_str(),
        domain.target_mode.as_str(),
        target_scope.as_str(),
    ];
    let workflow_command_id = stable_id("workflow_cmd", &parts);
    assert(str_views(parts@) =~= seq![
        supervisor_run_id@,
        domain.domain_id@,
        domain.target_app@,
        domain.target_mode@,
        prefixes_text(*domain),
    ]);
    let id_parts = [workflow_command_id.as_str()];
    let idempotency_key = stable_id("workflow_cmd_idem", &id_parts);
    assert(str_views(id_parts@) =~= seq![workflow_command_id_of(supervisor_run_id@, *domain)]);
    let mut input_prefixes: Vec<String> = Vec::new();
    let mut k: usize = 0;
    while k < domain.input_prefixes.len()
        invariant
            k <= domain.input_prefixes.len(),
            views(input_prefixes@) == views(domain.input_prefixes@).take(k as int),
        decreases domain.input_prefixes.len() - k,
    {
        let ghost before = views(input_prefixes@);
        let p = domain.input_prefixes[k].clone();
        assert(p@ == views(domain.input_prefixes@)[k as int]);
        input_prefixes.push(p);
        assert(views(input_prefixes@) =~= before.push(p@));
        assert(views(input_prefixes@) =~= views(domain.input_prefixes@).take(k + 1));
        k = k + 1;
    }
    assert(views(domain.input_prefixes@).take(domain.input_prefixes.len() as int) =~= views(
        domain.input_prefixes@,
    ));
    WorkflowCommand {
        schema_version: COMMAND_SCHEMA_VERSION.to_owned(),
        workflow_command_id,
        workflow_type: "healing_action".to_owned(),
        target_app: domain.target_app.clone(),
        target_scope,
        target_mode: domain.target_mode.clone(),
        reason,
        source_run_record_id: supervisor_run_id.to_owned(),
        issued_at_ms,
        idempotency_key,
        domain_id: domain.domain_id.clone(),
        input_bucket: domain.input_bucket.clone(),
        input_prefixes,
        estimated_input_keys,
        command: render_command_template(domain),
    }
}

proof fn lemma_replace_absent(s: Seq<char>, pat: Seq<char>, rep: Seq<char>)
    requires
        pat.len() > 0,
        forall|i: int| !occurs_at(s, pat, i),
    ensures
        replace_all(s, pat, rep) == s,
    decreases s.len(),
{
    if s.len() > 0 {
        let t = s.drop_first();
        assert forall|i: int| !occurs_at(t, pat, i) by {
            if occurs_at(t, pat, i) {
                assert(t.subrange(i, i + pat.len()) =~= s.subrange(i + 1, i + 1 + pat.len()));
                assert(occurs_at(s, pat, i + 1));
            }
        }
        lemma_replace_absent(t, pat, rep);
        assert(seq![s[0]] + t =~= s);
    }
}

proof fn lemma_no_brace_no_occurrence(s: Seq<char>, pat: Seq<char>)
    requires
        pat.len() > 0,
        pat[0] == '{',
        forall|j: int| 0 <= j < s.len() ==> s[j] != '{',
    ensures
        forall|i: int| !occurs_at(s, pat, i),
{
    assert forall|i: int| !occurs_at(s, pat, i) by {
        if occurs_at(s, pat, i) {
            assert(s.subrange(i, i + pat.len())[0] == s[i]);
        }
    }
}

proof fn lemma_plain_part_unchanged(p: Seq<char>, d: DomainRuntimeSpec)
    requires
        forall|j: int| 0 <= j < p.len() ==> p[j] != '{',
    ensures
        render_part(p, d) == seq![p],
{
    reveal_strlit("{input_bucket}");
    reveal_strlit("{output_bucket}");
    reveal_strlit("{input_prefixes}");
    reveal_strlit("{output_report_prefix}");
    reveal_strlit("{repeat_input_prefixes}");
    lemma_no_brace_no_occurrence(p, "{input_bucket}"@);
    lemma_replace_absent(p, "{input_bucket}"@, d.input_bucket@);
    lemma_no_brace_no_occurrence(p, "{output_bucket}"@);
    lemma_replace_absent(p, "{output_bucket}"@, d.output_bucket@);
    lemma_no_brace_no_occurrence(p, "{input_prefixes}"@);
    lemma_replace_absent(p, "{input_prefixes}"@, prefixes_text(d));
    lemma_no_brace_no_occurrence(p, "{output_report_prefix}"@);
    lemma_replace_absent(p, "{output_report_prefix}"@, d.output_report_prefix@);
    if p == REPEAT_INPUT_PREFIXES@ {
        assert(p[0] == '{');
    }
}

/// A command template whose parts hold no `{` renders to itself, part for part.
pub proof fn lemma_plain_template_renders_verbatim(t: Seq<Seq<char>>, d: DomainRuntimeSpec)
    requires
        forall|i: int, j: int| 0 <= i < t.len() && 0 <= j < t[i].len() ==> t[i][j] != '{',
    ensures
        render_template(t, d) == t,
    decreases t.len(),
{
    if t.len() > 0 {
        lemma_plain_template_renders_verbatim(t.drop_last(), d);
        lemma_plain_part_unchanged(t.last(), d);
        assert(t.drop_last() + seq![t.last()] =~= t);
    }
}

/// `{repeat_input_prefixes}` expands to two arguments per input prefix.
pub proof fn lemma_repeat_expands_to_pairs(ps: Seq<Seq<char>>)
    ensures
        prefix_args(ps).len() == 2 * ps.len(),
        forall|k: int|
            0 <= k < ps.len() ==> #[trigger] prefix_args(ps)[2 * k] == "--replay-input-prefix"@
                && prefix_args(ps)[2 * k + 1] == ps[k],
    decreases ps.len(),
{
    if ps.len() > 0 {
        lemma_repeat_expands_to_pairs(ps.drop_last());
        assert forall|k: int| 0 <= k < ps.len() implies #[trigger] prefix_args(ps)[2 * k]
            == "--replay-input-prefix"@ && prefix_args(ps)[2 * k + 1] == ps[k] by {
            if k < ps.len() - 1 {
                assert(prefix_args(ps.drop_last())[2 * k] == "--replay-input-prefix"@);
                assert(ps.drop_last()[k] == ps[k]);
            }
        }
    }
}

/// Two commands that hold the same values in every field.
pub open spec fn same_command(a: WorkflowCommand, b: WorkflowCommand) -> bool {
    &&& a.schema_version@ == b.schema_version@
    &&& a.workflow_command_id@ == b.workflow_command_id@
    &&& a.workflow_type@ == b.workflow_type@
    &&& a.target_app@ == b.target_app@
    &&& a.target_scope@ == b.target_scope@
    &&& a.target_mode@ == b.target_mode@
    &&& a.reason@ == b.reason@
    &&& a.source_run_record_id@ == b.source_run_record_id@
    &&& a.issued_at_ms == b.issued_at_ms
    &&& a.idempotency_key@ == b.idempotency_key@
    &&& a.domain_id@ == b.domain_id@
    &&& a.input_bucket@ == b.input_bucket@
    &&& views(a.input_prefixes@) == views(b.input_prefixes@)
    &&& a.estimated_input_keys == b.estimated_input_keys
    &&& views(a.command@) == views(b.command@)
}

/// The run, the domain, the triggers, the estimate and the time fix every field of the
/// command: two commands made from the same values are the same command.
pub proof fn lemma_command_determined(
    a: WorkflowCommand,
    b: WorkflowCommand,
    supervisor_run_id: Seq<char>,
    d: DomainRuntimeSpec,
    triggers: Seq<Seq<char>>,
    estimated: usize,
    issued_at_ms: i64,
)
    requires
        is_command_for(a, supervisor_run_id, d, triggers, estimated, issued_at_ms),
        is_command_for(b, supervisor_run_id, d, triggers, estimated, issued_at_ms),
    ensures
        same_command(a, b),
{
}

/// The reason of a command names every changed trigger, and is exactly the trigger when
/// one changed.
pub proof fn lemma_command_reason_names_triggers(
    c: WorkflowCommand,
    supervisor_run_id: Seq<char>,
    d: DomainRuntimeSpec,
    triggers: Seq<Seq<char>>,
    estimated: usize,
    issued_at_ms: i64,
)
    requires
        is_command_for(c, supervisor_run_id, d, triggers, estimated, issued_at_ms),
    ensures
        forall|k: int| 0 <= k < triggers.len() ==> contains_text(c.reason@, #[trigger] triggers[k]),
        triggers.len() == 1 ==> c.reason@ == triggers[0],
{
    assert forall|k: int| 0 <= k < triggers.len() implies contains_text(
        c.reason@,
        #[trigger] triggers[k],
    ) by {
        let i = join_offset(triggers, seq![','], k);
        assert(c.reason@.subrange(i, i + triggers[k].len()) == triggers[k]);
    }
}

/// A command is identified by its run and its domain: commands for the same run and
/// domain have the same identifier and idempotency key whatever the triggers, estimate
/// and time, and they carry the domain's identity, target and inputs.
pub proof fn lemma_command_identity(
    c1: WorkflowCommand,
    c2: WorkflowCommand,
    supervisor_run_id: Seq<char>,
    d: DomainRuntimeSpec,
    triggers1: Seq<Seq<char>>,
    triggers2: Seq<Seq<char>>,
    estimated1: usize,
    estimated2: usize,
    issued_at1: i64,
    issued_at2: i64,
)
    requires
        is_command_for(c1, supervisor_run_id, d, triggers1, estimated1, issued_at1),
        is_command_for(c2, supervisor_run_id, d, triggers2, estimated2, issued_at2),
    ensures
        c1.workflow_command_id@ == c2.workflow_command_id@,
        c1.idempotency_key@ == c2.idempotency_key@,
        c1.domain_id@ == d.domain_id@,
        c1.target_app@ == d.target_app@,
        c1.target_mode@ == d.target_mode@,
        c1.input_bucket@ == d.input_bucket@,
        views(c1.input_prefixes@) == views(d.input_prefixes@),
        c1.source_run_record_id@ == supervisor_run_id,
        c1.estimated_input_keys == estimated1,
        c1.issued_at_ms == issued_at1,
{
}

} // verus!
