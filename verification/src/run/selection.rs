//! Which domains a run replays, and the commands it issues for them.
use crate::order::{is_sorted_set, string_set};
use crate::planning::command::{
    build_workflow_command, domain_matches_triggers, is_command_for, lemma_command_determined,
    matches_triggers, same_command, FORCE_ALL,
};
use crate::text::views;
use crate::types::{DomainReplayManifest, DomainRuntimeSpec, SkippedDomain, WorkflowCommand};
use vstd::prelude::*;
use vstd::string::*;

verus! {

/// The outcome of selecting domains.
pub struct DomainSelection {
    pub skipped_domains: Vec<SkippedDomain>,
    pub workflow_commands: Vec<WorkflowCommand>,
    pub input_keys_estimated: usize,
}

/// Whether the changed triggers select a domain.
pub open spec fn selected(d: DomainRuntimeSpec, changed: Set<Seq<char>>) -> bool {
    matches_triggers(views(d.replay_triggers@).to_set(), changed)
}

/// The domains that the changed triggers select, in order.
pub open spec fn selected_domains(ds: Seq<DomainRuntimeSpec>, changed: Set<Seq<char>>) -> Seq<
    DomainRuntimeSpec,
>
    decreases ds.len(),
{
    if ds.len() == 0 {
        Seq::empty()
    } else if selected(ds.last(), changed) {
        selected_domains(ds.drop_last(), changed).push(ds.last())
    } else {
        selected_domains(ds.drop_last(), changed)
    }
}

/// The domains that the changed triggers do not select, in order.
pub open spec fn skipped_domains(ds: Seq<DomainRuntimeSpec>, changed: Set<Seq<char>>) -> Seq<
    DomainRuntimeSpec,
>
    decreases ds.len(),
{
    if ds.len() == 0 {
        Seq::empty()
    } else if selected(ds.last(), changed) {
        skipped_domains(ds.drop_last(), changed)
    } else {
        skipped_domains(ds.drop_last(), changed).push(ds.last())
    }
}

/// The sum of the estimates.
pub open spec fn total(s: Seq<usize>) -> int
    decreases s.len(),
{
    if s.len() == 0 {
        0
    } else {
        total(s.drop_last()) + s.last()
    }
}

/// `sel` is what selecting the domains of `ds` gives: a command for each selected domain,
/// in order, with its estimate, and each other domain skipped as `trigger_not_matched`.
pub open spec fn is_selection_for(
    sel: DomainSelection,
    ds: Seq<DomainRuntimeSpec>,
    changed_triggers: Seq<Seq<char>>,
    supervisor_run_id: Seq<char>,
    created_at_ms: i64,
    estimates: Seq<usize>,
) -> bool {
    let chosen = selected_domains(ds, changed_triggers.to_set());
    let skipped = skipped_domains(ds, changed_triggers.to_set());
    &&& sel.workflow_commands@.len() == chosen.len()
    &&& forall|k: int|
        0 <= k < chosen.len() ==> is_command_for(
            #[trigger] sel.workflow_commands@[k],
            supervisor_run_id,
            chosen[k],
            changed_triggers,
            estimates[k],
            created_at_ms,
        )
    &&& sel.skipped_domains@.len() == skipped.len()
    &&& forall|k: int|
        0 <= k < skipped.len() ==> (#[trigger] sel.skipped_domains@[k]).domain_id@
            == skipped[k].domain_id@ && sel.skipped_domains@[k].reason@ == "trigger_not_matched"@
    &&& sel.input_keys_estimated == total(estimates)
}

proof fn lemma_total_prefix(s: Seq<usize>, j: int)
    requires
        0 <= j < s.len(),
    ensures
        total(s.take(j + 1)) == total(s.take(j)) + s[j],
{
    assert(s.take(j + 1).drop_last() =~= s.take(j));
}

proof fn lemma_total_monotone(s: Seq<usize>, j: int)
    requires
        0 <= j <= s.len(),
    ensures
        0 <= total(s.take(j)) <= total(s),
    decreases s.len() - j,
{
    if j < s.len() {
        lemma_total_prefix(s, j);
        lemma_total_monotone(s, j + 1);
    } else {
        assert(s.take(j) =~= s);
    }
    if j == 0 {
        assert(s.take(0) =~= Seq::<usize>::empty());
    } else {
        lemma_total_nonneg(s.take(j));
    }
}

proof fn lemma_total_nonneg(s: Seq<usize>)
    ensures
        total(s) >= 0,
    decreases s.len(),
{
    if s.len() > 0 {
        lemma_total_nonneg(s.drop_last());
    }
}

/// A command for each domain that the changed triggers select, with the estimate of its
/// input keys, and a skipped entry for each other domain. `estimates` holds one estimate
/// per selected domain, in order.
pub fn select_domains(
    manifest: &DomainReplayManifest,
    changed_triggers: &Vec<String>,
    supervisor_run_id: &str,
    created_at_ms: i64,
    estimates: &Vec<usize>,
) -> (r: DomainSelection)
    requires
        is_sorted_set(changed_triggers@),
        estimates@.len() == selected_domains(manifest.domains@, string_set(changed_triggers@)).len(),
        total(estimates@) <= usize::MAX,
    ensures
        is_selection_for(
            r,
            manifest.domains@,
            views(changed_triggers@),
            supervisor_run_id@,
            created_at_ms,
            estimates@,
        ),
{
    let ghost ds = manifest.domains@;
    let ghost changed = string_set(changed_triggers@);
    let mut skipped: Vec<SkippedDomain> = Vec::new();
    let mut commands: Vec<WorkflowCommand> = Vec::new();
    let mut input_keys_estimated: usize = 0;
    let mut i: usize = 0;
    assert(ds.take(0) =~= Seq::<DomainRuntimeSpec>::empty());
    assert(estimates@.take(0) =~= Seq::<usize>::empty());
    while i < manifest.domains.len()
        invariant
            ds == manifest.domains@,
            is_sorted_set(changed_triggers@),
            changed == string_set(changed_triggers@),
            changed == views(changed_triggers@).to_set(),
            estimates@.len() == selected_domains(ds, changed).len(),
            total(estimates@) <= usize::MAX,
            i <= ds.len(),
            commands@.len() == selected_domains(ds.take(i as int), changed).len(),
            commands@.len() <= estimates@.len(),
            forall|k: int|
                0 <= k < commands@.len() ==> is_command_for(
                    #[trigger] commands@[k],
                    supervisor_run_id@,
                    selected_domains(ds.take(i as int), changed)[k],
                    views(changed_triggers@),
                    estimates@[k],
                    created_at_ms,
                ),
            skipped@.len() == skipped_domains(ds.take(i as int), changed).len(),
            forall|k: int|
                0 <= k < skipped@.len() ==> (#[trigger] skipped@[k]).domain_id@ == skipped_domains(
                    ds.take(i as int),
                    changed,
                )[k].domain_id@ && skipped@[k].reason@ == "trigger_not_matched"@,
            input_keys_estimated == total(estimates@.take(commands@.len() as int)),
        decreases ds.len() - i,
    {
        let domain = &manifest.domains[i];
        assert(ds.take(i + 1).drop_last() =~= ds.take(i as int));
        assert(ds.take(i + 1).last() == *domain);
        proof {
            lemma_selected_prefix_bound(ds, changed, i as int);
        }
        if !domain_matches_triggers(domain, changed_triggers) {
            let ghost before = skipped@;
            skipped.push(
                SkippedDomain {
                    domain_id: domain.domain_id.clone(),
                    reason: "trigger_not_matched".to_owned(),
                },
            );
            assert forall|k: int| 0 <= k < skipped@.len() implies (#[trigger] skipped@[k]).domain_id@
                == skipped_domains(ds.take(i + 1), changed)[k].domain_id@ && skipped@[k].reason@
                == "trigger_not_matched"@ by {
                if k < before.len() {
                    assert(skipped@[k] == before[k]);
                }
            }
        } else {
            let n = commands.len();
            let estimate = estimates[n];
            proof {
                lemma_total_prefix(estimates@, n as int);
                lemma_total_monotone(estimates@, n + 1);
            }
            input_keys_estimated = input_keys_estimated + estimate;
            let command = build_workflow_command(
                supervisor_run_id,
                domain,
                changed_triggers,
                estimate,
                created_at_ms,
            );
            let ghost before = commands@;
            commands.push(command);
            assert forall|k: int| 0 <= k < commands@.len() implies is_command_for(
                #[trigger] commands@[k],
                supervisor_run_id@,
                selected_domains(ds.take(i + 1), changed)[k],
                views(changed_triggers@),
                estimates@[k],
                created_at_ms,
            ) by {
                if k < before.len() {
                    assert(commands@[k] == before[k]);
                }
            }
        }
        i = i + 1;
    }
    assert(ds.take(ds.len() as int) =~= ds);
    assert(estimates@.take(commands@.len() as int) =~= estimates@);
    DomainSelection { skipped_domains: skipped, workflow_commands: commands, input_keys_estimated }
}

proof fn lemma_selected_prefix_bound(ds: Seq<DomainRuntimeSpec>, changed: Set<Seq<char>>, i: int)
    requires
        0 <= i < ds.len(),
    ensures
        selected(ds[i], changed) ==> selected_domains(ds.take(i), changed).len() < selected_domains(
            ds,
            changed,
        ).len(),
        selected_domains(ds.take(i), changed).len() <= selected_domains(ds, changed).len(),
{
    lemma_selected_len_monotone(ds, changed, i + 1);
    assert(ds.take(i + 1).drop_last() =~= ds.take(i));
    assert(ds.take(i + 1).last() == ds[i]);
}

proof fn lemma_selected_len_monotone(ds: Seq<DomainRuntimeSpec>, changed: Set<Seq<char>>, j: int)
    requires
        0 <= j <= ds.len(),
    ensures
        selected_domains(ds.take(j), changed).len() <= selected_domains(ds, changed).len(),
    decreases ds.len() - j,
{
    if j < ds.len() {
        lemma_selected_len_monotone(ds, changed, j + 1);
        assert(ds.take(j + 1).drop_last() =~= ds.take(j));
        assert(ds.take(j + 1).last() == ds[j]);
    } else {
        assert(ds.take(j) =~= ds);
    }
}

/// Every domain is either selected or skipped, exactly once.
pub proof fn lemma_selection_partitions_domains(ds: Seq<DomainRuntimeSpec>, changed: Set<Seq<char>>)
    ensures
        selected_domains(ds, changed).len() + skipped_domains(ds, changed).len() == ds.len(),
    decreases ds.len(),
{
    if ds.len() > 0 {
        lemma_selection_partitions_domains(ds.drop_last(), changed);
    }
}

/// With `force_all` among the changed triggers every domain is selected, in order, and none
/// is skipped.
pub proof fn lemma_force_all_selects_every_domain(ds: Seq<DomainRuntimeSpec>, changed: Set<Seq<char>>)
    requires
        changed.contains(FORCE_ALL@),
    ensures
        selected_domains(ds, changed) == ds,
        skipped_domains(ds, changed).len() == 0,
    decreases ds.len(),
{
    if ds.len() > 0 {
        lemma_force_all_selects_every_domain(ds.drop_last(), changed);
        assert(ds.drop_last().push(ds.last()) =~= ds);
    }
}

/// A domain is skipped exactly when no changed trigger selects it.
pub proof fn lemma_skipped_domains_unmatched(ds: Seq<DomainRuntimeSpec>, changed: Set<Seq<char>>)
    ensures
        forall|k: int|
            0 <= k < skipped_domains(ds, changed).len() ==> !selected(
                #[trigger] skipped_domains(ds, changed)[k],
                changed,
            ),
        forall|k: int|
            0 <= k < selected_domains(ds, changed).len() ==> selected(
                #[trigger] selected_domains(ds, changed)[k],
                changed,
            ),
    decreases ds.len(),
{
    if ds.len() > 0 {
        lemma_skipped_domains_unmatched(ds.drop_last(), changed);
        let s0 = skipped_domains(ds.drop_last(), changed);
        let c0 = selected_domains(ds.drop_last(), changed);
        assert forall|k: int| 0 <= k < skipped_domains(ds, changed).len() implies !selected(
            #[trigger] skipped_domains(ds, changed)[k],
            changed,
        ) by {
            if k < s0.len() {
                assert(skipped_domains(ds, changed)[k] == s0[k]);
            }
        }
        assert forall|k: int| 0 <= k < selected_domains(ds, changed).len() implies selected(
            #[trigger] selected_domains(ds, changed)[k],
            changed,
        ) by {
            if k < c0.len() {
                assert(selected_domains(ds, changed)[k] == c0[k]);
            }
        }
    }
}

/// In a selection, the command at each position is the command built for the selected
/// domain at that position with its estimate; the skipped entries name the other domains,
/// in order, as `trigger_not_matched`.
pub proof fn lemma_selection_commands_are_built(
    sel: DomainSelection,
    ds: Seq<DomainRuntimeSpec>,
    changed_triggers: Seq<Seq<char>>,
    supervisor_run_id: Seq<char>,
    created_at_ms: i64,
    estimates: Seq<usize>,
    k: int,
    c: WorkflowCommand,
)
    requires
        is_selection_for(sel, ds, changed_triggers, supervisor_run_id, created_at_ms, estimates),
        0 <= k < selected_domains(ds, changed_triggers.to_set()).len(),
        is_command_for(
            c,
            supervisor_run_id,
            selected_domains(ds, changed_triggers.to_set())[k],
            changed_triggers,
            estimates[k],
            created_at_ms,
        ),
    ensures
        same_command(sel.workflow_commands@[k], c),
{
    let d = selected_domains(ds, changed_triggers.to_set())[k];
    assert(is_command_for(
        sel.workflow_commands@[k],
        supervisor_run_id,
        d,
        changed_triggers,
        estimates[k],
        created_at_ms,
    ));
    lemma_command_determined(
        sel.workflow_commands@[k],
        c,
        supervisor_run_id,
        d,
        changed_triggers,
        estimates[k],
        created_at_ms,
    );
}

/// With `force_all` among the changed triggers a selection replays every domain of the
/// manifest, in order, and skips none.
pub proof fn lemma_force_all_selection_replays_every_domain(
    sel: DomainSelection,
    ds: Seq<DomainRuntimeSpec>,
    changed_triggers: Seq<Seq<char>>,
    supervisor_run_id: Seq<char>,
    created_at_ms: i64,
    estimates: Seq<usize>,
)
    requires
        is_selection_for(sel, ds, changed_triggers, supervisor_run_id, created_at_ms, estimates),
        changed_triggers.contains(FORCE_ALL@),
    ensures
        sel.skipped_domains@.len() == 0,
        sel.workflow_commands@.len() == ds.len(),
        forall|k: int|
            0 <= k < ds.len() ==> (#[trigger] sel.workflow_commands@[k]).domain_id@ == ds[k].domain_id@,
{
    let changed = changed_triggers.to_set();
    let i = choose|i: int| 0 <= i < changed_triggers.len() && changed_triggers[i] == FORCE_ALL@;
    assert(changed.contains(changed_triggers[i]));
    lemma_force_all_selects_every_domain(ds, changed);
    assert forall|k: int| 0 <= k < ds.len() implies (
    #[trigger] sel.workflow_commands@[k]).domain_id@ == ds[k].domain_id@ by {
        assert(is_command_for(
            sel.workflow_commands@[k],
            supervisor_run_id,
            selected_domains(ds, changed)[k],
            changed_triggers,
            estimates[k],
            created_at_ms,
        ));
    }
}

} // verus!
