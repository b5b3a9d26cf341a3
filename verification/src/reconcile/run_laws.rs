//! What holds of every reconcile pass, whatever it is answered.
use crate::config::ConfigView;
use crate::error::GuardianError;
use crate::k8s::{removal_patch, ApplyPatchView, Deployment, FIELD_MANAGER};
use crate::reconcile::actions::{ActionView, NoteView, Reply};
use crate::reconcile::check::{
    check_start, check_step, CheckPhaseView, CheckStepView, CheckView,
};
use crate::reconcile::repair::{
    patch_conf, patch_script, repair_step, RepairPhase, RepairStepView, NEUTRON_BIN_CONFIGMAP_NAME,
    NEUTRON_ETC_SECRET_NAME,
};
use crate::reconcile::revert::{conf_without_all, revert_step, RevertPhaseView, RevertStepView};
use crate::reconcile::run::{advance, fits, none_present, run_step, tended, RunView, StepView};
use crate::reconcile::server_script::script_without_flag;
use crate::reconcile::state::{
    backs_off, bounded, bumped, failures_of, lemma_bumping, lemma_forgetting, Memory,
};
use vstd::prelude::*;

verus! {

/// Where a pass stands after its first step and then these answers, each with the time at which it
/// came.
pub open spec fn pass(
    cfg: ConfigView,
    namespace: Seq<char>,
    memory: Memory,
    answers: Seq<(u64, Reply)>,
) -> StepView
    decreases answers.len(),
{
    if answers.len() == 0 {
        run_step(cfg, namespace, memory, 0, RunView::Start, Reply::Begin)
    } else {
        let before = pass(cfg, namespace, memory, answers.drop_last());
        run_step(
            cfg,
            namespace,
            before.memory,
            answers.last().0,
            before.run,
            answers.last().1,
        )
    }
}

/// The driver that a pass looks at, by its place in the list.
pub open spec fn current(run: RunView) -> Option<int> {
    match run {
        RunView::Checking { index, .. } => Some(index),
        RunView::Describing { index, .. } => Some(index),
        RunView::Repairing { index, .. } => Some(index),
        RunView::Refetching { index, .. } => Some(index),
        RunView::Rechecking { index, .. } => Some(index),
        RunView::Updating { index, .. } => Some(index),
        _ => None,
    }
}

/// Whether a note is one of a driver that is passed over.
pub open spec fn is_passing_note(note: NoteView) -> bool {
    note is BackingOff || note is Present
}

/// Where the way through the list leads: to the end, or to the first step of the next driver that is
/// not left alone.
pub proof fn lemma_advance(
    cfg: ConfigView,
    memory: Memory,
    deployment: Deployment,
    index: int,
    notes: Seq<NoteView>,
)
    requires
        bounded(memory),
        0 <= index <= cfg.drivers.len(),
    ensures
        ({
            let s = advance(cfg, memory, deployment, index, notes);
            &&& s.memory == memory
            &&& fits(cfg, memory, s.run)
            &&& !s.action.mutates()
            &&& s.run is Done <==> s.action is Finish
            &&& s.notes.len() >= notes.len()
            &&& s.notes.take(notes.len() as int) == notes
            &&& forall|n: int|
                notes.len() <= n < s.notes.len() ==> is_passing_note(#[trigger] s.notes[n])
            &&& match s.run {
                RunView::Done => s.action == ActionView::Finish(Ok(())),
                RunView::Checking { deployment: d, index: i, phase } => d == deployment && i
                    >= index && deployment.injected() && phase == CheckPhaseView::ListingPods,
                RunView::Describing { deployment: d, index: i } => d == deployment && i >= index
                    && !deployment.injected() && cfg.dry_run,
                RunView::Repairing { deployment: d, index: i, phase } => d == deployment && i
                    >= index && !deployment.injected() && !cfg.dry_run && phase
                    == RepairPhase::ReadingConf,
                _ => false,
            }
        }),
    decreases cfg.drivers.len() - index,
{
    let s = advance(cfg, memory, deployment, index, notes);
    if index < cfg.drivers.len() {
        let name = cfg.drivers[index].name;
        if backs_off(memory, name) {
            let more = notes.push(NoteView::BackingOff(name)).push(
                NoteView::Present { driver: name, present: false },
            );
            lemma_advance(cfg, memory, deployment, index + 1, more);
            assert(s.notes.take(notes.len() as int) =~= s.notes.take(more.len() as int).take(
                notes.len() as int,
            ));
            assert(more.take(notes.len() as int) =~= notes);
            assert forall|n: int| notes.len() <= n < s.notes.len() implies is_passing_note(
                #[trigger] s.notes[n],
            ) by {
                if n < more.len() {
                    assert(s.notes.take(more.len() as int)[n] == more[n]);
                }
            }
        } else {
            assert(s.notes.take(notes.len() as int) =~= notes);
        }
    } else {
        assert(s.notes.take(notes.len() as int) =~= notes);
    }
}

/// Whether a pass does only what a dry run does, or only what another run does.
pub open spec fn keeps_mode(cfg: ConfigView, run: RunView) -> bool {
    match run {
        RunView::Reverting { .. } => cfg.dry_run,
        RunView::Describing { .. } => cfg.dry_run,
        RunView::Repairing { .. } => !cfg.dry_run,
        RunView::Refetching { .. } => !cfg.dry_run,
        RunView::Rechecking { .. } => !cfg.dry_run,
        RunView::Updating { .. } => !cfg.dry_run,
        _ => true,
    }
}

/// How much of a check is left.
pub open spec fn check_left(phase: CheckPhaseView) -> nat {
    match phase {
        CheckPhaseView::ListingPods => 2,
        CheckPhaseView::ReadingConf(_) => 1,
        CheckPhaseView::Importing => 0,
    }
}

/// How much of a repair is left.
pub open spec fn repair_left(phase: RepairPhase) -> nat {
    match phase {
        RepairPhase::ReadingConf => 7,
        RepairPhase::PatchingConf => 6,
        RepairPhase::ReadingScript => 5,
        RepairPhase::PatchingScript => 4,
        RepairPhase::WritingSecret => 3,
        RepairPhase::Refreshing => 2,
        RepairPhase::GettingDeployment => 1,
        RepairPhase::PatchingDeployment => 0,
    }
}

/// How much of a taking out is left.
pub open spec fn revert_left(phase: RevertPhaseView) -> nat {
    match phase {
        RevertPhaseView::ReadingConf => 4,
        RevertPhaseView::ReadingScript { .. } => 3,
        RevertPhaseView::PatchingConf(_) => 2,
        RevertPhaseView::PatchingScript => 1,
        RevertPhaseView::PatchingDeployment => 0,
    }
}

/// A bound on how many answers a pass still takes.
pub open spec fn left(cfg: ConfigView, run: RunView) -> int {
    let n = cfg.drivers.len() as int;
    match run {
        RunView::Start => 20 * n + 8,
        RunView::GettingDeployment => 20 * n + 7,
        RunView::Reverting { phase, .. } => 20 * n + 2 + revert_left(phase),
        RunView::Checking { index, phase, .. } => 20 * (n - index) - 2 + check_left(phase),
        RunView::Describing { index, .. } => 20 * (n - index) - 4,
        RunView::Updating { index, .. } => 20 * (n - index) - 4,
        RunView::Repairing { index, phase, .. } => 20 * (n - index) - 12 + repair_left(phase),
        RunView::Refetching { index, .. } => 20 * (n - index) - 13,
        RunView::Rechecking { index, phase, .. } => 20 * (n - index) - 16 + check_left(phase),
        RunView::Done => 0,
    }
}

/// What one step of a pass keeps, whatever the answer.
proof fn lemma_step(
    cfg: ConfigView,
    namespace: Seq<char>,
    memory: Memory,
    now_secs: u64,
    run: RunView,
    reply: Reply,
)
    requires
        fits(cfg, memory, run),
        keeps_mode(cfg, run),
    ensures
        ({
            let s = run_step(cfg, namespace, memory, now_secs, run, reply);
            &&& fits(cfg, s.memory, s.run)
            &&& keeps_mode(cfg, s.run)
            &&& s.action.mutates() ==> s.run is Repairing || s.run is Reverting || s.run is Updating
            &&& run !is Done ==> left(cfg, s.run) < left(cfg, run)
            &&& s.run is Done <==> s.action is Finish
            &&& forall|d: Seq<char>|
                (current(run) matches Some(i) ==> d != cfg.drivers[i].name) ==> #[trigger] failures_of(
                    s.memory,
                    d,
                ) == failures_of(memory, d)
        }),
{
    match current(run) {
        Some(i) => {
            let name = cfg.drivers[i].name;
            lemma_forgetting(memory, name);
            lemma_bumping(memory, name);
            assert forall|f: Memory, d: Deployment, notes: Seq<NoteView>|
                bounded(f) implies {
                let s = #[trigger] advance(cfg, f, d, i + 1, notes);
                &&& s.memory == f
                &&& fits(cfg, f, s.run)
                &&& keeps_mode(cfg, s.run)
                &&& !s.action.mutates()
                &&& s.run is Done <==> s.action is Finish
                &&& left(cfg, s.run) <= 20 * (cfg.drivers.len() - (i + 1))
            } by {
                lemma_advance(cfg, f, d, i + 1, notes);
            }
        },
        None => {
            assert forall|d: Deployment, notes: Seq<NoteView>| ({
                let s = #[trigger] advance(cfg, memory, d, 0, notes);
                &&& s.memory == memory
                &&& fits(cfg, memory, s.run)
                &&& keeps_mode(cfg, s.run)
                &&& !s.action.mutates()
                &&& s.run is Done <==> s.action is Finish
                &&& left(cfg, s.run) <= 20 * cfg.drivers.len()
            }) by {
                lemma_advance(cfg, memory, d, 0, notes);
            }
        },
    }
}

/// In every pass each recorded number of failed repairs is at least one and no more than it takes to
/// be left alone, a driver that is left alone is not looked at, and a dry run and another run each do
/// only what is theirs.
pub proof fn law_a_pass_fits(
    cfg: ConfigView,
    namespace: Seq<char>,
    memory: Memory,
    answers: Seq<(u64, Reply)>,
)
    requires
        bounded(memory),
    ensures
        fits(cfg, pass(cfg, namespace, memory, answers).memory, pass(
            cfg,
            namespace,
            memory,
            answers,
        ).run),
        keeps_mode(cfg, pass(cfg, namespace, memory, answers).run),
    decreases answers.len(),
{
    if answers.len() > 0 {
        law_a_pass_fits(cfg, namespace, memory, answers.drop_last());
        let before = pass(cfg, namespace, memory, answers.drop_last());
        lemma_step(
            cfg,
            namespace,
            before.memory,
            answers.last().0,
            before.run,
            answers.last().1,
        );
    }
}

/// A pass asks for a change in the cluster only while it repairs an absent driver or refreshes
/// outdated wheels or, in a dry run, while it takes out what was installed earlier.
pub proof fn law_changes_belong_to_repairs(
    cfg: ConfigView,
    namespace: Seq<char>,
    memory: Memory,
    answers: Seq<(u64, Reply)>,
)
    requires
        bounded(memory),
        pass(cfg, namespace, memory, answers).action.mutates(),
    ensures
        if cfg.dry_run {
            pass(cfg, namespace, memory, answers).run is Reverting
        } else {
            pass(cfg, namespace, memory, answers).run is Repairing || pass(
                cfg,
                namespace,
                memory,
                answers,
            ).run is Updating
        },
{
    law_a_pass_fits(cfg, namespace, memory, answers);
    if answers.len() > 0 {
        law_a_pass_fits(cfg, namespace, memory, answers.drop_last());
        let before = pass(cfg, namespace, memory, answers.drop_last());
        lemma_step(
            cfg,
            namespace,
            before.memory,
            answers.last().0,
            before.run,
            answers.last().1,
        );
    }
}

/// Every pass ends: a pass over `n` drivers takes no more than `20 * n + 7` answers.
pub proof fn law_every_pass_ends(
    cfg: ConfigView,
    namespace: Seq<char>,
    memory: Memory,
    answers: Seq<(u64, Reply)>,
)
    requires
        bounded(memory),
    ensures
        ({
            let s = pass(cfg, namespace, memory, answers);
            s.run is Done || left(cfg, s.run) + answers.len() <= 20 * cfg.drivers.len() + 7
        }),
        answers.len() >= 20 * cfg.drivers.len() + 7 ==> pass(
            cfg,
            namespace,
            memory,
            answers,
        ).run is Done,
    decreases answers.len(),
{
    law_a_pass_fits(cfg, namespace, memory, answers);
    if answers.len() > 0 {
        law_every_pass_ends(cfg, namespace, memory, answers.drop_last());
        law_a_pass_fits(cfg, namespace, memory, answers.drop_last());
        let before = pass(cfg, namespace, memory, answers.drop_last());
        lemma_step(
            cfg,
            namespace,
            before.memory,
            answers.last().0,
            before.run,
            answers.last().1,
        );
    }
}

/// A driver that is left alone stays so, pass after pass, until the failed repairs are forgotten with
/// the process: no pass changes how often it has failed.
pub proof fn law_a_driver_left_alone_stays_so(
    cfg: ConfigView,
    namespace: Seq<char>,
    memory: Memory,
    answers: Seq<(u64, Reply)>,
    driver: Seq<char>,
)
    requires
        bounded(memory),
        backs_off(memory, driver),
    ensures
        failures_of(pass(cfg, namespace, memory, answers).memory, driver) == failures_of(
            memory,
            driver,
        ),
        current(pass(cfg, namespace, memory, answers).run) matches Some(i)
            ==> cfg.drivers[i].name != driver,
    decreases answers.len(),
{
    law_a_pass_fits(cfg, namespace, memory, answers);
    if answers.len() > 0 {
        law_a_driver_left_alone_stays_so(cfg, namespace, memory, answers.drop_last(), driver);
        law_a_pass_fits(cfg, namespace, memory, answers.drop_last());
        let before = pass(cfg, namespace, memory, answers.drop_last());
        lemma_step(
            cfg,
            namespace,
            before.memory,
            answers.last().0,
            before.run,
            answers.last().1,
        );
    }
}

/// A repair begins only if it is not a dry run, the driver is not left alone, and the driver is
/// absent: the injection is missing, or the check of this very driver has found that the settings do
/// not list it. A driver that is present or degraded is never repaired.
pub proof fn law_only_an_absent_driver_is_repaired(
    cfg: ConfigView,
    namespace: Seq<char>,
    memory: Memory,
    now_secs: u64,
    run: RunView,
    reply: Reply,
)
    requires
        fits(cfg, memory, run),
        keeps_mode(cfg, run),
        run_step(cfg, namespace, memory, now_secs, run, reply).run is Repairing,
    ensures
        ({
            let s = run_step(cfg, namespace, memory, now_secs, run, reply);
            let index = current(s.run)->0;
            run is Repairing && current(run) == Some(index) || {
                &&& !cfg.dry_run
                &&& tended(cfg, s.memory, index)
                &&& s.run->Repairing_phase == RepairPhase::ReadingConf
                &&& !s.run->Repairing_deployment.injected() || (run is Checking && current(run)
                    == Some(index) && check_step(
                    cfg.drivers[index].name,
                    cfg.drivers[index].import_module,
                    run->Checking_phase,
                    reply,
                ) == CheckStepView::Decided(CheckView::Absent))
            }
        }),
{
    lemma_step(cfg, namespace, memory, now_secs, run, reply);
    match current(run) {
        Some(i) => {
            let name = cfg.drivers[i].name;
            lemma_forgetting(memory, name);
            lemma_bumping(memory, name);
            assert forall|f: Memory, d: Deployment, notes: Seq<NoteView>|
                bounded(f) implies {
                let s = #[trigger] advance(cfg, f, d, i + 1, notes);
                s.run matches RunView::Repairing { deployment, index, phase } ==> {
                    &&& index > i
                    &&& !deployment.injected()
                    &&& phase == RepairPhase::ReadingConf
                }
            } by {
                lemma_advance(cfg, f, d, i + 1, notes);
            }
        },
        None => {
            assert forall|d: Deployment, notes: Seq<NoteView>| ({
                let s = #[trigger] advance(cfg, memory, d, 0, notes);
                s.run matches RunView::Repairing { deployment, index, phase } ==> {
                    &&& !deployment.injected()
                    &&& phase == RepairPhase::ReadingConf
                }
            }) by {
                lemma_advance(cfg, memory, d, 0, notes);
            }
        },
    }
}

/// Whether what a taking out still has to write comes from taking something out.
pub open spec fn undoes(cfg: ConfigView, run: RunView) -> bool {
    match run {
        RunView::Reverting {
            phase: RevertPhaseView::ReadingScript { conf: Some(c), .. },
            ..
        } => exists|
            conf: Seq<char>,
        |
            c == #[trigger] conf_without_all(conf, cfg.drivers),
        RunView::Reverting { phase: RevertPhaseView::PatchingConf(Some(s)), .. } => exists|
            script: Seq<char>,
        |
            s == #[trigger] script_without_flag(script),
        _ => true,
    }
}

/// Whether an action takes something out: it writes the settings without the drivers, the script
/// without the flag, or the Deployment without the injection.
pub open spec fn is_undoing(cfg: ConfigView, namespace: Seq<char>, action: ActionView) -> bool {
    ||| exists|conf: Seq<char>|
        action == patch_conf(namespace, #[trigger] conf_without_all(conf, cfg.drivers))
    ||| exists|script: Seq<char>|
        action == patch_script(namespace, #[trigger] script_without_flag(script))
    ||| exists|t: u64|
        action == ActionView::PatchDeployment(
            #[trigger] removal_patch(namespace, cfg.deployment_name, t),
        )
}

/// A dry run installs nothing: whatever it changes in the cluster takes something out.
pub proof fn law_a_dry_run_only_takes_out(
    cfg: ConfigView,
    namespace: Seq<char>,
    memory: Memory,
    answers: Seq<(u64, Reply)>,
)
    requires
        bounded(memory),
        cfg.dry_run,
    ensures
        ({
            let s = pass(cfg, namespace, memory, answers);
            &&& undoes(cfg, s.run)
            &&& s.action.mutates() ==> is_undoing(cfg, namespace, s.action)
        }),
    decreases answers.len(),
{
    if answers.len() > 0 {
        law_a_dry_run_only_takes_out(cfg, namespace, memory, answers.drop_last());
        law_a_pass_fits(cfg, namespace, memory, answers.drop_last());
        law_a_pass_fits(cfg, namespace, memory, answers);
        let before = pass(cfg, namespace, memory, answers.drop_last());
        let now = answers.last().0;
        let reply = answers.last().1;
        lemma_step(cfg, namespace, before.memory, now, before.run, reply);
        match before.run {
            RunView::Reverting { deployment, phase } => {
                assert forall|d: Deployment, notes: Seq<NoteView>| ({
                    let s = #[trigger] advance(cfg, before.memory, d, 0, notes);
                    !(s.run is Reverting) && !s.action.mutates()
                }) by {
                    lemma_advance(cfg, before.memory, d, 0, notes);
                }
                let s = revert_step(cfg, namespace, deployment, now, phase, reply);
                assert(s matches RevertStepView::Ask(_, ActionView::PatchDeployment(p)) ==> p
                    == removal_patch(namespace, cfg.deployment_name, now));
            },
            _ => {},
        }
    }
}

/// After a repair the Deployment is read again, and the check of the driver goes by what it is then:
/// where it has the injection, its pods are looked at next, whatever the pass began with; where it
/// has none or cannot be read, the repair has not helped.
pub proof fn law_a_repair_is_judged_by_the_deployment_as_it_is_then(
    cfg: ConfigView,
    namespace: Seq<char>,
    memory: Memory,
    now_secs: u64,
    later_secs: u64,
    deployment: Deployment,
    index: int,
    phase: RepairPhase,
    reply: Reply,
    answer: Result<Deployment, GuardianError>,
)
    requires
        fits(
            cfg,
            memory,
            (RunView::Repairing { deployment, index, phase }),
        ),
        repair_step(cfg, namespace, index, deployment, now_secs, phase, reply)
            == RepairStepView::Ended(Ok(())),
    ensures
        ({
            let name = cfg.drivers[index].name;
            let applied = run_step(
                cfg,
                namespace,
                memory,
                now_secs,
                RunView::Repairing { deployment, index, phase },
                reply,
            );
            let next = run_step(
                cfg,
                namespace,
                applied.memory,
                later_secs,
                applied.run,
                Reply::Deployment(answer),
            );
            &&& applied.action == ActionView::GetDeployment(cfg.deployment_name)
            &&& applied.notes == Seq::empty().push(NoteView::Repaired(name))
            &&& applied.memory == memory
            &&& if answer matches Ok(now) && now.injected() {
                &&& next.run == (RunView::Rechecking {
                    deployment,
                    index,
                    phase: CheckPhaseView::ListingPods,
                })
                &&& next.action == check_start(answer->Ok_0)->Ask_1
                &&& next.memory == memory
            } else {
                next.memory == bumped(memory, name)
            }
        }),
{
    let name = cfg.drivers[index].name;
    lemma_bumping(memory, name);
    assert forall|notes: Seq<NoteView>|
        (#[trigger] advance(cfg, bumped(memory, name), deployment, index + 1, notes)).memory
            == bumped(memory, name) by {
        lemma_advance(cfg, bumped(memory, name), deployment, index + 1, notes);
    }
}

/// A pass reports that a repair has helped only if the check of that driver after its repair has
/// found it present.
pub proof fn law_a_confirmed_driver_is_present(
    cfg: ConfigView,
    namespace: Seq<char>,
    memory: Memory,
    now_secs: u64,
    run: RunView,
    reply: Reply,
    driver: Seq<char>,
)
    requires
        fits(cfg, memory, run),
        run_step(cfg, namespace, memory, now_secs, run, reply).notes.contains(
            NoteView::Confirmed(driver),
        ),
    ensures
        run is Rechecking,
        cfg.drivers[current(run)->0].name == driver,
        check_step(
            driver,
            cfg.drivers[current(run)->0].import_module,
            run->Rechecking_phase,
            reply,
        ) == CheckStepView::Decided(CheckView::Present),
{
    let s = run_step(cfg, namespace, memory, now_secs, run, reply);
    let k = choose|k: int| 0 <= k < s.notes.len() && s.notes[k] == NoteView::Confirmed(driver);
    match current(run) {
        Some(i) => {
            let name = cfg.drivers[i].name;
            lemma_forgetting(memory, name);
            lemma_bumping(memory, name);
            assert forall|f: Memory, d: Deployment, notes: Seq<NoteView>|
                bounded(f) implies {
                let t = #[trigger] advance(cfg, f, d, i + 1, notes);
                0 <= k < t.notes.len() && t.notes[k] is Confirmed ==> k < notes.len() && t.notes[k]
                    == notes[k]
            } by {
                lemma_advance(cfg, f, d, i + 1, notes);
                let t = advance(cfg, f, d, i + 1, notes);
                if 0 <= k < notes.len() {
                    assert(t.notes.take(notes.len() as int)[k] == notes[k]);
                }
            }
        },
        None => {
            assert forall|d: Deployment, notes: Seq<NoteView>| ({
                let t = #[trigger] advance(cfg, memory, d, 0, notes);
                0 <= k < t.notes.len() && t.notes[k] is Confirmed ==> k < notes.len()
            }) by {
                lemma_advance(cfg, memory, d, 0, notes);
            }
            lemma_none_present(cfg, cfg.drivers.len() as int);
        },
    }
}

/// The notes of a pass that has taken everything out.
proof fn lemma_none_present(cfg: ConfigView, n: int)
    ensures
        forall|k: int|
            0 <= k < none_present(cfg, n).len() ==> (#[trigger] none_present(cfg, n)[k]) is Present
                || none_present(cfg, n)[k] is Reverted,
    decreases n,
{
    if n > 0 {
        lemma_none_present(cfg, n - 1);
    }
}

/// Whether a patch is one of the guardian: it owns the fields that it sets, and takes them over from
/// any other owner.
pub open spec fn is_owned(p: ApplyPatchView) -> bool {
    p.manager == FIELD_MANAGER@ && p.force
}

/// Whether a Secret is the one that the guardian itself writes for some driver.
pub open spec fn is_managed_secret(cfg: ConfigView, name: Seq<char>) -> bool {
    exists|i: int|
        0 <= i < cfg.drivers.len() && name == (#[trigger] cfg.drivers[i]).managed_secret_name()
}

/// A pass patches nothing but the one Deployment, the Secret with the settings of Neutron, the
/// Secrets that the guardian itself writes for its drivers, and the ConfigMap with the scripts of
/// Neutron; and each patch takes its fields over.
pub proof fn law_only_known_objects_are_patched(
    cfg: ConfigView,
    namespace: Seq<char>,
    memory: Memory,
    now_secs: u64,
    run: RunView,
    reply: Reply,
)
    requires
        fits(cfg, memory, run),
        keeps_mode(cfg, run),
    ensures
        match run_step(cfg, namespace, memory, now_secs, run, reply).action {
            ActionView::PatchSecret(p) => is_owned(p) && (p.name == NEUTRON_ETC_SECRET_NAME@
                || is_managed_secret(cfg, p.name)),
            ActionView::PatchConfigMap(p) => is_owned(p) && p.name == NEUTRON_BIN_CONFIGMAP_NAME@,
            ActionView::PatchDeployment(p) => is_owned(p) && p.name == cfg.deployment_name,
            _ => true,
        },
{
    lemma_step(cfg, namespace, memory, now_secs, run, reply);
    match current(run) {
        Some(i) => {
            let name = cfg.drivers[i].name;
            lemma_forgetting(memory, name);
            lemma_bumping(memory, name);
            assert forall|f: Memory, d: Deployment, notes: Seq<NoteView>|
                bounded(f) implies !(#[trigger] advance(
                cfg,
                f,
                d,
                i + 1,
                notes,
            )).action.mutates() by {
                lemma_advance(cfg, f, d, i + 1, notes);
            }
        },
        None => {
            assert forall|d: Deployment, notes: Seq<NoteView>|
                !(#[trigger] advance(cfg, memory, d, 0, notes)).action.mutates() by {
                lemma_advance(cfg, memory, d, 0, notes);
            }
        },
    }
}

} // verus!
