//! What every reconcile pass does with each driver, in terms of what it is answered and of what the
//! guardian remembers.
use crate::config::ConfigView;
use crate::error::{ErrorView, GuardianError};
use crate::k8s::Deployment;
use crate::reconcile::actions::{ActionView, NoteView, Reply, SecretKey};
use crate::reconcile::check::{check_start, check_step, CheckPhaseView, CheckStepView, CheckView};
use crate::reconcile::repair::{description, repair_step, RepairPhase, RepairStepView};
use crate::reconcile::revert::{revert_step, RevertPhaseView, RevertStepView};
use crate::reconcile::run::{advance, fits, none_present, run_step, RunView, StepView};
use crate::reconcile::run_laws::{current, law_a_pass_fits, pass};
use crate::reconcile::state::{
    backs_off, bounded, failures_of, nothing, outdated, Memory, WheelSetView,
};
use crate::wheelcache::{portability_of, Portability};
use vstd::prelude::*;

verus! {

/// How often in a row the repair of a driver has failed, as far as it is remembered.
pub open spec fn times_failed(memory: Memory, driver: Seq<char>) -> int {
    if memory.failures.dom().contains(driver) {
        memory.failures[driver] as int
    } else {
        0
    }
}

/// Whether the repair of a driver has failed three times in a row.
pub open spec fn given_up(memory: Memory, driver: Seq<char>) -> bool {
    times_failed(memory, driver) >= 3
}

/// Whether the Deployment has the init container of the injection.
pub open spec fn has_injector(deployment: Deployment) -> bool {
    exists|i: int|
        0 <= i < deployment.init_containers().len() && (
        #[trigger] deployment.init_containers()[i]).name@ == "ml2-driver-injector"@
}

/// Whether the notes say of a driver whether it is present.
pub open spec fn told(notes: Seq<NoteView>, driver: Seq<char>) -> bool {
    exists|n: int|
        0 <= n < notes.len() && (#[trigger] notes[n] matches NoteView::Present { driver: d, .. }
            && d == driver)
}

/// Whether the notes say of every driver from `from` up to, not including, `to` that it is not
/// present.
pub open spec fn told_absent(cfg: ConfigView, notes: Seq<NoteView>, from: int, to: int) -> bool {
    forall|k: int|
        from <= k < to ==> notes.contains(
            NoteView::Present { driver: (#[trigger] cfg.drivers[k]).name, present: false },
        )
}

/// Whether the repairs of all drivers from `from` up to, not including, `to` are given up.
pub open spec fn all_given_up(cfg: ConfigView, memory: Memory, from: int, to: int) -> bool {
    forall|k: int| from <= k < to ==> given_up(memory, (#[trigger] cfg.drivers[k]).name)
}

/// Whether a step is the way on from the driver at `from`: to the first driver there or behind that
/// is not given up, or, if there is none, to the end of the pass. Every driver that is passed over is
/// told to be not present. The driver that is reached is checked if the Deployment has the injection,
/// and otherwise told to be not present, and its settings are read.
pub open spec fn is_way_on(
    cfg: ConfigView,
    memory: Memory,
    deployment: Deployment,
    from: int,
    s: StepView,
) -> bool {
    &&& s.memory == memory
    &&& match s.run {
        RunView::Done => {
            &&& s.action matches ActionView::Finish(Ok(_))
            &&& all_given_up(cfg, memory, from, cfg.drivers.len() as int)
            &&& told_absent(cfg, s.notes, from, cfg.drivers.len() as int)
        },
        RunView::Checking { deployment: d, index, phase } => {
            &&& d == deployment && has_injector(deployment)
            &&& phase is ListingPods
            &&& s.action is ListPods && check_start(deployment) == CheckStepView::Ask(
                phase,
                s.action,
            )
            &&& from <= index < cfg.drivers.len()
            &&& !given_up(memory, cfg.drivers[index].name)
            &&& all_given_up(cfg, memory, from, index)
            &&& told_absent(cfg, s.notes, from, index)
        },
        RunView::Describing { deployment: d, index } => {
            &&& d == deployment && !has_injector(deployment) && cfg.dry_run
            &&& is_reading_of_settings(s.action)
            &&& from <= index < cfg.drivers.len()
            &&& !given_up(memory, cfg.drivers[index].name)
            &&& all_given_up(cfg, memory, from, index)
            &&& told_absent(cfg, s.notes, from, index + 1)
        },
        RunView::Repairing { deployment: d, index, phase } => {
            &&& d == deployment && !has_injector(deployment) && !cfg.dry_run
            &&& phase == RepairPhase::ReadingConf
            &&& is_reading_of_settings(s.action)
            &&& from <= index < cfg.drivers.len()
            &&& !given_up(memory, cfg.drivers[index].name)
            &&& all_given_up(cfg, memory, from, index)
            &&& told_absent(cfg, s.notes, from, index + 1)
        },
        _ => false,
    }
}

/// What is told of the drivers from `from` up to, not including, `to` that are passed over: of each
/// that it is left alone, and then that it is not present.
pub open spec fn passed_over(cfg: ConfigView, from: int, to: int) -> Seq<NoteView> {
    Seq::new(
        (2 * (to - from)) as nat,
        |i: int|
            if i % 2 == 0 {
                NoteView::BackingOff(cfg.drivers[from + i / 2].name)
            } else {
                NoteView::Present { driver: cfg.drivers[from + i / 2].name, present: false }
            },
    )
}

/// Whether a step that is the way on from the driver at `from` tells the given notes first, then of
/// the drivers that it passes over, then that the driver it reaches is not present if it is not even
/// checked, and nothing else.
pub open spec fn tells_first(
    cfg: ConfigView,
    from: int,
    first: Seq<NoteView>,
    s: StepView,
) -> bool {
    match s.run {
        RunView::Done => s.notes == first + passed_over(cfg, from, cfg.drivers.len() as int),
        RunView::Checking { index, .. } => s.notes == first + passed_over(cfg, from, index),
        _ => current(s.run) is Some && s.notes == (first + passed_over(
            cfg,
            from,
            current(s.run)->0,
        )).push(
            NoteView::Present { driver: cfg.drivers[current(s.run)->0].name, present: false },
        ),
    }
}

/// Whether an action is the reading of the settings of the ML2 plugin.
pub open spec fn is_reading_of_settings(action: ActionView) -> bool {
    action matches ActionView::ReadSecret { name, key } && name == "neutron-etc"@ && key
        == "ml2_conf.ini"@
}

/// The notes of a step begin with the given ones.
pub open spec fn begins_with(notes: Seq<NoteView>, first: Seq<NoteView>) -> bool {
    first.len() <= notes.len() && notes.take(first.len() as int) == first
}

/// What stands among the first notes stands among all.
proof fn lemma_begins(notes: Seq<NoteView>, first: Seq<NoteView>)
    requires
        begins_with(notes, first),
    ensures
        forall|x: NoteView| first.contains(x) ==> #[trigger] notes.contains(x),
        forall|n: int| 0 <= n < first.len() ==> notes[n] == #[trigger] first[n],
{
    assert forall|n: int| 0 <= n < first.len() implies notes[n] == #[trigger] first[n] by {
        assert(notes.take(first.len() as int)[n] == notes[n]);
    }
    assert forall|x: NoteView| first.contains(x) implies #[trigger] notes.contains(x) by {
        let n = choose|n: int| 0 <= n < first.len() && first[n] == x;
        assert(notes[n] == first[n]);
    }
}

/// The way on from a driver.
proof fn lemma_way_on(
    cfg: ConfigView,
    memory: Memory,
    deployment: Deployment,
    from: int,
    notes: Seq<NoteView>,
)
    requires
        0 <= from <= cfg.drivers.len(),
    ensures
        is_way_on(cfg, memory, deployment, from, advance(cfg, memory, deployment, from, notes)),
        begins_with(advance(cfg, memory, deployment, from, notes).notes, notes),
        tells_first(cfg, from, notes, advance(cfg, memory, deployment, from, notes)),
    decreases cfg.drivers.len() - from,
{
    let s = advance(cfg, memory, deployment, from, notes);
    if from < cfg.drivers.len() {
        let name = cfg.drivers[from].name;
        let absent = NoteView::Present { driver: name, present: false };
        if given_up(memory, name) {
            let more = notes.push(NoteView::BackingOff(name)).push(absent);
            lemma_way_on(cfg, memory, deployment, from + 1, more);
            lemma_begins(s.notes, more);
            assert(more[more.len() - 1] == absent);
            assert(s.notes.contains(absent));
            assert(s.notes.take(notes.len() as int) =~= s.notes.take(more.len() as int).take(
                notes.len() as int,
            ));
            assert(more.take(notes.len() as int) =~= notes);
            assert forall|to: int| from < to implies more + #[trigger] passed_over(
                cfg,
                from + 1,
                to,
            ) == notes + passed_over(cfg, from, to) by {
                let a = passed_over(cfg, from + 1, to);
                let b = passed_over(cfg, from, to);
                assert(b.len() == a.len() + 2);
                assert forall|i: int| 0 <= i < a.len() implies a[i] == #[trigger] b[i + 2] by {
                    assert((i + 2) / 2 == i / 2 + 1 && (i + 2) % 2 == i % 2);
                }
                assert(b[0] == NoteView::BackingOff(name) && b[1] == absent);
                assert(more + a =~= notes + b);
            }
            assert forall|to: int| #[trigger] told_absent(cfg, s.notes, from + 1, to) implies
                told_absent(cfg, s.notes, from, to) by {}
            assert forall|to: int| #[trigger] all_given_up(cfg, memory, from + 1, to) implies
                all_given_up(cfg, memory, from, to) by {}
        } else {
            if !has_injector(deployment) {
                assert(s.notes[s.notes.len() - 1] == absent);
                assert(s.notes.contains(absent));
            }
            assert(s.notes.take(notes.len() as int) =~= notes);
            assert(notes + passed_over(cfg, from, from) =~= notes);
        }
    } else {
        assert(s.notes.take(notes.len() as int) =~= notes);
        assert(notes + passed_over(cfg, from, from) =~= notes);
    }
}

/// A pass begins with the first driver that is not given up, once the Deployment is read; in a dry
/// run it first looks for what to take out, and begins with the drivers if there is nothing. If the
/// Deployment cannot be read the pass ends with that error.
pub proof fn law_a_pass_begins_with_the_first_driver(
    cfg: ConfigView,
    namespace: Seq<char>,
    memory: Memory,
    now_secs: u64,
    answer: Result<Deployment, GuardianError>,
    deployment: Deployment,
    phase: RevertPhaseView,
    reply: Reply,
)
    ensures
        ({
            let first = run_step(cfg, namespace, memory, now_secs, RunView::Start, Reply::Begin);
            let s = run_step(
                cfg,
                namespace,
                memory,
                now_secs,
                first.run,
                Reply::Deployment(answer),
            );
            &&& first.action == ActionView::GetDeployment(cfg.deployment_name)
            &&& first.memory == memory && first.notes.len() == 0
            &&& match answer {
                Err(e) => {
                    &&& s.run is Done
                    &&& s.action == ActionView::Finish(Err(e@))
                    &&& s.memory == memory && s.notes.len() == 0
                },
                Ok(found) => if cfg.dry_run {
                    &&& s.run == (RunView::Reverting {
                        deployment: found,
                        phase: RevertPhaseView::ReadingConf,
                    })
                    &&& is_reading_of_settings(s.action)
                    &&& s.memory == memory && s.notes.len() == 0
                } else {
                    is_way_on(cfg, memory, found, 0, s) && tells_first(cfg, 0, Seq::empty(), s)
                },
            }
        }),
        revert_step(cfg, namespace, deployment, now_secs, phase, reply) is NotNeeded ==> ({
            let s = run_step(
                cfg,
                namespace,
                memory,
                now_secs,
                RunView::Reverting { deployment, phase },
                reply,
            );
            is_way_on(cfg, memory, deployment, 0, s) && tells_first(cfg, 0, Seq::empty(), s)
        }),
{
    assert forall|d: Deployment, notes: Seq<NoteView>| ({
        let s = #[trigger] advance(cfg, memory, d, 0, notes);
        is_way_on(cfg, memory, d, 0, s) && tells_first(cfg, 0, notes, s)
    }) by {
        lemma_way_on(cfg, memory, d, 0, notes);
    }
}

/// A taking out that is complete ends the pass with success and tells every driver to be not present;
/// one that is broken off ends the pass with its error. Neither changes what is remembered.
pub proof fn law_a_taking_out_ends_the_pass(
    cfg: ConfigView,
    namespace: Seq<char>,
    memory: Memory,
    now_secs: u64,
    deployment: Deployment,
    phase: RevertPhaseView,
    reply: Reply,
    outcome: Result<(), ErrorView>,
)
    requires
        revert_step(cfg, namespace, deployment, now_secs, phase, reply) == RevertStepView::Ended(
            outcome,
        ),
    ensures
        ({
            let s = run_step(
                cfg,
                namespace,
                memory,
                now_secs,
                RunView::Reverting { deployment, phase },
                reply,
            );
            &&& s.run is Done
            &&& s.action == ActionView::Finish(outcome)
            &&& s.memory == memory
            &&& outcome is Err ==> s.notes.len() == 0
            &&& outcome is Ok ==> {
                &&& s.notes.len() == 1 + cfg.drivers.len()
                &&& s.notes[0] == NoteView::Reverted
                &&& forall|k: int|
                    0 <= k < cfg.drivers.len() ==> #[trigger] s.notes[1 + k] == (
                    NoteView::Present { driver: cfg.drivers[k].name, present: false })
            }
        }),
{
    lemma_none_present(cfg, cfg.drivers.len() as int);
}

proof fn lemma_none_present(cfg: ConfigView, n: int)
    requires
        0 <= n <= cfg.drivers.len(),
    ensures
        told_absent(cfg, none_present(cfg, n), 0, n),
        none_present(cfg, n).len() == 1 + n,
        none_present(cfg, n)[0] == NoteView::Reverted,
        forall|k: int|
            0 <= k < n ==> #[trigger] none_present(cfg, n)[1 + k] == (NoteView::Present {
                driver: cfg.drivers[k].name,
                present: false,
            }),
    decreases n,
{
    let v = none_present(cfg, n);
    if n > 0 {
        lemma_none_present(cfg, n - 1);
        let h = none_present(cfg, n - 1);
        let last = NoteView::Present { driver: cfg.drivers[n - 1].name, present: false };
        assert(v[h.len() as int] == last);
        assert forall|x: NoteView| h.contains(x) implies #[trigger] v.contains(x) by {
            let i = choose|i: int| 0 <= i < h.len() && h[i] == x;
            assert(v[i] == x);
        }
        assert(v.contains(last));
        assert forall|k: int| 0 <= k < n implies #[trigger] v[1 + k] == (NoteView::Present {
            driver: cfg.drivers[k].name,
            present: false,
        }) by {
            if k < n - 1 {
                assert(v[1 + k] == h[1 + k]);
            }
        }
    }
}

/// Whether a step tells the given notes of the driver at `index`, and goes on behind it only with what
/// is told on the way.
pub open spec fn tells(cfg: ConfigView, index: int, first: Seq<NoteView>, s: StepView) -> bool {
    if s.run is Updating {
        s.notes == first
    } else {
        tells_first(cfg, index + 1, first, s)
    }
}

/// What the check of a driver leads to. A driver that is found present is told to be present, and no
/// failed repair of it is remembered any more. One that is degraded is told to be so and to be not
/// present. After either the pass refreshes the wheels of this very driver or goes on behind it. One
/// that is absent is told to be not present, and its settings are read: for its repair, or in a dry
/// run for the description of it. Of other drivers nothing changes in memory.
pub proof fn law_what_a_check_leads_to(
    cfg: ConfigView,
    namespace: Seq<char>,
    memory: Memory,
    now_secs: u64,
    deployment: Deployment,
    index: int,
    phase: CheckPhaseView,
    reply: Reply,
    check: CheckView,
)
    requires
        0 <= index < cfg.drivers.len(),
        check_step(cfg.drivers[index].name, cfg.drivers[index].import_module, phase, reply)
            == CheckStepView::Decided(check),
    ensures
        ({
            let name = cfg.drivers[index].name;
            let s = run_step(
                cfg,
                namespace,
                memory,
                now_secs,
                RunView::Checking { deployment, index, phase },
                reply,
            );
            &&& s.memory.wheels == memory.wheels
            &&& forall|d: Seq<char>|
                d != name ==> #[trigger] times_failed(s.memory, d) == times_failed(memory, d)
            &&& check !is Absent ==> s.run == (RunView::Updating { deployment, index })
                || is_way_on(cfg, s.memory, deployment, index + 1, s)
            &&& match check {
                CheckView::Present => {
                    &&& times_failed(s.memory, name) == 0
                    &&& tells(
                        cfg,
                        index,
                        seq![NoteView::Present { driver: name, present: true }],
                        s,
                    )
                },
                CheckView::Degraded(reason) => {
                    &&& s.memory == memory
                    &&& tells(
                        cfg,
                        index,
                        seq![NoteView::Degraded { driver: name, reason }].push(
                            NoteView::Present { driver: name, present: false },
                        ),
                        s,
                    )
                },
                CheckView::Absent => {
                    &&& s.memory == memory
                    &&& s.notes == Seq::empty().push(
                        NoteView::Present { driver: name, present: false },
                    )
                    &&& is_reading_of_settings(s.action)
                    &&& s.run == if cfg.dry_run {
                        RunView::Describing { deployment, index }
                    } else {
                        RunView::Repairing { deployment, index, phase: RepairPhase::ReadingConf }
                    }
                },
            }
        }),
{
    lemma_on_from(cfg, deployment, index);
}

/// What the check behind a repair leads to. Only if it finds the driver present is the repair
/// confirmed, and its failed repairs are forgotten. Whatever else it finds, the repair counts as one
/// more failure in a row and is told to be not confirmed; with the third one the driver is given up.
/// Of other drivers nothing changes in memory, and the pass goes on behind the driver.
pub proof fn law_what_a_recheck_leads_to(
    cfg: ConfigView,
    namespace: Seq<char>,
    memory: Memory,
    now_secs: u64,
    deployment: Deployment,
    index: int,
    phase: CheckPhaseView,
    reply: Reply,
    check: CheckView,
)
    requires
        0 <= index < cfg.drivers.len(),
        times_failed(memory, cfg.drivers[index].name) < 3,
        check_step(cfg.drivers[index].name, cfg.drivers[index].import_module, phase, reply)
            == CheckStepView::Decided(check),
    ensures
        ({
            let name = cfg.drivers[index].name;
            let s = run_step(
                cfg,
                namespace,
                memory,
                now_secs,
                RunView::Rechecking { deployment, index, phase },
                reply,
            );
            &&& s.memory.wheels == memory.wheels
            &&& forall|d: Seq<char>|
                d != name ==> #[trigger] times_failed(s.memory, d) == times_failed(memory, d)
            &&& is_way_on(cfg, s.memory, deployment, index + 1, s)
            &&& if check is Present {
                &&& times_failed(s.memory, name) == 0
                &&& tells(cfg, index, seq![NoteView::Confirmed(name)], s)
            } else {
                &&& times_failed(s.memory, name) == times_failed(memory, name) + 1
                &&& times_failed(memory, name) == 2 ==> given_up(s.memory, name)
                &&& tells(cfg, index, seq![NoteView::NotConfirmed { driver: name, check }], s)
            }
        }),
{
    lemma_on_from(cfg, deployment, index);
}

/// The way on behind a driver, with any memory and any notes.
proof fn lemma_on_from(cfg: ConfigView, deployment: Deployment, index: int)
    requires
        0 <= index < cfg.drivers.len(),
    ensures
        forall|m: Memory, notes: Seq<NoteView>|
            ({
                let s = #[trigger] advance(cfg, m, deployment, index + 1, notes);
                is_way_on(cfg, m, deployment, index + 1, s) && begins_with(s.notes, notes)
                    && tells_first(cfg, index + 1, notes, s) && (forall|n: int|
                    0 <= n < notes.len() ==> #[trigger] s.notes[n] == notes[n])
            }),
{
    assert forall|m: Memory, notes: Seq<NoteView>| ({
        let s = #[trigger] advance(cfg, m, deployment, index + 1, notes);
        is_way_on(cfg, m, deployment, index + 1, s) && begins_with(s.notes, notes) && tells_first(
            cfg,
            index + 1,
            notes,
            s,
        ) && (forall|n: int|
            0 <= n < notes.len() ==> #[trigger] s.notes[n] == notes[n])
    }) by {
        lemma_way_on(cfg, m, deployment, index + 1, notes);
        lemma_begins(advance(cfg, m, deployment, index + 1, notes).notes, notes);
    }
}

/// What follows a repair. One that is broken off counts as one more failure in a row, and the pass
/// goes on behind the driver. One that is applied is told so, and the Deployment is read once more:
/// if it then has the injection, the driver is checked again in its pods; if not, or if it cannot be
/// read, the repair counts as one more failure in a row.
pub proof fn law_what_a_repair_leads_to(
    cfg: ConfigView,
    namespace: Seq<char>,
    memory: Memory,
    now_secs: u64,
    deployment: Deployment,
    index: int,
    phase: RepairPhase,
    reply: Reply,
    outcome: Result<(), ErrorView>,
    answer: Result<Deployment, GuardianError>,
)
    requires
        0 <= index < cfg.drivers.len(),
        times_failed(memory, cfg.drivers[index].name) < 3,
        repair_step(cfg, namespace, index, deployment, now_secs, phase, reply)
            == RepairStepView::Ended(outcome),
    ensures
        ({
            let name = cfg.drivers[index].name;
            let s = run_step(
                cfg,
                namespace,
                memory,
                now_secs,
                RunView::Repairing { deployment, index, phase },
                reply,
            );
            let t = run_step(
                cfg,
                namespace,
                memory,
                now_secs,
                RunView::Refetching { deployment, index },
                Reply::Deployment(answer),
            );
            &&& match outcome {
                Ok(_) => {
                    &&& s.run == (RunView::Refetching { deployment, index })
                    &&& s.action == ActionView::GetDeployment(cfg.deployment_name)
                    &&& s.memory == memory
                    &&& s.notes == Seq::empty().push(NoteView::Repaired(name))
                },
                Err(error) => {
                    &&& is_one_more_failure(memory, s.memory, name)
                    &&& tells(
                        cfg,
                        index,
                        seq![NoteView::RepairBrokenOff { driver: name, error }],
                        s,
                    )
                    &&& is_way_on(cfg, s.memory, deployment, index + 1, s)
                },
            }
            &&& if answer is Ok && has_injector(answer->Ok_0) {
                &&& t.run == (RunView::Rechecking {
                    deployment,
                    index,
                    phase: CheckPhaseView::ListingPods,
                })
                &&& check_start(answer->Ok_0) == CheckStepView::Ask(
                    CheckPhaseView::ListingPods,
                    t.action,
                )
                &&& t.memory == memory
                &&& t.notes.len() == 0
            } else {
                &&& is_one_more_failure(memory, t.memory, name)
                &&& tells(
                    cfg,
                    index,
                    seq![
                        NoteView::NotConfirmed {
                            driver: name,
                            check: if answer is Ok {
                                CheckView::Absent
                            } else {
                                CheckView::Degraded("error reading deployment"@)
                            },
                        },
                    ],
                    t,
                )
                &&& is_way_on(cfg, t.memory, deployment, index + 1, t)
            }
        }),
{
    lemma_on_from(cfg, deployment, index);
}

/// Whether the only difference is one more failure in a row of one driver.
pub open spec fn is_one_more_failure(before: Memory, after: Memory, driver: Seq<char>) -> bool {
    &&& times_failed(after, driver) == times_failed(before, driver) + 1
    &&& after.wheels == before.wheels
    &&& forall|d: Seq<char>|
        d != driver ==> #[trigger] times_failed(after, d) == times_failed(before, d)
}

/// A driver whose repair is applied in a pass, and in the next, and in the one after, and each time
/// not confirmed, is given up: no matter what becomes of the other drivers in between.
pub proof fn law_three_failures_in_a_row_are_enough(
    cfg: ConfigView,
    namespace: Seq<char>,
    first: (Memory, u64, RunView, Reply),
    second: (Memory, u64, RunView, Reply),
    third: (Memory, u64, RunView, Reply),
    driver: Seq<char>,
)
    requires
        is_failed_recheck(cfg, first.2, first.3, driver),
        is_failed_recheck(cfg, second.2, second.3, driver),
        is_failed_recheck(cfg, third.2, third.3, driver),
        times_failed(first.0, driver) == 0,
        times_failed(second.0, driver) == times_failed(
            run_step(cfg, namespace, first.0, first.1, first.2, first.3).memory,
            driver,
        ),
        times_failed(third.0, driver) == times_failed(
            run_step(cfg, namespace, second.0, second.1, second.2, second.3).memory,
            driver,
        ),
    ensures
        !given_up(run_step(cfg, namespace, second.0, second.1, second.2, second.3).memory, driver),
        given_up(run_step(cfg, namespace, third.0, third.1, third.2, third.3).memory, driver),
{
    lemma_failed_recheck(cfg, namespace, first.0, first.1, first.2, first.3, driver);
    lemma_failed_recheck(cfg, namespace, second.0, second.1, second.2, second.3, driver);
    lemma_failed_recheck(cfg, namespace, third.0, third.1, third.2, third.3, driver);
}

/// Whether the answer ends the check behind a repair of the driver, and does not find it present.
pub open spec fn is_failed_recheck(
    cfg: ConfigView,
    run: RunView,
    reply: Reply,
    driver: Seq<char>,
) -> bool {
    run matches RunView::Rechecking { deployment, index, phase } && 0 <= index
        < cfg.drivers.len() && cfg.drivers[index].name == driver && (check_step(
        driver,
        cfg.drivers[index].import_module,
        phase,
        reply,
    ) matches CheckStepView::Decided(check) && check !is Present)
}

proof fn lemma_failed_recheck(
    cfg: ConfigView,
    namespace: Seq<char>,
    memory: Memory,
    now_secs: u64,
    run: RunView,
    reply: Reply,
    driver: Seq<char>,
)
    requires
        is_failed_recheck(cfg, run, reply, driver),
        times_failed(memory, driver) < 3,
    ensures
        times_failed(run_step(cfg, namespace, memory, now_secs, run, reply).memory, driver)
            == times_failed(memory, driver) + 1,
{
    match run {
        RunView::Rechecking { deployment, index, phase } => {
            match check_step(driver, cfg.drivers[index].import_module, phase, reply) {
                CheckStepView::Decided(check) => {
                    law_what_a_recheck_leads_to(
                        cfg,
                        namespace,
                        memory,
                        now_secs,
                        deployment,
                        index,
                        phase,
                        reply,
                        check,
                    );
                },
                _ => {},
            }
        },
        _ => {},
    }
}

/// As long as a check, a repair or a taking out has something to ask, it asks just that: the pass
/// stays with the driver and the Deployment, tells nothing and forgets nothing.
pub proof fn law_a_question_is_handed_on(
    cfg: ConfigView,
    namespace: Seq<char>,
    memory: Memory,
    now_secs: u64,
    deployment: Deployment,
    index: int,
    check: CheckPhaseView,
    repair: RepairPhase,
    revert: RevertPhaseView,
    reply: Reply,
)
    ensures
        check_step(cfg.drivers[index].name, cfg.drivers[index].import_module, check, reply) matches
            CheckStepView::Ask(next, question) ==> run_step(
            cfg,
            namespace,
            memory,
            now_secs,
            RunView::Checking { deployment, index, phase: check },
            reply,
        ) == (StepView {
            run: RunView::Checking { deployment, index, phase: next },
            memory,
            notes: Seq::empty(),
            action: question,
        }) && run_step(
            cfg,
            namespace,
            memory,
            now_secs,
            RunView::Rechecking { deployment, index, phase: check },
            reply,
        ) == (StepView {
            run: RunView::Rechecking { deployment, index, phase: next },
            memory,
            notes: Seq::empty(),
            action: question,
        }),
        repair_step(cfg, namespace, index, deployment, now_secs, repair, reply) matches
            RepairStepView::Ask(next, question) ==> run_step(
            cfg,
            namespace,
            memory,
            now_secs,
            RunView::Repairing { deployment, index, phase: repair },
            reply,
        ) == (StepView {
            run: RunView::Repairing { deployment, index, phase: next },
            memory,
            notes: Seq::empty(),
            action: question,
        }),
        revert_step(cfg, namespace, deployment, now_secs, revert, reply) matches
            RevertStepView::Ask(next, question) ==> run_step(
            cfg,
            namespace,
            memory,
            now_secs,
            RunView::Reverting { deployment, phase: revert },
            reply,
        ) == (StepView {
            run: RunView::Reverting { deployment, phase: next },
            memory,
            notes: Seq::empty(),
            action: question,
        }),
{
}

/// A description or a refresh of wheels changes no count of failures, whatever it is answered, tells
/// of its own driver, and the pass goes on behind it.
pub proof fn law_what_is_told_on_the_way(
    cfg: ConfigView,
    namespace: Seq<char>,
    memory: Memory,
    now_secs: u64,
    deployment: Deployment,
    index: int,
    secret: Result<SecretKey, GuardianError>,
    wheels: Result<Vec<String>, GuardianError>,
)
    requires
        0 <= index < cfg.drivers.len(),
    ensures
        ({
            let name = cfg.drivers[index].name;
            let s = run_step(
                cfg,
                namespace,
                memory,
                now_secs,
                RunView::Describing { deployment, index },
                Reply::Secret(secret),
            );
            let t = run_step(
                cfg,
                namespace,
                memory,
                now_secs,
                RunView::Updating { deployment, index },
                Reply::Wheels(wheels),
            );
            &&& s.memory == memory
            &&& is_way_on(cfg, memory, deployment, index + 1, s)
            &&& tells(
                cfg,
                index,
                seq![
                    NoteView::RepairDryRun {
                        driver: name,
                        description: description(cfg.deployment_name, cfg.drivers[index], secret),
                    },
                ],
                s,
            )
            &&& t.memory.failures == memory.failures
            &&& is_way_on(cfg, t.memory, deployment, index + 1, t)
            &&& match wheels {
                Ok(filenames) => {
                    &&& tells(
                        cfg,
                        index,
                        seq![
                            NoteView::Wheels {
                                driver: name,
                                portability: portability_of(filenames@),
                            },
                        ],
                        t,
                    )
                    &&& forall|d: Seq<char>, kept: WheelSetView|
                        d != name ==> (#[trigger] is_remembered(t.memory, d, kept)
                            <==> is_remembered(memory, d, kept))
                },
                Err(error) => {
                    &&& t.memory == memory
                    &&& tells(
                        cfg,
                        index,
                        seq![NoteView::WheelsOutdated { driver: name, error: error@ }],
                        t,
                    )
                },
            }
        }),
{
    lemma_on_from(cfg, deployment, index);
}

/// Whether these are the wheels that are remembered of a driver.
pub open spec fn is_remembered(memory: Memory, driver: Seq<char>, wheels: WheelSetView) -> bool {
    memory.wheels.dom().contains(driver) && memory.wheels[driver] == wheels
}

/// Behind a check that asks for no repair, wheels are refreshed if and only if the run is not dry and
/// what is remembered of the driver are wheels that fit one image only, and not the one that runs.
/// They are refreshed with the image that runs, within five minutes.
pub proof fn law_when_wheels_are_refreshed(
    cfg: ConfigView,
    namespace: Seq<char>,
    memory: Memory,
    now_secs: u64,
    deployment: Deployment,
    index: int,
    phase: CheckPhaseView,
    reply: Reply,
    check: CheckView,
    image: Option<Seq<char>>,
)
    requires
        0 <= index < cfg.drivers.len(),
        check_step(cfg.drivers[index].name, cfg.drivers[index].import_module, phase, reply)
            == CheckStepView::Decided(check),
        check !is Absent,
        deployment.image("neutron-server"@) == image,
    ensures
        ({
            let name = cfg.drivers[index].name;
            let s = run_step(
                cfg,
                namespace,
                memory,
                now_secs,
                RunView::Checking { deployment, index, phase },
                reply,
            );
            if !cfg.dry_run && memory.wheels.dom().contains(name) && image is Some
                && memory.wheels[name].image != image->0 && memory.wheels[name].portability
                == Portability::VersionPinned {
                &&& s.run == (RunView::Updating { deployment, index })
                &&& s.action == (ActionView::RefreshWheels {
                    driver: index,
                    image: image->0,
                    timeout_secs: 300,
                })
            } else {
                is_way_on(cfg, s.memory, deployment, index + 1, s)
            }
        }),
{
    lemma_on_from(cfg, deployment, index);
}

/// The Deployment that a pass goes by while it looks at a driver.
pub open spec fn deployment_in(run: RunView) -> Option<Deployment> {
    match run {
        RunView::Checking { deployment, .. } => Some(deployment),
        RunView::Describing { deployment, .. } => Some(deployment),
        RunView::Repairing { deployment, .. } => Some(deployment),
        RunView::Refetching { deployment, .. } => Some(deployment),
        RunView::Rechecking { deployment, .. } => Some(deployment),
        RunView::Updating { deployment, .. } => Some(deployment),
        _ => None,
    }
}

/// From a step on a driver the pass stays with this driver, or moves to the first driver behind it
/// that is not given up, or ends with success if there is none. It goes by the same Deployment all
/// along. No failure of a check, a repair or a refresh ends a pass: only an answer out of turn does.
pub proof fn law_a_pass_goes_from_driver_to_driver(
    cfg: ConfigView,
    namespace: Seq<char>,
    memory: Memory,
    now_secs: u64,
    run: RunView,
    reply: Reply,
    index: int,
)
    requires
        current(run) == Some(index),
        0 <= index < cfg.drivers.len(),
    ensures
        ({
            let s = run_step(cfg, namespace, memory, now_secs, run, reply);
            ||| current(s.run) == Some(index) && deployment_in(s.run) == deployment_in(run)
                && s.action !is Finish
            ||| is_way_on(cfg, s.memory, deployment_in(run)->0, index + 1, s)
            ||| s.action == ActionView::Finish(
                Err(ErrorView::Internal("reconcile pass got an answer out of turn"@)),
            ) && s.memory == memory
        }),
{
    lemma_on_from(cfg, deployment_in(run)->0, index);
}

/// A pass ends with an error only if the Deployment cannot be read, or a taking out is broken off, or
/// an answer is out of turn.
pub proof fn law_when_a_pass_fails(
    cfg: ConfigView,
    namespace: Seq<char>,
    memory: Memory,
    now_secs: u64,
    run: RunView,
    reply: Reply,
    error: ErrorView,
)
    requires
        fits(cfg, memory, run),
        run_step(cfg, namespace, memory, now_secs, run, reply).action == ActionView::Finish(
            Err(error),
        ),
    ensures
        ({
            ||| run is GettingDeployment && (reply matches Reply::Deployment(Err(e)) && e@ == error)
            ||| run matches RunView::Reverting { deployment, phase } && revert_step(
                cfg,
                namespace,
                deployment,
                now_secs,
                phase,
                reply,
            ) == RevertStepView::Ended(Err(error))
            ||| error == ErrorView::Internal("reconcile pass got an answer out of turn"@)
        }),
{
    match current(run) {
        Some(index) => {
            lemma_on_from(cfg, deployment_in(run)->0, index);
        },
        None => {
            assert forall|d: Deployment, notes: Seq<NoteView>| is_way_on(
                cfg,
                memory,
                d,
                0,
                #[trigger] advance(cfg, memory, d, 0, notes),
            ) by {
                lemma_way_on(cfg, memory, d, 0, notes);
            }
        },
    }
}

/// Every note of every step of a pass so far, in the order in which they came.
pub open spec fn all_notes(
    cfg: ConfigView,
    namespace: Seq<char>,
    memory: Memory,
    answers: Seq<(u64, Reply)>,
) -> Seq<NoteView>
    decreases answers.len(),
{
    if answers.len() == 0 {
        pass(cfg, namespace, memory, answers).notes
    } else {
        all_notes(cfg, namespace, memory, answers.drop_last()) + pass(
            cfg,
            namespace,
            memory,
            answers,
        ).notes
    }
}

/// How many drivers of the list a pass must have told of by now.
pub open spec fn told_by(cfg: ConfigView, s: StepView) -> int {
    match s.run {
        RunView::Checking { index, .. } => index,
        RunView::Describing { index, .. } => index + 1,
        RunView::Repairing { index, .. } => index + 1,
        RunView::Refetching { index, .. } => index + 1,
        RunView::Rechecking { index, .. } => index + 1,
        RunView::Updating { index, .. } => index + 1,
        RunView::Done => if s.action matches ActionView::Finish(Ok(_)) {
            cfg.drivers.len() as int
        } else {
            0
        },
        _ => 0,
    }
}

/// A pass tells of every driver that it has dealt with whether it is present, in every state. One
/// that ends with success has told so of every driver of the list, whatever it was answered.
pub proof fn law_a_pass_deals_with_every_driver(
    cfg: ConfigView,
    namespace: Seq<char>,
    memory: Memory,
    answers: Seq<(u64, Reply)>,
)
    requires
        bounded(memory),
    ensures
        ({
            let s = pass(cfg, namespace, memory, answers);
            let notes = all_notes(cfg, namespace, memory, answers);
            &&& s.action matches ActionView::Finish(Ok(_)) ==> forall|i: int|
                0 <= i < cfg.drivers.len() ==> told(notes, (#[trigger] cfg.drivers[i]).name)
            &&& forall|i: int|
                0 <= i < told_by(cfg, s) ==> told(notes, (#[trigger] cfg.drivers[i]).name)
        }),
    decreases answers.len(),
{
    let s = pass(cfg, namespace, memory, answers);
    if answers.len() > 0 {
        let front = answers.drop_last();
        let before = pass(cfg, namespace, memory, front);
        let earlier = all_notes(cfg, namespace, memory, front);
        let notes = all_notes(cfg, namespace, memory, answers);
        law_a_pass_deals_with_every_driver(cfg, namespace, memory, front);
        law_a_pass_fits(cfg, namespace, memory, front);
        lemma_told_by(
            cfg,
            namespace,
            before,
            answers.last().0,
            answers.last().1,
        );
        assert forall|i: int| 0 <= i < told_by(cfg, s) implies told(
            notes,
            (#[trigger] cfg.drivers[i]).name,
        ) by {
            let name = cfg.drivers[i].name;
            if i < told_by(cfg, before) {
                let n = choose|n: int|
                    0 <= n < earlier.len() && (#[trigger] earlier[n] matches NoteView::Present {
                        driver: d,
                        ..
                    } && d == name);
                assert(notes[n] == earlier[n]);
            } else {
                let n = choose|n: int|
                    0 <= n < s.notes.len() && (#[trigger] s.notes[n] matches NoteView::Present {
                        driver: d,
                        ..
                    } && d == name);
                assert(notes[earlier.len() + n] == s.notes[n]);
            }
        }
    }
}

/// A step tells of every driver that it deals with.
proof fn lemma_told_by(
    cfg: ConfigView,
    namespace: Seq<char>,
    before: StepView,
    now_secs: u64,
    reply: Reply,
)
    requires
        fits(cfg, before.memory, before.run),
    ensures
        ({
            let s = run_step(cfg, namespace, before.memory, now_secs, before.run, reply);
            &&& forall|i: int|
                told_by(cfg, before) <= i < told_by(cfg, s) ==> told(
                    s.notes,
                    (#[trigger] cfg.drivers[i]).name,
                )
            &&& s.action matches ActionView::Finish(Ok(_)) ==> s.run is Done
        }),
{
    let s = run_step(cfg, namespace, before.memory, now_secs, before.run, reply);
    assert forall|notes: Seq<NoteView>, from: int, to: int| #[trigger] told_absent(
        cfg,
        notes,
        from,
        to,
    ) implies forall|k: int|
        from <= k < to ==> told(notes, (#[trigger] cfg.drivers[k]).name) by {
        assert forall|k: int| from <= k < to implies told(
            notes,
            (#[trigger] cfg.drivers[k]).name,
        ) by {
            lemma_contained_is_told(notes, cfg.drivers[k].name, false);
        }
    }
    match current(before.run) {
        Some(index) => {
            let name = cfg.drivers[index].name;
            match before.run {
                RunView::Checking { deployment, .. } => {
                    lemma_on_from(cfg, deployment, index);
                    if told_by(cfg, s) > index {
                        let present = NoteView::Present { driver: name, present: true };
                        let missing = NoteView::Present { driver: name, present: false };
                        assert(s.notes[0] == present || s.notes[0] == missing || s.notes[1]
                            == missing);
                        assert(told(s.notes, name));
                    }
                },
                RunView::Describing { deployment, .. } => lemma_on_from(cfg, deployment, index),
                RunView::Repairing { deployment, .. } => lemma_on_from(cfg, deployment, index),
                RunView::Refetching { deployment, .. } => lemma_on_from(cfg, deployment, index),
                RunView::Rechecking { deployment, .. } => lemma_on_from(cfg, deployment, index),
                RunView::Updating { deployment, .. } => lemma_on_from(cfg, deployment, index),
                _ => {},
            }
        },
        None => {
            lemma_none_present(cfg, cfg.drivers.len() as int);
            assert forall|d: Deployment, notes: Seq<NoteView>| is_way_on(
                cfg,
                before.memory,
                d,
                0,
                #[trigger] advance(cfg, before.memory, d, 0, notes),
            ) by {
                lemma_way_on(cfg, before.memory, d, 0, notes);
            }
        },
    }
}

proof fn lemma_contained_is_told(notes: Seq<NoteView>, driver: Seq<char>, present: bool)
    ensures
        notes.contains(NoteView::Present { driver, present }) ==> told(notes, driver),
{
    let note = NoteView::Present { driver, present };
    if notes.contains(note) {
        let n = choose|n: int| 0 <= n < notes.len() && notes[n] == note;
        assert(notes[n] == note);
    }
}

/// Wheels that were downloaded are remembered with the image that runs and with what their names say
/// of them; of wheels whose names say nothing, nothing is remembered. So it is in a repair and behind
/// a check, and nothing else changes in memory.
pub proof fn law_downloaded_wheels_are_remembered(
    cfg: ConfigView,
    namespace: Seq<char>,
    memory: Memory,
    now_secs: u64,
    deployment: Deployment,
    index: int,
    repairing: bool,
    filenames: Vec<String>,
)
    requires
        0 <= index < cfg.drivers.len(),
    ensures
        ({
            let name = cfg.drivers[index].name;
            let s = run_step(
                cfg,
                namespace,
                memory,
                now_secs,
                if repairing {
                    RunView::Repairing { deployment, index, phase: RepairPhase::Refreshing }
                } else {
                    RunView::Updating { deployment, index }
                },
                Reply::Wheels(Ok(filenames)),
            );
            &&& match deployment.image("neutron-server"@) {
                Some(image) => match portability_of(filenames@) {
                    Ok(portability) => is_remembered(
                        s.memory,
                        name,
                        WheelSetView { image, portability },
                    ),
                    Err(_) => !s.memory.wheels.dom().contains(name),
                },
                None => s.memory == memory,
            }
            &&& s.memory.failures == memory.failures
            &&& forall|d: Seq<char>, kept: WheelSetView|
                d != name ==> (#[trigger] is_remembered(s.memory, d, kept) <==> is_remembered(
                    memory,
                    d,
                    kept,
                ))
            &&& s.notes.len() > 0 && s.notes[0] == (NoteView::Wheels {
                driver: name,
                portability: portability_of(filenames@),
            })
            &&& repairing ==> s.run == (RunView::Repairing {
                deployment,
                index,
                phase: RepairPhase::GettingDeployment,
            }) && s.notes.len() == 1 && s.action == ActionView::GetDeployment(cfg.deployment_name)
        }),
{
    lemma_on_from(cfg, deployment, index);
}

/// What the memory answers: how often the repairs of a driver failed in a row, that it is left alone
/// from the third failure on, and that wheels are outdated if they fit one image only and it is not
/// this one.
pub proof fn law_what_the_memory_says(memory: Memory, driver: Seq<char>, image: Seq<char>)
    ensures
        failures_of(memory, driver) == times_failed(memory, driver),
        backs_off(memory, driver) <==> given_up(memory, driver),
        outdated(memory, driver, image) <==> exists|w: WheelSetView| #[trigger]
            is_remembered(memory, driver, w) && w.portability == Portability::VersionPinned
                && w.image != image,
        times_failed(nothing(), driver) == 0,
        !nothing().wheels.dom().contains(driver),
{
    if outdated(memory, driver, image) {
        assert(is_remembered(memory, driver, memory.wheels[driver]));
    }
}

/// What changes the cluster: patches, and the refresh of wheels, which runs a Job. Nothing else does.
pub proof fn law_what_changes_the_cluster(action: ActionView)
    ensures
        action.mutates() <==> action is PatchSecret || action is PatchConfigMap
            || action is PatchDeployment || action is RefreshWheels,
{
}

/// An answer to something else than what the pass waits for ends the pass with an error, and nothing
/// is told or forgotten for it. So does any answer to a pass that has ended.
pub proof fn law_an_answer_out_of_turn_ends_the_pass(
    cfg: ConfigView,
    namespace: Seq<char>,
    memory: Memory,
    now_secs: u64,
    run: RunView,
    reply: Reply,
)
    requires
        match run {
            RunView::Start => reply !is Begin,
            RunView::GettingDeployment => reply !is Deployment,
            RunView::Reverting { deployment, phase } => revert_step(
                cfg,
                namespace,
                deployment,
                now_secs,
                phase,
                reply,
            ) is OutOfTurn,
            RunView::Checking { index, phase, .. } => check_step(
                cfg.drivers[index].name,
                cfg.drivers[index].import_module,
                phase,
                reply,
            ) is OutOfTurn,
            RunView::Describing { .. } => reply !is Secret,
            RunView::Repairing { deployment, index, phase } => repair_step(
                cfg,
                namespace,
                index,
                deployment,
                now_secs,
                phase,
                reply,
            ) is OutOfTurn,
            RunView::Refetching { .. } => reply !is Deployment,
            RunView::Rechecking { index, phase, .. } => check_step(
                cfg.drivers[index].name,
                cfg.drivers[index].import_module,
                phase,
                reply,
            ) is OutOfTurn,
            RunView::Updating { .. } => reply !is Wheels,
            RunView::Done => true,
        },
    ensures
        ({
            let s = run_step(cfg, namespace, memory, now_secs, run, reply);
            &&& s.run is Done
            &&& s.action == ActionView::Finish(
                Err(ErrorView::Internal("reconcile pass got an answer out of turn"@)),
            )
            &&& s.memory == memory
            &&& s.notes.len() == 0
        }),
{
}

} // verus!
