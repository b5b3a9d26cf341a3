//! One reconcile pass over all drivers, as a machine: it asks for one thing at a time, and each
//! answer takes it one step further.
use crate::config::{Config, ConfigView};
use crate::error::{ErrorView, GuardianError};
use crate::k8s::{Deployment, K8s};
use crate::reconcile::actions::{notes_view, Action, ActionView, Note, NoteView, Reply};
use crate::reconcile::check::{
    check_present, check_present_next, check_start, check_step, CheckPhase, CheckPhaseView,
    CheckResult, CheckStep, CheckStepView, CheckView, MAIN_CONTAINER_NAME,
};
use crate::reconcile::repair::{
    ask_conf, describe_intended_repair, description, read_conf, repair, repair_step, RepairPhase,
    RepairStep, RepairStepView, WHEEL_TIMEOUT_SECS,
};
use crate::reconcile::revert::{
    revert, revert_step, RevertPhase, RevertPhaseView, RevertStep, RevertStepView,
};
use crate::reconcile::state::{
    backs_off, bounded, bump_failure, bumped, forgiven, lemma_bumping, lemma_forgetting, outdated,
    refreshed, Memory, ReconcileState,
};
use crate::wheelcache::{classify, portability_of, portability_result, Portability};
use vstd::prelude::*;

verus! {

/// How far a pass is. From its second step on it has the Deployment as it found it, and mostly the
/// place in the list of the driver that is looked at.
#[derive(Debug)]
#[allow(inconsistent_fields)]
pub enum Run {
    /// The start.
    Start,
    /// The Deployment is being read.
    GettingDeployment,
    /// In a dry run: what was installed earlier is being taken out.
    Reverting { deployment: Deployment, phase: RevertPhase },
    /// A driver is being checked.
    Checking { deployment: Deployment, index: usize, phase: CheckPhase },
    /// In a dry run: what a repair would do is being worked out.
    Describing { deployment: Deployment, index: usize },
    /// A driver is being repaired.
    Repairing { deployment: Deployment, index: usize, phase: RepairPhase },
    /// The Deployment is being read once more, after the repair of a driver.
    Refetching { deployment: Deployment, index: usize },
    /// A driver is being checked once more, after its repair.
    Rechecking { deployment: Deployment, index: usize, phase: CheckPhase },
    /// The wheels of a driver belong to another image and are being refreshed.
    Updating { deployment: Deployment, index: usize },
    /// The end.
    Done,
}

/// A [`Run`] with its texts as sequences of characters.
#[allow(inconsistent_fields)]
pub enum RunView {
    Start,
    GettingDeployment,
    Reverting { deployment: Deployment, phase: RevertPhaseView },
    Checking { deployment: Deployment, index: int, phase: CheckPhaseView },
    Describing { deployment: Deployment, index: int },
    Repairing { deployment: Deployment, index: int, phase: RepairPhase },
    Refetching { deployment: Deployment, index: int },
    Rechecking { deployment: Deployment, index: int, phase: CheckPhaseView },
    Updating { deployment: Deployment, index: int },
    Done,
}

impl View for Run {
    type V = RunView;

    open spec fn view(&self) -> RunView {
        match *self {
            Run::Start => RunView::Start,
            Run::GettingDeployment => RunView::GettingDeployment,
            Run::Reverting { deployment, phase } => RunView::Reverting {
                deployment,
                phase: phase@,
            },
            Run::Checking { deployment, index, phase } => RunView::Checking {
                deployment,
                index: index as int,
                phase: phase@,
            },
            Run::Describing { deployment, index } => RunView::Describing {
                deployment,
                index: index as int,
            },
            Run::Repairing { deployment, index, phase } => RunView::Repairing {
                deployment,
                index: index as int,
                phase,
            },
            Run::Refetching { deployment, index } => RunView::Refetching {
                deployment,
                index: index as int,
            },
            Run::Rechecking { deployment, index, phase } => RunView::Rechecking {
                deployment,
                index: index as int,
                phase: phase@,
            },
            Run::Updating { deployment, index } => RunView::Updating {
                deployment,
                index: index as int,
            },
            Run::Done => RunView::Done,
        }
    }
}

/// One step of a pass: where it stands now, what it reports, and what it asks for.
#[derive(Debug)]
pub struct Step {
    pub run: Run,
    pub notes: Vec<Note>,
    pub action: Action,
}

/// A [`Step`] with its texts as sequences of characters, and with what is remembered.
pub struct StepView {
    pub run: RunView,
    pub memory: Memory,
    pub notes: Seq<NoteView>,
    pub action: ActionView,
}

impl Step {
    /// The step, with what is remembered.
    pub open spec fn with_memory(self, memory: Memory) -> StepView {
        StepView {
            run: self.run@,
            memory,
            notes: notes_view(self.notes@),
            action: self.action@,
        }
    }
}

/// The end of a pass.
pub open spec fn done(
    memory: Memory,
    notes: Seq<NoteView>,
    outcome: Result<(), ErrorView>,
) -> StepView {
    StepView { run: RunView::Done, memory, notes, action: ActionView::Finish(outcome) }
}

/// The end of a pass that was answered something it had not asked.
pub open spec fn out_of_turn(memory: Memory) -> StepView {
    done(
        memory,
        Seq::empty(),
        Err(ErrorView::Internal("reconcile pass got an answer out of turn"@)),
    )
}

/// What happens with an absent driver: a repair, or in a dry run a description of it.
pub open spec fn absent(
    cfg: ConfigView,
    memory: Memory,
    deployment: Deployment,
    index: int,
    notes: Seq<NoteView>,
) -> StepView {
    StepView {
        run: if cfg.dry_run {
            RunView::Describing { deployment, index }
        } else {
            RunView::Repairing { deployment, index, phase: RepairPhase::ReadingConf }
        },
        memory,
        notes: notes.push(NoteView::Present { driver: cfg.drivers[index].name, present: false }),
        action: read_conf(),
    }
}

/// What happens from the driver at `index` on: drivers that are left alone are passed over, and the
/// check of the next other driver begins.
pub open spec fn advance(
    cfg: ConfigView,
    memory: Memory,
    deployment: Deployment,
    index: int,
    notes: Seq<NoteView>,
) -> StepView
    decreases cfg.drivers.len() - index,
{
    if index >= cfg.drivers.len() {
        done(memory, notes, Ok(()))
    } else if backs_off(memory, cfg.drivers[index].name) {
        advance(
            cfg,
            memory,
            deployment,
            index + 1,
            notes.push(NoteView::BackingOff(cfg.drivers[index].name)).push(
                NoteView::Present { driver: cfg.drivers[index].name, present: false },
            ),
        )
    } else {
        match check_start(deployment) {
            CheckStepView::Ask(phase, action) => StepView {
                run: RunView::Checking { deployment, index, phase },
                memory,
                notes,
                action,
            },
            _ => absent(cfg, memory, deployment, index, notes),
        }
    }
}

/// What is remembered once the wheels of a driver are downloaded with the image that the Deployment
/// runs.
pub open spec fn downloaded(
    memory: Memory,
    deployment: Deployment,
    driver: Seq<char>,
    portability: Result<Portability, ErrorView>,
) -> Memory {
    match deployment.image(MAIN_CONTAINER_NAME@) {
        Some(image) => refreshed(memory, driver, image, portability),
        None => memory,
    }
}

/// What happens when a driver needs no repair: if its wheels belong to another image than the one
/// that runs, they are refreshed with that one, but not in a dry run; then the next driver follows.
pub open spec fn kept(
    cfg: ConfigView,
    memory: Memory,
    deployment: Deployment,
    index: int,
    notes: Seq<NoteView>,
) -> StepView {
    match deployment.image(MAIN_CONTAINER_NAME@) {
        Some(image) => if !cfg.dry_run && outdated(memory, cfg.drivers[index].name, image) {
            StepView {
                run: RunView::Updating { deployment, index },
                memory,
                notes,
                action: ActionView::RefreshWheels {
                    driver: index,
                    image,
                    timeout_secs: WHEEL_TIMEOUT_SECS,
                },
            }
        } else {
            advance(cfg, memory, deployment, index + 1, notes)
        },
        None => advance(cfg, memory, deployment, index + 1, notes),
    }
}

/// What happens when outdated wheels are refreshed, or cannot be.
pub open spec fn updated(
    cfg: ConfigView,
    memory: Memory,
    deployment: Deployment,
    index: int,
    answer: Result<Vec<String>, GuardianError>,
) -> StepView {
    let name = cfg.drivers[index].name;
    match answer {
        Ok(filenames) => advance(
            cfg,
            downloaded(memory, deployment, name, portability_of(filenames@)),
            deployment,
            index + 1,
            Seq::empty().push(
                NoteView::Wheels { driver: name, portability: portability_of(filenames@) },
            ),
        ),
        Err(e) => advance(
            cfg,
            memory,
            deployment,
            index + 1,
            Seq::empty().push(NoteView::WheelsOutdated { driver: name, error: e@ }),
        ),
    }
}

/// What happens when a driver is found present, absent or degraded.
pub open spec fn concluded(
    cfg: ConfigView,
    memory: Memory,
    deployment: Deployment,
    index: int,
    check: CheckView,
) -> StepView {
    let name = cfg.drivers[index].name;
    match check {
        CheckView::Present => kept(
            cfg,
            forgiven(memory, name),
            deployment,
            index,
            Seq::empty().push(NoteView::Present { driver: name, present: true }),
        ),
        CheckView::Degraded(reason) => kept(
            cfg,
            memory,
            deployment,
            index,
            Seq::empty().push(NoteView::Degraded { driver: name, reason }).push(
                NoteView::Present { driver: name, present: false },
            ),
        ),
        CheckView::Absent => absent(cfg, memory, deployment, index, Seq::empty()),
    }
}

/// What happens when the check after a repair finds a driver present, absent or degraded.
pub open spec fn reconcluded(
    cfg: ConfigView,
    memory: Memory,
    deployment: Deployment,
    index: int,
    check: CheckView,
) -> StepView {
    let name = cfg.drivers[index].name;
    match check {
        CheckView::Present => advance(
            cfg,
            forgiven(memory, name),
            deployment,
            index + 1,
            Seq::empty().push(NoteView::Confirmed(name)),
        ),
        _ => advance(
            cfg,
            bumped(memory, name),
            deployment,
            index + 1,
            Seq::empty().push(NoteView::NotConfirmed { driver: name, check }),
        ),
    }
}

/// What happens when the Deployment is read once more after a repair: the check goes by what it is
/// now.
pub open spec fn refetched(
    cfg: ConfigView,
    memory: Memory,
    deployment: Deployment,
    index: int,
    answer: Result<Deployment, GuardianError>,
) -> StepView {
    match answer {
        Ok(now) => match check_start(now) {
            CheckStepView::Ask(phase, action) => StepView {
                run: RunView::Rechecking { deployment, index, phase },
                memory,
                notes: Seq::empty(),
                action,
            },
            _ => reconcluded(cfg, memory, deployment, index, CheckView::Absent),
        },
        Err(_) => reconcluded(
            cfg,
            memory,
            deployment,
            index,
            CheckView::Degraded("error reading deployment"@),
        ),
    }
}

/// What happens when a repair is applied or broken off.
pub open spec fn repaired(
    cfg: ConfigView,
    memory: Memory,
    deployment: Deployment,
    index: int,
    outcome: Result<(), ErrorView>,
) -> StepView {
    let name = cfg.drivers[index].name;
    match outcome {
        Ok(()) => StepView {
            run: RunView::Refetching { deployment, index },
            memory,
            notes: Seq::empty().push(NoteView::Repaired(name)),
            action: ActionView::GetDeployment(cfg.deployment_name),
        },
        Err(error) => advance(
            cfg,
            bumped(memory, name),
            deployment,
            index + 1,
            Seq::empty().push(NoteView::RepairBrokenOff { driver: name, error }),
        ),
    }
}

/// No driver of the first `n` is present.
pub open spec fn none_present(cfg: ConfigView, n: int) -> Seq<NoteView>
    decreases n,
{
    if n <= 0 {
        Seq::empty().push(NoteView::Reverted)
    } else {
        none_present(cfg, n - 1).push(
            NoteView::Present { driver: cfg.drivers[n - 1].name, present: false },
        )
    }
}

/// What [`run_once`] does.
pub open spec fn run_step(
    cfg: ConfigView,
    namespace: Seq<char>,
    memory: Memory,
    now_secs: u64,
    run: RunView,
    reply: Reply,
) -> StepView {
    match run {
        RunView::Start => match reply {
            Reply::Begin => StepView {
                run: RunView::GettingDeployment,
                memory,
                notes: Seq::empty(),
                action: ActionView::GetDeployment(cfg.deployment_name),
            },
            _ => out_of_turn(memory),
        },
        RunView::GettingDeployment => match reply {
            Reply::Deployment(Ok(deployment)) => if cfg.dry_run {
                StepView {
                    run: RunView::Reverting { deployment, phase: RevertPhaseView::ReadingConf },
                    memory,
                    notes: Seq::empty(),
                    action: read_conf(),
                }
            } else {
                advance(cfg, memory, deployment, 0, Seq::empty())
            },
            Reply::Deployment(Err(e)) => done(memory, Seq::empty(), Err(e@)),
            _ => out_of_turn(memory),
        },
        RunView::Reverting { deployment, phase } => match revert_step(
            cfg,
            namespace,
            deployment,
            now_secs,
            phase,
            reply,
        ) {
            RevertStepView::NotNeeded => advance(cfg, memory, deployment, 0, Seq::empty()),
            RevertStepView::Ended(Ok(())) => done(
                memory,
                none_present(cfg, cfg.drivers.len() as int),
                Ok(()),
            ),
            RevertStepView::Ended(Err(e)) => done(memory, Seq::empty(), Err(e)),
            RevertStepView::Ask(phase, action) => StepView {
                run: RunView::Reverting { deployment, phase },
                memory,
                notes: Seq::empty(),
                action,
            },
            RevertStepView::OutOfTurn => out_of_turn(memory),
        },
        RunView::Checking { deployment, index, phase } => match check_step(
            cfg.drivers[index].name,
            cfg.drivers[index].import_module,
            phase,
            reply,
        ) {
            CheckStepView::Decided(check) => concluded(cfg, memory, deployment, index, check),
            CheckStepView::Ask(phase, action) => StepView {
                run: RunView::Checking { deployment, index, phase },
                memory,
                notes: Seq::empty(),
                action,
            },
            CheckStepView::OutOfTurn => out_of_turn(memory),
        },
        RunView::Describing { deployment, index } => match reply {
            Reply::Secret(r) => advance(
                cfg,
                memory,
                deployment,
                index + 1,
                Seq::empty().push(
                    NoteView::RepairDryRun {
                        driver: cfg.drivers[index].name,
                        description: description(cfg.deployment_name, cfg.drivers[index], r),
                    },
                ),
            ),
            _ => out_of_turn(memory),
        },
        RunView::Repairing { deployment, index, phase } => match repair_step(
            cfg,
            namespace,
            index,
            deployment,
            now_secs,
            phase,
            reply,
        ) {
            RepairStepView::Ended(outcome) => repaired(cfg, memory, deployment, index, outcome),
            RepairStepView::Ask(phase, action) => StepView {
                run: RunView::Repairing { deployment, index, phase },
                memory,
                notes: Seq::empty(),
                action,
            },
            RepairStepView::AskWithWheels(portability, phase, action) => StepView {
                run: RunView::Repairing { deployment, index, phase },
                memory: downloaded(memory, deployment, cfg.drivers[index].name, portability),
                notes: Seq::empty().push(
                    NoteView::Wheels { driver: cfg.drivers[index].name, portability },
                ),
                action,
            },
            RepairStepView::OutOfTurn => out_of_turn(memory),
        },
        RunView::Refetching { deployment, index } => match reply {
            Reply::Deployment(answer) => refetched(cfg, memory, deployment, index, answer),
            _ => out_of_turn(memory),
        },
        RunView::Rechecking { deployment, index, phase } => match check_step(
            cfg.drivers[index].name,
            cfg.drivers[index].import_module,
            phase,
            reply,
        ) {
            CheckStepView::Decided(check) => reconcluded(cfg, memory, deployment, index, check),
            CheckStepView::Ask(phase, action) => StepView {
                run: RunView::Rechecking { deployment, index, phase },
                memory,
                notes: Seq::empty(),
                action,
            },
            CheckStepView::OutOfTurn => out_of_turn(memory),
        },
        RunView::Updating { deployment, index } => match reply {
            Reply::Wheels(answer) => updated(cfg, memory, deployment, index, answer),
            _ => out_of_turn(memory),
        },
        RunView::Done => out_of_turn(memory),
    }
}

/// Whether a pass and what is remembered fit the settings: the driver that is looked at is in the
/// list and is not one that is left alone, and every recorded number of failures is at least one and
/// no more than it takes to be left alone.
pub open spec fn fits(cfg: ConfigView, memory: Memory, run: RunView) -> bool {
    &&& bounded(memory)
    &&& match run {
        RunView::Checking { index, .. } => tended(cfg, memory, index),
        RunView::Describing { index, .. } => tended(cfg, memory, index),
        RunView::Repairing { index, .. } => tended(cfg, memory, index),
        RunView::Refetching { index, .. } => tended(cfg, memory, index),
        RunView::Rechecking { index, .. } => tended(cfg, memory, index),
        RunView::Updating { index, .. } => tended(cfg, memory, index),
        _ => true,
    }
}

/// Whether there is a driver at `index`, and it is not left alone.
pub open spec fn tended(cfg: ConfigView, memory: Memory, index: int) -> bool {
    0 <= index < cfg.drivers.len() && !backs_off(memory, cfg.drivers[index].name)
}

/// What happens from the driver at `from` on; see [`advance`].
#[verifier::loop_isolation(false)]
fn go_on(
    cfg: &Config,
    state: &ReconcileState,
    deployment: Deployment,
    from: usize,
    notes: Vec<Note>,
) -> (r: Step)
    requires
        bounded(state@),
        from <= cfg.drivers@.len(),
    ensures
        r.with_memory(state@) == advance(
            cfg@,
            state@,
            deployment,
            from as int,
            notes_view(notes@),
        ),
        fits(cfg@, state@, r.run@),
{
    let ghost goal = advance(cfg@, state@, deployment, from as int, notes_view(notes@));
    let mut notes = notes;
    let mut i: usize = from;
    while i < cfg.drivers.len()
        invariant
            i <= cfg.drivers@.len(),
            bounded(state@),
            goal == advance(cfg@, state@, deployment, i as int, notes_view(notes@)),
        decreases cfg.drivers@.len() - i,
    {
        let driver = &cfg.drivers[i];
        assert(cfg@.drivers[i as int] == driver@);
        if !state.backing_off(driver.name.as_str()) {
            return match check_present(&deployment) {
                CheckStep::Ask(phase, action) => Step {
                    run: Run::Checking { deployment, index: i, phase },
                    notes,
                    action,
                },
                _ => to_absent(cfg, state, deployment, i, notes),
            };
        }
        let ghost before = notes_view(notes@);
        notes.push(Note::BackingOff(driver.name.clone()));
        notes.push(Note::Present { driver: driver.name.clone(), present: false });
        assert(notes_view(notes@) =~= before.push(NoteView::BackingOff(driver.name@)).push(
            NoteView::Present { driver: driver.name@, present: false },
        ));
        i = i + 1;
    }
    Step { run: Run::Done, notes, action: Action::Finish(Ok(())) }
}

/// What happens with an absent driver; see [`absent`].
fn to_absent(
    cfg: &Config,
    state: &ReconcileState,
    deployment: Deployment,
    index: usize,
    notes: Vec<Note>,
) -> (r: Step)
    requires
        bounded(state@),
        tended(cfg@, state@, index as int),
    ensures
        r.with_memory(state@) == absent(
            cfg@,
            state@,
            deployment,
            index as int,
            notes_view(notes@),
        ),
        fits(cfg@, state@, r.run@),
{
    let ghost before = notes_view(notes@);
    let mut notes = notes;
    let driver = &cfg.drivers[index];
    assert(cfg@.drivers[index as int] == driver@);
    notes.push(Note::Present { driver: driver.name.clone(), present: false });
    assert(notes_view(notes@) =~= before.push(
        NoteView::Present { driver: driver.name@, present: false },
    ));
    let run = if cfg.dry_run {
        Run::Describing { deployment, index }
    } else {
        Run::Repairing { deployment, index, phase: RepairPhase::ReadingConf }
    };
    Step { run, notes, action: ask_conf() }
}

/// The place behind `index`.
fn after(cfg: &Config, index: usize) -> (r: usize)
    requires
        index < cfg.drivers@.len(),
    ensures
        r == index + 1,
{
    let n: usize = cfg.drivers.len();
    assert(index < n);
    index + 1
}

/// A list of one note.
fn noted(note: Note) -> (r: Vec<Note>)
    ensures
        notes_view(r@) == Seq::empty().push(note@),
{
    let ghost n = note@;
    let mut r: Vec<Note> = Vec::new();
    r.push(note);
    assert(notes_view(r@) =~= Seq::empty().push(n));
    r
}

/// No notes.
fn nothing_noted() -> (r: Vec<Note>)
    ensures
        notes_view(r@) == Seq::<NoteView>::empty(),
{
    let r: Vec<Note> = Vec::new();
    assert(notes_view(r@) =~= Seq::<NoteView>::empty());
    r
}

/// Remembers the wheels of a driver, downloaded with the image that the Deployment runs; see
/// [`downloaded`].
fn keep_wheels(
    state: &mut ReconcileState,
    deployment: &Deployment,
    driver: &str,
    portability: &Result<Portability, GuardianError>,
)
    ensures
        final(state)@ == downloaded(
            old(state)@,
            *deployment,
            driver@,
            portability_result(*portability),
        ),
{
    match K8s::main_container_image(deployment, MAIN_CONTAINER_NAME) {
        Some(image) => state.remember(driver, image.as_str(), portability),
        None => {},
    }
}

/// What happens when a driver needs no repair; see [`kept`].
fn to_kept(
    cfg: &Config,
    state: &ReconcileState,
    deployment: Deployment,
    index: usize,
    notes: Vec<Note>,
) -> (r: Step)
    requires
        bounded(state@),
        tended(cfg@, state@, index as int),
    ensures
        r.with_memory(state@) == kept(
            cfg@,
            state@,
            deployment,
            index as int,
            notes_view(notes@),
        ),
        fits(cfg@, state@, r.run@),
{
    let driver = &cfg.drivers[index];
    assert(cfg@.drivers[index as int] == driver@);
    match K8s::main_container_image(&deployment, MAIN_CONTAINER_NAME) {
        Some(image) => if !cfg.dry_run && state.wheels_outdated(
            driver.name.as_str(),
            image.as_str(),
        ) {
            Step {
                run: Run::Updating { deployment, index },
                notes,
                action: Action::RefreshWheels {
                    driver: index,
                    image,
                    timeout_secs: WHEEL_TIMEOUT_SECS,
                },
            }
        } else {
            go_on(cfg, state, deployment, after(cfg, index), notes)
        },
        None => go_on(cfg, state, deployment, after(cfg, index), notes),
    }
}

/// What happens when outdated wheels are refreshed, or cannot be; see [`updated`].
fn after_update(
    cfg: &Config,
    state: &mut ReconcileState,
    deployment: Deployment,
    index: usize,
    answer: Result<Vec<String>, GuardianError>,
) -> (r: Step)
    requires
        bounded(old(state)@),
        tended(cfg@, old(state)@, index as int),
    ensures
        r.with_memory(final(state)@) == updated(
            cfg@,
            old(state)@,
            deployment,
            index as int,
            answer,
        ),
        fits(cfg@, final(state)@, r.run@),
{
    let driver = &cfg.drivers[index];
    assert(cfg@.drivers[index as int] == driver@);
    match answer {
        Ok(filenames) => {
            let portability = classify(filenames.as_slice());
            keep_wheels(state, &deployment, driver.name.as_str(), &portability);
            let notes = noted(Note::Wheels { driver: driver.name.clone(), portability });
            go_on(cfg, state, deployment, after(cfg, index), notes)
        },
        Err(error) => {
            let notes = noted(Note::WheelsOutdated { driver: driver.name.clone(), error });
            go_on(cfg, state, deployment, after(cfg, index), notes)
        },
    }
}

/// What happens when a driver is found present, absent or degraded; see [`concluded`].
fn conclude(
    cfg: &Config,
    state: &mut ReconcileState,
    deployment: Deployment,
    index: usize,
    check: CheckResult,
) -> (r: Step)
    requires
        bounded(old(state)@),
        tended(cfg@, old(state)@, index as int),
    ensures
        r.with_memory(final(state)@) == concluded(
            cfg@,
            old(state)@,
            deployment,
            index as int,
            check@,
        ),
        fits(cfg@, final(state)@, r.run@),
{
    let driver = &cfg.drivers[index];
    assert(cfg@.drivers[index as int] == driver@);
    match check {
        CheckResult::Present => {
            proof {
                lemma_forgetting(state@, driver.name@);
            }
            state.forget(driver.name.as_str());
            let notes = noted(Note::Present { driver: driver.name.clone(), present: true });
            to_kept(cfg, state, deployment, index, notes)
        },
        CheckResult::Degraded(reason) => {
            let mut notes = noted(
                Note::Degraded { driver: driver.name.clone(), reason: reason.to_owned() },
            );
            let ghost before = notes_view(notes@);
            notes.push(Note::Present { driver: driver.name.clone(), present: false });
            assert(notes_view(notes@) =~= before.push(
                NoteView::Present { driver: driver.name@, present: false },
            ));
            to_kept(cfg, state, deployment, index, notes)
        },
        CheckResult::Absent => to_absent(cfg, state, deployment, index, nothing_noted()),
    }
}

/// What happens when the check after a repair is over; see [`reconcluded`].
fn reconclude(
    cfg: &Config,
    state: &mut ReconcileState,
    deployment: Deployment,
    index: usize,
    check: CheckResult,
) -> (r: Step)
    requires
        bounded(old(state)@),
        tended(cfg@, old(state)@, index as int),
    ensures
        r.with_memory(final(state)@) == reconcluded(
            cfg@,
            old(state)@,
            deployment,
            index as int,
            check@,
        ),
        fits(cfg@, final(state)@, r.run@),
{
    let driver = &cfg.drivers[index];
    assert(cfg@.drivers[index as int] == driver@);
    match check {
        CheckResult::Present => {
            proof {
                lemma_forgetting(state@, driver.name@);
            }
            state.forget(driver.name.as_str());
            let notes = noted(Note::Confirmed(driver.name.clone()));
            go_on(cfg, state, deployment, after(cfg, index), notes)
        },
        other => {
            proof {
                lemma_bumping(state@, driver.name@);
            }
            bump_failure(state, driver.name.as_str());
            let notes = noted(Note::NotConfirmed { driver: driver.name.clone(), check: other });
            go_on(cfg, state, deployment, after(cfg, index), notes)
        },
    }
}

/// What happens when the Deployment is read once more after a repair; see [`refetched`].
fn after_refetch(
    cfg: &Config,
    state: &mut ReconcileState,
    deployment: Deployment,
    index: usize,
    answer: Result<Deployment, GuardianError>,
) -> (r: Step)
    requires
        bounded(old(state)@),
        tended(cfg@, old(state)@, index as int),
    ensures
        r.with_memory(final(state)@) == refetched(
            cfg@,
            old(state)@,
            deployment,
            index as int,
            answer,
        ),
        fits(cfg@, final(state)@, r.run@),
{
    match answer {
        Ok(now) => match check_present(&now) {
            CheckStep::Ask(phase, action) => Step {
                run: Run::Rechecking { deployment, index, phase },
                notes: nothing_noted(),
                action,
            },
            _ => reconclude(cfg, state, deployment, index, CheckResult::Absent),
        },
        Err(_) => reconclude(
            cfg,
            state,
            deployment,
            index,
            CheckResult::Degraded("error reading deployment"),
        ),
    }
}

/// What happens when a repair is applied or broken off; see [`repaired`].
fn after_repair(
    cfg: &Config,
    state: &mut ReconcileState,
    deployment: Deployment,
    index: usize,
    outcome: Result<(), GuardianError>,
) -> (r: Step)
    requires
        bounded(old(state)@),
        tended(cfg@, old(state)@, index as int),
    ensures
        r.with_memory(final(state)@) == repaired(
            cfg@,
            old(state)@,
            deployment,
            index as int,
            match outcome {
                Ok(()) => Ok(()),
                Err(e) => Err(e@),
            },
        ),
        fits(cfg@, final(state)@, r.run@),
{
    let driver = &cfg.drivers[index];
    assert(cfg@.drivers[index as int] == driver@);
    match outcome {
        Ok(()) => Step {
            run: Run::Refetching { deployment, index },
            notes: noted(Note::Repaired(driver.name.clone())),
            action: Action::GetDeployment(cfg.deployment_name.clone()),
        },
        Err(error) => {
            proof {
                lemma_bumping(state@, driver.name@);
            }
            bump_failure(state, driver.name.as_str());
            let notes = noted(Note::RepairBrokenOff { driver: driver.name.clone(), error });
            go_on(cfg, state, deployment, after(cfg, index), notes)
        },
    }
}

fn finish(outcome: Result<(), GuardianError>) -> (r: Step)
    ensures
        forall|memory: Memory| #[trigger]
            r.with_memory(memory) == done(
                memory,
                Seq::empty(),
                match outcome {
                    Ok(()) => Ok(()),
                    Err(e) => Err(e@),
                },
            ),
{
    Step { run: Run::Done, notes: nothing_noted(), action: Action::Finish(outcome) }
}

fn confused() -> (r: Step)
    ensures
        forall|memory: Memory| #[trigger]
            r.with_memory(memory) == out_of_turn(memory),
{
    finish(Err(GuardianError::Internal("reconcile pass got an answer out of turn".to_owned())))
}

/// The notes of a pass that has taken everything out; see [`none_present`].
fn nothing_left(cfg: &Config) -> (r: Vec<Note>)
    ensures
        notes_view(r@) == none_present(cfg@, cfg@.drivers.len() as int),
{
    let mut r = noted(Note::Reverted);
    for i in 0..cfg.drivers.len()
        invariant
            notes_view(r@) == none_present(cfg@, i as int),
    {
        let ghost before = notes_view(r@);
        assert(cfg@.drivers[i as int] == cfg.drivers@[i as int]@);
        r.push(Note::Present { driver: cfg.drivers[i].name.clone(), present: false });
        assert(notes_view(r@) =~= before.push(
            NoteView::Present { driver: cfg.drivers@[i as int].name@, present: false },
        ));
    }
    r
}

/// One step of a reconcile pass: `reply` is the answer to what the pass asked for last, and
/// `now_secs` the time. A pass reads the Deployment. In a dry run it then takes out what was
/// installed earlier, and if there was anything, that is all it does. Otherwise it goes through the
/// drivers in order. A driver whose repairs have failed too often in a row is left alone. Any other
/// driver is checked. One that is present is done, and its failed repairs are forgotten. One that is
/// degraded is reported. The wheels of either are refreshed, but not in a dry run, if they were last
/// downloaded with another image than runs now and cannot be kept then. One that is absent is repaired, or in a dry run only described; after the
/// repair the Deployment is read and the driver checked once more, and only if it is present then has
/// the repair not failed. An answer to something that was not asked ends the pass with an error.
pub fn run_once(
    cfg: &Config,
    k8s: &K8s,
    state: &mut ReconcileState,
    now_secs: u64,
    run: Run,
    reply: Reply,
) -> (r: Step)
    requires
        fits(cfg@, old(state)@, run@),
    ensures
        r.with_memory(final(state)@) == run_step(
            cfg@,
            k8s.namespace@,
            old(state)@,
            now_secs,
            run@,
            reply,
        ),
        fits(cfg@, final(state)@, r.run@),
{
    match run {
        Run::Start => match reply {
            Reply::Begin => Step {
                run: Run::GettingDeployment,
                notes: nothing_noted(),
                action: Action::GetDeployment(cfg.deployment_name.clone()),
            },
            _ => confused(),
        },
        Run::GettingDeployment => match reply {
            Reply::Deployment(Ok(deployment)) => if cfg.dry_run {
                Step {
                    run: Run::Reverting { deployment, phase: RevertPhase::ReadingConf },
                    notes: nothing_noted(),
                    action: ask_conf(),
                }
            } else {
                go_on(cfg, state, deployment, 0, nothing_noted())
            },
            Reply::Deployment(Err(e)) => finish(Err(e)),
            _ => confused(),
        },
        Run::Reverting { deployment, phase } => match revert(
            cfg,
            k8s,
            &deployment,
            now_secs,
            phase,
            reply,
        ) {
            RevertStep::NotNeeded => go_on(cfg, state, deployment, 0, nothing_noted()),
            RevertStep::Ended(Ok(())) => Step {
                run: Run::Done,
                notes: nothing_left(cfg),
                action: Action::Finish(Ok(())),
            },
            RevertStep::Ended(Err(e)) => finish(Err(e)),
            RevertStep::Ask(phase, action) => Step {
                run: Run::Reverting { deployment, phase },
                notes: nothing_noted(),
                action,
            },
            RevertStep::OutOfTurn => confused(),
        },
        Run::Checking { deployment, index, phase } => {
            let driver = &cfg.drivers[index];
            assert(cfg@.drivers[index as int] == driver@);
            match check_present_next(
                driver.name.as_str(),
                driver.import_module.as_str(),
                phase,
                reply,
            ) {
                CheckStep::Decided(check) => conclude(cfg, state, deployment, index, check),
                CheckStep::Ask(phase, action) => Step {
                    run: Run::Checking { deployment, index, phase },
                    notes: nothing_noted(),
                    action,
                },
                CheckStep::OutOfTurn => confused(),
            }
        },
        Run::Describing { deployment, index } => match reply {
            Reply::Secret(r) => {
                let driver = &cfg.drivers[index];
                assert(cfg@.drivers[index as int] == driver@);
                let notes = noted(
                    Note::RepairDryRun {
                        driver: driver.name.clone(),
                        description: describe_intended_repair(cfg, driver, r),
                    },
                );
                go_on(cfg, state, deployment, after(cfg, index), notes)
            },
            _ => confused(),
        },
        Run::Repairing { deployment, index, phase } => match repair(
            cfg,
            k8s,
            index,
            &deployment,
            now_secs,
            phase,
            reply,
        ) {
            RepairStep::Ended(outcome) => after_repair(cfg, state, deployment, index, outcome),
            RepairStep::Ask(phase, action) => Step {
                run: Run::Repairing { deployment, index, phase },
                notes: nothing_noted(),
                action,
            },
            RepairStep::AskWithWheels(portability, phase, action) => {
                let driver = &cfg.drivers[index];
                assert(cfg@.drivers[index as int] == driver@);
                keep_wheels(state, &deployment, driver.name.as_str(), &portability);
                Step {
                    run: Run::Repairing { deployment, index, phase },
                    notes: noted(Note::Wheels { driver: driver.name.clone(), portability }),
                    action,
                }
            },
            RepairStep::OutOfTurn => confused(),
        },
        Run::Refetching { deployment, index } => match reply {
            Reply::Deployment(answer) => after_refetch(cfg, state, deployment, index, answer),
            _ => confused(),
        },
        Run::Rechecking { deployment, index, phase } => {
            let driver = &cfg.drivers[index];
            assert(cfg@.drivers[index as int] == driver@);
            match check_present_next(
                driver.name.as_str(),
                driver.import_module.as_str(),
                phase,
                reply,
            ) {
                CheckStep::Decided(check) => reconclude(cfg, state, deployment, index, check),
                CheckStep::Ask(phase, action) => Step {
                    run: Run::Rechecking { deployment, index, phase },
                    notes: nothing_noted(),
                    action,
                },
                CheckStep::OutOfTurn => confused(),
            }
        },
        Run::Updating { deployment, index } => match reply {
            Reply::Wheels(answer) => after_update(cfg, state, deployment, index, answer),
            _ => confused(),
        },
        Run::Done => confused(),
    }
}

} // verus!
