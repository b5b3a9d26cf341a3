//! What holds of the wheels of every driver, from pass to pass.
use crate::config::ConfigView;
use crate::error::GuardianError;
use crate::k8s::Deployment;
use crate::reconcile::actions::{ActionView, NoteView, Reply};
use crate::reconcile::check::{
    check_step, CheckPhaseView, CheckStepView, CheckView, MAIN_CONTAINER_NAME,
};
use crate::reconcile::repair::{RepairPhase, WHEEL_TIMEOUT_SECS};
use crate::reconcile::run::{advance, downloaded, fits, run_step, RunView};
use crate::reconcile::run_laws::{current, lemma_advance};
use crate::reconcile::state::{
    bounded, lemma_bumping, lemma_forgetting, lemma_refreshing, outdated, refreshed, Memory,
};
use crate::wheelcache::{portability_of, Portability};
use vstd::prelude::*;

verus! {

/// The image that the Deployment runs.
pub open spec fn running(deployment: Deployment) -> Option<Seq<char>> {
    deployment.image(MAIN_CONTAINER_NAME@)
}

/// Where the check of a driver ends without a need for a repair, and its wheels belong to another
/// image than the one that runs, the pass asks at once for a refresh with the image that runs. A dry
/// run does not.
pub proof fn law_outdated_wheels_are_refreshed(
    cfg: ConfigView,
    namespace: Seq<char>,
    memory: Memory,
    now_secs: u64,
    deployment: Deployment,
    index: int,
    phase: CheckPhaseView,
    reply: Reply,
    check: CheckView,
    image: Seq<char>,
)
    requires
        !cfg.dry_run,
        check_step(cfg.drivers[index].name, cfg.drivers[index].import_module, phase, reply)
            == CheckStepView::Decided(check),
        check !is Absent,
        running(deployment) == Some(image),
        outdated(memory, cfg.drivers[index].name, image),
    ensures
        ({
            let s = run_step(
                cfg,
                namespace,
                memory,
                now_secs,
                RunView::Checking { deployment, index, phase },
                reply,
            );
            &&& s.action == (ActionView::RefreshWheels {
                driver: index,
                image,
                timeout_secs: WHEEL_TIMEOUT_SECS,
            })
            &&& s.run == (RunView::Updating { deployment, index })
        }),
{
}

/// Wheels that fit any image are never outdated, nor are those that were downloaded with the image
/// that runs, nor those of which nothing is remembered.
pub proof fn law_wheels_that_fit_are_not_outdated(
    memory: Memory,
    driver: Seq<char>,
    image: Seq<char>,
)
    requires
        memory.wheels.dom().contains(driver) ==> memory.wheels[driver].portability
            == Portability::UniversalPureAny || memory.wheels[driver].image == image,
    ensures
        !outdated(memory, driver, image),
{
}

/// Outside of repairs, wheels are refreshed only if they belong to another image than the one that
/// runs, not in a dry run, and only behind the check of their own driver.
pub proof fn law_only_outdated_wheels_are_refreshed(
    cfg: ConfigView,
    namespace: Seq<char>,
    memory: Memory,
    now_secs: u64,
    run: RunView,
    reply: Reply,
)
    requires
        fits(cfg, memory, run),
        run_step(cfg, namespace, memory, now_secs, run, reply).run is Updating,
    ensures
        ({
            let s = run_step(cfg, namespace, memory, now_secs, run, reply);
            let index = current(s.run)->0;
            let image = running(s.run->Updating_deployment);
            &&& !cfg.dry_run
            &&& run is Checking
            &&& current(run) == Some(index)
            &&& image is Some
            &&& outdated(memory, cfg.drivers[index].name, image->0)
            &&& s.action == (ActionView::RefreshWheels {
                driver: index,
                image: image->0,
                timeout_secs: WHEEL_TIMEOUT_SECS,
            })
        }),
{
    match current(run) {
        Some(i) => {
            let name = cfg.drivers[i].name;
            lemma_forgetting(memory, name);
            lemma_bumping(memory, name);
            assert forall|f: Memory, d: Deployment, notes: Seq<NoteView>| bounded(f) implies (
            #[trigger] advance(cfg, f, d, i + 1, notes)).run !is Updating by {
                lemma_advance(cfg, f, d, i + 1, notes);
            }
        },
        None => {
            assert forall|d: Deployment, notes: Seq<NoteView>| (#[trigger] advance(
                cfg,
                memory,
                d,
                0,
                notes,
            )).run !is Updating by {
                lemma_advance(cfg, memory, d, 0, notes);
            }
        },
    }
}

/// A refresh is remembered with the image that it was made with, be it part of a repair or not: with
/// that image the wheels are not outdated.
pub proof fn law_a_refresh_is_remembered(
    cfg: ConfigView,
    namespace: Seq<char>,
    memory: Memory,
    now_secs: u64,
    deployment: Deployment,
    index: int,
    repairing: bool,
    filenames: Vec<String>,
    image: Seq<char>,
)
    requires
        bounded(memory),
        0 <= index < cfg.drivers.len(),
        running(deployment) == Some(image),
    ensures
        ({
            let name = cfg.drivers[index].name;
            let s = run_step(
                cfg,
                namespace,
                memory,
                now_secs,
                if repairing {
                    RunView::Repairing { deployment, index, phase: RepairPhase::Refreshing }
                } else {
                    RunView::Updating { deployment, index }
                },
                Reply::Wheels(Ok(filenames)),
            );
            &&& s.memory == refreshed(memory, name, image, portability_of(filenames@))
            &&& !outdated(s.memory, name, image)
        }),
{
    let name = cfg.drivers[index].name;
    let kind = portability_of(filenames@);
    lemma_refreshing(memory, name, image, kind);
    lemma_advance(
        cfg,
        downloaded(memory, deployment, name, kind),
        deployment,
        index + 1,
        Seq::empty().push(NoteView::Wheels { driver: name, portability: kind }),
    );
}

/// A refresh of outdated wheels that fails is reported, and nothing is forgotten: the wheels are as
/// outdated as before, so the next pass tries again.
pub proof fn law_a_failed_refresh_is_tried_again(
    cfg: ConfigView,
    namespace: Seq<char>,
    memory: Memory,
    now_secs: u64,
    deployment: Deployment,
    index: int,
    error: GuardianError,
)
    requires
        bounded(memory),
        0 <= index < cfg.drivers.len(),
    ensures
        ({
            let s = run_step(
                cfg,
                namespace,
                memory,
                now_secs,
                RunView::Updating { deployment, index },
                Reply::Wheels(Err(error)),
            );
            &&& s.memory == memory
            &&& s.notes.len() > 0
            &&& s.notes[0] == (NoteView::WheelsOutdated {
                driver: cfg.drivers[index].name,
                error: error@,
            })
        }),
{
    let notes = Seq::empty().push(
        NoteView::WheelsOutdated { driver: cfg.drivers[index].name, error: error@ },
    );
    lemma_advance(cfg, memory, deployment, index + 1, notes);
    let s = advance(cfg, memory, deployment, index + 1, notes);
    assert(s.notes.take(1)[0] == notes[0]);
}

} // verus!
