//! What holds of every repair, whatever it is answered.
use crate::config::ConfigView;
use crate::error::{ErrorView, GuardianError};
use crate::files::file_lines;
use crate::k8s::{injection, Deployment};
use crate::reconcile::actions::{ActionView, NoteView, Reply, SecretKey};
use crate::reconcile::check::MAIN_CONTAINER_NAME;
use crate::reconcile::ml2_conf::{conf_with, drivers_value};
use crate::reconcile::repair::{
    conf_read, description, patch_conf, repair_step, repair_words, truth_word, RepairPhase,
    RepairStepView, WHEEL_TIMEOUT_SECS,
};
use crate::reconcile::run::{advance, fits, run_step, RunView};
use crate::reconcile::run_laws::{lemma_advance, repair_left};
use crate::reconcile::state::{bumped, lemma_bumping, Memory};
use crate::text::{contains, occurs_at};
use vstd::prelude::*;

verus! {

/// Why an answer is a failure, if it is one.
pub open spec fn failure(reply: Reply) -> Option<ErrorView> {
    match reply {
        Reply::Deployment(Err(e)) => Some(e@),
        Reply::Secret(Err(e)) => Some(e@),
        Reply::ConfigMap(Err(e)) => Some(e@),
        Reply::Patched(Err(e)) => Some(e@),
        Reply::Wheels(Err(e)) => Some(e@),
        _ => None,
    }
}

/// A repair only goes forward, and the patch of the Deployment comes last: nothing follows it, and a
/// repair is applied only when it is.
pub proof fn law_the_deployment_is_patched_last(
    cfg: ConfigView,
    namespace: Seq<char>,
    index: int,
    deployment: Deployment,
    now_secs: u64,
    phase: RepairPhase,
    reply: Reply,
)
    ensures
        match repair_step(cfg, namespace, index, deployment, now_secs, phase, reply) {
            RepairStepView::Ask(next, action) => {
                &&& repair_left(next) < repair_left(phase)
                &&& action is PatchDeployment <==> next == RepairPhase::PatchingDeployment
                &&& action is PatchDeployment ==> phase == RepairPhase::GettingDeployment
            },
            RepairStepView::AskWithWheels(_, next, action) => repair_left(next) < repair_left(phase)
                && !(action is PatchDeployment),
            RepairStepView::Ended(Ok(())) => phase == RepairPhase::PatchingDeployment && (
            reply matches Reply::Patched(Ok(_))),
            _ => true,
        },
{
}

/// A step that fails breaks the repair off, with the failure as its reason. So a repair that fails
/// before its last step has not touched the Deployment, and the running pods are left alone.
pub proof fn law_a_failed_step_breaks_the_repair_off(
    cfg: ConfigView,
    namespace: Seq<char>,
    index: int,
    deployment: Deployment,
    now_secs: u64,
    phase: RepairPhase,
    reply: Reply,
)
    requires
        failure(reply) is Some,
        repair_step(cfg, namespace, index, deployment, now_secs, phase, reply) !is OutOfTurn,
    ensures
        repair_step(cfg, namespace, index, deployment, now_secs, phase, reply)
            == RepairStepView::Ended(Err(failure(reply)->0)),
{
}

/// A repair makes its wheels with the image that the Deployment runs, and gives the injector the
/// image that the Deployment runs when it is patched: neither is ever pinned.
pub proof fn law_a_repair_uses_the_running_image(
    cfg: ConfigView,
    namespace: Seq<char>,
    index: int,
    deployment: Deployment,
    now_secs: u64,
    phase: RepairPhase,
    reply: Reply,
)
    ensures
        match repair_step(cfg, namespace, index, deployment, now_secs, phase, reply) {
            RepairStepView::Ask(_, ActionView::RefreshWheels { driver, image, timeout_secs }) => {
                &&& driver == index
                &&& Some(image) == deployment.image(MAIN_CONTAINER_NAME@)
                &&& timeout_secs == WHEEL_TIMEOUT_SECS
            },
            RepairStepView::Ask(_, ActionView::PatchDeployment(p)) => {
                &&& reply matches Reply::Deployment(Ok(now))
                &&& injection(
                    namespace,
                    now,
                    cfg.deployment_name,
                    MAIN_CONTAINER_NAME@,
                    cfg.wheelcache_pvc_name,
                    cfg.drivers,
                    now_secs,
                ) == Ok::<_, ErrorView>(p)
            },
            _ => true,
        },
{
}

/// The description of a repair in a dry run says what the repair would do: with the same settings,
/// it shows the list of drivers that the repair would write, it tells of a change exactly if the
/// repair would make one, and it fails exactly as the repair would.
pub proof fn law_a_description_tells_what_a_repair_would_do(
    cfg: ConfigView,
    namespace: Seq<char>,
    index: int,
    deployment: Deployment,
    now_secs: u64,
    settings: Result<SecretKey, GuardianError>,
)
    ensures
        ({
            let step = repair_step(
                cfg,
                namespace,
                index,
                deployment,
                now_secs,
                RepairPhase::ReadingConf,
                Reply::Secret(settings),
            );
            match description(cfg.deployment_name, cfg.drivers[index], settings) {
                Ok(words) => {
                    let new_conf = conf_with(
                        conf_read(settings)->Ok_0,
                        cfg.drivers[index].name,
                    )->Ok_0;
                    &&& words == repair_words(
                        cfg.deployment_name,
                        cfg.drivers[index],
                        new_conf,
                        step matches RepairStepView::Ask(RepairPhase::PatchingConf, _),
                    )
                    &&& contains(words, drivers_value(file_lines(new_conf)))
                    &&& step matches RepairStepView::Ask(RepairPhase::PatchingConf, action)
                        ==> action == patch_conf(namespace, new_conf)
                },
                Err(e) => step == RepairStepView::Ended(Err(e)),
            }
        }),
{
    let driver = cfg.drivers[index];
    match description(cfg.deployment_name, driver, settings) {
        Ok(words) => {
            let conf = conf_read(settings)->Ok_0;
            let new_conf = conf_with(conf, driver.name)->Ok_0;
            let head = "patch secret neutron-etc/ml2_conf.ini (mechanism_drivers change: "@
                + truth_word(new_conf != conf) + ", new list: "@;
            let list = drivers_value(file_lines(new_conf));
            assert(words.subrange(head.len() as int, (head.len() + list.len()) as int) =~= list);
            assert(occurs_at(words, list, head.len() as int));
        },
        Err(_) => {},
    }
}

/// A repair that is broken off counts as one more failure of its driver and is reported, and nothing
/// is changed for it any more.
pub proof fn law_a_broken_off_repair_is_counted(
    cfg: ConfigView,
    namespace: Seq<char>,
    memory: Memory,
    now_secs: u64,
    deployment: Deployment,
    index: int,
    phase: RepairPhase,
    reply: Reply,
    error: ErrorView,
)
    requires
        fits(
            cfg,
            memory,
            (RunView::Repairing { deployment, index, phase }),
        ),
        repair_step(cfg, namespace, index, deployment, now_secs, phase, reply)
            == RepairStepView::Ended(Err(error)),
    ensures
        ({
            let s = run_step(
                cfg,
                namespace,
                memory,
                now_secs,
                RunView::Repairing { deployment, index, phase },
                reply,
            );
            let name = cfg.drivers[index].name;
            &&& s.memory == bumped(memory, name)
            &&& s.notes.len() > 0
            &&& s.notes[0] == (NoteView::RepairBrokenOff { driver: name, error })
            &&& !s.action.mutates()
        }),
{
    let name = cfg.drivers[index].name;
    lemma_bumping(memory, name);
    let notes = Seq::empty().push(NoteView::RepairBrokenOff { driver: name, error });
    lemma_advance(
        cfg,
        bumped(memory, name),
        deployment,
        index + 1,
        notes,
    );
    let s = advance(
        cfg,
        bumped(memory, name),
        deployment,
        index + 1,
        notes,
    );
    assert(s.notes.take(1)[0] == notes[0]);
}

} // verus!
