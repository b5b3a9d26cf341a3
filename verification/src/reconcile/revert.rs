//! Taking out what was installed earlier. A dry run begins with it, so that going back to a dry run
//! undoes a repair. The patch of the Deployment comes last, so that new pods start with everything
//! else already undone.
use crate::config::{Config, ConfigView, DriverSpec, DriverSpecView};
use crate::error::{ErrorView, GuardianError};
use crate::k8s::{key_managed, removal_patch, Deployment, K8s, FIELD_MANAGER};
use crate::reconcile::actions::{Action, ActionView, Reply, SecretKey};
use crate::reconcile::ml2_conf::{conf_without, remove_driver_from_ml2_conf};
use crate::reconcile::repair::{
    ask_script, conf_from, conf_read, patch_conf, patch_script, put_conf, put_script, read_script,
    script_from, script_read, ML2_CONF_SECRET_KEY,
};
use crate::reconcile::server_script::{remove_config_dir_flag, script_without_flag};
use crate::config::opt_text;
use crate::text::same_text;
use vstd::prelude::*;

verus! {

/// The settings without any of the drivers.
pub open spec fn conf_without_all(conf: Seq<char>, drivers: Seq<DriverSpecView>) -> Seq<char>
    decreases drivers.len(),
{
    if drivers.len() == 0 {
        conf
    } else {
        conf_without(conf_without_all(conf, drivers.drop_last()), drivers.last().name)
    }
}

/// `new`, if it differs from `old`.
pub open spec fn change(old_text: Seq<char>, new_text: Seq<char>) -> Option<Seq<char>> {
    if new_text != old_text {
        Some(new_text)
    } else {
        None
    }
}

/// Whether the guardian is among the owners of the settings that were read.
pub open spec fn owns(r: Result<SecretKey, GuardianError>) -> bool {
    r matches Ok(found) && key_managed(found.fields@, FIELD_MANAGER@, ML2_CONF_SECRET_KEY@)
}

/// How far the taking out is: what it waits for.
#[derive(Debug)]
pub enum RevertPhase {
    /// The settings of the ML2 plugin are being read.
    ReadingConf,
    /// The script that starts `neutron-server` is being read; the settings are to be replaced by
    /// these, if any. `owned` says whether the settings are the guardian's own writing.
    ReadingScript { conf: Option<String>, owned: bool },
    /// The settings are being replaced; the script is to be replaced by this, if any.
    PatchingConf(Option<String>),
    /// The script is being replaced.
    PatchingScript,
    /// The injection is being taken out of the Deployment.
    PatchingDeployment,
}

/// A [`RevertPhase`] with its texts as sequences of characters.
pub enum RevertPhaseView {
    ReadingConf,
    ReadingScript { conf: Option<Seq<char>>, owned: bool },
    PatchingConf(Option<Seq<char>>),
    PatchingScript,
    PatchingDeployment,
}

impl View for RevertPhase {
    type V = RevertPhaseView;

    open spec fn view(&self) -> RevertPhaseView {
        match *self {
            RevertPhase::ReadingConf => RevertPhaseView::ReadingConf,
            RevertPhase::ReadingScript { conf, owned } => RevertPhaseView::ReadingScript {
                conf: opt_text(conf),
                owned,
            },
            RevertPhase::PatchingConf(script) => RevertPhaseView::PatchingConf(opt_text(script)),
            RevertPhase::PatchingScript => RevertPhaseView::PatchingScript,
            RevertPhase::PatchingDeployment => RevertPhaseView::PatchingDeployment,
        }
    }
}

/// What the taking out comes to.
#[derive(Debug)]
pub enum RevertStep {
    /// There is nothing to take out.
    NotNeeded,
    /// All is taken out, or it is broken off.
    Ended(Result<(), GuardianError>),
    /// Something is to be done first, and this is waited for then.
    Ask(RevertPhase, Action),
    /// The answer was to something else.
    OutOfTurn,
}

/// A [`RevertStep`] with its texts as sequences of characters.
pub enum RevertStepView {
    NotNeeded,
    Ended(Result<(), ErrorView>),
    Ask(RevertPhaseView, ActionView),
    OutOfTurn,
}

impl View for RevertStep {
    type V = RevertStepView;

    open spec fn view(&self) -> RevertStepView {
        match *self {
            RevertStep::NotNeeded => RevertStepView::NotNeeded,
            RevertStep::Ended(Ok(())) => RevertStepView::Ended(Ok(())),
            RevertStep::Ended(Err(e)) => RevertStepView::Ended(Err(e@)),
            RevertStep::Ask(phase, action) => RevertStepView::Ask(phase@, action@),
            RevertStep::OutOfTurn => RevertStepView::OutOfTurn,
        }
    }
}

/// Taking the injection out of the Deployment.
pub open spec fn removal_stage(cfg: ConfigView, namespace: Seq<char>, now_secs: u64) -> RevertStepView {
    RevertStepView::Ask(
        RevertPhaseView::PatchingDeployment,
        ActionView::PatchDeployment(removal_patch(namespace, cfg.deployment_name, now_secs)),
    )
}

/// The script, if it is to be replaced; then the Deployment.
pub open spec fn unscript_stage(
    cfg: ConfigView,
    namespace: Seq<char>,
    now_secs: u64,
    script: Option<Seq<char>>,
) -> RevertStepView {
    match script {
        Some(s) => RevertStepView::Ask(
            RevertPhaseView::PatchingScript,
            patch_script(namespace, s),
        ),
        None => removal_stage(cfg, namespace, now_secs),
    }
}

/// What [`revert`] does.
pub open spec fn revert_step(
    cfg: ConfigView,
    namespace: Seq<char>,
    deployment: Deployment,
    now_secs: u64,
    phase: RevertPhaseView,
    reply: Reply,
) -> RevertStepView {
    match (phase, reply) {
        (RevertPhaseView::ReadingConf, Reply::Secret(r)) => match conf_read(r) {
            Ok(conf) => RevertStepView::Ask(
                RevertPhaseView::ReadingScript {
                    conf: change(conf, conf_without_all(conf, cfg.drivers)),
                    owned: owns(r),
                },
                read_script(),
            ),
            Err(e) => if deployment.injected() {
                RevertStepView::Ended(Err(e))
            } else {
                RevertStepView::NotNeeded
            },
        },
        (RevertPhaseView::ReadingScript { conf, owned }, Reply::ConfigMap(r)) => match script_read(
            r,
        ) {
            Ok(script) => {
                let new_script = change(script, script_without_flag(script));
                if deployment.injected() || new_script is Some || (owned && conf is Some) {
                    match conf {
                        Some(c) => RevertStepView::Ask(
                            RevertPhaseView::PatchingConf(new_script),
                            patch_conf(namespace, c),
                        ),
                        None => unscript_stage(cfg, namespace, now_secs, new_script),
                    }
                } else {
                    RevertStepView::NotNeeded
                }
            },
            Err(e) => if deployment.injected() || (owned && conf is Some) {
                RevertStepView::Ended(Err(e))
            } else {
                RevertStepView::NotNeeded
            },
        },
        (RevertPhaseView::PatchingConf(script), Reply::Patched(Ok(()))) => unscript_stage(
            cfg,
            namespace,
            now_secs,
            script,
        ),
        (RevertPhaseView::PatchingScript, Reply::Patched(Ok(()))) => removal_stage(
            cfg,
            namespace,
            now_secs,
        ),
        (RevertPhaseView::PatchingDeployment, Reply::Patched(Ok(()))) => RevertStepView::Ended(
            Ok(()),
        ),
        (RevertPhaseView::PatchingConf(_), Reply::Patched(Err(e))) => RevertStepView::Ended(
            Err(e@),
        ),
        (RevertPhaseView::PatchingScript, Reply::Patched(Err(e))) => RevertStepView::Ended(Err(e@)),
        (RevertPhaseView::PatchingDeployment, Reply::Patched(Err(e))) => RevertStepView::Ended(
            Err(e@),
        ),
        _ => RevertStepView::OutOfTurn,
    }
}

fn without_all(conf: &str, drivers: &Vec<DriverSpec>) -> (r: String)
    ensures
        r@ == conf_without_all(conf@, crate::config::drivers_view(drivers@)),
{
    let ghost all = crate::config::drivers_view(drivers@);
    let mut r: String = conf.to_owned();
    assert(all.take(0) =~= Seq::empty());
    for i in 0..drivers.len()
        invariant
            all == crate::config::drivers_view(drivers@),
            r@ == conf_without_all(conf@, all.take(i as int)),
    {
        assert(all.take(i + 1).drop_last() =~= all.take(i as int));
        assert(all.take(i + 1).last() == drivers@[i as int]@);
        r = remove_driver_from_ml2_conf(r.as_str(), drivers[i].name.as_str());
    }
    assert(all.take(all.len() as int) =~= all);
    r
}

fn owned_by_guardian(r: &Result<SecretKey, GuardianError>) -> (b: bool)
    ensures
        b == owns(*r),
{
    match r {
        Ok(found) => K8s::manages_key(&found.fields, FIELD_MANAGER, ML2_CONF_SECRET_KEY),
        Err(_) => false,
    }
}

fn changed(old_text: &str, new_text: String) -> (r: Option<String>)
    ensures
        opt_text(r) == change(old_text@, new_text@),
{
    if same_text(new_text.as_str(), old_text) {
        None
    } else {
        Some(new_text)
    }
}

fn to_removal(cfg: &Config, k8s: &K8s, now_secs: u64) -> (r: RevertStep)
    ensures
        r@ == removal_stage(cfg@, k8s.namespace@, now_secs),
{
    RevertStep::Ask(
        RevertPhase::PatchingDeployment,
        Action::PatchDeployment(
            k8s.remove_injection_patch(cfg.deployment_name.as_str(), now_secs),
        ),
    )
}

fn to_unscript(cfg: &Config, k8s: &K8s, now_secs: u64, script: Option<String>) -> (r: RevertStep)
    ensures
        r@ == unscript_stage(cfg@, k8s.namespace@, now_secs, opt_text(script)),
{
    match script {
        Some(s) => RevertStep::Ask(RevertPhase::PatchingScript, put_script(k8s, s.as_str())),
        None => to_removal(cfg, k8s, now_secs),
    }
}

/// One step of taking out what was installed earlier; `deployment` is what the pass began with, and
/// `now_secs` the time. The drivers go out of `mechanism_drivers`; the flag for their own settings
/// goes out of the script that starts `neutron-server`; and last the injection goes out of the
/// Deployment, which starts new pods. All this only on a trace of the guardian's own: the injection,
/// the flag, or a list of drivers that the guardian owns. Without one nothing is done, and a driver
/// that someone else has listed stays listed. Where the settings or the script cannot be read, that
/// is an error if there is such a trace.
pub fn revert(
    cfg: &Config,
    k8s: &K8s,
    deployment: &Deployment,
    now_secs: u64,
    phase: RevertPhase,
    reply: Reply,
) -> (r: RevertStep)
    ensures
        r@ == revert_step(cfg@, k8s.namespace@, *deployment, now_secs, phase@, reply),
{
    match (phase, reply) {
        (RevertPhase::ReadingConf, Reply::Secret(r)) => {
            let owned = owned_by_guardian(&r);
            match conf_from(r) {
                Ok(conf) => {
                    let new = without_all(conf.as_str(), &cfg.drivers);
                    RevertStep::Ask(
                        RevertPhase::ReadingScript { conf: changed(conf.as_str(), new), owned },
                        ask_script(),
                    )
                },
                Err(e) => if K8s::has_injection(deployment) {
                    RevertStep::Ended(Err(e))
                } else {
                    RevertStep::NotNeeded
                },
            }
        },
        (RevertPhase::ReadingScript { conf, owned }, Reply::ConfigMap(r)) => match script_from(r) {
            Ok(script) => {
                let new = remove_config_dir_flag(script.as_str());
                let new_script = changed(script.as_str(), new);
                if K8s::has_injection(deployment) || new_script.is_some() || (owned
                    && conf.is_some()) {
                    match conf {
                        Some(c) => RevertStep::Ask(
                            RevertPhase::PatchingConf(new_script),
                            put_conf(k8s, c.as_str()),
                        ),
                        None => to_unscript(cfg, k8s, now_secs, new_script),
                    }
                } else {
                    RevertStep::NotNeeded
                }
            },
            Err(e) => if K8s::has_injection(deployment) || (owned && conf.is_some()) {
                RevertStep::Ended(Err(e))
            } else {
                RevertStep::NotNeeded
            },
        },
        (RevertPhase::PatchingConf(script), Reply::Patched(Ok(()))) => to_unscript(
            cfg,
            k8s,
            now_secs,
            script,
        ),
        (RevertPhase::PatchingScript, Reply::Patched(Ok(()))) => to_removal(cfg, k8s, now_secs),
        (RevertPhase::PatchingDeployment, Reply::Patched(Ok(()))) => RevertStep::Ended(Ok(())),
        (RevertPhase::PatchingConf(_), Reply::Patched(Err(e))) => RevertStep::Ended(Err(e)),
        (RevertPhase::PatchingScript, Reply::Patched(Err(e))) => RevertStep::Ended(Err(e)),
        (RevertPhase::PatchingDeployment, Reply::Patched(Err(e))) => RevertStep::Ended(Err(e)),
        _ => RevertStep::OutOfTurn,
    }
}

} // verus!
