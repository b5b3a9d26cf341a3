//! The repair of an absent driver, step by step. The patch of the Deployment comes last, since it is
//! what starts new pods: a repair that breaks off before it leaves the running pods alone.
use crate::config::{Config, ConfigView, DriverSpec, DriverSpecView};
use crate::error::{text_result, ErrorView, GuardianError};
use crate::files::file_lines;
use crate::k8s::{
    configmap_text, driver_secret_patch, injection, key_patch, secret_text, Deployment, K8s,
    INJECTOR_CONTAINER_NAME,
};
use crate::reconcile::actions::{Action, ActionView, Reply, SecretKey};
use crate::reconcile::check::MAIN_CONTAINER_NAME;
use crate::reconcile::ml2_conf::{
    add_driver_to_ml2_conf, conf_with, drivers_value, mechanism_drivers_of,
};
use crate::reconcile::server_script::{add_config_dir_flag, script_with_flag};
use crate::text::{concat, same_text};
use crate::wheelcache::{classify, portability_of, portability_result, Portability};
use vstd::prelude::*;

verus! {

/// The Secret with the settings of Neutron, each file under a key.
pub const NEUTRON_ETC_SECRET_NAME: &'static str = "neutron-etc";

/// The key of the settings of the ML2 plugin.
pub const ML2_CONF_SECRET_KEY: &'static str = "ml2_conf.ini";

/// The ConfigMap with the scripts of Neutron, each under a key.
pub const NEUTRON_BIN_CONFIGMAP_NAME: &'static str = "neutron-bin";

/// The key of the script that starts `neutron-server`.
pub const NEUTRON_SERVER_SCRIPT_KEY: &'static str = "neutron-server.sh";

/// How long the download of wheels may take.
pub const WHEEL_TIMEOUT_SECS: u64 = 300;

/// Reading the settings of the ML2 plugin.
pub open spec fn read_conf() -> ActionView {
    ActionView::ReadSecret { name: NEUTRON_ETC_SECRET_NAME@, key: ML2_CONF_SECRET_KEY@ }
}

/// Reading the script that starts `neutron-server`.
pub open spec fn read_script() -> ActionView {
    ActionView::ReadConfigMap { name: NEUTRON_BIN_CONFIGMAP_NAME@, key: NEUTRON_SERVER_SCRIPT_KEY@ }
}

/// Replacing the settings of the ML2 plugin.
pub open spec fn patch_conf(namespace: Seq<char>, conf: Seq<char>) -> ActionView {
    ActionView::PatchSecret(
        key_patch(
            "Secret"@,
            "stringData"@,
            namespace,
            NEUTRON_ETC_SECRET_NAME@,
            ML2_CONF_SECRET_KEY@,
            conf,
        ),
    )
}

/// Replacing the script that starts `neutron-server`.
pub open spec fn patch_script(namespace: Seq<char>, script: Seq<char>) -> ActionView {
    ActionView::PatchConfigMap(
        key_patch(
            "ConfigMap"@,
            "data"@,
            namespace,
            NEUTRON_BIN_CONFIGMAP_NAME@,
            NEUTRON_SERVER_SCRIPT_KEY@,
            script,
        ),
    )
}

/// The settings of the ML2 plugin, from the answer to [`read_conf`].
pub open spec fn conf_read(r: Result<SecretKey, GuardianError>) -> Result<Seq<char>, ErrorView> {
    match r {
        Ok(found) => secret_text(NEUTRON_ETC_SECRET_NAME@, ML2_CONF_SECRET_KEY@, found.value),
        Err(e) => Err(e@),
    }
}

/// The script that starts `neutron-server`, from the answer to [`read_script`].
pub open spec fn script_read(r: Result<Option<String>, GuardianError>) -> Result<
    Seq<char>,
    ErrorView,
> {
    match r {
        Ok(value) => configmap_text(NEUTRON_BIN_CONFIGMAP_NAME@, NEUTRON_SERVER_SCRIPT_KEY@, value),
        Err(e) => Err(e@),
    }
}

pub(crate) fn ask_conf() -> (r: Action)
    ensures
        r@ == read_conf(),
{
    Action::ReadSecret {
        name: NEUTRON_ETC_SECRET_NAME.to_owned(),
        key: ML2_CONF_SECRET_KEY.to_owned(),
    }
}

pub(crate) fn ask_script() -> (r: Action)
    ensures
        r@ == read_script(),
{
    Action::ReadConfigMap {
        name: NEUTRON_BIN_CONFIGMAP_NAME.to_owned(),
        key: NEUTRON_SERVER_SCRIPT_KEY.to_owned(),
    }
}

pub(crate) fn put_conf(k8s: &K8s, conf: &str) -> (r: Action)
    ensures
        r@ == patch_conf(k8s.namespace@, conf@),
{
    Action::PatchSecret(k8s.patch_secret_key(NEUTRON_ETC_SECRET_NAME, ML2_CONF_SECRET_KEY, conf))
}

pub(crate) fn put_script(k8s: &K8s, script: &str) -> (r: Action)
    ensures
        r@ == patch_script(k8s.namespace@, script@),
{
    Action::PatchConfigMap(
        k8s.patch_configmap_key(NEUTRON_BIN_CONFIGMAP_NAME, NEUTRON_SERVER_SCRIPT_KEY, script),
    )
}

pub(crate) fn conf_from(reply: Result<SecretKey, GuardianError>) -> (r: Result<
    String,
    GuardianError,
>)
    ensures
        text_result(r) == conf_read(reply),
{
    match reply {
        Ok(found) => K8s::get_secret_key(
            NEUTRON_ETC_SECRET_NAME,
            ML2_CONF_SECRET_KEY,
            found.value,
        ),
        Err(e) => Err(e),
    }
}

pub(crate) fn script_from(reply: Result<Option<String>, GuardianError>) -> (r: Result<
    String,
    GuardianError,
>)
    ensures
        text_result(r) == script_read(reply),
{
    match reply {
        Ok(value) => K8s::get_configmap_key(
            NEUTRON_BIN_CONFIGMAP_NAME,
            NEUTRON_SERVER_SCRIPT_KEY,
            value,
        ),
        Err(e) => Err(e),
    }
}

/// A truth value in words.
pub open spec fn truth_word(b: bool) -> Seq<char> {
    if b {
        "true"@
    } else {
        "false"@
    }
}

/// What a repair would do besides, in words, for a driver with settings of its own.
pub open spec fn extra_words(driver: DriverSpecView) -> Seq<char> {
    if driver.has_extra_config() {
        " (would also ensure --config-dir flag on neutron-bin/neutron-server.sh and write its extra-config secret)"@
    } else {
        ""@
    }
}

/// What a repair would do, in words. `new_conf` are the settings that it would write, with the new
/// list of drivers, and `changed` says whether they differ from those that are there.
pub open spec fn repair_words(
    deployment_name: Seq<char>,
    driver: DriverSpecView,
    new_conf: Seq<char>,
    changed: bool,
) -> Seq<char> {
    "patch secret neutron-etc/ml2_conf.ini (mechanism_drivers change: "@ + truth_word(changed)
        + ", new list: "@ + drivers_value(file_lines(new_conf)) + "); has extra config: "@ + truth_word(driver.has_extra_config()) + extra_words(driver)
        + "; refresh wheel cache for pip package "@ + driver.pip_package + "; patch deployment "@
        + deployment_name + " to inject initContainer "@ + INJECTOR_CONTAINER_NAME@
        + " + PYTHONPATH + extra-config mount, forcing a rollout"@
}

/// What [`describe_intended_repair`] returns.
pub open spec fn description(
    deployment_name: Seq<char>,
    driver: DriverSpecView,
    reply: Result<SecretKey, GuardianError>,
) -> Result<Seq<char>, ErrorView> {
    match conf_read(reply) {
        Ok(conf) => match conf_with(conf, driver.name) {
            Ok(new) => Ok(repair_words(deployment_name, driver, new, new != conf)),
            Err(e) => Err(e),
        },
        Err(e) => Err(e),
    }
}

fn truth(b: bool) -> (r: &'static str)
    ensures
        r@ == truth_word(b),
{
    if b {
        "true"
    } else {
        "false"
    }
}

/// What a repair of `driver` would do, in words, where `reply` is the answer to the reading of the
/// settings of the ML2 plugin. The list of drivers is worked out as a repair works it out, and shown.
pub fn describe_intended_repair(
    cfg: &Config,
    driver: &DriverSpec,
    reply: Result<SecretKey, GuardianError>,
) -> (r: Result<String, GuardianError>)
    ensures
        text_result(r) == description(cfg.deployment_name@, driver@, reply),
{
    let conf = match conf_from(reply) {
        Ok(conf) => conf,
        Err(e) => {
            return Err(e);
        },
    };
    let new = match add_driver_to_ml2_conf(conf.as_str(), driver.name.as_str()) {
        Ok(new) => new,
        Err(e) => {
            return Err(e);
        },
    };
    let changed = !same_text(new.as_str(), conf.as_str());
    let mut r = concat(
        "patch secret neutron-etc/ml2_conf.ini (mechanism_drivers change: ",
        truth(changed),
    );
    r.append(", new list: ");
    r.append(mechanism_drivers_of(new.as_str()).as_str());
    r.append("); has extra config: ");
    r.append(truth(driver.has_extra_config()));
    let extra: &str = if driver.has_extra_config() {
        " (would also ensure --config-dir flag on neutron-bin/neutron-server.sh and write its extra-config secret)"
    } else {
        ""
    };
    r.append(extra);
    r.append("; refresh wheel cache for pip package ");
    r.append(driver.pip_package.as_str());
    r.append("; patch deployment ");
    r.append(cfg.deployment_name.as_str());
    r.append(" to inject initContainer ");
    r.append(INJECTOR_CONTAINER_NAME);
    r.append(" + PYTHONPATH + extra-config mount, forcing a rollout");
    Ok(r)
}

/// How far a repair is: what it waits for.
#[derive(Debug, Clone, Copy, PartialEq, Eq, Structural)]
pub enum RepairPhase {
    /// The settings of the ML2 plugin are being read.
    ReadingConf,
    /// The driver is being added to them.
    PatchingConf,
    /// The script that starts `neutron-server` is being read.
    ReadingScript,
    /// The flag for the drivers' own settings is being added to it.
    PatchingScript,
    /// The driver's own settings are being written.
    WritingSecret,
    /// The wheels are being refreshed.
    Refreshing,
    /// The Deployment is being read.
    GettingDeployment,
    /// The injection is being put into it.
    PatchingDeployment,
}

/// What a repair comes to.
#[derive(Debug)]
pub enum RepairStep {
    /// The repair is applied, or broken off.
    Ended(Result<(), GuardianError>),
    /// Something is to be done first, and this is waited for then.
    Ask(RepairPhase, Action),
    /// The same, and the wheels have turned out to be of this kind.
    AskWithWheels(Result<Portability, GuardianError>, RepairPhase, Action),
    /// The answer was to something else.
    OutOfTurn,
}

/// A [`RepairStep`] with its texts as sequences of characters.
pub enum RepairStepView {
    Ended(Result<(), ErrorView>),
    Ask(RepairPhase, ActionView),
    AskWithWheels(Result<Portability, ErrorView>, RepairPhase, ActionView),
    OutOfTurn,
}

impl View for RepairStep {
    type V = RepairStepView;

    open spec fn view(&self) -> RepairStepView {
        match *self {
            RepairStep::Ended(Ok(())) => RepairStepView::Ended(Ok(())),
            RepairStep::Ended(Err(e)) => RepairStepView::Ended(Err(e@)),
            RepairStep::Ask(phase, action) => RepairStepView::Ask(phase, action@),
            RepairStep::AskWithWheels(p, phase, action) => RepairStepView::AskWithWheels(
                portability_result(p),
                phase,
                action@,
            ),
            RepairStep::OutOfTurn => RepairStepView::OutOfTurn,
        }
    }
}

/// The refresh of the wheels, with the image that the Deployment has.
pub open spec fn refresh_stage(index: int, deployment: Deployment) -> RepairStepView {
    match deployment.image(MAIN_CONTAINER_NAME@) {
        Some(image) => RepairStepView::Ask(
            RepairPhase::Refreshing,
            ActionView::RefreshWheels { driver: index, image, timeout_secs: WHEEL_TIMEOUT_SECS },
        ),
        None => RepairStepView::Ended(
            Err(ErrorView::Internal("deployment has no neutron-server container"@)),
        ),
    }
}

/// The driver's own settings, if they are given as text; then the wheels.
pub open spec fn secret_stage(
    namespace: Seq<char>,
    driver: DriverSpecView,
    index: int,
    deployment: Deployment,
) -> RepairStepView {
    match driver_secret_patch(namespace, driver) {
        Some(p) => RepairStepView::Ask(RepairPhase::WritingSecret, ActionView::PatchSecret(p)),
        None => refresh_stage(index, deployment),
    }
}

/// The script that starts `neutron-server`, if the driver has settings of its own; then the wheels.
pub open spec fn script_stage(
    driver: DriverSpecView,
    index: int,
    deployment: Deployment,
) -> RepairStepView {
    if driver.has_extra_config() {
        RepairStepView::Ask(RepairPhase::ReadingScript, read_script())
    } else {
        refresh_stage(index, deployment)
    }
}

/// What [`repair`] does.
pub open spec fn repair_step(
    cfg: ConfigView,
    namespace: Seq<char>,
    index: int,
    deployment: Deployment,
    now_secs: u64,
    phase: RepairPhase,
    reply: Reply,
) -> RepairStepView {
    let driver = cfg.drivers[index];
    match (phase, reply) {
        (RepairPhase::ReadingConf, Reply::Secret(r)) => match conf_read(r) {
            Ok(conf) => match conf_with(conf, driver.name) {
                Ok(new) => if new != conf {
                    RepairStepView::Ask(RepairPhase::PatchingConf, patch_conf(namespace, new))
                } else {
                    script_stage(driver, index, deployment)
                },
                Err(e) => RepairStepView::Ended(Err(e)),
            },
            Err(e) => RepairStepView::Ended(Err(e)),
        },
        (RepairPhase::PatchingConf, Reply::Patched(Ok(()))) => script_stage(
            driver,
            index,
            deployment,
        ),
        (RepairPhase::ReadingScript, Reply::ConfigMap(r)) => match script_read(r) {
            Ok(script) => match script_with_flag(script) {
                Ok(new) => if new != script {
                    RepairStepView::Ask(RepairPhase::PatchingScript, patch_script(namespace, new))
                } else {
                    secret_stage(namespace, driver, index, deployment)
                },
                Err(e) => RepairStepView::Ended(Err(e)),
            },
            Err(e) => RepairStepView::Ended(Err(e)),
        },
        (RepairPhase::PatchingScript, Reply::Patched(Ok(()))) => secret_stage(
            namespace,
            driver,
            index,
            deployment,
        ),
        (RepairPhase::WritingSecret, Reply::Patched(Ok(()))) => refresh_stage(index, deployment),
        (RepairPhase::Refreshing, Reply::Wheels(Ok(filenames))) => RepairStepView::AskWithWheels(
            portability_of(filenames@),
            RepairPhase::GettingDeployment,
            ActionView::GetDeployment(cfg.deployment_name),
        ),
        (RepairPhase::GettingDeployment, Reply::Deployment(Ok(current))) => match injection(
            namespace,
            current,
            cfg.deployment_name,
            MAIN_CONTAINER_NAME@,
            cfg.wheelcache_pvc_name,
            cfg.drivers,
            now_secs,
        ) {
            Ok(p) => RepairStepView::Ask(
                RepairPhase::PatchingDeployment,
                ActionView::PatchDeployment(p),
            ),
            Err(e) => RepairStepView::Ended(Err(e)),
        },
        (RepairPhase::PatchingDeployment, Reply::Patched(Ok(()))) => RepairStepView::Ended(Ok(())),
        (RepairPhase::PatchingConf, Reply::Patched(Err(e))) => RepairStepView::Ended(Err(e@)),
        (RepairPhase::PatchingScript, Reply::Patched(Err(e))) => RepairStepView::Ended(Err(e@)),
        (RepairPhase::WritingSecret, Reply::Patched(Err(e))) => RepairStepView::Ended(Err(e@)),
        (RepairPhase::PatchingDeployment, Reply::Patched(Err(e))) => RepairStepView::Ended(Err(e@)),
        (RepairPhase::Refreshing, Reply::Wheels(Err(e))) => RepairStepView::Ended(Err(e@)),
        (RepairPhase::GettingDeployment, Reply::Deployment(Err(e))) => RepairStepView::Ended(
            Err(e@),
        ),
        _ => RepairStepView::OutOfTurn,
    }
}

fn to_refresh(index: usize, deployment: &Deployment) -> (r: RepairStep)
    ensures
        r@ == refresh_stage(index as int, *deployment),
{
    match K8s::main_container_image(deployment, MAIN_CONTAINER_NAME) {
        Some(image) => RepairStep::Ask(
            RepairPhase::Refreshing,
            Action::RefreshWheels { driver: index, image, timeout_secs: WHEEL_TIMEOUT_SECS },
        ),
        None => RepairStep::Ended(
            Err(GuardianError::Internal("deployment has no neutron-server container".to_owned())),
        ),
    }
}

fn to_secret(k8s: &K8s, driver: &DriverSpec, index: usize, deployment: &Deployment) -> (r:
    RepairStep)
    ensures
        r@ == secret_stage(k8s.namespace@, driver@, index as int, *deployment),
{
    match k8s.write_driver_config_secret(driver) {
        Some(p) => RepairStep::Ask(RepairPhase::WritingSecret, Action::PatchSecret(p)),
        None => to_refresh(index, deployment),
    }
}

fn to_script(driver: &DriverSpec, index: usize, deployment: &Deployment) -> (r: RepairStep)
    ensures
        r@ == script_stage(driver@, index as int, *deployment),
{
    if driver.has_extra_config() {
        RepairStep::Ask(RepairPhase::ReadingScript, ask_script())
    } else {
        to_refresh(index, deployment)
    }
}

/// One step of the repair of the driver with the given place in the list; `deployment` is what the
/// pass began with, and `now_secs` the time. The steps are: the driver is added to
/// `mechanism_drivers`, if it is missing there; where it has settings of its own, the script that
/// starts `neutron-server` gets the flag that makes it read them, and they are written if they are
/// given as text; the wheels are refreshed, with the image that runs now; and last the injection is
/// put into the Deployment, which starts new pods. A step that fails breaks the repair off.
pub fn repair(
    cfg: &Config,
    k8s: &K8s,
    index: usize,
    deployment: &Deployment,
    now_secs: u64,
    phase: RepairPhase,
    reply: Reply,
) -> (r: RepairStep)
    requires
        index < cfg.drivers@.len(),
    ensures
        r@ == repair_step(
            cfg@,
            k8s.namespace@,
            index as int,
            *deployment,
            now_secs,
            phase,
            reply,
        ),
{
    let driver = &cfg.drivers[index];
    assert(cfg@.drivers[index as int] == driver@);
    match (phase, reply) {
        (RepairPhase::ReadingConf, Reply::Secret(r)) => match conf_from(r) {
            Ok(conf) => match add_driver_to_ml2_conf(conf.as_str(), driver.name.as_str()) {
                Ok(new) => if !same_text(new.as_str(), conf.as_str()) {
                    RepairStep::Ask(RepairPhase::PatchingConf, put_conf(k8s, new.as_str()))
                } else {
                    to_script(driver, index, deployment)
                },
                Err(e) => RepairStep::Ended(Err(e)),
            },
            Err(e) => RepairStep::Ended(Err(e)),
        },
        (RepairPhase::PatchingConf, Reply::Patched(Ok(()))) => to_script(
            driver,
            index,
            deployment,
        ),
        (RepairPhase::ReadingScript, Reply::ConfigMap(r)) => match script_from(r) {
            Ok(script) => match add_config_dir_flag(script.as_str()) {
                Ok(new) => if !same_text(new.as_str(), script.as_str()) {
                    RepairStep::Ask(RepairPhase::PatchingScript, put_script(k8s, new.as_str()))
                } else {
                    to_secret(k8s, driver, index, deployment)
                },
                Err(e) => RepairStep::Ended(Err(e)),
            },
            Err(e) => RepairStep::Ended(Err(e)),
        },
        (RepairPhase::PatchingScript, Reply::Patched(Ok(()))) => to_secret(
            k8s,
            driver,
            index,
            deployment,
        ),
        (RepairPhase::WritingSecret, Reply::Patched(Ok(()))) => to_refresh(index, deployment),
        (RepairPhase::Refreshing, Reply::Wheels(Ok(filenames))) => RepairStep::AskWithWheels(
            classify(filenames.as_slice()),
            RepairPhase::GettingDeployment,
            Action::GetDeployment(cfg.deployment_name.clone()),
        ),
        (RepairPhase::GettingDeployment, Reply::Deployment(Ok(current))) => {
            match k8s.apply_injection_patch(
                &current,
                cfg.deployment_name.as_str(),
                MAIN_CONTAINER_NAME,
                cfg.wheelcache_pvc_name.as_str(),
                &cfg.drivers,
                now_secs,
            ) {
                Ok(p) => RepairStep::Ask(RepairPhase::PatchingDeployment, Action::PatchDeployment(p)),
                Err(e) => RepairStep::Ended(Err(e)),
            }
        },
        (RepairPhase::PatchingDeployment, Reply::Patched(Ok(()))) => RepairStep::Ended(Ok(())),
        (RepairPhase::PatchingConf, Reply::Patched(Err(e))) => RepairStep::Ended(Err(e)),
        (RepairPhase::PatchingScript, Reply::Patched(Err(e))) => RepairStep::Ended(Err(e)),
        (RepairPhase::WritingSecret, Reply::Patched(Err(e))) => RepairStep::Ended(Err(e)),
        (RepairPhase::PatchingDeployment, Reply::Patched(Err(e))) => RepairStep::Ended(Err(e)),
        (RepairPhase::Refreshing, Reply::Wheels(Err(e))) => RepairStep::Ended(Err(e)),
        (RepairPhase::GettingDeployment, Reply::Deployment(Err(e))) => RepairStep::Ended(Err(e)),
        _ => RepairStep::OutOfTurn,
    }
}

} // verus!
