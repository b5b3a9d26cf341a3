//! What each step of a check, a repair and a taking out asks for, in terms of what it was answered.
use crate::command_laws::{
    can_be_looked_into, law_the_first_ready_pod_is_taken, law_who_manages_a_key,
};
use crate::config::{ConfigView, DriverSpecView};
use crate::error::{ErrorView, GuardianError};
use crate::files::file_lines;
use crate::k8s::{injection_patch, removal_patch, Deployment, ExecCapture, ManagedField, Pod};
use crate::manifest_laws::sets_one_key;
use crate::reconcile::actions::{ActionView, Reply, SecretKey};
use crate::reconcile::check::{
    check_start, check_step, check_word, CheckPhaseView, CheckStepView, CheckView,
};
use crate::reconcile::ml2_conf::{conf_includes, conf_with, drivers_value};
use crate::reconcile::pass_laws::has_injector;
use crate::reconcile::repair::{
    conf_read, description, patch_conf, patch_script, read_script, repair_step, script_read,
    RepairPhase, RepairStepView,
};
use crate::reconcile::revert::{conf_without_all, revert_step, RevertPhaseView, RevertStepView};
use crate::reconcile::server_script::{script_with_flag, script_without_flag};
use crate::text::join;
use crate::wheelcache::portability_of;
use vstd::prelude::*;
use vstd::utf8::{encode_utf8, encode_utf8_decode_utf8, encode_utf8_valid_utf8};

verus! {

/// Whether a command ended without a failure.
pub open spec fn succeeded(capture: ExecCapture) -> bool {
    capture matches ExecCapture::Ended { failure, .. } && failure is None
}

/// A check begins with the pods of the Deployment, found by all its labels, if the Deployment has the
/// injection; without it the driver is absent.
pub proof fn law_how_a_check_begins(deployment: Deployment)
    ensures
        check_start(deployment) == if has_injector(deployment) {
            CheckStepView::Ask(
                CheckPhaseView::ListingPods,
                ActionView::ListPods(
                    join(
                        Seq::new(
                            deployment.labels().len(),
                            |i: int|
                                deployment.labels()[i].0@ + "="@ + deployment.labels()[i].1@,
                        ),
                        ","@,
                    ),
                ),
            )
        } else {
            CheckStepView::Decided(CheckView::Absent)
        },
{
    assert(deployment.injected() <==> has_injector(deployment));
}

/// The settings are shown in the main container of a pod that is ready. Where no pod is ready, or the
/// pods cannot be listed, the driver is degraded, not absent.
pub proof fn law_a_check_looks_into_a_ready_pod(
    driver: Seq<char>,
    import_module: Seq<char>,
    pods: Vec<Pod>,
    error: GuardianError,
)
    ensures
        match check_step(
            driver,
            import_module,
            CheckPhaseView::ListingPods,
            Reply::Pods(Ok(pods)),
        ) {
            CheckStepView::Ask(phase, action) => exists|i: int|
                0 <= i < pods@.len() && can_be_looked_into(#[trigger] pods@[i]) && phase
                    == CheckPhaseView::ReadingConf(pods@[i].name->0@) && action
                    == (ActionView::Exec {
                    pod: pods@[i].name->0@,
                    container: "neutron-server"@,
                    command: seq!["cat"@].push("/etc/neutron/plugins/ml2/ml2_conf.ini"@),
                }) && forall|j: int| 0 <= j < i ==> !can_be_looked_into(#[trigger] pods@[j]),
            CheckStepView::Decided(check) => check == CheckView::Degraded(
                "no Ready pod found for deployment"@,
            ) && forall|i: int| 0 <= i < pods@.len() ==> !can_be_looked_into(#[trigger] pods@[i]),
            CheckStepView::OutOfTurn => false,
        },
        check_step(driver, import_module, CheckPhaseView::ListingPods, Reply::Pods(Err(error)))
            == CheckStepView::Decided(CheckView::Degraded("error finding ready pod"@)),
{
    law_the_first_ready_pod_is_taken(pods@);
}

/// A driver that the settings in the pod do not list is absent; one that they list is imported in the
/// same pod. It is present if the import succeeds. Where the settings cannot be shown, or the import
/// fails, the driver is degraded.
pub proof fn law_what_a_check_finds(
    driver: Seq<char>,
    import_module: Seq<char>,
    pod: Seq<char>,
    capture: ExecCapture,
)
    ensures
        check_step(
            driver,
            import_module,
            CheckPhaseView::ReadingConf(pod),
            Reply::Captured(capture),
        ) == if !succeeded(capture) {
            CheckStepView::Decided(CheckView::Degraded("error reading ml2_conf.ini"@))
        } else if conf_includes(capture->Ended_stdout@, driver) {
            CheckStepView::Ask(
                CheckPhaseView::Importing,
                ActionView::Exec {
                    pod,
                    container: "neutron-server"@,
                    command: seq!["/bin/sh"@].push("-c"@).push(
                        "python3 -c \"import "@ + import_module + "\""@,
                    ),
                },
            )
        } else {
            CheckStepView::Decided(CheckView::Absent)
        },
        check_step(
            driver,
            import_module,
            CheckPhaseView::Importing,
            Reply::Captured(capture),
        ) == CheckStepView::Decided(
            if succeeded(capture) {
                CheckView::Present
            } else {
                CheckView::Degraded("driver listed in mechanism_drivers but import failed"@)
            },
        ),
{
}

/// Whether a Secret holds this text under the key that was asked for.
pub open spec fn holds(answer: Result<SecretKey, GuardianError>, text: Seq<char>) -> bool {
    answer matches Ok(found) && found.value is Some && found.value->0@ == encode_utf8(text)
}

/// What the reading of the two files gives is what the cluster holds, and what a patch of them writes
/// is the text that it is given, under the key that was read.
pub proof fn law_the_two_files(
    namespace: Seq<char>,
    text: Seq<char>,
    secret: Result<SecretKey, GuardianError>,
    script: Result<Option<String>, GuardianError>,
)
    ensures
        holds(secret, text) ==> conf_read(secret) == Ok::<Seq<char>, ErrorView>(text),
        secret matches Err(e) ==> conf_read(secret) == Err::<Seq<char>, ErrorView>(e@),
        secret matches Ok(found) && found.value is None ==> conf_read(secret) == Err::<
            Seq<char>,
            ErrorView,
        >(ErrorView::Config("secret "@ + "neutron-etc"@ + " has no key "@ + "ml2_conf.ini"@)),
        script matches Ok(Some(found)) ==> script_read(script) == Ok::<Seq<char>, ErrorView>(
            found@,
        ),
        script matches Err(e) ==> script_read(script) == Err::<Seq<char>, ErrorView>(e@),
        script matches Ok(None) ==> script_read(script) == Err::<Seq<char>, ErrorView>(
            ErrorView::Config("configmap "@ + "neutron-bin"@ + " has no key "@ + "neutron-server.sh"@),
        ),
        patch_conf(namespace, text) matches ActionView::PatchSecret(p) && sets_one_key(
            p,
            "Secret"@,
            "stringData"@,
            namespace,
            "neutron-etc"@,
            "ml2_conf.ini"@,
            text,
        ),
        patch_script(namespace, text) matches ActionView::PatchConfigMap(p) && sets_one_key(
            p,
            "ConfigMap"@,
            "data"@,
            namespace,
            "neutron-bin"@,
            "neutron-server.sh"@,
            text,
        ),
        read_script() == (ActionView::ReadConfigMap {
            name: "neutron-bin"@,
            key: "neutron-server.sh"@,
        }),
{
    if holds(secret, text) {
        encode_utf8_valid_utf8(text);
        encode_utf8_decode_utf8(text);
    }
}

/// Whether a step asks for the wheels of the driver at `index`, with the image that the Deployment
/// runs; without such an image the repair ends.
pub open spec fn goes_for_wheels(
    step: RepairStepView,
    deployment: Deployment,
    index: int,
) -> bool {
    match deployment.image("neutron-server"@) {
        Some(image) => step == RepairStepView::Ask(
            RepairPhase::Refreshing,
            ActionView::RefreshWheels { driver: index, image, timeout_secs: 300 },
        ),
        None => step == RepairStepView::Ended(
            Err(ErrorView::Internal("deployment has no neutron-server container"@)),
        ),
    }
}

/// Whether a step is the one behind the settings of the ML2 plugin: the script for a driver with
/// settings of its own, and the wheels for another.
pub open spec fn goes_behind_the_settings(
    step: RepairStepView,
    cfg: ConfigView,
    deployment: Deployment,
    index: int,
) -> bool {
    let driver = cfg.drivers[index];
    if driver.extra_config_secret_data.len() > 0 || driver.extra_config_secret_ref is Some {
        step == RepairStepView::Ask(
            RepairPhase::ReadingScript,
            ActionView::ReadConfigMap { name: "neutron-bin"@, key: "neutron-server.sh"@ },
        )
    } else {
        goes_for_wheels(step, deployment, index)
    }
}

/// Whether a step is the one behind the script: the driver's own settings if they are given as text,
/// and the wheels otherwise.
pub open spec fn goes_behind_the_script(
    step: RepairStepView,
    cfg: ConfigView,
    namespace: Seq<char>,
    deployment: Deployment,
    index: int,
) -> bool {
    let driver = cfg.drivers[index];
    if driver.extra_config_secret_data.len() > 0 {
        step matches RepairStepView::Ask(RepairPhase::WritingSecret, ActionView::PatchSecret(p))
            && sets_one_key(
            p,
            "Secret"@,
            "stringData"@,
            namespace,
            "neutron-ml2-"@ + driver.name + "-config"@,
            driver.name + ".ini"@,
            driver.extra_config_secret_data,
        )
    } else {
        goes_for_wheels(step, deployment, index)
    }
}

/// The first half of a repair. The settings are written with the driver in them if that changes
/// anything. Then, for a driver with settings of its own, the script is written with the flag in it if
/// that changes anything, and these settings are written if they are given as text. Nothing is left
/// out and nothing else is written.
pub proof fn law_what_a_repair_writes(
    cfg: ConfigView,
    namespace: Seq<char>,
    index: int,
    deployment: Deployment,
    now_secs: u64,
    secret: Result<SecretKey, GuardianError>,
    conf: Seq<char>,
    script: String,
)
    requires
        0 <= index < cfg.drivers.len(),
        holds(secret, conf),
    ensures
        ({
            let step = |phase: RepairPhase, reply: Reply|
                repair_step(cfg, namespace, index, deployment, now_secs, phase, reply);
            let read = step(RepairPhase::ReadingConf, Reply::Secret(secret));
            let seen = step(RepairPhase::ReadingScript, Reply::ConfigMap(Ok(Some(script))));
            &&& match conf_with(conf, cfg.drivers[index].name) {
                Ok(new) => if new == conf {
                    goes_behind_the_settings(read, cfg, deployment, index)
                } else {
                    read matches RepairStepView::Ask(
                        RepairPhase::PatchingConf,
                        ActionView::PatchSecret(p),
                    ) && sets_one_key(
                        p,
                        "Secret"@,
                        "stringData"@,
                        namespace,
                        "neutron-etc"@,
                        "ml2_conf.ini"@,
                        new,
                    )
                },
                Err(e) => read == RepairStepView::Ended(Err(e)),
            }
            &&& goes_behind_the_settings(
                step(RepairPhase::PatchingConf, Reply::Patched(Ok(()))),
                cfg,
                deployment,
                index,
            )
            &&& match script_with_flag(script@) {
                Ok(new) => if new == script@ {
                    goes_behind_the_script(seen, cfg, namespace, deployment, index)
                } else {
                    seen matches RepairStepView::Ask(
                        RepairPhase::PatchingScript,
                        ActionView::PatchConfigMap(p),
                    ) && sets_one_key(
                        p,
                        "ConfigMap"@,
                        "data"@,
                        namespace,
                        "neutron-bin"@,
                        "neutron-server.sh"@,
                        new,
                    )
                },
                Err(e) => seen == RepairStepView::Ended(Err(e)),
            }
            &&& goes_behind_the_script(
                step(RepairPhase::PatchingScript, Reply::Patched(Ok(()))),
                cfg,
                namespace,
                deployment,
                index,
            )
            &&& goes_for_wheels(
                step(RepairPhase::WritingSecret, Reply::Patched(Ok(()))),
                deployment,
                index,
            )
        }),
{
    encode_utf8_valid_utf8(conf);
    encode_utf8_decode_utf8(conf);
}

/// The second half of a repair. Behind the wheels the Deployment is read once more, and the injection
/// of all drivers is put into it as it is then, with the image that its main container has then; with
/// that the repair is applied. Without such a container the repair ends.
pub proof fn law_how_a_repair_ends(
    cfg: ConfigView,
    namespace: Seq<char>,
    index: int,
    deployment: Deployment,
    now_secs: u64,
    filenames: Vec<String>,
    now: Deployment,
)
    ensures
        ({
            let step = |phase: RepairPhase, reply: Reply|
                repair_step(cfg, namespace, index, deployment, now_secs, phase, reply);
            &&& step(RepairPhase::Refreshing, Reply::Wheels(Ok(filenames)))
                == RepairStepView::AskWithWheels(
                portability_of(filenames@),
                RepairPhase::GettingDeployment,
                ActionView::GetDeployment(cfg.deployment_name),
            )
            &&& step(RepairPhase::GettingDeployment, Reply::Deployment(Ok(now))) == match now.image(
                "neutron-server"@,
            ) {
                Some(image) => RepairStepView::Ask(
                    RepairPhase::PatchingDeployment,
                    ActionView::PatchDeployment(
                        injection_patch(
                            namespace,
                            cfg.deployment_name,
                            "neutron-server"@,
                            image,
                            cfg.wheelcache_pvc_name,
                            cfg.drivers,
                            now_secs,
                        ),
                    ),
                ),
                None => RepairStepView::Ended(
                    Err(
                        ErrorView::Config(
                            "deployment "@ + cfg.deployment_name + " has no container named "@
                                + "neutron-server"@,
                        ),
                    ),
                ),
            }
            &&& step(RepairPhase::PatchingDeployment, Reply::Patched(Ok(())))
                == RepairStepView::Ended(Ok(()))
        }),
{
}

/// An answer that a repair does not wait for is out of its turn, and no other is.
pub proof fn law_what_a_repair_waits_for(
    cfg: ConfigView,
    namespace: Seq<char>,
    index: int,
    deployment: Deployment,
    now_secs: u64,
    phase: RepairPhase,
    reply: Reply,
)
    ensures
        repair_step(cfg, namespace, index, deployment, now_secs, phase, reply) is OutOfTurn <==> !(
        match phase {
            RepairPhase::ReadingConf => reply is Secret,
            RepairPhase::ReadingScript => reply is ConfigMap,
            RepairPhase::Refreshing => reply is Wheels,
            RepairPhase::GettingDeployment => reply is Deployment,
            _ => reply is Patched,
        }),
{
}

/// Whether the guardian is listed as the manager of the settings that were read.
pub open spec fn is_own_writing(fields: Seq<ManagedField>) -> bool {
    exists|i: int|
        0 <= i < fields.len() && (#[trigger] fields[i]).manager@ == "neutron-ml2-guardian"@
            && fields[i].name@ == "f:"@ + "ml2_conf.ini"@ && (fields[i].part@ == "f:data"@
            || fields[i].part@ == "f:stringData"@)
}

/// A taking out reads the settings, then the script. It goes on to write if the Deployment has the
/// injection, or the script would change, or the settings would change and are the guardian's own
/// writing; otherwise there is nothing to take out. What cannot be read is an error only where there
/// is something to take out.
pub proof fn law_when_something_is_taken_out(
    cfg: ConfigView,
    namespace: Seq<char>,
    deployment: Deployment,
    now_secs: u64,
    found: SecretKey,
    conf: Seq<char>,
    script: String,
    error: GuardianError,
)
    requires
        holds(Ok(found), conf),
    ensures
        ({
            let step = |phase: RevertPhaseView, reply: Reply|
                revert_step(cfg, namespace, deployment, now_secs, phase, reply);
            let read = step(RevertPhaseView::ReadingConf, Reply::Secret(Ok(found)));
            let unread = step(RevertPhaseView::ReadingConf, Reply::Secret(Err(error)));
            let seen = step(read->Ask_0, Reply::ConfigMap(Ok(Some(script))));
            let unseen = step(read->Ask_0, Reply::ConfigMap(Err(error)));
            let new_conf = conf_without_all(conf, cfg.drivers);
            let new_script = script_without_flag(script@);
            let own = is_own_writing(found.fields@) && new_conf != conf;
            &&& read is Ask
            &&& read->Ask_1 == (ActionView::ReadConfigMap {
                name: "neutron-bin"@,
                key: "neutron-server.sh"@,
            })
            &&& if has_injector(deployment) {
                unread == RevertStepView::Ended(Err(error@))
            } else {
                unread == RevertStepView::NotNeeded
            }
            &&& if has_injector(deployment) || own {
                unseen == RevertStepView::Ended(Err(error@))
            } else {
                unseen == RevertStepView::NotNeeded
            }
            &&& seen == RevertStepView::NotNeeded <==> !has_injector(deployment) && !own
                && new_script == script@
            &&& seen !is NotNeeded && new_conf != conf ==> (seen matches RevertStepView::Ask(
                _,
                ActionView::PatchSecret(p),
            ) && sets_one_key(
                p,
                "Secret"@,
                "stringData"@,
                namespace,
                "neutron-etc"@,
                "ml2_conf.ini"@,
                new_conf,
            ))
            &&& seen !is NotNeeded && new_conf == conf && new_script != script@ ==> (
            seen matches RevertStepView::Ask(_, ActionView::PatchConfigMap(p)) && sets_one_key(
                p,
                "ConfigMap"@,
                "data"@,
                namespace,
                "neutron-bin"@,
                "neutron-server.sh"@,
                new_script,
            ))
            &&& seen !is NotNeeded && new_conf == conf && new_script == script@ ==> seen
                == RevertStepView::Ask(
                RevertPhaseView::PatchingDeployment,
                ActionView::PatchDeployment(
                    removal_patch(namespace, cfg.deployment_name, now_secs),
                ),
            )
        }),
{
    encode_utf8_valid_utf8(conf);
    encode_utf8_decode_utf8(conf);
    law_who_manages_a_key(
        found.fields@,
        "neutron-ml2-guardian"@,
        "ml2_conf.ini"@,
    );
}

/// A patch of a taking out that is refused ends it with what the refusal says; one that is applied
/// leads to the next, and the last one to the end.
pub proof fn law_a_taking_out_goes_patch_by_patch(
    cfg: ConfigView,
    namespace: Seq<char>,
    deployment: Deployment,
    now_secs: u64,
    script: Option<Seq<char>>,
    error: GuardianError,
)
    ensures
        ({
            let step = |phase: RevertPhaseView, reply: Reply|
                revert_step(cfg, namespace, deployment, now_secs, phase, reply);
            let removal = RevertStepView::Ask(
                RevertPhaseView::PatchingDeployment,
                ActionView::PatchDeployment(
                    removal_patch(namespace, cfg.deployment_name, now_secs),
                ),
            );
            let unconf = step(RevertPhaseView::PatchingConf(script), Reply::Patched(Ok(())));
            &&& match script {
                Some(text) => unconf matches RevertStepView::Ask(
                    RevertPhaseView::PatchingScript,
                    ActionView::PatchConfigMap(p),
                ) && sets_one_key(
                    p,
                    "ConfigMap"@,
                    "data"@,
                    namespace,
                    "neutron-bin"@,
                    "neutron-server.sh"@,
                    text,
                ),
                None => unconf == removal,
            }
            &&& step(RevertPhaseView::PatchingScript, Reply::Patched(Ok(()))) == removal
            &&& step(RevertPhaseView::PatchingDeployment, Reply::Patched(Ok(())))
                == RevertStepView::Ended(Ok(()))
            &&& step(RevertPhaseView::PatchingConf(script), Reply::Patched(Err(error)))
                == RevertStepView::Ended(Err(error@))
            &&& step(RevertPhaseView::PatchingScript, Reply::Patched(Err(error)))
                == RevertStepView::Ended(Err(error@))
            &&& step(RevertPhaseView::PatchingDeployment, Reply::Patched(Err(error)))
                == RevertStepView::Ended(Err(error@))
        }),
{
}

/// A description tells whether the settings would change, the list of drivers that they would then
/// set, whether the driver has settings of its own, its package, and the Deployment.
pub proof fn law_what_a_description_tells(
    deployment_name: Seq<char>,
    driver: DriverSpecView,
    secret: Result<SecretKey, GuardianError>,
    conf: Seq<char>,
)
    requires
        holds(secret, conf),
    ensures
        match conf_with(conf, driver.name) {
            Ok(new) => description(deployment_name, driver, secret) == Ok::<Seq<char>, ErrorView>(
                "patch secret neutron-etc/ml2_conf.ini (mechanism_drivers change: "@ + (if new
                    == conf {
                    "false"@
                } else {
                    "true"@
                }) + ", new list: "@ + drivers_value(file_lines(new)) + "); has extra config: "@ + (
                if driver.extra_config_secret_data.len() > 0 || driver.extra_config_secret_ref
                    is Some {
                    "true"@
                } else {
                    "false"@
                }) + (if driver.extra_config_secret_data.len() > 0 || driver.extra_config_secret_ref
                    is Some {
                    " (would also ensure --config-dir flag on neutron-bin/neutron-server.sh and write its extra-config secret)"@
                } else {
                    ""@
                }) + "; refresh wheel cache for pip package "@ + driver.pip_package
                    + "; patch deployment "@ + deployment_name + " to inject initContainer "@
                    + "ml2-driver-injector"@
                    + " + PYTHONPATH + extra-config mount, forcing a rollout"@,
            ),
            Err(e) => description(deployment_name, driver, secret) == Err::<Seq<char>, ErrorView>(
                e,
            ),
        },
{
    encode_utf8_valid_utf8(conf);
    encode_utf8_decode_utf8(conf);
}

/// An answer that a check or a taking out does not wait for is out of its turn, and no other is.
pub proof fn law_what_a_check_and_a_taking_out_wait_for(
    cfg: ConfigView,
    namespace: Seq<char>,
    deployment: Deployment,
    now_secs: u64,
    driver: Seq<char>,
    import_module: Seq<char>,
    check: CheckPhaseView,
    revert: RevertPhaseView,
    reply: Reply,
)
    ensures
        check_step(driver, import_module, check, reply) is OutOfTurn <==> !(match check {
            CheckPhaseView::ListingPods => reply is Pods,
            _ => reply is Captured,
        }),
        revert_step(cfg, namespace, deployment, now_secs, revert, reply) is OutOfTurn <==> !(
        match revert {
            RevertPhaseView::ReadingConf => reply is Secret,
            RevertPhaseView::ReadingScript { .. } => reply is ConfigMap,
            _ => reply is Patched,
        }),
{
}

/// What a check found is told in one word.
pub proof fn law_the_word_for_a_check(check: CheckView)
    ensures
        check_word(check) == match check {
            CheckView::Present => "present"@,
            CheckView::Absent => "absent"@,
            CheckView::Degraded(_) => "degraded"@,
        },
{
}

/// Settings and a script that cannot be read, be it that the answer is an error, that the key is
/// missing or that the bytes are no text, end a repair with the reason, and its description likewise.
/// They end a taking out with the reason if there is something to take out, and else show that there
/// is nothing to do.
pub proof fn law_what_cannot_be_read(
    cfg: ConfigView,
    namespace: Seq<char>,
    index: int,
    deployment: Deployment,
    now_secs: u64,
    secret: Result<SecretKey, GuardianError>,
    script: Result<Option<String>, GuardianError>,
    conf: Option<Seq<char>>,
    owned: bool,
)
    ensures
        conf_read(secret) matches Err(e) ==> {
            &&& repair_step(
                cfg,
                namespace,
                index,
                deployment,
                now_secs,
                RepairPhase::ReadingConf,
                Reply::Secret(secret),
            ) == RepairStepView::Ended(Err(e))
            &&& description(cfg.deployment_name, cfg.drivers[index], secret) == Err::<
                Seq<char>,
                ErrorView,
            >(e)
            &&& revert_step(
                cfg,
                namespace,
                deployment,
                now_secs,
                RevertPhaseView::ReadingConf,
                Reply::Secret(secret),
            ) == if has_injector(deployment) {
                RevertStepView::Ended(Err(e))
            } else {
                RevertStepView::NotNeeded
            }
        },
        script_read(script) matches Err(e) ==> {
            &&& repair_step(
                cfg,
                namespace,
                index,
                deployment,
                now_secs,
                RepairPhase::ReadingScript,
                Reply::ConfigMap(script),
            ) == RepairStepView::Ended(Err(e))
            &&& revert_step(
                cfg,
                namespace,
                deployment,
                now_secs,
                RevertPhaseView::ReadingScript { conf, owned },
                Reply::ConfigMap(script),
            ) == if has_injector(deployment) || (owned && conf is Some) {
                RevertStepView::Ended(Err(e))
            } else {
                RevertStepView::NotNeeded
            }
        },
{
}

} // verus!
