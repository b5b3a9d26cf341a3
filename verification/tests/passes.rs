use neutron_ml2_guardian::config::{Config, DriverSpec, EnvVars};
use neutron_ml2_guardian::error::GuardianError;
use neutron_ml2_guardian::json::Json;
use neutron_ml2_guardian::k8s::{
    ApplyPatch, Condition, Container, Deployment, DeploymentSpec, ExecCapture, K8s, ManagedField,
    Pod, PodSpec, FIELD_MANAGER, INJECTOR_CONTAINER_NAME,
};
use neutron_ml2_guardian::reconcile::actions::{Action, Note, Reply, SecretKey};
use neutron_ml2_guardian::reconcile::check::{other_debug, CheckResult};
use neutron_ml2_guardian::reconcile::run::{run_once, Run};
use neutron_ml2_guardian::reconcile::state::{bump_failure, ReconcileState};
use neutron_ml2_guardian::wheelcache::Portability;

const CONF: &str = "[ml2]\nmechanism_drivers = openvswitch,ovn\n";
const SCRIPT: &str = "exec neutron-server \\\n        --config-file /etc/neutron/plugins/ml2/ml2_conf.ini\n";
const FLAGGED: &str = "exec neutron-server \\\n        --config-file /etc/neutron/plugins/ml2/ml2_conf.ini \\\n        --config-dir /etc/neutron/ml2-extra-conf.d\n";

/// A cluster that answers what a pass asks for and does what it is told.
struct Cluster {
    conf: String,
    /// The field managers that own the settings.
    owners: Vec<String>,
    script: String,
    injected: bool,
    image: Option<String>,
    ready: bool,
    imports: bool,
    wheels: Vec<String>,
    /// The action that fails, by its name.
    broken: &'static str,
    log: Vec<String>,
}

fn cluster() -> Cluster {
    Cluster {
        conf: CONF.to_string(),
        owners: vec!["helm".to_string()],
        script: SCRIPT.to_string(),
        injected: false,
        image: Some("quay.io/neutron:1".to_string()),
        ready: true,
        imports: true,
        wheels: vec!["unifi-1-py3-none-any.whl".to_string()],
        broken: "",
        log: vec![],
    }
}

fn member<'a>(j: &'a Json, key: &str) -> &'a Json {
    match j {
        Json::Obj(v) => &v.iter().find(|(k, _)| k == key).unwrap().1,
        other => panic!("{other:?}"),
    }
}

fn string(j: &Json) -> String {
    match j {
        Json::Str(s) => s.clone(),
        other => panic!("{other:?}"),
    }
}

fn has(j: &Json, key: &str) -> bool {
    matches!(j, Json::Obj(v) if v.iter().any(|(k, _)| k == key))
}

impl Cluster {
    fn deployment(&self) -> Deployment {
        let init = if self.injected { vec![INJECTOR_CONTAINER_NAME] } else { vec![] };
        Deployment {
            spec: Some(DeploymentSpec {
                match_labels: Some(vec![("app".to_string(), "neutron".to_string())]),
                pod_spec: Some(PodSpec {
                    containers: vec![Container {
                        name: "neutron-server".to_string(),
                        image: self.image.clone(),
                    }],
                    init_containers: Some(
                        init.iter()
                            .map(|n| Container { name: n.to_string(), image: None })
                            .collect(),
                    ),
                }),
            }),
        }
    }

    fn fails(&mut self, action: String) -> bool {
        let fails = action.split(' ').next() == Some(self.broken);
        self.log.push(action);
        fails
    }

    fn patch(&mut self, kind: &str, p: &ApplyPatch) -> Result<(), GuardianError> {
        if self.fails(format!("Patch{kind} {}", p.name)) {
            return Err(GuardianError::Kube("refused".to_string()));
        }
        match p.name.as_str() {
            "neutron-etc" => {
                self.conf = string(member(member(&p.body, "stringData"), "ml2_conf.ini"));
                self.owners = vec![p.manager.clone()];
            }
            "neutron-bin" => {
                self.script = string(member(member(&p.body, "data"), "neutron-server.sh"))
            }
            "neutron-server" => {
                self.injected = has(member(member(&p.body, "spec"), "template"), "spec")
            }
            _ => {}
        }
        Ok(())
    }

    fn answer(&mut self, action: &Action) -> Reply {
        let refused = || GuardianError::Kube("refused".to_string());
        match action {
            Action::GetDeployment(name) => {
                if self.fails(format!("GetDeployment {name}")) {
                    Reply::Deployment(Err(refused()))
                } else {
                    Reply::Deployment(Ok(self.deployment()))
                }
            }
            Action::ListPods(selector) => {
                if self.fails(format!("ListPods {selector}")) {
                    return Reply::Pods(Err(refused()));
                }
                let status = if self.ready { "True" } else { "False" };
                Reply::Pods(Ok(vec![Pod {
                    name: Some("p".to_string()),
                    conditions: Some(vec![Condition {
                        type_: "Ready".to_string(),
                        status: status.to_string(),
                    }]),
                }]))
            }
            Action::Exec { pod, container, command } => {
                assert_eq!(pod, "p");
                assert_eq!(container, "neutron-server");
                let fails = self.fails(format!("Exec {}", command.join(" ")));
                let (stdout, ok) = match command[0].as_str() {
                    "cat" => (self.conf.clone(), !fails),
                    _ => (String::new(), self.imports),
                };
                let failure = if ok { None } else { Some("exit code 1".to_string()) };
                Reply::Captured(ExecCapture::Ended { stdout, failure })
            }
            Action::ReadSecret { name, key } => {
                if self.fails(format!("ReadSecret {name}/{key}")) {
                    Reply::Secret(Err(refused()))
                } else {
                    Reply::Secret(Ok(SecretKey {
                        value: Some(self.conf.clone().into_bytes()),
                        fields: self
                            .owners
                            .iter()
                            .map(|manager| ManagedField {
                                manager: manager.clone(),
                                part: "f:data".to_string(),
                                name: "f:ml2_conf.ini".to_string(),
                            })
                            .collect(),
                    }))
                }
            }
            Action::ReadConfigMap { name, key } => {
                if self.fails(format!("ReadConfigMap {name}/{key}")) {
                    Reply::ConfigMap(Err(refused()))
                } else {
                    Reply::ConfigMap(Ok(Some(self.script.clone())))
                }
            }
            Action::PatchSecret(p) => Reply::Patched(self.patch("Secret", p)),
            Action::PatchConfigMap(p) => Reply::Patched(self.patch("ConfigMap", p)),
            Action::PatchDeployment(p) => Reply::Patched(self.patch("Deployment", p)),
            Action::RefreshWheels { driver, image, timeout_secs } => {
                if self.fails(format!("RefreshWheels {driver} {image} {timeout_secs}")) {
                    Reply::Wheels(Err(refused()))
                } else {
                    Reply::Wheels(Ok(self.wheels.clone()))
                }
            }
            Action::Finish(_) => unreachable!(),
        }
    }

    fn run(
        &mut self,
        cfg: &Config,
        state: &mut ReconcileState,
    ) -> (Vec<Note>, Result<(), GuardianError>) {
        let k8s = K8s { namespace: cfg.target_namespace.clone() };
        self.log.clear();
        let mut notes = vec![];
        let mut run = Run::Start;
        let mut reply = Reply::Begin;
        loop {
            let step = run_once(cfg, &k8s, state, 7, run, reply);
            notes.extend(step.notes);
            if let Action::Finish(outcome) = step.action {
                assert!(matches!(step.run, Run::Done));
                return (notes, outcome);
            }
            reply = self.answer(&step.action);
            run = step.run;
        }
    }

    fn log(&self) -> Vec<&str> {
        self.log.iter().map(|s| s.as_str()).collect()
    }
}

fn driver(name: &str) -> DriverSpec {
    DriverSpec {
        name: name.to_string(),
        pip_package: format!("{name}-package"),
        import_module: format!("{name}_module"),
        extra_config_secret_data: String::new(),
        extra_config_secret_ref: None,
        sole_driver: false,
    }
}

fn config(dry_run: bool, drivers: Vec<DriverSpec>) -> Config {
    let vars = EnvVars {
        listen_addr: None,
        target_namespace: None,
        helm_release_name: None,
        deployment_name: None,
        wheelcache_pvc_name: None,
        reconcile_interval_secs: None,
        dry_run: Some(dry_run.to_string()),
        drivers_config_path: None,
    };
    Config::from_env(&vars, drivers).unwrap()
}

fn words(notes: &[Note]) -> Vec<String> {
    notes
        .iter()
        .map(|n| match n {
            Note::BackingOff(d) => format!("{d} left alone"),
            Note::Present { driver, present } => format!("{driver} present {present}"),
            Note::Degraded { driver, reason } => format!("{driver} degraded: {reason}"),
            Note::RepairDryRun { driver, description } => match description {
                Ok(s) => format!("{driver} would: {s}"),
                Err(e) => format!("{driver} would fail: {}", e.message()),
            },
            Note::Wheels { driver, portability } => match portability {
                Ok(Portability::UniversalPureAny) => format!("{driver} wheels universal"),
                Ok(Portability::VersionPinned) => format!("{driver} wheels pinned"),
                Err(e) => format!("{driver} wheels: {}", e.message()),
            },
            Note::WheelsOutdated { driver, error } => {
                format!("{driver} wheels outdated: {}", error.message())
            }
            Note::Repaired(d) => format!("{d} repaired"),
            Note::RepairBrokenOff { driver, error } => {
                format!("{driver} broken off: {}", error.message())
            }
            Note::Confirmed(d) => format!("{d} confirmed"),
            Note::NotConfirmed { driver, check } => format!("{driver} still {}", other_debug(check)),
            Note::Reverted => "reverted".to_string(),
        })
        .collect()
}

#[test]
fn an_absent_driver_is_repaired_and_then_found() {
    let cfg = config(false, vec![driver("unifi")]);
    let mut state = ReconcileState::default();
    let mut c = cluster();
    let (notes, outcome) = c.run(&cfg, &mut state);
    assert!(outcome.is_ok());
    assert_eq!(
        c.log(),
        vec![
            "GetDeployment neutron-server",
            "ReadSecret neutron-etc/ml2_conf.ini",
            "PatchSecret neutron-etc",
            "RefreshWheels 0 quay.io/neutron:1 300",
            "GetDeployment neutron-server",
            "PatchDeployment neutron-server",
            "GetDeployment neutron-server",
            "ListPods app=neutron",
            "Exec cat /etc/neutron/plugins/ml2/ml2_conf.ini",
            "Exec /bin/sh -c python3 -c \"import unifi_module\"",
        ]
    );
    assert_eq!(
        words(&notes),
        vec!["unifi present false", "unifi wheels universal", "unifi repaired", "unifi confirmed"]
    );
    assert_eq!(c.conf, "[ml2]\nmechanism_drivers = openvswitch,ovn,unifi\n");
    assert!(c.injected);
    assert_eq!(state.failures("unifi"), 0);

    let (notes, outcome) = c.run(&cfg, &mut state);
    assert!(outcome.is_ok());
    assert_eq!(
        c.log(),
        vec![
            "GetDeployment neutron-server",
            "ListPods app=neutron",
            "Exec cat /etc/neutron/plugins/ml2/ml2_conf.ini",
            "Exec /bin/sh -c python3 -c \"import unifi_module\"",
        ]
    );
    assert_eq!(words(&notes), vec!["unifi present true"]);
    assert_eq!(state.failures("unifi"), 0);
}

/// A pass up to the answer to the patch of the Deployment, which comes last in a repair.
fn applied(cfg: &Config, c: &mut Cluster, state: &mut ReconcileState) -> (Run, Action) {
    let k8s = K8s { namespace: cfg.target_namespace.clone() };
    let mut step = run_once(cfg, &k8s, state, 7, Run::Start, Reply::Begin);
    loop {
        let last = matches!(step.action, Action::PatchDeployment(_));
        let reply = c.answer(&step.action);
        step = run_once(cfg, &k8s, state, 7, step.run, reply);
        if last {
            assert_eq!(words(&step.notes), vec!["unifi repaired"]);
            return (step.run, step.action);
        }
    }
}

#[test]
fn a_repair_is_judged_by_the_deployment_as_it_is_then() {
    let cfg = config(false, vec![driver("unifi")]);
    let k8s = K8s { namespace: cfg.target_namespace.clone() };
    for (answer, words_then, failures) in [
        (Ok(Cluster { injected: true, ..cluster() }.deployment()), vec![], 0),
        (Ok(cluster().deployment()), vec!["unifi still absent"], 1),
        (Err(GuardianError::Kube("gone".to_string())), vec!["unifi still degraded"], 1),
    ] {
        let mut c = cluster();
        let mut state = ReconcileState::default();
        let (run, action) = applied(&cfg, &mut c, &mut state);
        assert!(matches!(action, Action::GetDeployment(name) if name == "neutron-server"));
        let step = run_once(&cfg, &k8s, &mut state, 7, run, Reply::Deployment(answer));
        assert_eq!(words(&step.notes), words_then);
        assert_eq!(state.failures("unifi"), failures);
        if failures == 0 {
            assert!(matches!(step.action, Action::ListPods(s) if s == "app=neutron"));
        } else {
            assert!(matches!(step.action, Action::Finish(Ok(()))));
        }
    }
}

#[test]
fn a_driver_that_is_only_missing_in_the_settings_is_confirmed_at_once() {
    let cfg = config(false, vec![driver("unifi")]);
    let mut state = ReconcileState::default();
    let mut c = Cluster { injected: true, ..cluster() };
    bump_failure(&mut state, "unifi");
    let (notes, outcome) = c.run(&cfg, &mut state);
    assert!(outcome.is_ok());
    assert_eq!(
        words(&notes),
        vec!["unifi present false", "unifi wheels universal", "unifi repaired", "unifi confirmed"]
    );
    assert_eq!(state.failures("unifi"), 0);
}

#[test]
fn a_driver_with_settings_as_text() {
    let d = DriverSpec { extra_config_secret_data: "[unifi]".to_string(), ..driver("unifi") };
    let cfg = config(false, vec![d]);
    let mut c = cluster();
    c.run(&cfg, &mut ReconcileState::default()).1.unwrap();
    assert_eq!(
        c.log()[2..],
        [
            "PatchSecret neutron-etc",
            "ReadConfigMap neutron-bin/neutron-server.sh",
            "PatchConfigMap neutron-bin",
            "PatchSecret neutron-ml2-unifi-config",
            "RefreshWheels 0 quay.io/neutron:1 300",
            "GetDeployment neutron-server",
            "PatchDeployment neutron-server",
            "GetDeployment neutron-server",
            "ListPods app=neutron",
            "Exec cat /etc/neutron/plugins/ml2/ml2_conf.ini",
            "Exec /bin/sh -c python3 -c \"import unifi_module\"",
        ]
    );
    assert_eq!(c.script, FLAGGED);
}

#[test]
fn a_driver_with_settings_in_a_secret_of_its_own() {
    let d = DriverSpec { extra_config_secret_ref: Some("creds".to_string()), ..driver("unifi") };
    let cfg = config(false, vec![d]);
    let mut c = Cluster {
        conf: "mechanism_drivers = unifi\n".to_string(),
        script: FLAGGED.to_string(),
        ..cluster()
    };
    c.run(&cfg, &mut ReconcileState::default()).1.unwrap();
    assert_eq!(
        c.log()[1..6],
        [
            "ReadSecret neutron-etc/ml2_conf.ini",
            "ReadConfigMap neutron-bin/neutron-server.sh",
            "RefreshWheels 0 quay.io/neutron:1 300",
            "GetDeployment neutron-server",
            "PatchDeployment neutron-server",
        ]
    );
}

#[test]
fn a_degraded_driver_is_not_repaired() {
    let cfg = config(false, vec![driver("unifi")]);
    let listed = || Cluster {
        conf: "mechanism_drivers = unifi\n".to_string(),
        injected: true,
        ..cluster()
    };
    for (mut c, reason) in [
        (Cluster { ready: false, ..listed() }, "no Ready pod found for deployment"),
        (Cluster { broken: "ListPods", ..listed() }, "error finding ready pod"),
        (Cluster { broken: "Exec", ..listed() }, "error reading ml2_conf.ini"),
        (
            Cluster { imports: false, ..listed() },
            "driver listed in mechanism_drivers but import failed",
        ),
    ] {
        let mut state = ReconcileState::default();
        let (notes, outcome) = c.run(&cfg, &mut state);
        assert!(outcome.is_ok());
        assert_eq!(
            words(&notes),
            vec![format!("unifi degraded: {reason}"), "unifi present false".to_string()]
        );
        assert!(!c.log.iter().any(|a| a.starts_with("Patch") || a.starts_with("Refresh")));
        assert_eq!(state.failures("unifi"), 0);
    }
}

#[test]
fn a_step_that_fails_breaks_the_repair_off_before_the_deployment() {
    let d = || DriverSpec { extra_config_secret_data: "[unifi]".to_string(), ..driver("unifi") };
    for broken in ["ReadSecret", "PatchSecret", "ReadConfigMap", "PatchConfigMap", "RefreshWheels"] {
        let cfg = config(false, vec![d()]);
        let mut c = Cluster { broken, ..cluster() };
        let mut state = ReconcileState::default();
        let (notes, outcome) = c.run(&cfg, &mut state);
        assert!(outcome.is_ok());
        assert_eq!(
            words(&notes),
            vec!["unifi present false", "unifi broken off: kubernetes API error: refused"]
        );
        assert_eq!(state.failures("unifi"), 1);
        assert!(!c.injected);
        assert!(c.log.last().unwrap().starts_with(broken));
    }
}

#[test]
fn a_refused_patch_of_the_deployment_breaks_the_repair_off() {
    let cfg = config(false, vec![driver("unifi")]);
    let mut c = Cluster { broken: "PatchDeployment", ..cluster() };
    let mut state = ReconcileState::default();
    let (notes, _) = c.run(&cfg, &mut state);
    assert_eq!(words(&notes)[2], "unifi broken off: kubernetes API error: refused");
    assert_eq!(state.failures("unifi"), 1);
}

#[test]
fn a_deployment_without_an_image_breaks_the_repair_off() {
    let cfg = config(false, vec![driver("unifi")]);
    let mut c = Cluster { image: None, ..cluster() };
    let (notes, _) = c.run(&cfg, &mut ReconcileState::default());
    assert_eq!(
        words(&notes)[1],
        "unifi broken off: internal error: deployment has no neutron-server container"
    );
}

#[test]
fn settings_without_the_line_break_the_repair_off() {
    let cfg = config(false, vec![driver("unifi")]);
    let mut c = Cluster { conf: "[ml2]\n".to_string(), ..cluster() };
    let (notes, _) = c.run(&cfg, &mut ReconcileState::default());
    assert_eq!(
        words(&notes)[1],
        "unifi broken off: driver config error: no mechanism_drivers line found in ml2_conf.ini -- refusing to guess where to insert one"
    );
}

#[test]
fn wheels_that_cannot_be_classified_do_not_stop_a_repair() {
    let cfg = config(false, vec![driver("unifi")]);
    let mut c = Cluster { wheels: vec![], ..cluster() };
    let (notes, _) = c.run(&cfg, &mut ReconcileState::default());
    assert_eq!(
        words(&notes)[1..3],
        ["unifi wheels: internal error: no .whl filenames produced by download", "unifi repaired"]
    );
    assert!(c.injected);
}

/// A cluster in which a driver was just repaired, with wheels of this name.
fn repaired(state: &mut ReconcileState, wheel: &str) -> Cluster {
    let cfg = config(false, vec![driver("unifi")]);
    let mut c = Cluster { wheels: vec![wheel.to_string()], ..cluster() };
    c.run(&cfg, state).1.unwrap();
    c
}

fn refreshes(c: &Cluster) -> Vec<&str> {
    c.log().into_iter().filter(|a| a.starts_with("RefreshWheels")).collect()
}

#[test]
fn pinned_wheels_follow_the_image() {
    let cfg = config(false, vec![driver("unifi")]);
    let mut state = ReconcileState::default();
    let mut c = repaired(&mut state, "unifi-1-cp310-cp310-linux_x86_64.whl");
    assert!(state.wheels_outdated("unifi", "quay.io/neutron:2"));
    assert!(!state.wheels_outdated("unifi", "quay.io/neutron:1"));

    c.run(&cfg, &mut state).1.unwrap();
    assert!(refreshes(&c).is_empty());

    c.image = Some("quay.io/neutron:2".to_string());
    c.broken = "RefreshWheels";
    let (notes, outcome) = c.run(&cfg, &mut state);
    assert!(outcome.is_ok());
    assert_eq!(
        words(&notes),
        vec!["unifi present true", "unifi wheels outdated: kubernetes API error: refused"]
    );
    assert_eq!(state.failures("unifi"), 0);

    c.broken = "";
    let (notes, _) = c.run(&cfg, &mut state);
    assert_eq!(refreshes(&c), vec!["RefreshWheels 0 quay.io/neutron:2 300"]);
    assert!(!c.log.iter().any(|a| a.starts_with("Patch")));
    assert_eq!(words(&notes), vec!["unifi present true", "unifi wheels pinned"]);

    c.run(&cfg, &mut state).1.unwrap();
    assert!(refreshes(&c).is_empty());
}

#[test]
fn the_wheels_of_a_degraded_driver_follow_the_image_too() {
    let cfg = config(false, vec![driver("unifi")]);
    let mut state = ReconcileState::default();
    let mut c = repaired(&mut state, "odd.whl");
    c.image = Some("quay.io/neutron:2".to_string());
    c.imports = false;
    c.run(&cfg, &mut state).1.unwrap();
    assert_eq!(refreshes(&c), vec!["RefreshWheels 0 quay.io/neutron:2 300"]);
}

#[test]
fn other_wheels_are_kept() {
    let cfg = config(false, vec![driver("unifi")]);
    let mut state = ReconcileState::default();
    let mut c = repaired(&mut state, "unifi-1-py3-none-any.whl");
    c.image = Some("quay.io/neutron:2".to_string());
    c.run(&cfg, &mut state).1.unwrap();
    assert!(refreshes(&c).is_empty());

    // Nothing is known of wheels from another process.
    let mut c = repaired(&mut state, "odd.whl");
    c.image = Some("quay.io/neutron:2".to_string());
    c.run(&cfg, &mut ReconcileState::default()).1.unwrap();
    assert!(refreshes(&c).is_empty());
}

#[test]
fn a_dry_run_refreshes_no_wheels() {
    let mut state = ReconcileState::default();
    let mut c = repaired(&mut state, "odd.whl");
    c.image = Some("quay.io/neutron:2".to_string());
    c.run(&config(true, vec![driver("unifi")]), &mut state).1.unwrap();
    assert!(refreshes(&c).is_empty());
}

#[test]
fn a_driver_is_left_alone_after_three_failures() {
    let cfg = config(false, vec![driver("a"), driver("b")]);
    let mut c = Cluster { broken: "RefreshWheels", ..cluster() };
    let mut state = ReconcileState::default();
    for n in 1..=3 {
        c.run(&cfg, &mut state).1.unwrap();
        assert_eq!(state.failures("a"), n);
        assert_eq!(state.failures("b"), n);
    }
    for _ in 0..2 {
        let (notes, outcome) = c.run(&cfg, &mut state);
        assert!(outcome.is_ok());
        assert_eq!(c.log(), vec!["GetDeployment neutron-server"]);
        assert_eq!(
            words(&notes),
            vec!["a left alone", "a present false", "b left alone", "b present false"]
        );
        assert_eq!(state.failures("a"), 3);
    }
    // Another process begins anew.
    assert!(!ReconcileState::default().backing_off("a"));
}

#[test]
fn one_driver_does_not_stop_another() {
    let cfg = config(false, vec![driver("a"), driver("b")]);
    let mut c = Cluster {
        conf: "mechanism_drivers = b\n".to_string(),
        injected: true,
        broken: "PatchSecret",
        ..cluster()
    };
    let (notes, _) = c.run(&cfg, &mut ReconcileState::default());
    assert_eq!(
        words(&notes),
        vec!["a present false", "a broken off: kubernetes API error: refused", "b present true"]
    );
}

#[test]
fn a_dry_run_of_an_untouched_cluster_changes_nothing() {
    let extra = DriverSpec { extra_config_secret_data: "[b]".to_string(), ..driver("b") };
    let cfg = config(true, vec![driver("a"), extra]);
    let mut c = cluster();
    let mut state = ReconcileState::default();
    let (notes, outcome) = c.run(&cfg, &mut state);
    assert!(outcome.is_ok());
    assert_eq!(
        c.log(),
        vec![
            "GetDeployment neutron-server",
            "ReadSecret neutron-etc/ml2_conf.ini",
            "ReadConfigMap neutron-bin/neutron-server.sh",
            "ReadSecret neutron-etc/ml2_conf.ini",
            "ReadSecret neutron-etc/ml2_conf.ini",
        ]
    );
    assert_eq!(
        words(&notes),
        vec![
            "a present false",
            "a would: patch secret neutron-etc/ml2_conf.ini (mechanism_drivers change: true, new list: openvswitch,ovn,a); has extra config: false; refresh wheel cache for pip package a-package; patch deployment neutron-server to inject initContainer ml2-driver-injector + PYTHONPATH + extra-config mount, forcing a rollout",
            "b present false",
            "b would: patch secret neutron-etc/ml2_conf.ini (mechanism_drivers change: true, new list: openvswitch,ovn,b); has extra config: true (would also ensure --config-dir flag on neutron-bin/neutron-server.sh and write its extra-config secret); refresh wheel cache for pip package b-package; patch deployment neutron-server to inject initContainer ml2-driver-injector + PYTHONPATH + extra-config mount, forcing a rollout",
        ]
    );
    assert_eq!(c.conf, CONF);
    assert_eq!(state.failures("a"), 0);
}

#[test]
fn a_dry_run_says_if_a_repair_would_fail() {
    let cfg = config(true, vec![driver("a")]);
    let mut c = Cluster { broken: "ReadSecret", ..cluster() };
    let (notes, outcome) = c.run(&cfg, &mut ReconcileState::default());
    assert!(outcome.is_ok());
    assert_eq!(
        words(&notes),
        vec!["a present false", "a would fail: kubernetes API error: refused"]
    );
}

#[test]
fn a_dry_run_undoes_a_repair() {
    let d = || DriverSpec { extra_config_secret_data: "[unifi]".to_string(), ..driver("unifi") };
    let mut c = cluster();
    let mut state = ReconcileState::default();
    c.run(&config(false, vec![d()]), &mut state).1.unwrap();
    assert!(c.injected);
    let (notes, outcome) = c.run(&config(true, vec![d()]), &mut state);
    assert!(outcome.is_ok());
    assert_eq!(
        c.log(),
        vec![
            "GetDeployment neutron-server",
            "ReadSecret neutron-etc/ml2_conf.ini",
            "ReadConfigMap neutron-bin/neutron-server.sh",
            "PatchSecret neutron-etc",
            "PatchConfigMap neutron-bin",
            "PatchDeployment neutron-server",
        ]
    );
    assert_eq!(words(&notes), vec!["reverted", "unifi present false"]);
    assert_eq!(c.conf, CONF);
    assert_eq!(c.script, SCRIPT);
    assert!(!c.injected);
}

#[test]
fn a_dry_run_takes_out_what_half_a_repair_left() {
    let cfg = config(true, vec![driver("unifi")]);
    let mut c = Cluster {
        conf: "mechanism_drivers = ovn,unifi\n".to_string(),
        owners: vec!["helm".to_string(), FIELD_MANAGER.to_string()],
        ..cluster()
    };
    c.run(&cfg, &mut ReconcileState::default()).1.unwrap();
    assert_eq!(c.log()[3..], ["PatchSecret neutron-etc", "PatchDeployment neutron-server"]);
    assert_eq!(c.conf, "mechanism_drivers = ovn\n");

    let mut c = Cluster { script: FLAGGED.to_string(), ..cluster() };
    c.run(&cfg, &mut ReconcileState::default()).1.unwrap();
    assert_eq!(c.log()[3..], ["PatchConfigMap neutron-bin", "PatchDeployment neutron-server"]);
    assert_eq!(c.script, SCRIPT);
}

#[test]
fn a_dry_run_leaves_a_driver_that_someone_else_has_listed() {
    let cfg = config(true, vec![driver("ovn"), driver("unifi")]);
    for broken in ["", "ReadConfigMap"] {
        let mut c = Cluster { broken, ..cluster() };
        let (notes, outcome) = c.run(&cfg, &mut ReconcileState::default());
        assert!(outcome.is_ok());
        assert!(!c.log.iter().any(|a| a.starts_with("Patch")));
        assert!(!notes.iter().any(|n| matches!(n, Note::Reverted)));
        assert_eq!(c.conf, CONF);
    }
    // Nor does what is left of an earlier change make a difference.
    let mut c = Cluster { owners: vec![FIELD_MANAGER.to_string()], ..cluster() };
    c.run(&config(true, vec![driver("unifi")]), &mut ReconcileState::default()).1.unwrap();
    assert!(!c.log.iter().any(|a| a.starts_with("Patch")));
}

#[test]
fn a_dry_run_that_cannot_take_out_fails() {
    let cfg = config(true, vec![driver("unifi")]);
    for broken in ["ReadSecret", "ReadConfigMap", "PatchSecret", "PatchDeployment"] {
        let mut c = Cluster {
            conf: "mechanism_drivers = ovn,unifi\n".to_string(),
            injected: true,
            broken,
            ..cluster()
        };
        let (notes, outcome) = c.run(&cfg, &mut ReconcileState::default());
        assert!(notes.is_empty());
        assert!(matches!(outcome, Err(GuardianError::Kube(_))));
        assert!(c.injected);
    }
}

#[test]
fn a_pass_without_the_deployment_fails() {
    let cfg = config(false, vec![driver("unifi")]);
    let mut c = Cluster { broken: "GetDeployment", ..cluster() };
    let (notes, outcome) = c.run(&cfg, &mut ReconcileState::default());
    assert!(notes.is_empty());
    assert!(matches!(outcome, Err(GuardianError::Kube(w)) if w == "refused"));
}

#[test]
fn an_answer_out_of_turn_ends_the_pass() {
    let cfg = config(false, vec![driver("unifi")]);
    let k8s = K8s { namespace: "pcd".to_string() };
    let mut state = ReconcileState::default();
    let step = run_once(&cfg, &k8s, &mut state, 0, Run::GettingDeployment, Reply::Patched(Ok(())));
    assert!(matches!(
        step.action,
        Action::Finish(Err(GuardianError::Internal(w)))
            if w == "reconcile pass got an answer out of turn"
    ));
}

#[test]
fn the_words_for_a_check() {
    assert_eq!(other_debug(&CheckResult::Present), "present");
    assert_eq!(other_debug(&CheckResult::Absent), "absent");
    assert_eq!(other_debug(&CheckResult::Degraded("x")), "degraded");
}
