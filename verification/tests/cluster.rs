use neutron_ml2_guardian::config::DriverSpec;
use neutron_ml2_guardian::error::GuardianError;
use neutron_ml2_guardian::json::Json;
use neutron_ml2_guardian::k8s::{
    ApplyPatch, Condition, Container, Deployment, DeploymentSpec, ExecCapture, K8s, ManagedField,
    Pod, PodSpec,
    INJECTOR_CONTAINER_NAME,
};

fn driver(name: &str) -> DriverSpec {
    DriverSpec {
        name: name.to_string(),
        pip_package: format!("{name}-package"),
        import_module: format!("{name}_module"),
        extra_config_secret_data: String::new(),
        extra_config_secret_ref: None,
        sole_driver: false,
    }
}

fn container(name: &str, image: Option<&str>) -> Container {
    Container { name: name.to_string(), image: image.map(|i| i.to_string()) }
}

fn deployment(containers: Vec<Container>, init: Option<Vec<Container>>) -> Deployment {
    Deployment {
        spec: Some(DeploymentSpec {
            match_labels: Some(vec![
                ("app".to_string(), "neutron".to_string()),
                ("tier".to_string(), "api".to_string()),
            ]),
            pod_spec: Some(PodSpec { containers, init_containers: init }),
        }),
    }
}

fn pod(name: Option<&str>, conditions: &[(&str, &str)]) -> Pod {
    Pod {
        name: name.map(|n| n.to_string()),
        conditions: Some(
            conditions
                .iter()
                .map(|(t, s)| Condition { type_: t.to_string(), status: s.to_string() })
                .collect(),
        ),
    }
}

fn value(j: &Json) -> serde_json::Value {
    match j {
        Json::Bool(b) => serde_json::Value::Bool(*b),
        Json::Int(n) => serde_json::Value::from(*n),
        Json::Str(s) => serde_json::Value::String(s.clone()),
        Json::Arr(v) => serde_json::Value::Array(v.iter().map(value).collect()),
        Json::Obj(v) => {
            serde_json::Value::Object(v.iter().map(|(k, x)| (k.clone(), value(x))).collect())
        }
    }
}

fn is_patch(p: &ApplyPatch, name: &str, body: &str) {
    assert_eq!(p.name, name);
    assert_eq!(p.manager, "neutron-ml2-guardian");
    assert!(p.force);
    let expected: serde_json::Value = serde_json::from_str(body).unwrap();
    assert_eq!(value(&p.body), expected);
}

fn k8s() -> K8s {
    K8s { namespace: "pcd".to_string() }
}

#[test]
fn the_image_of_the_main_container() {
    let d = deployment(
        vec![container("a", Some("i1")), container("neutron-server", Some("i2"))],
        None,
    );
    assert_eq!(K8s::main_container_image(&d, "neutron-server"), Some("i2".to_string()));
    assert_eq!(K8s::main_container_image(&d, "b"), None);
    let first = deployment(vec![container("a", None), container("a", Some("i"))], None);
    assert_eq!(K8s::main_container_image(&first, "a"), None);
    assert_eq!(K8s::main_container_image(&Deployment { spec: None }, "a"), None);
}

#[test]
fn the_injection_is_known_by_its_name() {
    let with = deployment(vec![], Some(vec![container("x", None), container(INJECTOR_CONTAINER_NAME, None)]));
    assert!(K8s::has_injection(&with));
    assert!(!K8s::has_injection(&deployment(vec![container(INJECTOR_CONTAINER_NAME, None)], Some(vec![]))));
    assert!(!K8s::has_injection(&deployment(vec![], None)));
    assert!(!K8s::has_injection(&Deployment { spec: None }));
}

#[test]
fn the_label_selector() {
    assert_eq!(K8s::label_selector(&deployment(vec![], None)), "app=neutron,tier=api");
    assert_eq!(K8s::label_selector(&Deployment { spec: None }), "");
}

#[test]
fn the_first_ready_pod() {
    let pods = vec![
        Pod { name: Some("p0".to_string()), conditions: None },
        pod(Some("p1"), &[("Ready", "False"), ("Initialized", "True")]),
        pod(None, &[("Ready", "True")]),
        pod(Some("p3"), &[("Initialized", "False"), ("Ready", "True")]),
        pod(Some("p4"), &[("Ready", "True")]),
    ];
    assert_eq!(K8s::find_ready_pod(&pods), Some("p3".to_string()));
    assert_eq!(K8s::find_ready_pod(&vec![]), None);
}

#[test]
fn what_a_command_wrote() {
    for stdout in ["abc", "abc\n", "a\r\n\nb", ""] {
        let ok = ExecCapture::Ended { stdout: stdout.to_string(), failure: None };
        assert_eq!(K8s::exec_capture(ok).unwrap(), stdout);
    }
    let failed = ExecCapture::Ended {
        stdout: "abc".to_string(),
        failure: Some("exit code 1".to_string()),
    };
    assert!(matches!(
        K8s::exec_capture(failed),
        Err(GuardianError::PodExec(w)) if w == "command failed: exit code 1"
    ));
    assert!(matches!(
        K8s::exec_capture(ExecCapture::Refused("no".to_string())),
        Err(GuardianError::Kube(w)) if w == "no"
    ));
    assert!(matches!(
        K8s::exec_capture(ExecCapture::NoStdout),
        Err(GuardianError::PodExec(w)) if w == "no stdout stream"
    ));
    assert!(matches!(
        K8s::exec_capture(ExecCapture::Broken("cut".to_string())),
        Err(GuardianError::PodExec(w)) if w == "cut"
    ));
}

#[test]
fn the_keys_of_a_secret_and_a_configmap() {
    assert_eq!(K8s::get_secret_key("s", "k", Some("\u{e9}x".as_bytes().to_vec())).unwrap(), "\u{e9}x");
    assert!(matches!(
        K8s::get_secret_key("s", "k", None),
        Err(GuardianError::Config(w)) if w == "secret s has no key k"
    ));
    let why = String::from_utf8(vec![0xff]).unwrap_err().to_string();
    assert!(matches!(
        K8s::get_secret_key("s", "k", Some(vec![0xff])),
        Err(GuardianError::Internal(w)) if w == format!("secret s/k is not valid UTF-8: {why}")
    ));
    assert_eq!(K8s::get_configmap_key("c", "k", Some("v".to_string())).unwrap(), "v");
    assert!(matches!(
        K8s::get_configmap_key("c", "k", None),
        Err(GuardianError::Config(w)) if w == "configmap c has no key k"
    ));
}

#[test]
fn patches_of_one_key() {
    is_patch(
        &k8s().patch_secret_key("neutron-etc", "ml2_conf.ini", "v"),
        "neutron-etc",
        r#"{"apiVersion":"v1","kind":"Secret","metadata":{"name":"neutron-etc","namespace":"pcd"},"stringData":{"ml2_conf.ini":"v"}}"#,
    );
    is_patch(
        &k8s().patch_configmap_key("neutron-bin", "neutron-server.sh", "v"),
        "neutron-bin",
        r#"{"apiVersion":"v1","kind":"ConfigMap","metadata":{"name":"neutron-bin","namespace":"pcd"},"data":{"neutron-server.sh":"v"}}"#,
    );
}

#[test]
fn the_secret_with_a_drivers_own_settings() {
    let text = DriverSpec { extra_config_secret_data: "[unifi]\n".to_string(), ..driver("unifi") };
    is_patch(
        &k8s().write_driver_config_secret(&text).unwrap(),
        "neutron-ml2-unifi-config",
        r#"{"apiVersion":"v1","kind":"Secret","metadata":{"name":"neutron-ml2-unifi-config","namespace":"pcd"},"stringData":{"unifi.ini":"[unifi]\n"}}"#,
    );
    let named = DriverSpec { extra_config_secret_ref: Some("s".to_string()), ..driver("unifi") };
    assert!(k8s().write_driver_config_secret(&named).is_none());
    assert!(k8s().write_driver_config_secret(&driver("unifi")).is_none());
}

#[test]
fn the_patch_with_the_injection() {
    let d = deployment(vec![container("neutron-server", Some("quay.io/neutron:1"))], None);
    let drivers = vec![
        DriverSpec { extra_config_secret_data: "[a]".to_string(), ..driver("a") },
        driver("b"),
        DriverSpec { extra_config_secret_ref: Some("creds".to_string()), ..driver("c") },
    ];
    let p = k8s()
        .apply_injection_patch(&d, "dep", "neutron-server", "wheels", &drivers, 1757800000)
        .unwrap();
    is_patch(
        &p,
        "dep",
        r#"{
            "apiVersion": "apps/v1",
            "kind": "Deployment",
            "metadata": {"name": "dep", "namespace": "pcd"},
            "spec": {"template": {
                "metadata": {"annotations": {"neutron-ml2-guardian/restarted-at": "1757800000"}},
                "spec": {
                    "volumes": [
                        {"name": "ml2-driver-plugins", "emptyDir": {}},
                        {"name": "ml2-wheelcache", "persistentVolumeClaim": {"claimName": "wheels", "readOnly": true}},
                        {"name": "ml2-extra-config-a", "secret": {"secretName": "neutron-ml2-a-config"}},
                        {"name": "ml2-extra-config-c", "secret": {"secretName": "creds"}}
                    ],
                    "initContainers": [{
                        "name": "ml2-driver-injector",
                        "image": "quay.io/neutron:1",
                        "command": ["/bin/sh", "-c", "pip install --no-index --find-links=/wheelcache/a --find-links=/wheelcache/b --find-links=/wheelcache/c --target=/opt/ml2-plugins a-package b-package c-package"],
                        "volumeMounts": [
                            {"name": "ml2-driver-plugins", "mountPath": "/opt/ml2-plugins"},
                            {"name": "ml2-wheelcache", "mountPath": "/wheelcache", "readOnly": true}
                        ]
                    }],
                    "containers": [{
                        "name": "neutron-server",
                        "env": [{"name": "PYTHONPATH", "value": "/opt/ml2-plugins"}],
                        "volumeMounts": [
                            {"name": "ml2-driver-plugins", "mountPath": "/opt/ml2-plugins"},
                            {"name": "ml2-extra-config-a", "mountPath": "/etc/neutron/ml2-extra-conf.d/a.conf", "subPath": "a.ini", "readOnly": true},
                            {"name": "ml2-extra-config-c", "mountPath": "/etc/neutron/ml2-extra-conf.d/c.conf", "subPath": "c.ini", "readOnly": true}
                        ]
                    }]
                }
            }}
        }"#,
    );
    let later = k8s()
        .apply_injection_patch(&d, "dep", "neutron-server", "wheels", &drivers, 1757800001)
        .unwrap();
    assert_ne!(value(&p.body), value(&later.body));
}

#[test]
fn a_deployment_without_the_main_container_is_refused() {
    let d = deployment(vec![container("x", Some("i"))], None);
    assert!(matches!(
        k8s().apply_injection_patch(&d, "dep", "neutron-server", "w", &vec![], 0),
        Err(GuardianError::Config(w)) if w == "deployment dep has no container named neutron-server"
    ));
}

#[test]
fn the_patch_without_the_injection() {
    is_patch(
        &k8s().remove_injection_patch("dep", 0),
        "dep",
        r#"{"apiVersion":"apps/v1","kind":"Deployment","metadata":{"name":"dep","namespace":"pcd"},
            "spec":{"template":{"metadata":{"annotations":{"neutron-ml2-guardian/restarted-at":"0"}}}}}"#,
    );
}

#[test]
fn who_owns_a_key_of_a_secret() {
    let field = |manager: &str, part: &str, name: &str| ManagedField {
        manager: manager.to_string(),
        part: part.to_string(),
        name: name.to_string(),
    };
    let fields = vec![
        field("helm", "f:data", "f:ml2_conf.ini"),
        field("guardian", "f:stringData", "f:ml2_conf.ini"),
        field("kubectl", "f:metadata", "f:ml2_conf.ini"),
        field("other", "f:data", "f:neutron.conf"),
    ];
    for (manager, owns) in [
        ("helm", true),
        ("guardian", true),
        ("kubectl", false),
        ("other", false),
        ("nobody", false),
    ] {
        assert_eq!(K8s::manages_key(&fields, manager, "ml2_conf.ini"), owns);
    }
    assert!(!K8s::manages_key(&fields, "helm", "f:ml2_conf.ini"));
    assert!(!K8s::manages_key(&vec![], "helm", "ml2_conf.ini"));
}
