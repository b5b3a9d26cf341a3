use neutron_ml2_guardian::config::DriverSpec;
use neutron_ml2_guardian::error::GuardianError;
use neutron_ml2_guardian::json::Json;
use neutron_ml2_guardian::k8s::Pod;
use neutron_ml2_guardian::wheelcache::{
    classify, job_name_of, read_job_pod_wheel_list, refresh, JobStatus, Portability,
    RefreshAction, RefreshEvent, RefreshPhase,
};

fn driver() -> DriverSpec {
    DriverSpec {
        name: "unifi".to_string(),
        pip_package: "unifi-ml2-driver".to_string(),
        import_module: "unifi_ml2_driver".to_string(),
        extra_config_secret_data: String::new(),
        extra_config_secret_ref: None,
        sole_driver: false,
    }
}

fn step(phase: RefreshPhase, event: RefreshEvent) -> (RefreshPhase, RefreshAction) {
    refresh("pcd", "wheels", "quay.io/neutron:1", &driver(), 300, phase, event)
}

fn value(j: &Json) -> serde_json::Value {
    match j {
        Json::Bool(b) => serde_json::Value::Bool(*b),
        Json::Int(n) => serde_json::Value::from(*n),
        Json::Str(s) => serde_json::Value::String(s.clone()),
        Json::Arr(v) => serde_json::Value::Array(v.iter().map(value).collect()),
        Json::Obj(v) => {
            serde_json::Value::Object(v.iter().map(|(k, x)| (k.clone(), value(x))).collect())
        }
    }
}

fn whl(names: &[&str]) -> Vec<String> {
    names.iter().map(|n| n.to_string()).collect()
}

#[test]
fn classify_all_universal_wheels_is_pure_any() {
    let filenames = vec![
        "unifi_ml2_driver-1.0.0-py3-none-any.whl".to_string(),
        "stevedore-5.2.0-py3-none-any.whl".to_string(),
    ];
    assert_eq!(classify(&filenames).unwrap(), Portability::UniversalPureAny);
}

#[test]
fn classify_one_compiled_wheel_is_version_pinned() {
    let filenames = vec![
        "unifi_ml2_driver-1.0.0-py3-none-any.whl".to_string(),
        "aiohttp-3.9.0-cp310-cp310-manylinux_2_17_x86_64.whl".to_string(),
    ];
    assert_eq!(classify(&filenames).unwrap(), Portability::VersionPinned);
}

#[test]
fn classify_unrecognized_filename_fails_safe_to_version_pinned() {
    let filenames = vec!["not-a-real-wheel-filename".to_string()];
    assert_eq!(classify(&filenames).unwrap(), Portability::VersionPinned);
}

#[test]
fn classify_empty_list_errors() {
    assert!(classify(&[]).is_err());
}

#[test]
fn the_shape_of_a_wheel_name_is_strict() {
    let universal = |n: &str| classify(&whl(&[n])).unwrap() == Portability::UniversalPureAny;
    // With a build tag, with more hyphens, and with the shortest parts.
    assert!(universal("a-1.0-1-py3-none-any.whl"));
    assert!(universal("a-b-c-d-py3-none-any.whl"));
    assert!(universal("a-b-c-none-any.whl"));
    assert!(universal("----c-none-any.whl"));
    assert!(!universal("---c-none-any.whl"));
    // A name or a version is missing.
    assert!(!universal("a-py3-none-any.whl"));
    assert!(!universal("-b-c-none-any.whl"));
    assert!(!universal("a--c-none-any.whl"));
    // Another ABI, another platform, another ending.
    assert!(!universal("a-1-py3-abi3-any.whl"));
    assert!(!universal("a-1-py3-none-linux.whl"));
    assert!(!universal("a-1-py3-none-any.whl "));
    assert!(!universal("a-1-py3-none-any.tar.gz"));
    assert!(!universal("a-1-py3-none-anyxwhl"));
    // A line feed is allowed in a tag, not in a name or a version.
    assert!(universal("a-1-p\ny-none-any.whl"));
    assert!(!universal("a\n-1-py3-none-any.whl"));
    assert!(!universal("a-1-py3-none-any.whl\n"));
}

#[test]
fn no_wheels_at_all_is_an_error_with_a_reason() {
    assert!(matches!(
        classify(&[]),
        Err(GuardianError::Internal(why)) if why == "no .whl filenames produced by download"
    ));
}

#[test]
fn the_wheels_are_picked_out_of_the_log() {
    let log = "Collecting x\n  a-1-py3-none-any.whl  \r\nSaved ./b.whl\nb-1.whl\nb.whl.asc\n";
    assert_eq!(
        read_job_pod_wheel_list(log),
        whl(&["a-1-py3-none-any.whl", "Saved ./b.whl", "b-1.whl"])
    );
    assert!(read_job_pod_wheel_list("").is_empty());
}

#[test]
fn the_job_is_named_after_the_driver() {
    assert_eq!(job_name_of("unifi"), "neutron-ml2-wheelcache-unifi");
}

#[test]
fn a_refresh_that_succeeds() {
    let (phase, action) = step(RefreshPhase::Start, RefreshEvent::Begin);
    assert!(matches!(action, RefreshAction::DeleteJob(n) if n == "neutron-ml2-wheelcache-unifi"));
    let (phase, action) = step(phase, RefreshEvent::Deleted);
    let job = match action {
        RefreshAction::CreateJob(job) => value(&job),
        other => panic!("{other:?}"),
    };
    let expected: serde_json::Value = serde_json::from_str(
        r#"{
            "apiVersion": "batch/v1",
            "kind": "Job",
            "metadata": { "name": "neutron-ml2-wheelcache-unifi", "namespace": "pcd" },
            "spec": {
                "backoffLimit": 1,
                "ttlSecondsAfterFinished": 300,
                "template": {
                    "metadata": { "labels": { "job-name": "neutron-ml2-wheelcache-unifi" } },
                    "spec": {
                        "restartPolicy": "Never",
                        "containers": [{
                            "name": "pip-download",
                            "image": "quay.io/neutron:1",
                            "command": ["/bin/sh", "-c", "set -eu; mkdir -p /wheelcache/unifi; pip download --no-cache-dir --dest /wheelcache/unifi unifi-ml2-driver; ls -1 /wheelcache/unifi"],
                            "volumeMounts": [{ "name": "wheelcache", "mountPath": "/wheelcache" }]
                        }],
                        "volumes": [{
                            "name": "wheelcache",
                            "persistentVolumeClaim": { "claimName": "wheels" }
                        }]
                    }
                }
            }
        }"#,
    )
    .unwrap();
    assert_eq!(job, expected);
    let (phase, action) = step(phase, RefreshEvent::Created(Ok(())));
    assert!(matches!(action, RefreshAction::AskTime));
    let (phase, action) = step(phase, RefreshEvent::Elapsed(0));
    assert!(matches!(action, RefreshAction::GetJob(n) if n == "neutron-ml2-wheelcache-unifi"));
    let running = JobStatus { succeeded: None, failed: Some(0) };
    let (phase, action) = step(phase, RefreshEvent::Job(Ok(running)));
    assert!(matches!(action, RefreshAction::Sleep(3)));
    let (phase, action) = step(phase, RefreshEvent::Slept);
    assert!(matches!(action, RefreshAction::AskTime));
    let (phase, _) = step(phase, RefreshEvent::Elapsed(299));
    let ended = JobStatus { succeeded: Some(1), failed: Some(1) };
    let (phase, action) = step(phase, RefreshEvent::Job(Ok(ended)));
    assert!(matches!(action, RefreshAction::ListPods(s) if s == "job-name=neutron-ml2-wheelcache-unifi"));
    let pods = vec![
        Pod { name: Some("p1".to_string()), conditions: None },
        Pod { name: Some("p2".to_string()), conditions: None },
    ];
    let (phase, action) = step(phase, RefreshEvent::Pods(Ok(pods)));
    assert!(matches!(action, RefreshAction::ReadLogs(p) if p == "p1"));
    let (phase, action) = step(phase, RefreshEvent::Logs(Ok("x\na.whl\n".to_string())));
    assert!(matches!(action, RefreshAction::DeleteJob(n) if n == "neutron-ml2-wheelcache-unifi"));
    let (phase, action) = step(phase, RefreshEvent::Deleted);
    assert!(matches!(phase, RefreshPhase::Done));
    assert!(matches!(action, RefreshAction::Finish(Ok(v)) if v == whl(&["a.whl"])));
}

fn deleted_with(answer: (RefreshPhase, RefreshAction), why: &str) {
    assert!(matches!(answer.1, RefreshAction::DeleteJob(_)));
    let (_, action) = step(answer.0, RefreshEvent::Deleted);
    match action {
        RefreshAction::Finish(Err(e)) => assert_eq!(e.message(), why),
        other => panic!("{other:?}"),
    }
}

#[test]
fn a_refresh_that_takes_too_long() {
    deleted_with(
        step(RefreshPhase::Timing, RefreshEvent::Elapsed(300)),
        "internal error: wheelcache download Job neutron-ml2-wheelcache-unifi did not complete within 300s",
    );
}

#[test]
fn a_refresh_whose_job_fails() {
    let status = JobStatus { succeeded: Some(0), failed: Some(1) };
    deleted_with(
        step(RefreshPhase::Polling, RefreshEvent::Job(Ok(status))),
        "internal error: wheelcache download Job neutron-ml2-wheelcache-unifi failed",
    );
}

#[test]
fn a_refresh_whose_job_has_no_pod() {
    let why = "internal error: no pod found for job neutron-ml2-wheelcache-unifi";
    deleted_with(step(RefreshPhase::Listing, RefreshEvent::Pods(Ok(vec![]))), why);
    let nameless = vec![Pod { name: None, conditions: None }];
    deleted_with(step(RefreshPhase::Listing, RefreshEvent::Pods(Ok(nameless))), why);
}

#[test]
fn a_refresh_whose_log_cannot_be_read() {
    let gone = || GuardianError::Kube("gone".to_string());
    deleted_with(
        step(RefreshPhase::Reading, RefreshEvent::Logs(Err(gone()))),
        "kubernetes API error: gone",
    );
    deleted_with(
        step(RefreshPhase::Listing, RefreshEvent::Pods(Err(gone()))),
        "kubernetes API error: gone",
    );
}

#[test]
fn a_refresh_that_is_refused_ends_at_once() {
    let refused = RefreshEvent::Created(Err(GuardianError::Kube("no".to_string())));
    assert!(matches!(
        step(RefreshPhase::Creating, refused).1,
        RefreshAction::Finish(Err(GuardianError::Kube(why))) if why == "no"
    ));
}

#[test]
fn a_job_that_cannot_be_looked_at_is_deleted() {
    let unseen = RefreshEvent::Job(Err(GuardianError::Kube("no".to_string())));
    let (phase, action) = step(RefreshPhase::Polling, unseen);
    assert!(matches!(action, RefreshAction::DeleteJob(_)));
    assert!(matches!(
        step(phase, RefreshEvent::Deleted).1,
        RefreshAction::Finish(Err(GuardianError::Kube(why))) if why == "no"
    ));
}

#[test]
fn a_refresh_that_hears_something_else_ends_with_an_error() {
    assert!(matches!(
        step(RefreshPhase::Polling, RefreshEvent::Slept).1,
        RefreshAction::Finish(Err(GuardianError::Internal(why)))
            if why == "wheelcache refresh got an answer out of turn"
    ));
}
