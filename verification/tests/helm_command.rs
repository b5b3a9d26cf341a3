use neutron_ml2_guardian::error::GuardianError;
use neutron_ml2_guardian::helm::{
    get_values, get_values_args, mechanism_drivers_value, run, upgrade_set_values_with_chart,
    HelmOutput,
};

fn owned(v: &[&str]) -> Vec<String> {
    v.iter().map(|s| s.to_string()).collect()
}

fn drivers_in(values: &str) -> Option<String> {
    mechanism_drivers_value(&get_values(values).unwrap())
}

#[test]
fn the_arguments_of_helm() {
    assert_eq!(
        get_values_args("pcd", "neutron"),
        owned(&["get", "values", "neutron", "-n", "pcd", "-a", "-o", "json"])
    );
    let set = vec![
        ("a.b".to_string(), "1".to_string()),
        ("c".to_string(), "x=y".to_string()),
    ];
    assert_eq!(
        upgrade_set_values_with_chart("pcd", "neutron", "/chart", &set),
        owned(&[
            "upgrade", "neutron", "/chart", "--reuse-values", "-n", "pcd", "--set", "a.b=1",
            "--set", "c=x=y",
        ])
    );
    assert_eq!(
        upgrade_set_values_with_chart("pcd", "neutron", "/chart", &vec![]),
        owned(&["upgrade", "neutron", "/chart", "--reuse-values", "-n", "pcd"])
    );
}

#[test]
fn the_drivers_in_the_values_of_a_release() {
    assert_eq!(
        drivers_in(r#"{"conf":{"neutron":{"ml2_conf":{"ml2":{"mechanism_drivers":"ovn,unifi"}}}}}"#),
        Some("ovn,unifi".to_string())
    );
    assert_eq!(
        drivers_in(r#"{"conf":{"neutron":{"ml2_conf":{"ml2":{"mechanism_drivers":null}}}}}"#),
        None
    );
    assert_eq!(
        drivers_in(r#"{"conf":{"neutron":{"ml2_conf":{"ml2":{"mechanism_drivers":["ovn"]}}}}}"#),
        None
    );
    assert_eq!(drivers_in("{}"), None);
}

#[test]
fn values_that_are_not_json() {
    match get_values("{") {
        Err(GuardianError::Helm(why)) => {
            assert!(why.starts_with("parsing `helm get values` output: EOF while parsing"))
        }
        _ => panic!("no error"),
    }
}

#[test]
fn what_became_of_a_run() {
    let args = owned(&["get", "a b"]);
    let missing = run(&args, HelmOutput::NotStarted("no such file".to_string()));
    assert!(matches!(missing, Err(GuardianError::Helm(w)) if w == "spawning helm: no such file"));
    let ended = |success: bool| HelmOutput::Ended {
        success,
        status: "exit status: 1".to_string(),
        stdout: "out \u{e9}".as_bytes().to_vec(),
        stderr: vec![b'e', 0xff],
    };
    assert_eq!(run(&args, ended(true)).unwrap(), "out \u{e9}");
    assert!(matches!(
        run(&args, ended(false)),
        Err(GuardianError::Helm(w))
            if w == "helm [\"get\", \"a b\"] exited with exit status: 1: e\u{fffd}"
    ));
}
