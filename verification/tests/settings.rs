use neutron_ml2_guardian::config::{
    load_drivers, validate_extra_config_exclusive, validate_sole_drivers, Config, DriverSpec,
    DriversFile, EnvVars,
};
use neutron_ml2_guardian::error::GuardianError;

fn driver(name: &str) -> DriverSpec {
    DriverSpec {
        name: name.to_string(),
        pip_package: format!("{name}-package"),
        import_module: format!("{name}_module"),
        extra_config_secret_data: String::new(),
        extra_config_secret_ref: None,
        sole_driver: false,
    }
}

fn nothing_set() -> EnvVars {
    EnvVars {
        listen_addr: None,
        target_namespace: None,
        helm_release_name: None,
        deployment_name: None,
        wheelcache_pvc_name: None,
        reconcile_interval_secs: None,
        dry_run: None,
        drivers_config_path: None,
    }
}

fn config_error<T>(r: Result<T, GuardianError>) -> String {
    match r {
        Err(GuardianError::Config(why)) => why,
        _ => panic!("no config error"),
    }
}

#[test]
fn defaults_where_nothing_is_set() {
    let c = Config::from_env(&nothing_set(), vec![]).unwrap();
    assert_eq!(c.listen_addr, "0.0.0.0:8080");
    assert_eq!(c.target_namespace, "pcd");
    assert_eq!(c.helm_release_name, "neutron");
    assert_eq!(c.deployment_name, "neutron-server");
    assert_eq!(c.wheelcache_pvc_name, "neutron-ml2-wheelcache");
    assert_eq!(c.reconcile_interval_secs, 300);
    assert!(c.dry_run);
    assert!(c.drivers.is_empty());
    assert_eq!(nothing_set().drivers_file(), "/etc/neutron-ml2-guardian/drivers.yaml");
}

#[test]
fn what_is_set_counts() {
    let vars = EnvVars {
        listen_addr: Some("[::]:1".to_string()),
        target_namespace: Some("ns".to_string()),
        helm_release_name: Some("rel".to_string()),
        deployment_name: Some("dep".to_string()),
        wheelcache_pvc_name: Some("pvc".to_string()),
        reconcile_interval_secs: Some("60".to_string()),
        dry_run: Some("false".to_string()),
        drivers_config_path: Some("/drivers".to_string()),
    };
    assert_eq!(vars.drivers_file(), "/drivers");
    let c = Config::from_env(&vars, vec![driver("a"), driver("b")]).unwrap();
    assert_eq!(c.listen_addr, "[::]:1");
    assert_eq!(c.target_namespace, "ns");
    assert_eq!(c.helm_release_name, "rel");
    assert_eq!(c.deployment_name, "dep");
    assert_eq!(c.wheelcache_pvc_name, "pvc");
    assert_eq!(c.reconcile_interval_secs, 60);
    assert!(!c.dry_run);
    assert_eq!(c.drivers.len(), 2);
    assert_eq!(c.drivers[1].name, "b");
}

#[test]
fn only_the_word_false_ends_the_dry_run() {
    for (word, dry) in [
        ("false", false),
        ("true", true),
        ("False", true),
        ("0", true),
        ("", true),
        (" false", true),
    ] {
        let mut vars = nothing_set();
        vars.dry_run = Some(word.to_string());
        assert_eq!(Config::from_env(&vars, vec![]).unwrap().dry_run, dry);
    }
}

#[test]
fn the_interval_is_read_as_the_standard_library_reads_numbers() {
    for word in [
        "0",
        "+7",
        "007",
        "18446744073709551615",
        "18446744073709551616",
        "-1",
        "+",
        "",
        "1 ",
        "1e3",
        "\u{663}",
    ] {
        let mut vars = nothing_set();
        vars.reconcile_interval_secs = Some(word.to_string());
        assert_eq!(
            Config::from_env(&vars, vec![]).unwrap().reconcile_interval_secs,
            word.parse::<u64>().unwrap_or(300)
        );
    }
}

#[test]
fn two_sole_drivers_are_refused() {
    let sole = |name: &str| DriverSpec { sole_driver: true, ..driver(name) };
    assert!(validate_sole_drivers(&vec![sole("a"), driver("b")]).is_ok());
    assert_eq!(
        config_error(validate_sole_drivers(&vec![sole("a"), driver("x"), sole("b\"")])),
        "more than one driver is flagged sole_driver ([\"a\", \"b\\\"\"]) -- these can't be combined, fix the drivers config"
    );
    assert!(Config::from_env(&nothing_set(), vec![sole("a"), sole("b")]).is_err());
}

#[test]
fn settings_given_in_both_ways_are_refused() {
    let both = DriverSpec {
        extra_config_secret_data: "[a]".to_string(),
        extra_config_secret_ref: Some("s".to_string()),
        ..driver("a")
    };
    assert_eq!(
        config_error(validate_extra_config_exclusive(&vec![driver("x"), both])),
        "driver a sets both extraConfigSecretData and extraConfigSecretRef -- only one can be used, fix the drivers config"
    );
    assert!(validate_extra_config_exclusive(&vec![driver("x")]).is_ok());
}

#[test]
fn where_a_drivers_own_settings_are() {
    let none = driver("a");
    assert!(!none.has_extra_config());
    assert_eq!(none.extra_config_secret_name(), None);
    let text = DriverSpec { extra_config_secret_data: "[a]".to_string(), ..driver("a") };
    assert!(text.has_extra_config());
    assert_eq!(text.extra_config_secret_name(), Some("neutron-ml2-a-config".to_string()));
    let named = DriverSpec { extra_config_secret_ref: Some("s".to_string()), ..driver("a") };
    assert!(named.has_extra_config());
    assert_eq!(named.extra_config_secret_name(), Some("s".to_string()));
    assert_eq!(named.managed_secret_name(), "neutron-ml2-a-config");
}

#[test]
fn the_file_with_the_drivers() {
    assert!(load_drivers("/d", DriversFile::Missing).unwrap().is_empty());
    assert_eq!(
        config_error(load_drivers("/d", DriversFile::Unreadable("denied".to_string()))),
        "reading drivers config /d: denied"
    );
    assert_eq!(
        config_error(load_drivers("/d", DriversFile::Unparsable("bad".to_string()))),
        "parsing drivers config /d: bad"
    );
    assert_eq!(
        load_drivers("/d", DriversFile::Parsed(vec![driver("a")])).unwrap()[0].name,
        "a"
    );
}

#[test]
fn errors_in_words() {
    let s = || "x".to_string();
    assert_eq!(GuardianError::Kube(s()).message(), "kubernetes API error: x");
    assert_eq!(GuardianError::Helm(s()).message(), "helm command failed: x");
    assert_eq!(GuardianError::PodExec(s()).message(), "pod exec failed: x");
    assert_eq!(GuardianError::Config(s()).message(), "driver config error: x");
    assert_eq!(GuardianError::Internal(s()).message(), "internal error: x");
}
