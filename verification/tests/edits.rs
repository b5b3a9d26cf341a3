use neutron_ml2_guardian::error::GuardianError;
use neutron_ml2_guardian::reconcile::ml2_conf::mechanism_drivers_of;
use neutron_ml2_guardian::reconcile::server_script::{EXTRA_CONF_DIR, ML2_CONF_FILE_FLAG_LINE};
use neutron_ml2_guardian::reconcile::{
    add_config_dir_flag, add_driver_to_ml2_conf, mechanism_drivers_line_includes,
    remove_config_dir_flag, remove_driver_from_ml2_conf,
};
use neutron_ml2_guardian::text::white;

const SAMPLE_ML2_CONF: &str = "[ml2]\n\
    extension_drivers = port_security,qos,dns_domain_keywords\n\
    mechanism_drivers = openvswitch,ovn\n\
    path_mtu = 9000\n\
    tenant_network_types = \n";

const SAMPLE_NEUTRON_SERVER_SH: &str = r#"#!/bin/bash

function start () {
  exec neutron-server \
        --config-file /etc/neutron/neutron.conf \
        --config-file /tmp/pod-shared/ovn.ini \
        --config-file /etc/neutron/plugins/ml2/ml2_conf.ini
}
"#;

#[test]
fn mechanism_drivers_line_includes_true_and_false() {
    assert!(mechanism_drivers_line_includes(SAMPLE_ML2_CONF, "ovn"));
    assert!(mechanism_drivers_line_includes(
        SAMPLE_ML2_CONF,
        "openvswitch"
    ));
    assert!(!mechanism_drivers_line_includes(SAMPLE_ML2_CONF, "unifi"));
}

#[test]
fn add_driver_to_ml2_conf_appends_when_missing() {
    let updated = add_driver_to_ml2_conf(SAMPLE_ML2_CONF, "unifi").unwrap();
    assert!(mechanism_drivers_line_includes(&updated, "unifi"));
    // Every other line preserved untouched.
    assert!(updated.contains("path_mtu = 9000"));
    assert!(updated.contains("extension_drivers = port_security,qos,dns_domain_keywords"));
    // Existing drivers not dropped.
    assert!(mechanism_drivers_line_includes(&updated, "ovn"));
    assert!(mechanism_drivers_line_includes(&updated, "openvswitch"));
}

#[test]
fn add_driver_to_ml2_conf_is_idempotent() {
    let once = add_driver_to_ml2_conf(SAMPLE_ML2_CONF, "unifi").unwrap();
    let twice = add_driver_to_ml2_conf(&once, "unifi").unwrap();
    assert_eq!(once, twice);
    // Only one occurrence, not appended again.
    let line = twice
        .lines()
        .find(|l| l.trim_start().starts_with("mechanism_drivers"))
        .unwrap();
    assert_eq!(line.matches("unifi").count(), 1);
}

#[test]
fn add_driver_to_ml2_conf_preserves_trailing_newline() {
    let with_newline = "mechanism_drivers = ovn\n";
    let without_newline = "mechanism_drivers = ovn";
    assert!(add_driver_to_ml2_conf(with_newline, "unifi")
        .unwrap()
        .ends_with('\n'));
    assert!(!add_driver_to_ml2_conf(without_newline, "unifi")
        .unwrap()
        .ends_with('\n'));
}

#[test]
fn add_driver_to_ml2_conf_errors_without_mechanism_drivers_line() {
    let result = add_driver_to_ml2_conf("[ml2]\ntype_drivers = vlan\n", "unifi");
    assert!(result.is_err());
}

#[test]
fn add_config_dir_flag_inserts_after_anchor_line() {
    let updated = add_config_dir_flag(SAMPLE_NEUTRON_SERVER_SH).unwrap();
    assert!(updated.contains(&format!("--config-dir {EXTRA_CONF_DIR}")));
    // The anchor line itself is preserved, just gains a continuation.
    assert!(updated.contains(&format!("{ML2_CONF_FILE_FLAG_LINE} \\")));
    // Everything else untouched.
    assert!(updated.contains("--config-file /etc/neutron/neutron.conf"));
}

#[test]
fn add_config_dir_flag_is_idempotent() {
    let once = add_config_dir_flag(SAMPLE_NEUTRON_SERVER_SH).unwrap();
    let twice = add_config_dir_flag(&once).unwrap();
    assert_eq!(once, twice);
}

#[test]
fn add_config_dir_flag_errors_without_anchor_line() {
    let result = add_config_dir_flag("#!/bin/bash\nexec neutron-server\n");
    assert!(result.is_err());
}

#[test]
fn an_added_driver_goes_behind_the_others() {
    assert_eq!(
        add_driver_to_ml2_conf(SAMPLE_ML2_CONF, "unifi").unwrap(),
        "[ml2]\nextension_drivers = port_security,qos,dns_domain_keywords\n\
         mechanism_drivers = openvswitch,ovn,unifi\npath_mtu = 9000\ntenant_network_types = \n"
    );
}

#[test]
fn a_listed_driver_is_not_added_but_the_line_is_tidied() {
    assert_eq!(
        add_driver_to_ml2_conf("  mechanism_drivers=ovn , unifi,,\nx = 1", "unifi").unwrap(),
        "mechanism_drivers = ovn,unifi\nx = 1"
    );
}

#[test]
fn a_line_without_a_value_gets_the_driver_alone() {
    assert_eq!(
        add_driver_to_ml2_conf("mechanism_drivers\n", "unifi").unwrap(),
        "mechanism_drivers = unifi\n"
    );
    assert_eq!(
        add_driver_to_ml2_conf("mechanism_drivers =\n", "unifi").unwrap(),
        "mechanism_drivers = unifi\n"
    );
}

#[test]
fn only_the_part_behind_the_first_equals_sign_counts() {
    assert!(mechanism_drivers_line_includes("mechanism_drivers = a,b = c", "b"));
    assert!(!mechanism_drivers_line_includes("mechanism_drivers = a,b = c", "c"));
    assert_eq!(
        add_driver_to_ml2_conf("mechanism_drivers = a = b", "c").unwrap(),
        "mechanism_drivers = a,c"
    );
}

#[test]
fn the_first_line_decides_and_every_line_is_edited() {
    let two = "mechanism_drivers = a\nmechanism_drivers = b\n";
    assert!(mechanism_drivers_line_includes(two, "a"));
    assert!(!mechanism_drivers_line_includes(two, "b"));
    assert_eq!(
        add_driver_to_ml2_conf(two, "c").unwrap(),
        "mechanism_drivers = a,c\nmechanism_drivers = b,c\n"
    );
}

#[test]
fn every_line_keeps_its_line_end() {
    assert_eq!(
        add_driver_to_ml2_conf("[ml2]\r\nmechanism_drivers = ovn", "unifi").unwrap(),
        "[ml2]\r\nmechanism_drivers = ovn,unifi"
    );
    let mixed = "[ml2]\r\nmechanism_drivers = ovn\r\n\r\r\nx\ny\r";
    let added = add_driver_to_ml2_conf(mixed, "unifi").unwrap();
    assert_eq!(added, "[ml2]\r\nmechanism_drivers = ovn,unifi\r\n\r\r\nx\ny\r");
    assert!(mechanism_drivers_line_includes(&added, "unifi"));
    assert_eq!(add_driver_to_ml2_conf(&added, "unifi").unwrap(), added);
    assert_eq!(remove_driver_from_ml2_conf(&added, "unifi"), mixed);
}

#[test]
fn every_line_of_the_script_keeps_its_line_end() {
    let script = SAMPLE_NEUTRON_SERVER_SH.replace('\n', "\r\n");
    let added = add_config_dir_flag(&script).unwrap();
    assert_eq!(
        added,
        add_config_dir_flag(SAMPLE_NEUTRON_SERVER_SH).unwrap().replace('\n', "\r\n")
    );
    assert_eq!(remove_config_dir_flag(&added), script);
    assert_eq!(remove_config_dir_flag(&script), script);
    // At the end of the file a carriage return is no line end.
    let cut = format!("x\r\r\n{ML2_CONF_FILE_FLAG_LINE}");
    let added = add_config_dir_flag(&cut).unwrap();
    assert_eq!(
        added,
        format!("x\r\r\n{ML2_CONF_FILE_FLAG_LINE} \\\n        --config-dir {EXTRA_CONF_DIR}")
    );
    assert_eq!(remove_config_dir_flag(&added), cut);
    assert!(add_config_dir_flag(&format!("{ML2_CONF_FILE_FLAG_LINE}\r")).is_err());
}

#[test]
fn only_the_setting_itself_is_edited() {
    assert_eq!(
        add_driver_to_ml2_conf(
            "mechanism_drivers_note = keep\nmechanism_drivers = ovn\n",
            "unifi"
        )
        .unwrap(),
        "mechanism_drivers_note = keep\nmechanism_drivers = ovn,unifi\n"
    );
    let other = "mechanism_drivers_note = unifi\n#mechanism_drivers = unifi\n";
    assert!(!mechanism_drivers_line_includes(other, "unifi"));
    assert!(add_driver_to_ml2_conf(other, "unifi").is_err());
    assert_eq!(remove_driver_from_ml2_conf(other, "unifi"), other);
    assert!(mechanism_drivers_line_includes("\t mechanism_drivers= unifi", "unifi"));
}

#[test]
fn adding_a_driver_includes_no_other() {
    let added = add_driver_to_ml2_conf(SAMPLE_ML2_CONF, "unifi").unwrap();
    for name in ["unifi", "ovn", "openvswitch"] {
        assert!(mechanism_drivers_line_includes(&added, name));
    }
    for name in ["uni", "fi", "mechanism_drivers", "openvswitch,ovn"] {
        assert!(!mechanism_drivers_line_includes(&added, name));
    }
}

#[test]
fn the_value_of_the_setting() {
    assert_eq!(mechanism_drivers_of(SAMPLE_ML2_CONF), "openvswitch,ovn");
    assert_eq!(
        mechanism_drivers_of("x = 1\r\nmechanism_drivers =  a , b \r\nmechanism_drivers = c"),
        "a , b"
    );
    assert_eq!(mechanism_drivers_of("[ml2]\n"), "");
}

#[test]
fn the_refusals_say_what_is_missing() {
    assert!(matches!(
        add_driver_to_ml2_conf("", "unifi"),
        Err(GuardianError::Config(why))
            if why == "no mechanism_drivers line found in ml2_conf.ini -- refusing to guess where to insert one"
    ));
    let why = format!(
        "neutron-server.sh didn't contain the expected anchor line ({ML2_CONF_FILE_FLAG_LINE:?}) -- refusing to guess where to insert --config-dir"
    );
    assert!(matches!(
        add_config_dir_flag("exec neutron-server"),
        Err(GuardianError::Config(found)) if found == why
    ));
}

#[test]
fn taking_a_driver_out_undoes_adding_it() {
    let added = add_driver_to_ml2_conf(SAMPLE_ML2_CONF, "unifi").unwrap();
    assert_eq!(remove_driver_from_ml2_conf(&added, "unifi"), SAMPLE_ML2_CONF);
    assert_eq!(
        remove_driver_from_ml2_conf("mechanism_drivers = unifi\n", "unifi"),
        "mechanism_drivers = \n"
    );
}

#[test]
fn taking_out_a_driver_that_is_not_listed_changes_nothing() {
    let odd = "mechanism_drivers  =a ,b\r\n\r\nx";
    assert_eq!(remove_driver_from_ml2_conf(odd, "unifi"), odd);
    assert_eq!(remove_driver_from_ml2_conf(odd, ""), odd);
}

#[test]
fn taking_a_driver_out_keeps_the_others() {
    let left = remove_driver_from_ml2_conf("mechanism_drivers = a,b,a,c\n", "a");
    assert_eq!(left, "mechanism_drivers = b,c\n");
    assert!(!mechanism_drivers_line_includes(&left, "a"));
    assert!(mechanism_drivers_line_includes(&left, "b"));
}

#[test]
fn the_flag_stands_on_a_line_of_its_own() {
    let updated = add_config_dir_flag(SAMPLE_NEUTRON_SERVER_SH).unwrap();
    let expected = SAMPLE_NEUTRON_SERVER_SH.replace(
        "ml2_conf.ini\n",
        "ml2_conf.ini \\\n        --config-dir /etc/neutron/ml2-extra-conf.d\n",
    );
    assert_eq!(updated, expected);
}

#[test]
fn taking_the_flag_out_undoes_adding_it() {
    let added = add_config_dir_flag(SAMPLE_NEUTRON_SERVER_SH).unwrap();
    let back = remove_config_dir_flag(&added);
    assert_eq!(back, SAMPLE_NEUTRON_SERVER_SH);
    assert!(back.len() < added.len());
    assert_eq!(remove_config_dir_flag(&back), back);
}

#[test]
fn a_flag_that_is_already_there_in_another_place_is_enough() {
    let script = "neutron-server --config-dir /etc/neutron/ml2-extra-conf.d\n";
    assert_eq!(add_config_dir_flag(script).unwrap(), script);
    assert_eq!(remove_config_dir_flag(script), script);
}

#[test]
fn white_space_is_what_the_standard_library_says() {
    for c in '\0'..=char::MAX {
        assert_eq!(white(c), c.is_whitespace());
    }
}
