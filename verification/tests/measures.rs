use neutron_ml2_guardian::error::GuardianError;
use neutron_ml2_guardian::metrics::{
    exposition, metrics_handler, record_present, record_reconcile_run, record_repair,
    record_repair_dry_run, record_repair_failure, registry, Metrics,
};
use neutron_ml2_guardian::reconcile::actions::Note;
use neutron_ml2_guardian::reconcile::check::CheckResult;
use neutron_ml2_guardian::reconcile::record::{
    measure, record_note, record_outcome, word_of, Measure,
};
use prometheus::{Encoder, TextEncoder};

fn text(m: &Metrics) -> String {
    String::from_utf8(exposition(m).unwrap()).unwrap()
}

#[test]
fn recorded_metrics_gather_into_valid_prometheus_text() {
    let mut m = Metrics::new().unwrap();
    record_present(&mut m, "unifi-smoke-test", true);
    record_repair(&mut m, "unifi-smoke-test", true);
    record_repair_dry_run(&mut m, "unifi-smoke-test");
    record_repair_failure(&mut m, "unifi-smoke-test");
    record_reconcile_run(&mut m, "success");

    let metric_families = registry(&m);
    let encoder = TextEncoder::new();
    let mut buffer = Vec::new();
    encoder.encode(&metric_families, &mut buffer).unwrap();
    let text = String::from_utf8(buffer).unwrap();

    assert!(text.contains("ml2_driver_present{driver=\"unifi-smoke-test\"} 1"));
    assert!(text.contains(
        "ml2_driver_repairs_total{driver=\"unifi-smoke-test\",outcome=\"applied\"} 1"
    ));
    assert!(text.contains(
        "ml2_driver_repairs_total{driver=\"unifi-smoke-test\",outcome=\"dry_run\"} 1"
    ));
    assert!(text.contains("ml2_driver_repair_failures_total{driver=\"unifi-smoke-test\"} 1"));
    assert!(text.contains("ml2_guardian_reconcile_runs_total{outcome=\"success\"} 1"));
}

#[test]
fn nothing_recorded_is_an_empty_text() {
    let m = Metrics::new().unwrap();
    assert_eq!(text(&m), "");
}

#[test]
fn the_whole_text_of_one_record() {
    let mut m = Metrics::new().unwrap();
    record_present(&mut m, "unifi", true);
    record_present(&mut m, "unifi", false);
    assert_eq!(
        text(&m),
        "# HELP ml2_driver_present 1 if the driver's layered present-check passes, 0 otherwise, by driver\n\
         # TYPE ml2_driver_present gauge\n\
         ml2_driver_present{driver=\"unifi\"} 0\n"
    );
}

#[test]
fn counters_count_by_driver_and_outcome() {
    let mut m = Metrics::new().unwrap();
    record_repair(&mut m, "a", true);
    record_repair(&mut m, "a", true);
    record_repair(&mut m, "a", false);
    record_repair(&mut m, "b", true);
    assert_eq!(
        text(&m),
        "# HELP ml2_driver_repairs_total Repair attempts applied, by driver and outcome (applied/skipped/dry_run)\n\
         # TYPE ml2_driver_repairs_total counter\n\
         ml2_driver_repairs_total{driver=\"a\",outcome=\"applied\"} 2\n\
         ml2_driver_repairs_total{driver=\"a\",outcome=\"skipped\"} 1\n\
         ml2_driver_repairs_total{driver=\"b\",outcome=\"applied\"} 1\n"
    );
}

#[test]
fn members_are_told_apart_by_their_label_values() {
    let mut m = Metrics::new().unwrap();
    record_repair(&mut m, "a", true);
    record_repair_dry_run(&mut m, "a");
    record_repair(&mut m, "aapplied", true);
    assert_eq!(
        text(&m).lines().skip(2).collect::<Vec<_>>(),
        vec![
            "ml2_driver_repairs_total{driver=\"a\",outcome=\"applied\"} 1",
            "ml2_driver_repairs_total{driver=\"a\",outcome=\"dry_run\"} 1",
            "ml2_driver_repairs_total{driver=\"aapplied\",outcome=\"applied\"} 1",
        ]
    );
    record_reconcile_run(&mut m, "success");
    record_present(&mut m, "", true);
    assert_eq!(registry(&m).len(), 3);
    assert!(text(&m).contains("ml2_driver_present{driver=\"\"} 1\n"));
}

#[test]
fn label_values_are_escaped() {
    let mut m = Metrics::new().unwrap();
    record_present(&mut m, "a\"b\\c\nd", true);
    assert!(text(&m).contains("ml2_driver_present{driver=\"a\\\"b\\\\c\\nd\"} 1\n"));
}

#[test]
fn two_sets_of_metrics_do_not_share_anything() {
    let mut a = Metrics::new().unwrap();
    let b = Metrics::new().unwrap();
    record_reconcile_run(&mut a, "error");
    assert!(text(&a).contains("ml2_guardian_reconcile_runs_total{outcome=\"error\"} 1"));
    assert_eq!(text(&b), "");
}

#[test]
fn notes_become_records() {
    let mut m = Metrics::new().unwrap();
    let d = || "d".to_string();
    for note in [
        Note::BackingOff(d()),
        Note::Degraded { driver: d(), reason: "x".to_string() },
        Note::Confirmed(d()),
        Note::RepairBrokenOff { driver: d(), error: GuardianError::Kube("x".to_string()) },
        Note::WheelsOutdated { driver: d(), error: GuardianError::Kube("x".to_string()) },
        Note::Reverted,
    ] {
        assert!(measure(&note).is_none());
        record_note(&mut m, &note);
        assert_eq!(text(&m), "");
    }
    record_note(&mut m, &Note::Present { driver: d(), present: true });
    record_note(&mut m, &Note::Repaired(d()));
    record_note(&mut m, &Note::RepairDryRun { driver: d(), description: Ok("x".to_string()) });
    record_note(&mut m, &Note::NotConfirmed { driver: d(), check: CheckResult::Absent });
    record_outcome(&mut m, &Ok(()));
    record_outcome(&mut m, &Err(GuardianError::Kube("x".to_string())));
    let all = text(&m);
    for line in [
        "ml2_driver_present{driver=\"d\"} 1\n",
        "ml2_driver_repairs_total{driver=\"d\",outcome=\"applied\"} 1\n",
        "ml2_driver_repairs_total{driver=\"d\",outcome=\"dry_run\"} 1\n",
        "ml2_driver_repair_failures_total{driver=\"d\"} 1\n",
        "ml2_guardian_reconcile_runs_total{outcome=\"success\"} 1\n",
        "ml2_guardian_reconcile_runs_total{outcome=\"error\"} 1\n",
    ] {
        assert!(all.contains(line));
    }
}

#[test]
fn what_notes_say_for_the_metrics() {
    let d = || "d".to_string();
    assert!(matches!(
        measure(&Note::Present { driver: d(), present: false }),
        Some(Measure::Present { driver, present: false }) if driver == "d"
    ));
    assert!(matches!(
        measure(&Note::Repaired(d())),
        Some(Measure::Repair { driver, outcome: "applied" }) if driver == "d"
    ));
    assert!(matches!(
        measure(&Note::RepairDryRun { driver: d(), description: Ok(d()) }),
        Some(Measure::Repair { driver, outcome: "dry_run" }) if driver == "d"
    ));
    assert!(matches!(
        measure(&Note::NotConfirmed { driver: d(), check: CheckResult::Absent }),
        Some(Measure::RepairFailure { driver }) if driver == "d"
    ));
    assert_eq!(word_of(&Ok(())), "success");
    assert_eq!(word_of(&Err(GuardianError::Kube(d()))), "error");
}

#[test]
fn the_answer_to_a_request_for_the_metrics() {
    let good = metrics_handler(Ok(vec![1, 2]));
    assert_eq!(good.status, 200);
    assert_eq!(good.content_type, "text/plain; version=0.0.4");
    assert_eq!(good.body, vec![1, 2]);
    let bad = metrics_handler(Err("x".to_string()));
    assert_eq!(bad.status, 500);
    assert_eq!(bad.content_type, "text/plain");
    assert!(bad.body.is_empty());
}
