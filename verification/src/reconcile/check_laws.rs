//! What holds of every check, and of a check behind a repair.
use crate::k8s::{captured, Deployment, ExecCapture};
use crate::reconcile::actions::Reply;
use crate::reconcile::check::{
    check_start, check_step, exec_in, import_command, CheckPhaseView, CheckStepView, CheckView,
};
use crate::reconcile::edit_laws::{
    law_a_removed_driver_is_not_included, law_an_added_driver_is_included,
};
use crate::reconcile::ml2_conf::{conf_includes, conf_with, conf_without};
use crate::reconcile::ml2_conf_lemmas::is_entry;
use crate::text_lemmas::free_of;
use vstd::prelude::*;

verus! {

/// A pod whose settings are `conf`, asked to show them, shows them.
pub open spec fn shows(capture: ExecCapture, conf: Seq<char>) -> bool {
    capture matches ExecCapture::Ended { stdout, failure: None } && stdout@ == conf
}

/// The check goes by the settings that the pod has: it goes on to the import exactly if they include
/// the driver, and finds it absent otherwise.
pub proof fn law_a_check_goes_by_the_settings_in_the_pod(
    conf: Seq<char>,
    driver: Seq<char>,
    import_module: Seq<char>,
    pod: Seq<char>,
    capture: ExecCapture,
)
    requires
        shows(capture, conf),
    ensures
        check_step(
            driver,
            import_module,
            CheckPhaseView::ReadingConf(pod),
            Reply::Captured(capture),
        ) == (if conf_includes(conf, driver) {
            CheckStepView::Ask(
                CheckPhaseView::Importing,
                exec_in(pod, import_command(import_module)),
            )
        } else {
            CheckStepView::Decided(CheckView::Absent)
        }),
{
}

/// What a repair writes, the check finds: in a pod whose settings are those that the repair wrote,
/// the driver is listed, and the check goes on to the import. It finds the driver present exactly if
/// the import succeeds.
pub proof fn law_a_check_finds_what_a_repair_wrote(
    conf: Seq<char>,
    driver: Seq<char>,
    import_module: Seq<char>,
    pod: Seq<char>,
    capture: ExecCapture,
    import: ExecCapture,
)
    requires
        is_entry(driver),
        free_of(driver, '\n'),
        conf_with(conf, driver) is Ok,
        shows(capture, conf_with(conf, driver)->Ok_0),
    ensures
        check_step(
            driver,
            import_module,
            CheckPhaseView::ReadingConf(pod),
            Reply::Captured(capture),
        ) == CheckStepView::Ask(
            CheckPhaseView::Importing,
            exec_in(pod, import_command(import_module)),
        ),
        check_step(driver, import_module, CheckPhaseView::Importing, Reply::Captured(import))
            == CheckStepView::Decided(CheckView::Present) <==> captured(import) is Ok,
{
    law_an_added_driver_is_included(conf, driver);
    law_a_check_goes_by_the_settings_in_the_pod(
        conf_with(conf, driver)->Ok_0,
        driver,
        import_module,
        pod,
        capture,
    );
}

/// In a pod whose settings are those that a taking out wrote, the check finds the driver absent.
pub proof fn law_a_check_misses_what_was_taken_out(
    conf: Seq<char>,
    driver: Seq<char>,
    import_module: Seq<char>,
    pod: Seq<char>,
    capture: ExecCapture,
)
    requires
        driver.len() > 0,
        shows(capture, conf_without(conf, driver)),
    ensures
        check_step(
            driver,
            import_module,
            CheckPhaseView::ReadingConf(pod),
            Reply::Captured(capture),
        ) == CheckStepView::Decided(CheckView::Absent),
{
    law_a_removed_driver_is_not_included(conf, driver);
    law_a_check_goes_by_the_settings_in_the_pod(
        conf_without(conf, driver),
        driver,
        import_module,
        pod,
        capture,
    );
}

/// A check never changes anything in the cluster.
pub proof fn law_a_check_only_looks(
    deployment: Deployment,
    driver: Seq<char>,
    import_module: Seq<char>,
    phase: CheckPhaseView,
    reply: Reply,
)
    ensures
        check_start(deployment) matches CheckStepView::Ask(_, action) ==> action is ListPods,
        check_step(driver, import_module, phase, reply) matches CheckStepView::Ask(_, action)
            ==> action is Exec,
{
}

/// A driver is found present only at the end of all layers: the module was imported in the pod whose
/// settings list the driver.
pub proof fn law_present_means_imported(
    driver: Seq<char>,
    import_module: Seq<char>,
    phase: CheckPhaseView,
    reply: Reply,
)
    requires
        check_step(driver, import_module, phase, reply) == CheckStepView::Decided(
            CheckView::Present,
        ),
    ensures
        phase is Importing,
        reply matches Reply::Captured(capture) && captured(capture) is Ok,
{
}

} // verus!
