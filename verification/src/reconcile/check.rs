//! The layered check of whether a driver is present. Each layer finds what the others miss: the
//! injection is in the Deployment; a pod is ready; its settings list the driver; the driver's module
//! can be imported.
use crate::k8s::{captured, label_terms, ready_pod, Deployment, K8s};
use crate::reconcile::actions::{Action, ActionView, Reply};
use crate::reconcile::ml2_conf::{conf_includes, mechanism_drivers_line_includes};
use crate::text::{concat, join, texts};
use vstd::prelude::*;

verus! {

/// The container that runs Neutron.
pub const MAIN_CONTAINER_NAME: &'static str = "neutron-server";

/// Where a pod has the settings of the ML2 plugin.
pub const ML2_CONF_PATH: &'static str = "/etc/neutron/plugins/ml2/ml2_conf.ini";

/// What the check finds.
#[derive(Debug)]
pub enum CheckResult {
    /// The driver is loaded.
    Present,
    /// The driver is not installed, or not configured.
    Absent,
    /// The driver may be installed, but cannot be seen to work, for this reason.
    Degraded(&'static str),
}

/// A [`CheckResult`] with its text as a sequence of characters.
pub enum CheckView {
    Present,
    Absent,
    Degraded(Seq<char>),
}

impl View for CheckResult {
    type V = CheckView;

    open spec fn view(&self) -> CheckView {
        match *self {
            CheckResult::Present => CheckView::Present,
            CheckResult::Absent => CheckView::Absent,
            CheckResult::Degraded(reason) => CheckView::Degraded(reason@),
        }
    }
}

/// One word for the log.
pub open spec fn check_word(c: CheckView) -> Seq<char> {
    match c {
        CheckView::Present => "present"@,
        CheckView::Absent => "absent"@,
        CheckView::Degraded(_) => "degraded"@,
    }
}

/// One word for the log.
pub fn other_debug(r: &CheckResult) -> (s: &'static str)
    ensures
        s@ == check_word(r@),
{
    match r {
        CheckResult::Present => "present",
        CheckResult::Absent => "absent",
        CheckResult::Degraded(_) => "degraded",
    }
}

/// How far a check is: what it waits for.
#[derive(Debug)]
pub enum CheckPhase {
    /// The pods are being listed.
    ListingPods,
    /// The settings in the pod of this name are being read.
    ReadingConf(String),
    /// The module is being imported.
    Importing,
}

/// A [`CheckPhase`] with its texts as sequences of characters.
pub enum CheckPhaseView {
    ListingPods,
    ReadingConf(Seq<char>),
    Importing,
}

impl View for CheckPhase {
    type V = CheckPhaseView;

    open spec fn view(&self) -> CheckPhaseView {
        match *self {
            CheckPhase::ListingPods => CheckPhaseView::ListingPods,
            CheckPhase::ReadingConf(pod) => CheckPhaseView::ReadingConf(pod@),
            CheckPhase::Importing => CheckPhaseView::Importing,
        }
    }
}

/// What a check comes to.
#[derive(Debug)]
pub enum CheckStep {
    /// The finding.
    Decided(CheckResult),
    /// Something is to be done first, and this is waited for then.
    Ask(CheckPhase, Action),
    /// The answer was to something else.
    OutOfTurn,
}

/// A [`CheckStep`] with its texts as sequences of characters.
pub enum CheckStepView {
    Decided(CheckView),
    Ask(CheckPhaseView, ActionView),
    OutOfTurn,
}

impl View for CheckStep {
    type V = CheckStepView;

    open spec fn view(&self) -> CheckStepView {
        match *self {
            CheckStep::Decided(c) => CheckStepView::Decided(c@),
            CheckStep::Ask(phase, action) => CheckStepView::Ask(phase@, action@),
            CheckStep::OutOfTurn => CheckStepView::OutOfTurn,
        }
    }
}

/// The finding that a driver is degraded.
pub open spec fn degraded(reason: Seq<char>) -> CheckStepView {
    CheckStepView::Decided(CheckView::Degraded(reason))
}

/// The command that shows the settings of the ML2 plugin.
pub open spec fn show_conf_command() -> Seq<Seq<char>> {
    seq!["cat"@].push(ML2_CONF_PATH@)
}

/// The command that imports a module.
pub open spec fn import_command(module: Seq<char>) -> Seq<Seq<char>> {
    seq!["/bin/sh"@].push("-c"@).push("python3 -c \"import "@ + module + "\""@)
}

/// A command in the container that runs Neutron.
pub open spec fn exec_in(pod: Seq<char>, command: Seq<Seq<char>>) -> ActionView {
    ActionView::Exec { pod, container: MAIN_CONTAINER_NAME@, command }
}

/// The first step of a check.
pub open spec fn check_start(deployment: Deployment) -> CheckStepView {
    if deployment.injected() {
        CheckStepView::Ask(
            CheckPhaseView::ListingPods,
            ActionView::ListPods(join(label_terms(deployment.labels()), ","@)),
        )
    } else {
        CheckStepView::Decided(CheckView::Absent)
    }
}

/// A later step of a check.
pub open spec fn check_step(
    driver: Seq<char>,
    import_module: Seq<char>,
    phase: CheckPhaseView,
    reply: Reply,
) -> CheckStepView {
    match (phase, reply) {
        (CheckPhaseView::ListingPods, Reply::Pods(Ok(pods))) => match ready_pod(pods@) {
            Some(pod) => CheckStepView::Ask(
                CheckPhaseView::ReadingConf(pod),
                exec_in(pod, show_conf_command()),
            ),
            None => degraded("no Ready pod found for deployment"@),
        },
        (CheckPhaseView::ListingPods, Reply::Pods(Err(_))) => degraded(
            "error finding ready pod"@,
        ),
        (CheckPhaseView::ReadingConf(pod), Reply::Captured(capture)) => match captured(capture) {
            Ok(conf) => if conf_includes(conf, driver) {
                CheckStepView::Ask(
                    CheckPhaseView::Importing,
                    exec_in(pod, import_command(import_module)),
                )
            } else {
                CheckStepView::Decided(CheckView::Absent)
            },
            Err(_) => degraded("error reading ml2_conf.ini"@),
        },
        (CheckPhaseView::Importing, Reply::Captured(capture)) => match captured(capture) {
            Ok(_) => CheckStepView::Decided(CheckView::Present),
            Err(_) => degraded("driver listed in mechanism_drivers but import failed"@),
        },
        _ => CheckStepView::OutOfTurn,
    }
}

/// The first step of a check: without the injection the driver is absent, else the pods of the
/// Deployment are looked at.
pub fn check_present(deployment: &Deployment) -> (r: CheckStep)
    ensures
        r@ == check_start(*deployment),
{
    if K8s::has_injection(deployment) {
        CheckStep::Ask(
            CheckPhase::ListingPods,
            Action::ListPods(K8s::label_selector(deployment)),
        )
    } else {
        CheckStep::Decided(CheckResult::Absent)
    }
}

fn show_conf() -> (r: Vec<String>)
    ensures
        texts(r@) == show_conf_command(),
{
    let mut r: Vec<String> = Vec::new();
    r.push("cat".to_owned());
    r.push(ML2_CONF_PATH.to_owned());
    assert(texts(r@) =~= show_conf_command());
    r
}

fn import(module: &str) -> (r: Vec<String>)
    ensures
        texts(r@) == import_command(module@),
{
    let mut r: Vec<String> = Vec::new();
    r.push("/bin/sh".to_owned());
    r.push("-c".to_owned());
    let head = concat("python3 -c \"import ", module);
    r.push(concat(head.as_str(), "\""));
    assert(texts(r@) =~= import_command(module@));
    r
}

fn run_in(pod: String, command: Vec<String>) -> (r: Action)
    ensures
        r@ == exec_in(pod@, texts(command@)),
{
    Action::Exec { pod, container: MAIN_CONTAINER_NAME.to_owned(), command }
}

/// A later step of a check. No pod that is ready is a driver that is degraded, not one that is
/// absent: a repair could not help it.
pub fn check_present_next(
    driver: &str,
    import_module: &str,
    phase: CheckPhase,
    reply: Reply,
) -> (r: CheckStep)
    ensures
        r@ == check_step(driver@, import_module@, phase@, reply),
{
    match (phase, reply) {
        (CheckPhase::ListingPods, Reply::Pods(Ok(pods))) => match K8s::find_ready_pod(&pods) {
            Some(pod) => {
                let name = pod.clone();
                CheckStep::Ask(CheckPhase::ReadingConf(name), run_in(pod, show_conf()))
            },
            None => CheckStep::Decided(CheckResult::Degraded("no Ready pod found for deployment")),
        },
        (CheckPhase::ListingPods, Reply::Pods(Err(_))) => CheckStep::Decided(
            CheckResult::Degraded("error finding ready pod"),
        ),
        (CheckPhase::ReadingConf(pod), Reply::Captured(capture)) => match K8s::exec_capture(
            capture,
        ) {
            Ok(conf) => if mechanism_drivers_line_includes(conf.as_str(), driver) {
                CheckStep::Ask(CheckPhase::Importing, run_in(pod, import(import_module)))
            } else {
                CheckStep::Decided(CheckResult::Absent)
            },
            Err(_) => CheckStep::Decided(CheckResult::Degraded("error reading ml2_conf.ini")),
        },
        (CheckPhase::Importing, Reply::Captured(capture)) => match K8s::exec_capture(capture) {
            Ok(_) => CheckStep::Decided(CheckResult::Present),
            Err(_) => CheckStep::Decided(
                CheckResult::Degraded("driver listed in mechanism_drivers but import failed"),
            ),
        },
        _ => CheckStep::OutOfTurn,
    }
}

} // verus!
