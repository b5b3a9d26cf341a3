//! What a reconcile pass asks for, what it is answered, and what it reports.
use crate::error::{ErrorView, GuardianError};
use crate::k8s::{ApplyPatch, ApplyPatchView, Deployment, ExecCapture, ManagedField, Pod};
use crate::reconcile::check::{CheckResult, CheckView};
use crate::text::texts;
use crate::wheelcache::Portability;
use vstd::prelude::*;

verus! {

/// Something for the cluster to do or to tell.
#[derive(Debug)]
pub enum Action {
    /// Tell the present state of the Deployment of this name.
    GetDeployment(String),
    /// List the pods that this label selector matches.
    ListPods(String),
    /// Run a command in a container of a pod.
    Exec { pod: String, container: String, command: Vec<String> },
    /// Tell what the Secret holds under the key.
    ReadSecret { name: String, key: String },
    /// Tell what the ConfigMap holds under the key.
    ReadConfigMap { name: String, key: String },
    /// Apply this patch to a Secret.
    PatchSecret(ApplyPatch),
    /// Apply this patch to a ConfigMap.
    PatchConfigMap(ApplyPatch),
    /// Apply this patch to a Deployment.
    PatchDeployment(ApplyPatch),
    /// Refresh the wheels of the driver with this place in the list, with a Job that runs the image.
    RefreshWheels { driver: usize, image: String, timeout_secs: u64 },
    /// The pass is over.
    Finish(Result<(), GuardianError>),
}

/// An [`Action`] with its texts as sequences of characters.
pub enum ActionView {
    GetDeployment(Seq<char>),
    ListPods(Seq<char>),
    Exec { pod: Seq<char>, container: Seq<char>, command: Seq<Seq<char>> },
    ReadSecret { name: Seq<char>, key: Seq<char> },
    ReadConfigMap { name: Seq<char>, key: Seq<char> },
    PatchSecret(ApplyPatchView),
    PatchConfigMap(ApplyPatchView),
    PatchDeployment(ApplyPatchView),
    RefreshWheels { driver: int, image: Seq<char>, timeout_secs: u64 },
    Finish(Result<(), ErrorView>),
}

impl View for Action {
    type V = ActionView;

    open spec fn view(&self) -> ActionView {
        match *self {
            Action::GetDeployment(name) => ActionView::GetDeployment(name@),
            Action::ListPods(selector) => ActionView::ListPods(selector@),
            Action::Exec { pod, container, command } => ActionView::Exec {
                pod: pod@,
                container: container@,
                command: texts(command@),
            },
            Action::ReadSecret { name, key } => ActionView::ReadSecret { name: name@, key: key@ },
            Action::ReadConfigMap { name, key } => ActionView::ReadConfigMap {
                name: name@,
                key: key@,
            },
            Action::PatchSecret(p) => ActionView::PatchSecret(p@),
            Action::PatchConfigMap(p) => ActionView::PatchConfigMap(p@),
            Action::PatchDeployment(p) => ActionView::PatchDeployment(p@),
            Action::RefreshWheels { driver, image, timeout_secs } => ActionView::RefreshWheels {
                driver: driver as int,
                image: image@,
                timeout_secs,
            },
            Action::Finish(Ok(())) => ActionView::Finish(Ok(())),
            Action::Finish(Err(e)) => ActionView::Finish(Err(e@)),
        }
    }
}

impl ActionView {
    /// Whether the action changes anything in the cluster.
    pub open spec fn mutates(self) -> bool {
        match self {
            ActionView::PatchSecret(_) => true,
            ActionView::PatchConfigMap(_) => true,
            ActionView::PatchDeployment(_) => true,
            ActionView::RefreshWheels { .. } => true,
            _ => false,
        }
    }
}

/// What a Secret holds under a key, if it has the key, and which fields of the Secret were set by
/// whom.
#[derive(Debug)]
pub struct SecretKey {
    pub value: Option<Vec<u8>>,
    pub fields: Vec<ManagedField>,
}

/// The answer to an action.
#[derive(Debug)]
pub enum Reply {
    /// No answer: the pass begins.
    Begin,
    /// The Deployment.
    Deployment(Result<Deployment, GuardianError>),
    /// The pods.
    Pods(Result<Vec<Pod>, GuardianError>),
    /// What became of the command.
    Captured(ExecCapture),
    /// What the Secret holds under the key.
    Secret(Result<SecretKey, GuardianError>),
    /// What the ConfigMap holds under the key, if it has the key.
    ConfigMap(Result<Option<String>, GuardianError>),
    /// Whether the patch was applied.
    Patched(Result<(), GuardianError>),
    /// The names of the wheels, or why there are none.
    Wheels(Result<Vec<String>, GuardianError>),
}

/// Something to record or to log.
#[derive(Debug)]
pub enum Note {
    /// The driver is left alone after repeated failures.
    BackingOff(String),
    /// Whether the driver is present.
    Present { driver: String, present: bool },
    /// The driver is there and does not work, for this reason. A repair would not help.
    Degraded { driver: String, reason: String },
    /// In a dry run: this is what a repair would do, or why that cannot be told.
    RepairDryRun { driver: String, description: Result<String, GuardianError> },
    /// The wheels of the driver are refreshed, and this is what they are.
    Wheels { driver: String, portability: Result<Portability, GuardianError> },
    /// The wheels of the driver belong to another image, and could not be refreshed.
    WheelsOutdated { driver: String, error: GuardianError },
    /// The repair was applied.
    Repaired(String),
    /// The repair was broken off.
    RepairBrokenOff { driver: String, error: GuardianError },
    /// The repair has helped.
    Confirmed(String),
    /// The repair was applied and has not helped: this is what the check says now.
    NotConfirmed { driver: String, check: CheckResult },
    /// What was installed earlier is taken out again.
    Reverted,
}

/// A [`Note`] with its texts as sequences of characters.
pub enum NoteView {
    BackingOff(Seq<char>),
    Present { driver: Seq<char>, present: bool },
    Degraded { driver: Seq<char>, reason: Seq<char> },
    RepairDryRun { driver: Seq<char>, description: Result<Seq<char>, ErrorView> },
    Wheels { driver: Seq<char>, portability: Result<Portability, ErrorView> },
    WheelsOutdated { driver: Seq<char>, error: ErrorView },
    Repaired(Seq<char>),
    RepairBrokenOff { driver: Seq<char>, error: ErrorView },
    Confirmed(Seq<char>),
    NotConfirmed { driver: Seq<char>, check: CheckView },
    Reverted,
}

impl View for Note {
    type V = NoteView;

    open spec fn view(&self) -> NoteView {
        match *self {
            Note::BackingOff(driver) => NoteView::BackingOff(driver@),
            Note::Present { driver, present } => NoteView::Present { driver: driver@, present },
            Note::Degraded { driver, reason } => NoteView::Degraded {
                driver: driver@,
                reason: reason@,
            },
            Note::RepairDryRun { driver, description } => NoteView::RepairDryRun {
                driver: driver@,
                description: match description {
                    Ok(s) => Ok(s@),
                    Err(e) => Err(e@),
                },
            },
            Note::Wheels { driver, portability } => NoteView::Wheels {
                driver: driver@,
                portability: match portability {
                    Ok(p) => Ok(p),
                    Err(e) => Err(e@),
                },
            },
            Note::WheelsOutdated { driver, error } => NoteView::WheelsOutdated {
                driver: driver@,
                error: error@,
            },
            Note::Repaired(driver) => NoteView::Repaired(driver@),
            Note::RepairBrokenOff { driver, error } => NoteView::RepairBrokenOff {
                driver: driver@,
                error: error@,
            },
            Note::Confirmed(driver) => NoteView::Confirmed(driver@),
            Note::NotConfirmed { driver, check } => NoteView::NotConfirmed {
                driver: driver@,
                check: check@,
            },
            Note::Reverted => NoteView::Reverted,
        }
    }
}

/// The views of a list of notes.
pub open spec fn notes_view(v: Seq<Note>) -> Seq<NoteView> {
    Seq::new(v.len(), |i: int| v[i]@)
}

} // verus!
