//! The metrics that a reconcile pass leaves behind.
use crate::config::unit_result;
use crate::error::{ErrorView, GuardianError};
use crate::metrics::{
    count_repair, counted, gauge_set, record_present, record_reconcile_run, record_repair_failure,
    Metrics,
};
use crate::reconcile::actions::{Note, NoteView};
use vstd::prelude::*;

verus! {

/// Whether the drivers are present, with what a note says of it.
pub open spec fn present_with(
    m: Map<u64, (Seq<Seq<char>>, i64)>,
    note: NoteView,
) -> Map<u64, (Seq<Seq<char>>, i64)> {
    match note {
        NoteView::Present { driver, present } => gauge_set(
            m,
            seq![driver],
            if present {
                1
            } else {
                0
            },
        ),
        _ => m,
    }
}

/// The repairs, with the one that a note tells of. A repair that is broken off is neither applied nor
/// skipped, so it does not count here.
pub open spec fn repairs_with(
    m: Map<u64, (Seq<Seq<char>>, u64)>,
    note: NoteView,
) -> Map<u64, (Seq<Seq<char>>, u64)> {
    match note {
        NoteView::Repaired(driver) => counted(m, seq![driver].push("applied"@)),
        NoteView::RepairDryRun { driver, .. } => counted(m, seq![driver].push("dry_run"@)),
        _ => m,
    }
}

/// The repairs that did not help, with the one that a note tells of.
pub open spec fn repair_failures_with(
    m: Map<u64, (Seq<Seq<char>>, u64)>,
    note: NoteView,
) -> Map<u64, (Seq<Seq<char>>, u64)> {
    match note {
        NoteView::NotConfirmed { driver, .. } => counted(m, seq![driver]),
        _ => m,
    }
}

/// What a note has to say for the metrics.
#[derive(Debug)]
pub enum Measure {
    /// Whether the driver is present.
    Present { driver: String, present: bool },
    /// One repair, with this outcome.
    Repair { driver: String, outcome: &'static str },
    /// One repair that was applied and did not help.
    RepairFailure { driver: String },
}

/// A [`Measure`] with its texts as sequences of characters.
pub enum MeasureView {
    Present { driver: Seq<char>, present: bool },
    Repair { driver: Seq<char>, outcome: Seq<char> },
    RepairFailure { driver: Seq<char> },
}

impl View for Measure {
    type V = MeasureView;

    open spec fn view(&self) -> MeasureView {
        match *self {
            Measure::Present { driver, present } => MeasureView::Present {
                driver: driver@,
                present,
            },
            Measure::Repair { driver, outcome } => MeasureView::Repair {
                driver: driver@,
                outcome: outcome@,
            },
            Measure::RepairFailure { driver } => MeasureView::RepairFailure { driver: driver@ },
        }
    }
}

/// What [`measure`] returns.
pub open spec fn measured(note: NoteView) -> Option<MeasureView> {
    match note {
        NoteView::Present { driver, present } => Some(MeasureView::Present { driver, present }),
        NoteView::Repaired(driver) => Some(MeasureView::Repair { driver, outcome: "applied"@ }),
        NoteView::RepairDryRun { driver, .. } => Some(
            MeasureView::Repair { driver, outcome: "dry_run"@ },
        ),
        NoteView::NotConfirmed { driver, .. } => Some(MeasureView::RepairFailure { driver }),
        _ => None,
    }
}

/// What a note has to say for the metrics. A repair that is broken off is neither applied nor
/// skipped, and the notes that are only for the log say nothing.
pub fn measure(note: &Note) -> (r: Option<Measure>)
    ensures
        match r {
            Some(m) => measured(note@) == Some(m@),
            None => measured(note@) is None,
        },
{
    match note {
        Note::Present { driver, present } => Some(
            Measure::Present { driver: driver.clone(), present: *present },
        ),
        Note::Repaired(driver) => Some(
            Measure::Repair { driver: driver.clone(), outcome: "applied" },
        ),
        Note::RepairDryRun { driver, .. } => Some(
            Measure::Repair { driver: driver.clone(), outcome: "dry_run" },
        ),
        Note::NotConfirmed { driver, .. } => Some(
            Measure::RepairFailure { driver: driver.clone() },
        ),
        _ => None,
    }
}

/// Records what a note tells of. Notes that are only for the log change nothing.
pub fn record_note(metrics: &mut Metrics, note: &Note)
    ensures
        final(metrics).present() == present_with(old(metrics).present(), note@),
        final(metrics).repairs() == repairs_with(old(metrics).repairs(), note@),
        final(metrics).repair_failures() == repair_failures_with(
            old(metrics).repair_failures(),
            note@,
        ),
        final(metrics).reconcile_runs() == old(metrics).reconcile_runs(),
{
    match measure(note) {
        Some(Measure::Present { driver, present }) => record_present(
            metrics,
            driver.as_str(),
            present,
        ),
        Some(Measure::Repair { driver, outcome }) => count_repair(
            metrics,
            driver.as_str(),
            outcome,
        ),
        Some(Measure::RepairFailure { driver }) => record_repair_failure(metrics, driver.as_str()),
        None => {},
    }
}

/// The word for the outcome of a pass.
pub open spec fn outcome_word(outcome: Result<(), ErrorView>) -> Seq<char> {
    match outcome {
        Ok(()) => "success"@,
        Err(_) => "error"@,
    }
}

/// The word for the outcome of a pass.
pub fn word_of(outcome: &Result<(), GuardianError>) -> (r: &'static str)
    ensures
        r@ == outcome_word(unit_result(*outcome)),
{
    match outcome {
        Ok(()) => "success",
        Err(_) => "error",
    }
}

/// The passes, with one more by its outcome.
pub open spec fn runs_with(
    m: Map<u64, (Seq<Seq<char>>, u64)>,
    outcome: Result<(), ErrorView>,
) -> Map<u64, (Seq<Seq<char>>, u64)> {
    counted(m, seq![outcome_word(outcome)])
}

/// Counts a pass by its outcome.
pub fn record_outcome(metrics: &mut Metrics, outcome: &Result<(), GuardianError>)
    ensures
        final(metrics).reconcile_runs() == runs_with(
            old(metrics).reconcile_runs(),
            unit_result(*outcome),
        ),
        final(metrics).reconcile_runs() == counted(
            old(metrics).reconcile_runs(),
            seq![outcome_word(unit_result(*outcome))],
        ),
        final(metrics).present() == old(metrics).present(),
        final(metrics).repairs() == old(metrics).repairs(),
        final(metrics).repair_failures() == old(metrics).repair_failures(),
{
    record_reconcile_run(metrics, word_of(outcome));
}

} // verus!
