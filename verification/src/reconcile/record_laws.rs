//! What every note and every outcome leaves behind in the metrics.
use crate::error::ErrorView;
use crate::hashes::label_hash;
use crate::reconcile::actions::NoteView;
use crate::reconcile::check::CheckView;
use crate::reconcile::record::{
    measured, outcome_word, present_with, repair_failures_with, repairs_with, runs_with,
    MeasureView,
};
use vstd::prelude::*;

verus! {

/// How often the label values were counted.
pub open spec fn times_counted(m: Map<u64, (Seq<Seq<char>>, u64)>, values: Seq<Seq<char>>) -> int {
    if m.dom().contains(label_hash(values)) {
        m[label_hash(values)].1 as int
    } else {
        0
    }
}

/// Whether the only difference is that the label values were counted once more; a counter that is
/// full begins anew.
pub open spec fn counts_one_more(
    before: Map<u64, (Seq<Seq<char>>, u64)>,
    after: Map<u64, (Seq<Seq<char>>, u64)>,
    values: Seq<Seq<char>>,
) -> bool {
    &&& times_counted(after, values) == if times_counted(before, values) == u64::MAX {
        0
    } else {
        times_counted(before, values) + 1
    }
    &&& after.dom().contains(label_hash(values))
    &&& !before.dom().contains(label_hash(values)) ==> after[label_hash(values)].0 == values
    &&& before.dom().contains(label_hash(values)) ==> after[label_hash(values)].0
        == before[label_hash(values)].0
    &&& forall|h: u64|
        h != label_hash(values) ==> (#[trigger] after.dom().contains(h) <==> before.dom().contains(
            h,
        ))
    &&& forall|h: u64|
        h != label_hash(values) && before.dom().contains(h) ==> #[trigger] after[h] == before[h]
}

/// Whether the only difference is that the gauge of a driver shows this number.
pub open spec fn shows_now(
    before: Map<u64, (Seq<Seq<char>>, i64)>,
    after: Map<u64, (Seq<Seq<char>>, i64)>,
    driver: Seq<char>,
    number: int,
) -> bool {
    let own = label_hash(seq![driver]);
    &&& after.dom().contains(own) && after[own].1 == number
    &&& !before.dom().contains(own) ==> after[own].0 == seq![driver]
    &&& forall|h: u64| h != own ==> (#[trigger] after.dom().contains(h) <==> before.dom().contains(h))
    &&& forall|h: u64| h != own && before.dom().contains(h) ==> #[trigger] after[h] == before[h]
}

/// A repair that was applied and not confirmed counts once among the failures of its driver, whatever
/// the check behind it found, and nowhere else.
pub proof fn law_every_unconfirmed_repair_counts(
    present: Map<u64, (Seq<Seq<char>>, i64)>,
    repairs: Map<u64, (Seq<Seq<char>>, u64)>,
    failures: Map<u64, (Seq<Seq<char>>, u64)>,
    driver: Seq<char>,
    check: CheckView,
)
    ensures
        ({
            let note = NoteView::NotConfirmed { driver, check };
            &&& counts_one_more(failures, repair_failures_with(failures, note), seq![driver])
            &&& repairs_with(repairs, note) == repairs
            &&& present_with(present, note) == present
            &&& measured(note) == Some(MeasureView::RepairFailure { driver })
        }),
{
}

/// A repair counts once under its driver and the word for what became of it: `applied` if all of it
/// was done, `dry_run` if it was only described, whatever the description came to.
pub proof fn law_every_repair_counts_under_its_outcome(
    present: Map<u64, (Seq<Seq<char>>, i64)>,
    repairs: Map<u64, (Seq<Seq<char>>, u64)>,
    failures: Map<u64, (Seq<Seq<char>>, u64)>,
    driver: Seq<char>,
    description: Result<Seq<char>, ErrorView>,
)
    ensures
        ({
            let note = NoteView::Repaired(driver);
            let dry = NoteView::RepairDryRun { driver, description };
            &&& counts_one_more(
                repairs,
                repairs_with(repairs, note),
                seq![driver].push("applied"@),
            )
            &&& counts_one_more(repairs, repairs_with(repairs, dry), seq![driver].push("dry_run"@))
            &&& repair_failures_with(failures, note) == failures
            &&& repair_failures_with(failures, dry) == failures
            &&& present_with(present, note) == present
            &&& present_with(present, dry) == present
            &&& measured(note) == Some(MeasureView::Repair { driver, outcome: "applied"@ })
            &&& measured(dry) == Some(MeasureView::Repair { driver, outcome: "dry_run"@ })
        }),
{
}

/// The gauge of a driver shows one once it is told to be present, and zero once it is told not to be;
/// no counter moves.
pub proof fn law_the_gauge_shows_what_was_told(
    before: Map<u64, (Seq<Seq<char>>, i64)>,
    repairs: Map<u64, (Seq<Seq<char>>, u64)>,
    failures: Map<u64, (Seq<Seq<char>>, u64)>,
    driver: Seq<char>,
    present: bool,
)
    ensures
        ({
            let note = NoteView::Present { driver, present };
            &&& shows_now(
                before,
                present_with(before, note),
                driver,
                if present {
                    1
                } else {
                    0
                },
            )
            &&& repairs_with(repairs, note) == repairs
            &&& repair_failures_with(failures, note) == failures
            &&& measured(note) == Some(MeasureView::Present { driver, present })
        }),
{
}

/// No other note moves a gauge or a counter.
pub proof fn law_other_notes_are_only_for_the_log(
    present: Map<u64, (Seq<Seq<char>>, i64)>,
    repairs: Map<u64, (Seq<Seq<char>>, u64)>,
    failures: Map<u64, (Seq<Seq<char>>, u64)>,
    note: NoteView,
)
    requires
        note !is Present,
        note !is Repaired,
        note !is RepairDryRun,
        note !is NotConfirmed,
    ensures
        present_with(present, note) == present,
        repairs_with(repairs, note) == repairs,
        repair_failures_with(failures, note) == failures,
        measured(note) is None,
{
}

/// A pass counts once under the word for its outcome: `success`, or `error` whatever the error is.
pub proof fn law_every_pass_counts_under_its_outcome(
    runs: Map<u64, (Seq<Seq<char>>, u64)>,
    outcome: Result<(), ErrorView>,
)
    ensures
        counts_one_more(
            runs,
            runs_with(runs, outcome),
            seq![
                if outcome is Ok {
                    "success"@
                } else {
                    "error"@
                },
            ],
        ),
        outcome_word(outcome) == if outcome is Ok {
            "success"@
        } else {
            "error"@
        },
{
}

} // verus!
