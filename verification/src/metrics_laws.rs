//! What holds of the metrics and of how they are shown.
use crate::hashes::{fnv1a, label_hash};
use crate::metrics::{
    driver_present_shape, escaped, label_pairs, metrics_answer, reconcile_runs_shape,
    repair_failures_shape, repairs_after, repairs_after_dry_run, repairs_shape, sample_line, tells,
    Metrics,
};
use crate::numbers::decimal;
use crate::reconcile::record_laws::counts_one_more;
use crate::text::{contains, join};
use vstd::prelude::*;
use vstd::utf8::encode_utf8;

verus! {

/// A request for the metrics is answered with the text if there is one, and else with an error of the
/// server and nothing in it.
pub proof fn law_how_the_metrics_are_served(encoded: Result<Vec<u8>, String>)
    ensures
        metrics_answer(encoded).0 == 200 <==> encoded is Ok,
        encoded matches Ok(body) ==> metrics_answer(encoded).2 == body@ && metrics_answer(
            encoded,
        ).1 == "text/plain; version=0.0.4"@,
        encoded is Err ==> metrics_answer(encoded).0 == 500 && metrics_answer(encoded).2.len() == 0
            && metrics_answer(encoded).1 == "text/plain"@,
{
}

/// A repair counts once, under its driver and the word `applied`, `skipped` or `dry_run`.
pub proof fn law_a_repair_is_applied_skipped_or_dry(
    m: Map<u64, (Seq<Seq<char>>, u64)>,
    driver: Seq<char>,
)
    ensures
        counts_one_more(m, repairs_after(m, driver, true), seq![driver].push("applied"@)),
        counts_one_more(m, repairs_after(m, driver, false), seq![driver].push("skipped"@)),
        counts_one_more(m, repairs_after_dry_run(m, driver), seq![driver].push("dry_run"@)),
{
}

/// The four families have the names, help texts and labels that dashboards know them by.
pub proof fn law_the_names_of_the_metrics()
    ensures
        driver_present_shape().0 == "ml2_driver_present"@,
        driver_present_shape().1
            == "1 if the driver's layered present-check passes, 0 otherwise, by driver"@,
        driver_present_shape().2 == seq!["driver"@],
        repairs_shape().0 == "ml2_driver_repairs_total"@,
        repairs_shape().1
            == "Repair attempts applied, by driver and outcome (applied/skipped/dry_run)"@,
        repairs_shape().2 == seq!["driver"@].push("outcome"@),
        repair_failures_shape().0 == "ml2_driver_repair_failures_total"@,
        repair_failures_shape().1
            == "Repairs applied but that failed the post-repair present-check, by driver"@,
        repair_failures_shape().2 == seq!["driver"@],
        reconcile_runs_shape().0 == "ml2_guardian_reconcile_runs_total"@,
        reconcile_runs_shape().1 == "Reconcile loop iterations, by outcome"@,
        reconcile_runs_shape().2 == seq!["outcome"@],
{
}

/// How a member of a family is shown: one with one label by its name, the label and its value, and
/// the number; one with two labels with both of them, in their order.
pub proof fn law_how_a_member_is_shown(
    name: Seq<char>,
    help: Seq<char>,
    label: Seq<char>,
    label2: Seq<char>,
    value: Seq<char>,
    value2: Seq<char>,
    n: nat,
)
    ensures
        sample_line((name, help, seq![label]), seq![value], n as int) == name + "{"@ + (label
            + "=\""@ + escaped(value) + "\""@) + "} "@ + decimal(n) + "\n"@,
        sample_line(
            (name, help, seq![label].push(label2)),
            seq![value].push(value2),
            n as int,
        ) == name + "{"@ + ((label + "=\""@ + escaped(value) + "\""@) + ","@ + (label2 + "=\""@
            + escaped(value2) + "\""@)) + "} "@ + decimal(n) + "\n"@,
{
    let one = label_pairs(seq![label], seq![value]);
    let two = label_pairs(seq![label].push(label2), seq![value].push(value2));
    let first = label + "=\""@ + escaped(value) + "\""@;
    let second = label2 + "=\""@ + escaped(value2) + "\""@;
    assert(one =~= seq![first]);
    assert(two =~= seq![first].push(second));
    assert(two.drop_last() =~= seq![first]);
    reveal_with_fuel(join, 3);
}

/// A label value is shown character by character: a backslash in front of a backslash and of a quote,
/// a backslash and an `n` for a line feed, and every other character as it is.
pub proof fn law_how_a_label_value_is_shown(s: Seq<char>, c: char)
    ensures
        escaped(Seq::<char>::empty()).len() == 0,
        escaped(s.push(c)) == escaped(s) + (if c == '\\' || c == '"' {
            seq!['\\'].push(c)
        } else if c == '\n' {
            seq!['\\'].push('n')
        } else {
            seq![c]
        }),
{
    reveal_strlit("\\\\");
    reveal_strlit("\\\"");
    reveal_strlit("\\n");
    assert(s.push(c).drop_last() =~= s);
    assert("\\\\"@ =~= seq!['\\'].push('\\'));
    assert("\\\""@ =~= seq!['\\'].push('"'));
    assert("\\n"@ =~= seq!['\\'].push('n'));
}

/// The hash by which members are told apart is that of the label values in UTF-8, one behind the
/// other, with nothing in between.
pub proof fn law_what_is_hashed(a: Seq<char>, b: Seq<char>)
    ensures
        label_hash(seq![a]) == fnv1a(encode_utf8(a)),
        label_hash(seq![a].push(b)) == fnv1a(encode_utf8(a + b)),
{
    reveal_with_fuel(join, 3);
    let none = Seq::<char>::empty();
    assert(join(seq![a], none) =~= a);
    assert(seq![a].push(b).drop_last() =~= seq![a]);
    assert(join(seq![a].push(b), none) =~= a + b);
}

/// The text shows every record of every family, as long as its number is shown as it is.
pub proof fn law_every_record_is_shown(text: Seq<char>, metrics: Metrics, h: u64)
    requires
        tells(text, metrics),
    ensures
        metrics.present().dom().contains(h) && 0 <= metrics.present()[h].1 <= 1 ==> contains(
            text,
            sample_line(
                driver_present_shape(),
                metrics.present()[h].0,
                metrics.present()[h].1 as int,
            ),
        ),
        metrics.repairs().dom().contains(h) && metrics.repairs()[h].1 <= 0x20000000000000
            ==> contains(
            text,
            sample_line(repairs_shape(), metrics.repairs()[h].0, metrics.repairs()[h].1 as int),
        ),
        metrics.repair_failures().dom().contains(h) && metrics.repair_failures()[h].1
            <= 0x20000000000000 ==> contains(
            text,
            sample_line(
                repair_failures_shape(),
                metrics.repair_failures()[h].0,
                metrics.repair_failures()[h].1 as int,
            ),
        ),
        metrics.reconcile_runs().dom().contains(h) && metrics.reconcile_runs()[h].1
            <= 0x20000000000000 ==> contains(
            text,
            sample_line(
                reconcile_runs_shape(),
                metrics.reconcile_runs()[h].0,
                metrics.reconcile_runs()[h].1 as int,
            ),
        ),
{
}

} // verus!
