//! The metrics of the guardian, for Prometheus: whether each driver is present, the repairs, the
//! repairs that did not help, and the reconcile passes. All but the last have the driver as a label.
use crate::hashes::{label_hash, lemma_name_hashes, name_hash};
use crate::numbers::decimal;
use crate::text::{contains, join, texts};
use crate::text_lemmas::free_of;
use vstd::prelude::*;
use vstd::utf8::{
    decode_utf8, encode_utf8, encode_utf8_decode_utf8, encode_utf8_valid_utf8, valid_utf8,
};

verus! {

/// A registry of metrics.
#[verifier::external_type_specification]
#[verifier::external_body]
pub struct ExRegistry(prometheus::Registry);

/// A family of metrics as it was when it was gathered.
#[verifier::external_type_specification]
#[verifier::external_body]
pub struct ExMetricFamily(prometheus::proto::MetricFamily);

/// A family of gauges: one gauge for each combination of label values.
#[verifier::external_body]
pub struct GaugeFamily {
    inner: prometheus::IntGaugeVec,
}

/// A family of counters: one counter for each combination of label values.
#[verifier::external_body]
pub struct CounterFamily {
    inner: prometheus::IntCounterVec,
}

/// What a family of gauges holds. Under the hash of the label values stand the label values that
/// were first used with this hash, and the value of the gauge.
pub uninterp spec fn gauge_contents(g: GaugeFamily) -> Map<u64, (Seq<Seq<char>>, i64)>;

/// What a family of counters holds. Under the hash of the label values stand the label values that
/// were first used with this hash, and the value of the counter.
pub uninterp spec fn counter_contents(c: CounterFamily) -> Map<u64, (Seq<Seq<char>>, u64)>;

/// What a family of gauges was made with: name, help text and label names.
pub uninterp spec fn gauge_shape(g: GaugeFamily) -> (Seq<char>, Seq<char>, Seq<Seq<char>>);

/// What a family of counters was made with: name, help text and label names.
pub uninterp spec fn counter_shape(c: CounterFamily) -> (Seq<char>, Seq<char>, Seq<Seq<char>>);

/// Which family of gauges it is. A family stays the same when its gauges change, and the registry
/// that it is registered with holds this very family.
pub uninterp spec fn gauge_id(g: GaugeFamily) -> nat;

/// Which family of counters it is. A family stays the same when its counters change, and the registry
/// that it is registered with holds this very family.
pub uninterp spec fn counter_id(c: CounterFamily) -> nat;

/// The families in a registry. Under the hash of its name stands whether it is a family of gauges,
/// and which one it is.
pub uninterp spec fn registered(r: prometheus::Registry) -> Map<u64, (bool, nat)>;

/// Whether a registry was made without a prefix for the names and without labels of its own, and
/// nothing was ever taken out of it.
pub uninterp spec fn is_plain(r: prometheus::Registry) -> bool;

/// The text in which the text format shows gathered families; nothing if it cannot show them.
pub uninterp spec fn families_text(v: Seq<prometheus::proto::MetricFamily>) -> Option<Seq<char>>;

/// The text exposition of one family of gauges and three families of counters, each by what it was
/// made with and what it holds.
pub uninterp spec fn exposition_text(
    gauges: ((Seq<char>, Seq<char>, Seq<Seq<char>>), Map<u64, (Seq<Seq<char>>, i64)>),
    counters: Seq<((Seq<char>, Seq<char>, Seq<Seq<char>>), Map<u64, (Seq<Seq<char>>, u64)>)>,
) -> Seq<char>;

/// A label value as the text format shows it: backslashes, quotes and line feeds are escaped.
pub open spec fn escaped(s: Seq<char>) -> Seq<char>
    decreases s.len(),
{
    if s.len() == 0 {
        s
    } else {
        escaped(s.drop_last()) + (if s.last() == '\\' {
            "\\\\"@
        } else if s.last() == '"' {
            "\\\""@
        } else if s.last() == '\n' {
            "\\n"@
        } else {
            seq![s.last()]
        })
    }
}

/// The labels of a member, each with its value.
pub open spec fn label_pairs(labels: Seq<Seq<char>>, values: Seq<Seq<char>>) -> Seq<Seq<char>> {
    Seq::new(labels.len(), |i: int| labels[i] + "=\""@ + escaped(values[i]) + "\""@)
}

/// A number as the text format shows it.
pub open spec fn number_text(n: int) -> Seq<char> {
    if n < 0 {
        "-"@ + decimal((-n) as nat)
    } else {
        decimal(n as nat)
    }
}

/// The line that shows a member of a family with this name and these labels.
pub open spec fn sample_line(
    shape: (Seq<char>, Seq<char>, Seq<Seq<char>>),
    values: Seq<Seq<char>>,
    number: int,
) -> Seq<char> {
    shape.0 + "{"@ + join(label_pairs(shape.2, values), ","@) + "} "@ + number_text(number) + "\n"@
}

/// The numbers up to this one are shown as they are; a larger one may be rounded.
pub const MAX_EXACT: u64 = 9_007_199_254_740_992;

/// Whether a text shows every gauge whose number is shown as it is.
pub open spec fn shows_gauges(
    text: Seq<char>,
    shape: (Seq<char>, Seq<char>, Seq<Seq<char>>),
    m: Map<u64, (Seq<Seq<char>>, i64)>,
) -> bool {
    forall|h: u64| #[trigger]
        m.dom().contains(h) && -MAX_EXACT <= m[h].1 <= MAX_EXACT ==> contains(
            text,
            sample_line(shape, m[h].0, m[h].1 as int),
        )
}

/// Whether a text shows every counter whose number is shown as it is.
pub open spec fn shows_counters(
    text: Seq<char>,
    shape: (Seq<char>, Seq<char>, Seq<Seq<char>>),
    m: Map<u64, (Seq<Seq<char>>, u64)>,
) -> bool {
    forall|h: u64| #[trigger]
        m.dom().contains(h) && m[h].1 <= MAX_EXACT ==> contains(
            text,
            sample_line(shape, m[h].0, m[h].1 as int),
        )
}

/// A registry without families.
pub open spec fn no_families() -> Map<u64, (bool, nat)> {
    Map::empty()
}

/// A family of gauges without members.
pub open spec fn no_gauges() -> Map<u64, (Seq<Seq<char>>, i64)> {
    Map::empty()
}

/// A family of counters without members.
pub open spec fn no_counters() -> Map<u64, (Seq<Seq<char>>, u64)> {
    Map::empty()
}

/// Whether `c` can begin a label name.
pub open spec fn is_name_start(c: char) -> bool {
    'a' <= c <= 'z' || 'A' <= c <= 'Z' || c == '_'
}

/// Whether `s` can be the name of a label: letters, digits and underscores, without a digit in front.
pub open spec fn is_label_name(s: Seq<char>) -> bool
    decreases s.len(),
{
    if s.len() <= 1 {
        s.len() == 1 && is_name_start(s[0])
    } else {
        (is_name_start(s.last()) || '0' <= s.last() <= '9') && is_label_name(s.drop_last())
    }
}

/// Whether `s` can be the name of a metric: as the name of a label, with colons allowed.
pub open spec fn is_metric_name(s: Seq<char>) -> bool
    decreases s.len(),
{
    if s.len() <= 1 {
        s.len() == 1 && (is_name_start(s[0]) || s[0] == ':')
    } else {
        (is_name_start(s.last()) || '0' <= s.last() <= '9' || s.last() == ':') && is_metric_name(
            s.drop_last(),
        )
    }
}

/// Whether a family can be made with this name, help text and these label names.
pub open spec fn is_shape(name: Seq<char>, help: Seq<char>, labels: Seq<Seq<char>>) -> bool {
    &&& help.len() > 0
    &&& is_metric_name(name)
    &&& forall|i: int| 0 <= i < labels.len() ==> is_label_name(#[trigger] labels[i])
    &&& labels.no_duplicates()
}

/// `prometheus::IntGaugeVec::new` with `Opts::new`: a family without members. It is made if the
/// names are valid, the label names are distinct and the help text is not empty.
#[verifier::external_body]
fn new_gauges(name: &str, help: &str, labels: &Vec<String>) -> (r: Result<GaugeFamily, String>)
    ensures
        r is Ok <==> is_shape(name@, help@, texts(labels@)),
        r matches Ok(g) ==> gauge_shape(g) == (name@, help@, texts(labels@)),
        r matches Ok(g) ==> gauge_contents(g) == no_gauges(),
{
    let labels: Vec<&str> = labels.iter().map(|l| l.as_str()).collect();
    prometheus::IntGaugeVec::new(prometheus::Opts::new(name, help), &labels).map(
        |inner| GaugeFamily { inner },
    ).map_err(|e| e.to_string())
}

/// `prometheus::IntCounterVec::new` with `Opts::new`: a family without members. It is made if the
/// names are valid, the label names are distinct and the help text is not empty.
#[verifier::external_body]
fn new_counters(name: &str, help: &str, labels: &Vec<String>) -> (r: Result<CounterFamily, String>)
    ensures
        r is Ok <==> is_shape(name@, help@, texts(labels@)),
        r matches Ok(c) ==> counter_shape(c) == (name@, help@, texts(labels@)),
        r matches Ok(c) ==> counter_contents(c) == no_counters(),
{
    let labels: Vec<&str> = labels.iter().map(|l| l.as_str()).collect();
    prometheus::IntCounterVec::new(prometheus::Opts::new(name, help), &labels).map(
        |inner| CounterFamily { inner },
    ).map_err(|e| e.to_string())
}

/// The label values under the hash `h`: those that were first used with it, else `values`.
pub open spec fn labels_in<T>(m: Map<u64, (Seq<Seq<char>>, T)>, h: u64, values: Seq<Seq<char>>) -> Seq<
    Seq<char>,
> {
    if m.dom().contains(h) {
        m[h].0
    } else {
        values
    }
}

/// A family with the gauge for `values`, whose hash is `h`, set to `value`.
pub open spec fn with_gauge(
    m: Map<u64, (Seq<Seq<char>>, i64)>,
    h: u64,
    values: Seq<Seq<char>>,
    value: i64,
) -> Map<u64, (Seq<Seq<char>>, i64)> {
    m.insert(h, (labels_in(m, h, values), value))
}

/// The value of the counter under the hash `h`. A counter starts at zero.
pub open spec fn count_of(m: Map<u64, (Seq<Seq<char>>, u64)>, h: u64) -> u64 {
    if m.dom().contains(h) {
        m[h].1
    } else {
        0
    }
}

/// A family with the counter for `values`, whose hash is `h`, one higher. A counter that can count no
/// further goes back to zero.
pub open spec fn with_count(
    m: Map<u64, (Seq<Seq<char>>, u64)>,
    h: u64,
    values: Seq<Seq<char>>,
) -> Map<u64, (Seq<Seq<char>>, u64)> {
    m.insert(h, (labels_in(m, h, values), one_more(count_of(m, h))))
}

/// The next number, or zero behind the last.
pub open spec fn one_more(n: u64) -> u64 {
    if n == u64::MAX {
        0
    } else {
        (n + 1) as u64
    }
}

/// A family with the gauge for `values` set to `value`.
pub open spec fn gauge_set(
    m: Map<u64, (Seq<Seq<char>>, i64)>,
    values: Seq<Seq<char>>,
    value: i64,
) -> Map<u64, (Seq<Seq<char>>, i64)> {
    with_gauge(m, label_hash(values), values, value)
}

/// A family with the counter for `values` one higher.
pub open spec fn counted(m: Map<u64, (Seq<Seq<char>>, u64)>, values: Seq<Seq<char>>) -> Map<
    u64,
    (Seq<Seq<char>>, u64),
> {
    with_count(m, label_hash(values), values)
}

/// `prometheus::IntGaugeVec::with_label_values`, with `IntGauge::set` on the gauge that it finds or
/// makes: only this gauge changes. The family finds a gauge by the hash of the label values, and a
/// gauge keeps the label values that it was made with. There must be as many values as label names;
/// then it does not panic.
#[verifier::external_body]
fn set_gauge(g: &mut GaugeFamily, values: &Vec<String>, value: i64)
    requires
        values@.len() == gauge_shape(*old(g)).2.len(),
    ensures
        gauge_shape(*final(g)) == gauge_shape(*old(g)),
        gauge_id(*final(g)) == gauge_id(*old(g)),
        gauge_contents(*final(g)) == with_gauge(
            gauge_contents(*old(g)),
            label_hash(texts(values@)),
            texts(values@),
            value,
        ),
    no_unwind
{
    g.inner.with_label_values(values.as_slice()).set(value);
}

/// `prometheus::IntCounterVec::with_label_values`, with `IntCounter::inc` on the counter that it
/// finds or makes: only this counter changes. The family finds a counter by the hash of the label
/// values, and a counter keeps the label values that it was made with. There must be as many values
/// as label names; then it does not panic.
#[verifier::external_body]
fn count_up(c: &mut CounterFamily, values: &Vec<String>)
    requires
        values@.len() == counter_shape(*old(c)).2.len(),
    ensures
        counter_shape(*final(c)) == counter_shape(*old(c)),
        counter_id(*final(c)) == counter_id(*old(c)),
        counter_contents(*final(c)) == with_count(
            counter_contents(*old(c)),
            label_hash(texts(values@)),
            texts(values@),
        ),
    no_unwind
{
    c.inner.with_label_values(values.as_slice()).inc();
}

/// `prometheus::Registry::new`: a registry without families, and with neither a prefix nor labels.
#[verifier::external_body]
fn new_registry() -> (r: prometheus::Registry)
    ensures
        registered(r) == no_families(),
        is_plain(r),
{
    prometheus::Registry::new()
}

/// `prometheus::Registry::register` for a family of gauges. It is refused if a family whose name has
/// the same hash is there. The registry shares the family: what is recorded later is in it too.
#[verifier::external_body]
fn register_gauges(r: &mut prometheus::Registry, g: &GaugeFamily) -> (done: Result<(), String>)
    requires
        is_plain(*old(r)),
    ensures
        done is Ok <==> !registered(*old(r)).dom().contains(name_hash(gauge_shape(*g).0)),
        done is Ok ==> registered(*final(r)) == registered(*old(r)).insert(
            name_hash(gauge_shape(*g).0),
            (true, gauge_id(*g)),
        ),
        is_plain(*final(r)),
        done is Err ==> registered(*final(r)) == registered(*old(r)),
{
    r.register(Box::new(g.inner.clone())).map_err(|e| e.to_string())
}

/// `prometheus::Registry::register` for a family of counters. It is refused if a family whose name
/// has the same hash is there. The registry shares the family: what is recorded later is in it too.
#[verifier::external_body]
fn register_counters(r: &mut prometheus::Registry, c: &CounterFamily) -> (done: Result<(), String>)
    requires
        is_plain(*old(r)),
    ensures
        done is Ok <==> !registered(*old(r)).dom().contains(name_hash(counter_shape(*c).0)),
        done is Ok ==> registered(*final(r)) == registered(*old(r)).insert(
            name_hash(counter_shape(*c).0),
            (false, counter_id(*c)),
        ),
        is_plain(*final(r)),
        done is Err ==> registered(*final(r)) == registered(*old(r)),
{
    r.register(Box::new(c.inner.clone())).map_err(|e| e.to_string())
}

/// The metric that says whether a driver is present.
pub const DRIVER_PRESENT: &'static str = "ml2_driver_present";

/// The metric that counts the repairs.
pub const REPAIRS_TOTAL: &'static str = "ml2_driver_repairs_total";

/// The metric that counts the repairs that did not help.
pub const REPAIR_FAILURES_TOTAL: &'static str = "ml2_driver_repair_failures_total";

/// The metric that counts the reconcile passes.
pub const RECONCILE_RUNS_TOTAL: &'static str = "ml2_guardian_reconcile_runs_total";

/// The metrics of the guardian. The registry holds the four families, and no other.
pub struct Metrics {
    registry: prometheus::Registry,
    driver_present: GaugeFamily,
    repairs_total: CounterFamily,
    repair_failures_total: CounterFamily,
    reconcile_runs_total: CounterFamily,
}

/// One label: the driver.
pub open spec fn driver_label() -> Seq<Seq<char>> {
    seq!["driver"@]
}

/// Two labels: the driver and the outcome.
pub open spec fn driver_and_outcome_labels() -> Seq<Seq<char>> {
    seq!["driver"@].push("outcome"@)
}

/// One label: the outcome.
pub open spec fn outcome_label() -> Seq<Seq<char>> {
    seq!["outcome"@]
}

/// What the family that says whether the drivers are present was made with.
pub open spec fn driver_present_shape() -> (Seq<char>, Seq<char>, Seq<Seq<char>>) {
    (
        DRIVER_PRESENT@,
        "1 if the driver's layered present-check passes, 0 otherwise, by driver"@,
        driver_label(),
    )
}

/// What the family that counts the repairs was made with.
pub open spec fn repairs_shape() -> (Seq<char>, Seq<char>, Seq<Seq<char>>) {
    (
        REPAIRS_TOTAL@,
        "Repair attempts applied, by driver and outcome (applied/skipped/dry_run)"@,
        driver_and_outcome_labels(),
    )
}

/// What the family that counts the repairs that did not help was made with.
pub open spec fn repair_failures_shape() -> (Seq<char>, Seq<char>, Seq<Seq<char>>) {
    (
        REPAIR_FAILURES_TOTAL@,
        "Repairs applied but that failed the post-repair present-check, by driver"@,
        driver_label(),
    )
}

/// What the family that counts the reconcile passes was made with.
pub open spec fn reconcile_runs_shape() -> (Seq<char>, Seq<char>, Seq<Seq<char>>) {
    (RECONCILE_RUNS_TOTAL@, "Reconcile loop iterations, by outcome"@, outcome_label())
}

impl Metrics {
    /// Whether each driver is present, by driver.
    pub closed spec fn present(self) -> Map<u64, (Seq<Seq<char>>, i64)> {
        gauge_contents(self.driver_present)
    }

    /// The repairs, by driver and outcome.
    pub closed spec fn repairs(self) -> Map<u64, (Seq<Seq<char>>, u64)> {
        counter_contents(self.repairs_total)
    }

    /// The repairs that did not help, by driver.
    pub closed spec fn repair_failures(self) -> Map<u64, (Seq<Seq<char>>, u64)> {
        counter_contents(self.repair_failures_total)
    }

    /// The reconcile passes, by outcome.
    pub closed spec fn reconcile_runs(self) -> Map<u64, (Seq<Seq<char>>, u64)> {
        counter_contents(self.reconcile_runs_total)
    }

    /// The families of gauges: what they were made with and what they hold.
    spec fn gauge_families(self) -> (
        (Seq<char>, Seq<char>, Seq<Seq<char>>),
        Map<u64, (Seq<Seq<char>>, i64)>,
    ) {
        (gauge_shape(self.driver_present), self.present())
    }

    /// The families of counters: what they were made with and what they hold.
    spec fn counter_families(self) -> Seq<
        ((Seq<char>, Seq<char>, Seq<Seq<char>>), Map<u64, (Seq<Seq<char>>, u64)>),
    > {
        Seq::empty().push((counter_shape(self.repairs_total), self.repairs())).push(
            (counter_shape(self.repair_failures_total), self.repair_failures()),
        ).push((counter_shape(self.reconcile_runs_total), self.reconcile_runs()))
    }

    /// The four families, as the registry has to hold them.
    spec fn own_families(self) -> Map<u64, (bool, nat)> {
        no_families().insert(
            name_hash(DRIVER_PRESENT@),
            (true, gauge_id(self.driver_present)),
        ).insert(name_hash(REPAIRS_TOTAL@), (false, counter_id(self.repairs_total))).insert(
            name_hash(REPAIR_FAILURES_TOTAL@),
            (false, counter_id(self.repair_failures_total)),
        ).insert(name_hash(RECONCILE_RUNS_TOTAL@), (false, counter_id(self.reconcile_runs_total)))
    }

    /// The families are the four that they have to be, and the registry holds these four and no
    /// other.
    #[verifier::type_invariant]
    spec fn wf(self) -> bool {
        &&& registered(self.registry) == self.own_families()
        &&& is_plain(self.registry)
        &&& gauge_shape(self.driver_present) == driver_present_shape()
        &&& counter_shape(self.repairs_total) == repairs_shape()
        &&& counter_shape(self.repair_failures_total) == repair_failures_shape()
        &&& counter_shape(self.reconcile_runs_total) == reconcile_runs_shape()
    }

    /// No records yet. The four families go into one registry. That succeeds, since their names are
    /// valid and the registry can tell them apart.
    pub fn new() -> (r: Result<Metrics, String>)
        ensures
            r is Ok,
            r->Ok_0.present() == no_gauges(),
            r->Ok_0.repairs() == no_counters(),
            r->Ok_0.repair_failures() == no_counters(),
            r->Ok_0.reconcile_runs() == no_counters(),
    {
        proof {
            lemma_names();
            lemma_name_hashes();
        }
        let by_driver = one("driver");
        let by_both = two("driver", "outcome");
        let by_outcome = one("outcome");
        let driver_present = match new_gauges(
            DRIVER_PRESENT,
            "1 if the driver's layered present-check passes, 0 otherwise, by driver",
            &by_driver,
        ) {
            Ok(g) => g,
            Err(why) => {
                return Err(why);
            },
        };
        let repairs_total = match new_counters(
            REPAIRS_TOTAL,
            "Repair attempts applied, by driver and outcome (applied/skipped/dry_run)",
            &by_both,
        ) {
            Ok(c) => c,
            Err(why) => {
                return Err(why);
            },
        };
        let repair_failures_total = match new_counters(
            REPAIR_FAILURES_TOTAL,
            "Repairs applied but that failed the post-repair present-check, by driver",
            &by_driver,
        ) {
            Ok(c) => c,
            Err(why) => {
                return Err(why);
            },
        };
        let reconcile_runs_total = match new_counters(
            RECONCILE_RUNS_TOTAL,
            "Reconcile loop iterations, by outcome",
            &by_outcome,
        ) {
            Ok(c) => c,
            Err(why) => {
                return Err(why);
            },
        };
        let mut registry = new_registry();
        match register_gauges(&mut registry, &driver_present) {
            Ok(()) => {},
            Err(why) => {
                return Err(why);
            },
        }
        match register_counters(&mut registry, &repairs_total) {
            Ok(()) => {},
            Err(why) => {
                return Err(why);
            },
        }
        match register_counters(&mut registry, &repair_failures_total) {
            Ok(()) => {},
            Err(why) => {
                return Err(why);
            },
        }
        match register_counters(&mut registry, &reconcile_runs_total) {
            Ok(()) => {},
            Err(why) => {
                return Err(why);
            },
        }
        Ok(
            Metrics {
                registry,
                driver_present,
                repairs_total,
                repair_failures_total,
                reconcile_runs_total,
            },
        )
    }
}

/// The names and help texts of the four families are valid.
proof fn lemma_names()
    ensures
        is_shape(driver_present_shape().0, driver_present_shape().1, driver_present_shape().2),
        is_shape(repairs_shape().0, repairs_shape().1, repairs_shape().2),
        is_shape(repair_failures_shape().0, repair_failures_shape().1, repair_failures_shape().2),
        is_shape(reconcile_runs_shape().0, reconcile_runs_shape().1, reconcile_runs_shape().2),
{
    reveal_strlit("1 if the driver's layered present-check passes, 0 otherwise, by driver");
    reveal_strlit("Repair attempts applied, by driver and outcome (applied/skipped/dry_run)");
    reveal_strlit("Repairs applied but that failed the post-repair present-check, by driver");
    reveal_strlit("Reconcile loop iterations, by outcome");
    reveal_strlit("driver");
    reveal_strlit("outcome");
    reveal_with_fuel(is_label_name, 8);
    assert(is_label_name("driver"@));
    assert(is_label_name("outcome"@));
    assert(is_metric_name("ml2_driver_present"@)) by {
        reveal_strlit("ml2_driver_present");
        reveal_with_fuel(is_metric_name, 20);
    }
    assert(is_metric_name("ml2_driver_repairs_total"@)) by {
        reveal_strlit("ml2_driver_repairs_total");
        reveal_with_fuel(is_metric_name, 26);
    }
    assert(is_metric_name("ml2_driver_repair_failures_total"@)) by {
        reveal_strlit("ml2_driver_repair_failures_total");
        reveal_with_fuel(is_metric_name, 34);
    }
    assert(is_metric_name("ml2_guardian_reconcile_runs_total"@)) by {
        reveal_strlit("ml2_guardian_reconcile_runs_total");
        reveal_with_fuel(is_metric_name, 35);
    }
    assert("driver"@.len() != "outcome"@.len());
}

/// A list of one text.
fn one(a: &str) -> (r: Vec<String>)
    ensures
        texts(r@) == seq![a@],
{
    let mut r: Vec<String> = Vec::new();
    r.push(a.to_owned());
    assert(texts(r@) =~= seq![a@]);
    r
}

/// A list of two texts.
fn two(a: &str, b: &str) -> (r: Vec<String>)
    ensures
        texts(r@) == seq![a@].push(b@),
{
    let mut r: Vec<String> = Vec::new();
    r.push(a.to_owned());
    r.push(b.to_owned());
    assert(texts(r@) =~= seq![a@].push(b@));
    r
}

/// `prometheus::Registry::gather` for the registry of the metrics, which holds the four families and
/// no other: they come out by name, and the members of each by their label values; families without
/// members are left out. So the text that shows them is a function of what the families were made
/// with and hold. In it each member has a line with the name of the family, the labels in the order
/// of their names, and its number. The line of a number beyond 2^53, which is rounded, is not
/// described.
#[verifier::external_body]
fn gather(metrics: &Metrics) -> (r: Vec<prometheus::proto::MetricFamily>)
    requires
        metrics.wf(),
    ensures
        families_text(r@) == Some(
            exposition_text(metrics.gauge_families(), metrics.counter_families()),
        ),
        shows_gauges(families_text(r@)->0, driver_present_shape(), metrics.present()),
        shows_counters(families_text(r@)->0, repairs_shape(), metrics.repairs()),
        shows_counters(families_text(r@)->0, repair_failures_shape(), metrics.repair_failures()),
        shows_counters(families_text(r@)->0, reconcile_runs_shape(), metrics.reconcile_runs()),
{
    metrics.registry.gather()
}

/// `prometheus::TextEncoder` with `Encoder::encode`: the families in the text format, in UTF-8. The
/// format must be able to show them; writing into memory does not fail then.
#[verifier::external_body]
fn encode(families: &Vec<prometheus::proto::MetricFamily>) -> (r: Result<Vec<u8>, String>)
    requires
        families_text(families@) is Some,
    ensures
        r is Ok,
        r->Ok_0@ == encode_utf8(families_text(families@)->0),
{
    let mut buffer = Vec::new();
    let encoder = prometheus::TextEncoder::new();
    match prometheus::Encoder::encode(&encoder, families, &mut buffer) {
        Ok(()) => Ok(buffer),
        Err(e) => Err(e.to_string()),
    }
}

/// `prometheus::TextEncoder::format_type`: the media type of the text format.
#[verifier::external_body]
fn format_type() -> (r: String)
    ensures
        r@ == "text/plain; version=0.0.4"@,
{
    prometheus::Encoder::format_type(&prometheus::TextEncoder::new()).to_string()
}

/// The text exposition of the four families with these contents.
pub open spec fn metrics_text(
    present: Map<u64, (Seq<Seq<char>>, i64)>,
    repairs: Map<u64, (Seq<Seq<char>>, u64)>,
    repair_failures: Map<u64, (Seq<Seq<char>>, u64)>,
    reconcile_runs: Map<u64, (Seq<Seq<char>>, u64)>,
) -> Seq<char> {
    exposition_text(
        (driver_present_shape(), present),
        Seq::empty().push((repairs_shape(), repairs)).push(
            (repair_failures_shape(), repair_failures),
        ).push((reconcile_runs_shape(), reconcile_runs)),
    )
}

/// Whether a text is the exposition of these metrics, and shows every record in it.
pub open spec fn tells(text: Seq<char>, metrics: Metrics) -> bool {
    &&& text == metrics_text(
        metrics.present(),
        metrics.repairs(),
        metrics.repair_failures(),
        metrics.reconcile_runs(),
    )
    &&& shows_gauges(text, driver_present_shape(), metrics.present())
    &&& shows_counters(text, repairs_shape(), metrics.repairs())
    &&& shows_counters(text, repair_failures_shape(), metrics.repair_failures())
    &&& shows_counters(text, reconcile_runs_shape(), metrics.reconcile_runs())
}

/// The records as they are now, gathered from the registry: the families that have members.
pub fn registry(metrics: &Metrics) -> (r: Vec<prometheus::proto::MetricFamily>)
    ensures
        families_text(r@) is Some,
        tells(families_text(r@)->0, *metrics),
{
    proof {
        use_type_invariant(metrics);
    }
    gather(metrics)
}

/// The records in the text format of Prometheus.
pub fn exposition(metrics: &Metrics) -> (r: Result<Vec<u8>, String>)
    ensures
        r is Ok,
        valid_utf8(r->Ok_0@),
        tells(decode_utf8(r->Ok_0@), *metrics),
{
    let families = registry(metrics);
    proof {
        encode_utf8_valid_utf8(families_text(families@)->0);
        encode_utf8_decode_utf8(families_text(families@)->0);
    }
    encode(&families)
}

/// The answer to a request for the metrics.
#[derive(Debug)]
pub struct MetricsResponse {
    pub status: u16,
    pub content_type: String,
    pub body: Vec<u8>,
}

/// The status, the media type and the body that [`metrics_handler`] returns.
pub open spec fn metrics_answer(encoded: Result<Vec<u8>, String>) -> (int, Seq<char>, Seq<u8>) {
    match encoded {
        Ok(body) => (200, "text/plain; version=0.0.4"@, body@),
        Err(_) => (500, "text/plain"@, Seq::empty()),
    }
}

/// The answer to a request for the metrics, where `encoded` is the text, or why there is none.
pub fn metrics_handler(encoded: Result<Vec<u8>, String>) -> (r: MetricsResponse)
    ensures
        (r.status as int, r.content_type@, r.body@) == metrics_answer(encoded),
        match encoded {
            Ok(body) => r.status == 200 && r.content_type@ == "text/plain; version=0.0.4"@ && r.body
                == body,
            Err(_) => r.status == 500 && r.content_type@ == "text/plain"@ && r.body@.len() == 0,
        },
{
    match encoded {
        Ok(body) => MetricsResponse { status: 200, content_type: format_type(), body },
        Err(_) => MetricsResponse {
            status: 500,
            content_type: "text/plain".to_owned(),
            body: Vec::new(),
        },
    }
}

/// Records whether a driver is present.
pub fn record_present(metrics: &mut Metrics, driver: &str, present: bool)
    ensures
        final(metrics).present() == gauge_set(
            old(metrics).present(),
            seq![driver@],
            if present {
                1
            } else {
                0
            },
        ),
        final(metrics).repairs() == old(metrics).repairs(),
        final(metrics).repair_failures() == old(metrics).repair_failures(),
        final(metrics).reconcile_runs() == old(metrics).reconcile_runs(),
{
    proof {
        use_type_invariant(&*metrics);
    }
    let values = one(driver);
    assert(values@.len() == texts(values@).len());
    let value: i64 = if present {
        1
    } else {
        0
    };
    set_gauge(&mut metrics.driver_present, &values, value);
}

/// Counts one repair with the given outcome.
pub(crate) fn count_repair(metrics: &mut Metrics, driver: &str, outcome: &str)
    ensures
        final(metrics).repairs() == counted(
            old(metrics).repairs(),
            seq![driver@].push(outcome@),
        ),
        final(metrics).present() == old(metrics).present(),
        final(metrics).repair_failures() == old(metrics).repair_failures(),
        final(metrics).reconcile_runs() == old(metrics).reconcile_runs(),
{
    proof {
        use_type_invariant(&*metrics);
    }
    let values = two(driver, outcome);
    assert(values@.len() == texts(values@).len());
    count_up(&mut metrics.repairs_total, &values);
}

/// The repairs, with one more by whether all of it was applied.
pub open spec fn repairs_after(
    m: Map<u64, (Seq<Seq<char>>, u64)>,
    driver: Seq<char>,
    applied: bool,
) -> Map<u64, (Seq<Seq<char>>, u64)> {
    counted(
        m,
        seq![driver].push(
            if applied {
                "applied"@
            } else {
                "skipped"@
            },
        ),
    )
}

/// Counts one repair, by whether all of it was applied.
pub fn record_repair(metrics: &mut Metrics, driver: &str, applied: bool)
    ensures
        final(metrics).repairs() == repairs_after(old(metrics).repairs(), driver@, applied),
        final(metrics).repairs() == counted(
            old(metrics).repairs(),
            seq![driver@].push(
                if applied {
                    "applied"@
                } else {
                    "skipped"@
                },
            ),
        ),
        final(metrics).present() == old(metrics).present(),
        final(metrics).repair_failures() == old(metrics).repair_failures(),
        final(metrics).reconcile_runs() == old(metrics).reconcile_runs(),
{
    if applied {
        count_repair(metrics, driver, "applied");
    } else {
        count_repair(metrics, driver, "skipped");
    }
}

/// The repairs, with one more that was worked out and, in a dry run, not applied.
pub open spec fn repairs_after_dry_run(
    m: Map<u64, (Seq<Seq<char>>, u64)>,
    driver: Seq<char>,
) -> Map<u64, (Seq<Seq<char>>, u64)> {
    counted(m, seq![driver].push("dry_run"@))
}

/// Counts one repair that was worked out and, in a dry run, not applied.
pub fn record_repair_dry_run(metrics: &mut Metrics, driver: &str)
    ensures
        final(metrics).repairs() == repairs_after_dry_run(old(metrics).repairs(), driver@),
        final(metrics).repairs() == counted(
            old(metrics).repairs(),
            seq![driver@].push("dry_run"@),
        ),
        final(metrics).present() == old(metrics).present(),
        final(metrics).repair_failures() == old(metrics).repair_failures(),
        final(metrics).reconcile_runs() == old(metrics).reconcile_runs(),
{
    count_repair(metrics, driver, "dry_run");
}

/// Counts one repair that was applied and did not help.
pub fn record_repair_failure(metrics: &mut Metrics, driver: &str)
    ensures
        final(metrics).repair_failures() == counted(
            old(metrics).repair_failures(),
            seq![driver@],
        ),
        final(metrics).present() == old(metrics).present(),
        final(metrics).repairs() == old(metrics).repairs(),
        final(metrics).reconcile_runs() == old(metrics).reconcile_runs(),
{
    proof {
        use_type_invariant(&*metrics);
    }
    let values = one(driver);
    assert(values@.len() == texts(values@).len());
    count_up(&mut metrics.repair_failures_total, &values);
}

/// Counts one reconcile pass, by its outcome.
pub fn record_reconcile_run(metrics: &mut Metrics, outcome: &str)
    ensures
        final(metrics).reconcile_runs() == counted(
            old(metrics).reconcile_runs(),
            seq![outcome@],
        ),
        final(metrics).present() == old(metrics).present(),
        final(metrics).repairs() == old(metrics).repairs(),
        final(metrics).repair_failures() == old(metrics).repair_failures(),
{
    proof {
        use_type_invariant(&*metrics);
    }
    let values = one(outcome);
    assert(values@.len() == texts(values@).len());
    count_up(&mut metrics.reconcile_runs_total, &values);
}

/// A label value without backslashes, quotes and line feeds is shown as it is.
pub proof fn law_a_plain_label_value_is_shown_as_it_is(s: Seq<char>)
    requires
        free_of(s, '\\'),
        free_of(s, '"'),
        free_of(s, '\n'),
    ensures
        escaped(s) == s,
    decreases s.len(),
{
    if s.len() > 0 {
        law_a_plain_label_value_is_shown_as_it_is(s.drop_last());
        assert(s.drop_last() + seq![s.last()] =~= s);
    }
}

/// A gauge that was just set is shown with its number, unless the family takes its label values for
/// others that it holds.
pub proof fn law_a_set_gauge_is_shown(
    text: Seq<char>,
    shape: (Seq<char>, Seq<char>, Seq<Seq<char>>),
    m: Map<u64, (Seq<Seq<char>>, i64)>,
    values: Seq<Seq<char>>,
    value: i64,
)
    requires
        shows_gauges(text, shape, gauge_set(m, values, value)),
        labels_in(m, label_hash(values), values) == values,
        -MAX_EXACT <= value <= MAX_EXACT,
    ensures
        contains(text, sample_line(shape, values, value as int)),
{
    assert(gauge_set(m, values, value).dom().contains(label_hash(values)));
}

/// A counter that just counted is shown with its number, unless the family takes its label values
/// for others that it holds. One that counts for the first time is shown with one.
pub proof fn law_a_count_is_shown(
    text: Seq<char>,
    shape: (Seq<char>, Seq<char>, Seq<Seq<char>>),
    m: Map<u64, (Seq<Seq<char>>, u64)>,
    values: Seq<Seq<char>>,
)
    requires
        shows_counters(text, shape, counted(m, values)),
        labels_in(m, label_hash(values), values) == values,
        count_of(m, label_hash(values)) < MAX_EXACT,
    ensures
        contains(
            text,
            sample_line(shape, values, count_of(m, label_hash(values)) + 1),
        ),
        !m.dom().contains(label_hash(values)) ==> contains(text, sample_line(shape, values, 1)),
{
    assert(counted(m, values).dom().contains(label_hash(values)));
}

/// Counting one combination of label values up leaves alone every other combination that the family
/// can tell from it.
pub proof fn law_counting_leaves_the_others(
    m: Map<u64, (Seq<Seq<char>>, u64)>,
    values: Seq<Seq<char>>,
    others: Seq<Seq<char>>,
)
    requires
        label_hash(others) != label_hash(values),
    ensures
        count_of(counted(m, values), label_hash(others)) == count_of(m, label_hash(others)),
        count_of(counted(m, values), label_hash(values)) == one_more(
            count_of(m, label_hash(values)),
        ),
{
}

/// Setting the gauge of one driver leaves alone the gauge of every driver that the family can tell
/// from it.
pub proof fn law_setting_a_gauge_leaves_the_others(
    m: Map<u64, (Seq<Seq<char>>, i64)>,
    driver: Seq<char>,
    value: i64,
    other: Seq<char>,
)
    requires
        label_hash(seq![other]) != label_hash(seq![driver]),
        m.dom().contains(label_hash(seq![other])),
    ensures
        gauge_set(m, seq![driver], value)[label_hash(seq![other])] == m[label_hash(seq![other])],
        gauge_set(m, seq![driver], value)[label_hash(seq![driver])].1 == value,
{
}

} // verus!
