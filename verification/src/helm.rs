//! The `helm` command: its arguments, and what its output says.
use crate::bytes::{lossy_text, text_from_utf8_lossy};
use crate::config::{debug_list, debug_strings};
use crate::error::{text_result, ErrorView, GuardianError};
use crate::text::{concat, texts};
use vstd::prelude::*;
use vstd::utf8::{decode_utf8, valid_utf8};

verus! {

/// A JSON document of any shape.
#[verifier::external_type_specification]
#[verifier::external_body]
pub struct ExValue(serde_json::Value);

/// The strings in a JSON document, each under its JSON pointer.
pub uninterp spec fn json_strings(v: serde_json::Value) -> Map<Seq<char>, Seq<char>>;

/// What reading a text as JSON comes to: the strings in the document, or the reason why it is none.
pub uninterp spec fn json_document(text: Seq<char>) -> Result<Map<Seq<char>, Seq<char>>, Seq<char>>;

/// A result whose success is a JSON document, by the strings in it.
pub open spec fn json_result(r: Result<serde_json::Value, String>) -> Result<
    Map<Seq<char>, Seq<char>>,
    Seq<char>,
> {
    match r {
        Ok(v) => Ok(json_strings(v)),
        Err(e) => Err(e@),
    }
}

/// `serde_json::from_str`, with the error as its text. Whether the text is a JSON document, which
/// strings are in it and what the error says are functions of the text alone.
#[verifier::external_body]
fn parse_json(text: &str) -> (r: Result<serde_json::Value, String>)
    ensures
        json_result(r) == json_document(text@),
{
    serde_json::from_str(text).map_err(|e: serde_json::Error| e.to_string())
}

/// `serde_json::Value::pointer`, with `Value::as_str` on what it finds: the string that the document
/// has at the pointer, if there is anything there and it is a string.
#[verifier::external_body]
fn string_at(v: &serde_json::Value, pointer: &str) -> (r: Option<String>)
    ensures
        r is Some <==> json_strings(*v).dom().contains(pointer@),
        r matches Some(s) ==> s@ == json_strings(*v)[pointer@],
{
    v.pointer(pointer).and_then(|v| v.as_str()).map(|s| s.to_string())
}

/// Where the computed values of the release have the list of drivers.
pub const MECHANISM_DRIVERS_POINTER: &'static str = "/conf/neutron/ml2_conf/ml2/mechanism_drivers";

/// The arguments of `helm` that ask for the computed values of a release.
pub open spec fn values_args(namespace: Seq<char>, release: Seq<char>) -> Seq<Seq<char>> {
    seq!["get"@].push("values"@).push(release).push("-n"@).push(namespace).push("-a"@).push("-o"@).push(
        "json"@,
    )
}

/// The arguments of `helm` that ask for the computed values of a release.
pub fn get_values_args(namespace: &str, release: &str) -> (r: Vec<String>)
    ensures
        texts(r@) == values_args(namespace@, release@),
{
    let mut r: Vec<String> = Vec::new();
    r.push("get".to_owned());
    r.push("values".to_owned());
    r.push(release.to_owned());
    r.push("-n".to_owned());
    r.push(namespace.to_owned());
    r.push("-a".to_owned());
    r.push("-o".to_owned());
    r.push("json".to_owned());
    assert(texts(r@) =~= values_args(namespace@, release@));
    r
}

/// The strings in what [`get_values`] returns.
pub open spec fn values_in(output: Seq<char>) -> Result<Map<Seq<char>, Seq<char>>, ErrorView> {
    match json_document(output) {
        Ok(strings) => Ok(strings),
        Err(why) => Err(ErrorView::Helm("parsing `helm get values` output: "@ + why)),
    }
}

/// The computed values of a release, read from what `helm` wrote for [`get_values_args`].
pub fn get_values(output: &str) -> (r: Result<serde_json::Value, GuardianError>)
    ensures
        r matches Ok(v) ==> values_in(output@) == Ok::<Map<Seq<char>, Seq<char>>, ErrorView>(
            json_strings(v),
        ),
        r matches Err(e) ==> values_in(output@) == Err::<Map<Seq<char>, Seq<char>>, ErrorView>(e@),
        match json_document(output@) {
            Ok(strings) => r is Ok && json_strings(r->Ok_0) == strings,
            Err(why) => r is Err && r->Err_0@ == ErrorView::Helm(
                "parsing `helm get values` output: "@ + why,
            ),
        },
{
    match parse_json(output) {
        Ok(v) => Ok(v),
        Err(why) => Err(
            GuardianError::Helm(concat("parsing `helm get values` output: ", why.as_str())),
        ),
    }
}

/// The list of drivers in the computed values of a release, as it stands there. None means that the
/// release does not set it, not that no driver is loaded: the chart may have a default.
pub fn mechanism_drivers_value(values: &serde_json::Value) -> (r: Option<String>)
    ensures
        r is Some <==> json_strings(*values).dom().contains(MECHANISM_DRIVERS_POINTER@),
        r matches Some(s) ==> s@ == json_strings(*values)[MECHANISM_DRIVERS_POINTER@],
{
    string_at(values, MECHANISM_DRIVERS_POINTER)
}

/// The options that set values.
pub open spec fn set_args(set_values: Seq<(String, String)>) -> Seq<Seq<char>>
    decreases set_values.len(),
{
    if set_values.len() == 0 {
        Seq::empty()
    } else {
        set_args(set_values.drop_last()).push("--set"@).push(
            set_values.last().0@ + "="@ + set_values.last().1@,
        )
    }
}

/// The arguments of `helm` that set values of a release and keep its other values.
pub open spec fn upgrade_args(
    namespace: Seq<char>,
    release: Seq<char>,
    chart_ref: Seq<char>,
    set_values: Seq<(String, String)>,
) -> Seq<Seq<char>> {
    seq!["upgrade"@].push(release).push(chart_ref).push("--reuse-values"@).push("-n"@).push(
        namespace,
    ) + set_args(set_values)
}

/// The arguments of `helm` that set values of a release and keep its other values. The chart is
/// where `chart_ref` says.
pub fn upgrade_set_values_with_chart(
    namespace: &str,
    release: &str,
    chart_ref: &str,
    set_values: &Vec<(String, String)>,
) -> (r: Vec<String>)
    ensures
        texts(r@) == upgrade_args(namespace@, release@, chart_ref@, set_values@),
{
    let mut r: Vec<String> = Vec::new();
    r.push("upgrade".to_owned());
    r.push(release.to_owned());
    r.push(chart_ref.to_owned());
    r.push("--reuse-values".to_owned());
    r.push("-n".to_owned());
    r.push(namespace.to_owned());
    let ghost base = texts(r@);
    assert(base =~= seq!["upgrade"@].push(release@).push(chart_ref@).push("--reuse-values"@).push(
        "-n"@,
    ).push(namespace@));
    assert(texts(r@) =~= base + set_args(set_values@.take(0)));
    for i in 0..set_values.len()
        invariant
            texts(r@) == base + set_args(set_values@.take(i as int)),
    {
        let ghost before = texts(r@);
        assert(set_values@.take(i + 1).drop_last() =~= set_values@.take(i as int));
        r.push("--set".to_owned());
        let head = concat(set_values[i].0.as_str(), "=");
        r.push(concat(head.as_str(), set_values[i].1.as_str()));
        assert(texts(r@) =~= before.push("--set"@).push(
            set_values@[i as int].0@ + "="@ + set_values@[i as int].1@,
        ));
        assert(texts(r@) =~= base + set_args(set_values@.take(i + 1)));
    }
    assert(set_values@.take(set_values@.len() as int) =~= set_values@);
    r
}

/// What became of a run of `helm`.
#[derive(Debug)]
pub enum HelmOutput {
    /// It could not be started, for the given reason.
    NotStarted(String),
    /// It ended. `status` is its exit status in words.
    Ended { success: bool, status: String, stdout: Vec<u8>, stderr: Vec<u8> },
}

/// What [`run`] returns.
pub open spec fn run_result(args: Seq<Seq<char>>, output: HelmOutput) -> Result<
    Seq<char>,
    ErrorView,
> {
    match output {
        HelmOutput::NotStarted(why) => Err(ErrorView::Helm("spawning helm: "@ + why@)),
        HelmOutput::Ended { success, status, stdout, stderr } => if success {
            Ok(lossy_text(stdout@))
        } else {
            Err(
                ErrorView::Helm(
                    "helm "@ + debug_list(args) + " exited with "@ + status@ + ": "@ + lossy_text(
                        stderr@,
                    ),
                ),
            )
        },
    }
}

/// What a run of `helm` with the given arguments wrote to its standard output; an error where it
/// could not be started or failed.
pub fn run(args: &Vec<String>, output: HelmOutput) -> (r: Result<String, GuardianError>)
    ensures
        text_result(r) == run_result(texts(args@), output),
        output matches HelmOutput::Ended { success: true, stdout, .. } ==> r is Ok && (valid_utf8(
            stdout@,
        ) ==> r->Ok_0@ == decode_utf8(stdout@)),
{
    match output {
        HelmOutput::NotStarted(why) => Err(
            GuardianError::Helm(concat("spawning helm: ", why.as_str())),
        ),
        HelmOutput::Ended { success, status, stdout, stderr } => if success {
            Ok(text_from_utf8_lossy(&stdout))
        } else {
            let mut why = concat("helm ", debug_strings(args).as_str());
            why.append(" exited with ");
            why.append(status.as_str());
            why.append(": ");
            why.append(text_from_utf8_lossy(&stderr).as_str());
            Err(GuardianError::Helm(why))
        },
    }
}

} // verus!
