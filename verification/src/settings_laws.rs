//! What holds of the settings of the guardian, of its errors, and of its use of `helm`.
use crate::bytes::lossy_text;
use crate::config::{
    acceptable, both_error, debug_list, drivers_in, drivers_path, first_with_both, settings,
    sole_check, sole_names, DriverSpecView, DriversFile, EnvVars,
};
use crate::error::ErrorView;
use crate::helm::{
    json_document, run_result, set_args, upgrade_args, values_args, values_in, HelmOutput,
    MECHANISM_DRIVERS_POINTER,
};
use crate::k8s_laws::lemma_number_of_decimal;
use crate::numbers::{all_digits, decimal, is_digit, number, parse_number, parse_truth, unsigned};
use vstd::prelude::*;

verus! {

/// Every setting is what its variable says. A variable that is not set counts with its default; one
/// that should be a number and is none counts as if it were not set.
pub proof fn law_every_setting_has_its_variable(
    vars: EnvVars,
    drivers: Seq<DriverSpecView>,
    seconds: u64,
)
    ensures
        ({
            let c = settings(vars, drivers);
            &&& vars.listen_addr matches Some(s) ==> c.listen_addr == s@
            &&& vars.listen_addr is None ==> c.listen_addr == "0.0.0.0:8080"@
            &&& vars.target_namespace matches Some(s) ==> c.target_namespace == s@
            &&& vars.target_namespace is None ==> c.target_namespace == "pcd"@
            &&& vars.helm_release_name matches Some(s) ==> c.helm_release_name == s@
            &&& vars.helm_release_name is None ==> c.helm_release_name == "neutron"@
            &&& vars.deployment_name matches Some(s) ==> c.deployment_name == s@
            &&& vars.deployment_name is None ==> c.deployment_name == "neutron-server"@
            &&& vars.wheelcache_pvc_name matches Some(s) ==> c.wheelcache_pvc_name == s@
            &&& vars.wheelcache_pvc_name is None ==> c.wheelcache_pvc_name
                == "neutron-ml2-wheelcache"@
            &&& vars.reconcile_interval_secs matches Some(s) ==> s@ == decimal(seconds as nat)
                ==> c.reconcile_interval_secs == seconds
            &&& vars.reconcile_interval_secs matches Some(s) ==> parse_number(s@) is None
                ==> c.reconcile_interval_secs == 300
            &&& vars.reconcile_interval_secs is None ==> c.reconcile_interval_secs == 300
            &&& c.drivers == drivers
            &&& vars.drivers_config_path matches Some(s) ==> drivers_path(vars) == s@
            &&& vars.drivers_config_path is None ==> drivers_path(vars)
                == "/etc/neutron-ml2-guardian/drivers.yaml"@
        }),
{
    law_a_written_number_is_read(seconds);
}

/// A number that is written down is read as that number, with a plus sign in front of it or without.
pub proof fn law_a_written_number_is_read(n: u64)
    ensures
        parse_number(decimal(n as nat)) == Some(n),
        parse_number("+"@ + decimal(n as nat)) == Some(n),
{
    reveal_strlit("+");
    lemma_decimal_digits(n as nat);
    lemma_number_of_decimal(n as nat);
    let s = decimal(n as nat);
    assert(is_digit(s[0]));
    assert(("+"@ + s).drop_first() =~= s);
}

proof fn lemma_decimal_digits(n: nat)
    ensures
        decimal(n).len() > 0,
        all_digits(decimal(n)),
    decreases n,
{
    if n >= 10 {
        lemma_decimal_digits(n / 10);
    }
}

/// A number is written in decimal digits, without a zero in front.
pub proof fn law_how_a_number_is_written(n: nat)
    ensures
        decimal(n).len() > 0,
        forall|i: int| 0 <= i < decimal(n).len() ==> '0' <= #[trigger] decimal(n)[i] <= '9',
        n > 0 ==> decimal(n)[0] != '0',
        number(decimal(n)) == n,
    decreases n,
{
    lemma_decimal_digits(n);
    lemma_number_of_decimal(n);
    assert forall|i: int| 0 <= i < decimal(n).len() implies '0' <= #[trigger] decimal(n)[i]
        <= '9' by {
        assert(is_digit(decimal(n)[i]));
    }
    if n >= 10 {
        law_how_a_number_is_written(n / 10);
        lemma_decimal_digits(n / 10);
        assert(decimal(n)[0] == decimal(n / 10)[0]);
    }
}

/// What is not a number: nothing at all, or anything with a character that is no digit, but for one
/// plus sign in front.
pub proof fn law_what_is_no_number(s: Seq<char>, i: int)
    requires
        s.len() == 0 || s == "+"@ || (0 <= i < s.len() && !('0' <= s[i] <= '9') && !(i == 0 && s[0]
            == '+')),
    ensures
        parse_number(s) is None,
{
    reveal_strlit("+");
    let t = unsigned(s);
    if s.len() > 0 && s != "+"@ {
        if s[0] == '+' {
            assert(t[i - 1] == s[i]);
        } else {
            assert(t[i] == s[i]);
        }
    }
}

/// Digits stand for the number that they stand for in decimal notation, as long as it fits.
pub proof fn law_what_digits_stand_for(s: Seq<char>, c: char)
    requires
        all_digits(s),
        '0' <= c <= '9',
    ensures
        number(s.push(c)) == 10 * number(s) + (c as int - '0' as int),
        number(s.push(c)) <= u64::MAX ==> parse_number(s.push(c)) == Some(
            (10 * number(s) + (c as int - '0' as int)) as u64,
        ),
        number(s.push(c)) > u64::MAX ==> parse_number(s.push(c)) is None,
{
    assert(s.push(c).drop_last() =~= s);
    let t = s.push(c);
    assert(is_digit(t[0])) by {
        if s.len() > 0 {
            assert(is_digit(s[0]));
        }
    }
    assert forall|i: int| 0 <= i < t.len() implies is_digit(#[trigger] t[i]) by {
        if i < s.len() {
            assert(is_digit(s[i]));
        }
    }
}

/// The words `true` and `false` are truth values, and no other text is.
pub proof fn law_what_is_a_truth_value(s: Seq<char>)
    ensures
        parse_truth(s) == Some(true) <==> s == "true"@,
        parse_truth(s) == Some(false) <==> s == "false"@,
{
    reveal_strlit("true");
    reveal_strlit("false");
    assert("true"@.len() != "false"@.len());
}

/// A list of drivers can be used if and only if no two of its drivers are marked as unable to stand
/// beside each other, and no driver has its own settings given both as text and as a Secret.
pub proof fn law_which_lists_can_be_used(drivers: Seq<DriverSpecView>)
    ensures
        acceptable(drivers) <==> (forall|i: int, j: int|
            0 <= i < j < drivers.len() ==> !(#[trigger] drivers[i].sole_driver
                && #[trigger] drivers[j].sole_driver)) && (forall|i: int|
            0 <= i < drivers.len() ==> !((#[trigger] drivers[i]).extra_config_secret_data.len() > 0
                && drivers[i].extra_config_secret_ref is Some)),
        sole_check(drivers) is Ok <==> forall|i: int, j: int|
            0 <= i < j < drivers.len() ==> !(#[trigger] drivers[i].sole_driver
                && #[trigger] drivers[j].sole_driver),
{
    if forall|i: int, j: int|
        0 <= i < j < drivers.len() ==> !(#[trigger] drivers[i].sole_driver
            && #[trigger] drivers[j].sole_driver) {
        lemma_no_two_marked(drivers);
    } else {
        let (i, j) = choose|i: int, j: int|
            0 <= i < j < drivers.len() && #[trigger] drivers[i].sole_driver
                && #[trigger] drivers[j].sole_driver;
        if sole_names(drivers).len() <= 1 {
            lemma_two_marked(drivers, i, j);
        }
    }
    assert forall|i: int| 0 <= i < drivers.len() implies (
    #[trigger] drivers[i]).has_both_extra_configs() == (drivers[i].extra_config_secret_data.len()
        > 0 && drivers[i].extra_config_secret_ref is Some) by {}
}

proof fn lemma_no_two_marked(drivers: Seq<DriverSpecView>)
    requires
        forall|i: int, j: int|
            0 <= i < j < drivers.len() ==> !(#[trigger] drivers[i].sole_driver
                && #[trigger] drivers[j].sole_driver),
    ensures
        sole_names(drivers).len() <= 1,
        (forall|i: int| 0 <= i < drivers.len() ==> !(#[trigger] drivers[i]).sole_driver)
            ==> sole_names(drivers).len() == 0,
    decreases drivers.len(),
{
    if drivers.len() > 0 {
        let rest = drivers.drop_last();
        assert forall|i: int, j: int| 0 <= i < j < rest.len() implies !(
        #[trigger] rest[i].sole_driver && #[trigger] rest[j].sole_driver) by {
            assert(!(drivers[i].sole_driver && drivers[j].sole_driver));
        }
        lemma_no_two_marked(rest);
        if drivers.last().sole_driver {
            assert forall|i: int| 0 <= i < rest.len() implies !(#[trigger] rest[i]).sole_driver by {
                assert(!(drivers[i].sole_driver && drivers[drivers.len() - 1].sole_driver));
            }
        } else if forall|i: int| 0 <= i < drivers.len() ==> !(#[trigger] drivers[i]).sole_driver {
            assert forall|i: int| 0 <= i < rest.len() implies !(#[trigger] rest[i]).sole_driver by {
                assert(!drivers[i].sole_driver);
            }
        }
    }
}

proof fn lemma_two_marked(drivers: Seq<DriverSpecView>, i: int, j: int)
    requires
        0 <= i <= j < drivers.len(),
        drivers[i].sole_driver,
        drivers[j].sole_driver,
    ensures
        sole_names(drivers).len() >= if i < j {
            2int
        } else {
            1int
        },
    decreases drivers.len(),
{
    let rest = drivers.drop_last();
    if i == drivers.len() - 1 {
    } else if j == drivers.len() - 1 {
        assert(rest[i] == drivers[i]);
        lemma_two_marked(rest, i, i);
    } else {
        assert(rest[i] == drivers[i]);
        assert(rest[j] == drivers[j]);
        lemma_two_marked(rest, i, j);
    }
}

/// The refusal of marked drivers names all of them and no other, in their order.
pub proof fn law_the_marked_drivers_are_named(drivers: Seq<DriverSpecView>)
    ensures
        ({
            let marked = drivers.filter(|d: DriverSpecView| d.sole_driver).map_values(
                |d: DriverSpecView| d.name,
            );
            &&& sole_names(drivers) == marked
            &&& sole_check(drivers) matches Err(e) ==> e == ErrorView::Config(
                "more than one driver is flagged sole_driver ("@ + debug_list(marked)
                    + ") -- these can't be combined, fix the drivers config"@,
            )
        }),
    decreases drivers.len(),
{
    reveal(Seq::filter);
    let marked = drivers.filter(|d: DriverSpecView| d.sole_driver);
    if drivers.len() > 0 {
        law_the_marked_drivers_are_named(drivers.drop_last());
        let rest = drivers.drop_last().filter(|d: DriverSpecView| d.sole_driver);
        if drivers.last().sole_driver {
            assert(marked == rest.push(drivers.last()));
            assert(marked.map_values(|d: DriverSpecView| d.name) =~= rest.map_values(
                |d: DriverSpecView| d.name,
            ).push(drivers.last().name));
        } else {
            assert(marked == rest);
        }
        assert(sole_names(drivers) =~= marked.map_values(|d: DriverSpecView| d.name));
    } else {
        assert(sole_names(drivers) =~= marked.map_values(|d: DriverSpecView| d.name));
    }
}

/// The driver that is refused for its own settings is the first one that has them given in both ways,
/// and the refusal names it.
pub proof fn law_the_first_driver_with_both_is_named(drivers: Seq<DriverSpecView>, i: int)
    requires
        0 <= i < drivers.len(),
    ensures
        first_with_both(drivers, i) <==> drivers[i].extra_config_secret_data.len() > 0
            && drivers[i].extra_config_secret_ref is Some && forall|j: int|
            0 <= j < i ==> (#[trigger] drivers[j]).extra_config_secret_data.len() == 0
                || drivers[j].extra_config_secret_ref is None,
        both_error(drivers[i].name) == ErrorView::Config(
            "driver "@ + drivers[i].name
                + " sets both extraConfigSecretData and extraConfigSecretRef -- only one can be used, fix the drivers config"@,
        ),
{
    if first_with_both(drivers, i) {
        assert forall|j: int| 0 <= j < i implies (
        #[trigger] drivers[j]).extra_config_secret_data.len() == 0
            || drivers[j].extra_config_secret_ref is None by {
            assert(!drivers[j].has_both_extra_configs());
        }
    }
}

/// The Secret with a driver's own settings is the one that is referred to; without one it is named
/// after the driver, and only if there is something to write.
pub proof fn law_where_own_settings_are(driver: DriverSpecView)
    ensures
        driver.extra_config_secret_ref is Some ==> driver.extra_config_secret_name()
            == driver.extra_config_secret_ref,
        driver.extra_config_secret_ref is None && driver.extra_config_secret_data.len() > 0
            ==> driver.extra_config_secret_name() == Some(
            "neutron-ml2-"@ + driver.name + "-config"@,
        ),
        driver.extra_config_secret_ref is None && driver.extra_config_secret_data.len() == 0
            ==> driver.extra_config_secret_name() is None,
        driver.managed_secret_name() == "neutron-ml2-"@ + driver.name + "-config"@,
        driver.has_extra_config() <==> driver.extra_config_secret_name() is Some,
{
}

/// A file of drivers that is there and can be read gives the drivers in it; a missing one gives none;
/// one that cannot be read or understood is an error that names the file and says why.
pub proof fn law_what_a_file_of_drivers_gives(path: Seq<char>, file: DriversFile)
    ensures
        drivers_in(path, file) is Err <==> file is Unreadable || file is Unparsable,
        file matches DriversFile::Parsed(v) ==> drivers_in(path, file)->Ok_0.len() == v@.len()
            && forall|i: int|
            0 <= i < v@.len() ==> (#[trigger] drivers_in(path, file)->Ok_0[i]) == v@[i]@,
        file is Missing ==> drivers_in(path, file)->Ok_0.len() == 0,
        file matches DriversFile::Unreadable(why) ==> drivers_in(path, file)->Err_0
            == ErrorView::Config("reading drivers config "@ + path + ": "@ + why@),
        file matches DriversFile::Unparsable(why) ==> drivers_in(path, file)->Err_0
            == ErrorView::Config("parsing drivers config "@ + path + ": "@ + why@),
{
}

/// An error is shown as its kind and its text, and no two kinds are shown alike.
pub proof fn law_an_error_shows_its_kind_and_its_text(text: Seq<char>)
    ensures
        ErrorView::Kube(text).message() == "kubernetes API error: "@ + text,
        ErrorView::Helm(text).message() == "helm command failed: "@ + text,
        ErrorView::PodExec(text).message() == "pod exec failed: "@ + text,
        ErrorView::Config(text).message() == "driver config error: "@ + text,
        ErrorView::Internal(text).message() == "internal error: "@ + text,
{
}

/// The values of a release are asked for by its name, in its namespace, all of them, as JSON.
pub proof fn law_the_values_of_a_release(namespace: Seq<char>, release: Seq<char>)
    ensures
        ({
            let args = values_args(namespace, release);
            &&& args.len() == 8
            &&& args[0] == "get"@ && args[1] == "values"@ && args[2] == release
            &&& args[3] == "-n"@ && args[4] == namespace
            &&& args[5] == "-a"@
            &&& args[6] == "-o"@ && args[7] == "json"@
        }),
        MECHANISM_DRIVERS_POINTER@ == "/conf/neutron/ml2_conf/ml2/mechanism_drivers"@,
{
}

/// The output of `helm` gives the values if it is JSON; if not, the error says why.
pub proof fn law_the_values_are_read_as_json(output: Seq<char>)
    ensures
        values_in(output) is Ok <==> json_document(output) is Ok,
        json_document(output) matches Ok(strings) ==> values_in(output)->Ok_0 == strings,
        json_document(output) matches Err(why) ==> values_in(output)->Err_0 == ErrorView::Helm(
            "parsing `helm get values` output: "@ + why,
        ),
{
}

/// An upgrade keeps the values of the release, and sets each of the given ones, in their order.
pub proof fn law_an_upgrade_sets_every_value(
    namespace: Seq<char>,
    release: Seq<char>,
    chart_ref: Seq<char>,
    set_values: Seq<(String, String)>,
)
    ensures
        ({
            let args = upgrade_args(namespace, release, chart_ref, set_values);
            &&& args.len() == 6 + 2 * set_values.len()
            &&& args[0] == "upgrade"@ && args[1] == release && args[2] == chart_ref
            &&& args[3] == "--reuse-values"@
            &&& args[4] == "-n"@ && args[5] == namespace
            &&& forall|i: int|
                0 <= i < set_values.len() ==> #[trigger] args[6 + 2 * i] == "--set"@ && args[7 + 2
                    * i] == set_values[i].0@ + "="@ + set_values[i].1@
        }),
{
    lemma_set_args(set_values);
    let args = upgrade_args(namespace, release, chart_ref, set_values);
    assert forall|i: int| 0 <= i < set_values.len() implies #[trigger] args[6 + 2 * i] == "--set"@
        && args[7 + 2 * i] == set_values[i].0@ + "="@ + set_values[i].1@ by {
        assert(args[6 + 2 * i] == set_args(set_values)[2 * i]);
        assert(args[7 + 2 * i] == set_args(set_values)[2 * i + 1]);
    }
}

proof fn lemma_set_args(set_values: Seq<(String, String)>)
    ensures
        set_args(set_values).len() == 2 * set_values.len(),
        forall|i: int|
            0 <= i < set_values.len() ==> #[trigger] set_args(set_values)[2 * i] == "--set"@
                && set_args(set_values)[2 * i + 1] == set_values[i].0@ + "="@ + set_values[i].1@,
    decreases set_values.len(),
{
    if set_values.len() > 0 {
        let front = set_values.drop_last();
        lemma_set_args(front);
        assert forall|i: int| 0 <= i < set_values.len() implies #[trigger] set_args(set_values)[2
            * i] == "--set"@ && set_args(set_values)[2 * i + 1] == set_values[i].0@ + "="@
            + set_values[i].1@ by {
            if i < front.len() {
                assert(front[i] == set_values[i]);
                assert(set_args(set_values)[2 * i] == set_args(front)[2 * i]);
                assert(set_args(set_values)[2 * i + 1] == set_args(front)[2 * i + 1]);
            }
        }
    }
}

/// Only a run of `helm` that succeeds gives its output; a failure is an error that says what was run,
/// how it ended and what it complained of.
pub proof fn law_only_a_run_that_succeeds_gives_its_output(
    args: Seq<Seq<char>>,
    output: HelmOutput,
)
    ensures
        run_result(args, output) is Ok <==> (output matches HelmOutput::Ended { success, .. }
            && success),
        output matches HelmOutput::Ended { success, status, stdout, stderr } ==> if success {
            run_result(args, output)->Ok_0 == lossy_text(stdout@)
        } else {
            run_result(args, output)->Err_0 == ErrorView::Helm(
                "helm "@ + debug_list(args) + " exited with "@ + status@ + ": "@
                    + lossy_text(stderr@),
            )
        },
        output matches HelmOutput::NotStarted(why) ==> run_result(args, output)->Err_0
            == ErrorView::Helm("spawning helm: "@ + why@),
{
}

} // verus!
