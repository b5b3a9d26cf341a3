//! What holds of every taking out.
use crate::config::{ConfigView, DriverSpecView};
use crate::error::GuardianError;
use crate::files::{ended_lines, file_lines};
use crate::k8s::Deployment;
use crate::reconcile::actions::{Reply, SecretKey};
use crate::reconcile::edit_laws::{
    law_a_removed_driver_is_not_included, law_removing_a_driver_keeps_the_others,
    law_removing_what_is_not_listed_changes_nothing, lemma_removing_lists_nothing_new,
};
use crate::reconcile::ml2_conf_lemmas::lemma_listed;
use crate::reconcile::ml2_conf::{conf_includes, conf_lists, listed, lists};
use crate::reconcile::repair::{conf_read, patch_conf, patch_script, read_script, script_read};
use crate::reconcile::revert::{
    change, conf_without_all, owns, removal_stage, revert_step, RevertPhaseView, RevertStepView,
};
use crate::reconcile::script_laws::{
    law_removing_no_flag_changes_nothing, law_removing_the_flag_shortens_the_script,
};
use crate::reconcile::server_script::{has_flag_pair, script_without_flag};
use vstd::prelude::*;

verus! {

/// Whether the settings list one of the drivers.
pub open spec fn lists_some(conf: Seq<char>, drivers: Seq<DriverSpecView>) -> bool {
    exists|i: int| 0 <= i < drivers.len() && conf_lists(conf, (#[trigger] drivers[i]).name)
}

/// No line lists a driver without a name.
proof fn lemma_the_nameless_are_not_listed(conf: Seq<char>, d: Seq<char>)
    requires
        d.len() == 0,
    ensures
        !conf_lists(conf, d),
{
    assert forall|i: int| 0 <= i < file_lines(conf).len() implies !lists(
        #[trigger] file_lines(conf)[i],
        d,
    ) by {
        let v = listed(file_lines(conf)[i]);
        lemma_listed(file_lines(conf)[i]);
        if v.contains(d) {
            let k = choose|k: int| 0 <= k < v.len() && v[k] == d;
            assert(v[k].len() > 0);
        }
    }
}

/// Once the drivers are taken out, none of them is listed any more, and none that has a name is
/// included.
pub proof fn law_reverting_unlists_every_driver(
    conf: Seq<char>,
    drivers: Seq<DriverSpecView>,
    i: int,
)
    requires
        0 <= i < drivers.len(),
    ensures
        !conf_lists(conf_without_all(conf, drivers), drivers[i].name),
        drivers[i].name.len() > 0 ==> !conf_includes(
            conf_without_all(conf, drivers),
            drivers[i].name,
        ),
    decreases drivers.len(),
{
    let rest = drivers.drop_last();
    let before = conf_without_all(conf, rest);
    let after = conf_without_all(conf, drivers);
    let name = drivers[i].name;
    if name.len() == 0 {
        lemma_the_nameless_are_not_listed(after, name);
    } else if i == drivers.len() - 1 {
        law_a_removed_driver_is_not_included(before, name);
    } else {
        assert(rest[i] == drivers[i]);
        law_reverting_unlists_every_driver(conf, rest, i);
        lemma_removing_lists_nothing_new(before, drivers.last().name, name);
        law_a_removed_driver_is_not_included(after, name);
        law_removing_what_is_not_listed_changes_nothing(after, name);
    }
}

/// Taking the drivers out drops none of the other drivers.
pub proof fn law_reverting_keeps_the_other_drivers(
    conf: Seq<char>,
    drivers: Seq<DriverSpecView>,
    x: Seq<char>,
)
    requires
        conf_includes(conf, x),
        x.len() > 0,
        forall|i: int| 0 <= i < drivers.len() ==> (#[trigger] drivers[i]).name != x,
    ensures
        conf_includes(conf_without_all(conf, drivers), x),
    decreases drivers.len(),
{
    if drivers.len() > 0 {
        let rest = drivers.drop_last();
        assert forall|i: int| 0 <= i < rest.len() implies (#[trigger] rest[i]).name != x by {
            assert(rest[i] == drivers[i]);
        }
        law_reverting_keeps_the_other_drivers(conf, rest, x);
        assert(drivers[drivers.len() - 1].name != x);
        law_removing_a_driver_keeps_the_others(
            conf_without_all(conf, rest),
            drivers.last().name,
            x,
        );
    }
}

/// Where none of the drivers is listed, taking them out changes nothing.
proof fn lemma_nothing_to_unlist(conf: Seq<char>, drivers: Seq<DriverSpecView>)
    requires
        !lists_some(conf, drivers),
    ensures
        conf_without_all(conf, drivers) == conf,
    decreases drivers.len(),
{
    if drivers.len() > 0 {
        let rest = drivers.drop_last();
        assert(!lists_some(conf, rest)) by {
            if lists_some(conf, rest) {
                let i = choose|i: int|
                    0 <= i < rest.len() && conf_lists(conf, (#[trigger] rest[i]).name);
                assert(conf_lists(conf, drivers[i].name));
            }
        }
        lemma_nothing_to_unlist(conf, rest);
        law_removing_what_is_not_listed_changes_nothing(conf, drivers[drivers.len() - 1].name);
    }
}

/// Whether the cluster bears a trace of the guardian's own: the injection in the Deployment, the flag
/// in the script, or one of the drivers in a list that the guardian owns.
pub open spec fn traced(
    cfg: ConfigView,
    deployment: Deployment,
    conf: Result<SecretKey, GuardianError>,
    script: Result<Option<String>, GuardianError>,
) -> bool {
    ||| deployment.injected()
    ||| has_flag_pair(ended_lines(script_read(script)->Ok_0))
    ||| owns(conf) && lists_some(conf_read(conf)->Ok_0, cfg.drivers)
}

/// Where nothing of the guardian's own is installed, a dry run finds that there is nothing to take
/// out: the settings and the script are read, and no patch follows. So a driver that someone else
/// has listed stays listed.
pub proof fn law_nothing_installed_is_left_as_it_is(
    cfg: ConfigView,
    namespace: Seq<char>,
    deployment: Deployment,
    now_secs: u64,
    later_secs: u64,
    conf: Result<SecretKey, GuardianError>,
    script: Result<Option<String>, GuardianError>,
)
    requires
        conf_read(conf) is Ok,
        script_read(script) is Ok,
        !traced(cfg, deployment, conf, script),
    ensures
        ({
            let start = revert_step(
                cfg,
                namespace,
                deployment,
                now_secs,
                RevertPhaseView::ReadingConf,
                Reply::Secret(conf),
            );
            &&& start is Ask
            &&& start->Ask_1 == read_script()
            &&& revert_step(
                cfg,
                namespace,
                deployment,
                later_secs,
                start->Ask_0,
                Reply::ConfigMap(script),
            ) == RevertStepView::NotNeeded
        }),
{
    let old_conf = conf_read(conf)->Ok_0;
    if !lists_some(old_conf, cfg.drivers) {
        lemma_nothing_to_unlist(old_conf, cfg.drivers);
    }
    law_removing_no_flag_changes_nothing(script_read(script)->Ok_0);
}

/// Where anything of the guardian's own is installed, a dry run takes it out. The settings are
/// replaced by those without the drivers, if they list one of them; then the script by the one without
/// the flag, if it has the flag; and last, in any case, the injection goes out of the Deployment. Each
/// patch follows only if the one before was applied.
pub proof fn law_everything_installed_is_taken_out(
    cfg: ConfigView,
    namespace: Seq<char>,
    deployment: Deployment,
    now_secs: u64,
    conf: Result<SecretKey, GuardianError>,
    script: Result<Option<String>, GuardianError>,
)
    requires
        conf_read(conf) is Ok,
        script_read(script) is Ok,
        traced(cfg, deployment, conf, script),
    ensures
        ({
            let old_conf = conf_read(conf)->Ok_0;
            let old_script = script_read(script)->Ok_0;
            let new_conf = conf_without_all(old_conf, cfg.drivers);
            let new_script = script_without_flag(old_script);
            let start = revert_step(
                cfg,
                namespace,
                deployment,
                now_secs,
                RevertPhaseView::ReadingConf,
                Reply::Secret(conf),
            );
            let step = |phase: RevertPhaseView, reply: Reply|
                revert_step(cfg, namespace, deployment, now_secs, phase, reply);
            let unconf = RevertStepView::Ask(
                RevertPhaseView::PatchingConf(change(old_script, new_script)),
                patch_conf(namespace, new_conf),
            );
            let unscript = RevertStepView::Ask(
                RevertPhaseView::PatchingScript,
                patch_script(namespace, new_script),
            );
            let uninject = removal_stage(cfg, namespace, now_secs);
            let listed = lists_some(old_conf, cfg.drivers);
            let flagged = has_flag_pair(ended_lines(old_script));
            &&& start is Ask
            &&& step(start->Ask_0, Reply::ConfigMap(script)) == if listed {
                unconf
            } else if flagged {
                unscript
            } else {
                uninject
            }
            &&& step(unconf->Ask_0, Reply::Patched(Ok(()))) == if flagged {
                unscript
            } else {
                uninject
            }
            &&& step(unscript->Ask_0, Reply::Patched(Ok(()))) == uninject
            &&& step(uninject->Ask_0, Reply::Patched(Ok(()))) == RevertStepView::Ended(Ok(()))
        }),
{
    let old_conf = conf_read(conf)->Ok_0;
    let old_script = script_read(script)->Ok_0;
    if lists_some(old_conf, cfg.drivers) {
        let i = choose|i: int|
            0 <= i < cfg.drivers.len() && conf_lists(old_conf, (#[trigger] cfg.drivers[i]).name);
        law_reverting_unlists_every_driver(old_conf, cfg.drivers, i);
    } else {
        lemma_nothing_to_unlist(old_conf, cfg.drivers);
    }
    if has_flag_pair(ended_lines(old_script)) {
        law_removing_the_flag_shortens_the_script(old_script);
    } else {
        law_removing_no_flag_changes_nothing(old_script);
    }
}

} // verus!
