//! What holds of every object that the guardian writes into the cluster.
use crate::config::DriverSpecView;
use crate::json::JsonView;
use crate::k8s::{
    driver_secret_patch, extra_mounts, extra_volumes, injection_patch, install_command, key_patch,
    removal_patch, ApplyPatchView,
};
use crate::numbers::decimal;
use crate::wheelcache::{download_job, download_script};
use vstd::prelude::*;

verus! {

/// The names of the members of an object, in their order.
pub open spec fn keys(j: JsonView) -> Seq<Seq<char>> {
    Seq::new(j->Obj_0.len(), |i: int| j->Obj_0[i].0)
}

/// The value of a member of an object, by its place.
pub open spec fn value(j: JsonView, i: int) -> JsonView {
    j->Obj_0[i].1
}

/// Whether `j` is an object with members of these names, in this order.
pub open spec fn has_keys(j: JsonView, names: Seq<Seq<char>>) -> bool {
    j is Obj && keys(j) =~= names
}

/// Whether `j` is an object with one member, of this name and value.
pub open spec fn is_single(j: JsonView, key: Seq<char>, v: JsonView) -> bool {
    has_keys(j, seq![key]) && value(j, 0) == v
}

/// Whether `j` is an object with two members, of these names and values.
pub open spec fn is_pair(
    j: JsonView,
    key: Seq<char>,
    v: JsonView,
    key2: Seq<char>,
    v2: JsonView,
) -> bool {
    has_keys(j, seq![key].push(key2)) && value(j, 0) == v && value(j, 1) == v2
}

/// Whether `j` is an array of texts that runs a script with a shell.
pub open spec fn runs_in_a_shell(j: JsonView, script: Seq<char>) -> bool {
    &&& j is Arr && j->Arr_0.len() == 3
    &&& j->Arr_0[0] == JsonView::Str("/bin/sh"@)
    &&& j->Arr_0[1] == JsonView::Str("-c"@)
    &&& j->Arr_0[2] == JsonView::Str(script)
}

/// Whether the object has a kind, an API version, a name and a namespace, in front of one more member
/// of the given name.
pub open spec fn is_headed(
    j: JsonView,
    api_version: Seq<char>,
    kind: Seq<char>,
    namespace: Seq<char>,
    name: Seq<char>,
    key: Seq<char>,
) -> bool {
    &&& has_keys(j, seq!["apiVersion"@].push("kind"@).push("metadata"@).push(key))
    &&& value(j, 0) == JsonView::Str(api_version)
    &&& value(j, 1) == JsonView::Str(kind)
    &&& is_pair(
        value(j, 2),
        "name"@,
        JsonView::Str(name),
        "namespace"@,
        JsonView::Str(namespace),
    )
}

/// The Job that fills the wheel cache runs the download of the driver's package in a shell, with the
/// given image, in a directory of the volume of the given claim. It is tried once more if it fails,
/// never in the same pod, and is gone five minutes after its end. Its pods can be found by the label
/// that carries its name.
pub proof fn law_the_job_fills_the_cache(
    namespace: Seq<char>,
    pvc_name: Seq<char>,
    image: Seq<char>,
    driver: DriverSpecView,
)
    ensures
        ({
            let name = "neutron-ml2-wheelcache-"@ + driver.name;
            let job = download_job(namespace, pvc_name, image, driver);
            let body = value(job, 3);
            let template = value(body, 2);
            let pod = value(template, 1);
            let containers = value(pod, 1);
            let container = containers->Arr_0[0];
            let volumes = value(pod, 2);
            &&& is_headed(job, "batch/v1"@, "Job"@, namespace, name, "spec"@)
            &&& has_keys(
                body,
                seq!["backoffLimit"@].push("ttlSecondsAfterFinished"@).push("template"@),
            )
            &&& value(body, 0) == JsonView::Int(1)
            &&& value(body, 1) == JsonView::Int(300)
            &&& has_keys(template, seq!["metadata"@].push("spec"@))
            &&& has_keys(value(template, 0), seq!["labels"@])
            &&& is_single(value(value(template, 0), 0), "job-name"@, JsonView::Str(name))
            &&& has_keys(pod, seq!["restartPolicy"@].push("containers"@).push("volumes"@))
            &&& value(pod, 0) == JsonView::Str("Never"@)
            &&& containers is Arr && containers->Arr_0.len() == 1
            &&& has_keys(
                container,
                seq!["name"@].push("image"@).push("command"@).push("volumeMounts"@),
            )
            &&& value(container, 0) == JsonView::Str("pip-download"@)
            &&& value(container, 1) == JsonView::Str(image)
            &&& runs_in_a_shell(value(container, 2), download_script(driver))
            &&& value(container, 3) is Arr && value(container, 3)->Arr_0.len() == 1
            &&& is_pair(
                value(container, 3)->Arr_0[0],
                "name"@,
                JsonView::Str("wheelcache"@),
                "mountPath"@,
                JsonView::Str("/wheelcache"@),
            )
            &&& volumes is Arr && volumes->Arr_0.len() == 1
            &&& has_keys(volumes->Arr_0[0], seq!["name"@].push("persistentVolumeClaim"@))
            &&& value(volumes->Arr_0[0], 0) == JsonView::Str("wheelcache"@)
            &&& is_single(value(volumes->Arr_0[0], 1), "claimName"@, JsonView::Str(pvc_name))
        }),
{
}

/// The pod template that a patch of the Deployment sets, as the patch has it.
pub open spec fn template_in(p: ApplyPatchView) -> JsonView {
    value(value(p.body, 3), 0)
}

/// Whether a patch is one of the pod template of the Deployment of the given name, applied as the
/// guardian and over all others, with the time as its mark.
pub open spec fn is_template_patch(
    p: ApplyPatchView,
    namespace: Seq<char>,
    deployment_name: Seq<char>,
    time: u64,
) -> bool {
    &&& p.name == deployment_name
    &&& p.manager == "neutron-ml2-guardian"@
    &&& p.force
    &&& is_headed(p.body, "apps/v1"@, "Deployment"@, namespace, deployment_name, "spec"@)
    &&& has_keys(value(p.body, 3), seq!["template"@])
    &&& template_in(p) is Obj && template_in(p)->Obj_0.len() > 0
    &&& keys(template_in(p))[0] == "metadata"@
    &&& has_keys(value(template_in(p), 0), seq!["annotations"@])
    &&& is_single(
        value(value(template_in(p), 0), 0),
        "neutron-ml2-guardian/restarted-at"@,
        JsonView::Str(decimal(time as nat)),
    )
}

/// A removal is a patch of the pod template that sets its mark and nothing else.
pub proof fn law_a_removal_marks_the_template(
    namespace: Seq<char>,
    deployment_name: Seq<char>,
    time: u64,
)
    ensures
        is_template_patch(
            removal_patch(namespace, deployment_name, time),
            namespace,
            deployment_name,
            time,
        ),
        has_keys(template_in(removal_patch(namespace, deployment_name, time)), seq!["metadata"@]),
{
}

/// Whether `j` is the mount of the volume that the drivers are installed into.
pub open spec fn mounts_the_drivers(j: JsonView) -> bool {
    is_pair(
        j,
        "name"@,
        JsonView::Str("ml2-driver-plugins"@),
        "mountPath"@,
        JsonView::Str("/opt/ml2-plugins"@),
    )
}

/// The injection sets one init container, which runs the install command in a shell with the given
/// image, and sees the wheel cache where the command looks for wheels, for reading only, and the
/// volume of the drivers where the command installs them. The main container sees that volume at the
/// same place, and Python looks for modules there. The volume of the drivers is an empty one, and the
/// wheel cache is the one of the given claim, for reading only. Behind them stand the mounts and the
/// volumes of the drivers' own settings.
pub proof fn law_what_the_injection_sets(
    namespace: Seq<char>,
    deployment_name: Seq<char>,
    main_container_name: Seq<char>,
    image: Seq<char>,
    wheelcache_pvc: Seq<char>,
    drivers: Seq<DriverSpecView>,
    time: u64,
)
    ensures
        ({
            let p = injection_patch(
                namespace,
                deployment_name,
                main_container_name,
                image,
                wheelcache_pvc,
                drivers,
                time,
            );
            let pod = value(template_in(p), 1);
            let volumes = value(pod, 0);
            let init = value(pod, 1)->Arr_0[0];
            let main = value(pod, 2)->Arr_0[0];
            let cache = volumes->Arr_0[1];
            let seen = value(init, 3)->Arr_0;
            let mounts = value(main, 2)->Arr_0;
            &&& is_template_patch(p, namespace, deployment_name, time)
            &&& has_keys(template_in(p), seq!["metadata"@].push("spec"@))
            &&& has_keys(pod, seq!["volumes"@].push("initContainers"@).push("containers"@))
            &&& value(pod, 1) is Arr && value(pod, 1)->Arr_0.len() == 1
            &&& value(pod, 2) is Arr && value(pod, 2)->Arr_0.len() == 1
            &&& has_keys(init, seq!["name"@].push("image"@).push("command"@).push("volumeMounts"@))
            &&& value(init, 0) == JsonView::Str("ml2-driver-injector"@)
            &&& value(init, 1) == JsonView::Str(image)
            &&& runs_in_a_shell(value(init, 2), install_command(drivers))
            &&& value(init, 3) is Arr && seen.len() == 2
            &&& mounts_the_drivers(seen[0])
            &&& has_keys(seen[1], seq!["name"@].push("mountPath"@).push("readOnly"@))
            &&& value(seen[1], 0) == JsonView::Str("ml2-wheelcache"@)
            &&& value(seen[1], 1) == JsonView::Str("/wheelcache"@)
            &&& value(seen[1], 2) == JsonView::Bool(true)
            &&& has_keys(main, seq!["name"@].push("env"@).push("volumeMounts"@))
            &&& value(main, 0) == JsonView::Str(main_container_name)
            &&& value(main, 1) is Arr && value(main, 1)->Arr_0.len() == 1
            &&& is_pair(
                value(main, 1)->Arr_0[0],
                "name"@,
                JsonView::Str("PYTHONPATH"@),
                "value"@,
                JsonView::Str("/opt/ml2-plugins"@),
            )
            &&& value(main, 2) is Arr && mounts.len() == 1 + extra_mounts(drivers).len()
            &&& mounts_the_drivers(mounts[0])
            &&& mounts.skip(1) == extra_mounts(drivers)
            &&& volumes is Arr && volumes->Arr_0.len() == 2 + extra_volumes(drivers).len()
            &&& is_pair(
                volumes->Arr_0[0],
                "name"@,
                JsonView::Str("ml2-driver-plugins"@),
                "emptyDir"@,
                JsonView::Obj(Seq::empty()),
            )
            &&& has_keys(cache, seq!["name"@].push("persistentVolumeClaim"@))
            &&& value(cache, 0) == JsonView::Str("ml2-wheelcache"@)
            &&& is_pair(
                value(cache, 1),
                "claimName"@,
                JsonView::Str(wheelcache_pvc),
                "readOnly"@,
                JsonView::Bool(true),
            )
            &&& volumes->Arr_0.skip(2) == extra_volumes(drivers)
        }),
{
    let p = injection_patch(
        namespace,
        deployment_name,
        main_container_name,
        image,
        wheelcache_pvc,
        drivers,
        time,
    );
    let pod = value(template_in(p), 1);
    let mounts = value(value(pod, 2)->Arr_0[0], 2)->Arr_0;
    assert(mounts.skip(1) =~= extra_mounts(drivers));
    assert(value(pod, 0)->Arr_0.skip(2) =~= extra_volumes(drivers));
}

/// The Secret with a driver's own settings: the one that is referred to, or else the one that the
/// guardian writes if there is anything to write.
pub open spec fn settings_secret(driver: DriverSpecView) -> Option<Seq<char>> {
    match driver.extra_config_secret_ref {
        Some(name) => Some(name),
        None => if driver.extra_config_secret_data.len() > 0 {
            Some("neutron-ml2-"@ + driver.name + "-config"@)
        } else {
            None
        },
    }
}

/// The drivers that have settings of their own, in their order.
pub open spec fn with_settings(drivers: Seq<DriverSpecView>) -> Seq<DriverSpecView> {
    drivers.filter(|d: DriverSpecView| settings_secret(d) is Some)
}

/// There is one mount and one volume for each driver with settings of its own, in the order of the
/// drivers, and none besides. The volume is the driver's Secret; the mount shows the entry
/// `<driver>.ini` of it as `<driver>.conf` in the directory that `neutron-server` reads, for reading
/// only. Mount and volume have the same name.
pub proof fn law_own_settings_are_mounted_one_by_one(drivers: Seq<DriverSpecView>)
    ensures
        ({
            let some = with_settings(drivers);
            let mounts = extra_mounts(drivers);
            let volumes = extra_volumes(drivers);
            &&& mounts.len() == some.len()
            &&& volumes.len() == some.len()
            &&& forall|i: int|
                0 <= i < some.len() ==> {
                    let m = #[trigger] mounts[i];
                    &&& has_keys(
                        m,
                        seq!["name"@].push("mountPath"@).push("subPath"@).push("readOnly"@),
                    )
                    &&& value(m, 0) == JsonView::Str("ml2-extra-config-"@ + some[i].name)
                    &&& value(m, 1) == JsonView::Str(
                        "/etc/neutron/ml2-extra-conf.d"@ + "/"@ + some[i].name + ".conf"@,
                    )
                    &&& value(m, 2) == JsonView::Str(some[i].name + ".ini"@)
                    &&& value(m, 3) == JsonView::Bool(true)
                }
            &&& forall|i: int|
                0 <= i < some.len() ==> {
                    let v = #[trigger] volumes[i];
                    &&& has_keys(v, seq!["name"@].push("secret"@))
                    &&& value(v, 0) == JsonView::Str("ml2-extra-config-"@ + some[i].name)
                    &&& is_single(
                        value(v, 1),
                        "secretName"@,
                        JsonView::Str(settings_secret(some[i])->0),
                    )
                }
        }),
    decreases drivers.len(),
{
    reveal(Seq::filter);
    if drivers.len() > 0 {
        law_own_settings_are_mounted_one_by_one(drivers.drop_last());
        let some = with_settings(drivers);
        let fewer = with_settings(drivers.drop_last());
        let last = drivers.last();
        if settings_secret(last) is Some {
            assert(some == fewer.push(last));
            assert forall|i: int| 0 <= i < fewer.len() implies some[i] == fewer[i] by {}
        }
    }
}

/// Whether a patch sets one key of an object and nothing else, applied as the guardian and over all
/// others.
pub open spec fn sets_one_key(
    p: ApplyPatchView,
    kind: Seq<char>,
    part: Seq<char>,
    namespace: Seq<char>,
    name: Seq<char>,
    key: Seq<char>,
    text: Seq<char>,
) -> bool {
    &&& p.name == name
    &&& p.manager == "neutron-ml2-guardian"@
    &&& p.force
    &&& is_headed(p.body, "v1"@, kind, namespace, name, part)
    &&& is_single(value(p.body, 3), key, JsonView::Str(text))
}

/// The patch of a key sets that key to the given text, and nothing else.
pub proof fn law_a_key_patch_sets_one_key(
    kind: Seq<char>,
    part: Seq<char>,
    namespace: Seq<char>,
    name: Seq<char>,
    key: Seq<char>,
    text: Seq<char>,
)
    ensures
        sets_one_key(
            key_patch(kind, part, namespace, name, key, text),
            kind,
            part,
            namespace,
            name,
            key,
            text,
        ),
{
}

/// A driver's own settings are written, as they are given, under `<driver>.ini` into a Secret that is
/// named after the driver; if none are given as text, nothing is written.
pub proof fn law_own_settings_are_written_as_given(namespace: Seq<char>, driver: DriverSpecView)
    ensures
        match driver_secret_patch(namespace, driver) {
            Some(p) => driver.extra_config_secret_data.len() > 0 && sets_one_key(
                p,
                "Secret"@,
                "stringData"@,
                namespace,
                "neutron-ml2-"@ + driver.name + "-config"@,
                driver.name + ".ini"@,
                driver.extra_config_secret_data,
            ),
            None => driver.extra_config_secret_data.len() == 0,
        },
{
}

} // verus!
