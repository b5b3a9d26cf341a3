//! What holds of every patch.
use crate::config::DriverSpecView;
use crate::json::{object, JsonView};
use crate::k8s::{
    driver_secret_patch, extra_mounts, extra_volume_name, extra_volumes, injection, injection_patch,
    install_command, removal_patch, ApplyPatchView, Deployment, INJECTOR_CONTAINER_NAME,
};
use crate::numbers::{decimal, digit, number};
use crate::reconcile::server_script::EXTRA_CONF_DIR;
use crate::text::starts_with;
use vstd::prelude::*;

verus! {

/// The drivers are installed without a look at the network.
pub proof fn law_drivers_are_installed_offline(drivers: Seq<DriverSpecView>)
    ensures
        starts_with(install_command(drivers), "pip install --no-index "@),
{
    let head = "pip install --no-index "@;
    let command = install_command(drivers);
    assert(command.take(head.len() as int) =~= head);
    assert(command.subrange(0, head.len() as int) =~= head);
}

/// Writing a number down and reading it gives the number.
pub proof fn lemma_number_of_decimal(n: nat)
    ensures
        number(decimal(n)) == n,
    decreases n,
{
    if n < 10 {
        assert(decimal(n) =~= seq![digit(n)]);
        assert(seq![digit(n)].drop_last() =~= Seq::<char>::empty());
        reveal_with_fuel(number, 2);
    } else {
        lemma_number_of_decimal(n / 10);
        assert(decimal(n).drop_last() =~= decimal(n / 10));
        assert(decimal(n).last() == digit(n % 10));
    }
}

/// The pod template that a patch of the Deployment sets.
pub open spec fn template_of(p: ApplyPatchView) -> JsonView {
    p.body->Obj_0[3].1->Obj_0[0].1
}

/// The containers and volumes that a patch of the Deployment sets.
pub open spec fn pod_of(p: ApplyPatchView) -> JsonView {
    template_of(p)->Obj_0[1].1
}

/// The text of the mark that a patch of the Deployment sets.
pub open spec fn mark_of(p: ApplyPatchView) -> JsonView {
    template_of(p)->Obj_0[0].1->Obj_0[0].1->Obj_0[0].1
}

/// Two patches with the same drivers set the same containers and volumes; they differ only in their
/// marks, which differ if the times do. So a patch at a new time always starts new pods.
pub proof fn law_a_patch_at_a_new_time_starts_new_pods(
    namespace: Seq<char>,
    deployment_name: Seq<char>,
    main_container_name: Seq<char>,
    image: Seq<char>,
    wheelcache_pvc: Seq<char>,
    drivers: Seq<DriverSpecView>,
    time: u64,
    later: u64,
)
    ensures
        ({
            let p = injection_patch(
                namespace,
                deployment_name,
                main_container_name,
                image,
                wheelcache_pvc,
                drivers,
                time,
            );
            let q = injection_patch(
                namespace,
                deployment_name,
                main_container_name,
                image,
                wheelcache_pvc,
                drivers,
                later,
            );
            &&& pod_of(p) == pod_of(q)
            &&& time != later ==> mark_of(p) != mark_of(q) && template_of(p) != template_of(q)
        }),
{
    lemma_number_of_decimal(time as nat);
    lemma_number_of_decimal(later as nat);
    let p = injection_patch(
        namespace,
        deployment_name,
        main_container_name,
        image,
        wheelcache_pvc,
        drivers,
        time,
    );
    let q = injection_patch(
        namespace,
        deployment_name,
        main_container_name,
        image,
        wheelcache_pvc,
        drivers,
        later,
    );
    assert(mark_of(p) == JsonView::Str(decimal(time as nat)));
    assert(mark_of(q) == JsonView::Str(decimal(later as nat)));
}

/// The patch that takes the injection out sets nothing in the pod template but its mark.
pub proof fn law_a_removal_sets_nothing_but_the_mark(
    namespace: Seq<char>,
    deployment_name: Seq<char>,
    time: u64,
)
    ensures
        ({
            let p = removal_patch(namespace, deployment_name, time);
            &&& template_of(p)->Obj_0.len() == 1
            &&& template_of(p)->Obj_0[0].0 == "metadata"@
            &&& mark_of(p) == JsonView::Str(decimal(time as nat))
        }),
{
}

/// The mount of a driver's own settings.
pub open spec fn settings_mount(driver: DriverSpecView) -> JsonView {
    object().with_text("name"@, extra_volume_name(driver)).with_text(
        "mountPath"@,
        EXTRA_CONF_DIR@ + "/"@ + driver.name + ".conf"@,
    ).with_text("subPath"@, driver.name + ".ini"@).with("readOnly"@, JsonView::Bool(true))
}

/// The volume with a driver's own settings, from the Secret of the given name.
pub open spec fn settings_volume(driver: DriverSpecView, secret: Seq<char>) -> JsonView {
    object().with_text("name"@, extra_volume_name(driver)).with(
        "secret"@,
        object().with_text("secretName"@, secret),
    )
}

/// The settings of every driver that has any are mounted where `neutron-server` reads them, whether
/// the guardian writes them or they are in a Secret that exists already.
pub proof fn law_every_drivers_settings_are_mounted(drivers: Seq<DriverSpecView>, i: int)
    requires
        0 <= i < drivers.len(),
        drivers[i].has_extra_config(),
    ensures
        extra_mounts(drivers).contains(settings_mount(drivers[i])),
        drivers[i].extra_config_secret_name() is Some,
        extra_volumes(drivers).contains(
            settings_volume(drivers[i], drivers[i].extra_config_secret_name()->0),
        ),
    decreases drivers.len(),
{
    let rest = drivers.drop_last();
    let mounts = extra_mounts(drivers);
    let volumes = extra_volumes(drivers);
    if i == drivers.len() - 1 {
        assert(mounts[mounts.len() - 1] == settings_mount(drivers[i]));
        assert(volumes[volumes.len() - 1] == settings_volume(
            drivers[i],
            drivers[i].extra_config_secret_name()->0,
        ));
    } else {
        assert(rest[i] == drivers[i]);
        law_every_drivers_settings_are_mounted(rest, i);
        let m = settings_mount(drivers[i]);
        let v = settings_volume(drivers[i], drivers[i].extra_config_secret_name()->0);
        let j = choose|j: int| 0 <= j < extra_mounts(rest).len() && extra_mounts(rest)[j] == m;
        let k = choose|k: int| 0 <= k < extra_volumes(rest).len() && extra_volumes(rest)[k] == v;
        assert(mounts[j] == m);
        assert(volumes[k] == v);
    }
}

/// A Secret that a driver only refers to is never written.
pub proof fn law_a_secret_that_exists_already_is_not_written(
    namespace: Seq<char>,
    driver: DriverSpecView,
)
    requires
        driver.extra_config_secret_ref is Some,
        !driver.has_both_extra_configs(),
    ensures
        driver_secret_patch(namespace, driver) is None,
{
}

/// The patch puts one init container in: the one that the injection is known by, with the image that
/// the main container of the Deployment has.
pub proof fn law_the_injector_has_the_image_of_the_main_container(
    namespace: Seq<char>,
    deployment: Deployment,
    deployment_name: Seq<char>,
    main_container_name: Seq<char>,
    wheelcache_pvc: Seq<char>,
    drivers: Seq<DriverSpecView>,
    time: u64,
)
    requires
        deployment.image(main_container_name) is Some,
    ensures
        ({
            let r = injection(
                namespace,
                deployment,
                deployment_name,
                main_container_name,
                wheelcache_pvc,
                drivers,
                time,
            );
            let init = pod_of(r->Ok_0)->Obj_0[1];
            &&& r is Ok
            &&& init.0 == "initContainers"@
            &&& init.1->Arr_0.len() == 1
            &&& init.1->Arr_0[0]->Obj_0[0] == ("name"@, JsonView::Str(INJECTOR_CONTAINER_NAME@))
            &&& init.1->Arr_0[0]->Obj_0[1] == (
                "image"@,
                JsonView::Str(deployment.image(main_container_name)->0),
            )
        }),
{
}

} // verus!
