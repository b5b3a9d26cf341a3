//! What the guardian reads out of the objects of the cluster, and the patches that it applies to
//! them. Everything is in the namespace of the guarded Deployment.
use crate::bytes::{text_from_utf8, utf8_refusal};
use crate::config::{drivers_view, opt_text, DriverSpec, DriverSpecView};
use crate::error::{text_result, ErrorView, GuardianError};
use crate::json::{array, object, string, Array, Json, JsonView, Object};
use crate::numbers::{decimal, decimal_of};
use crate::text::{concat, join, join_strings, same_text, texts};
use vstd::prelude::*;
use vstd::utf8::{decode_utf8, valid_utf8};

pub use crate::reconcile::server_script::EXTRA_CONF_DIR;

verus! {

/// The name of the init container that installs the drivers. A Deployment with an init container of
/// this name has the injection.
pub const INJECTOR_CONTAINER_NAME: &'static str = "ml2-driver-injector";

/// The volume that the drivers are installed into.
pub const PLUGIN_VOLUME_NAME: &'static str = "ml2-driver-plugins";

/// Where that volume is mounted.
pub const PLUGIN_MOUNT_PATH: &'static str = "/opt/ml2-plugins";

/// The volume with the wheel cache.
pub const WHEELCACHE_VOLUME_NAME: &'static str = "ml2-wheelcache";

/// Where the wheel cache is mounted.
pub const WHEELCACHE_MOUNT_PATH: &'static str = "/wheelcache";

/// The owner of the fields that the guardian sets.
pub const FIELD_MANAGER: &'static str = "neutron-ml2-guardian";

/// A container: its name, and its image if it has one.
#[derive(Debug)]
pub struct Container {
    pub name: String,
    pub image: Option<String>,
}

/// The containers of a pod template.
#[derive(Debug)]
pub struct PodSpec {
    pub containers: Vec<Container>,
    pub init_containers: Option<Vec<Container>>,
}

/// What a Deployment asks for: the labels of its pods, and the containers of its pod template.
#[derive(Debug)]
pub struct DeploymentSpec {
    pub match_labels: Option<Vec<(String, String)>>,
    pub pod_spec: Option<PodSpec>,
}

/// A Deployment.
#[derive(Debug)]
pub struct Deployment {
    pub spec: Option<DeploymentSpec>,
}

/// A condition of a pod.
#[derive(Debug)]
pub struct Condition {
    pub type_: String,
    pub status: String,
}

/// A pod: its name, and its conditions if it reports any.
#[derive(Debug)]
pub struct Pod {
    pub name: Option<String>,
    pub conditions: Option<Vec<Condition>>,
}

/// What became of a command that was run in a pod.
#[derive(Debug)]
pub enum ExecCapture {
    /// The command could not be started, for the given reason.
    Refused(String),
    /// There was no standard output to read.
    NoStdout,
    /// Reading the standard output failed, for the given reason.
    Broken(String),
    /// The command ended, and this is all that it wrote to its standard output. A command that failed
    /// has the failure beside it.
    Ended { stdout: String, failure: Option<String> },
}

/// A field of an object, as the API server keeps track of it: the manager that has set it, the part
/// of the object that it stands in, and its name there. Both names have `f:` in front.
#[derive(Debug)]
pub struct ManagedField {
    pub manager: String,
    pub part: String,
    pub name: String,
}

/// A patch to apply to one object of the cluster, by server-side apply.
#[derive(Debug)]
pub struct ApplyPatch {
    /// The name of the object.
    pub name: String,
    /// The owner of the fields that the patch sets.
    pub manager: String,
    /// Whether fields are taken over from other owners.
    pub force: bool,
    /// The fields, with the kind and the name of the object.
    pub body: Json,
}

/// An [`ApplyPatch`] with its texts as sequences of characters.
pub struct ApplyPatchView {
    pub name: Seq<char>,
    pub manager: Seq<char>,
    pub force: bool,
    pub body: JsonView,
}

impl View for ApplyPatch {
    type V = ApplyPatchView;

    open spec fn view(&self) -> ApplyPatchView {
        ApplyPatchView {
            name: self.name@,
            manager: self.manager@,
            force: self.force,
            body: self.body@,
        }
    }
}

/// The image of the first container with the given name, if there is one and it has an image.
pub open spec fn image_of(containers: Seq<Container>, name: Seq<char>) -> Option<Seq<char>>
    decreases containers.len(),
{
    if containers.len() == 0 {
        None
    } else if containers[0].name@ == name {
        opt_text(containers[0].image)
    } else {
        image_of(containers.drop_first(), name)
    }
}

/// Whether a container has the given name.
pub open spec fn some_named(containers: Seq<Container>, name: Seq<char>) -> bool {
    exists|i: int| 0 <= i < containers.len() && (#[trigger] containers[i]).name@ == name
}

impl Deployment {
    /// The containers of the pod template.
    pub open spec fn containers(self) -> Seq<Container> {
        match self.spec {
            Some(s) => match s.pod_spec {
                Some(p) => p.containers@,
                None => Seq::empty(),
            },
            None => Seq::empty(),
        }
    }

    /// The init containers of the pod template.
    pub open spec fn init_containers(self) -> Seq<Container> {
        match self.spec {
            Some(s) => match s.pod_spec {
                Some(p) => match p.init_containers {
                    Some(cs) => cs@,
                    None => Seq::empty(),
                },
                None => Seq::empty(),
            },
            None => Seq::empty(),
        }
    }

    /// The labels of the pods.
    pub open spec fn labels(self) -> Seq<(String, String)> {
        match self.spec {
            Some(s) => match s.match_labels {
                Some(ls) => ls@,
                None => Seq::empty(),
            },
            None => Seq::empty(),
        }
    }

    /// Whether the injection is there.
    pub open spec fn injected(self) -> bool {
        some_named(self.init_containers(), INJECTOR_CONTAINER_NAME@)
    }

    /// The image of the container with the given name.
    pub open spec fn image(self, name: Seq<char>) -> Option<Seq<char>> {
        image_of(self.containers(), name)
    }
}

/// Each label as `key=value`.
pub open spec fn label_terms(labels: Seq<(String, String)>) -> Seq<Seq<char>> {
    Seq::new(labels.len(), |i: int| labels[i].0@ + "="@ + labels[i].1@)
}

/// Whether a condition says that its pod is ready.
pub open spec fn says_ready(c: Condition) -> bool {
    c.type_@ == "Ready"@ && c.status@ == "True"@
}

/// Whether one of the conditions says that the pod is ready.
pub open spec fn some_ready(conditions: Seq<Condition>) -> bool {
    exists|i: int| 0 <= i < conditions.len() && says_ready(#[trigger] conditions[i])
}

/// Whether a pod reports that it is ready.
pub open spec fn is_ready(pod: Pod) -> bool {
    match pod.conditions {
        Some(cs) => some_ready(cs@),
        None => false,
    }
}

/// The name of the first pod that is ready and has a name.
pub open spec fn ready_pod(pods: Seq<Pod>) -> Option<Seq<char>>
    decreases pods.len(),
{
    if pods.len() == 0 {
        None
    } else if is_ready(pods[0]) && pods[0].name is Some {
        opt_text(pods[0].name)
    } else {
        ready_pod(pods.drop_first())
    }
}

/// What [`K8s::exec_capture`] returns.
pub open spec fn captured(capture: ExecCapture) -> Result<Seq<char>, ErrorView> {
    match capture {
        ExecCapture::Refused(why) => Err(ErrorView::Kube(why@)),
        ExecCapture::NoStdout => Err(ErrorView::PodExec("no stdout stream"@)),
        ExecCapture::Broken(why) => Err(ErrorView::PodExec(why@)),
        ExecCapture::Ended { stdout, failure } => match failure {
            Some(why) => Err(ErrorView::PodExec("command failed: "@ + why@)),
            None => Ok(stdout@),
        },
    }
}

/// Whether a field is the key `key` of a Secret, set by `manager`. A Secret has its keys in `data`;
/// they can also be written through `stringData`.
pub open spec fn is_key_of(field: ManagedField, manager: Seq<char>, key: Seq<char>) -> bool {
    &&& field.manager@ == manager
    &&& field.part@ == "f:data"@ || field.part@ == "f:stringData"@
    &&& field.name@ == "f:"@ + key
}

/// What [`K8s::manages_key`] returns.
pub open spec fn key_managed(fields: Seq<ManagedField>, manager: Seq<char>, key: Seq<char>) -> bool {
    exists|i: int| 0 <= i < fields.len() && is_key_of(#[trigger] fields[i], manager, key)
}

/// What [`K8s::get_secret_key`] returns.
pub open spec fn secret_text(name: Seq<char>, key: Seq<char>, value: Option<Vec<u8>>) -> Result<
    Seq<char>,
    ErrorView,
> {
    match value {
        None => Err(ErrorView::Config("secret "@ + name + " has no key "@ + key)),
        Some(bytes) => if valid_utf8(bytes@) {
            Ok(decode_utf8(bytes@))
        } else {
            Err(
                ErrorView::Internal(
                    "secret "@ + name + "/"@ + key + " is not valid UTF-8: "@ + utf8_refusal(bytes@),
                ),
            )
        },
    }
}

/// What [`K8s::get_configmap_key`] returns.
pub open spec fn configmap_text(name: Seq<char>, key: Seq<char>, value: Option<String>) -> Result<
    Seq<char>,
    ErrorView,
> {
    match value {
        None => Err(ErrorView::Config("configmap "@ + name + " has no key "@ + key)),
        Some(s) => Ok(s@),
    }
}

/// The name of an object, as its metadata.
pub open spec fn object_name(namespace: Seq<char>, name: Seq<char>) -> JsonView {
    object().with_text("name"@, name).with_text("namespace"@, namespace)
}

/// The patch of one key of an object with text values: `kind` names the kind of object, `field` the
/// map that the key is in.
pub open spec fn key_patch(
    kind: Seq<char>,
    field: Seq<char>,
    namespace: Seq<char>,
    name: Seq<char>,
    key: Seq<char>,
    value: Seq<char>,
) -> ApplyPatchView {
    ApplyPatchView {
        name,
        manager: FIELD_MANAGER@,
        force: true,
        body: object().with_text("apiVersion"@, "v1"@).with_text("kind"@, kind).with(
            "metadata"@,
            object_name(namespace, name),
        ).with(field, object().with_text(key, value)),
    }
}

/// The Secret patch that writes a driver's own settings, if they are given as text.
pub open spec fn driver_secret_patch(namespace: Seq<char>, driver: DriverSpecView) -> Option<
    ApplyPatchView,
> {
    if driver.extra_config_secret_data.len() == 0 {
        None
    } else {
        Some(
            key_patch(
                "Secret"@,
                "stringData"@,
                namespace,
                driver.managed_secret_name(),
                driver.name + ".ini"@,
                driver.extra_config_secret_data,
            ),
        )
    }
}

/// The options that make `pip` look for wheels in the cache of each driver.
pub open spec fn find_links(drivers: Seq<DriverSpecView>) -> Seq<Seq<char>> {
    Seq::new(
        drivers.len(),
        |i: int| "--find-links="@ + (WHEELCACHE_MOUNT_PATH@ + "/"@ + drivers[i].name),
    )
}

/// The packages of the drivers.
pub open spec fn packages(drivers: Seq<DriverSpecView>) -> Seq<Seq<char>> {
    Seq::new(drivers.len(), |i: int| drivers[i].pip_package)
}

/// The command that installs the drivers from the wheel cache, never from the network.
pub open spec fn install_command(drivers: Seq<DriverSpecView>) -> Seq<char> {
    "pip install --no-index "@ + join(find_links(drivers), " "@) + " --target="@
        + PLUGIN_MOUNT_PATH@ + " "@ + join(packages(drivers), " "@)
}

/// The volume with a driver's own settings.
pub open spec fn extra_volume_name(driver: DriverSpecView) -> Seq<char> {
    "ml2-extra-config-"@ + driver.name
}

/// The volumes with the drivers' own settings, one for each driver that has any.
pub open spec fn extra_volumes(drivers: Seq<DriverSpecView>) -> Seq<JsonView>
    decreases drivers.len(),
{
    if drivers.len() == 0 {
        Seq::empty()
    } else {
        let rest = extra_volumes(drivers.drop_last());
        match drivers.last().extra_config_secret_name() {
            Some(secret) => rest.push(
                object().with_text("name"@, extra_volume_name(drivers.last())).with(
                    "secret"@,
                    object().with_text("secretName"@, secret),
                ),
            ),
            None => rest,
        }
    }
}

/// The mounts of the drivers' own settings: `<driver>.ini` of the Secret as `<driver>.conf` in the
/// directory that `neutron-server` reads.
pub open spec fn extra_mounts(drivers: Seq<DriverSpecView>) -> Seq<JsonView>
    decreases drivers.len(),
{
    if drivers.len() == 0 {
        Seq::empty()
    } else {
        let rest = extra_mounts(drivers.drop_last());
        let name = drivers.last().name;
        match drivers.last().extra_config_secret_name() {
            Some(secret) => rest.push(
                object().with_text("name"@, extra_volume_name(drivers.last())).with_text(
                    "mountPath"@,
                    EXTRA_CONF_DIR@ + "/"@ + name + ".conf"@,
                ).with_text("subPath"@, name + ".ini"@).with("readOnly"@, JsonView::Bool(true)),
            ),
            None => rest,
        }
    }
}

/// The annotation whose change makes Kubernetes start new pods.
pub open spec fn restart_mark(restarted_at: u64) -> JsonView {
    object().with(
        "annotations"@,
        object().with_text("neutron-ml2-guardian/restarted-at"@, decimal(restarted_at as nat)),
    )
}

/// A patch of the pod template of a Deployment.
pub open spec fn template_patch(
    namespace: Seq<char>,
    name: Seq<char>,
    template: JsonView,
) -> ApplyPatchView {
    ApplyPatchView {
        name,
        manager: FIELD_MANAGER@,
        force: true,
        body: object().with_text("apiVersion"@, "apps/v1"@).with_text("kind"@, "Deployment"@).with(
            "metadata"@,
            object_name(namespace, name),
        ).with("spec"@, object().with("template"@, template)),
    }
}

/// The mount of the volume that the drivers are installed into.
pub open spec fn plugin_mount() -> JsonView {
    object().with_text("name"@, PLUGIN_VOLUME_NAME@).with_text("mountPath"@, PLUGIN_MOUNT_PATH@)
}

/// The init container that installs the drivers.
pub open spec fn injector(image: Seq<char>, drivers: Seq<DriverSpecView>) -> JsonView {
    object().with_text("name"@, INJECTOR_CONTAINER_NAME@).with_text("image"@, image).with(
        "command"@,
        array().and(JsonView::Str("/bin/sh"@)).and(JsonView::Str("-c"@)).and(
            JsonView::Str(install_command(drivers)),
        ),
    ).with(
        "volumeMounts"@,
        array().and(plugin_mount()).and(
            object().with_text("name"@, WHEELCACHE_VOLUME_NAME@).with_text(
                "mountPath"@,
                WHEELCACHE_MOUNT_PATH@,
            ).with("readOnly"@, JsonView::Bool(true)),
        ),
    )
}

/// What is added to the main container: the path of the drivers and the mounts.
pub open spec fn main_container(name: Seq<char>, drivers: Seq<DriverSpecView>) -> JsonView {
    object().with_text("name"@, name).with(
        "env"@,
        array().and(
            object().with_text("name"@, "PYTHONPATH"@).with_text("value"@, PLUGIN_MOUNT_PATH@),
        ),
    ).with("volumeMounts"@, array().and(plugin_mount()).and_all(extra_mounts(drivers)))
}

/// The volumes of the injection.
pub open spec fn injection_volumes(
    wheelcache_pvc: Seq<char>,
    drivers: Seq<DriverSpecView>,
) -> JsonView {
    array().and(
        object().with_text("name"@, PLUGIN_VOLUME_NAME@).with("emptyDir"@, object()),
    ).and(
        object().with_text("name"@, WHEELCACHE_VOLUME_NAME@).with(
            "persistentVolumeClaim"@,
            object().with_text("claimName"@, wheelcache_pvc).with("readOnly"@, JsonView::Bool(true)),
        ),
    ).and_all(extra_volumes(drivers))
}

/// The patch that puts the injection into a Deployment whose main container has the given image.
pub open spec fn injection_patch(
    namespace: Seq<char>,
    deployment_name: Seq<char>,
    main_container_name: Seq<char>,
    image: Seq<char>,
    wheelcache_pvc: Seq<char>,
    drivers: Seq<DriverSpecView>,
    restarted_at: u64,
) -> ApplyPatchView {
    template_patch(
        namespace,
        deployment_name,
        object().with("metadata"@, restart_mark(restarted_at)).with(
            "spec"@,
            object().with("volumes"@, injection_volumes(wheelcache_pvc, drivers)).with(
                "initContainers"@,
                array().and(injector(image, drivers)),
            ).with("containers"@, array().and(main_container(main_container_name, drivers))),
        ),
    )
}

/// The patch that takes the injection out of a Deployment: it sets none of the fields that the
/// injection set, so they go, and it starts new pods.
pub open spec fn removal_patch(
    namespace: Seq<char>,
    deployment_name: Seq<char>,
    restarted_at: u64,
) -> ApplyPatchView {
    template_patch(
        namespace,
        deployment_name,
        object().with("metadata"@, restart_mark(restarted_at)),
    )
}

/// What [`K8s::apply_injection_patch`] returns.
pub open spec fn injection(
    namespace: Seq<char>,
    deployment: Deployment,
    deployment_name: Seq<char>,
    main_container_name: Seq<char>,
    wheelcache_pvc: Seq<char>,
    drivers: Seq<DriverSpecView>,
    restarted_at: u64,
) -> Result<ApplyPatchView, ErrorView> {
    match deployment.image(main_container_name) {
        Some(image) => Ok(
            injection_patch(
                namespace,
                deployment_name,
                main_container_name,
                image,
                wheelcache_pvc,
                drivers,
                restarted_at,
            ),
        ),
        None => Err(
            ErrorView::Config(
                "deployment "@ + deployment_name + " has no container named "@
                    + main_container_name,
            ),
        ),
    }
}

/// A result whose success is a patch.
pub open spec fn patch_result(r: Result<ApplyPatch, GuardianError>) -> Result<
    ApplyPatchView,
    ErrorView,
> {
    match r {
        Ok(p) => Ok(p@),
        Err(e) => Err(e@),
    }
}

/// The namespace of the guarded Deployment, in which everything is read and patched.
#[derive(Debug)]
pub struct K8s {
    pub namespace: String,
}

/// The text `a` followed by `b` and `c`.
fn concat3(a: &str, b: &str, c: &str) -> (r: String)
    ensures
        r@ == a@ + b@ + c@,
{
    concat(concat(a, b).as_str(), c)
}

impl K8s {
    /// The image of the container with the given name, as the Deployment has it now: nothing pins an
    /// image anywhere else.
    pub fn main_container_image(deployment: &Deployment, main_container_name: &str) -> (r: Option<
        String,
    >)
        ensures
            opt_text(r) == deployment.image(main_container_name@),
    {
        match &deployment.spec {
            Some(spec) => match &spec.pod_spec {
                Some(pod_spec) => {
                    let cs = &pod_spec.containers;
                    assert(cs@.skip(0) =~= cs@);
                    for i in 0..cs.len()
                        invariant
                            cs@ == deployment.containers(),
                            deployment.image(main_container_name@) == image_of(
                                cs@.skip(i as int),
                                main_container_name@,
                            ),
                    {
                        assert(cs@.skip(i as int)[0] == cs@[i as int]);
                        assert(cs@.skip(i as int).drop_first() =~= cs@.skip(i + 1));
                        if same_text(cs[i].name.as_str(), main_container_name) {
                            return cs[i].image.clone();
                        }
                    }
                    None
                },
                None => None,
            },
            None => None,
        }
    }

    /// Whether the injection is there, by the name of the init container.
    pub fn has_injection(deployment: &Deployment) -> (r: bool)
        ensures
            r == deployment.injected(),
    {
        match &deployment.spec {
            Some(spec) => match &spec.pod_spec {
                Some(pod_spec) => match &pod_spec.init_containers {
                    Some(cs) => {
                        for i in 0..cs.len()
                            invariant
                                cs@ == deployment.init_containers(),
                                forall|j: int|
                                    0 <= j < i ==> (#[trigger] cs@[j]).name@
                                        != INJECTOR_CONTAINER_NAME@,
                        {
                            if same_text(cs[i].name.as_str(), INJECTOR_CONTAINER_NAME) {
                                assert(cs@[i as int].name@ == INJECTOR_CONTAINER_NAME@);
                                return true;
                            }
                        }
                        false
                    },
                    None => false,
                },
                None => false,
            },
            None => false,
        }
    }

    /// The label selector for the pods of the Deployment.
    pub fn label_selector(deployment: &Deployment) -> (r: String)
        ensures
            r@ == join(label_terms(deployment.labels()), ","@),
    {
        let mut terms: Vec<String> = Vec::new();
        match &deployment.spec {
            Some(spec) => match &spec.match_labels {
                Some(labels) => {
                    for i in 0..labels.len()
                        invariant
                            labels@ == deployment.labels(),
                            texts(terms@) =~= label_terms(labels@).take(i as int),
                    {
                        let ghost before = texts(terms@);
                        terms.push(concat3(labels[i].0.as_str(), "=", labels[i].1.as_str()));
                        assert(texts(terms@) =~= before.push(label_terms(labels@)[i as int]));
                    }
                },
                None => {},
            },
            None => {},
        }
        assert(texts(terms@) =~= label_terms(deployment.labels()));
        join_strings(&terms, ",")
    }

    /// The first of `pods` that is ready, for a look into it. None means that nothing is ready yet:
    /// the driver is degraded then, not absent.
    pub fn find_ready_pod(pods: &Vec<Pod>) -> (r: Option<String>)
        ensures
            opt_text(r) == ready_pod(pods@),
    {
        assert(pods@.skip(0) =~= pods@);
        for i in 0..pods.len()
            invariant
                ready_pod(pods@) == ready_pod(pods@.skip(i as int)),
        {
            assert(pods@.skip(i as int)[0] == pods@[i as int]);
            assert(pods@.skip(i as int).drop_first() =~= pods@.skip(i + 1));
            if reports_ready(&pods[i]) {
                match &pods[i].name {
                    Some(name) => {
                        return Some(name.clone());
                    },
                    None => {},
                }
            }
        }
        None
    }

    /// What a command that was run in a pod wrote to its standard output, as it was written. A command
    /// that failed, or could not be run, is an error.
    pub fn exec_capture(capture: ExecCapture) -> (r: Result<String, GuardianError>)
        ensures
            text_result(r) == captured(capture),
    {
        match capture {
            ExecCapture::Refused(why) => Err(GuardianError::Kube(why)),
            ExecCapture::NoStdout => Err(GuardianError::PodExec("no stdout stream".to_owned())),
            ExecCapture::Broken(why) => Err(GuardianError::PodExec(why)),
            ExecCapture::Ended { stdout, failure } => match failure {
                Some(why) => Err(
                    GuardianError::PodExec(concat("command failed: ", why.as_str())),
                ),
                None => Ok(stdout),
            },
        }
    }

    /// Whether `manager` owns the key `key` of a Secret with these fields.
    pub fn manages_key(fields: &Vec<ManagedField>, manager: &str, key: &str) -> (r: bool)
        ensures
            r == key_managed(fields@, manager@, key@),
    {
        let name = concat("f:", key);
        for i in 0..fields.len()
            invariant
                name@ == "f:"@ + key@,
                forall|j: int| 0 <= j < i ==> !is_key_of(#[trigger] fields@[j], manager@, key@),
        {
            let field = &fields[i];
            if same_text(field.manager.as_str(), manager) && (same_text(
                field.part.as_str(),
                "f:data",
            ) || same_text(field.part.as_str(), "f:stringData")) && same_text(
                field.name.as_str(),
                name.as_str(),
            ) {
                assert(is_key_of(fields@[i as int], manager@, key@));
                return true;
            }
        }
        false
    }

    /// The text under `key` in the Secret `name`, of which `value` is what the Secret holds there.
    pub fn get_secret_key(name: &str, key: &str, value: Option<Vec<u8>>) -> (r: Result<
        String,
        GuardianError,
    >)
        ensures
            text_result(r) == secret_text(name@, key@, value),
    {
        match value {
            None => Err(
                GuardianError::Config(concat(concat3("secret ", name, " has no key ").as_str(), key)),
            ),
            Some(bytes) => match text_from_utf8(bytes) {
                Ok(s) => Ok(s),
                Err(why) => {
                    let head = concat3("secret ", name, "/");
                    let whole = concat3(head.as_str(), key, " is not valid UTF-8: ");
                    Err(GuardianError::Internal(concat(whole.as_str(), why.as_str())))
                },
            },
        }
    }

    /// The text under `key` in the ConfigMap `name`, of which `value` is what the ConfigMap holds
    /// there.
    pub fn get_configmap_key(name: &str, key: &str, value: Option<String>) -> (r: Result<
        String,
        GuardianError,
    >)
        ensures
            text_result(r) == configmap_text(name@, key@, value),
    {
        match value {
            None => Err(
                GuardianError::Config(
                    concat(concat3("configmap ", name, " has no key ").as_str(), key),
                ),
            ),
            Some(s) => Ok(s),
        }
    }

    fn named(&self, name: &str) -> (r: Json)
        ensures
            r@ == object_name(self.namespace@, name@),
    {
        Object::new().with_text("name", name).with_text("namespace", self.namespace.as_str()).done()
    }

    fn one_key_patch(&self, kind: &str, field: &str, name: &str, key: &str, value: &str) -> (r:
        ApplyPatch)
        ensures
            r@ == key_patch(kind@, field@, self.namespace@, name@, key@, value@),
    {
        let data = Object::new().with(key, string(value)).done();
        let body = Object::new().with_text("apiVersion", "v1").with_text("kind", kind).with(
            "metadata",
            self.named(name),
        ).with(field, data).done();
        ApplyPatch { name: name.to_owned(), manager: FIELD_MANAGER.to_owned(), force: true, body }
    }

    /// The patch that sets one key of a Secret and leaves every other key alone.
    pub fn patch_secret_key(&self, name: &str, key: &str, value: &str) -> (r: ApplyPatch)
        ensures
            r@ == key_patch("Secret"@, "stringData"@, self.namespace@, name@, key@, value@),
    {
        self.one_key_patch("Secret", "stringData", name, key, value)
    }

    /// The patch that sets one key of a ConfigMap and leaves every other key alone.
    pub fn patch_configmap_key(&self, name: &str, key: &str, value: &str) -> (r: ApplyPatch)
        ensures
            r@ == key_patch("ConfigMap"@, "data"@, self.namespace@, name@, key@, value@),
    {
        self.one_key_patch("ConfigMap", "data", name, key, value)
    }

    /// The patch that writes a driver's own settings into the Secret that the guardian keeps for it.
    /// There is none where the settings are not given as text.
    pub fn write_driver_config_secret(&self, driver: &DriverSpec) -> (r: Option<ApplyPatch>)
        ensures
            r matches Some(p) ==> driver_secret_patch(self.namespace@, driver@) == Some(p@),
            r is None ==> driver_secret_patch(self.namespace@, driver@) is None,
    {
        if driver.extra_config_secret_data.as_str().is_empty() {
            return None;
        }
        Some(
            self.one_key_patch(
                "Secret",
                "stringData",
                driver.managed_secret_name().as_str(),
                concat(driver.name.as_str(), ".ini").as_str(),
                driver.extra_config_secret_data.as_str(),
            ),
        )
    }

    fn template(&self, name: &str, template: Json) -> (r: ApplyPatch)
        ensures
            r@ == template_patch(self.namespace@, name@, template@),
    {
        let spec = Object::new().with("template", template).done();
        let body = Object::new().with_text("apiVersion", "apps/v1").with_text("kind", "Deployment").with("metadata", self.named(name)).with("spec", spec).done();
        ApplyPatch { name: name.to_owned(), manager: FIELD_MANAGER.to_owned(), force: true, body }
    }

    /// The patch that puts the injection into the Deployment, of which `deployment` is the present
    /// state: the init container that installs the drivers, with the image of the main container;
    /// the volumes; the path of the drivers; and the mounts of the drivers' own settings. The mark
    /// `restarted_at` makes Kubernetes start new pods even if nothing else changes. A Deployment
    /// without the main container is refused.
    pub fn apply_injection_patch(
        &self,
        deployment: &Deployment,
        deployment_name: &str,
        main_container_name: &str,
        wheelcache_pvc: &str,
        drivers: &Vec<DriverSpec>,
        restarted_at: u64,
    ) -> (r: Result<ApplyPatch, GuardianError>)
        ensures
            patch_result(r) == injection(
                self.namespace@,
                *deployment,
                deployment_name@,
                main_container_name@,
                wheelcache_pvc@,
                drivers_view(drivers@),
                restarted_at,
            ),
    {
        let image = match Self::main_container_image(deployment, main_container_name) {
            Some(image) => image,
            None => {
                let head = concat3("deployment ", deployment_name, " has no container named ");
                return Err(GuardianError::Config(concat(head.as_str(), main_container_name)));
            },
        };
        let (volumes, mounts) = injection_mounts(wheelcache_pvc, drivers);
        let env = Object::new().with_text("name", "PYTHONPATH").with_text("value", PLUGIN_MOUNT_PATH).done();
        let main = Object::new().with_text("name", main_container_name).with(
            "env",
            Array::new().and(env).done(),
        ).with("volumeMounts", mounts).done();
        let spec = Object::new().with("volumes", volumes).with(
            "initContainers",
            Array::new().and(injector_container(image.as_str(), drivers)).done(),
        ).with("containers", Array::new().and(main).done()).done();
        let template = Object::new().with("metadata", restart_metadata(restarted_at)).with(
            "spec",
            spec,
        ).done();
        Ok(self.template(deployment_name, template))
    }

    /// The patch that takes the injection out of the Deployment.
    pub fn remove_injection_patch(&self, deployment_name: &str, restarted_at: u64) -> (r: ApplyPatch)
        ensures
            r@ == removal_patch(self.namespace@, deployment_name@, restarted_at),
    {
        let template = Object::new().with("metadata", restart_metadata(restarted_at)).done();
        self.template(deployment_name, template)
    }
}

/// Whether a pod reports that it is ready.
fn reports_ready(pod: &Pod) -> (r: bool)
    ensures
        r == is_ready(*pod),
{
    match &pod.conditions {
        Some(cs) => {
            for i in 0..cs.len()
                invariant
                    pod.conditions == Some(*cs),
                    forall|j: int| 0 <= j < i ==> !says_ready(#[trigger] cs@[j]),
            {
                if same_text(cs[i].type_.as_str(), "Ready") && same_text(
                    cs[i].status.as_str(),
                    "True",
                ) {
                    assert(says_ready(cs@[i as int]));
                    assert(some_ready(cs@));
                    return true;
                }
            }
            false
        },
        None => false,
    }
}

fn restart_metadata(restarted_at: u64) -> (r: Json)
    ensures
        r@ == restart_mark(restarted_at),
{
    let marks = Object::new().with(
        "neutron-ml2-guardian/restarted-at",
        Json::Str(decimal_of(restarted_at)),
    ).done();
    Object::new().with("annotations", marks).done()
}

fn plugin_mount_object() -> (r: Json)
    ensures
        r@ == plugin_mount(),
{
    Object::new().with_text("name", PLUGIN_VOLUME_NAME).with_text("mountPath", PLUGIN_MOUNT_PATH).done()
}

/// The command that installs the drivers.
fn install_command_text(drivers: &Vec<DriverSpec>) -> (r: String)
    ensures
        r@ == install_command(drivers_view(drivers@)),
{
    let ghost all = drivers_view(drivers@);
    let mut links: Vec<String> = Vec::new();
    let mut targets: Vec<String> = Vec::new();
    for i in 0..drivers.len()
        invariant
            all == drivers_view(drivers@),
            texts(links@) =~= find_links(all).take(i as int),
            texts(targets@) =~= packages(all).take(i as int),
    {
        let ghost links_before = texts(links@);
        let ghost targets_before = texts(targets@);
        assert(all[i as int] == drivers@[i as int]@);
        let dir = concat3(WHEELCACHE_MOUNT_PATH, "/", drivers[i].name.as_str());
        links.push(concat("--find-links=", dir.as_str()));
        targets.push(drivers[i].pip_package.clone());
        assert(texts(links@) =~= links_before.push(find_links(all)[i as int]));
        assert(texts(targets@) =~= targets_before.push(packages(all)[i as int]));
    }
    assert(texts(links@) =~= find_links(all));
    assert(texts(targets@) =~= packages(all));
    let head = concat3("pip install --no-index ", join_strings(&links, " ").as_str(), " --target=");
    let mid = concat3(head.as_str(), PLUGIN_MOUNT_PATH, " ");
    concat(mid.as_str(), join_strings(&targets, " ").as_str())
}

fn injector_container(image: &str, drivers: &Vec<DriverSpec>) -> (r: Json)
    ensures
        r@ == injector(image@, drivers_view(drivers@)),
{
    let cache = Object::new().with_text("name", WHEELCACHE_VOLUME_NAME).with_text("mountPath", WHEELCACHE_MOUNT_PATH).with("readOnly", Json::Bool(true)).done();
    let command = Array::new().and(string("/bin/sh")).and(string("-c")).and(
        Json::Str(install_command_text(drivers)),
    ).done();
    Object::new().with_text("name", INJECTOR_CONTAINER_NAME).with_text("image", image).with(
        "command",
        command,
    ).with("volumeMounts", Array::new().and(plugin_mount_object()).and(cache).done()).done()
}

/// The volumes of the injection, and the mounts of the main container.
fn injection_mounts(wheelcache_pvc: &str, drivers: &Vec<DriverSpec>) -> (r: (Json, Json))
    ensures
        r.0@ == injection_volumes(wheelcache_pvc@, drivers_view(drivers@)),
        r.1@ == array().and(plugin_mount()).and_all(extra_mounts(drivers_view(drivers@))),
{
    let ghost all = drivers_view(drivers@);
    let claim = Object::new().with_text("claimName", wheelcache_pvc).with(
        "readOnly",
        Json::Bool(true),
    ).done();
    let plugins = Object::new().with_text("name", PLUGIN_VOLUME_NAME).with(
        "emptyDir",
        Object::new().done(),
    ).done();
    let cache = Object::new().with_text("name", WHEELCACHE_VOLUME_NAME).with(
        "persistentVolumeClaim",
        claim,
    ).done();
    let mut volumes = Array::new().and(plugins).and(cache);
    let mut mounts = Array::new().and(plugin_mount_object());
    let ghost volumes_base = volumes@;
    let ghost mounts_base = mounts@;
    assert(volumes@->Arr_0 =~= volumes_base->Arr_0 + extra_volumes(all.take(0)));
    assert(mounts@->Arr_0 =~= mounts_base->Arr_0 + extra_mounts(all.take(0)));
    for i in 0..drivers.len()
        invariant
            all == drivers_view(drivers@),
            volumes@ == volumes_base.and_all(extra_volumes(all.take(i as int))),
            mounts@ == mounts_base.and_all(extra_mounts(all.take(i as int))),
    {
        let d = &drivers[i];
        assert(all.take(i + 1).drop_last() =~= all.take(i as int));
        assert(all.take(i + 1).last() == d@);
        match d.extra_config_secret_name() {
            Some(secret) => {
                let volume = concat("ml2-extra-config-", d.name.as_str());
                let source = Object::new().with_text("secretName", secret.as_str()).done();
                volumes =
                volumes.and(
                    Object::new().with_text("name", volume.as_str()).with(
                        "secret",
                        source,
                    ).done(),
                );
                let path = concat(
                    concat3(EXTRA_CONF_DIR, "/", d.name.as_str()).as_str(),
                    ".conf",
                );
                mounts =
                mounts.and(
                    Object::new().with_text("name", volume.as_str()).with_text("mountPath", path.as_str()).with("subPath", Json::Str(concat(d.name.as_str(), ".ini"))).with(
                        "readOnly",
                        Json::Bool(true),
                    ).done(),
                );
                assert(volumes@->Arr_0 =~= volumes_base->Arr_0 + extra_volumes(all.take(i + 1)));
                assert(mounts@->Arr_0 =~= mounts_base->Arr_0 + extra_mounts(all.take(i + 1)));
            },
            None => {},
        }
    }
    assert(all.take(all.len() as int) =~= all);
    (volumes.done(), mounts.done())
}

} // verus!
