//! The wheel cache: the Job that fills it, what the Job reports, and whether the wheels in it depend
//! on the image that they were downloaded with.
//!
//! The cache is a volume in the namespace of the guarded Deployment, which the guardian cannot mount.
//! So the Job writes the names of its files to its log, and the guardian reads them there.
use crate::config::{opt_text, DriverSpec, DriverSpecView};
use crate::error::{ErrorView, GuardianError};
use crate::json::{array, object, string, Array, Json, JsonView, Object};
use crate::k8s::Pod;
use crate::numbers::{decimal, decimal_of};
use crate::text::{
    chars_of, concat, ends, ends_with, lines, lines_of, rows, same_text, split, string_of, texts,
    trim, trimmed,
};
use crate::text_lemmas::{free_of, lemma_split_at_sep, lemma_split_free};
use vstd::prelude::*;

verus! {

/// Where the wheel cache is mounted.
pub const WHEELCACHE_ROOT: &'static str = "/wheelcache";

/// The shape of a wheel's file name: name, version and perhaps a build tag, then the tags for
/// Python, ABI and platform.
pub const WHEEL_FILENAME_PATTERN: &'static str = "^.+-.+-([^-]+)-([^-]+)-([^-]+)\\.whl$";

/// Whether a set of wheels can be kept when the image changes.
#[derive(Debug, Clone, Copy, PartialEq, Eq, Structural)]
pub enum Portability {
    /// Every wheel fits any Python 3: the set can be kept for good.
    UniversalPureAny,
    /// Some wheel is made for one Python, ABI or platform: the set belongs to the image that it was
    /// downloaded with.
    VersionPinned,
}

/// Whether `s` can be a tag: it is not empty and has no hyphen.
pub open spec fn is_tag(s: Seq<char>) -> bool {
    s.len() > 0 && free_of(s, '-')
}

/// Whether `s` is a name and a version: on one line, with a hyphen that has something on both sides.
pub open spec fn is_stem(s: Seq<char>) -> bool {
    &&& free_of(s, '\n')
    &&& exists|i: int| 0 < i < s.len() - 1 && s[i] == '-'
}

/// Whether `filename` is that of a wheel with these parts.
pub open spec fn wheel_parts(
    filename: Seq<char>,
    stem: Seq<char>,
    python: Seq<char>,
    abi: Seq<char>,
    platform: Seq<char>,
) -> bool {
    &&& filename == stem.push('-') + python.push('-') + abi.push('-') + platform + ".whl"@
    &&& is_stem(stem)
    &&& is_tag(python)
    &&& is_tag(abi)
    &&& is_tag(platform)
}

/// Whether `filename` is that of a wheel that fits any ABI and any platform.
pub open spec fn is_universal(filename: Seq<char>) -> bool {
    exists|stem: Seq<char>, python: Seq<char>|
        wheel_parts(filename, stem, python, "none"@, "any"@)
}

/// `regex::Regex::new` and `Regex::captures`, for the pattern [`WHEEL_FILENAME_PATTERN`]: the whole
/// match and the three groups. The pattern is anchored at both ends; `.` is any character but a line
/// feed, and `[^-]` any character but a hyphen. So it matches exactly the file names that have the
/// parts of a wheel's name, and the groups are the three tags.
#[verifier::external_body]
fn captures(pattern: &str, filename: &str) -> (r: Option<Vec<Option<String>>>)
    requires
        pattern@ == WHEEL_FILENAME_PATTERN@,
    ensures
        r matches Some(g) ==> {
            &&& g@.len() == 4
            &&& g@[0] is Some && g@[0]->0@ == filename@
            &&& g@[1] is Some && g@[2] is Some && g@[3] is Some
            &&& exists|stem: Seq<char>|
                wheel_parts(filename@, stem, g@[1]->0@, g@[2]->0@, g@[3]->0@)
        },
        r is None ==> forall|stem: Seq<char>, python: Seq<char>, abi: Seq<char>, platform: Seq<char>|
            !wheel_parts(filename@, stem, python, abi, platform),
{
    let groups = regex::Regex::new(pattern).unwrap().captures(filename)?;
    Some(groups.iter().map(|m| m.map(|m| m.as_str().to_string())).collect())
}

/// The pieces of a wheel's file name between hyphens.
pub proof fn lemma_wheel_pieces(
    filename: Seq<char>,
    stem: Seq<char>,
    python: Seq<char>,
    abi: Seq<char>,
    platform: Seq<char>,
)
    requires
        wheel_parts(filename, stem, python, abi, platform),
    ensures
        split(filename, '-') == split(stem, '-').push(python).push(abi).push(platform + ".whl"@),
{
    let last = platform + ".whl"@;
    reveal_strlit(".whl");
    assert(free_of(last, '-'));
    lemma_split_free(python, '-');
    lemma_split_free(abi, '-');
    lemma_split_free(last, '-');
    lemma_split_at_sep(abi, last, '-');
    lemma_split_at_sep(python, abi.push('-') + last, '-');
    lemma_split_at_sep(stem, python.push('-') + (abi.push('-') + last), '-');
    assert(filename =~= stem.push('-') + (python.push('-') + (abi.push('-') + last)));
    assert(split(filename, '-') =~= split(stem, '-').push(python).push(abi).push(last));
}

/// A file name has the parts of a wheel's name in one way at most.
pub proof fn lemma_wheel_parts_unique(
    filename: Seq<char>,
    stem: Seq<char>,
    python: Seq<char>,
    abi: Seq<char>,
    platform: Seq<char>,
    stem2: Seq<char>,
    python2: Seq<char>,
    abi2: Seq<char>,
    platform2: Seq<char>,
)
    requires
        wheel_parts(filename, stem, python, abi, platform),
        wheel_parts(filename, stem2, python2, abi2, platform2),
    ensures
        python == python2,
        abi == abi2,
        platform == platform2,
{
    lemma_wheel_pieces(filename, stem, python, abi, platform);
    lemma_wheel_pieces(filename, stem2, python2, abi2, platform2);
    let p = split(filename, '-');
    let n = p.len() as int;
    assert(p[n - 3] == python && p[n - 3] == python2);
    assert(p[n - 2] == abi && p[n - 2] == abi2);
    assert(p[n - 1] == platform + ".whl"@ && p[n - 1] == platform2 + ".whl"@);
    assert(platform =~= (platform + ".whl"@).take(platform.len() as int));
    assert(platform2 =~= (platform2 + ".whl"@).take(platform2.len() as int));
}

/// Whether every one of `filenames` is that of a wheel that fits any ABI and any platform.
pub open spec fn all_universal(filenames: Seq<String>) -> bool {
    forall|i: int| 0 <= i < filenames.len() ==> is_universal((#[trigger] filenames[i])@)
}

/// A result whose success is a kind of wheels.
pub open spec fn portability_result(r: Result<Portability, GuardianError>) -> Result<
    Portability,
    ErrorView,
> {
    match r {
        Ok(p) => Ok(p),
        Err(e) => Err(e@),
    }
}

/// What [`classify`] returns.
pub open spec fn portability_of(filenames: Seq<String>) -> Result<Portability, ErrorView> {
    if filenames.len() == 0 {
        Err(ErrorView::Internal("no .whl filenames produced by download"@))
    } else if all_universal(filenames) {
        Ok(Portability::UniversalPureAny)
    } else {
        Ok(Portability::VersionPinned)
    }
}

/// Whether the wheels with these file names can be kept when the image changes. They can if every
/// name shows a wheel for any ABI and any platform; a name of another shape counts as pinned. No
/// names at all are refused.
pub fn classify(filenames: &[String]) -> (r: Result<Portability, GuardianError>)
    ensures
        portability_result(r) == portability_of(filenames@),
{
    if filenames.len() == 0 {
        return Err(GuardianError::Internal("no .whl filenames produced by download".to_owned()));
    }
    for i in 0..filenames.len()
        invariant
            forall|j: int| 0 <= j < i ==> is_universal((#[trigger] filenames@[j])@),
    {
        if !universal(filenames[i].as_str()) {
            assert(!is_universal(filenames@[i as int]@));
            return Ok(Portability::VersionPinned);
        }
    }
    Ok(Portability::UniversalPureAny)
}

/// Whether `filename` is that of a wheel that fits any ABI and any platform.
fn universal(filename: &str) -> (r: bool)
    ensures
        r == is_universal(filename@),
{
    match captures(WHEEL_FILENAME_PATTERN, filename) {
        Some(groups) => {
            let ghost stem = choose|stem: Seq<char>|
                wheel_parts(filename@, stem, groups@[1]->0@, groups@[2]->0@, groups@[3]->0@);
            match (&groups[2], &groups[3]) {
                (Some(abi), Some(platform)) => {
                    let r = same_text(abi.as_str(), "none") && same_text(platform.as_str(), "any");
                    proof {
                        if is_universal(filename@) {
                            let (s, p) = choose|s: Seq<char>, p: Seq<char>|
                                wheel_parts(filename@, s, p, "none"@, "any"@);
                            lemma_wheel_parts_unique(
                                filename@,
                                stem,
                                groups@[1]->0@,
                                abi@,
                                platform@,
                                s,
                                p,
                                "none"@,
                                "any"@,
                            );
                        }
                    }
                    r
                },
                _ => false,
            }
        },
        None => false,
    }
}

/// The name of the Job that downloads the wheels of a driver.
pub open spec fn job_name(driver: Seq<char>) -> Seq<char> {
    "neutron-ml2-wheelcache-"@ + driver
}

/// The directory of a driver in the wheel cache.
pub open spec fn cache_dir(driver: Seq<char>) -> Seq<char> {
    WHEELCACHE_ROOT@ + "/"@ + driver
}

/// What the Job runs: it downloads the package of the driver with all that the package needs, and
/// lists the directory.
pub open spec fn download_script(driver: DriverSpecView) -> Seq<char> {
    "set -eu; mkdir -p "@ + cache_dir(driver.name) + "; pip download --no-cache-dir --dest "@
        + cache_dir(driver.name) + " "@ + driver.pip_package + "; ls -1 "@ + cache_dir(driver.name)
}

/// The container of the Job.
pub open spec fn download_container(image: Seq<char>, driver: DriverSpecView) -> JsonView {
    object().with_text("name"@, "pip-download"@).with_text("image"@, image).with(
        "command"@,
        array().and(JsonView::Str("/bin/sh"@)).and(JsonView::Str("-c"@)).and(
            JsonView::Str(download_script(driver)),
        ),
    ).with(
        "volumeMounts"@,
        array().and(
            object().with_text("name"@, "wheelcache"@).with_text("mountPath"@, WHEELCACHE_ROOT@),
        ),
    )
}

/// The pod of the Job.
pub open spec fn download_pod(
    pvc_name: Seq<char>,
    image: Seq<char>,
    driver: DriverSpecView,
) -> JsonView {
    object().with_text("restartPolicy"@, "Never"@).with(
        "containers"@,
        array().and(download_container(image, driver)),
    ).with(
        "volumes"@,
        array().and(
            object().with_text("name"@, "wheelcache"@).with(
                "persistentVolumeClaim"@,
                object().with_text("claimName"@, pvc_name),
            ),
        ),
    )
}

/// The Job that downloads the wheels of a driver.
pub open spec fn download_job(
    namespace: Seq<char>,
    pvc_name: Seq<char>,
    image: Seq<char>,
    driver: DriverSpecView,
) -> JsonView {
    let name = job_name(driver.name);
    object().with_text("apiVersion"@, "batch/v1"@).with_text("kind"@, "Job"@).with(
        "metadata"@,
        object().with_text("name"@, name).with_text("namespace"@, namespace),
    ).with(
        "spec"@,
        object().with("backoffLimit"@, JsonView::Int(1)).with(
            "ttlSecondsAfterFinished"@,
            JsonView::Int(300),
        ).with(
            "template"@,
            object().with(
                "metadata"@,
                object().with("labels"@, object().with_text("job-name"@, name)),
            ).with("spec"@, download_pod(pvc_name, image, driver)),
        ),
    )
}

fn cache_dir_of(driver: &str) -> (r: String)
    ensures
        r@ == cache_dir(driver@),
{
    concat(concat(WHEELCACHE_ROOT, "/").as_str(), driver)
}

fn script_of(driver: &DriverSpec) -> (r: String)
    ensures
        r@ == download_script(driver@),
{
    let dir = cache_dir_of(driver.name.as_str());
    let mut r = concat("set -eu; mkdir -p ", dir.as_str());
    r.append("; pip download --no-cache-dir --dest ");
    r.append(dir.as_str());
    r.append(" ");
    r.append(driver.pip_package.as_str());
    r.append("; ls -1 ");
    r.append(dir.as_str());
    r
}

fn job_manifest(namespace: &str, pvc_name: &str, image: &str, driver: &DriverSpec) -> (r: Json)
    ensures
        r@ == download_job(namespace@, pvc_name@, image@, driver@),
{
    let name = job_name_of(driver.name.as_str());
    let command = Array::new().and(string("/bin/sh")).and(string("-c")).and(
        Json::Str(script_of(driver)),
    ).done();
    let mount = Object::new().with_text("name", "wheelcache").with_text(
        "mountPath",
        WHEELCACHE_ROOT,
    ).done();
    let container = Object::new().with_text("name", "pip-download").with_text("image", image).with(
        "command",
        command,
    ).with("volumeMounts", Array::new().and(mount).done()).done();
    let claim = Object::new().with_text("claimName", pvc_name).done();
    let volume = Object::new().with_text("name", "wheelcache").with(
        "persistentVolumeClaim",
        claim,
    ).done();
    let pod = Object::new().with_text("restartPolicy", "Never").with(
        "containers",
        Array::new().and(container).done(),
    ).with("volumes", Array::new().and(volume).done()).done();
    let labels = Object::new().with_text("job-name", name.as_str()).done();
    let template = Object::new().with(
        "metadata",
        Object::new().with("labels", labels).done(),
    ).with("spec", pod).done();
    let spec = Object::new().with("backoffLimit", Json::Int(1)).with(
        "ttlSecondsAfterFinished",
        Json::Int(300),
    ).with("template", template).done();
    let metadata = Object::new().with_text("name", name.as_str()).with_text(
        "namespace",
        namespace,
    ).done();
    Object::new().with_text("apiVersion", "batch/v1").with_text("kind", "Job").with(
        "metadata",
        metadata,
    ).with("spec", spec).done()
}

/// The name of the Job that downloads the wheels of a driver.
pub fn job_name_of(driver: &str) -> (r: String)
    ensures
        r@ == job_name(driver@),
{
    concat("neutron-ml2-wheelcache-", driver)
}

/// Those of `ls` that end in `.whl`, without the white space around them, in order.
pub open spec fn wheel_names(ls: Seq<Seq<char>>) -> Seq<Seq<char>>
    decreases ls.len(),
{
    if ls.len() == 0 {
        Seq::empty()
    } else if ends_with(trim(ls.last()), ".whl"@) {
        wheel_names(ls.drop_last()).push(trim(ls.last()))
    } else {
        wheel_names(ls.drop_last())
    }
}

/// The wheels that a Job reports in its log, one to a line, among whatever else is in the log.
pub fn read_job_pod_wheel_list(logs: &str) -> (r: Vec<String>)
    ensures
        texts(r@) == wheel_names(lines(logs@)),
{
    let ls = lines_of(&chars_of(logs));
    let ghost all = lines(logs@);
    let suffix = chars_of(".whl");
    let mut r: Vec<String> = Vec::new();
    assert(texts(r@) =~= wheel_names(all.take(0)));
    for i in 0..ls.len()
        invariant
            all == rows(ls@),
            suffix@ == ".whl"@,
            texts(r@) == wheel_names(all.take(i as int)),
    {
        assert(all.take(i + 1).drop_last() =~= all.take(i as int));
        assert(all.take(i + 1).last() == ls@[i as int]@);
        let name = trimmed(&ls[i]);
        if ends(&name, &suffix) {
            let ghost before = texts(r@);
            r.push(string_of(&name));
            assert(texts(r@) =~= before.push(name@));
        }
    }
    assert(all.take(all.len() as int) =~= all);
    r
}

/// How far a Job is.
#[derive(Debug)]
pub struct JobStatus {
    pub succeeded: Option<i32>,
    pub failed: Option<i32>,
}

/// Whether a count is given and greater than zero.
pub open spec fn some_counted(n: Option<i32>) -> bool {
    n matches Some(k) && k > 0
}

fn counted(n: Option<i32>) -> (r: bool)
    ensures
        r == some_counted(n),
{
    match n {
        Some(k) => k > 0,
        None => false,
    }
}

/// A result whose success is a list of texts.
pub open spec fn files_result(r: Result<Vec<String>, GuardianError>) -> Result<
    Seq<Seq<char>>,
    ErrorView,
> {
    match r {
        Ok(v) => Ok(texts(v@)),
        Err(e) => Err(e@),
    }
}

/// How far a refresh of the wheel cache is: what it waits for.
#[derive(Debug)]
pub enum RefreshPhase {
    /// The start.
    Start,
    /// A Job that is left from an earlier refresh is being deleted.
    Clearing,
    /// The Job is being created.
    Creating,
    /// The time is being asked for.
    Timing,
    /// The state of the Job is being asked for.
    Polling,
    /// Time passes until the next look.
    Sleeping,
    /// The Job has succeeded, and its pods are being listed.
    Listing,
    /// The log of the Job's pod is being read.
    Reading,
    /// The Job is being deleted; this is the outcome.
    Cleaning(Result<Vec<String>, GuardianError>),
    /// The end.
    Done,
}

/// A [`RefreshPhase`] with its texts as sequences of characters.
pub enum RefreshPhaseView {
    Start,
    Clearing,
    Creating,
    Timing,
    Polling,
    Sleeping,
    Listing,
    Reading,
    Cleaning(Result<Seq<Seq<char>>, ErrorView>),
    Done,
}

impl View for RefreshPhase {
    type V = RefreshPhaseView;

    open spec fn view(&self) -> RefreshPhaseView {
        match *self {
            RefreshPhase::Start => RefreshPhaseView::Start,
            RefreshPhase::Clearing => RefreshPhaseView::Clearing,
            RefreshPhase::Creating => RefreshPhaseView::Creating,
            RefreshPhase::Timing => RefreshPhaseView::Timing,
            RefreshPhase::Polling => RefreshPhaseView::Polling,
            RefreshPhase::Sleeping => RefreshPhaseView::Sleeping,
            RefreshPhase::Listing => RefreshPhaseView::Listing,
            RefreshPhase::Reading => RefreshPhaseView::Reading,
            RefreshPhase::Cleaning(outcome) => RefreshPhaseView::Cleaning(files_result(outcome)),
            RefreshPhase::Done => RefreshPhaseView::Done,
        }
    }
}

/// What a refresh hears of.
#[derive(Debug)]
pub enum RefreshEvent {
    /// The refresh is to begin.
    Begin,
    /// The Job was deleted, or could not be.
    Deleted,
    /// The Job was created, or refused.
    Created(Result<(), GuardianError>),
    /// So many whole seconds have passed since the Job was created.
    Elapsed(u64),
    /// The state of the Job.
    Job(Result<JobStatus, GuardianError>),
    /// The time between two looks is over.
    Slept,
    /// The pods of the Job.
    Pods(Result<Vec<Pod>, GuardianError>),
    /// The log of the Job's pod.
    Logs(Result<String, GuardianError>),
}

/// What a refresh asks for.
#[derive(Debug)]
pub enum RefreshAction {
    /// Delete the Job of this name, if it is there; whether that works does not matter.
    DeleteJob(String),
    /// Create this Job.
    CreateJob(Json),
    /// Tell how much time has passed since the Job was created.
    AskTime,
    /// Tell the state of the Job of this name.
    GetJob(String),
    /// Wait for so many seconds.
    Sleep(u64),
    /// List the pods that this label selector matches.
    ListPods(String),
    /// Read the log of the pod of this name.
    ReadLogs(String),
    /// The refresh is over: the names of the wheels, or why there are none.
    Finish(Result<Vec<String>, GuardianError>),
}

/// A [`RefreshAction`] with its texts as sequences of characters.
pub enum RefreshActionView {
    DeleteJob(Seq<char>),
    CreateJob(JsonView),
    AskTime,
    GetJob(Seq<char>),
    Sleep(u64),
    ListPods(Seq<char>),
    ReadLogs(Seq<char>),
    Finish(Result<Seq<Seq<char>>, ErrorView>),
}

impl View for RefreshAction {
    type V = RefreshActionView;

    open spec fn view(&self) -> RefreshActionView {
        match *self {
            RefreshAction::DeleteJob(name) => RefreshActionView::DeleteJob(name@),
            RefreshAction::CreateJob(job) => RefreshActionView::CreateJob(job@),
            RefreshAction::AskTime => RefreshActionView::AskTime,
            RefreshAction::GetJob(name) => RefreshActionView::GetJob(name@),
            RefreshAction::Sleep(secs) => RefreshActionView::Sleep(secs),
            RefreshAction::ListPods(selector) => RefreshActionView::ListPods(selector@),
            RefreshAction::ReadLogs(pod) => RefreshActionView::ReadLogs(pod@),
            RefreshAction::Finish(outcome) => RefreshActionView::Finish(files_result(outcome)),
        }
    }
}

/// The outcome `r`, once the Job is deleted.
pub open spec fn clean_up(job: Seq<char>, r: Result<Seq<Seq<char>>, ErrorView>) -> (
    RefreshPhaseView,
    RefreshActionView,
) {
    (RefreshPhaseView::Cleaning(r), RefreshActionView::DeleteJob(job))
}

/// The end, with the outcome `r`.
pub open spec fn finish(r: Result<Seq<Seq<char>>, ErrorView>) -> (
    RefreshPhaseView,
    RefreshActionView,
) {
    (RefreshPhaseView::Done, RefreshActionView::Finish(r))
}

/// The name of the first pod, if there is a pod and it has a name.
pub open spec fn first_pod(pods: Seq<Pod>) -> Option<Seq<char>> {
    if pods.len() > 0 {
        opt_text(pods[0].name)
    } else {
        None
    }
}

/// What [`refresh`] does.
pub open spec fn refresh_step(
    namespace: Seq<char>,
    pvc_name: Seq<char>,
    image: Seq<char>,
    driver: DriverSpecView,
    timeout_secs: u64,
    phase: RefreshPhaseView,
    event: RefreshEvent,
) -> (RefreshPhaseView, RefreshActionView) {
    let job = job_name(driver.name);
    match (phase, event) {
        (RefreshPhaseView::Start, RefreshEvent::Begin) => (
            RefreshPhaseView::Clearing,
            RefreshActionView::DeleteJob(job),
        ),
        (RefreshPhaseView::Clearing, RefreshEvent::Deleted) => (
            RefreshPhaseView::Creating,
            RefreshActionView::CreateJob(download_job(namespace, pvc_name, image, driver)),
        ),
        (RefreshPhaseView::Creating, RefreshEvent::Created(Ok(()))) => (
            RefreshPhaseView::Timing,
            RefreshActionView::AskTime,
        ),
        (RefreshPhaseView::Creating, RefreshEvent::Created(Err(e))) => finish(Err(e@)),
        (RefreshPhaseView::Timing, RefreshEvent::Elapsed(secs)) => if secs >= timeout_secs {
            clean_up(
                job,
                Err(
                    ErrorView::Internal(
                        "wheelcache download Job "@ + job + " did not complete within "@ + decimal(
                            timeout_secs as nat,
                        ) + "s"@,
                    ),
                ),
            )
        } else {
            (RefreshPhaseView::Polling, RefreshActionView::GetJob(job))
        },
        (RefreshPhaseView::Polling, RefreshEvent::Job(Ok(status))) => if some_counted(
            status.succeeded,
        ) {
            (RefreshPhaseView::Listing, RefreshActionView::ListPods("job-name="@ + job))
        } else if some_counted(status.failed) {
            clean_up(job, Err(ErrorView::Internal("wheelcache download Job "@ + job + " failed"@)))
        } else {
            (RefreshPhaseView::Sleeping, RefreshActionView::Sleep(3))
        },
        (RefreshPhaseView::Polling, RefreshEvent::Job(Err(e))) => clean_up(job, Err(e@)),
        (RefreshPhaseView::Sleeping, RefreshEvent::Slept) => (
            RefreshPhaseView::Timing,
            RefreshActionView::AskTime,
        ),
        (RefreshPhaseView::Listing, RefreshEvent::Pods(Ok(pods))) => match first_pod(pods@) {
            Some(pod) => (RefreshPhaseView::Reading, RefreshActionView::ReadLogs(pod)),
            None => clean_up(job, Err(ErrorView::Internal("no pod found for job "@ + job))),
        },
        (RefreshPhaseView::Listing, RefreshEvent::Pods(Err(e))) => clean_up(job, Err(e@)),
        (RefreshPhaseView::Reading, RefreshEvent::Logs(Ok(logs))) => clean_up(
            job,
            Ok(wheel_names(lines(logs@))),
        ),
        (RefreshPhaseView::Reading, RefreshEvent::Logs(Err(e))) => clean_up(job, Err(e@)),
        (RefreshPhaseView::Cleaning(outcome), RefreshEvent::Deleted) => finish(outcome),
        _ => finish(Err(ErrorView::Internal("wheelcache refresh got an answer out of turn"@))),
    }
}

/// One step of filling the directory of `driver` in the wheel cache with a Job that runs `image`:
/// what is to be done next, and what is waited for then. A Job that is left from an earlier refresh
/// is deleted first, since the name is taken otherwise. The new Job is looked at every few seconds
/// until it has ended or the time is over; what it downloaded is read from the log of its pod; and
/// it is deleted whether it succeeded or not, also where its state or its log cannot be read. An
/// answer to something that was not asked ends the refresh with an error.
pub fn refresh(
    namespace: &str,
    pvc_name: &str,
    image: &str,
    driver: &DriverSpec,
    timeout_secs: u64,
    phase: RefreshPhase,
    event: RefreshEvent,
) -> (r: (RefreshPhase, RefreshAction))
    ensures
        (r.0@, r.1@) == refresh_step(
            namespace@,
            pvc_name@,
            image@,
            driver@,
            timeout_secs,
            phase@,
            event,
        ),
{
    let job = job_name_of(driver.name.as_str());
    match (phase, event) {
        (RefreshPhase::Start, RefreshEvent::Begin) => (
            RefreshPhase::Clearing,
            RefreshAction::DeleteJob(job),
        ),
        (RefreshPhase::Clearing, RefreshEvent::Deleted) => (
            RefreshPhase::Creating,
            RefreshAction::CreateJob(job_manifest(namespace, pvc_name, image, driver)),
        ),
        (RefreshPhase::Creating, RefreshEvent::Created(Ok(()))) => (
            RefreshPhase::Timing,
            RefreshAction::AskTime,
        ),
        (RefreshPhase::Creating, RefreshEvent::Created(Err(e))) => (
            RefreshPhase::Done,
            RefreshAction::Finish(Err(e)),
        ),
        (RefreshPhase::Timing, RefreshEvent::Elapsed(secs)) => if secs >= timeout_secs {
            let mut why = concat("wheelcache download Job ", job.as_str());
            why.append(" did not complete within ");
            why.append(decimal_of(timeout_secs).as_str());
            why.append("s");
            (
                RefreshPhase::Cleaning(Err(GuardianError::Internal(why))),
                RefreshAction::DeleteJob(job),
            )
        } else {
            (RefreshPhase::Polling, RefreshAction::GetJob(job))
        },
        (RefreshPhase::Polling, RefreshEvent::Job(Ok(status))) => if counted(status.succeeded) {
            (
                RefreshPhase::Listing,
                RefreshAction::ListPods(concat("job-name=", job.as_str())),
            )
        } else if counted(status.failed) {
            let mut why = concat("wheelcache download Job ", job.as_str());
            why.append(" failed");
            (
                RefreshPhase::Cleaning(Err(GuardianError::Internal(why))),
                RefreshAction::DeleteJob(job),
            )
        } else {
            (RefreshPhase::Sleeping, RefreshAction::Sleep(3))
        },
        (RefreshPhase::Polling, RefreshEvent::Job(Err(e))) => (
            RefreshPhase::Cleaning(Err(e)),
            RefreshAction::DeleteJob(job),
        ),
        (RefreshPhase::Sleeping, RefreshEvent::Slept) => (
            RefreshPhase::Timing,
            RefreshAction::AskTime,
        ),
        (RefreshPhase::Listing, RefreshEvent::Pods(Ok(pods))) => match first_pod_name(&pods) {
            Some(pod) => (RefreshPhase::Reading, RefreshAction::ReadLogs(pod)),
            None => (
                RefreshPhase::Cleaning(
                    Err(GuardianError::Internal(concat("no pod found for job ", job.as_str()))),
                ),
                RefreshAction::DeleteJob(job),
            ),
        },
        (RefreshPhase::Listing, RefreshEvent::Pods(Err(e))) => (
            RefreshPhase::Cleaning(Err(e)),
            RefreshAction::DeleteJob(job),
        ),
        (RefreshPhase::Reading, RefreshEvent::Logs(Ok(logs))) => (
            RefreshPhase::Cleaning(Ok(read_job_pod_wheel_list(logs.as_str()))),
            RefreshAction::DeleteJob(job),
        ),
        (RefreshPhase::Reading, RefreshEvent::Logs(Err(e))) => (
            RefreshPhase::Cleaning(Err(e)),
            RefreshAction::DeleteJob(job),
        ),
        (RefreshPhase::Cleaning(outcome), RefreshEvent::Deleted) => (
            RefreshPhase::Done,
            RefreshAction::Finish(outcome),
        ),
        _ => (
            RefreshPhase::Done,
            RefreshAction::Finish(
                Err(
                    GuardianError::Internal(
                        "wheelcache refresh got an answer out of turn".to_owned(),
                    ),
                ),
            ),
        ),
    }
}

fn first_pod_name(pods: &Vec<Pod>) -> (r: Option<String>)
    ensures
        opt_text(r) == first_pod(pods@),
{
    if pods.len() > 0 {
        pods[0].name.clone()
    } else {
        None
    }
}

} // verus!
