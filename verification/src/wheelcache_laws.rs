//! What holds of every refresh of the wheel cache, whatever it is answered.
use crate::config::DriverSpecView;
use crate::error::{ErrorView, GuardianError};
use crate::k8s::Pod;
use crate::numbers::decimal;
use crate::text::{lemma_split_len, lines, split, trim};
use crate::text_lemmas::{free_of, lemma_split_at_sep};
use crate::wheelcache::{
    download_job, download_script, is_universal, job_name, lemma_wheel_parts_unique,
    lemma_wheel_pieces, portability_of,
    refresh_step, some_counted, wheel_names, wheel_parts, JobStatus, Portability, RefreshActionView,
    RefreshEvent, RefreshPhaseView,
};
use vstd::prelude::*;

verus! {

/// Whether an event is the answer to what a refresh waits for.
pub open spec fn answers(phase: RefreshPhaseView, event: RefreshEvent) -> bool {
    match phase {
        RefreshPhaseView::Start => event is Begin,
        RefreshPhaseView::Clearing => event is Deleted,
        RefreshPhaseView::Creating => event is Created,
        RefreshPhaseView::Timing => event is Elapsed,
        RefreshPhaseView::Polling => event is Job,
        RefreshPhaseView::Sleeping => event is Slept,
        RefreshPhaseView::Listing => event is Pods,
        RefreshPhaseView::Reading => event is Logs,
        RefreshPhaseView::Cleaning(_) => event is Deleted,
        RefreshPhaseView::Done => false,
    }
}

/// A refresh ends only behind the deletion of its Job, unless the Job was refused: whether the Job
/// succeeded, failed, took too long or could not be looked at, it is deleted.
pub proof fn law_an_ended_job_is_deleted(
    namespace: Seq<char>,
    pvc_name: Seq<char>,
    image: Seq<char>,
    driver: DriverSpecView,
    timeout_secs: u64,
    phase: RefreshPhaseView,
    event: RefreshEvent,
)
    requires
        answers(phase, event),
        refresh_step(namespace, pvc_name, image, driver, timeout_secs, phase, event).1 is Finish,
    ensures
        phase is Cleaning || (event matches RefreshEvent::Created(Err(_))),
{
}

/// A refresh that hands its outcome over has asked for the deletion of the Job, of that name, as the
/// last thing before.
pub proof fn law_cleaning_deletes_the_job(
    namespace: Seq<char>,
    pvc_name: Seq<char>,
    image: Seq<char>,
    driver: DriverSpecView,
    timeout_secs: u64,
    phase: RefreshPhaseView,
    event: RefreshEvent,
)
    requires
        refresh_step(namespace, pvc_name, image, driver, timeout_secs, phase, event).0 is Cleaning,
    ensures
        refresh_step(namespace, pvc_name, image, driver, timeout_secs, phase, event).1
            == RefreshActionView::DeleteJob(job_name(driver.name)),
{
}

/// How much of a refresh is left, but for further looks at the Job.
pub open spec fn refresh_left(phase: RefreshPhaseView) -> nat {
    match phase {
        RefreshPhaseView::Start => 9,
        RefreshPhaseView::Clearing => 8,
        RefreshPhaseView::Creating => 7,
        RefreshPhaseView::Sleeping => 6,
        RefreshPhaseView::Timing => 5,
        RefreshPhaseView::Polling => 4,
        RefreshPhaseView::Listing => 3,
        RefreshPhaseView::Reading => 2,
        RefreshPhaseView::Cleaning(_) => 1,
        RefreshPhaseView::Done => 0,
    }
}

/// A refresh goes on only while the Job has neither succeeded nor failed, and no further look at the
/// Job follows once the time is over. Every other step brings it nearer to its end.
pub proof fn law_a_refresh_ends_with_the_job_or_the_time(
    namespace: Seq<char>,
    pvc_name: Seq<char>,
    image: Seq<char>,
    driver: DriverSpecView,
    timeout_secs: u64,
    phase: RefreshPhaseView,
    event: RefreshEvent,
)
    requires
        phase !is Done,
    ensures
        ({
            let next = refresh_step(
                namespace,
                pvc_name,
                image,
                driver,
                timeout_secs,
                phase,
                event,
            );
            &&& refresh_left(next.0) >= refresh_left(phase) ==> {
                &&& phase is Polling
                &&& next.0 is Sleeping
                &&& event matches RefreshEvent::Job(Ok(status))
                &&& !some_counted(status.succeeded) && !some_counted(status.failed)
            }
            &&& next.1 is GetJob ==> (event matches RefreshEvent::Elapsed(secs) && secs
                < timeout_secs)
        }),
{
}

/// The only Job that a refresh creates is the one that downloads the wheels of its driver with its
/// image, and it is created once the name is free.
pub proof fn law_a_refresh_runs_the_given_image(
    namespace: Seq<char>,
    pvc_name: Seq<char>,
    image: Seq<char>,
    driver: DriverSpecView,
    timeout_secs: u64,
    phase: RefreshPhaseView,
    event: RefreshEvent,
)
    ensures
        refresh_step(
            namespace,
            pvc_name,
            image,
            driver,
            timeout_secs,
            phase,
            event,
        ).1 matches RefreshActionView::CreateJob(job) ==> phase is Clearing && job == download_job(
            namespace,
            pvc_name,
            image,
            driver,
        ),
{
}

/// What a look at the Job leads to. A given number of successes, if it is greater than zero, leads to
/// the pods of the Job. Without one, the refresh fails if and only if a number of failures is given
/// and greater than zero. Where both numbers are missing or not greater than zero, the Job is looked
/// at again three seconds later.
pub proof fn law_what_the_state_of_the_job_leads_to(
    namespace: Seq<char>,
    pvc_name: Seq<char>,
    image: Seq<char>,
    driver: DriverSpecView,
    timeout_secs: u64,
    status: JobStatus,
)
    ensures
        ({
            let job = "neutron-ml2-wheelcache-"@ + driver.name;
            let failed = Err(ErrorView::Internal("wheelcache download Job "@ + job + " failed"@));
            let next = refresh_step(
                namespace,
                pvc_name,
                image,
                driver,
                timeout_secs,
                RefreshPhaseView::Polling,
                RefreshEvent::Job(Ok(status)),
            );
            &&& (status.succeeded is None || status.succeeded->0 <= 0) && (status.failed is None
                || status.failed->0 <= 0) ==> next.0 is Sleeping && next.1
                == RefreshActionView::Sleep(3)
            &&& status.succeeded is Some && status.succeeded->0 > 0 ==> next.0 is Listing && next.1
                == RefreshActionView::ListPods("job-name="@ + job)
            &&& next.0 is Cleaning ==> next.0 == RefreshPhaseView::Cleaning(failed) && next.1
                == RefreshActionView::DeleteJob(job)
            &&& next.0 is Cleaning <==> status.failed is Some && status.failed->0 > 0 && (
            status.succeeded is None || status.succeeded->0 <= 0)
        }),
{
}

/// Where a refresh stands after its first step and then these events.
pub open spec fn refreshing(
    namespace: Seq<char>,
    pvc_name: Seq<char>,
    image: Seq<char>,
    driver: DriverSpecView,
    timeout_secs: u64,
    events: Seq<RefreshEvent>,
) -> (RefreshPhaseView, RefreshActionView)
    decreases events.len(),
{
    if events.len() == 0 {
        refresh_step(
            namespace,
            pvc_name,
            image,
            driver,
            timeout_secs,
            RefreshPhaseView::Start,
            RefreshEvent::Begin,
        )
    } else {
        refresh_step(
            namespace,
            pvc_name,
            image,
            driver,
            timeout_secs,
            refreshing(
                namespace,
                pvc_name,
                image,
                driver,
                timeout_secs,
                events.drop_last(),
            ).0,
            events.last(),
        )
    }
}

/// Whether a line of the log is the name of a wheel.
pub open spec fn names_a_wheel(line: Seq<char>) -> bool {
    line.len() >= 4 && line.skip(line.len() - 4) == ".whl"@
}

/// The lines of the log that are names of wheels, without the white space around them, in their
/// order.
pub open spec fn wheels_in(ls: Seq<Seq<char>>) -> Seq<Seq<char>> {
    ls.map_values(|l: Seq<char>| trim(l)).filter(|l: Seq<char>| names_a_wheel(l))
}

/// What counts as downloaded is every line of the log that ends in `.whl`, and no other.
pub proof fn law_every_wheel_in_the_log_counts(ls: Seq<Seq<char>>)
    ensures
        wheel_names(ls) == wheels_in(ls),
    decreases ls.len(),
{
    reveal(Seq::filter);
    reveal_strlit(".whl");
    if ls.len() > 0 {
        let stripped = ls.map_values(|l: Seq<char>| trim(l));
        law_every_wheel_in_the_log_counts(ls.drop_last());
        assert(stripped.drop_last() =~= ls.drop_last().map_values(|l: Seq<char>| trim(l)));
    }
}

/// Whether events are those of a refresh that goes well up to the first look at the Job, with the
/// looks in between at a Job that has not ended.
pub open spec fn is_waiting(events: Seq<RefreshEvent>, timeout_secs: u64) -> bool
    decreases events.len(),
{
    if events.len() == 2 {
        events[0] is Deleted && (events[1] matches RefreshEvent::Created(Ok(_)))
    } else if events.len() >= 5 {
        let n = events.len() as int;
        &&& events[n - 3] matches RefreshEvent::Elapsed(secs) && secs < timeout_secs
        &&& events[n - 2] matches RefreshEvent::Job(Ok(status)) && !(status.succeeded is Some
            && status.succeeded->0 > 0) && !(status.failed is Some && status.failed->0 > 0)
        &&& events[n - 1] is Slept
        &&& is_waiting(events.take(n - 3), timeout_secs)
    } else {
        false
    }
}

/// However long the Job takes within its time, the refresh asks for the time and then looks at the
/// Job once more. It deletes an older Job first and creates its own once.
pub proof fn law_a_refresh_waits_for_the_job(
    namespace: Seq<char>,
    pvc_name: Seq<char>,
    image: Seq<char>,
    driver: DriverSpecView,
    timeout_secs: u64,
    events: Seq<RefreshEvent>,
    secs: u64,
)
    requires
        is_waiting(events, timeout_secs),
    ensures
        ({
            let job = "neutron-ml2-wheelcache-"@ + driver.name;
            let waiting = refreshing(namespace, pvc_name, image, driver, timeout_secs, events);
            let asked = refresh_step(
                namespace,
                pvc_name,
                image,
                driver,
                timeout_secs,
                waiting.0,
                RefreshEvent::Elapsed(secs),
            );
            let first = refreshing(
                namespace,
                pvc_name,
                image,
                driver,
                timeout_secs,
                Seq::empty(),
            );
            &&& first.1 == RefreshActionView::DeleteJob(job)
            &&& waiting.1 is AskTime
            &&& if secs < timeout_secs {
                asked.1 == RefreshActionView::GetJob(job) && asked.0 is Polling
            } else {
                &&& asked.1 == RefreshActionView::DeleteJob(job)
                &&& asked.0 == RefreshPhaseView::Cleaning(
                    Err(
                        ErrorView::Internal(
                            "wheelcache download Job "@ + job + " did not complete within "@
                                + decimal(timeout_secs as nat) + "s"@,
                        ),
                    ),
                )
            }
        }),
    decreases events.len(),
{
    let n = events.len() as int;
    reveal_with_fuel(refreshing, 4);
    if n == 2 {
        assert(events.drop_last().last() == events[0]);
        assert(events.drop_last().drop_last() =~= Seq::<RefreshEvent>::empty());
    } else {
        law_a_refresh_waits_for_the_job(
            namespace,
            pvc_name,
            image,
            driver,
            timeout_secs,
            events.take(n - 3),
            0,
        );
        assert(events.drop_last().drop_last().drop_last() =~= events.take(n - 3));
        assert(events.drop_last().last() == events[n - 2]);
        assert(events.drop_last().drop_last().last() == events[n - 3]);
        law_what_the_state_of_the_job_leads_to(
            namespace,
            pvc_name,
            image,
            driver,
            timeout_secs,
            match events[n - 2] {
                RefreshEvent::Job(Ok(status)) => status,
                _ => arbitrary(),
            },
        );
    }
}

/// A Job that succeeds gives what the log of the first pod of it names: exactly the lines of the log
/// that are names of wheels. The Job is deleted in between. What cannot be read along the way is the
/// error that the refresh comes to.
pub proof fn law_a_refresh_gives_what_the_log_names(
    namespace: Seq<char>,
    pvc_name: Seq<char>,
    image: Seq<char>,
    driver: DriverSpecView,
    timeout_secs: u64,
    pods: Result<Vec<Pod>, GuardianError>,
    logs: Result<String, GuardianError>,
    status: Result<JobStatus, GuardianError>,
    outcome: Result<Seq<Seq<char>>, ErrorView>,
)
    ensures
        ({
            let job = "neutron-ml2-wheelcache-"@ + driver.name;
            let listed = refresh_step(
                namespace,
                pvc_name,
                image,
                driver,
                timeout_secs,
                RefreshPhaseView::Listing,
                RefreshEvent::Pods(pods),
            );
            let read = refresh_step(
                namespace,
                pvc_name,
                image,
                driver,
                timeout_secs,
                RefreshPhaseView::Reading,
                RefreshEvent::Logs(logs),
            );
            let looked = refresh_step(
                namespace,
                pvc_name,
                image,
                driver,
                timeout_secs,
                RefreshPhaseView::Polling,
                RefreshEvent::Job(status),
            );
            let cleaned = refresh_step(
                namespace,
                pvc_name,
                image,
                driver,
                timeout_secs,
                RefreshPhaseView::Cleaning(outcome),
                RefreshEvent::Deleted,
            );
            &&& match pods {
                Ok(found) => if found@.len() > 0 && found@[0].name is Some {
                    listed.1 == RefreshActionView::ReadLogs(found@[0].name->0@) && listed.0
                        is Reading
                } else {
                    listed.0 == RefreshPhaseView::Cleaning(
                        Err(ErrorView::Internal("no pod found for job "@ + job)),
                    )
                },
                Err(e) => listed.0 == RefreshPhaseView::Cleaning(Err(e@)),
            }
            &&& match logs {
                Ok(text) => read.0 == RefreshPhaseView::Cleaning(Ok(wheels_in(lines(text@)))),
                Err(e) => read.0 == RefreshPhaseView::Cleaning(Err(e@)),
            }
            &&& status matches Err(e) ==> looked.0 == RefreshPhaseView::Cleaning(Err(e@))
            &&& cleaned.0 is Done
            &&& cleaned.1 == RefreshActionView::Finish(outcome)
        }),
{
    match logs {
        Ok(text) => law_every_wheel_in_the_log_counts(lines(text@)),
        Err(_) => {},
    }
}

/// A Job that is refused ends the refresh with what the refusal says, and an answer to something else
/// than what is waited for ends it with an error of its own.
pub proof fn law_what_is_refused_ends_the_refresh(
    namespace: Seq<char>,
    pvc_name: Seq<char>,
    image: Seq<char>,
    driver: DriverSpecView,
    timeout_secs: u64,
    phase: RefreshPhaseView,
    event: RefreshEvent,
    error: GuardianError,
)
    ensures
        refresh_step(
            namespace,
            pvc_name,
            image,
            driver,
            timeout_secs,
            RefreshPhaseView::Creating,
            RefreshEvent::Created(Err(error)),
        ).1 == RefreshActionView::Finish(Err(error@)),
        !answers(phase, event) ==> refresh_step(
            namespace,
            pvc_name,
            image,
            driver,
            timeout_secs,
            phase,
            event,
        ).1 == RefreshActionView::Finish(
            Err(ErrorView::Internal("wheelcache refresh got an answer out of turn"@)),
        ),
{
}

/// A wheel is fit for any image if and only if the last two of the three tags in its name are `none`
/// and `any`, whatever its name, its version and its first tag are.
pub proof fn law_the_tags_of_a_wheel_decide(
    stem: Seq<char>,
    python: Seq<char>,
    abi: Seq<char>,
    platform: Seq<char>,
)
    requires
        exists|i: int| 0 < i < stem.len() - 1 && stem[i] == '-',
        !stem.contains('\n'),
        python.len() > 0 && abi.len() > 0 && platform.len() > 0,
        !python.contains('-') && !abi.contains('-') && !platform.contains('-'),
    ensures
        is_universal(stem + "-"@ + python + "-"@ + abi + "-"@ + platform + ".whl"@) <==> abi
            == "none"@ && platform == "any"@,
{
    reveal_strlit("-");
    let filename = stem + "-"@ + python + "-"@ + abi + "-"@ + platform + ".whl"@;
    assert(filename =~= stem.push('-') + python.push('-') + abi.push('-') + platform + ".whl"@);
    assert forall|s: Seq<char>, c: char| !#[trigger] s.contains(c) implies free_of(s, c) by {
        assert forall|i: int| 0 <= i < s.len() implies s[i] != c by {}
    }
    assert(wheel_parts(filename, stem, python, abi, platform));
    if is_universal(filename) {
        let (stem2, python2) = choose|stem2: Seq<char>, python2: Seq<char>|
            wheel_parts(filename, stem2, python2, "none"@, "any"@);
        lemma_wheel_parts_unique(
            filename,
            stem,
            python,
            abi,
            platform,
            stem2,
            python2,
            "none"@,
            "any"@,
        );
    }
}

/// The name of a wheel for any ABI and any platform ends in `-none-any.whl`, and has a name, a version
/// and a tag in front of that, with hyphens between them. A name of another shape is pinned.
pub proof fn law_what_a_universal_name_looks_like(filename: Seq<char>)
    requires
        is_universal(filename),
    ensures
        split(filename, '-').len() >= 5,
        split(filename, '-')[split(filename, '-').len() - 3].len() > 0,
        filename.len() > 13,
        filename.skip(filename.len() - 13) == "-none-any.whl"@,
{
    reveal_strlit("-none-any.whl");
    reveal_strlit("none");
    reveal_strlit("any");
    reveal_strlit(".whl");
    let (stem, python) = choose|stem: Seq<char>, python: Seq<char>|
        wheel_parts(filename, stem, python, "none"@, "any"@);
    lemma_wheel_pieces(filename, stem, python, "none"@, "any"@);
    let i = choose|i: int| 0 < i < stem.len() - 1 && stem[i] == '-';
    lemma_split_at_sep(stem.take(i), stem.skip(i + 1), '-');
    assert(stem.take(i).push('-') + stem.skip(i + 1) =~= stem);
    lemma_split_len(stem.take(i), '-');
    lemma_split_len(stem.skip(i + 1), '-');
    let head = stem.push('-') + python;
    assert(filename =~= head + "-none-any.whl"@);
    assert(filename.skip(head.len() as int) =~= "-none-any.whl"@);
}

/// One wheel that fits one image only makes all of them pinned to it; wheels that fit any image are
/// so together; no wheels at all are an error.
pub proof fn law_one_pinned_wheel_is_enough(filenames: Seq<String>)
    ensures
        portability_of(filenames) is Err <==> filenames.len() == 0,
        portability_of(filenames) matches Ok(kind) ==> (kind == Portability::VersionPinned
            <==> exists|i: int|
            0 <= i < filenames.len() && !is_universal((#[trigger] filenames[i])@)),
        portability_of(filenames) matches Err(e) ==> e == ErrorView::Internal(
            "no .whl filenames produced by download"@,
        ),
{
}

/// The Job downloads the package of the driver, as it is given, into the directory of the driver in
/// the wheel cache, and then lists that very directory.
pub proof fn law_the_job_downloads_the_package(driver: DriverSpecView)
    ensures
        download_script(driver) == "set -eu; mkdir -p /wheelcache/"@ + driver.name
            + "; pip download --no-cache-dir --dest /wheelcache/"@ + driver.name + " "@
            + driver.pip_package + "; ls -1 /wheelcache/"@ + driver.name,
{
    reveal_strlit("/wheelcache");
    reveal_strlit("/");
    reveal_strlit("set -eu; mkdir -p ");
    reveal_strlit("set -eu; mkdir -p /wheelcache/");
    reveal_strlit("; pip download --no-cache-dir --dest ");
    reveal_strlit("; pip download --no-cache-dir --dest /wheelcache/");
    reveal_strlit("; ls -1 ");
    reveal_strlit("; ls -1 /wheelcache/");
    assert("set -eu; mkdir -p "@ + ("/wheelcache"@ + "/"@) =~= "set -eu; mkdir -p /wheelcache/"@);
    assert("; pip download --no-cache-dir --dest "@ + ("/wheelcache"@ + "/"@)
        =~= "; pip download --no-cache-dir --dest /wheelcache/"@);
    assert("; ls -1 "@ + ("/wheelcache"@ + "/"@) =~= "; ls -1 /wheelcache/"@);
    assert(download_script(driver) =~= "set -eu; mkdir -p "@ + ("/wheelcache"@ + "/"@) + driver.name
        + ("; pip download --no-cache-dir --dest "@ + ("/wheelcache"@ + "/"@)) + driver.name + " "@
        + driver.pip_package + ("; ls -1 "@ + ("/wheelcache"@ + "/"@)) + driver.name);
}

} // verus!
