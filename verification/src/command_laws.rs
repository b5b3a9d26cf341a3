//! What holds of the commands that install the drivers, and of what is looked up in the cluster.
use crate::bytes::utf8_refusal;
use crate::config::DriverSpecView;
use crate::error::ErrorView;
use crate::k8s::{
    captured, configmap_text, find_links, image_of, install_command, is_key_of, is_ready,
    key_managed, label_terms, packages, ready_pod, says_ready, secret_text, Container, Deployment,
    ExecCapture, ManagedField, Pod, PLUGIN_MOUNT_PATH,
};
use crate::text::{join, split};
use crate::text_lemmas::{free_of, lemma_split_at_sep, lemma_split_free, lemma_split_join};
use vstd::prelude::*;
use vstd::utf8::{
    decode_utf8_encode_utf8, encode_utf8, encode_utf8_decode_utf8, encode_utf8_valid_utf8,
    valid_utf8,
};

verus! {

/// Whether a text ends with the given words, with a blank in front of each.
pub open spec fn ends_in_words(s: Seq<char>, words: Seq<Seq<char>>) -> bool
    decreases words.len(),
{
    if words.len() == 0 {
        true
    } else {
        let last = " "@ + words.last();
        &&& last.len() <= s.len()
        &&& s.skip(s.len() - last.len()) == last
        &&& ends_in_words(s.take(s.len() - last.len()), words.drop_last())
    }
}

/// A text followed by words, each with a blank in front, ends in them.
proof fn lemma_ends_in_words(head: Seq<char>, words: Seq<Seq<char>>)
    requires
        words.len() > 0,
    ensures
        ends_in_words(head + " "@ + join(words, " "@), words),
    decreases words.len(),
{
    let s = head + " "@ + join(words, " "@);
    let last = " "@ + words.last();
    if words.len() == 1 {
        assert(s =~= head + last);
        assert(s.skip(head.len() as int) =~= last);
        assert(ends_in_words(head, words.drop_last()));
        assert(s.take(head.len() as int) =~= head);
    } else {
        let front = head + " "@ + join(words.drop_last(), " "@);
        lemma_ends_in_words(head, words.drop_last());
        assert(s =~= front + last);
        assert(s.skip(front.len() as int) =~= last);
        assert(s.take(front.len() as int) =~= front);
    }
}

/// The command that installs the drivers ends in as many words as there are drivers: the package of
/// each driver, character for character, in the order of the drivers. For one driver it ends in a
/// blank and the package of that driver.
pub proof fn law_every_package_is_installed(drivers: Seq<DriverSpecView>, words: Seq<Seq<char>>)
    requires
        drivers.len() > 0,
        words.len() == drivers.len(),
        forall|i: int| 0 <= i < words.len() ==> #[trigger] words[i] == drivers[i].pip_package,
    ensures
        ends_in_words(install_command(drivers), words),
        drivers.len() == 1 ==> ({
            let last = " "@ + drivers[0].pip_package;
            &&& install_command(drivers).len() >= last.len()
            &&& install_command(drivers).skip(install_command(drivers).len() - last.len()) == last
        }),
{
    let links = find_links(drivers);
    let head = "pip install --no-index "@ + join(links, " "@) + " --target="@
        + PLUGIN_MOUNT_PATH@;
    assert(words =~= packages(drivers));
    assert(install_command(drivers) =~= head + " "@ + join(words, " "@));
    lemma_ends_in_words(head, words);
    assert(ends_in_words(install_command(drivers), words));
}

/// The command that installs the drivers never asks the network, looks for wheels in the directory of
/// each driver, and installs the package of each driver into the directory of the plugins, whatever
/// their names and packages are.
pub proof fn law_the_install_command(
    drivers: Seq<DriverSpecView>,
    links: Seq<Seq<char>>,
    words: Seq<Seq<char>>,
)
    requires
        links.len() == drivers.len(),
        words.len() == drivers.len(),
        forall|i: int|
            0 <= i < links.len() ==> #[trigger] links[i] == "--find-links=/wheelcache/"@
                + drivers[i].name,
        forall|i: int| 0 <= i < words.len() ==> #[trigger] words[i] == drivers[i].pip_package,
    ensures
        install_command(drivers) == "pip install --no-index "@ + join(links, " "@)
            + " --target=/opt/ml2-plugins "@ + join(words, " "@),
{
    reveal_strlit("--find-links=");
    reveal_strlit("--find-links=/wheelcache/");
    reveal_strlit("/wheelcache");
    reveal_strlit("/");
    reveal_strlit(" ");
    reveal_strlit(" --target=");
    reveal_strlit("/opt/ml2-plugins");
    reveal_strlit(" --target=/opt/ml2-plugins ");
    assert forall|i: int| 0 <= i < links.len() implies #[trigger] find_links(drivers)[i]
        == links[i] by {
        assert(find_links(drivers)[i] =~= links[i]);
    }
    assert(find_links(drivers) =~= links);
    assert(packages(drivers) =~= words);
    assert(" --target="@ + "/opt/ml2-plugins"@ + " "@ =~= " --target=/opt/ml2-plugins "@);
    assert(install_command(drivers) =~= "pip install --no-index "@ + join(links, " "@) + (
    " --target="@ + "/opt/ml2-plugins"@ + " "@) + join(words, " "@));
}

/// Whether neither the name nor the package of a driver has a blank in it.
pub open spec fn is_plain(driver: DriverSpecView) -> bool {
    !driver.name.contains(' ') && !driver.pip_package.contains(' ')
}

/// Read word by word, the command for drivers without blanks in their names and packages is `pip
/// install --no-index`, then for each driver its directory in the wheel cache as a place to look in,
/// then the directory to install into, then the package of each driver, and nothing else.
pub proof fn law_the_words_of_the_install_command(drivers: Seq<DriverSpecView>)
    requires
        drivers.len() > 0,
        forall|i: int| 0 <= i < drivers.len() ==> is_plain(#[trigger] drivers[i]),
    ensures
        ({
            let words = split(install_command(drivers), ' ');
            let n = drivers.len() as int;
            &&& words.len() == 4 + 2 * n
            &&& words[0] == "pip"@ && words[1] == "install"@ && words[2] == "--no-index"@
            &&& forall|i: int|
                0 <= i < n ==> #[trigger] words[3 + i] == "--find-links=/wheelcache/"@
                    + drivers[i].name
            &&& words[3 + n] == "--target=/opt/ml2-plugins"@
            &&& forall|i: int| 0 <= i < n ==> #[trigger] words[4 + n + i] == drivers[i].pip_package
        }),
{
    reveal_strlit(" ");
    reveal_strlit("pip install --no-index ");
    reveal_strlit("pip");
    reveal_strlit("install");
    reveal_strlit("--no-index");
    reveal_strlit("--find-links=");
    reveal_strlit("--find-links=/wheelcache/");
    reveal_strlit("/wheelcache");
    reveal_strlit("/");
    reveal_strlit(" --target=");
    reveal_strlit("/opt/ml2-plugins");
    reveal_strlit("--target=/opt/ml2-plugins");
    let n = drivers.len() as int;
    let links = find_links(drivers);
    let wanted = packages(drivers);
    let blank = seq![' '];
    assert(" "@ =~= blank);
    assert forall|s: Seq<char>| !#[trigger] s.contains(' ') implies free_of(s, ' ') by {
        assert forall|i: int| 0 <= i < s.len() implies s[i] != ' ' by {}
    }
    assert forall|i: int| 0 <= i < n implies #[trigger] links[i] == "--find-links=/wheelcache/"@
        + drivers[i].name && free_of(links[i], ' ') by {
        assert(is_plain(drivers[i]));
        assert(links[i] =~= "--find-links=/wheelcache/"@ + drivers[i].name);
        assert(free_of(drivers[i].name, ' '));
    }
    assert forall|i: int| 0 <= i < n implies #[trigger] wanted[i] == drivers[i].pip_package
        && free_of(wanted[i], ' ') by {
        assert(is_plain(drivers[i]));
    }
    let pip = "pip"@;
    let install = "install"@;
    let no_index = "--no-index"@;
    let target = "--target=/opt/ml2-plugins"@;
    let rest = join(wanted, blank);
    let middle = join(links, blank);
    assert(free_of(pip, ' ') && free_of(install, ' ') && free_of(no_index, ' ') && free_of(
        target,
        ' ',
    ));
    lemma_split_free(pip, ' ');
    lemma_split_free(install, ' ');
    lemma_split_free(no_index, ' ');
    lemma_split_free(target, ' ');
    lemma_split_join(links, ' ');
    lemma_split_join(wanted, ' ');
    let t4 = target.push(' ') + rest;
    let t3 = middle.push(' ') + t4;
    let t2 = no_index.push(' ') + t3;
    let t1 = install.push(' ') + t2;
    let t0 = pip.push(' ') + t1;
    lemma_split_at_sep(target, rest, ' ');
    lemma_split_at_sep(middle, t4, ' ');
    lemma_split_at_sep(no_index, t3, ' ');
    lemma_split_at_sep(install, t2, ' ');
    lemma_split_at_sep(pip, t1, ' ');
    assert("pip install --no-index "@ =~= pip.push(' ') + install.push(' ') + no_index.push(' '));
    assert(" --target="@ + "/opt/ml2-plugins"@ =~= blank + target);
    assert(install_command(drivers) =~= t0);
    let words = split(t0, ' ');
    assert(words =~= seq![pip].push(install).push(no_index) + links + seq![target] + wanted);
    assert forall|i: int| 0 <= i < n implies #[trigger] words[3 + i] == "--find-links=/wheelcache/"@
        + drivers[i].name by {
        assert(words[3 + i] == links[i]);
    }
    assert forall|i: int| 0 <= i < n implies #[trigger] words[4 + n + i]
        == drivers[i].pip_package by {
        assert(words[4 + n + i] == wanted[i]);
    }
}

/// The image of a container is that of the first container of its name.
pub proof fn law_the_first_container_of_a_name_counts(
    containers: Seq<Container>,
    name: Seq<char>,
    i: int,
)
    ensures
        0 <= i < containers.len() && containers[i].name@ == name && (forall|j: int|
            0 <= j < i ==> (#[trigger] containers[j]).name@ != name) ==> match containers[i].image {
            Some(image) => image_of(containers, name) == Some(image@),
            None => image_of(containers, name) is None,
        },
        (forall|j: int| 0 <= j < containers.len() ==> (#[trigger] containers[j]).name@ != name)
            ==> image_of(containers, name) is None,
    decreases containers.len(),
{
    if containers.len() > 0 {
        let rest = containers.drop_first();
        law_the_first_container_of_a_name_counts(rest, name, i - 1);
        assert forall|j: int| 0 <= j < rest.len() implies #[trigger] rest[j] == containers[j
            + 1] by {}
        if containers[0].name@ != name {
            if forall|j: int| 0 <= j < i ==> (#[trigger] containers[j]).name@ != name {
                assert forall|j: int| 0 <= j < i - 1 && j < rest.len() implies (
                #[trigger] rest[j]).name@ != name by {
                    assert(containers[j + 1].name@ != name);
                }
            }
        }
    }
}

/// What is read of a Deployment are the containers, the init containers and the labels that it has;
/// what is not there counts as none. The image of a container is looked for among the containers.
pub proof fn law_what_a_deployment_has(deployment: Deployment)
    ensures
        forall|name: Seq<char>| #[trigger]
            deployment.image(name) == image_of(deployment.containers(), name),
        deployment.spec matches Some(s) ==> {
            &&& s.match_labels matches Some(labels) ==> deployment.labels() == labels@
            &&& s.match_labels is None ==> deployment.labels().len() == 0
            &&& s.pod_spec matches Some(p) ==> {
                &&& deployment.containers() == p.containers@
                &&& p.init_containers matches Some(cs) ==> deployment.init_containers() == cs@
                &&& p.init_containers is None ==> deployment.init_containers().len() == 0
            }
            &&& s.pod_spec is None ==> deployment.containers().len() == 0
                && deployment.init_containers().len() == 0
        },
        deployment.spec is None ==> deployment.containers().len() == 0
            && deployment.init_containers().len() == 0 && deployment.labels().len() == 0,
{
}

/// Whether a pod has a name and a condition `Ready` that is `True`.
pub open spec fn can_be_looked_into(pod: Pod) -> bool {
    &&& pod.name is Some
    &&& pod.conditions matches Some(conditions) && exists|i: int|
        0 <= i < conditions@.len() && (#[trigger] conditions@[i]).type_@ == "Ready"@
            && conditions@[i].status@ == "True"@
}

/// The pod that is looked into is the first one with a name and a condition `Ready` that is `True`;
/// there is none if and only if there is no such pod.
pub proof fn law_the_first_ready_pod_is_taken(pods: Seq<Pod>)
    ensures
        match ready_pod(pods) {
            Some(name) => exists|i: int|
                0 <= i < pods.len() && can_be_looked_into(#[trigger] pods[i]) && pods[i].name->0@
                    == name && forall|j: int|
                    0 <= j < i ==> !can_be_looked_into(#[trigger] pods[j]),
            None => forall|i: int| 0 <= i < pods.len() ==> !can_be_looked_into(#[trigger] pods[i]),
        },
    decreases pods.len(),
{
    if pods.len() > 0 {
        let rest = pods.drop_first();
        assert forall|j: int| 0 <= j < rest.len() implies #[trigger] rest[j] == pods[j + 1] by {}
        assert(is_ready(pods[0]) && pods[0].name is Some <==> can_be_looked_into(
            pods[0],
        )) by {
            match pods[0].conditions {
                Some(cs) => {
                    if can_be_looked_into(pods[0]) {
                        let i = choose|i: int|
                            0 <= i < cs@.len() && (#[trigger] cs@[i]).type_@ == "Ready"@
                                && cs@[i].status@ == "True"@;
                        assert(says_ready(cs@[i]));
                    }
                },
                None => {},
            }
        }
        law_the_first_ready_pod_is_taken(rest);
        if !can_be_looked_into(pods[0]) {
            match ready_pod(pods) {
                Some(name) => {
                    let i = choose|i: int|
                        0 <= i < rest.len() && can_be_looked_into(#[trigger] rest[i])
                            && rest[i].name->0@ == name && forall|j: int|
                            0 <= j < i ==> !can_be_looked_into(#[trigger] rest[j]);
                    assert(pods[i + 1] == rest[i]);
                    assert forall|j: int| 0 <= j < i + 1 implies !can_be_looked_into(
                        #[trigger] pods[j],
                    ) by {
                        if j > 0 {
                            assert(pods[j] == rest[j - 1]);
                        }
                    }
                },
                None => {
                    assert forall|i: int| 0 <= i < pods.len() implies !can_be_looked_into(
                        #[trigger] pods[i],
                    ) by {
                        if i > 0 {
                            assert(pods[i] == rest[i - 1]);
                        }
                    }
                },
            }
        } else {
            assert(pods[0].name->0@ == ready_pod(pods)->0);
        }
    }
}

/// Read at its commas, the label selector has one term for each label, the key and the value of it
/// with an equals sign in between.
pub proof fn law_the_selector_has_every_label(labels: Seq<(String, String)>)
    requires
        labels.len() > 0,
        forall|i: int|
            0 <= i < labels.len() ==> !(#[trigger] labels[i]).0@.contains(',')
                && !labels[i].1@.contains(','),
    ensures
        ({
            let terms = split(join(label_terms(labels), ","@), ',');
            &&& terms.len() == labels.len()
            &&& forall|i: int|
                0 <= i < terms.len() ==> #[trigger] terms[i] == labels[i].0@ + "="@ + labels[i].1@
        }),
{
    reveal_strlit(",");
    reveal_strlit("=");
    let terms = label_terms(labels);
    assert(","@ =~= seq![',']);
    assert forall|s: Seq<char>| !#[trigger] s.contains(',') implies free_of(s, ',') by {
        assert forall|i: int| 0 <= i < s.len() implies s[i] != ',' by {}
    }
    assert forall|i: int| 0 <= i < terms.len() implies free_of(#[trigger] terms[i], ',') by {
        assert(!labels[i].0@.contains(','));
        assert(free_of(labels[i].0@, ','));
        assert(free_of(labels[i].1@, ','));
    }
    lemma_split_join(terms, ',');
}

/// What a command wrote is taken as it was written, but only if the command ended without a failure;
/// everything else is an error that says why.
pub proof fn law_only_a_command_that_succeeded_counts(capture: ExecCapture)
    ensures
        captured(capture) matches Ok(text) ==> (capture matches ExecCapture::Ended {
            stdout,
            failure,
        } && failure is None && text == stdout@),
        capture matches ExecCapture::Ended { stdout, failure } ==> match failure {
            None => captured(capture) == Ok::<Seq<char>, ErrorView>(stdout@),
            Some(why) => captured(capture) == Err::<Seq<char>, ErrorView>(
                ErrorView::PodExec("command failed: "@ + why@),
            ),
        },
        capture matches ExecCapture::Refused(why) ==> captured(capture) == Err::<
            Seq<char>,
            ErrorView,
        >(ErrorView::Kube(why@)),
        capture matches ExecCapture::Broken(why) ==> captured(capture) == Err::<
            Seq<char>,
            ErrorView,
        >(ErrorView::PodExec(why@)),
{
}

/// A text that was written into a Secret as bytes is read back as the same text, and so is one in a
/// ConfigMap. A key that is not there is an error that names the object and the key.
pub proof fn law_what_is_written_is_read_back(
    name: Seq<char>,
    key: Seq<char>,
    text: Seq<char>,
    bytes: Vec<u8>,
    string: String,
)
    ensures
        bytes@ == encode_utf8(text) ==> secret_text(name, key, Some(bytes)) == Ok::<
            Seq<char>,
            ErrorView,
        >(text),
        secret_text(name, key, Some(bytes)) matches Ok(read) ==> encode_utf8(read) == bytes@,
        !valid_utf8(bytes@) ==> secret_text(name, key, Some(bytes)) == Err::<
            Seq<char>,
            ErrorView,
        >(
            ErrorView::Internal(
                "secret "@ + name + "/"@ + key + " is not valid UTF-8: "@ + utf8_refusal(bytes@),
            ),
        ),
        secret_text(name, key, None) == Err::<Seq<char>, ErrorView>(
            ErrorView::Config("secret "@ + name + " has no key "@ + key),
        ),
        configmap_text(name, key, Some(string)) == Ok::<Seq<char>, ErrorView>(string@),
        configmap_text(name, key, None) == Err::<Seq<char>, ErrorView>(
            ErrorView::Config("configmap "@ + name + " has no key "@ + key),
        ),
{
    if bytes@ == encode_utf8(text) {
        encode_utf8_valid_utf8(text);
        encode_utf8_decode_utf8(text);
    }
    if valid_utf8(bytes@) {
        decode_utf8_encode_utf8(bytes@);
    }
}

/// A key of a Secret is the guardian's own if and only if the API server lists a field of that name
/// under that manager, in one of the two parts that hold keys.
pub proof fn law_who_manages_a_key(
    fields: Seq<ManagedField>,
    manager: Seq<char>,
    key: Seq<char>,
)
    ensures
        key_managed(fields, manager, key) <==> exists|i: int|
            0 <= i < fields.len() && (#[trigger] fields[i]).manager@ == manager && fields[i].name@
                == "f:"@ + key && (fields[i].part@ == "f:data"@ || fields[i].part@
                == "f:stringData"@),
{
    if exists|i: int|
        0 <= i < fields.len() && (#[trigger] fields[i]).manager@ == manager && fields[i].name@
            == "f:"@ + key && (fields[i].part@ == "f:data"@ || fields[i].part@
            == "f:stringData"@) {
        let i = choose|i: int|
            0 <= i < fields.len() && (#[trigger] fields[i]).manager@ == manager && fields[i].name@
                == "f:"@ + key && (fields[i].part@ == "f:data"@ || fields[i].part@
                == "f:stringData"@);
        assert(is_key_of(fields[i], manager, key));
    }
}

} // verus!
