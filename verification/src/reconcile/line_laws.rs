//! What becomes of each line of the two files that the guardian edits.
use crate::error::ErrorView;
use crate::files::{ended_lines, file_lines, file_with, line_end, LineView};
use crate::reconcile::ml2_conf::{
    conf_includes, conf_with, conf_without, drivers_value, entries, first_driver_line,
    is_driver_line, keep_nonempty, lines_with, lines_without, listed, names, trim_each, value_of,
    with_driver, without,
};
use crate::reconcile::server_script::{drop_flag, flag_line, insert_flag, script_with_flag};
use crate::text::{contains, join, lines, split, trim};
use crate::text_lemmas::{
    all_free_of, free_of, lemma_split_at_sep, lemma_split_free, lemma_split_join,
};
use vstd::prelude::*;

verus! {

/// The names in a comma-separated value: what stands between the commas, without the white space
/// around it, unless nothing is left of it.
pub open spec fn names_in(value: Seq<char>) -> Seq<Seq<char>> {
    split(value, ',').map_values(|e: Seq<char>| trim(e)).filter(|e: Seq<char>| e.len() > 0)
}

/// A value lists what stands between its commas, in its order.
pub proof fn law_the_names_in_a_value(value: Seq<char>)
    ensures
        names(value) == names_in(value),
{
    let v = split(value, ',').map_values(|e: Seq<char>| trim(e));
    assert(trim_each(split(value, ',')) =~= v);
    lemma_nonempty_are_kept(v);
}

proof fn lemma_nonempty_are_kept(v: Seq<Seq<char>>)
    ensures
        keep_nonempty(v) == v.filter(|e: Seq<char>| e.len() > 0),
    decreases v.len(),
{
    reveal(Seq::filter);
    if v.len() > 0 {
        lemma_nonempty_are_kept(v.drop_last());
    }
}

proof fn lemma_others_are_kept(v: Seq<Seq<char>>, x: Seq<char>)
    ensures
        without(v, x) == v.filter(|e: Seq<char>| e != x),
    decreases v.len(),
{
    reveal(Seq::filter);
    if v.len() > 0 {
        lemma_others_are_kept(v.drop_last(), x);
    }
}

/// Whether a line sets `mechanism_drivers` to this value: the word stands in front of the first equals
/// sign, with white space around it at most, and the value behind it, up to the next equals sign. The
/// word alone sets it to nothing.
pub open spec fn sets_drivers_to(l: Seq<char>, value: Seq<char>) -> bool {
    ||| exists|key: Seq<char>, rest: Seq<char>|
        #![trigger is_setting(l, key, value, rest)]
        is_setting(l, key, value, rest) && trim(key) == "mechanism_drivers"@
    ||| free_of(l, '=') && trim(l) == "mechanism_drivers"@ && value.len() == 0
}

/// Whether a line is `key=value`, with nothing or one more equals sign behind it.
pub open spec fn is_setting(
    l: Seq<char>,
    key: Seq<char>,
    value: Seq<char>,
    rest: Seq<char>,
) -> bool {
    &&& free_of(key, '=') && free_of(value, '=')
    &&& l == key.push('=') + value || l == key.push('=') + (value.push('=') + rest)
}

/// What a line with an equals sign is taken for: it sets the drivers if and only if the word in front
/// of the equals sign is `mechanism_drivers`, and it sets them to what stands behind it.
pub proof fn law_a_setting_is_read(
    l: Seq<char>,
    key: Seq<char>,
    value: Seq<char>,
    rest: Seq<char>,
)
    requires
        is_setting(l, key, value, rest),
    ensures
        is_driver_line(l) <==> trim(key) == "mechanism_drivers"@,
        value_of(l) == value,
        listed(l) == names_in(value),
{
    lemma_split_free(key, '=');
    lemma_split_free(value, '=');
    if l == key.push('=') + value {
        lemma_split_at_sep(key, value, '=');
    } else {
        lemma_split_at_sep(value, rest, '=');
        lemma_split_at_sep(key, value.push('=') + rest, '=');
    }
    assert(split(l, '=')[0] == key);
    assert(split(l, '=')[1] == value);
    law_the_names_in_a_value(value);
}

/// A line without an equals sign lists nothing.
pub proof fn law_a_line_without_an_equals_sign_lists_nothing(l: Seq<char>)
    requires
        free_of(l, '='),
    ensures
        is_driver_line(l) <==> trim(l) == "mechanism_drivers"@,
        value_of(l).len() == 0,
        listed(l).len() == 0,
        names_in(Seq::empty()).len() == 0,
{
    lemma_split_free(l, '=');
    law_the_names_in_a_value(Seq::empty());
    let v = split(Seq::<char>::empty(), ',').map_values(|e: Seq<char>| trim(e));
    assert(v.len() == 1 && v[0].len() == 0);
    assert(v.drop_last() =~= Seq::<Seq<char>>::empty());
    lemma_nonempty_are_kept(v);
    reveal_with_fuel(keep_nonempty, 2);
    assert(value_of(l) =~= Seq::<char>::empty());
}

/// The lines of a file without the last line feed are those that it was put together of.
proof fn lemma_lines_of(ls: Seq<Seq<char>>)
    requires
        ls.len() > 0,
        all_free_of(ls, '\n'),
    ensures
        file_lines(join(ls, "\n"@)) == ls,
{
    reveal_strlit("\n");
    assert("\n"@ =~= seq!['\n']);
    lemma_split_join(ls, '\n');
}

/// The settings are read at the first line that sets the drivers: a driver is included if and only if
/// it stands there between two commas, with white space around it at most.
pub proof fn law_the_first_setting_counts(
    ls: Seq<Seq<char>>,
    f: int,
    value: Seq<char>,
    d: Seq<char>,
)
    requires
        all_free_of(ls, '\n'),
        0 <= f < ls.len(),
        sets_drivers_to(ls[f], value),
        forall|j: int| 0 <= j < f ==> !is_driver_line(#[trigger] ls[j]),
    ensures
        conf_includes(join(ls, "\n"@), d) <==> exists|k: int|
            0 <= k < split(value, ',').len() && trim(#[trigger] split(value, ',')[k]) == d,
        drivers_value(file_lines(join(ls, "\n"@))) == trim(value),
{
    lemma_set_to(ls[f], value);
    lemma_lines_of(ls);
    let p = split(value, ',');
    let e = entries(value);
    assert(first_driver_line(ls, f));
    assert forall|i: int| first_driver_line(ls, i) implies i == f by {
        if i < f {
            assert(!is_driver_line(ls[i]));
        }
    }
    if e.contains(d) {
        let k = choose|k: int| 0 <= k < e.len() && e[k] == d;
        assert(trim(p[k]) == d);
    }
    if exists|k: int| 0 <= k < p.len() && trim(#[trigger] p[k]) == d {
        let k = choose|k: int| 0 <= k < p.len() && trim(#[trigger] p[k]) == d;
        assert(e[k] == d);
    }
    lemma_first_value(ls, f);
}

proof fn lemma_first_value(ls: Seq<Seq<char>>, f: int)
    requires
        first_driver_line(ls, f),
    ensures
        drivers_value(ls) == trim(value_of(ls[f])),
    decreases ls.len(),
{
    if f > 0 {
        assert(!is_driver_line(ls[0]));
        let rest = ls.drop_first();
        assert forall|j: int| 0 <= j < f - 1 implies !is_driver_line(#[trigger] rest[j]) by {
            assert(rest[j] == ls[j + 1]);
        }
        assert(rest[f - 1] == ls[f]);
        lemma_first_value(rest, f - 1);
    }
}

/// The carriage return, if any, that a line of a file has in front of its line feed.
pub open spec fn return_of(ls: Seq<Seq<char>>, i: int) -> Seq<char> {
    if i + 1 < ls.len() && ls[i].len() > 0 && ls[i].last() == '\r' {
        seq!['\r']
    } else {
        Seq::empty()
    }
}

/// Whether a file is edited line by line: a line that sets the drivers to the value given for it
/// becomes one that sets them to the names given for it, and ends as before; every other line stays as
/// it is.
pub open spec fn is_edited(
    ls: Seq<Seq<char>>,
    values: Seq<Seq<char>>,
    lists: Seq<Seq<Seq<char>>>,
    out: Seq<Seq<char>>,
) -> bool {
    &&& values.len() == ls.len() && lists.len() == ls.len() && out.len() == ls.len()
    &&& forall|i: int|
        0 <= i < ls.len() ==> if is_driver_line(#[trigger] ls[i]) {
            &&& sets_drivers_to(ls[i], values[i])
            &&& out[i] == "mechanism_drivers = "@ + join(lists[i], ","@) + return_of(ls, i)
        } else {
            out[i] == ls[i]
        }
}

proof fn lemma_set_to(l: Seq<char>, value: Seq<char>)
    requires
        sets_drivers_to(l, value),
    ensures
        is_driver_line(l),
        value_of(l) == value,
        listed(l) == names_in(value),
{
    if free_of(l, '=') && trim(l) == "mechanism_drivers"@ && value.len() == 0 {
        law_a_line_without_an_equals_sign_lists_nothing(l);
        assert(value =~= Seq::<char>::empty());
        assert(value_of(l) =~= value);
        assert(listed(l) =~= names_in(value));
    } else {
        let (key, rest) = choose|key: Seq<char>, rest: Seq<char>|
            #![trigger is_setting(l, key, value, rest)]
            is_setting(l, key, value, rest) && trim(key) == "mechanism_drivers"@;
        law_a_setting_is_read(l, key, value, rest);
    }
}

/// Every line that sets the drivers becomes one that lists the same names in the same order and then
/// the new one, if it was not among them. Nothing else in the file changes.
pub proof fn law_what_adding_writes(
    ls: Seq<Seq<char>>,
    values: Seq<Seq<char>>,
    lists: Seq<Seq<Seq<char>>>,
    out: Seq<Seq<char>>,
    d: Seq<char>,
    f: int,
)
    requires
        all_free_of(ls, '\n'),
        0 <= f < ls.len(),
        is_driver_line(ls[f]),
        is_edited(ls, values, lists, out),
        forall|i: int|
            0 <= i < ls.len() ==> #[trigger] lists[i] == if names_in(values[i]).contains(d) {
                names_in(values[i])
            } else {
                names_in(values[i]).push(d)
            },
    ensures
        conf_with(join(ls, "\n"@), d) == Ok::<Seq<char>, ErrorView>(join(out, "\n"@)),
{
    reveal_strlit("\n");
    assert("\n"@ =~= seq!['\n']);
    lemma_lines_of(ls);
    let new = lines_with(ls, d);
    assert forall|i: int| 0 <= i < ls.len() implies #[trigger] new[i] == out[i] by {
        assert(line_end(ls, i) == return_of(ls, i));
        if is_driver_line(ls[i]) {
            lemma_set_to(ls[i], values[i]);
            assert(lists[i] == with_driver(listed(ls[i]), d));
        }
    }
    assert(new =~= out);
}

/// Every line that sets the drivers and lists this one becomes one that lists the others in the same
/// order. Nothing else in the file changes.
pub proof fn law_what_removing_writes(
    ls: Seq<Seq<char>>,
    values: Seq<Seq<char>>,
    out: Seq<Seq<char>>,
    d: Seq<char>,
)
    requires
        ls.len() > 0,
        all_free_of(ls, '\n'),
        values.len() == ls.len(),
        out.len() == ls.len(),
        forall|i: int|
            0 <= i < ls.len() && is_driver_line(ls[i]) ==> #[trigger] sets_drivers_to(
                ls[i],
                values[i],
            ),
        forall|i: int|
            0 <= i < ls.len() ==> #[trigger] out[i] == if is_driver_line(ls[i]) && names_in(
                values[i],
            ).contains(d) {
                "mechanism_drivers = "@ + join(
                    names_in(values[i]).filter(|e: Seq<char>| e != d),
                    ","@,
                ) + return_of(ls, i)
            } else {
                ls[i]
            },
    ensures
        conf_without(join(ls, "\n"@), d) == join(out, "\n"@),
{
    reveal_strlit("\n");
    assert("\n"@ =~= seq!['\n']);
    lemma_lines_of(ls);
    let new = lines_without(ls, d);
    assert forall|i: int| 0 <= i < ls.len() implies #[trigger] new[i] == out[i] by {
        assert(line_end(ls, i) == return_of(ls, i));
        if is_driver_line(ls[i]) {
            assert(sets_drivers_to(ls[i], values[i]));
            lemma_set_to(ls[i], values[i]);
            lemma_others_are_kept(names_in(values[i]), d);
        }
    }
    assert(new =~= out);
}

/// Settings in which no line sets the drivers are refused, and only those.
pub proof fn law_only_settings_without_a_list_are_refused(conf: Seq<char>, d: Seq<char>)
    ensures
        conf_with(conf, d) is Err <==> forall|i: int|
            0 <= i < file_lines(conf).len() ==> !is_driver_line(#[trigger] file_lines(conf)[i]),
        conf_with(conf, d) matches Err(e) ==> e == ErrorView::Config(
            "no mechanism_drivers line found in ml2_conf.ini -- refusing to guess where to insert one"@,
        ),
{
}

/// The line that the flag goes behind.
pub open spec fn last_setting_line() -> Seq<char> {
    "        --config-file /etc/neutron/plugins/ml2/ml2_conf.ini"@
}

/// Whether none of the lines is the one that the flag goes behind.
pub open spec fn no_place_in(ls: Seq<LineView>) -> bool {
    forall|i: int| 0 <= i < ls.len() ==> (#[trigger] ls[i]).text != last_setting_line()
}

proof fn lemma_insert_nothing(head: Seq<LineView>, ls: Seq<LineView>)
    requires
        no_place_in(ls),
    ensures
        insert_flag(head + ls) == insert_flag(head) + ls,
    decreases ls.len(),
{
    if ls.len() == 0 {
        assert(head + ls =~= head);
        assert(insert_flag(head) + ls =~= insert_flag(head));
    } else {
        let all = head + ls;
        assert(all.drop_last() =~= head + ls.drop_last());
        assert(all.last() == ls[ls.len() - 1]);
        assert forall|i: int| 0 <= i < ls.drop_last().len() implies (
        #[trigger] ls.drop_last()[i]).text != last_setting_line() by {
            assert(ls[i].text != last_setting_line());
        }
        lemma_insert_nothing(head, ls.drop_last());
        assert(insert_flag(all) =~= insert_flag(head) + ls);
    }
}

/// The flag stands on a line of its own, behind the last line with a file of settings, which is
/// continued; both lines end as that one did, and no other line changes.
pub proof fn law_where_the_flag_goes(pre: Seq<LineView>, end: Seq<char>, post: Seq<LineView>)
    requires
        no_place_in(pre),
        no_place_in(post),
    ensures
        insert_flag(
            pre.push(LineView { text: last_setting_line(), end }) + post,
        ) == pre.push(LineView { text: last_setting_line() + " \\"@, end }).push(
            LineView { text: "        --config-dir /etc/neutron/ml2-extra-conf.d"@, end },
        ) + post,
{
    lemma_flag_line();
    let place = LineView { text: last_setting_line(), end };
    assert(Seq::<LineView>::empty() + pre =~= pre);
    lemma_insert_nothing(Seq::empty(), pre);
    assert(insert_flag(pre) =~= pre);
    assert(pre.push(place).drop_last() =~= pre);
    lemma_insert_nothing(pre.push(place), post);
}

/// The flag goes behind every line that it can go behind, and no other line brings one in.
pub proof fn law_the_flag_goes_behind_every_such_line(ls: Seq<LineView>, l: LineView)
    ensures
        insert_flag(ls.push(l)) == if l.text
            == "        --config-file /etc/neutron/plugins/ml2/ml2_conf.ini"@ {
            insert_flag(ls).push(LineView { text: l.text + " \\"@, end: l.end }).push(
                LineView {
                    text: "        --config-dir /etc/neutron/ml2-extra-conf.d"@,
                    end: l.end,
                },
            )
        } else {
            insert_flag(ls).push(l)
        },
        insert_flag(Seq::empty()).len() == 0,
{
    lemma_flag_line();
    assert(ls.push(l).drop_last() =~= ls);
}

/// A script that has the flag somewhere is left as it is. Otherwise the flag is put behind every line
/// that it can go behind; without such a line the script is refused.
pub proof fn law_when_the_flag_is_added(script: Seq<char>)
    ensures
        ({
            let flagged = contains(script, "--config-dir "@ + "/etc/neutron/ml2-extra-conf.d"@);
            &&& flagged ==> script_with_flag(script) == Ok::<Seq<char>, ErrorView>(script)
            &&& !flagged && no_place_in(ended_lines(script)) ==> script_with_flag(script) == Err::<
                Seq<char>,
                ErrorView,
            >(
                ErrorView::Config(
                    "neutron-server.sh didn't contain the expected anchor line (\""@
                        + last_setting_line()
                        + "\") -- refusing to guess where to insert --config-dir"@,
                ),
            )
            &&& !flagged && !no_place_in(ended_lines(script)) ==> script_with_flag(script) == Ok::<
                Seq<char>,
                ErrorView,
            >(file_with(insert_flag(ended_lines(script))))
        }),
{
}

/// Whether none of the lines is the one with the flag.
pub open spec fn no_flag_in(ls: Seq<LineView>) -> bool {
    forall|i: int|
        0 <= i < ls.len() ==> (#[trigger] ls[i]).text
            != "        --config-dir /etc/neutron/ml2-extra-conf.d"@
}

proof fn lemma_drop_nothing_behind(head: Seq<LineView>, ls: Seq<LineView>)
    requires
        no_flag_in(ls),
    ensures
        drop_flag(head + ls) == drop_flag(head) + ls,
    decreases ls.len(),
{
    if ls.len() == 0 {
        assert(head + ls =~= head);
        assert(drop_flag(head) + ls =~= drop_flag(head));
    } else {
        let all = head + ls;
        lemma_flag_line();
        assert(all.drop_last() =~= head + ls.drop_last());
        assert(all.last() == ls[ls.len() - 1]);
        assert forall|i: int| 0 <= i < ls.drop_last().len() implies (
        #[trigger] ls.drop_last()[i]).text
            != "        --config-dir /etc/neutron/ml2-extra-conf.d"@ by {
            assert(ls[i].text != "        --config-dir /etc/neutron/ml2-extra-conf.d"@);
        }
        lemma_drop_nothing_behind(head, ls.drop_last());
        assert(drop_flag(all) =~= drop_flag(head) + ls);
    }
}

proof fn lemma_flag_line()
    ensures
        flag_line() == "        --config-dir /etc/neutron/ml2-extra-conf.d"@,
{
    reveal_strlit("        --config-dir /etc/neutron/ml2-extra-conf.d");
    reveal_strlit("        ");
    reveal_strlit("--config-dir ");
    reveal_strlit("/etc/neutron/ml2-extra-conf.d");
    assert(flag_line() =~= "        --config-dir /etc/neutron/ml2-extra-conf.d"@);
}

/// Taking the flag out makes the continued line and the line with the flag one line again, which ends
/// as the line with the flag did; no other line changes. A line with the flag that does not stand
/// behind such a line stays.
pub proof fn law_what_taking_the_flag_out_leaves(
    pre: Seq<LineView>,
    before: LineView,
    end: Seq<char>,
    post: Seq<LineView>,
)
    requires
        no_flag_in(pre.push(before)),
        no_flag_in(post),
    ensures
        ({
            let flag = LineView {
                text: "        --config-dir /etc/neutron/ml2-extra-conf.d"@,
                end,
            };
            drop_flag(pre.push(before).push(flag) + post) == if before.text == last_setting_line()
                + " \\"@ {
                pre.push(LineView { text: last_setting_line(), end }) + post
            } else {
                pre.push(before).push(flag) + post
            }
        }),
{
    lemma_flag_line();
    let flag = LineView { text: "        --config-dir /etc/neutron/ml2-extra-conf.d"@, end };
    let head = pre.push(before).push(flag);
    lemma_drop_nothing_behind(head, post);
    assert forall|i: int| 0 <= i < pre.len() implies (#[trigger] pre[i]).text
        != "        --config-dir /etc/neutron/ml2-extra-conf.d"@ by {
        assert(pre.push(before)[i].text
            != "        --config-dir /etc/neutron/ml2-extra-conf.d"@);
    }
    lemma_drop_nothing_behind(Seq::empty(), pre);
    lemma_drop_nothing_behind(Seq::empty(), pre.push(before));
    assert(Seq::<LineView>::empty() + pre =~= pre);
    assert(Seq::<LineView>::empty() + pre.push(before) =~= pre.push(before));
    assert(drop_flag(pre) =~= pre);
    assert(drop_flag(pre.push(before)) =~= pre.push(before));
    assert(head.take(head.len() - 2) =~= pre);
    assert(head.drop_last() =~= pre.push(before));
}

/// The lines of a file are read as they were written: what stands in front of a line feed, with or
/// without a carriage return in front of it.
pub proof fn law_written_lines_are_read(pre: Seq<Seq<char>>, l: Seq<char>)
    requires
        all_free_of(pre.push(l), '\n'),
        forall|i: int|
            0 <= i < pre.len() ==> (#[trigger] pre[i]).len() == 0 || pre[i].last() != '\r',
        l.len() > 0,
    ensures
        lines(join(pre.push(l), "\n"@)) == pre.push(l),
        lines(join(pre.push(Seq::empty()), "\n"@)) == pre,
        forall|i: int|
            0 <= i < pre.len() ==> #[trigger] ended_lines(join(pre.push(l), "\n"@))[i] == (
            LineView { text: pre[i], end: Seq::empty() }),
{
    reveal_strlit("\n");
    assert("\n"@ =~= seq!['\n']);
    lemma_split_join(pre.push(l), '\n');
    assert forall|i: int| 0 <= i < pre.len() implies free_of(#[trigger] pre[i], '\n') by {
        assert(pre.push(l)[i] == pre[i]);
    }
    let none = Seq::<char>::empty();
    assert(all_free_of(pre.push(none), '\n'));
    lemma_split_join(pre.push(none), '\n');
    assert(lines(join(pre.push(l), "\n"@)) =~= pre.push(l));
    assert(lines(join(pre.push(none), "\n"@)) =~= pre);
}

} // verus!
