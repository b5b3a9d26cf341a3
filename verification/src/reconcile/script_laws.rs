//! What holds of every edit of the start script.
use crate::files::{
    are_lines, can_stand, ended_lines, file_with, lemma_read_file, lemma_written_file, whole_lines,
    LineView,
};
use crate::reconcile::server_script::{
    anchor, continued, drop_flag, ends_in_flag, flag, flag_line, has_anchor, has_flag_pair,
    insert_flag, lemma_continued_is_not_flag_line, script_with_flag, script_without_flag,
};
use crate::text::{chomp, contains, join, occurs_at};
use crate::text_lemmas::free_of;
use vstd::prelude::*;

verus! {

/// A part of a joined text stands in it.
proof fn lemma_join_has_part(v: Seq<Seq<char>>, k: int, sep: Seq<char>)
    requires
        0 <= k < v.len(),
    ensures
        contains(join(v, sep), v[k]),
    decreases v.len(),
{
    let j = join(v, sep);
    if v.len() == 1 {
        assert(j.subrange(0, j.len() as int) =~= v[0]);
        assert(occurs_at(j, v[0], 0));
    } else {
        let h = join(v.drop_last(), sep);
        if k == v.len() - 1 {
            let i = (h.len() + sep.len()) as int;
            assert(j.subrange(i, i + v[k].len()) =~= v[k]);
            assert(occurs_at(j, v[k], i));
        } else {
            lemma_join_has_part(v.drop_last(), k, sep);
            assert(v.drop_last()[k] == v[k]);
            let i = choose|i: int| occurs_at(h, v[k], i);
            assert(j.subrange(i, i + v[k].len()) =~= h.subrange(i, i + v[k].len()));
            assert(occurs_at(j, v[k], i));
        }
    }
}

/// What stands in a part of a text stands in the text.
proof fn lemma_contains_trans(s: Seq<char>, p: Seq<char>, q: Seq<char>)
    requires
        contains(s, p),
        contains(p, q),
    ensures
        contains(s, q),
{
    let i = choose|i: int| occurs_at(s, p, i);
    let j = choose|j: int| occurs_at(p, q, j);
    assert(s.subrange(i, i + p.len()).subrange(j, j + q.len()) =~= s.subrange(
        i + j,
        i + j + q.len(),
    ));
    assert(occurs_at(s, q, i + j));
}

/// The line with the flag holds the flag.
proof fn lemma_flag_line_has_flag()
    ensures
        contains(flag_line(), flag()),
{
    let n = "        "@.len() as int;
    assert(flag_line().subrange(n, n + flag().len()) =~= flag());
    assert(occurs_at(flag_line(), flag(), n));
}

/// What stands in a line stands in the file.
proof fn lemma_file_has_line(v: Seq<LineView>, k: int)
    requires
        0 <= k < v.len(),
    ensures
        contains(file_with(v), v[k].text),
{
    let w = whole_lines(v);
    lemma_join_has_part(w, k, seq!['\n']);
    assert(w[k].subrange(0, v[k].text.len() as int) =~= v[k].text);
    assert(occurs_at(w[k], v[k].text, 0));
    lemma_contains_trans(file_with(v), w[k], v[k].text);
}

/// Where there is an anchor line, a line with the flag is inserted.
proof fn lemma_insert_has_flag_line(ls: Seq<LineView>) -> (k: int)
    requires
        has_anchor(ls),
    ensures
        0 < k < insert_flag(ls).len(),
        insert_flag(ls)[k].text == flag_line(),
        insert_flag(ls)[k - 1].text == continued(),
    decreases ls.len(),
{
    let h = ls.drop_last();
    if ls.last().text == anchor() {
        (insert_flag(ls).len() - 1) as int
    } else {
        let i = choose|i: int| 0 <= i < ls.len() && (#[trigger] ls[i]).text == anchor();
        assert(h[i].text == anchor());
        lemma_insert_has_flag_line(h)
    }
}

/// The script that comes back has the flag.
pub proof fn law_an_added_flag_is_there(script: Seq<char>)
    requires
        script_with_flag(script) is Ok,
    ensures
        contains(script_with_flag(script)->Ok_0, flag()),
{
    if !contains(script, flag()) {
        let v = insert_flag(ended_lines(script));
        let k = lemma_insert_has_flag_line(ended_lines(script));
        lemma_file_has_line(v, k);
        lemma_flag_line_has_flag();
        lemma_contains_trans(file_with(v), flag_line(), flag());
    }
}

/// Adding the flag a second time changes nothing.
pub proof fn law_adding_the_flag_is_idempotent(script: Seq<char>)
    requires
        script_with_flag(script) is Ok,
    ensures
        script_with_flag(script_with_flag(script)->Ok_0) == script_with_flag(script),
{
    law_an_added_flag_is_there(script);
}

/// The lines that are inserted hold no line feed and end in no carriage return.
proof fn lemma_inserted_lines()
    ensures
        free_of(anchor(), '\n'),
        free_of(continued(), '\n'),
        free_of(flag_line(), '\n'),
        chomp(anchor()) == anchor(),
        chomp(continued()) == continued(),
        chomp(flag_line()) == flag_line(),
        continued() != anchor(),
{
    reveal_strlit("        --config-file /etc/neutron/plugins/ml2/ml2_conf.ini");
    reveal_strlit("        ");
    reveal_strlit("--config-dir ");
    reveal_strlit(" \\");
    reveal_strlit("/etc/neutron/ml2-extra-conf.d");
    assert(anchor().last() == 'i');
    assert(continued().last() == '\\');
    assert(flag_line().last() == 'd');
    assert(continued().len() == anchor().len() + 2);
}

/// Lines that can stand in front of a line feed still can with the flag among them.
proof fn lemma_insert_can_stand(ls: Seq<LineView>)
    requires
        forall|i: int| 0 <= i < ls.len() ==> can_stand(#[trigger] ls[i]),
    ensures
        forall|i: int| 0 <= i < insert_flag(ls).len() ==> can_stand(#[trigger] insert_flag(ls)[i]),
    decreases ls.len(),
{
    lemma_inserted_lines();
    if ls.len() > 0 {
        let h = ls.drop_last();
        assert forall|i: int| 0 <= i < h.len() implies can_stand(#[trigger] h[i]) by {
            assert(can_stand(ls[i]));
        }
        lemma_insert_can_stand(h);
        assert(can_stand(ls[ls.len() - 1]));
        assert forall|i: int| 0 <= i < insert_flag(ls).len() implies can_stand(
            #[trigger] insert_flag(ls)[i],
        ) by {
            if i < insert_flag(h).len() {
                assert(can_stand(insert_flag(h)[i]));
            }
        }
    }
}

/// The lines of a file, with the flag among them, are lines that a file can have.
proof fn lemma_insert_are_lines(ls: Seq<LineView>)
    requires
        are_lines(ls),
    ensures
        are_lines(insert_flag(ls)),
{
    lemma_inserted_lines();
    let h = ls.drop_last();
    assert forall|i: int| 0 <= i < h.len() implies can_stand(#[trigger] h[i]) by {
        assert(can_stand(ls[i]));
    }
    lemma_insert_can_stand(h);
    let v = insert_flag(ls);
    assert forall|i: int| 0 <= i < v.len() - 1 implies can_stand(#[trigger] v[i]) by {
        if i < insert_flag(h).len() {
            assert(can_stand(insert_flag(h)[i]));
        }
    }
}

/// Dropping the flag undoes inserting it where it was not there.
proof fn lemma_drop_after_insert(ls: Seq<LineView>)
    requires
        forall|i: int| 0 <= i < ls.len() ==> (#[trigger] ls[i]).text != flag_line(),
    ensures
        drop_flag(insert_flag(ls)) == ls,
    decreases ls.len(),
{
    if ls.len() > 0 {
        let h = ls.drop_last();
        let v = insert_flag(ls);
        assert forall|i: int| 0 <= i < h.len() implies (#[trigger] h[i]).text != flag_line() by {
            assert(ls[i].text != flag_line());
        }
        lemma_drop_after_insert(h);
        assert(h.push(ls.last()) =~= ls);
        if ls.last().text == anchor() {
            assert(ends_in_flag(v));
            assert(v.take(v.len() - 2) =~= insert_flag(h));
        } else {
            assert(ls[ls.len() - 1].text != flag_line());
            assert(!ends_in_flag(v));
            assert(v.drop_last() =~= insert_flag(h));
        }
    }
}

/// Taking the flag out undoes adding it: the script is what it was, byte for byte. Left out are
/// scripts that had the flag already in the form in which it is taken out.
pub proof fn law_removing_the_flag_undoes_adding_it(script: Seq<char>)
    requires
        !has_flag_pair(ended_lines(script)),
        script_with_flag(script) is Ok,
    ensures
        script_without_flag(script_with_flag(script)->Ok_0) == script,
{
    let ls = ended_lines(script);
    lemma_read_file(script);
    if contains(script, flag()) {
        lemma_drop_nothing(ls);
    } else {
        lemma_insert_are_lines(ls);
        lemma_written_file(insert_flag(ls));
        assert forall|i: int| 0 <= i < ls.len() implies (#[trigger] ls[i]).text != flag_line() by {
            if ls[i].text == flag_line() {
                lemma_file_has_line(ls, i);
                lemma_flag_line_has_flag();
                lemma_contains_trans(script, flag_line(), flag());
            }
        }
        lemma_drop_after_insert(ls);
    }
}

/// Where no line pair carries the flag, dropping the flag changes nothing.
proof fn lemma_drop_nothing(ls: Seq<LineView>)
    requires
        !has_flag_pair(ls),
    ensures
        drop_flag(ls) == ls,
    decreases ls.len(),
{
    if ls.len() > 0 {
        let h = ls.drop_last();
        if has_flag_pair(h) {
            let i = choose|i: int|
                0 <= i < h.len() - 1 && h[i].text == continued() && (#[trigger] h[i + 1]).text
                    == flag_line();
            assert(ls[i + 1].text == flag_line());
        }
        lemma_drop_nothing(h);
        if ends_in_flag(ls) {
            assert(ls[(ls.len() - 2) + 1].text == flag_line());
        }
        assert(h.push(ls.last()) =~= ls);
    }
}

/// A script in which the flag does not stand in the form in which it is added is not changed by
/// taking it out.
pub proof fn law_removing_no_flag_changes_nothing(script: Seq<char>)
    requires
        !has_flag_pair(ended_lines(script)),
    ensures
        script_without_flag(script) == script,
{
    lemma_read_file(script);
    lemma_drop_nothing(ended_lines(script));
}

/// Dropping the flag leaves no line pair that carries it.
proof fn lemma_drop_leaves_no_pair(ls: Seq<LineView>)
    ensures
        !has_flag_pair(drop_flag(ls)),
        ls.len() > 0 ==> drop_flag(ls).len() > 0 && (drop_flag(ls).last() == ls.last()
            || drop_flag(ls).last().text == anchor()),
    decreases ls.len(),
{
    lemma_inserted_lines();
    lemma_continued_is_not_flag_line();
    lemma_anchor_is_not_flag_line();
    if ls.len() > 0 {
        let d = drop_flag(ls);
        let h = if ends_in_flag(ls) {
            ls.take(ls.len() - 2)
        } else {
            ls.drop_last()
        };
        lemma_drop_leaves_no_pair(h);
        let dh = drop_flag(h);
        if has_flag_pair(d) {
            let i = choose|i: int|
                0 <= i < d.len() - 1 && d[i].text == continued() && (#[trigger] d[i + 1]).text
                    == flag_line();
            if i + 1 < dh.len() {
                assert(dh[i + 1].text == flag_line());
                assert(has_flag_pair(dh));
            } else {
                assert(dh.last().text == continued());
                assert(h.last().text == continued());
                assert(ends_in_flag(ls));
            }
        }
    }
}

proof fn lemma_anchor_is_not_flag_line()
    ensures
        anchor() != flag_line(),
{
    reveal_strlit("        --config-file /etc/neutron/plugins/ml2/ml2_conf.ini");
    reveal_strlit("        ");
    reveal_strlit("--config-dir ");
    assert(anchor()[17] == 'f');
    assert(flag_line()[17] == 'd');
}

/// Lines that can stand in front of a line feed still can without the flag among them.
proof fn lemma_drop_can_stand(ls: Seq<LineView>)
    requires
        forall|i: int| 0 <= i < ls.len() ==> can_stand(#[trigger] ls[i]),
    ensures
        forall|i: int| 0 <= i < drop_flag(ls).len() ==> can_stand(#[trigger] drop_flag(ls)[i]),
    decreases ls.len(),
{
    lemma_inserted_lines();
    if ls.len() > 0 {
        let h = if ends_in_flag(ls) {
            ls.take(ls.len() - 2)
        } else {
            ls.drop_last()
        };
        assert forall|i: int| 0 <= i < h.len() implies can_stand(#[trigger] h[i]) by {
            assert(can_stand(ls[i]));
        }
        lemma_drop_can_stand(h);
        assert(can_stand(ls[ls.len() - 1]));
        assert forall|i: int| 0 <= i < drop_flag(ls).len() implies can_stand(
            #[trigger] drop_flag(ls)[i],
        ) by {
            if i < drop_flag(h).len() {
                assert(can_stand(drop_flag(h)[i]));
            }
        }
    }
}

/// The lines of a file, without the flag among them, are lines that a file can have.
proof fn lemma_drop_are_lines(ls: Seq<LineView>)
    requires
        are_lines(ls),
    ensures
        are_lines(drop_flag(ls)),
{
    lemma_inserted_lines();
    let h = if ends_in_flag(ls) {
        ls.take(ls.len() - 2)
    } else {
        ls.drop_last()
    };
    assert forall|i: int| 0 <= i < h.len() implies can_stand(#[trigger] h[i]) by {
        assert(can_stand(ls[i]));
    }
    lemma_drop_can_stand(h);
    let v = drop_flag(ls);
    assert forall|i: int| 0 <= i < v.len() - 1 implies can_stand(#[trigger] v[i]) by {
        assert(can_stand(drop_flag(h)[i]));
    }
}

/// Once the flag is taken out there is nothing left to take out.
pub proof fn law_a_removed_flag_is_gone(script: Seq<char>)
    ensures
        !has_flag_pair(ended_lines(script_without_flag(script))),
        script_without_flag(script_without_flag(script)) == script_without_flag(script),
{
    let ls = ended_lines(script);
    lemma_read_file(script);
    lemma_drop_are_lines(ls);
    lemma_written_file(drop_flag(ls));
    lemma_drop_leaves_no_pair(ls);
    law_removing_no_flag_changes_nothing(script_without_flag(script));
}

/// The length of the lines with their line ends.
spec fn span(v: Seq<LineView>) -> nat
    decreases v.len(),
{
    if v.len() == 0 {
        0
    } else {
        span(v.drop_last()) + v.last().text.len() + v.last().end.len() + 1
    }
}

/// The length of a file.
proof fn lemma_file_span(v: Seq<LineView>)
    requires
        v.len() > 0,
    ensures
        file_with(v).len() + 1 == span(v),
    decreases v.len(),
{
    let h = v.drop_last();
    assert(whole_lines(v).drop_last() =~= whole_lines(h));
    if v.len() > 1 {
        lemma_file_span(h);
    } else {
        assert(h =~= Seq::<LineView>::empty());
        reveal_with_fuel(span, 2);
    }
}

/// Dropping the flag makes the lines shorter.
proof fn lemma_drop_flag_span(ls: Seq<LineView>)
    ensures
        span(drop_flag(ls)) <= span(ls),
        has_flag_pair(ls) ==> span(drop_flag(ls)) < span(ls),
    decreases ls.len(),
{
    if ls.len() > 0 {
        if ends_in_flag(ls) {
            let h = ls.take(ls.len() - 2);
            lemma_drop_flag_span(h);
            assert(ls.drop_last().drop_last() =~= h);
            assert(ls.drop_last().last().text == continued());
            reveal_with_fuel(span, 3);
            assert(drop_flag(ls).drop_last() =~= drop_flag(h));
        } else {
            let h = ls.drop_last();
            lemma_drop_flag_span(h);
            assert(drop_flag(ls).drop_last() =~= drop_flag(h));
            if has_flag_pair(ls) {
                let i = choose|i: int|
                    0 <= i < ls.len() - 1 && ls[i].text == continued() && (#[trigger] ls[i
                        + 1]).text == flag_line();
                if i + 1 == ls.len() - 1 {
                    assert(ends_in_flag(ls));
                } else {
                    assert(h[i + 1].text == flag_line());
                    assert(has_flag_pair(h));
                }
            }
        }
    }
}

/// Where the flag is there, taking it out changes the script: it gets shorter.
pub proof fn law_removing_the_flag_shortens_the_script(script: Seq<char>)
    requires
        has_flag_pair(ended_lines(script)),
    ensures
        script_without_flag(script).len() < script.len(),
{
    let ls = ended_lines(script);
    lemma_read_file(script);
    lemma_drop_flag_span(ls);
    lemma_drop_leaves_no_pair(ls);
    lemma_file_span(ls);
    lemma_file_span(drop_flag(ls));
}

} // verus!
