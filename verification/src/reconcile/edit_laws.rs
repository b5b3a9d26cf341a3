//! What holds of every edit of `ml2_conf.ini`.
use crate::files::{file_lines, line_end};
use crate::reconcile::ml2_conf::{
    conf_includes, conf_lists, conf_with, conf_without, driver_line, drivers_value, entries,
    first_driver_line, has_driver_line, is_driver_line, lines_with, lines_without, listed, lists,
    value_of, with_driver, without,
};
use crate::reconcile::ml2_conf_lemmas::{
    all_entries, brings, is_entry, lemma_driver_line, lemma_driver_line_value, lemma_keep_all,
    lemma_keep_members, lemma_listed, lemma_read_appended, lemma_read_driver_line,
    lemma_trim_ends, lemma_trim_tail, lemma_with_end, none_empty,
};
use crate::text::{ends_line, join, lemma_split_len, split, trim};
use crate::text_lemmas::{
    all_free_of, free_of, lemma_join_concat, lemma_join_free, lemma_join_push, lemma_join_split,
    lemma_pieces_free, lemma_split_at_sep, lemma_split_concat, lemma_split_free, lemma_split_join,
};
use vstd::prelude::*;

verus! {

/// A line that lists drivers is free of line feeds if they are.
proof fn lemma_driver_line_free(v: Seq<Seq<char>>)
    requires
        all_free_of(v, '\n'),
    ensures
        free_of(driver_line(v), '\n'),
{
    reveal_strlit("mechanism_drivers = ");
    reveal_strlit(",");
    lemma_join_free(v, ","@, '\n');
}

/// What the lines of the edited file are.
proof fn lemma_lines_of_conf_with(conf: Seq<char>, d: Seq<char>)
    requires
        free_of(d, '\n'),
        conf_with(conf, d) is Ok,
    ensures
        file_lines(conf_with(conf, d)->Ok_0) == lines_with(file_lines(conf), d),
{
    let ls = file_lines(conf);
    let out = lines_with(ls, d);
    lemma_split_len(conf, '\n');
    lemma_pieces_free(conf, '\n');
    assert forall|i: int| 0 <= i < out.len() implies free_of(#[trigger] out[i], '\n') by {
        assert(free_of(ls[i], '\n'));
        lemma_listed(ls[i]);
        lemma_driver_line_free(with_driver(listed(ls[i]), d));
    }
    lemma_split_join(out, '\n');
}

/// What a line is and lists once a driver, whatever it is, is added to it.
proof fn lemma_line_with(ls: Seq<Seq<char>>, i: int, d: Seq<char>)
    requires
        0 <= i < ls.len(),
    ensures
        ({
            let l = ls[i];
            let r = lines_with(ls, d)[i];
            &&& is_driver_line(r) == is_driver_line(l)
            &&& is_driver_line(l) && listed(l).contains(d) ==> entries(value_of(r)) == listed(l)
                && listed(r) == listed(l)
            &&& is_driver_line(l) && !listed(l).contains(d) ==> listed(r) == listed(l) + brings(d)
            &&& is_driver_line(l) && is_entry(d) ==> entries(value_of(r)) == with_driver(
                listed(l),
                d,
            )
        }),
{
    let v = listed(ls[i]);
    let w = with_driver(v, d);
    lemma_listed(ls[i]);
    lemma_driver_line(w);
    lemma_with_end(driver_line(w), ls, i);
    if v.contains(d) {
        lemma_read_driver_line(v);
        lemma_keep_all(v);
    } else {
        lemma_read_appended(v, d);
        if is_entry(d) {
            assert(all_entries(w));
            lemma_read_driver_line(w);
        }
    }
}

/// Adding a driver a second time changes nothing. The driver's name holds no line feed and ends in
/// no carriage return, and what it brings to a list is itself or nothing at all.
pub proof fn law_adding_a_driver_is_idempotent(conf: Seq<char>, d: Seq<char>)
    requires
        free_of(d, '\n'),
        d.len() > 0 ==> d.last() != '\r',
        brings(d) == seq![d] || brings(d).len() == 0,
        conf_with(conf, d) is Ok,
    ensures
        conf_with(conf_with(conf, d)->Ok_0, d) == conf_with(conf, d),
{
    let ls = file_lines(conf);
    let out = lines_with(ls, d);
    lemma_lines_of_conf_with(conf, d);
    let w = choose|i: int| 0 <= i < ls.len() && is_driver_line(#[trigger] ls[i]);
    lemma_line_with(ls, w, d);
    assert(is_driver_line(out[w]));
    assert forall|i: int| 0 <= i < out.len() implies lines_with(out, d)[i] == #[trigger] out[i] by {
        let v = listed(ls[i]);
        lemma_line_with(ls, i, d);
        if is_driver_line(ls[i]) {
            if !v.contains(d) {
                if brings(d).len() == 0 {
                    assert(v + brings(d) =~= v);
                } else {
                    assert(v + brings(d) =~= v.push(d));
                    assert(v.push(d)[v.len() as int] == d);
                }
            }
            assert(with_driver(listed(out[i]), d) == with_driver(v, d));
            lemma_listed(ls[i]);
            lemma_no_carriage_return(v, d);
            assert(line_end(out, i) =~= line_end(ls, i));
        }
    }
    assert(lines_with(out, d) =~= out);
}

/// A list of entries ends in no carriage return, and with `d` behind it only if `d` does.
proof fn lemma_no_carriage_return(v: Seq<Seq<char>>, d: Seq<char>)
    requires
        all_entries(v),
        none_empty(v),
        d.len() > 0 ==> d.last() != '\r',
    ensures
        driver_line(with_driver(v, d)).len() > 0,
        driver_line(with_driver(v, d)).last() != '\r',
{
    reveal_strlit("mechanism_drivers = ");
    reveal_strlit(",");
    let w = with_driver(v, d);
    if v.contains(d) {
        let e = v.last();
        assert(is_entry(v[v.len() - 1]));
        assert(e.len() > 0);
        lemma_trim_last(e);
        if v.len() > 1 {
            assert(v.drop_last().push(e) =~= v);
            lemma_join_push(v.drop_last(), e, ","@);
        }
        assert(driver_line(w).last() == e.last());
    } else if v.len() > 0 {
        lemma_join_push(v, d, ","@);
        assert(driver_line(w).last() == (if d.len() > 0 {
            d.last()
        } else {
            ','
        }));
    } else {
        assert(w =~= seq![d]);
        assert(driver_line(w).last() == (if d.len() > 0 {
            d.last()
        } else {
            ' '
        }));
    }
}

/// A trimmed text does not end in a carriage return.
proof fn lemma_trim_last(e: Seq<char>)
    requires
        trim(e) == e,
        e.len() > 0,
    ensures
        e.last() != '\r',
{
    lemma_trim_ends(e);
}

/// A driver that was added is included. Its name can stand in the list: it has no comma, no `=`, no
/// line feed and no white space around it.
pub proof fn law_an_added_driver_is_included(conf: Seq<char>, d: Seq<char>)
    requires
        is_entry(d),
        free_of(d, '\n'),
        conf_with(conf, d) is Ok,
    ensures
        conf_includes(conf_with(conf, d)->Ok_0, d),
{
    let ls = file_lines(conf);
    lemma_lines_of_conf_with(conf, d);
    let f = lemma_first_driver_line(ls);
    lemma_first_driver_line_kept(ls, d, f);
    lemma_line_with(ls, f, d);
    lemma_with_driver(listed(ls[f]), d);
}

/// There is a first line that lists drivers where there is one at all.
proof fn lemma_first_driver_line(ls: Seq<Seq<char>>) -> (f: int)
    requires
        has_driver_line(ls),
    ensures
        first_driver_line(ls, f),
    decreases ls.len(),
{
    let w = choose|i: int| 0 <= i < ls.len() && is_driver_line(#[trigger] ls[i]);
    let h = ls.drop_last();
    if has_driver_line(h) {
        let f = lemma_first_driver_line(h);
        assert(ls[f] == h[f]);
        assert forall|j: int| 0 <= j < f implies !is_driver_line(#[trigger] ls[j]) by {
            assert(ls[j] == h[j]);
        }
        f
    } else {
        assert forall|j: int| 0 <= j < ls.len() - 1 implies !is_driver_line(#[trigger] ls[j]) by {
            assert(ls[j] == h[j]);
        }
        assert(w == ls.len() - 1);
        w
    }
}

/// Adding a driver makes no other line the first one that lists drivers.
proof fn lemma_first_driver_line_kept(ls: Seq<Seq<char>>, d: Seq<char>, f: int)
    ensures
        first_driver_line(lines_with(ls, d), f) == first_driver_line(ls, f),
{
    let out = lines_with(ls, d);
    assert forall|i: int| 0 <= i < ls.len() implies is_driver_line(#[trigger] out[i])
        == is_driver_line(ls[i]) by {
        lemma_line_with(ls, i, d);
    }
    if first_driver_line(ls, f) {
        assert(is_driver_line(out[f]));
        assert forall|j: int| 0 <= j < f implies !is_driver_line(#[trigger] out[j]) by {
            assert(!is_driver_line(ls[j]));
        }
    }
    if first_driver_line(out, f) {
        assert forall|j: int| 0 <= j < f implies !is_driver_line(#[trigger] ls[j]) by {
            assert(!is_driver_line(out[j]));
        }
    }
}

/// A file that begins with `pre` as lines of their own, then with `w`, which holds no line feed: the
/// first lines are those of `pre`, and the next one begins with `w` and goes on to the line feed.
proof fn lemma_lines_behind(pre: Seq<Seq<char>>, w: Seq<char>, tail: Seq<Seq<char>>, d: Seq<char>)
    requires
        all_free_of(pre, '\n'),
        free_of(w, '\n'),
    ensures
        ({
            let rest = join(seq![d] + tail, seq!['\n']);
            file_lines(join(pre + seq![w + d] + tail, seq!['\n'])) == pre + seq![
                w + split(rest, '\n')[0],
            ] + split(rest, '\n').skip(1)
        }),
{
    let sep = seq!['\n'];
    let rest = join(seq![d] + tail, sep);
    let x = join(seq![w + d] + tail, sep);
    assert(x =~= w + rest) by {
        if tail.len() > 0 {
            assert(seq![d].len() == 1 && seq![w + d].len() == 1);
            lemma_join_concat(seq![d], tail, sep);
            lemma_join_concat(seq![w + d], tail, sep);
        } else {
            assert(seq![d] + tail =~= seq![d]);
            assert(seq![w + d] + tail =~= seq![w + d]);
        }
    }
    lemma_split_free(w, '\n');
    lemma_split_concat(w, rest, '\n');
    lemma_split_len(rest, '\n');
    assert(split(x, '\n') =~= seq![w + split(rest, '\n')[0]] + split(rest, '\n').skip(1));
    if pre.len() > 0 {
        assert(pre + seq![w + d] + tail =~= pre + (seq![w + d] + tail));
        lemma_join_concat(pre, seq![w + d] + tail, sep);
        assert(join(pre, sep) + sep + x =~= join(pre, sep).push('\n') + x);
        lemma_split_at_sep(join(pre, sep), x, '\n');
        lemma_split_join(pre, '\n');
    } else {
        assert(pre + seq![w + d] + tail =~= seq![w + d] + tail);
    }
    assert(file_lines(join(pre + seq![w + d] + tail, sep)) =~= pre + seq![
        w + split(rest, '\n')[0],
    ] + split(rest, '\n').skip(1));
}

/// Where a driver is appended to the list of line `f`, the edited file has the same lines in front
/// of it, and line `f` lists what it listed, then what the driver begins with.
proof fn lemma_appended_line(conf: Seq<char>, d: Seq<char>, f: int) -> (d0: Seq<char>)
    requires
        first_driver_line(file_lines(conf), f),
        !listed(file_lines(conf)[f]).contains(d),
        listed(file_lines(conf)[f]).len() > 0,
    ensures
        ({
            let ls = file_lines(conf);
            let again = file_lines(conf_with(conf, d)->Ok_0);
            &&& again.len() > f
            &&& forall|j: int| 0 <= j < f ==> #[trigger] again[j] == ls[j]
            &&& again[f] == driver_line(listed(ls[f]).push(d0))
        }),
{
    let ls = file_lines(conf);
    let v = listed(ls[f]);
    lemma_pieces_free(conf, '\n');
    assert(free_of(ls[f], '\n'));
    lemma_listed(ls[f]);
    let out = lines_with(ls, d);
    let pre = out.take(f);
    let w = "mechanism_drivers = "@ + join(v, ","@) + ","@;
    let tail = out.skip(f + 1);
    let e = d + line_end(ls, f);
    lemma_join_push(v, d, ","@);
    assert(out[f] =~= w + e);
    assert(out =~= pre + seq![w + e] + tail);
    assert forall|i: int| 0 <= i < f implies #[trigger] pre[i] == ls[i] by {
        assert(!is_driver_line(ls[i]));
    }
    assert(all_free_of(pre, '\n')) by {
        assert forall|i: int| 0 <= i < pre.len() implies free_of(#[trigger] pre[i], '\n') by {
            assert(free_of(ls[i], '\n'));
        }
    }
    assert(free_of(w, '\n')) by {
        lemma_driver_line_free(v);
        reveal_strlit(",");
    }
    lemma_lines_behind(pre, w, tail, e);
    let d0 = split(join(seq![e] + tail, seq!['\n']), '\n')[0];
    lemma_join_push(v, d0, ","@);
    assert(w + d0 =~= driver_line(v.push(d0)));
    d0
}

/// Adding a driver drops none of those that were included before.
pub proof fn law_adding_a_driver_keeps_the_others(conf: Seq<char>, d: Seq<char>, x: Seq<char>)
    requires
        conf_with(conf, d) is Ok,
        conf_includes(conf, x),
        x.len() > 0,
    ensures
        conf_includes(conf_with(conf, d)->Ok_0, x),
{
    let ls = file_lines(conf);
    let f = choose|i: int| #[trigger]
        first_driver_line(ls, i) && entries(value_of(ls[i])).contains(x);
    let again = file_lines(conf_with(conf, d)->Ok_0);
    let v = listed(ls[f]);
    lemma_pieces_free(conf, '\n');
    assert(free_of(ls[f], '\n'));
    lemma_listed(ls[f]);
    lemma_keep_members(entries(value_of(ls[f])));
    assert(v.contains(x));
    let k = choose|k: int| 0 <= k < v.len() && v[k] == x;
    if v.contains(d) {
        let e = choose|e: int| 0 <= e < v.len() && v[e] == d;
        assert(free_of(v[e], '\n'));
        lemma_lines_of_conf_with(conf, d);
        lemma_first_driver_line_kept(ls, d, f);
        lemma_line_with(ls, f, d);
    } else {
        let d0 = lemma_appended_line(conf, d, f);
        let line = driver_line(v.push(d0));
        lemma_read_appended(v, d0);
        lemma_driver_line(v.push(d0));
        assert((v + brings(d0))[k] == x);
        assert(listed(line).contains(x));
        lemma_keep_members(entries(value_of(line)));
        assert forall|j: int| 0 <= j < f implies !is_driver_line(#[trigger] again[j]) by {
            assert(!is_driver_line(ls[j]));
        }
        assert(first_driver_line(again, f));
    }
}

/// Adding a driver includes no other one: what is included afterwards is that driver or was included
/// before.
pub proof fn law_adding_a_driver_includes_no_other(conf: Seq<char>, d: Seq<char>, x: Seq<char>)
    requires
        is_entry(d),
        free_of(d, '\n'),
        conf_with(conf, d) is Ok,
        conf_includes(conf_with(conf, d)->Ok_0, x),
        x.len() > 0,
        x != d,
    ensures
        conf_includes(conf, x),
{
    let ls = file_lines(conf);
    let out = lines_with(ls, d);
    lemma_lines_of_conf_with(conf, d);
    let f = choose|i: int| #[trigger]
        first_driver_line(out, i) && entries(value_of(out[i])).contains(x);
    lemma_first_driver_line_kept(ls, d, f);
    lemma_line_with(ls, f, d);
    let v = listed(ls[f]);
    let w = with_driver(v, d);
    let k = choose|k: int| 0 <= k < w.len() && w[k] == x;
    assert(v[k] == x);
    assert(v.contains(x));
    lemma_keep_members(entries(value_of(ls[f])));
}

/// Adding a driver leaves every other line byte for byte as it is, its line end included.
pub proof fn law_adding_a_driver_keeps_other_lines(conf: Seq<char>, d: Seq<char>)
    requires
        free_of(d, '\n'),
        conf_with(conf, d) is Ok,
    ensures
        file_lines(conf_with(conf, d)->Ok_0).len() == file_lines(conf).len(),
        forall|i: int|
            0 <= i < file_lines(conf).len() && !is_driver_line(file_lines(conf)[i])
                ==> #[trigger] file_lines(conf_with(conf, d)->Ok_0)[i] == file_lines(conf)[i],
{
    lemma_lines_of_conf_with(conf, d);
}

/// How a joined list of lines ends.
proof fn lemma_join_end(v: Seq<Seq<char>>)
    requires
        v.len() > 0,
    ensures
        ends_line(join(v, seq!['\n'])) == (if v.len() > 1 && v.last().len() == 0 {
            true
        } else {
            ends_line(v.last())
        }),
{
    if v.len() > 1 {
        lemma_join_push(v.drop_last(), v.last(), seq!['\n']);
        assert(v.drop_last().push(v.last()) =~= v);
        let j = join(v, seq!['\n']);
        if v.last().len() > 0 {
            assert(j.last() == v.last().last());
        } else {
            assert(j.last() == '\n');
        }
    }
}

/// Adding a driver neither takes away nor adds a line feed at the end of the file, unless the driver
/// has one at its own end and comes last in the file.
pub proof fn law_adding_a_driver_keeps_the_end(conf: Seq<char>, d: Seq<char>)
    requires
        ends_line(d) ==> !is_driver_line(file_lines(conf).last()),
        conf_with(conf, d) is Ok,
    ensures
        ends_line(conf_with(conf, d)->Ok_0) == ends_line(conf),
{
    let ls = file_lines(conf);
    let out = lines_with(ls, d);
    lemma_split_len(conf, '\n');
    lemma_join_split(conf, '\n');
    lemma_pieces_free(conf, '\n');
    lemma_join_end(ls);
    lemma_join_end(out);
    let l = ls.last();
    assert(free_of(ls[ls.len() - 1], '\n'));
    if is_driver_line(l) {
        let v = listed(l);
        lemma_listed(l);
        assert(l.len() > 0) by {
            reveal_strlit("mechanism_drivers");
            if l.len() == 0 {
                assert(split(l, '=')[0].len() == 0);
            }
        }
        assert(out.last() =~= driver_line(with_driver(v, d)));
        reveal_strlit("mechanism_drivers = ");
        reveal_strlit(",");
        assert(!ends_line(out.last())) by {
            if v.contains(d) {
                lemma_driver_line_free(v);
            } else {
                lemma_driver_line_free(v);
                if v.len() > 0 {
                    lemma_join_push(v, d, ","@);
                } else {
                    assert(with_driver(v, d) =~= seq![d]);
                }
                if d.len() > 0 {
                    assert(out.last().last() == d.last());
                }
            }
        }
        assert(out.last().len() > 0);
    } else {
        assert(out.last() == l);
    }
}

/// The edited file sets `mechanism_drivers` to what it listed, with the driver behind it unless it
/// was listed.
pub proof fn law_adding_a_driver_sets_the_longer_list(conf: Seq<char>, d: Seq<char>, f: int)
    requires
        is_entry(d),
        d.len() > 0,
        free_of(d, '\n'),
        conf_with(conf, d) is Ok,
        first_driver_line(file_lines(conf), f),
    ensures
        drivers_value(file_lines(conf_with(conf, d)->Ok_0)) == join(
            with_driver(listed(file_lines(conf)[f]), d),
            ","@,
        ),
{
    let ls = file_lines(conf);
    let out = lines_with(ls, d);
    lemma_lines_of_conf_with(conf, d);
    lemma_first_driver_line_kept(ls, d, f);
    lemma_drivers_value(out, f);
    let w = with_driver(listed(ls[f]), d);
    lemma_listed(ls[f]);
    lemma_with_driver(listed(ls[f]), d);
    lemma_driver_line_value(w);
    let m = driver_line(w);
    if line_end(ls, f).len() > 0 {
        assert(out[f] =~= m.push('\r'));
        assert(m.push('\r').drop_last() =~= m);
        lemma_split_len(m, '=');
        assert(split(out[f], '=') == split(m, '=').drop_last().push(split(m, '=').last().push('\r')));
        lemma_trim_tail(value_of(m), '\r');
    } else {
        assert(out[f] =~= m);
    }
}

/// The value that counts is that of the first line that sets it.
proof fn lemma_drivers_value(ls: Seq<Seq<char>>, f: int)
    requires
        first_driver_line(ls, f),
    ensures
        drivers_value(ls) == trim(value_of(ls[f])),
    decreases ls.len(),
{
    if f > 0 {
        assert(!is_driver_line(ls[0]));
        let t = ls.drop_first();
        assert forall|j: int| 0 <= j < f - 1 implies !is_driver_line(#[trigger] t[j]) by {
            assert(!is_driver_line(ls[j + 1]));
        }
        lemma_drivers_value(t, f - 1);
    }
}

/// What is left without `x`.
proof fn lemma_without_members(v: Seq<Seq<char>>, x: Seq<char>)
    ensures
        forall|y: Seq<char>| #[trigger]
            without(v, x).contains(y) <==> v.contains(y) && y != x,
    decreases v.len(),
{
    if v.len() > 0 {
        let h = v.drop_last();
        let w = without(v, x);
        let wh = without(h, x);
        lemma_without_members(h, x);
        assert(v =~= h.push(v.last()));
        assert forall|y: Seq<char>| #[trigger] w.contains(y) <==> v.contains(y) && y != x by {
            if w.contains(y) {
                let i = choose|i: int| 0 <= i < w.len() && w[i] == y;
                if i < wh.len() {
                    assert(wh[i] == y);
                    assert(wh.contains(y));
                    let j = choose|j: int| 0 <= j < h.len() && h[j] == y;
                    assert(v[j] == y);
                } else {
                    assert(v[v.len() - 1] == y);
                }
            }
            if v.contains(y) && y != x {
                let i = choose|i: int| 0 <= i < v.len() && v[i] == y;
                if i < h.len() {
                    assert(h[i] == y);
                    assert(wh.contains(y));
                    let j = choose|j: int| 0 <= j < wh.len() && wh[j] == y;
                    assert(w[j] == y);
                } else {
                    assert(w[w.len() - 1] == y);
                }
            }
        }
    }
}

/// What is left of a list of entries is a list of entries.
proof fn lemma_without_entries(v: Seq<Seq<char>>, x: Seq<char>)
    requires
        all_entries(v),
        none_empty(v),
    ensures
        all_entries(without(v, x)),
        none_empty(without(v, x)),
        all_free_of(v, '\n') ==> all_free_of(without(v, x), '\n'),
{
    lemma_without_members(v, x);
    let w = without(v, x);
    assert forall|i: int| 0 <= i < w.len() implies is_entry(#[trigger] w[i]) && w[i].len() > 0 && (
    all_free_of(v, '\n') ==> free_of(w[i], '\n')) by {
        assert(w.contains(w[i]));
        let j = choose|j: int| 0 <= j < v.len() && v[j] == w[i];
        assert(is_entry(v[j]));
        assert(v[j].len() > 0);
    }
}

/// A list without `x` is not changed by taking `x` out.
proof fn lemma_without_absent(v: Seq<Seq<char>>, x: Seq<char>)
    requires
        !v.contains(x),
    ensures
        without(v, x) == v,
    decreases v.len(),
{
    if v.len() > 0 {
        assert(v[v.len() - 1] != x);
        assert(!v.drop_last().contains(x)) by {
            if v.drop_last().contains(x) {
                let i = choose|i: int| 0 <= i < v.drop_last().len() && v.drop_last()[i] == x;
                assert(v[i] == x);
            }
        }
        lemma_without_absent(v.drop_last(), x);
        assert(v.drop_last().push(v.last()) =~= v);
    }
}

/// What the lines of the file are once a driver is taken out.
proof fn lemma_lines_of_conf_without(conf: Seq<char>, d: Seq<char>)
    ensures
        file_lines(conf_without(conf, d)) == lines_without(file_lines(conf), d),
{
    let ls = file_lines(conf);
    let out = lines_without(ls, d);
    lemma_split_len(conf, '\n');
    lemma_pieces_free(conf, '\n');
    assert forall|i: int| 0 <= i < out.len() implies free_of(#[trigger] out[i], '\n') by {
        assert(free_of(ls[i], '\n'));
        lemma_listed(ls[i]);
        lemma_without_entries(listed(ls[i]), d);
        lemma_driver_line_free(without(listed(ls[i]), d));
    }
    lemma_split_join(out, '\n');
}

/// What a line is and lists once a driver is taken out of it.
proof fn lemma_line_without(ls: Seq<Seq<char>>, i: int, d: Seq<char>)
    requires
        0 <= i < ls.len(),
    ensures
        ({
            let l = ls[i];
            let r = lines_without(ls, d)[i];
            &&& is_driver_line(r) == is_driver_line(l)
            &&& is_driver_line(l) ==> listed(r) == without(listed(l), d)
            &&& is_driver_line(l) && d.len() > 0 ==> !entries(value_of(r)).contains(d)
        }),
{
    let l = ls[i];
    let v = listed(l);
    let w = without(v, d);
    lemma_listed(l);
    lemma_without_members(v, d);
    lemma_without_entries(v, d);
    lemma_driver_line(w);
    lemma_read_driver_line(w);
    lemma_keep_all(w);
    lemma_keep_members(entries(value_of(l)));
    lemma_with_end(driver_line(w), ls, i);
    if !v.contains(d) {
        lemma_without_absent(v, d);
    } else if w.len() == 0 {
        let none = seq![Seq::<char>::empty()];
        assert(none[0].len() == 0);
        assert(none.len() == 1);
    }
}

/// A driver that was taken out is not included.
pub proof fn law_a_removed_driver_is_not_included(conf: Seq<char>, d: Seq<char>)
    requires
        d.len() > 0,
    ensures
        !conf_includes(conf_without(conf, d), d),
        !conf_lists(conf_without(conf, d), d),
{
    let ls = file_lines(conf);
    let out = lines_without(ls, d);
    lemma_lines_of_conf_without(conf, d);
    assert forall|i: int| 0 <= i < out.len() && is_driver_line(#[trigger] out[i]) implies !entries(
        value_of(out[i]),
    ).contains(d) by {
        lemma_line_without(ls, i, d);
    }
    assert forall|i: int| 0 <= i < out.len() implies !lists(#[trigger] out[i], d) by {
        lemma_keep_members(entries(value_of(out[i])));
    }
}

/// Taking a driver out makes no line list another driver.
pub proof fn lemma_removing_lists_nothing_new(conf: Seq<char>, d: Seq<char>, x: Seq<char>)
    requires
        !conf_lists(conf, x),
    ensures
        !conf_lists(conf_without(conf, d), x),
{
    let ls = file_lines(conf);
    let out = lines_without(ls, d);
    lemma_lines_of_conf_without(conf, d);
    assert forall|i: int| 0 <= i < out.len() implies !lists(#[trigger] out[i], x) by {
        assert(!lists(ls[i], x));
        lemma_line_without(ls, i, d);
        lemma_without_members(listed(ls[i]), d);
    }
}

/// A file that does not list a driver is not changed by taking it out.
pub proof fn law_removing_what_is_not_listed_changes_nothing(conf: Seq<char>, d: Seq<char>)
    requires
        !conf_lists(conf, d),
    ensures
        conf_without(conf, d) == conf,
{
    let ls = file_lines(conf);
    let out = lines_without(ls, d);
    assert forall|i: int| 0 <= i < out.len() implies out[i] == #[trigger] ls[i] by {
        assert(!lists(ls[i], d));
    }
    assert(out =~= ls);
    lemma_join_split(conf, '\n');
}

/// Taking a driver out leaves every line that does not list it byte for byte as it is, its line end
/// included.
pub proof fn law_removing_a_driver_keeps_other_lines(conf: Seq<char>, d: Seq<char>)
    ensures
        file_lines(conf_without(conf, d)).len() == file_lines(conf).len(),
        forall|i: int|
            0 <= i < file_lines(conf).len() && !lists(file_lines(conf)[i], d)
                ==> #[trigger] file_lines(conf_without(conf, d))[i] == file_lines(conf)[i],
{
    lemma_lines_of_conf_without(conf, d);
}

/// Taking a driver out drops none of the others.
pub proof fn law_removing_a_driver_keeps_the_others(conf: Seq<char>, d: Seq<char>, x: Seq<char>)
    requires
        conf_includes(conf, x),
        x.len() > 0,
        x != d,
    ensures
        conf_includes(conf_without(conf, d), x),
{
    let ls = file_lines(conf);
    let out = lines_without(ls, d);
    lemma_lines_of_conf_without(conf, d);
    let f = choose|i: int| #[trigger]
        first_driver_line(ls, i) && entries(value_of(ls[i])).contains(x);
    assert forall|i: int| 0 <= i < ls.len() implies is_driver_line(#[trigger] out[i])
        == is_driver_line(ls[i]) by {
        lemma_line_without(ls, i, d);
    }
    assert(is_driver_line(out[f]));
    assert forall|j: int| 0 <= j < f implies !is_driver_line(#[trigger] out[j]) by {
        assert(!is_driver_line(ls[j]));
    }
    assert(first_driver_line(out, f));
    lemma_line_without(ls, f, d);
    lemma_keep_members(entries(value_of(ls[f])));
    assert(listed(ls[f]).contains(x));
    lemma_without_members(listed(ls[f]), d);
    lemma_keep_members(entries(value_of(out[f])));
    assert(without(listed(ls[f]), d).contains(x));
    assert(listed(out[f]).contains(x));
}

/// Whether every line of `conf` that lists drivers is written as an added driver leaves it.
pub open spec fn in_written_form(conf: Seq<char>) -> bool {
    let ls = file_lines(conf);
    forall|i: int|
        0 <= i < ls.len() && is_driver_line(#[trigger] ls[i]) ==> ls[i] == driver_line(
            listed(ls[i]),
        ) + line_end(ls, i)
}

/// Taking a driver out undoes adding it: every other line is what it was, and every list is what it
/// was without that driver. Where the driver was not listed before and the file was in the form in
/// which lists are written, the file itself is what it was.
pub proof fn law_removing_a_driver_undoes_adding_it(conf: Seq<char>, d: Seq<char>)
    requires
        is_entry(d),
        d.len() > 0,
        free_of(d, '\n'),
        conf_with(conf, d) is Ok,
    ensures
        ({
            let back = conf_without(conf_with(conf, d)->Ok_0, d);
            let ls = file_lines(conf);
            &&& file_lines(back).len() == ls.len()
            &&& forall|i: int|
                0 <= i < ls.len() ==> {
                    if is_driver_line(ls[i]) {
                        is_driver_line(#[trigger] file_lines(back)[i]) && listed(
                            file_lines(back)[i],
                        ) == without(listed(ls[i]), d)
                    } else {
                        file_lines(back)[i] == ls[i]
                    }
                }
            &&& !conf_lists(conf, d) && in_written_form(conf) ==> back == conf
        }),
{
    let ls = file_lines(conf);
    let r = conf_with(conf, d)->Ok_0;
    let mid = lines_with(ls, d);
    let out = lines_without(mid, d);
    lemma_lines_of_conf_with(conf, d);
    lemma_lines_of_conf_without(r, d);
    assert forall|i: int| 0 <= i < ls.len() && is_driver_line(ls[i]) implies is_driver_line(
        #[trigger] out[i],
    ) && listed(out[i]) == without(listed(ls[i]), d) && lists(mid[i], d) && listed(mid[i])
        == with_driver(listed(ls[i]), d) by {
        lemma_listed(ls[i]);
        lemma_line_with(ls, i, d);
        lemma_with_driver(listed(ls[i]), d);
        lemma_keep_all(with_driver(listed(ls[i]), d));
        lemma_line_without(mid, i, d);
    }
    assert forall|i: int| 0 <= i < ls.len() && !is_driver_line(ls[i]) implies #[trigger] out[i]
        == ls[i] by {
        assert(mid[i] == ls[i]);
        assert(!lists(mid[i], d));
    }
    if !conf_lists(conf, d) && in_written_form(conf) {
        assert forall|i: int| 0 <= i < ls.len() implies #[trigger] out[i] == ls[i] by {
            if is_driver_line(ls[i]) {
                assert(!lists(ls[i], d));
                assert(is_driver_line(out[i]));
                lemma_with_driver(listed(ls[i]), d);
                lemma_without_absent(listed(ls[i]), d);
                lemma_listed(ls[i]);
                lemma_trim_last(d);
                lemma_no_carriage_return(listed(ls[i]), d);
                assert(line_end(mid, i) =~= line_end(ls, i));
            }
        }
        assert(out =~= ls);
        lemma_join_split(conf, '\n');
    }
}

/// A list with a driver has it, and is without it what it was.
proof fn lemma_with_driver(v: Seq<Seq<char>>, d: Seq<char>)
    ensures
        with_driver(v, d).contains(d),
        without(with_driver(v, d), d) == without(v, d),
{
    if !v.contains(d) {
        assert(v.push(d)[v.len() as int] == d);
        assert(v.push(d).drop_last() =~= v);
    }
}

} // verus!
