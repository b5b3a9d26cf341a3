//! How the lists of drivers in `ml2_conf.ini` are written and read back.
use crate::files::line_end;
use crate::reconcile::ml2_conf::{
    driver_line, entries, is_driver_line, keep_nonempty, listed, names, trim_each, value_of,
};
use crate::text::{
    is_white, join, lemma_split_len, split, trim, trim_end, trim_start,
};
use crate::text_lemmas::{
    all_free_of, free_of, lemma_join_free, lemma_join_push, lemma_pieces_free,
    lemma_pieces_keep_free, lemma_split_at_sep, lemma_split_concat, lemma_split_free,
    lemma_split_join,
};
use vstd::prelude::*;

verus! {

// Trimming.

/// A trimmed text is empty or has no white space at either end.
pub proof fn lemma_trim_ends(s: Seq<char>)
    ensures
        trim_start(s).len() > 0 ==> !is_white(trim_start(s)[0]),
        trim(s).len() > 0 ==> !is_white(trim(s)[0]) && !is_white(trim(s).last()),
    decreases s.len(),
{
    lemma_trim_start_ends(s);
    lemma_trim_end_ends(trim_start(s));
}

proof fn lemma_trim_start_ends(s: Seq<char>)
    ensures
        trim_start(s).len() > 0 ==> !is_white(trim_start(s)[0]),
    decreases s.len(),
{
    if s.len() > 0 && is_white(s[0]) {
        lemma_trim_start_ends(s.drop_first());
    }
}

proof fn lemma_trim_end_ends(s: Seq<char>)
    ensures
        trim_end(s).len() > 0 ==> !is_white(trim_end(s).last()) && trim_end(s)[0] == s[0],
        trim_end(s).len() <= s.len(),
        trim_end(s) == s.take(trim_end(s).len() as int),
    decreases s.len(),
{
    if s.len() > 0 && is_white(s.last()) {
        lemma_trim_end_ends(s.drop_last());
        assert(s.drop_last().take(trim_end(s).len() as int) =~= s.take(trim_end(s).len() as int));
    } else {
        assert(s.take(s.len() as int) =~= s);
    }
}

/// Trimming a trimmed text changes nothing.
pub proof fn lemma_trim_twice(s: Seq<char>)
    ensures
        trim(trim(s)) == trim(s),
{
    lemma_trim_ends(s);
}

/// Trimming a text with white space in front.
pub proof fn lemma_trim_lead(c: char, s: Seq<char>)
    requires
        is_white(c),
    ensures
        trim(seq![c] + s) == trim(s),
{
    assert((seq![c] + s).drop_first() =~= s);
}

/// Trimming the start of a text with white space behind it.
proof fn lemma_trim_start_tail(s: Seq<char>, c: char)
    requires
        is_white(c),
    ensures
        trim_start(s).len() == 0 ==> trim_start(s.push(c)).len() == 0,
        trim_start(s).len() > 0 ==> trim_start(s.push(c)) == trim_start(s).push(c),
    decreases s.len(),
{
    if s.len() == 0 {
        reveal_with_fuel(trim_start, 2);
        assert(s.push(c).drop_first() =~= Seq::<char>::empty());
    } else if is_white(s[0]) {
        lemma_trim_start_tail(s.drop_first(), c);
        assert(s.push(c).drop_first() =~= s.drop_first().push(c));
    }
}

/// Trimming a text with white space behind it.
pub proof fn lemma_trim_tail(s: Seq<char>, c: char)
    requires
        is_white(c),
    ensures
        trim(s.push(c)) == trim(s),
{
    lemma_trim_start_tail(s, c);
    if trim_start(s).len() > 0 {
        assert(trim_start(s).push(c).drop_last() =~= trim_start(s));
    } else {
        assert(trim_start(s.push(c)) =~= trim_start(s));
    }
}

/// A trimmed text holds only characters of the text.
pub proof fn lemma_trim_free(s: Seq<char>, c: char)
    requires
        free_of(s, c),
    ensures
        free_of(trim(s), c),
{
    lemma_trim_start_free(s, c);
    lemma_trim_end_ends(trim_start(s));
}

proof fn lemma_trim_start_free(s: Seq<char>, c: char)
    requires
        free_of(s, c),
    ensures
        free_of(trim_start(s), c),
    decreases s.len(),
{
    if s.len() > 0 && is_white(s[0]) {
        lemma_trim_start_free(s.drop_first(), c);
    }
}

// Lists of names.

/// Whether `d` can stand in a comma-separated value as an entry that is read back unchanged.
pub open spec fn is_entry(d: Seq<char>) -> bool {
    trim(d) == d && free_of(d, ',') && free_of(d, '=')
}

/// Whether all of `v` can.
pub open spec fn all_entries(v: Seq<Seq<char>>) -> bool {
    forall|i: int| 0 <= i < v.len() ==> is_entry(#[trigger] v[i])
}

/// Whether none of `v` is empty.
pub open spec fn none_empty(v: Seq<Seq<char>>) -> bool {
    forall|i: int| 0 <= i < v.len() ==> (#[trigger] v[i]).len() > 0
}

/// Keeping the names of two lists in a row.
pub proof fn lemma_keep_concat(a: Seq<Seq<char>>, b: Seq<Seq<char>>)
    ensures
        keep_nonempty(a + b) == keep_nonempty(a) + keep_nonempty(b),
    decreases b.len(),
{
    if b.len() == 0 {
        assert(a + b =~= a);
        assert(keep_nonempty(a) + keep_nonempty(b) =~= keep_nonempty(a));
    } else {
        lemma_keep_concat(a, b.drop_last());
        assert((a + b).drop_last() =~= a + b.drop_last());
        assert(keep_nonempty(a + b) =~= keep_nonempty(a) + keep_nonempty(b));
    }
}

/// What is kept is what is not empty.
pub proof fn lemma_keep_members(v: Seq<Seq<char>>)
    ensures
        none_empty(keep_nonempty(v)),
        forall|x: Seq<char>| #[trigger]
            keep_nonempty(v).contains(x) <==> v.contains(x) && x.len() > 0,
    decreases v.len(),
{
    if v.len() > 0 {
        let h = v.drop_last();
        lemma_keep_members(h);
        assert forall|x: Seq<char>| #[trigger]
            keep_nonempty(v).contains(x) <==> v.contains(x) && x.len() > 0 by {
            assert(v =~= h.push(v.last()));
            let k = keep_nonempty(v);
            let kh = keep_nonempty(h);
            if k.contains(x) {
                let i = choose|i: int| 0 <= i < k.len() && k[i] == x;
                if i < kh.len() {
                    assert(kh.contains(kh[i]));
                    assert(kh.contains(x));
                    let j = choose|j: int| 0 <= j < h.len() && h[j] == x;
                    assert(v[j] == x);
                } else {
                    assert(v[v.len() - 1] == x);
                }
            }
            if v.contains(x) && x.len() > 0 {
                let i = choose|i: int| 0 <= i < v.len() && v[i] == x;
                if i < h.len() {
                    assert(h[i] == x);
                    assert(kh.contains(x));
                    let j = choose|j: int| 0 <= j < kh.len() && kh[j] == x;
                    assert(k[j] == x);
                } else {
                    assert(k[k.len() - 1] == x);
                }
            }
        }
    }
}

/// Nothing is dropped where nothing is empty.
pub proof fn lemma_keep_all(v: Seq<Seq<char>>)
    requires
        none_empty(v),
    ensures
        keep_nonempty(v) == v,
    decreases v.len(),
{
    if v.len() > 0 {
        lemma_keep_all(v.drop_last());
        assert(v.drop_last().push(v.last()) =~= v);
        assert(v[v.len() - 1].len() > 0);
    }
}

/// The entries of two values with a comma between them.
pub proof fn lemma_entries_comma(a: Seq<char>, b: Seq<char>)
    ensures
        entries(a.push(',') + b) == entries(a) + entries(b),
        names(a.push(',') + b) == names(a) + names(b),
{
    lemma_split_at_sep(a, b, ',');
    assert(entries(a.push(',') + b) =~= entries(a) + entries(b));
    lemma_keep_concat(entries(a), entries(b));
}

/// A space in front of a value changes none of its entries.
pub proof fn lemma_entries_space(s: Seq<char>)
    ensures
        entries(seq![' '] + s) == entries(s),
        names(seq![' '] + s) == names(s),
{
    let e = seq![' '];
    lemma_split_concat(e, s, ',');
    lemma_split_free(e, ',');
    lemma_split_len(s, ',');
    let p = split(s, ',');
    lemma_trim_lead(' ', p[0]);
    assert(split(e + s, ',') =~= seq![e + p[0]] + p.skip(1));
    assert(entries(e + s) =~= entries(s)) by {
        assert forall|i: int| 0 <= i < p.len() implies trim(split(e + s, ',')[i]) == #[trigger] trim(
            p[i],
        ) by {}
    }
}

/// The entries of a joined list are the list.
pub proof fn lemma_entries_join(v: Seq<Seq<char>>)
    requires
        all_entries(v),
        v.len() > 0,
    ensures
        entries(join(v, ","@)) == v,
{
    comma();
    assert(all_free_of(v, ',')) by {
        assert forall|i: int| 0 <= i < v.len() implies free_of(#[trigger] v[i], ',') by {
            assert(is_entry(v[i]));
        }
    }
    lemma_split_join(v, ',');
    assert(trim_each(v) =~= v) by {
        assert forall|i: int| 0 <= i < v.len() implies trim(#[trigger] v[i]) == v[i] by {
            assert(is_entry(v[i]));
        }
    }
}

proof fn comma()
    ensures
        ","@ == seq![','],
{
    reveal_strlit(",");
    assert(","@ =~= seq![',']);
}

/// What the names in a value are like.
pub proof fn lemma_names_are_entries(value: Seq<char>)
    requires
        free_of(value, '='),
    ensures
        all_entries(names(value)),
        none_empty(names(value)),
{
    let p = split(value, ',');
    lemma_keep_members(entries(value));
    lemma_pieces_free(value, ',');
    lemma_pieces_keep_free(value, ',', '=');
    assert forall|i: int| 0 <= i < names(value).len() implies is_entry(
        #[trigger] names(value)[i],
    ) by {
        let x = names(value)[i];
        assert(names(value).contains(x));
        assert(entries(value).contains(x));
        let j = choose|j: int| 0 <= j < entries(value).len() && entries(value)[j] == x;
        assert(x == trim(p[j]));
        lemma_trim_twice(p[j]);
        assert(free_of(p[j], ','));
        assert(free_of(p[j], '='));
        lemma_trim_free(p[j], ',');
        lemma_trim_free(p[j], '=');
    }
}

/// The names in a value hold only characters of the value.
pub proof fn lemma_names_free(value: Seq<char>, c: char)
    requires
        free_of(value, c),
    ensures
        all_free_of(names(value), c),
{
    let p = split(value, ',');
    lemma_keep_members(entries(value));
    lemma_pieces_keep_free(value, ',', c);
    assert forall|i: int| 0 <= i < names(value).len() implies free_of(
        #[trigger] names(value)[i],
        c,
    ) by {
        let x = names(value)[i];
        assert(names(value).contains(x));
        let j = choose|j: int| 0 <= j < entries(value).len() && entries(value)[j] == x;
        assert(x == trim(p[j]));
        assert(free_of(p[j], c));
        lemma_trim_free(p[j], c);
    }
}

/// The drivers that a line lists are entries, and characters of the line.
pub proof fn lemma_listed(l: Seq<char>)
    ensures
        all_entries(listed(l)),
        none_empty(listed(l)),
        free_of(l, '\n') ==> all_free_of(listed(l), '\n'),
{
    lemma_pieces_free(l, '=');
    let p = split(l, '=');
    if p.len() > 1 {
        assert(free_of(p[1], '='));
    }
    lemma_names_are_entries(value_of(l));
    if free_of(l, '\n') {
        lemma_pieces_keep_free(l, '=', '\n');
        if p.len() > 1 {
            assert(free_of(p[1], '\n'));
        }
        lemma_names_free(value_of(l), '\n');
    }
}

// The line that lists drivers.

/// What stands in front of the first `=`.
pub open spec fn before_equals(s: Seq<char>) -> Seq<char> {
    split(s, '=')[0]
}

/// The names that `d` brings to a list when it is appended: what stands in it in front of any `=`,
/// cut at commas.
pub open spec fn brings(d: Seq<char>) -> Seq<Seq<char>> {
    names(before_equals(d))
}

/// A line that begins as the list of drivers does is a driver line.
pub proof fn lemma_sets_drivers(s: Seq<char>)
    ensures
        is_driver_line("mechanism_drivers = "@ + s),
{
    reveal_strlit("mechanism_drivers = ");
    reveal_strlit("mechanism_drivers");
    let w = "mechanism_drivers"@;
    let a = w.push(' ');
    assert("mechanism_drivers = "@ + s =~= a.push('=') + (seq![' '] + s));
    lemma_split_at_sep(a, seq![' '] + s, '=');
    lemma_split_free(a, '=');
    lemma_trim_tail(w, ' ');
    assert(trim_start(w) == w);
    assert(trim_end(w) == w);
}

/// The line that lists drivers is a driver line.
pub proof fn lemma_driver_line(v: Seq<Seq<char>>)
    ensures
        is_driver_line(driver_line(v)),
        driver_line(v).len() > 0,
{
    reveal_strlit("mechanism_drivers = ");
    lemma_sets_drivers(join(v, ","@));
}

/// The value of the line that sets `s`.
pub proof fn lemma_value_of(s: Seq<char>)
    ensures
        value_of("mechanism_drivers = "@ + s) == seq![' '] + before_equals(s),
{
    reveal_strlit("mechanism_drivers = ");
    let a = "mechanism_drivers = "@.take(18);
    let e = seq![' '];
    assert("mechanism_drivers = "@ + s =~= a.push('=') + (e + s));
    lemma_split_at_sep(a, e + s, '=');
    lemma_split_free(a, '=');
    lemma_split_concat(e, s, '=');
    lemma_split_free(e, '=');
    lemma_split_len(s, '=');
    assert(split(e + s, '=')[0] =~= e + before_equals(s));
}

/// A list of entries holds no `=`.
proof fn lemma_join_no_equals(v: Seq<Seq<char>>)
    requires
        all_entries(v),
    ensures
        free_of(join(v, ","@), '='),
{
    comma();
    assert(all_free_of(v, '=')) by {
        assert forall|i: int| 0 <= i < v.len() implies free_of(#[trigger] v[i], '=') by {
            assert(is_entry(v[i]));
        }
    }
    lemma_join_free(v, ","@, '=');
}

/// A line that lists entries is read back as it was written.
pub proof fn lemma_read_driver_line(v: Seq<Seq<char>>)
    requires
        all_entries(v),
    ensures
        v.len() > 0 ==> entries(value_of(driver_line(v))) == v,
        v.len() == 0 ==> entries(value_of(driver_line(v))) == seq![Seq::<char>::empty()],
        listed(driver_line(v)) == keep_nonempty(v),
{
    let j = join(v, ","@);
    lemma_join_no_equals(v);
    lemma_split_free(j, '=');
    lemma_value_of(j);
    lemma_entries_space(j);
    if v.len() > 0 {
        lemma_entries_join(v);
    } else {
        lemma_split_free(j, ',');
        assert(entries(j) =~= seq![Seq::<char>::empty()]);
        assert(entries(j).drop_last() =~= Seq::<Seq<char>>::empty());
        assert(v =~= Seq::<Seq<char>>::empty());
        reveal_with_fuel(keep_nonempty, 2);
        assert(keep_nonempty(entries(j)) =~= Seq::<Seq<char>>::empty());
    }
}

/// The value of a line that lists entries, without the white space around it, is the joined list.
pub proof fn lemma_driver_line_value(v: Seq<Seq<char>>)
    requires
        all_entries(v),
        none_empty(v),
    ensures
        trim(value_of(driver_line(v))) == join(v, ","@),
        split(driver_line(v), '=').len() == 2,
{
    let j = join(v, ","@);
    lemma_join_no_equals(v);
    lemma_split_free(j, '=');
    lemma_value_of(j);
    lemma_trim_lead(' ', j);
    reveal_strlit("mechanism_drivers = ");
    let a = "mechanism_drivers = "@.take(18);
    let e = seq![' '];
    assert(driver_line(v) =~= a.push('=') + (e + j));
    lemma_split_at_sep(a, e + j, '=');
    lemma_split_free(a, '=');
    lemma_split_free(e + j, '=');
    comma();
    if v.len() > 0 {
        assert(is_entry(v[0]) && v[0].len() > 0);
        assert(is_entry(v[v.len() - 1]) && v[v.len() - 1].len() > 0);
        lemma_trim_ends(v[0]);
        lemma_trim_ends(v.last());
        lemma_join_ends(v, ","@);
    }
}

/// A joined list begins as its first part does and ends as its last part does.
proof fn lemma_join_ends(v: Seq<Seq<char>>, sep: Seq<char>)
    requires
        v.len() > 0,
        none_empty(v),
    ensures
        join(v, sep).len() > 0,
        join(v, sep)[0] == v[0][0],
        join(v, sep).last() == v.last().last(),
    decreases v.len(),
{
    assert(v[0].len() > 0);
    assert(v[v.len() - 1].len() > 0);
    if v.len() > 1 {
        let h = v.drop_last();
        assert(none_empty(h)) by {
            assert forall|i: int| 0 <= i < h.len() implies (#[trigger] h[i]).len() > 0 by {
                assert(v[i].len() > 0);
            }
        }
        lemma_join_ends(h, sep);
        lemma_join_push(h, v.last(), sep);
        assert(h.push(v.last()) =~= v);
    }
}

/// What a line lists once `d`, whatever it is, is appended to the entries `v`.
pub proof fn lemma_read_appended(v: Seq<Seq<char>>, d: Seq<char>)
    requires
        all_entries(v),
        none_empty(v),
    ensures
        listed(driver_line(v.push(d))) == v + brings(d),
{
    let j = join(v, ","@);
    comma();
    if v.len() == 0 {
        assert(v.push(d) =~= seq![d]);
        lemma_value_of(d);
        lemma_entries_space(before_equals(d));
        assert(v + brings(d) =~= brings(d));
    } else {
        lemma_join_push(v, d, ","@);
        lemma_join_no_equals(v);
        let w = j + ","@;
        assert(join(v.push(d), ","@) == w + d);
        lemma_value_of(w + d);
        lemma_split_concat(w, d, '=');
        lemma_split_free(w, '=');
        lemma_split_len(d, '=');
        assert(before_equals(w + d) =~= w + before_equals(d));
        lemma_entries_space(w + before_equals(d));
        assert(w + before_equals(d) =~= j.push(',') + before_equals(d));
        lemma_entries_comma(j, before_equals(d));
        lemma_entries_join(v);
        lemma_keep_all(v);
    }
}

/// A carriage return at the end of a line matters neither to what kind of line it is nor to what it
/// lists.
pub proof fn lemma_carriage_return(m: Seq<char>)
    ensures
        is_driver_line(m.push('\r')) == is_driver_line(m),
        entries(value_of(m.push('\r'))) == entries(value_of(m)),
        listed(m.push('\r')) == listed(m),
{
    let l = m.push('\r');
    assert(l.drop_last() =~= m);
    lemma_split_len(m, '=');
    let q = split(m, '=');
    assert(split(l, '=') == q.drop_last().push(q.last().push('\r')));
    if q.len() == 1 {
        lemma_trim_tail(q[0], '\r');
    }
    if q.len() == 2 {
        let v = value_of(m);
        assert(value_of(l) == v.push('\r'));
        assert(v.push('\r').drop_last() =~= v);
        lemma_split_len(v, ',');
        let s = split(v, ',');
        assert(split(v.push('\r'), ',') == s.drop_last().push(s.last().push('\r')));
        lemma_trim_tail(s.last(), '\r');
        assert(entries(v.push('\r')) =~= entries(v));
    } else {
        assert(value_of(l) =~= value_of(m));
    }
}

/// A line is of the same kind and lists the same with a line end as without it.
pub proof fn lemma_with_end(m: Seq<char>, ls: Seq<Seq<char>>, i: int)
    ensures
        is_driver_line(m + line_end(ls, i)) == is_driver_line(m),
        entries(value_of(m + line_end(ls, i))) == entries(value_of(m)),
        listed(m + line_end(ls, i)) == listed(m),
{
    if line_end(ls, i).len() > 0 {
        assert(m + line_end(ls, i) =~= m.push('\r'));
        lemma_carriage_return(m);
    } else {
        assert(m + line_end(ls, i) =~= m);
    }
}

} // verus!
