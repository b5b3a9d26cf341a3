//! The `mechanism_drivers` setting of `ml2_conf.ini`: reading it, adding a driver, taking one out.
use crate::error::{text_result, ErrorView, GuardianError};
use crate::files::{end_of, file_lines, file_of, line_end, lines_in};
use crate::text::{
    chars_of, copy_of, extend, join, joined, lemma_split_len, piece_after, pieces, rows, same_chars,
    second_piece, split, string_of, trim, trimmed,
};
use crate::text_lemmas::lemma_join_split;
use vstd::prelude::*;

verus! {

/// Each of `v` without the white space around it.
pub open spec fn trim_each(v: Seq<Seq<char>>) -> Seq<Seq<char>> {
    Seq::new(v.len(), |i: int| trim(v[i]))
}

/// Those of `v` that are not empty, in order.
pub open spec fn keep_nonempty(v: Seq<Seq<char>>) -> Seq<Seq<char>>
    decreases v.len(),
{
    if v.len() == 0 {
        Seq::empty()
    } else if v.last().len() == 0 {
        keep_nonempty(v.drop_last())
    } else {
        keep_nonempty(v.drop_last()).push(v.last())
    }
}

/// `v` without `x`, wherever it occurs.
pub open spec fn without(v: Seq<Seq<char>>, x: Seq<char>) -> Seq<Seq<char>>
    decreases v.len(),
{
    if v.len() == 0 {
        Seq::empty()
    } else if v.last() == x {
        without(v.drop_last(), x)
    } else {
        without(v.drop_last(), x).push(v.last())
    }
}

/// The entries of a comma-separated value, trimmed, with the empty ones.
pub open spec fn entries(value: Seq<char>) -> Seq<Seq<char>> {
    trim_each(split(value, ','))
}

/// The names in a comma-separated value: its entries that are not empty.
pub open spec fn names(value: Seq<char>) -> Seq<Seq<char>> {
    keep_nonempty(entries(value))
}

/// Whether a line sets `mechanism_drivers`: what stands in front of its first `=` is that word.
pub open spec fn is_driver_line(l: Seq<char>) -> bool {
    trim(split(l, '=')[0]) == "mechanism_drivers"@
}

/// The value of a setting: what stands behind the first `=` and before the next one.
pub open spec fn value_of(l: Seq<char>) -> Seq<char> {
    second_piece(l, '=')
}

/// The drivers that a line lists.
pub open spec fn listed(l: Seq<char>) -> Seq<Seq<char>> {
    names(value_of(l))
}

/// The line that lists `drivers`.
pub open spec fn driver_line(drivers: Seq<Seq<char>>) -> Seq<char> {
    "mechanism_drivers = "@ + join(drivers, ","@)
}

/// `drivers`, with `d` behind them unless it is one of them.
pub open spec fn with_driver(drivers: Seq<Seq<char>>, d: Seq<char>) -> Seq<Seq<char>> {
    if drivers.contains(d) {
        drivers
    } else {
        drivers.push(d)
    }
}

/// Whether line `i` is the first of `ls` that sets `mechanism_drivers`.
pub open spec fn first_driver_line(ls: Seq<Seq<char>>, i: int) -> bool {
    &&& 0 <= i < ls.len()
    &&& is_driver_line(ls[i])
    &&& forall|j: int| 0 <= j < i ==> !is_driver_line(#[trigger] ls[j])
}

/// Whether some line of `ls` sets `mechanism_drivers`.
pub open spec fn has_driver_line(ls: Seq<Seq<char>>) -> bool {
    exists|i: int| 0 <= i < ls.len() && is_driver_line(#[trigger] ls[i])
}

/// Whether the first line of `conf` that sets `mechanism_drivers` has `d` as an entry.
pub open spec fn conf_includes(conf: Seq<char>, d: Seq<char>) -> bool {
    exists|i: int|
        #[trigger] first_driver_line(file_lines(conf), i) && entries(
            value_of(file_lines(conf)[i]),
        ).contains(d)
}

/// The value of the first of `ls` that sets `mechanism_drivers`; nothing if none does.
pub open spec fn drivers_value(ls: Seq<Seq<char>>) -> Seq<char>
    decreases ls.len(),
{
    if ls.len() == 0 {
        Seq::empty()
    } else if is_driver_line(ls[0]) {
        trim(value_of(ls[0]))
    } else {
        drivers_value(ls.drop_first())
    }
}

/// A line with `d` added to the drivers that it lists, and with its own line end; another line as it
/// is.
pub open spec fn line_with(l: Seq<char>, end: Seq<char>, d: Seq<char>) -> Seq<char> {
    if is_driver_line(l) {
        driver_line(with_driver(listed(l), d)) + end
    } else {
        l
    }
}

/// Every line of `ls` that lists drivers, with `d` added.
pub open spec fn lines_with(ls: Seq<Seq<char>>, d: Seq<char>) -> Seq<Seq<char>> {
    Seq::new(ls.len(), |i: int| line_with(ls[i], line_end(ls, i), d))
}

/// What [`add_driver_to_ml2_conf`] returns.
pub open spec fn conf_with(conf: Seq<char>, d: Seq<char>) -> Result<Seq<char>, ErrorView> {
    if has_driver_line(file_lines(conf)) {
        Ok(join(lines_with(file_lines(conf), d), seq!['\n']))
    } else {
        Err(
            ErrorView::Config(
                "no mechanism_drivers line found in ml2_conf.ini -- refusing to guess where to insert one"@,
            ),
        )
    }
}

/// Whether a line lists the driver `d`.
pub open spec fn lists(l: Seq<char>, d: Seq<char>) -> bool {
    is_driver_line(l) && listed(l).contains(d)
}

/// A line with `d` taken out of the drivers that it lists, and with its own line end; a line that
/// does not list it as it is.
pub open spec fn line_without(l: Seq<char>, end: Seq<char>, d: Seq<char>) -> Seq<char> {
    if lists(l, d) {
        driver_line(without(listed(l), d)) + end
    } else {
        l
    }
}

/// Every line of `ls`, with `d` taken out of the drivers that it lists.
pub open spec fn lines_without(ls: Seq<Seq<char>>, d: Seq<char>) -> Seq<Seq<char>> {
    Seq::new(ls.len(), |i: int| line_without(ls[i], line_end(ls, i), d))
}

/// Whether some line of `conf` lists the driver `d`.
pub open spec fn conf_lists(conf: Seq<char>, d: Seq<char>) -> bool {
    exists|i: int| 0 <= i < file_lines(conf).len() && lists(#[trigger] file_lines(conf)[i], d)
}

/// What [`remove_driver_from_ml2_conf`] returns.
pub open spec fn conf_without(conf: Seq<char>, d: Seq<char>) -> Seq<char> {
    join(lines_without(file_lines(conf), d), seq!['\n'])
}

/// Whether a line sets `mechanism_drivers`.
fn sets_drivers(line: &Vec<char>) -> (r: bool)
    ensures
        r == is_driver_line(line@),
{
    let parts = pieces(line, '=');
    proof {
        lemma_split_len(line@, '=');
        assert(parts@[0]@ == rows(parts@)[0]);
    }
    same_chars(&trimmed(&parts[0]), &chars_of("mechanism_drivers"))
}

/// The entries of the value that a line sets.
fn entries_of(line: &Vec<char>) -> (r: Vec<Vec<char>>)
    ensures
        rows(r@) == entries(value_of(line@)),
{
    let value = piece_after(line, '=');
    let parts = pieces(&value, ',');
    let ghost all = split(value@, ',');
    let mut r: Vec<Vec<char>> = Vec::new();
    for i in 0..parts.len()
        invariant
            all == rows(parts@),
            rows(r@) == trim_each(all).take(i as int),
    {
        let ghost before = rows(r@);
        let t = trimmed(&parts[i]);
        assert(t@ == trim_each(all)[i as int]);
        r.push(t);
        assert(rows(r@) =~= before.push(trim_each(all)[i as int]));
        assert(trim_each(all).take(i + 1) =~= trim_each(all).take(i as int).push(
            trim_each(all)[i as int],
        ));
    }
    assert(trim_each(all).take(all.len() as int) =~= trim_each(all));
    r
}

/// Whether `x` is one of `v`.
fn is_one_of(v: &Vec<Vec<char>>, x: &Vec<char>) -> (r: bool)
    ensures
        r == rows(v@).contains(x@),
{
    for i in 0..v.len()
        invariant
            forall|j: int| 0 <= j < i ==> rows(v@)[j] != x@,
    {
        if same_chars(&v[i], x) {
            assert(rows(v@)[i as int] == x@);
            return true;
        }
    }
    false
}

/// The drivers that a line lists.
fn listed_by(line: &Vec<char>) -> (r: Vec<Vec<char>>)
    ensures
        rows(r@) == listed(line@),
{
    let all = entries_of(line);
    let mut r: Vec<Vec<char>> = Vec::new();
    assert(rows(r@) =~= keep_nonempty(rows(all@).take(0)));
    for i in 0..all.len()
        invariant
            rows(r@) == keep_nonempty(rows(all@).take(i as int)),
    {
        let ghost before = rows(r@);
        let ghost upto = rows(all@).take(i + 1);
        assert(upto.drop_last() =~= rows(all@).take(i as int));
        assert(upto.last() == all@[i as int]@);
        if all[i].len() > 0 {
            let copy = copy_of(&all[i]);
            r.push(copy);
            assert(rows(r@) =~= before.push(all@[i as int]@));
        }
    }
    assert(rows(all@).take(all@.len() as int) =~= rows(all@));
    r
}

/// The line that lists `drivers`.
fn line_of(drivers: &Vec<Vec<char>>) -> (r: Vec<char>)
    ensures
        r@ == driver_line(rows(drivers@)),
{
    let mut r = chars_of("mechanism_drivers = ");
    let list = joined(drivers, &chars_of(","));
    extend(&mut r, &list);
    r
}

/// `drivers` without `x`.
fn drop_driver(drivers: &Vec<Vec<char>>, x: &Vec<char>) -> (r: Vec<Vec<char>>)
    ensures
        rows(r@) == without(rows(drivers@), x@),
{
    let mut r: Vec<Vec<char>> = Vec::new();
    assert(rows(r@) =~= without(rows(drivers@).take(0), x@));
    for i in 0..drivers.len()
        invariant
            rows(r@) == without(rows(drivers@).take(i as int), x@),
    {
        let ghost before = rows(r@);
        let ghost upto = rows(drivers@).take(i + 1);
        assert(upto.drop_last() =~= rows(drivers@).take(i as int));
        assert(upto.last() == drivers@[i as int]@);
        if !same_chars(&drivers[i], x) {
            let copy = copy_of(&drivers[i]);
            r.push(copy);
            assert(rows(r@) =~= before.push(drivers@[i as int]@));
        }
    }
    assert(rows(drivers@).take(drivers@.len() as int) =~= rows(drivers@));
    r
}

/// Whether the `mechanism_drivers` setting of `ml2_conf` has `driver_name` as an entry. Only the
/// first line that sets it counts; without such a line nothing is included.
pub fn mechanism_drivers_line_includes(ml2_conf: &str, driver_name: &str) -> (r: bool)
    ensures
        r == conf_includes(ml2_conf@, driver_name@),
{
    let ls = lines_in(ml2_conf);
    let name = chars_of(driver_name);
    let ghost all = file_lines(ml2_conf@);
    for i in 0..ls.len()
        invariant
            all == rows(ls@),
            all == file_lines(ml2_conf@),
            name@ == driver_name@,
            forall|j: int| 0 <= j < i ==> !is_driver_line(#[trigger] all[j]),
    {
        assert(all[i as int] == ls@[i as int]@);
        if sets_drivers(&ls[i]) {
            assert(first_driver_line(all, i as int));
            assert(forall|k: int| first_driver_line(all, k) ==> k == i);
            return is_one_of(&entries_of(&ls[i]), &name);
        }
    }
    false
}

/// The value that `ml2_conf` sets `mechanism_drivers` to, as it is written there.
pub fn mechanism_drivers_of(ml2_conf: &str) -> (r: String)
    ensures
        r@ == drivers_value(file_lines(ml2_conf@)),
{
    let ls = lines_in(ml2_conf);
    let ghost all = file_lines(ml2_conf@);
    assert(all.skip(0) =~= all);
    for i in 0..ls.len()
        invariant
            all == rows(ls@),
            drivers_value(all) == drivers_value(all.skip(i as int)),
            all == file_lines(ml2_conf@),
    {
        let ghost left = all.skip(i as int);
        assert(left[0] == ls@[i as int]@);
        assert(left.drop_first() =~= all.skip(i + 1));
        if sets_drivers(&ls[i]) {
            return string_of(&trimmed(&piece_after(&ls[i], '=')));
        }
    }
    let r = String::new();
    assert(r@ =~= drivers_value(all.skip(ls@.len() as int)));
    r
}

/// `ml2_conf` with `driver_name` added to its `mechanism_drivers` setting, unless it is listed
/// there: what the setting lists now, plus this driver, never a fixed list. Every other line stays
/// byte for byte as it is, its line end included, and the changed line keeps its line end. A file
/// without the setting is refused: there is no telling where the setting would belong.
pub fn add_driver_to_ml2_conf(ml2_conf: &str, driver_name: &str) -> (r: Result<
    String,
    GuardianError,
>)
    ensures
        text_result(r) == conf_with(ml2_conf@, driver_name@),
{
    let ls = lines_in(ml2_conf);
    let name = chars_of(driver_name);
    let ghost all = file_lines(ml2_conf@);
    let ghost goal = lines_with(all, driver_name@);
    let mut seen: bool = false;
    let mut out: Vec<Vec<char>> = Vec::new();
    for i in 0..ls.len()
        invariant
            all == rows(ls@),
            name@ == driver_name@,
            goal == lines_with(all, driver_name@),
            rows(out@) == goal.take(i as int),
            seen == exists|j: int| 0 <= j < i && is_driver_line(#[trigger] all[j]),
    {
        let ghost before = rows(out@);
        assert(all[i as int] == ls@[i as int]@);
        assert(goal.take(i + 1) =~= goal.take(i as int).push(goal[i as int]));
        if sets_drivers(&ls[i]) {
            seen = true;
            let mut drivers = listed_by(&ls[i]);
            if !is_one_of(&drivers, &name) {
                let ghost d = rows(drivers@);
                drivers.push(copy_of(&name));
                assert(rows(drivers@) =~= d.push(name@));
            }
            let mut line = line_of(&drivers);
            extend(&mut line, &end_of(&ls, i));
            out.push(line);
        } else {
            out.push(copy_of(&ls[i]));
        }
        assert(rows(out@) =~= before.push(goal[i as int]));
    }
    assert(goal.take(all.len() as int) =~= goal);
    if !seen {
        return Err(
            GuardianError::Config(
                "no mechanism_drivers line found in ml2_conf.ini -- refusing to guess where to insert one".to_owned(),
            ),
        );
    }
    Ok(file_of(&out))
}

/// `ml2_conf` with `driver_name` taken out of every `mechanism_drivers` setting that lists it. Every
/// other line stays byte for byte as it is, its line end included, and a changed line keeps its line
/// end; a file that does not list the driver comes back unchanged.
pub fn remove_driver_from_ml2_conf(ml2_conf: &str, driver_name: &str) -> (r: String)
    ensures
        r@ == conf_without(ml2_conf@, driver_name@),
        !conf_lists(ml2_conf@, driver_name@) ==> r@ == ml2_conf@,
{
    let ls = lines_in(ml2_conf);
    let name = chars_of(driver_name);
    let ghost all = file_lines(ml2_conf@);
    let ghost goal = lines_without(all, driver_name@);
    let mut out: Vec<Vec<char>> = Vec::new();
    for i in 0..ls.len()
        invariant
            all == rows(ls@),
            name@ == driver_name@,
            goal == lines_without(all, driver_name@),
            rows(out@) == goal.take(i as int),
    {
        let ghost before = rows(out@);
        assert(all[i as int] == ls@[i as int]@);
        assert(goal.take(i + 1) =~= goal.take(i as int).push(goal[i as int]));
        let mut hit: bool = false;
        if sets_drivers(&ls[i]) {
            let drivers = listed_by(&ls[i]);
            if is_one_of(&drivers, &name) {
                hit = true;
                let mut line = line_of(&drop_driver(&drivers, &name));
                extend(&mut line, &end_of(&ls, i));
                out.push(line);
            }
        }
        if !hit {
            out.push(copy_of(&ls[i]));
        }
        assert(rows(out@) =~= before.push(goal[i as int]));
    }
    assert(goal.take(all.len() as int) =~= goal);
    proof {
        if !conf_lists(ml2_conf@, driver_name@) {
            assert forall|i: int| 0 <= i < all.len() implies goal[i] == #[trigger] all[i] by {
                assert(!lists(file_lines(ml2_conf@)[i], driver_name@));
            }
            assert(goal =~= all);
            lemma_join_split(ml2_conf@, '\n');
        }
    }
    file_of(&out)
}

} // verus!
