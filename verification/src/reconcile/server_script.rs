//! The script that starts `neutron-server`: adding the `--config-dir` flag that makes it read the
//! drivers' own settings, and taking the flag out again.
use crate::error::{text_result, ErrorView, GuardianError};
use crate::files::{
    ended_lines, file_with, line_views, read_lines, write_lines, Line, LineView,
};
use crate::text::{chars_of, concat, contains, copy_of, extend, found, same_chars};
use vstd::prelude::*;

verus! {

/// The directory of which `neutron-server` reads every `*.conf` file, once the flag is there. Each
/// driver with settings of its own has one file in it.
pub const EXTRA_CONF_DIR: &'static str = "/etc/neutron/ml2-extra-conf.d";

/// The last `--config-file` line of the script, with nothing behind it. The flag goes after exactly
/// this line: in a script of another shape, guessing a place for it could keep Neutron from
/// starting.
pub const ML2_CONF_FILE_FLAG_LINE: &'static str = "        --config-file /etc/neutron/plugins/ml2/ml2_conf.ini";

/// The flag.
pub open spec fn flag() -> Seq<char> {
    "--config-dir "@ + EXTRA_CONF_DIR@
}

/// The line that the flag goes after.
pub open spec fn anchor() -> Seq<char> {
    ML2_CONF_FILE_FLAG_LINE@
}

/// The same line, continued on the next one.
pub open spec fn continued() -> Seq<char> {
    anchor() + " \\"@
}

/// The line with the flag.
pub open spec fn flag_line() -> Seq<char> {
    "        "@ + flag()
}

/// `ls` with every anchor line continued by a line with the flag. Both have the line end that the
/// anchor line had.
pub open spec fn insert_flag(ls: Seq<LineView>) -> Seq<LineView>
    decreases ls.len(),
{
    if ls.len() == 0 {
        Seq::empty()
    } else if ls.last().text == anchor() {
        insert_flag(ls.drop_last()).push(
            LineView { text: continued(), end: ls.last().end },
        ).push(LineView { text: flag_line(), end: ls.last().end })
    } else {
        insert_flag(ls.drop_last()).push(ls.last())
    }
}

/// Whether some line of `ls` is an anchor line.
pub open spec fn has_anchor(ls: Seq<LineView>) -> bool {
    exists|i: int| 0 <= i < ls.len() && (#[trigger] ls[i]).text == anchor()
}

/// Whether `ls` ends in a continued anchor line and the line with the flag.
pub open spec fn ends_in_flag(ls: Seq<LineView>) -> bool {
    ls.len() >= 2 && ls[ls.len() - 2].text == continued() && ls.last().text == flag_line()
}

/// `ls` with every continued anchor line and the flag line behind it made one anchor line again,
/// with the line end that the flag line had.
pub open spec fn drop_flag(ls: Seq<LineView>) -> Seq<LineView>
    decreases ls.len(),
{
    if ls.len() == 0 {
        Seq::empty()
    } else if ends_in_flag(ls) {
        drop_flag(ls.take(ls.len() - 2)).push(LineView { text: anchor(), end: ls.last().end })
    } else {
        drop_flag(ls.drop_last()).push(ls.last())
    }
}

/// Whether somewhere in `ls` a continued anchor line is followed by the line with the flag.
pub open spec fn has_flag_pair(ls: Seq<LineView>) -> bool {
    exists|i: int|
        0 <= i < ls.len() - 1 && ls[i].text == continued() && (#[trigger] ls[i + 1]).text
            == flag_line()
}

/// What [`add_config_dir_flag`] returns.
pub open spec fn script_with_flag(script: Seq<char>) -> Result<Seq<char>, ErrorView> {
    if contains(script, flag()) {
        Ok(script)
    } else if has_anchor(ended_lines(script)) {
        Ok(file_with(insert_flag(ended_lines(script))))
    } else {
        Err(
            ErrorView::Config(
                "neutron-server.sh didn't contain the expected anchor line (\""@ + anchor()
                    + "\") -- refusing to guess where to insert --config-dir"@,
            ),
        )
    }
}

/// What [`remove_config_dir_flag`] returns.
pub open spec fn script_without_flag(script: Seq<char>) -> Seq<char> {
    file_with(drop_flag(ended_lines(script)))
}

fn flag_text() -> (r: Vec<char>)
    ensures
        r@ == flag(),
{
    let mut r = chars_of("--config-dir ");
    extend(&mut r, &chars_of(EXTRA_CONF_DIR));
    r
}

fn flag_line_text() -> (r: Vec<char>)
    ensures
        r@ == flag_line(),
{
    let mut r = chars_of("        ");
    extend(&mut r, &flag_text());
    r
}

fn continued_text() -> (r: Vec<char>)
    ensures
        r@ == continued(),
{
    let mut r = chars_of(ML2_CONF_FILE_FLAG_LINE);
    extend(&mut r, &chars_of(" \\"));
    r
}

/// A copy of a line.
fn copied(line: &Line) -> (r: Line)
    ensures
        r@ == line@,
{
    Line { text: copy_of(&line.text), end: copy_of(&line.end) }
}

/// The script with the flag: as it is where the flag stands in it already; otherwise with the flag
/// on a line of its own behind the anchor line, which is continued. Every other line stays byte for
/// byte as it is, its line end included. A script without the anchor line is refused.
pub fn add_config_dir_flag(script: &str) -> (r: Result<String, GuardianError>)
    ensures
        text_result(r) == script_with_flag(script@),
{
    if found(&chars_of(script), &flag_text()) {
        return Ok(script.to_owned());
    }
    let ls = read_lines(script);
    let mark = chars_of(ML2_CONF_FILE_FLAG_LINE);
    let ghost all = ended_lines(script@);
    let mut seen: bool = false;
    let mut out: Vec<Line> = Vec::new();
    assert(line_views(out@) =~= insert_flag(all.take(0)));
    for i in 0..ls.len()
        invariant
            all == line_views(ls@),
            mark@ == anchor(),
            line_views(out@) == insert_flag(all.take(i as int)),
            seen == exists|j: int| 0 <= j < i && (#[trigger] all[j]).text == anchor(),
    {
        let ghost before = line_views(out@);
        let ghost upto = all.take(i + 1);
        assert(all[i as int] == ls@[i as int]@);
        assert(upto.drop_last() =~= all.take(i as int));
        assert(upto.last() == ls@[i as int]@);
        if same_chars(&ls[i].text, &mark) {
            seen = true;
            out.push(Line { text: continued_text(), end: copy_of(&ls[i].end) });
            out.push(Line { text: flag_line_text(), end: copy_of(&ls[i].end) });
            assert(line_views(out@) =~= before.push(
                LineView { text: continued(), end: ls@[i as int].end@ },
            ).push(LineView { text: flag_line(), end: ls@[i as int].end@ }));
        } else {
            out.push(copied(&ls[i]));
            assert(line_views(out@) =~= before.push(ls@[i as int]@));
        }
    }
    assert(all.take(all.len() as int) =~= all);
    if !seen {
        let head = concat(
            "neutron-server.sh didn't contain the expected anchor line (\"",
            ML2_CONF_FILE_FLAG_LINE,
        );
        return Err(
            GuardianError::Config(
                concat(
                    head.as_str(),
                    "\") -- refusing to guess where to insert --config-dir",
                ),
            ),
        );
    }
    Ok(write_lines(&out))
}

/// The continued anchor line and the line with the flag differ.
pub proof fn lemma_continued_is_not_flag_line()
    ensures
        continued() != flag_line(),
{
    reveal_strlit("        --config-file /etc/neutron/plugins/ml2/ml2_conf.ini");
    reveal_strlit("        ");
    reveal_strlit("--config-dir ");
    assert(continued()[17] == 'f');
    assert(flag_line()[17] == 'd');
}

/// The script without the flag that [`add_config_dir_flag`] puts there. Every other line stays byte
/// for byte as it is, its line end included, and a script in which the flag does not stand in that
/// form comes back unchanged.
pub fn remove_config_dir_flag(script: &str) -> (r: String)
    ensures
        r@ == script_without_flag(script@),
{
    let ls = read_lines(script);
    let first = continued_text();
    let second = flag_line_text();
    let ghost all = ended_lines(script@);
    let mut out: Vec<Line> = Vec::new();
    let mut i: usize = 0;
    proof {
        lemma_continued_is_not_flag_line();
        assert(line_views(out@) =~= drop_flag(all.take(0)));
    }
    while i < ls.len()
        invariant
            all == line_views(ls@),
            first@ == continued(),
            second@ == flag_line(),
            continued() != flag_line(),
            i <= ls@.len(),
            0 < i < all.len() ==> !(all[i - 1].text == continued() && all[i as int].text
                == flag_line()),
            line_views(out@) == drop_flag(all.take(i as int)),
        decreases ls@.len() - i,
    {
        let ghost before = line_views(out@);
        assert(all[i as int] == ls@[i as int]@);
        assert(i + 1 < all.len() ==> all[i + 1] == ls@[i + 1]@);
        if i + 1 < ls.len() && same_chars(&ls[i].text, &first) && same_chars(
            &ls[i + 1].text,
            &second,
        ) {
            out.push(
                Line { text: chars_of(ML2_CONF_FILE_FLAG_LINE), end: copy_of(&ls[i + 1].end) },
            );
            assert(line_views(out@) =~= before.push(
                LineView { text: anchor(), end: all[i + 1].end },
            ));
            let ghost upto = all.take(i + 2);
            assert(ends_in_flag(upto));
            assert(upto.take(upto.len() - 2) =~= all.take(i as int));
            i = i + 2;
        } else {
            out.push(copied(&ls[i]));
            assert(line_views(out@) =~= before.push(all[i as int]));
            let ghost upto = all.take(i + 1);
            assert(!ends_in_flag(upto)) by {
                if ends_in_flag(upto) {
                    assert(upto[upto.len() - 2] == all[i - 1]);
                }
            }
            assert(upto.drop_last() =~= all.take(i as int));
            i = i + 1;
        }
    }
    assert(all.take(all.len() as int) =~= all);
    write_lines(&out)
}

} // verus!
