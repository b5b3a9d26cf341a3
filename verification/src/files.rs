//! Files as lines, each with its own line end: what is not edited comes back byte for byte.
use crate::text::{
    chars_of, chomp, copy_of, extend, join, joined, lemma_split_len, pieces, rows, slice_of, split,
    string_of,
};
use crate::text_lemmas::{
    all_free_of, free_of, lemma_join_split, lemma_pieces_free, lemma_split_join,
};
use vstd::prelude::*;

verus! {

/// The lines of a file: what stands between its line feeds, a carriage return at the end of a line
/// included.
pub open spec fn file_lines(s: Seq<char>) -> Seq<Seq<char>> {
    split(s, '\n')
}

/// The carriage return, if any, that stands between line `i` and the line feed behind it.
pub open spec fn line_end(ls: Seq<Seq<char>>, i: int) -> Seq<char> {
    if i < ls.len() - 1 && ls[i].len() > 0 && ls[i].last() == '\r' {
        seq!['\r']
    } else {
        Seq::empty()
    }
}

/// Line `i` without the carriage return that belongs to its line end.
pub open spec fn line_text(ls: Seq<Seq<char>>, i: int) -> Seq<char> {
    if i < ls.len() - 1 {
        chomp(ls[i])
    } else {
        ls[i]
    }
}

/// A line, and the carriage return, if any, that belongs to its line end.
#[derive(Debug)]
pub struct Line {
    pub text: Vec<char>,
    pub end: Vec<char>,
}

/// A [`Line`] with its texts as sequences of characters.
#[verifier::ext_equal]
pub struct LineView {
    pub text: Seq<char>,
    pub end: Seq<char>,
}

impl View for Line {
    type V = LineView;

    open spec fn view(&self) -> LineView {
        LineView { text: self.text@, end: self.end@ }
    }
}

/// The views of a list of lines.
pub open spec fn line_views(v: Seq<Line>) -> Seq<LineView> {
    Seq::new(v.len(), |i: int| v[i]@)
}

/// The lines of a file, each with its line end.
pub open spec fn ended_lines(s: Seq<char>) -> Seq<LineView> {
    let ls = file_lines(s);
    Seq::new(ls.len(), |i: int| LineView { text: line_text(ls, i), end: line_end(ls, i) })
}

/// Each line together with its line end.
pub open spec fn whole_lines(v: Seq<LineView>) -> Seq<Seq<char>> {
    Seq::new(v.len(), |i: int| v[i].text + v[i].end)
}

/// The file that has these lines.
pub open spec fn file_with(v: Seq<LineView>) -> Seq<char> {
    join(whole_lines(v), seq!['\n'])
}

/// The carriage return, if any, between line `i` and the line feed behind it.
pub fn end_of(ls: &Vec<Vec<char>>, i: usize) -> (r: Vec<char>)
    requires
        i < ls@.len(),
    ensures
        r@ == line_end(rows(ls@), i as int),
{
    let n: usize = ls[i].len();
    let mut r: Vec<char> = Vec::new();
    if i < ls.len() - 1 && n > 0 && ls[i][n - 1] == '\r' {
        r.push('\r');
    }
    assert(r@ =~= line_end(rows(ls@), i as int));
    r
}

/// The lines of a file.
pub fn lines_in(s: &str) -> (r: Vec<Vec<char>>)
    ensures
        rows(r@) == file_lines(s@),
{
    pieces(&chars_of(s), '\n')
}

/// The file that is made of these lines, each with its carriage return.
pub fn file_of(ls: &Vec<Vec<char>>) -> (r: String)
    ensures
        r@ == join(rows(ls@), seq!['\n']),
{
    let sep = chars_of("\n");
    proof {
        reveal_strlit("\n");
        assert(sep@ =~= seq!['\n']);
    }
    string_of(&joined(ls, &sep))
}

/// The lines of a file, each with its line end.
pub fn read_lines(s: &str) -> (r: Vec<Line>)
    ensures
        line_views(r@) == ended_lines(s@),
{
    let ls = lines_in(s);
    let ghost all = file_lines(s@);
    let mut r: Vec<Line> = Vec::new();
    for i in 0..ls.len()
        invariant
            all == rows(ls@),
            all == file_lines(s@),
            line_views(r@) == ended_lines(s@).take(i as int),
    {
        let ghost before = line_views(r@);
        assert(all[i as int] == ls@[i as int]@);
        let end = end_of(&ls, i);
        let n: usize = ls[i].len() - end.len();
        let text = slice_of(&ls[i], 0, n);
        assert(text@ =~= line_text(all, i as int));
        r.push(Line { text, end });
        assert(line_views(r@) =~= before.push(ended_lines(s@)[i as int]));
        assert(ended_lines(s@).take(i + 1) =~= ended_lines(s@).take(i as int).push(
            ended_lines(s@)[i as int],
        ));
    }
    assert(ended_lines(s@).take(all.len() as int) =~= ended_lines(s@));
    r
}

/// The file that has these lines.
pub fn write_lines(v: &Vec<Line>) -> (r: String)
    ensures
        r@ == file_with(line_views(v@)),
{
    let ghost goal = whole_lines(line_views(v@));
    let mut ls: Vec<Vec<char>> = Vec::new();
    for i in 0..v.len()
        invariant
            goal == whole_lines(line_views(v@)),
            rows(ls@) == goal.take(i as int),
    {
        let ghost before = rows(ls@);
        let mut line = copy_of(&v[i].text);
        extend(&mut line, &v[i].end);
        ls.push(line);
        assert(rows(ls@) =~= before.push(goal[i as int]));
        assert(goal.take(i + 1) =~= goal.take(i as int).push(goal[i as int]));
    }
    assert(goal.take(goal.len() as int) =~= goal);
    file_of(&ls)
}

/// Whether a line can stand in front of a line feed: a carriage return at its end is in its line end.
pub open spec fn can_stand(l: LineView) -> bool {
    &&& free_of(l.text, '\n')
    &&& l.end == seq!['\r'] || (l.end.len() == 0 && chomp(l.text) == l.text)
}

/// Whether a list of lines is one that a file can have.
pub open spec fn are_lines(v: Seq<LineView>) -> bool {
    &&& v.len() > 0
    &&& forall|i: int| 0 <= i < v.len() - 1 ==> can_stand(#[trigger] v[i])
    &&& free_of(v.last().text, '\n')
    &&& v.last().end.len() == 0
}

/// A file is made of its lines.
pub proof fn lemma_read_file(s: Seq<char>)
    ensures
        are_lines(ended_lines(s)),
        file_with(ended_lines(s)) == s,
{
    let ls = file_lines(s);
    let v = ended_lines(s);
    lemma_split_len(s, '\n');
    lemma_pieces_free(s, '\n');
    lemma_join_split(s, '\n');
    assert forall|i: int| 0 <= i < v.len() implies whole_lines(v)[i] == #[trigger] ls[i] by {
        assert(line_text(ls, i) + line_end(ls, i) =~= ls[i]);
    }
    assert(whole_lines(v) =~= ls);
    assert forall|i: int| 0 <= i < v.len() implies free_of(#[trigger] v[i].text, '\n') by {
        assert(free_of(ls[i], '\n'));
    }
    assert forall|i: int| 0 <= i < v.len() - 1 implies can_stand(#[trigger] v[i]) by {
        assert(free_of(v[i].text, '\n'));
    }
    assert(free_of(v[v.len() - 1].text, '\n'));
}

/// A file is read back as the lines that it was made of.
pub proof fn lemma_written_file(v: Seq<LineView>)
    requires
        are_lines(v),
    ensures
        ended_lines(file_with(v)) == v,
{
    let w = whole_lines(v);
    assert forall|i: int| 0 <= i < w.len() implies free_of(#[trigger] w[i], '\n') by {
        if i < v.len() - 1 {
            assert(can_stand(v[i]));
        }
    }
    assert(all_free_of(w, '\n'));
    lemma_split_join(w, '\n');
    let r = ended_lines(file_with(v));
    assert forall|i: int| 0 <= i < v.len() implies #[trigger] r[i] == v[i] by {
        if i < v.len() - 1 {
            assert(can_stand(v[i]));
            if v[i].end.len() > 0 {
                assert(w[i] =~= v[i].text.push('\r'));
                assert(line_text(w, i) =~= v[i].text);
            } else {
                assert(w[i] =~= v[i].text);
            }
            assert(line_end(w, i) =~= v[i].end);
        } else {
            assert(w[i] =~= v[i].text);
            assert(line_end(w, i) =~= v[i].end);
        }
    }
    assert(r =~= v);
}

} // verus!
