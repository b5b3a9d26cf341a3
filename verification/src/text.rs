//! Text as a sequence of characters: trimming, searching, splitting, lines and joining.
//!
//! Every operation is a short spec function on `Seq<char>` and an executable function on `Vec<char>`
//! that is proved to compute it.
use vstd::prelude::*;

verus! {

/// `String::push` appends one character to the end of a string.
pub assume_specification[ String::push ](s: &mut String, c: char)
    ensures
        final(s)@ == old(s)@.push(c),
;

/// The contents of each string of `v`.
pub open spec fn texts(v: Seq<String>) -> Seq<Seq<char>> {
    Seq::new(v.len(), |i: int| v[i]@)
}

/// The contents of each character vector of `v`.
pub open spec fn rows(v: Seq<Vec<char>>) -> Seq<Seq<char>> {
    Seq::new(v.len(), |i: int| v[i]@)
}

/// The characters of `s`, in order.
pub fn chars_of(s: &str) -> (v: Vec<char>)
    ensures
        v@ == s@,
{
    let mut v: Vec<char> = Vec::new();
    for c in it: s.chars()
        invariant
            it.seq() == s@,
            v@ == s@.take(it.index() as int),
    {
        v.push(c);
    }
    assert(s@.take(s@.len() as int) == s@);
    v
}

/// The string made of the characters of `v`.
pub fn string_of(v: &Vec<char>) -> (s: String)
    ensures
        s@ == v@,
{
    let mut s = String::new();
    for i in 0..v.len()
        invariant
            s@ == v@.take(i as int),
    {
        s.push(v[i]);
    }
    assert(v@.take(v@.len() as int) == v@);
    s
}

/// The characters of `v` from `from` up to, not including, `to`.
pub fn slice_of(v: &Vec<char>, from: usize, to: usize) -> (r: Vec<char>)
    requires
        from <= to <= v@.len(),
    ensures
        r@ == v@.subrange(from as int, to as int),
{
    let mut r: Vec<char> = Vec::new();
    for i in from..to
        invariant
            from <= i <= to <= v@.len(),
            r@ == v@.subrange(from as int, i as int),
    {
        r.push(v[i]);
    }
    r
}

/// A copy of `v`.
pub fn copy_of(v: &Vec<char>) -> (r: Vec<char>)
    ensures
        r@ == v@,
{
    slice_of(v, 0, v.len())
}

/// Appends the characters of `w` to `v`.
pub fn extend(v: &mut Vec<char>, w: &Vec<char>)
    ensures
        final(v)@ == old(v)@ + w@,
{
    let ghost start = v@;
    for i in 0..w.len()
        invariant
            v@ == start + w@.take(i as int),
    {
        v.push(w[i]);
    }
    assert(w@.take(w@.len() as int) == w@);
}

/// Whether the two vectors hold the same characters.
pub fn same_chars(a: &Vec<char>, b: &Vec<char>) -> (r: bool)
    ensures
        r == (a@ == b@),
{
    if a.len() != b.len() {
        return false;
    }
    for i in 0..a.len()
        invariant
            a@.len() == b@.len(),
            forall|j: int| 0 <= j < i ==> a@[j] == b@[j],
    {
        if a[i] != b[i] {
            return false;
        }
    }
    assert(a@ =~= b@);
    true
}

/// Whether the two strings hold the same text.
pub fn same_text(a: &str, b: &str) -> (r: bool)
    ensures
        r == (a@ == b@),
{
    same_chars(&chars_of(a), &chars_of(b))
}

/// A copy of `a` followed by `b`.
pub fn concat(a: &str, b: &str) -> (r: String)
    ensures
        r@ == a@ + b@,
{
    let mut r = a.to_owned();
    r.append(b);
    r
}

// White space.

/// The characters with the Unicode property `White_Space`.
pub open spec fn is_white(c: char) -> bool {
    let n = c as u32;
    ||| 0x9 <= n <= 0xd
    ||| n == 0x20
    ||| n == 0x85
    ||| n == 0xa0
    ||| n == 0x1680
    ||| 0x2000 <= n <= 0x200a
    ||| n == 0x2028
    ||| n == 0x2029
    ||| n == 0x202f
    ||| n == 0x205f
    ||| n == 0x3000
}

/// Whether `c` is white space.
pub fn white(c: char) -> (r: bool)
    ensures
        r == is_white(c),
{
    let n: u32 = c as u32;
    (0x9 <= n && n <= 0xd) || n == 0x20 || n == 0x85 || n == 0xa0 || n == 0x1680 || (0x2000 <= n
        && n <= 0x200a) || n == 0x2028 || n == 0x2029 || n == 0x202f || n == 0x205f || n == 0x3000
}

/// `s` without its leading white space.
pub open spec fn trim_start(s: Seq<char>) -> Seq<char>
    decreases s.len(),
{
    if s.len() > 0 && is_white(s[0]) {
        trim_start(s.drop_first())
    } else {
        s
    }
}

/// `s` without its trailing white space.
pub open spec fn trim_end(s: Seq<char>) -> Seq<char>
    decreases s.len(),
{
    if s.len() > 0 && is_white(s.last()) {
        trim_end(s.drop_last())
    } else {
        s
    }
}

/// `s` without the white space around it.
pub open spec fn trim(s: Seq<char>) -> Seq<char> {
    trim_end(trim_start(s))
}

/// Skipping leading white space one character at a time leads to the trimmed text.
pub proof fn lemma_trim_start_skip(s: Seq<char>, n: int)
    requires
        0 <= n <= s.len(),
        forall|i: int| 0 <= i < n ==> is_white(s[i]),
    ensures
        trim_start(s) == trim_start(s.skip(n)),
    decreases n,
{
    if n > 0 {
        lemma_trim_start_skip(s.drop_first(), n - 1);
        assert(s.drop_first().skip(n - 1) =~= s.skip(n));
    } else {
        assert(s.skip(0) =~= s);
    }
}

/// Dropping trailing white space one character at a time leads to the trimmed text.
pub proof fn lemma_trim_end_take(s: Seq<char>, n: int)
    requires
        0 <= n <= s.len(),
        forall|i: int| n <= i < s.len() ==> is_white(s[i]),
    ensures
        trim_end(s) == trim_end(s.take(n)),
    decreases s.len() - n,
{
    if n < s.len() {
        lemma_trim_end_take(s.drop_last(), n);
        assert(s.drop_last().take(n) =~= s.take(n));
    } else {
        assert(s.take(n) =~= s);
    }
}

/// `v` without its leading white space.
pub fn trimmed_start(v: &Vec<char>) -> (r: Vec<char>)
    ensures
        r@ == trim_start(v@),
{
    let mut i: usize = 0;
    while i < v.len() && white(v[i])
        invariant
            i <= v@.len(),
            forall|j: int| 0 <= j < i ==> is_white(v@[j]),
        decreases v@.len() - i,
    {
        i = i + 1;
    }
    proof {
        lemma_trim_start_skip(v@, i as int);
        assert(v@.skip(i as int) =~= v@.subrange(i as int, v@.len() as int));
    }
    slice_of(v, i, v.len())
}

/// `v` without the white space around it.
pub fn trimmed(v: &Vec<char>) -> (r: Vec<char>)
    ensures
        r@ == trim(v@),
{
    let s = trimmed_start(v);
    let mut n: usize = s.len();
    while n > 0 && white(s[n - 1])
        invariant
            n <= s@.len(),
            forall|j: int| n <= j < s@.len() ==> is_white(s@[j]),
        decreases n,
    {
        n = n - 1;
    }
    proof {
        lemma_trim_end_take(s@, n as int);
        assert(s@.take(n as int) =~= s@.subrange(0, n as int));
    }
    slice_of(&s, 0, n)
}

// Searching.

/// Whether `s` begins with `p`.
pub open spec fn starts_with(s: Seq<char>, p: Seq<char>) -> bool {
    p.len() <= s.len() && s.take(p.len() as int) == p
}

/// Whether `s` ends with `p`.
pub open spec fn ends_with(s: Seq<char>, p: Seq<char>) -> bool {
    p.len() <= s.len() && s.skip(s.len() - p.len()) == p
}

/// Whether `p` stands in `s` at position `i`.
pub open spec fn occurs_at(s: Seq<char>, p: Seq<char>, i: int) -> bool {
    0 <= i && i + p.len() <= s.len() && s.subrange(i, i + p.len()) == p
}

/// Whether `p` stands anywhere in `s`.
pub open spec fn contains(s: Seq<char>, p: Seq<char>) -> bool {
    exists|i: int| occurs_at(s, p, i)
}

/// Whether `p` stands in `v` at position `i`.
pub fn found_at(v: &Vec<char>, p: &Vec<char>, i: usize) -> (r: bool)
    requires
        i <= v@.len(),
    ensures
        r == occurs_at(v@, p@, i as int),
{
    if v.len() - i < p.len() {
        return false;
    }
    for j in 0..p.len()
        invariant
            i + p.len() <= v.len(),
            forall|k: int| 0 <= k < j ==> v@[i + k] == p@[k],
    {
        if v[i + j] != p[j] {
            assert(v@.subrange(i as int, i + p@.len())[j as int] != p@[j as int]);
            return false;
        }
    }
    assert(v@.subrange(i as int, i + p@.len()) =~= p@);
    true
}

/// Whether `v` ends with `p`.
pub fn ends(v: &Vec<char>, p: &Vec<char>) -> (r: bool)
    ensures
        r == ends_with(v@, p@),
{
    if v.len() < p.len() {
        return false;
    }
    let i: usize = v.len() - p.len();
    proof {
        assert(v@.skip(i as int) =~= v@.subrange(i as int, i + p@.len()));
    }
    found_at(v, p, i)
}

/// Whether `p` stands anywhere in `v`.
pub fn found(v: &Vec<char>, p: &Vec<char>) -> (r: bool)
    ensures
        r == contains(v@, p@),
{
    for i in 0..v.len()
        invariant
            forall|j: int| 0 <= j < i ==> !occurs_at(v@, p@, j),
    {
        if found_at(v, p, i) {
            return true;
        }
    }
    let r = found_at(v, p, v.len());
    assert(!r ==> !contains(v@, p@)) by {
        if !r && contains(v@, p@) {
            let i = choose|i: int| occurs_at(v@, p@, i);
            assert(0 <= i <= v@.len());
        }
    }
    r
}

// Splitting.

/// The pieces of `s` between the occurrences of `c`: one more than there are occurrences.
pub open spec fn split(s: Seq<char>, c: char) -> Seq<Seq<char>>
    decreases s.len(),
{
    if s.len() == 0 {
        seq![Seq::<char>::empty()]
    } else {
        let head = split(s.drop_last(), c);
        if s.last() == c {
            head.push(Seq::<char>::empty())
        } else {
            head.drop_last().push(head.last().push(s.last()))
        }
    }
}

/// The piece after the first `c` and before the next one; empty where there is no `c`.
pub open spec fn second_piece(s: Seq<char>, c: char) -> Seq<char> {
    if split(s, c).len() > 1 {
        split(s, c)[1]
    } else {
        Seq::<char>::empty()
    }
}

/// There is always at least one piece.
pub proof fn lemma_split_len(s: Seq<char>, c: char)
    ensures
        split(s, c).len() >= 1,
    decreases s.len(),
{
    if s.len() > 0 {
        lemma_split_len(s.drop_last(), c);
    }
}

/// The pieces of `v` between the occurrences of `c`.
pub fn pieces(v: &Vec<char>, c: char) -> (r: Vec<Vec<char>>)
    ensures
        rows(r@) == split(v@, c),
{
    let mut done: Vec<Vec<char>> = Vec::new();
    let mut cur: Vec<char> = Vec::new();
    assert(rows(done@).push(cur@) =~= split(v@.take(0), c));
    for i in 0..v.len()
        invariant
            rows(done@).push(cur@) == split(v@.take(i as int), c),
    {
        let ghost head = v@.take(i as int);
        assert(v@.take(i + 1).drop_last() =~= head);
        assert(v@.take(i + 1).last() == v@[i as int]);
        let ghost before = rows(done@);
        assert(split(head, c).last() == cur@);
        assert(split(head, c).drop_last() =~= before);
        if v[i] == c {
            let ghost last = cur@;
            done.push(cur);
            cur = Vec::new();
            assert(rows(done@) =~= before.push(last));
            assert(cur@ =~= Seq::<char>::empty());
        } else {
            cur.push(v[i]);
        }
    }
    assert(v@.take(v@.len() as int) =~= v@);
    let ghost before = rows(done@);
    let ghost last = cur@;
    done.push(cur);
    assert(rows(done@) =~= before.push(last));
    done
}

/// The piece of `v` after the first `c` and before the next one; empty where there is no `c`.
pub fn piece_after(v: &Vec<char>, c: char) -> (r: Vec<char>)
    ensures
        r@ == second_piece(v@, c),
{
    let p = pieces(v, c);
    assert(rows(p@).len() == p@.len());
    if p.len() > 1 {
        assert(rows(p@)[1] == p@[1]@);
        copy_of(&p[1])
    } else {
        Vec::new()
    }
}

// Lines.

/// A line without a carriage return at its end.
pub open spec fn chomp(s: Seq<char>) -> Seq<char> {
    if s.len() > 0 && s.last() == '\r' {
        s.drop_last()
    } else {
        s
    }
}

/// The lines of `s`. A line ends at `\n` or at `\r\n`, and the end is no part of it; what follows
/// the last line end is a line of its own unless it is empty.
pub open spec fn lines(s: Seq<char>) -> Seq<Seq<char>> {
    let p = split(s, '\n');
    let ended = Seq::new((p.len() - 1) as nat, |i: int| chomp(p[i]));
    if p.last().len() == 0 {
        ended
    } else {
        ended.push(p.last())
    }
}

/// Whether the last character of `s` is a line feed.
pub open spec fn ends_line(s: Seq<char>) -> bool {
    s.len() > 0 && s.last() == '\n'
}

/// The pieces of `v` between the occurrences of `sep`.
pub open spec fn join(v: Seq<Seq<char>>, sep: Seq<char>) -> Seq<char>
    decreases v.len(),
{
    if v.len() == 0 {
        Seq::<char>::empty()
    } else if v.len() == 1 {
        v[0]
    } else {
        join(v.drop_last(), sep) + sep + v.last()
    }
}

/// The lines of `v`.
pub fn lines_of(v: &Vec<char>) -> (r: Vec<Vec<char>>)
    ensures
        rows(r@) == lines(v@),
{
    let p = pieces(v, '\n');
    proof {
        lemma_split_len(v@, '\n');
        assert(rows(p@).len() == p@.len());
    }
    let mut r: Vec<Vec<char>> = Vec::new();
    let n: usize = p.len() - 1;
    let ghost all = split(v@, '\n');
    let ghost ended = Seq::new((all.len() - 1) as nat, |i: int| chomp(all[i]));
    for i in 0..n
        invariant
            n == p@.len() - 1,
            rows(p@) == all,
            ended == Seq::new((all.len() - 1) as nat, |i: int| chomp(all[i])),
            rows(r@) == ended.take(i as int),
    {
        let line = &p[i];
        assert(all[i as int] == line@);
        let k: usize = if line.len() > 0 && line[line.len() - 1] == '\r' {
            line.len() - 1
        } else {
            line.len()
        };
        let ghost before = rows(r@);
        let cut = slice_of(line, 0, k);
        assert(cut@ =~= chomp(line@));
        r.push(cut);
        assert(rows(r@) =~= before.push(chomp(line@)));
        assert(ended.take(i + 1) =~= ended.take(i as int).push(ended[i as int]));
    }
    assert(ended.take(n as int) =~= ended);
    assert(all.last() == p@[n as int]@);
    if p[n].len() > 0 {
        let ghost before = rows(r@);
        let last = copy_of(&p[n]);
        assert(last@ =~= all.last());
        r.push(last);
        assert(rows(r@) =~= before.push(all.last()));
    }
    r
}

/// The pieces of `v` with `sep` between two of them.
pub fn joined(v: &Vec<Vec<char>>, sep: &Vec<char>) -> (r: Vec<char>)
    ensures
        r@ == join(rows(v@), sep@),
{
    let mut r: Vec<char> = Vec::new();
    let ghost all = rows(v@);
    assert(all.take(0) =~= Seq::<Seq<char>>::empty());
    for i in 0..v.len()
        invariant
            all == rows(v@),
            r@ == join(all.take(i as int), sep@),
    {
        assert(all.take(i + 1).drop_last() =~= all.take(i as int));
        assert(all.take(i + 1).last() == v@[i as int]@);
        if i > 0 {
            extend(&mut r, sep);
        }
        extend(&mut r, &v[i]);
        assert(i == 0 ==> r@ =~= v@[0]@);
    }
    assert(all.take(all.len() as int) =~= all);
    r
}

/// The strings of `v` with `sep` between two of them.
pub fn join_strings(v: &Vec<String>, sep: &str) -> (r: String)
    ensures
        r@ == join(texts(v@), sep@),
{
    let mut r = String::new();
    let ghost all = texts(v@);
    assert(all.take(0) =~= Seq::<Seq<char>>::empty());
    for i in 0..v.len()
        invariant
            all == texts(v@),
            r@ == join(all.take(i as int), sep@),
    {
        assert(all.take(i + 1).drop_last() =~= all.take(i as int));
        assert(all.take(i + 1).last() == v@[i as int]@);
        if i > 0 {
            r.append(sep);
        }
        r.append(v[i].as_str());
        assert(i == 0 ==> r@ =~= v@[0]@);
    }
    assert(all.take(all.len() as int) =~= all);
    r
}

} // verus!
