//! How splitting and joining relate.
use crate::text::{join, lemma_split_len, split};
use vstd::prelude::*;

verus! {

/// Whether `c` does not occur in `s`.
pub open spec fn free_of(s: Seq<char>, c: char) -> bool {
    forall|i: int| 0 <= i < s.len() ==> s[i] != c
}

/// Whether `c` occurs in none of `v`.
pub open spec fn all_free_of(v: Seq<Seq<char>>, c: char) -> bool {
    forall|i: int| 0 <= i < v.len() ==> free_of(#[trigger] v[i], c)
}

/// Splitting two texts in a row: the last piece of the first and the first piece of the second grow
/// together.
pub proof fn lemma_split_concat(a: Seq<char>, b: Seq<char>, c: char)
    ensures
        split(a + b, c) == split(a, c).drop_last().push(split(a, c).last() + split(b, c)[0])
            + split(b, c).skip(1),
    decreases b.len(),
{
    lemma_split_len(a, c);
    lemma_split_len(b, c);
    let pa = split(a, c);
    if b.len() == 0 {
        assert(a + b =~= a);
        assert(pa.last() + split(b, c)[0] =~= pa.last());
        assert(pa =~= pa.drop_last().push(pa.last()) + split(b, c).skip(1));
    } else {
        let h = b.drop_last();
        let x = b.last();
        lemma_split_concat(a, h, c);
        lemma_split_len(h, c);
        assert((a + b).drop_last() =~= a + h);
        assert((a + b).last() == x);
        let ph = split(h, c);
        let pb = split(b, c);
        let whole = split(a + h, c);
        if x == c {
            assert(pb == ph.push(Seq::<char>::empty()));
            assert(split(a + b, c) == whole.push(Seq::<char>::empty()));
            assert(pb[0] == ph[0]);
            assert(pb.skip(1) =~= ph.skip(1).push(Seq::<char>::empty()));
        } else {
            assert(pb == ph.drop_last().push(ph.last().push(x)));
            assert(split(a + b, c) == whole.drop_last().push(whole.last().push(x)));
            if ph.len() == 1 {
                assert(pb[0] == ph[0].push(x));
                assert(ph.skip(1) =~= Seq::<Seq<char>>::empty());
                assert(pb.skip(1) =~= Seq::<Seq<char>>::empty());
                assert(pa.last() + pb[0] =~= (pa.last() + ph[0]).push(x));
                assert(whole =~= pa.drop_last().push(pa.last() + ph[0]));
                assert(split(a + b, c) =~= pa.drop_last().push(pa.last() + pb[0]) + pb.skip(1));
            } else {
                assert(pb[0] == ph[0]);
                assert(pb.skip(1) =~= ph.skip(1).drop_last().push(ph.last().push(x)));
                assert(whole.last() == ph.last());
                assert(split(a + b, c) =~= pa.drop_last().push(pa.last() + pb[0]) + pb.skip(1));
            }
        }
    }
}

/// A text without the separator is its own single piece.
pub proof fn lemma_split_free(s: Seq<char>, c: char)
    requires
        free_of(s, c),
    ensures
        split(s, c) == seq![s],
    decreases s.len(),
{
    if s.len() > 0 {
        lemma_split_free(s.drop_last(), c);
        assert(s.drop_last().push(s.last()) =~= s);
        assert(split(s, c) =~= seq![s]);
    } else {
        assert(s =~= Seq::<char>::empty());
    }
}

/// No piece holds the separator.
pub proof fn lemma_pieces_free(s: Seq<char>, c: char)
    ensures
        all_free_of(split(s, c), c),
    decreases s.len(),
{
    lemma_split_len(s, c);
    if s.len() > 0 {
        lemma_pieces_free(s.drop_last(), c);
        lemma_split_len(s.drop_last(), c);
    }
}

/// A piece holds only characters of the whole text.
pub proof fn lemma_pieces_keep_free(s: Seq<char>, c: char, x: char)
    requires
        free_of(s, x),
    ensures
        all_free_of(split(s, c), x),
    decreases s.len(),
{
    lemma_split_len(s, c);
    if s.len() > 0 {
        lemma_pieces_keep_free(s.drop_last(), c, x);
        lemma_split_len(s.drop_last(), c);
    }
}

/// A text that follows a separator is split on its own.
pub proof fn lemma_split_at_sep(a: Seq<char>, b: Seq<char>, c: char)
    ensures
        split(a.push(c) + b, c) == split(a, c) + split(b, c),
{
    let e = Seq::<char>::empty();
    lemma_split_concat(a.push(c), b, c);
    lemma_split_len(a, c);
    lemma_split_len(b, c);
    assert(a.push(c).drop_last() =~= a);
    assert(split(a.push(c), c) == split(a, c).push(e));
    assert(split(a, c).push(e).drop_last() =~= split(a, c));
    assert(e + split(b, c)[0] =~= split(b, c)[0]);
    assert(split(a, c).push(split(b, c)[0]) + split(b, c).skip(1) =~= split(a, c) + split(b, c));
}

/// Splitting undoes joining, where no part holds the separator.
pub proof fn lemma_split_join(v: Seq<Seq<char>>, c: char)
    requires
        v.len() > 0,
        all_free_of(v, c),
    ensures
        split(join(v, seq![c]), c) == v,
    decreases v.len(),
{
    if v.len() == 1 {
        lemma_split_free(v[0], c);
        assert(v =~= seq![v[0]]);
    } else {
        let h = v.drop_last();
        lemma_split_join(h, c);
        lemma_split_free(v.last(), c);
        lemma_split_at_sep(join(h, seq![c]), v.last(), c);
        assert(join(h, seq![c]) + seq![c] =~= join(h, seq![c]).push(c));
        assert(h + seq![v.last()] =~= v);
    }
}

/// Joining undoes splitting.
pub proof fn lemma_join_split(s: Seq<char>, c: char)
    ensures
        join(split(s, c), seq![c]) == s,
    decreases s.len(),
{
    lemma_split_len(s, c);
    if s.len() == 0 {
        assert(s =~= Seq::<char>::empty());
    } else {
        let h = s.drop_last();
        lemma_join_split(h, c);
        lemma_split_len(h, c);
        let ph = split(h, c);
        assert(s =~= h.push(s.last()));
        if s.last() == c {
            let p = split(s, c);
            assert(p == ph.push(Seq::<char>::empty()));
            assert(p.drop_last() =~= ph);
            assert(join(p, seq![c]) =~= h + seq![c]);
        } else {
            let p = split(s, c);
            assert(p == ph.drop_last().push(ph.last().push(s.last())));
            assert(p.drop_last() =~= ph.drop_last());
            if ph.len() > 1 {
                assert(join(p, seq![c]) =~= join(ph, seq![c]).push(s.last()));
            }
        }
    }
}

/// A joined text holds only characters of the parts and of the separator.
pub proof fn lemma_join_free(v: Seq<Seq<char>>, sep: Seq<char>, c: char)
    requires
        all_free_of(v, c),
        free_of(sep, c),
    ensures
        free_of(join(v, sep), c),
    decreases v.len(),
{
    if v.len() > 1 {
        lemma_join_free(v.drop_last(), sep, c);
    }
}

/// Joining one part more.
pub proof fn lemma_join_push(v: Seq<Seq<char>>, x: Seq<char>, sep: Seq<char>)
    requires
        v.len() > 0,
    ensures
        join(v.push(x), sep) == join(v, sep) + sep + x,
{
    assert(v.push(x).drop_last() =~= v);
}

/// Joining two lists of parts in a row.
pub proof fn lemma_join_concat(v: Seq<Seq<char>>, w: Seq<Seq<char>>, sep: Seq<char>)
    requires
        v.len() > 0,
        w.len() > 0,
    ensures
        join(v + w, sep) == join(v, sep) + sep + join(w, sep),
    decreases w.len(),
{
    if w.len() == 1 {
        assert(v + w =~= v.push(w[0]));
        lemma_join_push(v, w[0], sep);
    } else {
        lemma_join_concat(v, w.drop_last(), sep);
        assert((v + w).drop_last() =~= v + w.drop_last());
        assert(join(v + w, sep) == join(v + w.drop_last(), sep) + sep + w.last());
        assert(join(v + w, sep) =~= join(v, sep) + sep + join(w, sep));
    }
}

} // verus!
