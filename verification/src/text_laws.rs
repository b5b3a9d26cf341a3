//! What holds of every text.
use crate::text::{
    contains, is_white, lemma_split_len, lines, occurs_at, split, trim, trim_end, trim_start,
};
use crate::text_lemmas::{free_of, lemma_split_at_sep, lemma_split_free};
use vstd::prelude::*;

verus! {

/// Trimming takes the white space off both ends, and nothing else.
pub proof fn law_trimming_takes_off_white_ends(s: Seq<char>)
    ensures
        exists|a: int, b: int|
            #![trigger s.subrange(a, b)]
            0 <= a <= b <= s.len() && trim(s) == s.subrange(a, b) && (forall|i: int|
                0 <= i < a || b <= i < s.len() ==> is_white(#[trigger] s[i])) && (a < b
                ==> !is_white(s[a]) && !is_white(s[b - 1])),
{
    let a = s.len() - trim_start(s).len();
    lemma_trim_start_is(s);
    let t = trim_start(s);
    lemma_trim_end_is(t);
    let b = a + trim_end(t).len();
    assert(trim(s) =~= s.subrange(a, b));
    assert forall|i: int| 0 <= i < a || b <= i < s.len() implies is_white(#[trigger] s[i]) by {
        if i >= b {
            assert(s[i] == t[i - a]);
        }
    }
}

proof fn lemma_trim_start_is(s: Seq<char>)
    ensures
        trim_start(s).len() <= s.len(),
        trim_start(s) == s.skip(s.len() - trim_start(s).len()),
        forall|i: int| 0 <= i < s.len() - trim_start(s).len() ==> is_white(#[trigger] s[i]),
        trim_start(s).len() > 0 ==> !is_white(trim_start(s)[0]),
    decreases s.len(),
{
    if s.len() > 0 && is_white(s[0]) {
        let rest = s.drop_first();
        lemma_trim_start_is(rest);
        assert(trim_start(s) =~= s.skip(s.len() - trim_start(s).len()));
        assert forall|i: int| 0 <= i < s.len() - trim_start(s).len() implies is_white(
            #[trigger] s[i],
        ) by {
            if i > 0 {
                assert(rest[i - 1] == s[i]);
            }
        }
    } else {
        assert(s.skip(0) =~= s);
    }
}

proof fn lemma_trim_end_is(s: Seq<char>)
    ensures
        trim_end(s).len() <= s.len(),
        trim_end(s) == s.take(trim_end(s).len() as int),
        forall|i: int| trim_end(s).len() <= i < s.len() ==> is_white(#[trigger] s[i]),
        trim_end(s).len() > 0 ==> !is_white(trim_end(s).last()),
    decreases s.len(),
{
    if s.len() > 0 && is_white(s.last()) {
        let rest = s.drop_last();
        lemma_trim_end_is(rest);
        assert(trim_end(s) =~= s.take(trim_end(s).len() as int));
        assert forall|i: int| trim_end(s).len() <= i < s.len() implies is_white(
            #[trigger] s[i],
        ) by {
            if i < rest.len() {
                assert(rest[i] == s[i]);
            }
        }
    } else {
        assert(s.take(s.len() as int) =~= s);
    }
}

/// White space are the characters that Unicode gives that property.
pub proof fn law_what_white_space_is(c: char)
    ensures
        is_white(c) <==> (0x9 <= c as u32 <= 0xd || c as u32 == 0x20 || c as u32 == 0x85 || c as u32
            == 0xa0 || c as u32 == 0x1680 || 0x2000 <= c as u32 <= 0x200a || c as u32 == 0x2028
            || c as u32 == 0x2029 || c as u32 == 0x202f || c as u32 == 0x205f || c as u32
            == 0x3000),
{
}

/// A text contains another if and only if it is made of something, the other, and something.
pub proof fn law_what_a_text_contains(s: Seq<char>, p: Seq<char>)
    ensures
        contains(s, p) <==> exists|a: Seq<char>, b: Seq<char>| #[trigger] (a + p + b) == s,
{
    if contains(s, p) {
        let i = choose|i: int| occurs_at(s, p, i);
        let a = s.take(i);
        let b = s.skip(i + p.len());
        assert(a + p + b =~= s);
    }
    if exists|a: Seq<char>, b: Seq<char>| #[trigger] (a + p + b) == s {
        let (a, b) = choose|a: Seq<char>, b: Seq<char>| #[trigger] (a + p + b) == s;
        assert(s.subrange(a.len() as int, (a.len() + p.len()) as int) =~= p);
        assert(occurs_at(s, p, a.len() as int));
    }
}

/// A carriage return in front of a line feed belongs to the end of the line, not to its text.
pub proof fn law_the_end_of_a_line(a: Seq<char>, rest: Seq<char>)
    requires
        free_of(a, '\n'),
    ensures
        lines(a.push('\r').push('\n') + rest).len() > 0,
        lines(a.push('\r').push('\n') + rest)[0] == a,
        a.len() == 0 || a.last() != '\r' ==> lines(a.push('\n') + rest).len() > 0 && lines(
            a.push('\n') + rest,
        )[0] == a,
{
    lemma_split_free(a, '\n');
    lemma_split_free(a.push('\r'), '\n');
    lemma_split_at_sep(a, rest, '\n');
    lemma_split_at_sep(a.push('\r'), rest, '\n');
    lemma_split_len(rest, '\n');
    assert(a.push('\r').drop_last() =~= a);
    assert(split(a.push('\r').push('\n') + rest, '\n')[0] == a.push('\r'));
    assert(split(a.push('\n') + rest, '\n')[0] == a);
    assert(lines(a.push('\r').push('\n') + rest)[0] =~= a);
}

} // verus!
