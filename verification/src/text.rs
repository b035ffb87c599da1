//! Small text helpers shared by the emitters and savers: string equality,
//! single-character appends, and substring replacement.

use vstd::prelude::*;

verus! {

/// Concatenation of sequences is associative.
pub proof fn seq_assoc<A>(a: Seq<A>, b: Seq<A>, c: Seq<A>)
    ensures
        (a + b) + c == a + (b + c),
{
    assert((a + b) + c =~= a + (b + c));
}

/// Decides equality of two string slices at the level of their views.
pub fn str_eq(a: &str, b: &str) -> (r: bool)
    ensures
        r == (a@ == b@),
{
    let sa = String::from_str(a);
    let sb = String::from_str(b);
    sa == sb
}

/// Relies on String::push: appends exactly the one given character.
#[verifier::external_body]
pub fn push_char(s: &mut String, c: char)
    ensures
        final(s)@ == old(s)@.push(c),
{
    s.push(c);
}

/// The result of replacing every occurrence of `from` in `s` by `to`,
/// scanning left to right and never rescanning replaced text.
pub open spec fn replace_spec(s: Seq<char>, from: Seq<char>, to: Seq<char>) -> Seq<char>
    recommends
        from.len() > 0,
    decreases s.len(),
{
    if s.len() == 0 {
        Seq::empty()
    } else if from.len() > 0 && s.len() >= from.len() && s.subrange(0, from.len() as int)
        == from {
        to + replace_spec(s.skip(from.len() as int), from, to)
    } else {
        seq![s[0]] + replace_spec(s.drop_first(), from, to)
    }
}

/// True when `from` occurs in `s` starting at position `i`.
pub open spec fn matches_at(s: Seq<char>, from: Seq<char>, i: int) -> bool {
    0 <= i && i + from.len() <= s.len() && s.subrange(i, i + from.len() as int) == from
}

/// Checks whether `from` occurs in `s` starting at character position `i`.
pub fn check_match_at(s: &str, from: &str, i: usize) -> (r: bool)
    requires
        i <= s@.len(),
    ensures
        r == matches_at(s@, from@, i as int),
{
    let s_len = s.unicode_len();
    let from_len = from.unicode_len();
    if s_len - i < from_len {
        assert(!matches_at(s@, from@, i as int));
        return false;
    }
    let mut j: usize = 0;
    while j < from_len
        invariant
            0 <= j <= from_len,
            i + from_len <= s_len,
            s_len == s@.len(),
            from_len == from@.len(),
            forall|k: int| 0 <= k < j ==> s@[i + k] == from@[k],
        decreases from_len - j,
    {
        if s.get_char(i + j) != from.get_char(j) {
            assert(s@.subrange(i as int, i + from@.len() as int)[j as int] == s@[i + j]);
            assert(!matches_at(s@, from@, i as int));
            return false;
        }
        j += 1;
    }
    assert(s@.subrange(i as int, i + from@.len() as int) =~= from@);
    true
}

/// Finds the first occurrence of `pat` in `s`, as a character position.
pub fn find_sub(s: &str, pat: &str) -> (r: Option<usize>)
    requires
        pat@.len() > 0,
    ensures
        match r {
            Some(i) => matches_at(s@, pat@, i as int) && forall|j: int|
                0 <= j < i ==> !matches_at(s@, pat@, j),
            None => forall|j: int| !matches_at(s@, pat@, j),
        },
{
    let s_len = s.unicode_len();
    let mut i: usize = 0;
    while i < s_len
        invariant
            0 <= i <= s_len,
            s_len == s@.len(),
            pat@.len() > 0,
            forall|j: int| 0 <= j < i ==> !matches_at(s@, pat@, j),
        decreases s_len - i,
    {
        if check_match_at(s, pat, i) {
            return Some(i);
        }
        i += 1;
    }
    proof {
        assert forall|j: int| !matches_at(s@, pat@, j) by {
            if 0 <= j < s_len {
            } else {
                assert(!matches_at(s@, pat@, j));
            }
        }
    }
    None
}

/// Replaces every occurrence of `from` in `s` by `to`, scanning left to
/// right, as [`replace_spec`] describes.
pub fn replace_all(s: &str, from: &str, to: &str) -> (r: String)
    requires
        from@.len() > 0,
    ensures
        r@ == replace_spec(s@, from@, to@),
{
    let mut out = String::new();
    let mut i: usize = 0;
    let s_len = s.unicode_len();
    let from_len = from.unicode_len();
    proof {
        assert(s@.skip(0) =~= s@);
        assert(Seq::<char>::empty() + replace_spec(s@, from@, to@) =~= replace_spec(
            s@,
            from@,
            to@,
        ));
    }
    while i < s_len
        invariant
            0 <= i <= s_len,
            s_len == s@.len(),
            from_len == from@.len(),
            from@.len() > 0,
            replace_spec(s@, from@, to@) == out@ + replace_spec(
                s@.skip(i as int),
                from@,
                to@,
            ),
        decreases s_len - i,
    {
        let ghost rest = s@.skip(i as int);
        let ghost out0 = out@;
        if check_match_at(s, from, i) {
            proof {
                assert(rest.len() >= from@.len());
                assert(rest.subrange(0, from@.len() as int) =~= s@.subrange(
                    i as int,
                    i + from@.len() as int,
                ));
                assert(rest.skip(from@.len() as int) =~= s@.skip(i + from@.len() as int));
            }
            out.append(to);
            proof {
                let tail = replace_spec(s@.skip(i + from@.len() as int), from@, to@);
                assert(out0 + (to@ + tail) =~= (out0 + to@) + tail);
            }
            i += from_len;
        } else {
            let c = s.get_char(i);
            proof {
                if rest.len() >= from@.len() && rest.subrange(0, from@.len() as int) == from@ {
                    assert(rest.subrange(0, from@.len() as int) =~= s@.subrange(
                        i as int,
                        i + from@.len() as int,
                    ));
                    assert(matches_at(s@, from@, i as int));
                    assert(false);
                }
                assert(rest[0] == s@[i as int]);
                assert(rest.drop_first() =~= s@.skip(i + 1));
            }
            push_char(&mut out, c);
            proof {
                let tail = replace_spec(s@.skip(i + 1), from@, to@);
                assert(out@ =~= out0 + seq![c]);
                assert(out0 + (seq![c] + tail) =~= (out0 + seq![c]) + tail);
            }
            i += 1;
        }
    }
    proof {
        assert(s@.skip(s_len as int) =~= Seq::<char>::empty());
        assert(out@ + Seq::<char>::empty() =~= out@);
    }
    out
}

} // verus!
