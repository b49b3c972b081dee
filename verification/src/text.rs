//! Character-level text operations used by the result cleanup pipeline:
//! literal substring replacement, numeric filtering, and conversions between
//! `String` and `Vec<char>`.

use vstd::prelude::*;

verus! {

broadcast use vstd::string::group_string_axioms;

/// Replacement of every leftmost, non-overlapping occurrence of `from` in `s`
/// by `to`.  An empty `from` leaves `s` unchanged.
pub open spec fn spec_replace(s: Seq<char>, from: Seq<char>, to: Seq<char>) -> Seq<char>
    decreases s.len(),
{
    if from.len() == 0 || s.len() < from.len() {
        s
    } else if s.take(from.len() as int) == from {
        to + spec_replace(s.skip(from.len() as int), from, to)
    } else {
        seq![s[0]] + spec_replace(s.drop_first(), from, to)
    }
}

/// `pat` occurs in `s` starting at position `k`.
pub open spec fn spec_contains_at(s: Seq<char>, pat: Seq<char>, k: int) -> bool {
    0 <= k && k + pat.len() <= s.len() && s.subrange(k, k + pat.len() as int) == pat
}

/// `pat` occurs somewhere in `s`.
pub open spec fn spec_contains(s: Seq<char>, pat: Seq<char>) -> bool {
    exists|k: int| spec_contains_at(s, pat, k)
}

/// A character admissible in numeric text: a decimal digit or a dot.
pub open spec fn spec_is_numeric_char(c: char) -> bool {
    c == '.' || ('0' <= c && c <= '9')
}

/// The subsequence of `s` made of its digits and dots, in order.
pub open spec fn spec_keep_numeric(s: Seq<char>) -> Seq<char>
    decreases s.len(),
{
    if s.len() == 0 {
        Seq::empty()
    } else if spec_is_numeric_char(s[0]) {
        seq![s[0]] + spec_keep_numeric(s.drop_first())
    } else {
        spec_keep_numeric(s.drop_first())
    }
}

/// Relies on `str::chars`: the iterator yields exactly the characters of the
/// string, in order, so collecting it gives the string's character sequence.
#[verifier::external_body]
pub fn str_to_chars(s: &str) -> (r: Vec<char>)
    ensures
        r@ == s@,
{
    s.chars().collect()
}

/// Relies on `String`'s `FromIterator<char>` implementation: collecting
/// characters builds the string holding exactly those characters in order.
#[verifier::external_body]
pub fn chars_to_string(v: &Vec<char>) -> (r: String)
    ensures
        r@ == v@,
{
    v.iter().collect()
}

/// Whether `pat` occurs in `s` at position `i`.
fn matches_at(s: &Vec<char>, pat: &Vec<char>, i: usize) -> (r: bool)
    requires
        i + pat@.len() <= s@.len(),
    ensures
        r == (s@.subrange(i as int, i + pat@.len()) == pat@),
{
    let n = s.len();
    let mut j: usize = 0;
    while j < pat.len()
        invariant
            n == s@.len(),
            j <= pat@.len(),
            i + pat@.len() <= s@.len(),
            forall|k: int| 0 <= k < j ==> s@[i + k] == pat@[k],
        decreases pat@.len() - j,
    {
        assert(i + j < n);
        if s[i + j] != pat[j] {
            assert(s@.subrange(i as int, i + pat@.len())[j as int] != pat@[j as int]);
            return false;
        }
        j += 1;
    }
    assert(s@.subrange(i as int, i + pat@.len()) =~= pat@);
    true
}

/// Replaces every leftmost, non-overlapping occurrence of `from` in `s` by
/// `to`; with an empty `from`, returns `s` unchanged.
pub fn replace_literal(s: &Vec<char>, from: &Vec<char>, to: &Vec<char>) -> (r: Vec<char>)
    ensures
        r@ == spec_replace(s@, from@, to@),
{
    let mut out: Vec<char> = Vec::new();
    if from.len() == 0 {
        let mut i: usize = 0;
        while i < s.len()
            invariant
                i <= s@.len(),
                out@ == s@.take(i as int),
            decreases s@.len() - i,
        {
            out.push(s[i]);
            i += 1;
        }
        assert(out@ =~= s@);
        return out;
    }
    let mut i: usize = 0;
    assert(s@.skip(0) =~= s@);
    assert(out@ + spec_replace(s@, from@, to@) =~= spec_replace(s@, from@, to@));
    while i < s.len()
        invariant
            i <= s@.len(),
            from@.len() > 0,
            spec_replace(s@, from@, to@) == out@ + spec_replace(s@.skip(i as int), from@, to@),
        decreases s@.len() - i,
    {
        let ghost tail = s@.skip(i as int);
        if from.len() <= s.len() - i && matches_at(s, from, i) {
            assert(tail.take(from@.len() as int) =~= s@.subrange(i as int, i + from@.len()));
            assert(spec_replace(tail, from@, to@) == to@ + spec_replace(
                s@.skip(i + from@.len()),
                from@,
                to@,
            )) by {
                assert(tail.skip(from@.len() as int) =~= s@.skip(i + from@.len()));
            }
            let ghost out0 = out@;
            let mut j: usize = 0;
            while j < to.len()
                invariant
                    j <= to@.len(),
                    out@ == out0 + to@.take(j as int),
                decreases to@.len() - j,
            {
                out.push(to[j]);
                j += 1;
            }
            assert(out@ =~= out0 + to@);
            i += from.len();
        } else {
            assert(spec_replace(tail, from@, to@) == seq![s@[i as int]] + spec_replace(
                s@.skip(i + 1),
                from@,
                to@,
            )) by {
                if tail.len() < from@.len() {
                    assert(spec_replace(tail, from@, to@) == tail);
                    assert(spec_replace(s@.skip(i + 1), from@, to@) == s@.skip(i + 1));
                    assert(tail =~= seq![s@[i as int]] + s@.skip(i + 1));
                } else {
                    assert(tail.take(from@.len() as int) =~= s@.subrange(i as int, i + from@.len()));
                    assert(tail.drop_first() =~= s@.skip(i + 1));
                }
            }
            out.push(s[i]);
            i += 1;
        }
    }
    assert(s@.skip(i as int) =~= Seq::<char>::empty());
    assert(out@ =~= out@ + Seq::<char>::empty());
    out
}

/// Keeps only digits and dots, in order.
pub fn keep_numeric(s: &Vec<char>) -> (r: Vec<char>)
    ensures
        r@ == spec_keep_numeric(s@),
{
    let mut out: Vec<char> = Vec::new();
    let mut i: usize = 0;
    assert(s@.skip(0) =~= s@);
    assert(out@ + spec_keep_numeric(s@) =~= spec_keep_numeric(s@));
    while i < s.len()
        invariant
            i <= s@.len(),
            spec_keep_numeric(s@) == out@ + spec_keep_numeric(s@.skip(i as int)),
        decreases s@.len() - i,
    {
        let c = s[i];
        proof {
            assert(s@.skip(i as int).drop_first() =~= s@.skip(i + 1));
            assert(s@.skip(i as int)[0] == s@[i as int]);
        }
        if ('0' <= c && c <= '9') || c == '.' {
            out.push(c);
        }
        i += 1;
    }
    assert(s@.skip(i as int) =~= Seq::<char>::empty());
    assert(out@ =~= out@ + Seq::<char>::empty());
    out
}

/// Whether `pat` occurs anywhere in `s`.
pub fn contains_literal(s: &Vec<char>, pat: &Vec<char>) -> (r: bool)
    ensures
        r == spec_contains(s@, pat@),
{
    if pat.len() == 0 {
        assert(s@.subrange(0, 0) =~= pat@);
        assert(spec_contains_at(s@, pat@, 0));
        return true;
    }
    if s.len() < pat.len() {
        assert(forall|k: int| !spec_contains_at(s@, pat@, k));
        return false;
    }
    let mut k: usize = 0;
    while k <= s.len() - pat.len()
        invariant
            pat@.len() > 0,
            pat@.len() <= s@.len(),
            k <= s@.len() - pat@.len() + 1,
            forall|k0: int| 0 <= k0 < k ==> !spec_contains_at(s@, pat@, k0),
        decreases s@.len() - pat@.len() + 1 - k,
    {
        if matches_at(s, pat, k) {
            assert(spec_contains_at(s@, pat@, k as int));
            return true;
        }
        k += 1;
    }
    assert(forall|k0: int| !spec_contains_at(s@, pat@, k0));
    false
}

/// Replacing a pattern that does not occur in the text leaves it unchanged.
pub proof fn lemma_replace_absent(s: Seq<char>, from: Seq<char>, to: Seq<char>)
    requires
        !spec_contains(s, from),
    ensures
        spec_replace(s, from, to) == s,
    decreases s.len(),
{
    if from.len() == 0 || s.len() < from.len() {
    } else if s.take(from.len() as int) == from {
        assert(s.subrange(0, from.len() as int) =~= s.take(from.len() as int));
        assert(spec_contains_at(s, from, 0));
    } else {
        assert(!spec_contains(s.drop_first(), from)) by {
            if spec_contains(s.drop_first(), from) {
                let k = choose|k: int| spec_contains_at(s.drop_first(), from, k);
                assert(s.subrange(k + 1, k + 1 + from.len()) =~= s.drop_first().subrange(
                    k,
                    k + from.len() as int,
                ));
                assert(spec_contains_at(s, from, k + 1));
            }
        }
        lemma_replace_absent(s.drop_first(), from, to);
        assert(seq![s[0]] + s.drop_first() =~= s);
    }
}

} // verus!
