//! Text primitives over sequences of characters and bytes.
//!
//! Strings are modelled by their view, a `Seq<char>`. The functions here move
//! between `str` and `Vec<char>`, compare text, search for a pattern, remove
//! every occurrence of a pattern and trim white space, each with a contract
//! over the sequence model.

use vstd::prelude::*;
use vstd::std_specs::iter::IteratorSpec;
use vstd::string::StringExecFns;

verus! {

/// `String::push` appends one character to the end of the string.
pub assume_specification[ String::push ](s: &mut String, c: char)
    ensures
        final(s)@ == old(s)@.push(c),
;

/// `pat` stands in `s` at position `at`.
pub open spec fn occurs_at(s: Seq<char>, pat: Seq<char>, at: int) -> bool {
    &&& 0 <= at
    &&& at + pat.len() <= s.len()
    &&& s.subrange(at, at + pat.len()) == pat
}

/// `pat` stands somewhere in `s`.
pub open spec fn occurs(s: Seq<char>, pat: Seq<char>) -> bool {
    exists|at: int| occurs_at(s, pat, at)
}

/// `s` with every occurrence of `pat` removed, scanning from the left and
/// continuing behind each occurrence that was removed. For an empty `pat`
/// nothing is removed.
pub open spec fn strip_all(s: Seq<char>, pat: Seq<char>) -> Seq<char>
    decreases s.len(),
{
    if pat.len() == 0 || s.len() < pat.len() {
        s
    } else if occurs_at(s, pat, 0) {
        strip_all(s.skip(pat.len() as int), pat)
    } else {
        seq![s[0]] + strip_all(s.skip(1), pat)
    }
}

/// The characters with the Unicode property `White_Space`.
pub open spec fn is_space(c: char) -> bool {
    let n = c as u32;
    ||| 0x09 <= n <= 0x0D
    ||| n == 0x20
    ||| n == 0x85
    ||| n == 0xA0
    ||| n == 0x1680
    ||| 0x2000 <= n <= 0x200A
    ||| n == 0x2028
    ||| n == 0x2029
    ||| n == 0x202F
    ||| n == 0x205F
    ||| n == 0x3000
}

/// `s` without its leading white space.
pub open spec fn trim_start(s: Seq<char>) -> Seq<char>
    decreases s.len(),
{
    if s.len() > 0 && is_space(s[0]) {
        trim_start(s.skip(1))
    } else {
        s
    }
}

/// `s` without its trailing white space.
pub open spec fn trim_end(s: Seq<char>) -> Seq<char>
    decreases s.len(),
{
    if s.len() > 0 && is_space(s.last()) {
        trim_end(s.drop_last())
    } else {
        s
    }
}

/// `s` without leading and trailing white space.
pub open spec fn trim(s: Seq<char>) -> Seq<char> {
    trim_end(trim_start(s))
}

/// Whether `c` is a white-space character.
pub fn char_is_space(c: char) -> (r: bool)
    ensures
        r == is_space(c),
{
    let n: u32 = c as u32;
    (0x09 <= n && n <= 0x0D) || n == 0x20 || n == 0x85 || n == 0xA0 || n == 0x1680 || (0x2000 <= n
        && n <= 0x200A) || n == 0x2028 || n == 0x2029 || n == 0x202F || n == 0x205F || n == 0x3000
}

/// The characters of a string slice.
pub fn to_chars(s: &str) -> (r: Vec<char>)
    ensures
        r@ == s@,
{
    broadcast use vstd::string::group_string_axioms;

    let mut it = s.chars();
    let mut out: Vec<char> = Vec::new();
    loop
        invariant
            it.obeys_prophetic_iter_laws(),
            it.decrease() is Some,
            out@ + it.remaining() == s@,
        ensures
            out@ == s@,
        decreases it.decrease()->0,
    {
        let ghost before = it.remaining();
        match it.next() {
            Some(c) => {
                out.push(c);
                assert(out@ + it.remaining() == s@) by {
                    assert(before == seq![c] + before.drop_first());
                    assert(out@ + it.remaining() =~= (out@.drop_last() + before));
                }
            },
            None => {
                assert(out@ + it.remaining() =~= out@);
                break ;
            },
        }
    }
    out
}

/// The string made of the given characters.
pub fn from_chars(v: &[char]) -> (r: String)
    ensures
        r@ == v@,
{
    let mut out = String::new();
    let mut i: usize = 0;
    while i < v.len()
        invariant
            i <= v.len(),
            out@ == v@.take(i as int),
        decreases v.len() - i,
    {
        out.push(v[i]);
        i += 1;
    }
    out
}

/// Whether two byte slices hold the same bytes.
pub fn bytes_eq(a: &[u8], b: &[u8]) -> (r: bool)
    ensures
        r == (a@ == b@),
{
    if a.len() != b.len() {
        return false;
    }
    let mut i: usize = 0;
    while i < a.len()
        invariant
            i <= a.len(),
            a.len() == b.len(),
            a@.take(i as int) == b@.take(i as int),
        decreases a.len() - i,
    {
        if a[i] != b[i] {
            return false;
        }
        proof {
            assert(a@.take(i + 1) =~= a@.take(i as int).push(a@[i as int]));
            assert(b@.take(i + 1) =~= b@.take(i as int).push(b@[i as int]));
        }
        i += 1;
    }
    proof {
        assert(a@ =~= a@.take(i as int));
        assert(b@ =~= b@.take(i as int));
    }
    true
}

/// Whether two string slices hold the same text.
pub fn str_eq(a: &str, b: &str) -> (r: bool)
    ensures
        r == (a@ == b@),
{
    proof {
        vstd::utf8::encode_utf8_decode_utf8(a@);
        vstd::utf8::encode_utf8_decode_utf8(b@);
    }
    bytes_eq(a.as_bytes(), b.as_bytes())
}

/// The concatenation of two string slices.
pub fn join(a: &str, b: &str) -> (r: String)
    ensures
        r@ == a@ + b@,
{
    let mut out = String::new();
    out.append(a);
    out.append(b);
    assert(out@ =~= a@ + b@);
    out
}

/// Whether `pat` stands in `hay` at position `at`.
pub fn has_at(hay: &[char], pat: &[char], at: usize) -> (r: bool)
    ensures
        r == occurs_at(hay@, pat@, at as int),
{
    if pat.len() > hay.len() || at > hay.len() - pat.len() {
        return false;
    }
    let mut i: usize = 0;
    while i < pat.len()
        invariant
            i <= pat.len(),
            at + pat.len() <= hay.len(),
            hay@.subrange(at as int, at + i) == pat@.take(i as int),
        decreases pat.len() - i,
    {
        if hay[at + i] != pat[i] {
            assert(hay@.subrange(at as int, at + pat.len())[i as int] == hay@[at + i]);
            return false;
        }
        proof {
            assert(hay@.subrange(at as int, at + i + 1) =~= hay@.subrange(at as int, at + i).push(
                hay@[at + i],
            ));
            assert(pat@.take(i + 1) =~= pat@.take(i as int).push(pat@[i as int]));
        }
        i += 1;
    }
    assert(pat@ =~= pat@.take(i as int));
    true
}

/// Whether `pat` stands somewhere in `hay`.
pub fn contains(hay: &[char], pat: &[char]) -> (r: bool)
    ensures
        r == occurs(hay@, pat@),
{
    if pat.len() > hay.len() {
        return false;
    }
    let last: usize = hay.len() - pat.len();
    let mut at: usize = 0;
    while at < last
        invariant
            at <= last,
            last == hay.len() - pat.len(),
            forall|k: int| 0 <= k < at ==> !occurs_at(hay@, pat@, k),
        decreases last - at,
    {
        if has_at(hay, pat, at) {
            return true;
        }
        at += 1;
    }
    has_at(hay, pat, last)
}

/// `hay` with every occurrence of `pat` removed. For an empty `pat` nothing
/// is removed.
pub fn without(hay: &[char], pat: &[char]) -> (r: Vec<char>)
    ensures
        r@ == strip_all(hay@, pat@),
{
    let mut out: Vec<char> = Vec::new();
    let mut at: usize = 0;
    if pat.len() == 0 {
        while at < hay.len()
            invariant
                at <= hay.len(),
                out@ == hay@.take(at as int),
            decreases hay.len() - at,
        {
            out.push(hay[at]);
            assert(hay@.take(at + 1) =~= hay@.take(at as int).push(hay@[at as int]));
            at += 1;
        }
        assert(hay@.take(at as int) =~= hay@);
        return out;
    }
    proof {
        assert(hay@.skip(0) =~= hay@);
        assert(Seq::<char>::empty() + strip_all(hay@, pat@) =~= strip_all(hay@, pat@));
    }
    while at < hay.len()
        invariant
            at <= hay.len(),
            pat.len() > 0,
            strip_all(hay@, pat@) == out@ + strip_all(hay@.skip(at as int), pat@),
        decreases hay.len() - at,
    {
        let ghost rest = hay@.skip(at as int);
        if has_at(hay, pat, at) {
            proof {
                assert(rest.subrange(0, pat.len() as int) =~= hay@.subrange(
                    at as int,
                    at + pat.len(),
                ));
                assert(rest.skip(pat.len() as int) =~= hay@.skip(at + pat.len()));
            }
            at += pat.len();
        } else {
            proof {
                if rest.len() >= pat.len() {
                    assert(rest.subrange(0, pat.len() as int) =~= hay@.subrange(
                        at as int,
                        at + pat.len(),
                    ));
                    assert(rest.skip(1) =~= hay@.skip(at + 1));
                    assert(out@.push(hay@[at as int]) + strip_all(rest.skip(1), pat@) =~= out@ + (
                    seq![rest[0]] + strip_all(rest.skip(1), pat@)));
                } else {
                    assert(strip_all(rest, pat@) == rest);
                    lemma_strip_short(rest.skip(1), pat@);
                    assert(rest =~= seq![rest[0]] + rest.skip(1));
                    assert(rest.skip(1) =~= hay@.skip(at + 1));
                    assert(out@.push(hay@[at as int]) + rest.skip(1) =~= out@ + rest);
                }
            }
            out.push(hay[at]);
            at += 1;
        }
    }
    proof {
        assert(hay@.skip(at as int) =~= Seq::<char>::empty());
        assert(out@ + Seq::<char>::empty() =~= out@);
    }
    out
}

/// A text shorter than the pattern is left as it is.
pub proof fn lemma_strip_short(s: Seq<char>, pat: Seq<char>)
    requires
        s.len() < pat.len(),
    ensures
        strip_all(s, pat) == s,
{
}

/// The bounds of `s` without leading and trailing white space: the result
/// `(lo, hi)` satisfies `trim(s@) == s@.subrange(lo, hi)`.
pub fn trim_bounds(s: &[char]) -> (r: (usize, usize))
    ensures
        r.0 <= r.1 <= s.len(),
        trim(s@) == s@.subrange(r.0 as int, r.1 as int),
{
    let mut lo: usize = 0;
    assert(s@.skip(0) =~= s@);
    while lo < s.len() && char_is_space(s[lo])
        invariant
            lo <= s.len(),
            trim_start(s@) == trim_start(s@.skip(lo as int)),
        decreases s.len() - lo,
    {
        proof {
            assert(s@.skip(lo as int).skip(1) =~= s@.skip(lo + 1));
        }
        lo += 1;
    }
    let ghost body = s@.skip(lo as int);
    assert(trim_start(s@) == body);
    let mut hi: usize = s.len();
    while hi > lo && char_is_space(s[hi - 1])
        invariant
            lo <= hi <= s.len(),
            body == s@.skip(lo as int),
            trim_end(body) == trim_end(s@.subrange(lo as int, hi as int)),
        decreases hi - lo,
    {
        proof {
            assert(s@.subrange(lo as int, hi as int).drop_last() =~= s@.subrange(
                lo as int,
                hi - 1,
            ));
        }
        hi -= 1;
    }
    proof {
        let cut = s@.subrange(lo as int, hi as int);
        if hi > lo {
            assert(cut.last() == s@[hi - 1]);
        }
        assert(trim_end(cut) == cut);
    }
    (lo, hi)
}

/// Whether `s`, without leading and trailing white space, is exactly `word`.
pub fn trimmed_is(s: &[char], word: &[char]) -> (r: bool)
    ensures
        r == (trim(s@) == word@),
{
    let (lo, hi) = trim_bounds(s);
    if hi - lo != word.len() {
        return false;
    }
    let r = has_at(s, word, lo);
    r
}

/// A text without the pattern is left as it is.
pub proof fn lemma_strip_nothing(s: Seq<char>, pat: Seq<char>)
    requires
        pat.len() > 0,
        !occurs(s, pat),
    ensures
        strip_all(s, pat) == s,
    decreases s.len(),
{
    if s.len() >= pat.len() {
        assert(!occurs_at(s, pat, 0));
        assert forall|at: int| !occurs_at(s.skip(1), pat, at) by {
            if occurs_at(s.skip(1), pat, at) {
                assert(s.skip(1).subrange(at, at + pat.len()) =~= s.subrange(
                    at + 1,
                    at + 1 + pat.len(),
                ));
                assert(occurs_at(s, pat, at + 1));
            }
        }
        lemma_strip_nothing(s.skip(1), pat);
        assert(seq![s[0]] + s.skip(1) =~= s);
    }
}

/// A marker in front of a text without it is all that is stripped.
pub proof fn lemma_strip_leading(marker: Seq<char>, rest: Seq<char>)
    requires
        marker.len() > 0,
        !occurs(rest, marker),
    ensures
        occurs(marker + rest, marker),
        strip_all(marker + rest, marker) == rest,
{
    let s = marker + rest;
    assert(s.subrange(0, marker.len() as int) =~= marker);
    assert(occurs_at(s, marker, 0));
    assert(s.skip(marker.len() as int) =~= rest);
    lemma_strip_nothing(rest, marker);
}

} // verus!
