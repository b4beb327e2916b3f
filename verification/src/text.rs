//! Character-level helpers shared by the renderers and the source scanner.

use vstd::prelude::*;
use vstd::std_specs::iter::IteratorSpec;
use vstd::string::*;

verus! {

/// `std::string::String::push`: the string grows by exactly the given
/// character at its end.
#[verifier::external_body]
pub(crate) fn push_char(s: &mut String, c: char)
    ensures
        final(s)@ == old(s)@.push(c),
{
    s.push(c);
}

/// The characters of `s`, in order.
pub fn chars_of(s: &str) -> (v: Vec<char>)
    ensures
        v@ == s@,
{
    broadcast use vstd::string::group_string_axioms;
    let mut v: Vec<char> = Vec::new();
    let mut it = s.chars();
    loop
        invariant
            v@ + it.remaining() == s@,
            it.decrease() is Some,
        ensures
            v@ == s@,
        decreases it.decrease()->0,
    {
        match it.next() {
            Some(c) => {
                v.push(c);
            },
            None => {
                assert(v@ + it.remaining() == v@);
                break;
            },
        }
    }
    v
}

/// The string made of the characters of `v`, in order.
pub fn string_of(v: &Vec<char>) -> (s: String)
    ensures
        s@ == v@,
{
    let mut s = String::new();
    let mut i: usize = 0;
    while i < v.len()
        invariant
            i <= v.len(),
            s@ == v@.take(i as int),
        decreases v.len() - i,
    {
        push_char(&mut s, v[i]);
        i += 1;
        assert(v@.take(i as int) == v@.take(i as int - 1).push(v@[i as int - 1]));
    }
    assert(v@.take(v.len() as int) == v@);
    s
}

/// Whether two strings hold the same text.
pub fn same_text(a: &str, b: &str) -> (r: bool)
    ensures
        r == (a@ == b@),
{
    String::from_str(a) == String::from_str(b)
}

/// Whether the text begins with the given characters.
pub open spec fn has_prefix(t: Seq<char>, p: Seq<char>) -> bool {
    t.len() >= p.len() && t.subrange(0, p.len() as int) == p
}

/// Whether `s` begins with `prefix`.
pub fn starts_with(s: &str, prefix: &str) -> (r: bool)
    ensures
        r == has_prefix(s@, prefix@),
{
    let a = chars_of(s);
    let b = chars_of(prefix);
    if a.len() < b.len() {
        return false;
    }
    let mut i: usize = 0;
    while i < b.len()
        invariant
            i <= b.len() <= a.len(),
            a@ == s@,
            b@ == prefix@,
            a@.subrange(0, i as int) == b@.subrange(0, i as int),
        decreases b.len() - i,
    {
        if a[i] != b[i] {
            assert(a@.subrange(0, b.len() as int)[i as int] != b@[i as int]);
            return false;
        }
        i += 1;
        assert(a@.subrange(0, i as int) == a@.subrange(0, i - 1).push(a@[i - 1]));
        assert(b@.subrange(0, i as int) == b@.subrange(0, i - 1).push(b@[i - 1]));
    }
    assert(b@.subrange(0, b.len() as int) == b@);
    true
}

/// Whether the text ends with the given characters.
pub open spec fn has_suffix(t: Seq<char>, p: Seq<char>) -> bool {
    t.len() >= p.len() && t.subrange(t.len() - p.len(), t.len() as int) == p
}

/// Whether the given characters stand at index `i` of the text.
pub open spec fn occurs_at(t: Seq<char>, p: Seq<char>, i: int) -> bool {
    0 <= i && i + p.len() <= t.len() && t.subrange(i, i + p.len()) == p
}

/// Whether the given characters stand somewhere in the text.
pub open spec fn contains_text(t: Seq<char>, p: Seq<char>) -> bool {
    exists|i: int| occurs_at(t, p, i)
}

/// Whether the characters of `pat` stand at index `i` of `chars`.
pub fn matches_at(chars: &Vec<char>, pat: &Vec<char>, i: usize) -> (r: bool)
    ensures
        r == occurs_at(chars@, pat@, i as int),
{
    if pat.len() > chars.len() || i > chars.len() - pat.len() {
        return false;
    }
    let mut k: usize = 0;
    while k < pat.len()
        invariant
            k <= pat.len(),
            i + pat.len() <= chars.len(),
            chars@.subrange(i as int, i + k) == pat@.subrange(0, k as int),
        decreases pat.len() - k,
    {
        if chars[i + k] != pat[k] {
            assert(chars@.subrange(i as int, i + pat.len())[k as int] != pat@[k as int]);
            return false;
        }
        k += 1;
        assert(chars@.subrange(i as int, i + k) == chars@.subrange(i as int, i + k - 1).push(
            chars@[i + k - 1],
        ));
        assert(pat@.subrange(0, k as int) == pat@.subrange(0, k - 1).push(pat@[k - 1]));
    }
    assert(pat@.subrange(0, pat.len() as int) == pat@);
    true
}

/// Whether `pat` stands somewhere in `s`.
pub fn contains(s: &str, pat: &str) -> (r: bool)
    ensures
        r == contains_text(s@, pat@),
{
    let chars = chars_of(s);
    let p = chars_of(pat);
    if p.len() > chars.len() {
        return false;
    }
    let last: usize = chars.len() - p.len();
    let mut i: usize = 0;
    while i < last
        invariant
            i <= last,
            last + p.len() == chars.len(),
            chars@ == s@,
            p@ == pat@,
            forall|j: int| 0 <= j < i ==> !occurs_at(chars@, p@, j),
        decreases last - i,
    {
        if matches_at(&chars, &p, i) {
            return true;
        }
        i += 1;
    }
    matches_at(&chars, &p, last)
}

/// Whether `s` ends with `suffix`.
pub fn ends_with(s: &str, suffix: &str) -> (r: bool)
    ensures
        r == has_suffix(s@, suffix@),
{
    let chars = chars_of(s);
    let p = chars_of(suffix);
    if p.len() > chars.len() {
        return false;
    }
    matches_at(&chars, &p, chars.len() - p.len())
}

/// The text with every occurrence of `from` replaced by `to`, found from
/// left to right without overlap. An empty `from` replaces nothing.
pub open spec fn replace_all(t: Seq<char>, from: Seq<char>, to: Seq<char>) -> Seq<char>
    decreases t.len(),
{
    if from.len() == 0 || t.len() < from.len() {
        t
    } else if occurs_at(t, from, 0) {
        to + replace_all(t.skip(from.len() as int), from, to)
    } else {
        seq![t[0]] + replace_all(t.skip(1), from, to)
    }
}

/// The characters with every occurrence of `from` replaced by `to`.
pub fn replace_chars(chars: &Vec<char>, from: &Vec<char>, to: &Vec<char>) -> (out: Vec<char>)
    ensures
        out@ == replace_all(chars@, from@, to@),
{
    let mut out: Vec<char> = Vec::new();
    let mut i: usize = 0;
    if from.len() == 0 {
        out.extend_from_slice(chars.as_slice());
        return out;
    }
    assert(chars@.skip(0) == chars@);
    while i < chars.len()
        invariant
            i <= chars.len(),
            from.len() > 0,
            out@ + replace_all(chars@.skip(i as int), from@, to@) == replace_all(chars@, from@, to@),
        decreases chars.len() - i,
    {
        let ghost rest = chars@.skip(i as int);
        if matches_at(chars, from, i) {
            assert(rest.subrange(0, from.len() as int) == chars@.subrange(
                i as int,
                i + from.len(),
            ));
            assert(rest.skip(from.len() as int) == chars@.skip(i + from.len()));
            out.extend_from_slice(to.as_slice());
            i += from.len();
        } else {
            proof {
                if rest.len() >= from.len() {
                    assert(rest.subrange(0, from.len() as int) == chars@.subrange(
                        i as int,
                        i + from.len(),
                    ));
                }
                assert(rest.skip(1) == chars@.skip(i + 1));
                assert(seq![rest[0]] + rest.skip(1) == rest);
                assert(out@.push(chars@[i as int]) == out@ + seq![rest[0]]);
            }
            out.push(chars[i]);
            i += 1;
        }
    }
    assert(chars@.skip(chars.len() as int) == Seq::<char>::empty());
    out
}

/// Whether a character has the Unicode property White_Space, as
/// `char::is_whitespace` tells it.
pub uninterp spec fn white_space(c: char) -> bool;

/// `char::is_whitespace`: whether the character has the Unicode property
/// White_Space.
#[verifier::external_body]
pub(crate) fn is_white_space(c: char) -> (r: bool)
    ensures
        r == white_space(c),
{
    c.is_whitespace()
}

/// Whether a character is a letter or a digit, as `char::is_alphanumeric`
/// tells it.
pub uninterp spec fn alphanumeric(c: char) -> bool;

/// `char::is_alphanumeric`: whether the character is alphabetic or
/// numeric by its Unicode properties.
#[verifier::external_body]
pub(crate) fn is_alphanumeric(c: char) -> (r: bool)
    ensures
        r == alphanumeric(c),
{
    c.is_alphanumeric()
}

/// Whether the text is empty or white space throughout.
pub open spec fn is_blank_text(t: Seq<char>) -> bool {
    forall|i: int| 0 <= i < t.len() ==> white_space(#[trigger] t[i])
}

/// Whether `s` is empty or white space throughout.
pub fn is_blank(s: &str) -> (r: bool)
    ensures
        r == is_blank_text(s@),
{
    let chars = chars_of(s);
    let mut i: usize = 0;
    while i < chars.len()
        invariant
            i <= chars.len(),
            chars@ == s@,
            forall|j: int| 0 <= j < i ==> white_space(#[trigger] chars@[j]),
        decreases chars.len() - i,
    {
        if !is_white_space(chars[i]) {
            return false;
        }
        i += 1;
    }
    true
}

/// The text without the white space at its start.
pub open spec fn trim_front(t: Seq<char>) -> Seq<char>
    decreases t.len(),
{
    if t.len() > 0 && white_space(t[0]) {
        trim_front(t.drop_first())
    } else {
        t
    }
}

/// The text without the white space at its end.
pub open spec fn trim_back(t: Seq<char>) -> Seq<char>
    decreases t.len(),
{
    if t.len() > 0 && white_space(t.last()) {
        trim_back(t.drop_last())
    } else {
        t
    }
}

/// The text without the white space at its start and at its end.
pub open spec fn trim_text(t: Seq<char>) -> Seq<char> {
    trim_back(trim_front(t))
}

/// The characters without the white space at their start and end.
pub fn trim_chars(chars: &Vec<char>) -> (out: Vec<char>)
    ensures
        out@ == trim_text(chars@),
{
    let mut a: usize = 0;
    assert(chars@.skip(0) == chars@);
    while a < chars.len() && is_white_space(chars[a])
        invariant
            a <= chars.len(),
            trim_front(chars@) == trim_front(chars@.skip(a as int)),
        decreases chars.len() - a,
    {
        assert(chars@.skip(a as int).drop_first() == chars@.skip(a + 1));
        a += 1;
    }
    assert(trim_front(chars@) == chars@.skip(a as int));
    let mut b: usize = chars.len();
    while b > a && is_white_space(chars[b - 1])
        invariant
            a <= b <= chars.len(),
            trim_back(chars@.skip(a as int)) == trim_back(chars@.subrange(a as int, b as int)),
        decreases b - a,
    {
        assert(chars@.subrange(a as int, b as int).drop_last() == chars@.subrange(
            a as int,
            b - 1,
        ));
        b -= 1;
    }
    assert(chars@.skip(a as int) == chars@.subrange(a as int, chars.len() as int));
    let mut out: Vec<char> = Vec::new();
    let mut k: usize = a;
    while k < b
        invariant
            a <= k <= b <= chars.len(),
            out@ == chars@.subrange(a as int, k as int),
        decreases b - k,
    {
        out.push(chars[k]);
        k += 1;
        assert(chars@.subrange(a as int, k as int) == chars@.subrange(a as int, k - 1).push(
            chars@[k - 1],
        ));
    }
    out
}

/// Whether two byte strings are equal.
pub fn same_bytes(a: &Vec<u8>, b: &Vec<u8>) -> (r: bool)
    ensures
        r == (a@ == b@),
{
    if a.len() != b.len() {
        return false;
    }
    let mut i: usize = 0;
    while i < a.len()
        invariant
            i <= a.len(),
            a.len() == b.len(),
            a@.take(i as int) == b@.take(i as int),
        decreases a.len() - i,
    {
        if a[i] != b[i] {
            return false;
        }
        i += 1;
        assert(a@.take(i as int) == a@.take(i - 1).push(a@[i - 1]));
        assert(b@.take(i as int) == b@.take(i - 1).push(b@[i - 1]));
    }
    assert(a@.take(a.len() as int) == a@);
    assert(b@.take(b.len() as int) == b@);
    true
}

/// The parts written one after another with `sep` between neighbours.
pub open spec fn join(parts: Seq<Seq<char>>, sep: Seq<char>) -> Seq<char>
    decreases parts.len(),
{
    if parts.len() == 0 {
        Seq::<char>::empty()
    } else if parts.len() == 1 {
        parts[0]
    } else {
        join(parts.drop_last(), sep) + sep + parts.last()
    }
}

/// The text of each string, in order.
pub open spec fn texts(parts: Seq<String>) -> Seq<Seq<char>> {
    Seq::new(parts.len(), |i: int| parts[i]@)
}

/// One more string at the end is one more text at the end.
pub proof fn lemma_texts_push(parts: Seq<String>, s: String)
    ensures
        texts(parts.push(s)) == texts(parts).push(s@),
{
    assert(texts(parts.push(s)) =~= texts(parts).push(s@));
}

/// The strings written one after another with `sep` between neighbours.
pub fn join_strings(parts: &Vec<String>, sep: &str) -> (s: String)
    ensures
        s@ == join(texts(parts@), sep@),
{
    let mut s = String::new();
    let mut i: usize = 0;
    while i < parts.len()
        invariant
            i <= parts.len(),
            s@ == join(texts(parts@).take(i as int), sep@),
        decreases parts.len() - i,
    {
        if i > 0 {
            s.append(sep);
        }
        s.append(parts[i].as_str());
        proof {
            let all = texts(parts@);
            assert(all.take(i + 1).drop_last() == all.take(i as int));
            assert(all.take(i + 1).last() == parts@[i as int]@);
            if i == 0 {
                assert(join(all.take(0), sep@) == Seq::<char>::empty());
                assert(s@ == parts@[0]@);
            }
        }
        i += 1;
    }
    assert(texts(parts@).take(parts.len() as int) == texts(parts@));
    s
}

} // verus!
