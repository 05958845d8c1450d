//! Text helpers over the character sequences that names and paths are.

use vstd::prelude::*;
use vstd::string::*;

verus! {

/// The contents of a list of texts.
pub open spec fn texts(list: Seq<String>) -> Seq<Seq<char>> {
    Seq::new(list.len(), |i: int| list[i]@)
}

/// Whether two texts hold the same characters.
pub fn text_eq(a: &str, b: &str) -> (r: bool)
    ensures
        r == (a@ == b@),
{
    let x = String::from_str(a);
    let y = String::from_str(b);
    x == y
}

/// `a` followed by `b`.
pub fn joined(a: &str, b: &str) -> (r: String)
    ensures
        r@ == a@ + b@,
{
    String::from_str(a).concat(b)
}

/// The prefix of the dotted paths below the option `name`, whose own path is
/// the prefix and its name.
pub open spec fn child_prefix(prefix: Seq<char>, name: Seq<char>) -> Seq<char> {
    prefix + name + seq!['.']
}

/// The prefix of the dotted paths below the option `name`.
pub fn deeper(prefix: &str, name: &str) -> (r: String)
    ensures
        r@ == child_prefix(prefix@, name@),
{
    let r = joined(joined(prefix, name).as_str(), ".");
    proof {
        reveal_strlit(".");
        assert(r@ =~= child_prefix(prefix@, name@));
    }
    r
}

/// `s` with `to` in the place of every occurrence of `from`.
pub open spec fn replaced(s: Seq<char>, from: char, to: Seq<char>) -> Seq<char>
    decreases s.len(),
{
    if s.len() == 0 {
        Seq::empty()
    } else {
        replaced(s.drop_last(), from, to) + (if s.last() == from {
            to
        } else {
            seq![s.last()]
        })
    }
}

/// Puts `to` in the place of every occurrence of `from`.
pub fn replace_char(s: &str, from: char, to: &str) -> (r: String)
    ensures
        r@ == replaced(s@, from, to@),
{
    let n = s.unicode_len();
    let mut out = String::from_str("");
    let mut i: usize = 0;
    proof {
        reveal_strlit("");
        assert(s@.take(0) =~= Seq::<char>::empty());
        assert(out@ =~= replaced(s@.take(0), from, to@));
    }
    while i < n
        invariant
            n == s@.len(),
            i <= n,
            out@ == replaced(s@.take(i as int), from, to@),
        decreases n - i,
    {
        let c = s.get_char(i);
        proof {
            let next = s@.take(i + 1);
            assert(next.drop_last() =~= s@.take(i as int));
            assert(next.last() == c);
            assert(s@.subrange(i as int, i + 1) =~= seq![c]);
        }
        if c == from {
            out.append(to);
        } else {
            out.append(s.substring_char(i, i + 1));
        }
        i = i + 1;
    }
    assert(s@.take(n as int) =~= s@);
    out
}

/// What `str::to_uppercase` gives for a text.
pub uninterp spec fn uppercase(s: Seq<char>) -> Seq<char>;

/// `str::to_uppercase`. Trusted: the result is a function of the text alone.
#[verifier::external_body]
pub(crate) fn to_uppercase(s: &str) -> (r: String)
    ensures
        r@ == uppercase(s@),
{
    s.to_uppercase()
}

/// The pieces of `s` between the occurrences of `sep`: always at least one
/// piece, and an empty piece wherever two separators touch or one stands at
/// an end.
pub open spec fn split_on(s: Seq<char>, sep: char) -> Seq<Seq<char>>
    decreases s.len(),
{
    match s.index_of_first(sep) {
        None => seq![s],
        Some(i) => {
            if 0 <= i < s.len() {
                seq![s.take(i)] + split_on(s.skip(i + 1), sep)
            } else {
                seq![s]
            }
        },
    }
}

/// The first occurrence of `sep` in `s` is at `i` when it stands there and
/// nowhere before.
pub proof fn lemma_first_index(s: Seq<char>, sep: char, i: int)
    requires
        0 <= i < s.len(),
        s[i] == sep,
        forall|j: int| 0 <= j < i ==> s[j] != sep,
    ensures
        s.index_of_first(sep) == Some(i),
{
    s.index_of_first_ensures(sep);
    assert(s.contains(sep));
}

/// A text without `sep` is a single piece.
pub proof fn lemma_no_separator(s: Seq<char>, sep: char)
    requires
        forall|j: int| 0 <= j < s.len() ==> s[j] != sep,
    ensures
        split_on(s, sep) == seq![s],
{
    s.index_of_first_ensures(sep);
}

/// Splits a text at every occurrence of `sep`.
pub fn split(s: &str, sep: char) -> (parts: Vec<String>)
    ensures
        texts(parts@) == split_on(s@, sep),
{
    let n = s.unicode_len();
    let mut parts: Vec<String> = Vec::new();
    let mut start: usize = 0;
    let mut pos: usize = 0;
    assert(s@.skip(0) =~= s@);
    assert(texts(parts@) + split_on(s@, sep) =~= split_on(s@, sep));
    while pos < n
        invariant
            n == s@.len(),
            start <= pos <= n,
            forall|j: int| start <= j < pos ==> s@[j] != sep,
            split_on(s@, sep) == texts(parts@) + split_on(s@.skip(start as int), sep),
        decreases n - pos,
    {
        let c = s.get_char(pos);
        if c == sep {
            let piece = String::from_str(s.substring_char(start, pos));
            proof {
                let rest = s@.skip(start as int);
                lemma_first_index(rest, sep, pos - start);
                assert(rest.take(pos - start) =~= s@.subrange(start as int, pos as int));
                assert(rest.skip(pos - start + 1) =~= s@.skip(pos + 1));
                assert(texts(parts@).push(piece@) =~= texts(parts@.push(piece)));
            }
            parts.push(piece);
            start = pos + 1;
        }
        pos = pos + 1;
    }
    let piece = String::from_str(s.substring_char(start, n));
    proof {
        let rest = s@.skip(start as int);
        lemma_no_separator(rest, sep);
        assert(rest =~= s@.subrange(start as int, n as int));
        assert(texts(parts@).push(piece@) =~= texts(parts@.push(piece)));
    }
    parts.push(piece);
    assert(split_on(s@, sep) =~= texts(parts@));
    parts
}

/// A copy of a list of texts.
pub fn copied(list: &Vec<String>) -> (r: Vec<String>)
    ensures
        texts(r@) == texts(list@),
{
    let mut out: Vec<String> = Vec::new();
    let mut i: usize = 0;
    while i < list.len()
        invariant
            i <= list.len(),
            out.len() == i,
            forall|j: int| 0 <= j < i ==> (#[trigger] out@[j])@ == list@[j]@,
        decreases list.len() - i,
    {
        out.push(list[i].clone());
        i = i + 1;
    }
    assert(texts(out@) =~= texts(list@));
    out
}

/// `String::push`. Trusted: the character is appended to the text.
#[verifier::external_body]
pub(crate) fn push_char(s: &mut String, c: char)
    ensures
        final(s)@ == old(s)@.push(c),
{
    s.push(c)
}

/// The characters of a text.
pub fn chars_of(s: &str) -> (r: Vec<char>)
    ensures
        r@ == s@,
{
    let n = s.unicode_len();
    let mut out: Vec<char> = Vec::new();
    let mut i: usize = 0;
    while i < n
        invariant
            i <= n,
            n == s@.len(),
            out@ == s@.take(i as int),
        decreases n - i,
    {
        out.push(s.get_char(i));
        assert(out@ =~= s@.take(i + 1));
        i = i + 1;
    }
    assert(s@.take(n as int) =~= s@);
    out
}

/// The text that characters make up.
pub fn text_of(chars: &Vec<char>) -> (r: String)
    ensures
        r@ == chars@,
{
    let mut out = String::from_str("");
    proof {
        reveal_strlit("");
        assert(out@ =~= chars@.take(0));
    }
    let mut i: usize = 0;
    while i < chars.len()
        invariant
            i <= chars.len(),
            out@ == chars@.take(i as int),
        decreases chars.len() - i,
    {
        push_char(&mut out, chars[i]);
        assert(out@ =~= chars@.take(i + 1));
        i = i + 1;
    }
    assert(chars@.take(i as int) =~= chars@);
    out
}

} // verus!
