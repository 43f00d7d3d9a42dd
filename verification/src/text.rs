//! Character-level helpers shared by the buffer, the parser and the shell.

use vstd::prelude::*;

verus! {

/// The character sequences of a list of owned strings.
pub open spec fn texts(v: Seq<String>) -> Seq<Seq<char>> {
    Seq::new(v.len(), |i: int| v[i]@)
}

/// The character sequences of a list of string slices.
pub open spec fn str_texts(v: Seq<&str>) -> Seq<Seq<char>> {
    Seq::new(v.len(), |i: int| v[i]@)
}

/// Appends one character through `String::push`. Trusted: the text
/// afterwards is the text before followed by `c`.
#[verifier::external_body]
pub(crate) fn push_char(s: &mut String, c: char)
    ensures
        final(s)@ == old(s)@.push(c),
{
    s.push(c)
}

/// Decodes UTF-8 through `core::str::from_utf8`. Trusted: the call
/// succeeds exactly on valid UTF-8, and the text it returns is the
/// decoding of the bytes.
#[verifier::external_body]
pub(crate) fn utf8_text(bytes: &[u8]) -> (text: Option<&str>)
    ensures
        text is Some <==> vstd::utf8::valid_utf8(bytes@),
        text matches Some(s) ==> s@ == vstd::utf8::decode_utf8(bytes@),
{
    core::str::from_utf8(bytes).ok()
}

/// The characters of `s`, in order.
pub fn to_chars(s: &str) -> (out: Vec<char>)
    ensures
        out@ == s@,
{
    let mut out: Vec<char> = Vec::new();
    for c in it: s.chars()
        invariant
            it.seq() == s@,
            out@ == it.seq().take(it.index() as int),
    {
        out.push(c);
        proof {
            assert(it.seq().take(it.index() + 1) =~= it.seq().take(it.index() as int).push(c));
        }
    }
    proof {
        assert(s@.take(s@.len() as int) =~= s@);
    }
    out
}

/// The string spelled by `chars[from..to]`.
pub fn from_chars(chars: &Vec<char>, from: usize, to: usize) -> (out: String)
    requires
        from <= to <= chars.len(),
    ensures
        out@ == chars@.subrange(from as int, to as int),
{
    let mut out = String::new();
    let mut i: usize = from;
    while i < to
        invariant
            from <= i <= to <= chars.len(),
            out@ == chars@.subrange(from as int, i as int),
        decreases to - i,
    {
        push_char(&mut out, chars[i]);
        proof {
            assert(chars@.subrange(from as int, i + 1) =~= chars@.subrange(from as int, i as int).push(
                chars@[i as int],
            ));
        }
        i += 1;
    }
    out
}

/// Whether `chars` spells exactly `word`.
pub fn spells(chars: &Vec<char>, word: &str) -> (r: bool)
    ensures
        r == (chars@ == word@),
{
    let mut i: usize = 0;
    let mut same = true;
    for c in it: word.chars()
        invariant
            it.seq() == word@,
            same ==> i == it.index() && i <= chars.len() && chars@.take(i as int) == word@.take(
                i as int,
            ),
            !same ==> chars@ != word@,
    {
        if same {
            if i < chars.len() && chars[i] == c {
                proof {
                    assert(chars@.take(i + 1) =~= chars@.take(i as int).push(chars@[i as int]));
                    assert(word@.take(i + 1) =~= word@.take(i as int).push(c));
                }
                i += 1;
            } else {
                same = false;
            }
        }
    }
    proof {
        assert(word@.take(word@.len() as int) =~= word@);
        assert(chars@.take(chars@.len() as int) =~= chars@);
    }
    same && i == chars.len()
}

} // verus!
