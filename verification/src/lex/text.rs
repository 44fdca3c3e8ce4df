//! Moving between strings and vectors of characters.

use vstd::prelude::*;

verus! {

broadcast use vstd::string::axiom_spec_iter;

/// The characters of `s`, in order.
pub fn characters(s: &str) -> (chars: Vec<char>)
    ensures
        chars@ == s@,
{
    let mut chars: Vec<char> = Vec::new();
    let ghost mut seen: int = 0;
    for c in it: s.chars()
        invariant
            seen == it.index(),
            chars@ == s@.take(seen),
            it.seq() == s@,
    {
        chars.push(c);
        proof {
            assert(s@.take(seen + 1) =~= s@.take(seen).push(c));
            seen = seen + 1;
        }
    }
    assert(s@.take(seen) =~= s@);
    chars
}

/// Appends one character to a string. Trusted: this is `String::push` of the standard
/// library, which adds the character at the end and leaves the rest as it was.
#[verifier::external_body]
pub(crate) fn push_char(s: &mut String, c: char)
    ensures
        final(s)@ == old(s)@.push(c),
{
    s.push(c)
}

/// The characters of `chars` from index `from` up to, not including, `to`, as a string.
pub fn slice_text(chars: &Vec<char>, from: usize, to: usize) -> (text: String)
    requires
        from <= to <= chars@.len(),
    ensures
        text@ == chars@.subrange(from as int, to as int),
{
    let mut text = String::new();
    let mut i: usize = from;
    while i < to
        invariant
            from <= i <= to <= chars@.len(),
            text@ == chars@.subrange(from as int, i as int),
        decreases to - i,
    {
        push_char(&mut text, chars[i]);
        assert(chars@.subrange(from as int, i + 1) =~= chars@.subrange(from as int, i as int).push(
            chars@[i as int],
        ));
        i += 1;
    }
    text
}

} // verus!
