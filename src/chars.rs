use vstd::prelude::*;

verus! {

broadcast use vstd::array::group_array_axioms;

pub open spec fn is_digit_spec(c: char) -> bool {
    '0' <= c && c <= '9'
}

pub open spec fn is_alpha_spec(c: char) -> bool {
    ('a' <= c && c <= 'z') || ('A' <= c && c <= 'Z') || c == '_'
}

pub open spec fn is_alphanumeric_spec(c: char) -> bool {
    is_alpha_spec(c) || is_digit_spec(c)
}

/// An ASCII decimal digit.
pub fn is_digit(c: char) -> (r: bool)
    ensures
        r == is_digit_spec(c),
{
    c >= '0' && c <= '9'
}

/// An ASCII letter or an underscore.
pub fn is_alpha(c: char) -> (r: bool)
    ensures
        r == is_alpha_spec(c),
{
    (c >= 'a' && c <= 'z') || (c >= 'A' && c <= 'Z') || c == '_'
}

/// A character that may continue an identifier.
pub fn is_alphanumeric(c: char) -> (r: bool)
    ensures
        r == is_alphanumeric_spec(c),
{
    is_alpha(c) || is_digit(c)
}

/// Decodes a text into its characters, in order.
pub fn decode(text: &str) -> (r: Vec<char>)
    ensures
        r@ == text@,
{
    let mut out: Vec<char> = Vec::new();
    for c in it: text.chars()
        invariant
            it.seq() == text@,
            out@ == text@.take(it.index() as int),
    {
        out.push(c);
    }
    assert(out@ =~= text@);
    out
}

/// Whether the characters `v[start..end]` spell `word`.
pub fn same_chars<const N: usize>(v: &Vec<char>, start: usize, end: usize, word: &[char; N]) -> (r:
    bool)
    requires
        start <= end <= v@.len(),
    ensures
        r == (v@.subrange(start as int, end as int) == word@),
{
    proof {
        vstd::array::array_len_matches_n(word);
    }
    if end - start != N {
        return false;
    }
    let mut i: usize = 0;
    while i < N
        invariant
            i <= word@.len(),
            end - start == word@.len(),
            start <= end <= v@.len(),
            forall|k: int| 0 <= k < i ==> v@[start + k] == word@[k],
        decreases word@.len() - i,
    {
        if v[start + i] != word[i] {
            assert(v@.subrange(start as int, end as int)[i as int] != word@[i as int]);
            return false;
        }
        i += 1;
    }
    assert(v@.subrange(start as int, end as int) =~= word@);
    true
}

} // verus!
