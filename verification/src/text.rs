//! Small executable helpers over strings that the flow logic needs: the two
//! trusted bridges to `str` equality and `String::push`, and verified
//! utilities built on top of them.

use vstd::prelude::*;

verus! {

/// Relies on `str`'s `PartialEq`: two string slices compare equal exactly
/// when their character sequences are equal.
#[verifier::external_body]
pub(crate) fn str_eq(a: &str, b: &str) -> (r: bool)
    ensures
        r == (a@ == b@),
{
    a == b
}

/// Relies on `String::push`: appends the given character at the end.
#[verifier::external_body]
pub(crate) fn push_char(s: &mut String, c: char)
    ensures
        final(s)@ == old(s)@.push(c),
{
    s.push(c)
}

/// Whether some element of `items` has exactly the characters of `token`.
pub(crate) fn contains_token(items: &Vec<String>, token: &str) -> (r: bool)
    ensures
        r == items.deep_view().contains(token@),
{
    let ghost target = token@;
    for i in 0..items.len()
        invariant
            target == token@,
            forall|j: int| 0 <= j < i ==> items@[j]@ != target,
    {
        let s: &String = &items[i];
        let hit = str_eq(s.as_str(), token);
        if hit {
            assert(items@[i as int]@ == target);
            assert(items.deep_view()[i as int] == target);
            return true;
        }
        assert(items@[i as int]@ != target);
    }
    assert forall|j: int| 0 <= j < items.deep_view().len() implies items.deep_view()[j]
        != target by {
        assert(items.deep_view()[j] == items@[j]@);
    }
    false
}

} // verus!
