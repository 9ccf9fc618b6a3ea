use vstd::prelude::*;

verus! {

/// Relies on std's `String::push_str`: the characters of `s` are appended.
#[verifier::external_body]
pub(crate) fn append_str(out: &mut String, s: &str)
    ensures
        final(out)@ == old(out)@ + s@,
{
    out.push_str(s)
}

} // verus!
