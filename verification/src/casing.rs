//! The case transform that turns a native identifier into the wire and
//! stub identifier derived from it.

use vstd::prelude::*;

verus! {

/// The upper-camel-case rendering of an identifier, as the case transform
/// the generator calls defines it: a function of the characters alone.
pub uninterp spec fn upper_camel_of(s: Seq<char>) -> Seq<char>;

/// Relies on heck's `ToUpperCamelCase` for `str`: a pure case transform
/// whose result depends on the input characters alone; an empty input
/// has no words, so it stays empty.
#[verifier::external_body]
pub(crate) fn c_to_rust_name(c_enum_name: &str) -> (r: String)
    ensures
        r@ == upper_camel_of(c_enum_name@),
        c_enum_name@.len() == 0 ==> r@.len() == 0,
{
    heck::ToUpperCamelCase::to_upper_camel_case(c_enum_name)
}

} // verus!
