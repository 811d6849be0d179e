//! Interned identifiers.
//!
//! Names of program constants are interned by `lalrpop_intern`. An interned
//! name is a small copyable handle; this module declares the handle to the
//! verifier and wraps the two operations the term algebra needs.

use lalrpop_intern::InternedString;
use vstd::prelude::*;

verus! {

/// The handle type of `lalrpop_intern`. Its contents are hidden from the
/// verifier: two handles are told apart only by equality.
#[verifier::external_type_specification]
#[verifier::external_body]
pub struct ExInternedString(lalrpop_intern::InternedString);

/// Calls `lalrpop_intern::intern`.
///
/// The handle that comes back depends on what the calling thread has
/// interned before, so nothing is claimed about it.
#[verifier::external_body]
pub(crate) fn intern(name: &str) -> InternedString {
    lalrpop_intern::intern(name)
}

/// Calls the `==` that `lalrpop_intern` derives for `InternedString`.
///
/// The derived comparison compares the handle's only field, so it is `true`
/// exactly for identical handles.
#[verifier::external_body]
pub(crate) fn same_name(a: &InternedString, b: &InternedString) -> (same: bool)
    ensures
        same == (*a == *b),
{
    a == b
}

} // verus!
