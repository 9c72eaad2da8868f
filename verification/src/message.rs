//! Texts of the errors that are reported to the interpreter.

use vstd::prelude::*;

verus! {

/// The decimal digits of `index`, as `format!` writes them.
pub uninterp spec fn decimal_digits(index: usize) -> Seq<char>;

/// `format!` with a string and a number: the string, followed by the number
/// in decimal.
#[verifier::external_body]
pub(crate) fn message_with_index(prefix: &str, index: usize) -> (message: String)
    ensures
        message@ == prefix@ + decimal_digits(index),
{
    format!("{}{}", prefix, index)
}

} // verus!
