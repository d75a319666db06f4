//! How statuses of the transport read as text.

use vstd::prelude::*;

verus! {

/// The text in which `tonic::Status` shows a status with a code, given by its number,
/// and a message.
pub uninterp spec fn shown_status(code: i32, message: Seq<char>) -> Seq<char>;

/// Calls `to_string` of `tonic::Status` on a status of this code and message. What it
/// shows is a function of the two; details and metadata it leaves out.
#[verifier::external_body]
pub(crate) fn status_text(code: i32, message: &str) -> (r: String)
    ensures
        r@ == shown_status(code, message@),
{
    tonic::Status::new(tonic::Code::from_i32(code), message).to_string()
}

} // verus!
