//! Reading the addresses of peers.

use vstd::prelude::*;

verus! {

/// The URI that `tonic::transport::Endpoint::from_shared` reads from a text, written
/// out; none where it refuses the text.
pub uninterp spec fn parsed_endpoint(text: Seq<char>) -> Option<Seq<char>>;

/// Calls `tonic::transport::Endpoint::from_shared` and writes out the URI of the
/// endpoint, which depends on the text alone. The error of a text that is refused
/// shows as "invalid URI".
#[verifier::external_body]
pub(crate) fn endpoint_uri(text: String) -> (r: Result<String, String>)
    ensures
        match r {
            Ok(uri) => parsed_endpoint(text@) == Some(uri@),
            Err(e) => parsed_endpoint(text@) is None && e@ == "invalid URI"@,
        },
{
    tonic::transport::Endpoint::from_shared(text).map(|e| e.uri().to_string()).map_err(
        |e| e.to_string(),
    )
}

} // verus!
