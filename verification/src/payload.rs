//! The payload type of the `bytes` crate, as the endpoint carries it.
use vstd::prelude::*;

verus! {

/// `bytes::BytesMut`, the buffer in which datagrams and application data travel.
///
/// The endpoint moves such buffers and never looks inside one, so nothing is said of their
/// contents: a contract that names a payload says which buffer it is.
#[verifier::external_type_specification]
#[verifier::external_body]
pub struct ExBytesMut(bytes::BytesMut);

} // verus!
