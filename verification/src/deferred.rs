//! The codec's two steps as futures that are ready at once, so that they can
//! stand where the transport's own asynchronous steps stand.

use vstd::prelude::*;
use vstd::future::*;
use crate::codec::Wire;
use crate::frame::{decode, decoded, encode, encoded, CodecError, Frame, TransportError};

verus! {

/// The future that `futures::future::ready` returns.
#[verifier::external_type_specification]
#[verifier::external_body]
#[verifier::reject_recursive_types(T)]
pub struct ExReady<T>(futures::future::Ready<T>);

/// `futures::future::ready`: a future that yields `t` when it is awaited.
pub assume_specification<T>[ futures::future::ready::<T> ](t: T) -> (f: futures::future::Ready<T>)
    ensures
        f.view() == t,
;

/// Encodes a message as one binary frame, as a future that is ready at once.
pub fn encode_with<T: Wire>(message: T) -> (f: futures::future::Ready<Result<Frame, CodecError>>)
    ensures
        encoded(message, f.view()),
{
    futures::future::ready(encode(message))
}

/// Decodes the message that a received frame carries, as a future that is
/// ready at once.
pub fn decode_with<T: Wire>(message: Result<Frame, TransportError>) -> (f:
    futures::future::Ready<Result<T, CodecError>>)
    ensures
        decoded(message, f.view()),
{
    futures::future::ready(decode(message))
}

} // verus!
