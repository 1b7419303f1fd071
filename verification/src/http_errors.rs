//! Error mappings where the HTTP transport differs from the gRPC one.

use vstd::prelude::*;
use crate::errors::InvokeActorError;
use crate::failure::DaprFailure;

verus! {

/// Map a recoverable failure of an actor invoke over HTTP: the actor
/// method's error payload is the failure message, as bytes.
pub fn invoke_actor_error(f: DaprFailure) -> (e: InvokeActorError)
    ensures
        e matches InvokeActorError::ActorError(b) && b@ == vstd::utf8::encode_utf8(f.message@),
{
    InvokeActorError::ActorError(crate::text::bytes_of(f.message.as_str()))
}

} // verus!
