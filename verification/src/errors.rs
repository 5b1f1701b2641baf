use vstd::prelude::*;

verus! {

/// The error taxonomy of the execution core.
///
/// - `ConnectionFailure`: a boot-time connection or identity check failed; fatal
///   for the instance, which moves to its error state.
/// - `InvalidStateTransition`: a lifecycle request arrived in a state where it is
///   not valid; the request is dropped.
/// - `MemoryFault`: a guest pointer/length pair reaches outside guest memory;
///   aborts only the offending bridged call.
/// - `InvalidPayloadEncoding`: a guest-supplied string is not valid UTF-8.
/// - `ChannelClosed`: the instance actor is gone and can take no more requests.
/// - `MalformedEncoding`: a wire-level decode failed (unrecognized tag, length
///   inconsistent with the remaining buffer, or a fixed-size field of the wrong
///   size).
/// - `UnknownTarget`: a cast or call names an alias or instance that cannot be
///   resolved.
#[derive(Clone, Copy, Debug, PartialEq, Eq, Structural)]
pub enum CoreError {
    ConnectionFailure,
    InvalidStateTransition,
    MemoryFault,
    InvalidPayloadEncoding,
    ChannelClosed,
    MalformedEncoding,
    UnknownTarget,
}

} // verus!
