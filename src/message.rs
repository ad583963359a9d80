use vstd::prelude::*;

verus! {

/// Identity of a validator that can be contacted.
#[derive(Clone, Copy, PartialEq, Eq, Structural, Hash, Debug)]
pub struct PeerId {
    pub id: u64,
}

/// An opaque payload tagged with the kind of message it carries.
#[derive(Clone, Debug, PartialEq, Eq)]
pub struct Message {
    pub kind: u32,
    pub payload: Vec<u8>,
}

/// Why a single-target call did not produce a usable reply.
#[derive(Clone, Debug, PartialEq, Eq)]
pub enum RpcError {
    /// The connection failed; the transport's reason is kept as it was.
    Transport(String),
    /// The deadline given to the call passed before a reply arrived.
    Timeout,
    /// A reply arrived but is not of the kind that was asked for.
    Protocol { expected: u32, actual: u32 },
}

/// The outcome of one attempt against one candidate.
pub type AttemptResult = Result<Message, RpcError>;

/// Checks that a reply is of the expected kind.
pub fn expect_kind(reply: Message, expected: u32) -> (r: AttemptResult)
    ensures
        reply.kind == expected ==> r == Ok::<Message, RpcError>(reply),
        reply.kind != expected ==> r == Err::<Message, RpcError>(
            RpcError::Protocol { expected, actual: reply.kind },
        ),
{
    if reply.kind == expected {
        Ok(reply)
    } else {
        let actual = reply.kind;
        Err(RpcError::Protocol { expected, actual })
    }
}

/// What a finished or abandoned single-target call yields.
///
/// `completed` is `None` when the call's deadline passed first; otherwise it
/// holds the transport's reply or its error.
pub open spec fn rpc_outcome_spec(
    completed: Option<Result<Message, RpcError>>,
    expected: u32,
) -> AttemptResult {
    match completed {
        None => Err(RpcError::Timeout),
        Some(Err(e)) => Err(e),
        Some(Ok(m)) => if m.kind == expected {
            Ok(m)
        } else {
            Err(RpcError::Protocol { expected, actual: m.kind })
        },
    }
}

/// Turns what the transport reported for one call into the call's result:
/// a missed deadline is a timeout, a transport error is passed on as it is,
/// and a reply of the wrong kind is a protocol error.
pub fn rpc_outcome(completed: Option<Result<Message, RpcError>>, expected: u32) -> (r:
    AttemptResult)
    ensures
        r == rpc_outcome_spec(completed, expected),
{
    match completed {
        None => Err(RpcError::Timeout),
        Some(Err(e)) => Err(e),
        Some(Ok(m)) => expect_kind(m, expected),
    }
}

} // verus!
