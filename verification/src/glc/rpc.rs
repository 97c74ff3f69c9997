//! What a Goldcoin node answers.

use vstd::prelude::*;

verus! {

/// Why a call to a Goldcoin node failed.
#[derive(Debug, PartialEq, Eq)]
pub enum RpcError {
    /// The node was not reached.
    Transport(String),
    /// The node was reached and refused the call.
    Method(String),
    /// The node's answer could not be understood.
    Malformed(String),
}

impl RpcError {
    /// The message shown to an operator.
    pub open spec fn text(self) -> Seq<char> {
        match self {
            RpcError::Transport(m) => "transport error: "@ + m@,
            RpcError::Method(m) => "method error: "@ + m@,
            RpcError::Malformed(m) => "malformed response: "@ + m@,
        }
    }

    /// The message shown to an operator.
    pub fn message(&self) -> (m: String)
        ensures
            m@ == self.text(),
    {
        let mut out: String = String::new();
        match self {
            RpcError::Transport(m) => {
                out.append("transport error: ");
                out.append(m.as_str());
            },
            RpcError::Method(m) => {
                out.append("method error: ");
                out.append(m.as_str());
            },
            RpcError::Malformed(m) => {
                out.append("malformed response: ");
                out.append(m.as_str());
            },
        }
        assert(out@ =~= self.text());
        out
    }

    /// Whether the same call may succeed later: only a failure to reach the
    /// node is worth another try.
    pub fn is_retriable(&self) -> (retriable: bool)
        ensures
            retriable == (self is Transport),
    {
        match self {
            RpcError::Transport(_) => true,
            RpcError::Method(_) => false,
            RpcError::Malformed(_) => false,
        }
    }
}

/// What a node made of a transaction handed to it.
#[derive(Debug, PartialEq, Eq)]
pub enum BroadcastOutcome {
    Accepted { txid: String },
    /// The identical transaction is already known.
    AlreadyInChain,
    /// An input is already spent, or never existed.
    MissingInputs,
}

/// Only a node that was not reached is worth asking again: one that refused or
/// was not understood answers the same.
pub proof fn only_an_unreached_node_is_asked_again(e: RpcError, retriable: bool)
    requires
        call_ensures(RpcError::is_retriable, (&e,), retriable),
    ensures
        retriable <==> (e matches RpcError::Transport(_)),
{
}

} // verus!
