//! The closed set of supported operations.
//!
//! Each variant names one capability of the external client library and
//! carries exactly the plain-valued parameters that call needs: seeds and
//! derivation paths as opaque text, message and transaction identifiers
//! as 32-byte values, amounts as positive integers, addresses validated.
//! The set is closed on purpose: every dispatch over it is exhaustive.

use vstd::prelude::*;

use crate::address::Address;

verus! {

/// The number of bytes in a message or transaction identifier.
pub const ID_LEN: usize = 32;

/// One transfer output: a validated address and a positive amount.
#[derive(Clone)]
pub struct TransferOutput {
    pub address: Address,
    pub amount: u64,
}

/// An output reference: the transaction that produced it and its index.
#[derive(Clone)]
pub struct OutputId {
    pub transaction_id: Vec<u8>,
    pub output_index: u16,
}

/// One supported call against a client resource.
#[derive(Clone)]
pub enum Operation {
    /// Send a transfer built from a seed, an optional derivation path and
    /// account index, and a list of outputs.
    SendTransfer { seed: Vec<char>, path: Option<Vec<char>>, index: Option<usize>, outputs: Vec<
        TransferOutput,
    > },
    /// Find the first unspent address for a seed.
    GetUnspentAddress { seed: Vec<char>, path: Option<Vec<char>>, index: Option<usize> },
    /// Find messages by indexation keys and identifiers.
    FindMessages { indexation_keys: Vec<Vec<char>>, message_ids: Vec<Vec<u8>> },
    /// Get the balance for a seed.
    GetBalance { seed: Vec<char>, path: Option<Vec<char>>, index: Option<usize> },
    /// Get the balances of a list of addresses.
    GetAddressBalances(Vec<Address>),
    /// Get node information.
    GetInfo,
    /// Get two tip message identifiers.
    GetTips,
    /// Post an already-built message, given in its wire encoding.
    PostMessage(Vec<u8>),
    /// Get the messages filed under an indexation key.
    GetMessagesByIndexation(Vec<char>),
    /// Get a message by identifier.
    GetMessage(Vec<u8>),
    /// Get a message's metadata by identifier.
    GetMessageMetadata(Vec<u8>),
    /// Get a message's raw bytes by identifier.
    GetRawMessage(Vec<u8>),
    /// Get the children of a message by identifier.
    GetMessageChildren(Vec<u8>),
    /// Get one output's metadata.
    GetOutput(OutputId),
    /// Find outputs by reference and by address.
    FindOutputs { outputs: Vec<OutputId>, addresses: Vec<Address> },
    /// Get one address's balance.
    GetAddressBalance(Address),
    /// Get the outputs of one address.
    GetAddressOutputs(Address),
    /// Get a milestone by index.
    GetMilestone(u64),
    /// Retry a message by identifier.
    Retry(Vec<u8>),
    /// Reattach a message by identifier.
    Reattach(Vec<u8>),
    /// Promote a message by identifier.
    Promote(Vec<u8>),
}

/// The access a task must take on the resolved resource.
pub enum AccessKind {
    /// Any number of tasks may hold shared access together.
    Shared,
    /// Excludes every other access for its duration.
    Exclusive,
}

/// Whether every identifier in `ids` has the identifier length.
pub open spec fn ids_wf(ids: Seq<Vec<u8>>) -> bool {
    forall|i: int| 0 <= i < ids.len() ==> #[trigger] ids[i]@.len() == ID_LEN
}

impl OutputId {
    /// Well-formed: the transaction identifier has the identifier length.
    pub open spec fn wf(&self) -> bool {
        self.transaction_id@.len() == ID_LEN
    }
}

impl Operation {
    /// Well-formed: every identifier has the identifier length, every
    /// amount is positive, every address is validated.
    pub open spec fn wf(&self) -> bool {
        match *self {
            Operation::SendTransfer { outputs, .. } => forall|i: int|
                0 <= i < outputs@.len() ==> (#[trigger] outputs@[i]).amount > 0
                    && outputs@[i].address.wf(),
            Operation::GetUnspentAddress { .. } => true,
            Operation::FindMessages { message_ids, .. } => ids_wf(message_ids@),
            Operation::GetBalance { .. } => true,
            Operation::GetAddressBalances(addresses) => forall|i: int|
                0 <= i < addresses@.len() ==> (#[trigger] addresses@[i]).wf(),
            Operation::GetInfo => true,
            Operation::GetTips => true,
            Operation::PostMessage(_) => true,
            Operation::GetMessagesByIndexation(_) => true,
            Operation::GetMessage(id) => id@.len() == ID_LEN,
            Operation::GetMessageMetadata(id) => id@.len() == ID_LEN,
            Operation::GetRawMessage(id) => id@.len() == ID_LEN,
            Operation::GetMessageChildren(id) => id@.len() == ID_LEN,
            Operation::GetOutput(output_id) => output_id.wf(),
            Operation::FindOutputs { outputs, addresses } => (forall|i: int|
                0 <= i < outputs@.len() ==> (#[trigger] outputs@[i]).wf()) && (forall|i: int|
                0 <= i < addresses@.len() ==> (#[trigger] addresses@[i]).wf()),
            Operation::GetAddressBalance(address) => address.wf(),
            Operation::GetAddressOutputs(address) => address.wf(),
            Operation::GetMilestone(_) => true,
            Operation::Retry(id) => id@.len() == ID_LEN,
            Operation::Reattach(id) => id@.len() == ID_LEN,
            Operation::Promote(id) => id@.len() == ID_LEN,
        }
    }

    /// The access this operation takes on the resource it runs against.
    ///
    /// Every operation of the current set is a read-only query or a
    /// stateless submission against the client, so each takes shared
    /// access; exclusive access is reserved for a future capability whose
    /// wrapped call itself demands it.
    pub fn access(&self) -> (r: AccessKind)
        ensures
            r is Shared,
    {
        AccessKind::Shared
    }
}

} // verus!
