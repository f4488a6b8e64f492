//! The library's model of one raw upstream notification.
//!
//! The upstream collaborator delivers wire-format messages; the process edge
//! converts the one variant the classifier cares about into these plain
//! records and discards the rest of the envelope.  Every field here is a
//! plain value the classification logic actually reads.

use vstd::prelude::*;

verus! {

/// One notification from the upstream stream.
pub enum RawUpdate {
    /// A transaction notification.
    Transaction(TransactionUpdate),
    /// Any other notification kind (account, slot, ping, ...).
    Other,
}

/// The transaction-update variant's payload.
pub struct TransactionUpdate {
    /// Ledger slot at which the transaction landed.
    pub slot: u64,
    /// The transaction envelope, when the upstream supplied one.
    pub transaction: Option<TransactionInfo>,
}

/// The transaction envelope.
pub struct TransactionInfo {
    /// Signature bytes carried directly beside the envelope; may be empty.
    pub signature: Vec<u8>,
    /// The embedded transaction, with its own signature list and message.
    pub transaction: Option<TransactionData>,
    /// Execution metadata: logs and token balances.
    pub meta: Option<TransactionMeta>,
}

/// The embedded transaction body.
pub struct TransactionData {
    /// The ordered signature list; the first entry is the fee payer's.
    pub signatures: Vec<Vec<u8>>,
    /// The transaction message.
    pub message: Option<MessageData>,
}

/// The transaction message: only the account-keys list is read.
pub struct MessageData {
    /// Account addresses as raw bytes; the first is the fee payer/creator.
    pub account_keys: Vec<Vec<u8>>,
}

/// Execution metadata of a transaction.
pub struct TransactionMeta {
    /// The log lines as one text, in raw bytes; absent when the upstream
    /// omitted logs.
    pub log_messages: Option<Vec<u8>>,
    /// Token balances before execution.
    pub pre_token_balances: Vec<TokenBalance>,
    /// Token balances after execution.
    pub post_token_balances: Vec<TokenBalance>,
}

/// One token-balance entry; only the mint address matters here.
pub struct TokenBalance {
    /// The mint's base-58 address, when the entry names one.
    pub mint: Option<String>,
}

} // verus!
