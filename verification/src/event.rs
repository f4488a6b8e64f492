//! The published domain record: one token-creation event.

use vstd::prelude::*;

verus! {

/// One classified token-creation event.
///
/// `signature`, `mint_address` and `creator_address` carry base-58 text;
/// `slot` is the ledger slot at which the transaction landed.  A value is
/// only ever constructed by classification and is never mutated afterwards.
pub struct CreateEvent {
    pub signature: String,
    pub mint_address: String,
    pub creator_address: String,
    pub slot: u64,
}

impl CreateEvent {
    /// An explicit copy with a proved contract: the result is equal to the
    /// original, field for field.
    pub fn duplicate(&self) -> (r: CreateEvent)
        ensures
            r == *self,
    {
        CreateEvent {
            signature: self.signature.clone(),
            mint_address: self.mint_address.clone(),
            creator_address: self.creator_address.clone(),
            slot: self.slot,
        }
    }
}

} // verus!
