//! What a call sees of the ledger it runs in.

use crate::failure::Failure;
use crate::types::Address;
use vstd::prelude::*;

verus! {

/// The ledger that a call runs in: its time and number, the contract that is
/// called and the addresses that authorised the call.
pub struct Ledger {
    pub timestamp: u64,
    pub sequence: u32,
    pub current_contract: Address,
    pub signers: Vec<Address>,
}

impl Ledger {
    /// Whether an address authorised the call.
    pub open spec fn authorised(&self, a: Address) -> bool {
        self.signers@.contains(a)
    }

    /// Passes when the address authorised the call.
    pub fn require_auth(&self, a: &Address) -> (r: Result<(), Failure>)
        ensures
            r == if self.authorised(*a) {
                Ok::<(), Failure>(())
            } else {
                Err(Failure::MissingAuthorisation)
            },
    {
        let mut i: usize = 0;
        while i < self.signers.len()
            invariant
                i <= self.signers.len(),
                forall|j: int| 0 <= j < i ==> self.signers@[j] != *a,
            decreases self.signers.len() - i,
        {
            if self.signers[i] == *a {
                return Ok(());
            }
            i = i + 1;
        }
        Err(Failure::MissingAuthorisation)
    }
}

} // verus!
