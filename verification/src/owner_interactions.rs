//! The operations of the owner: the pause switch and the stake terms.
//! Whether the caller is the owner is for the caller of these to establish.
use vstd::prelude::*;
use crate::storage::{ChessContract, ContractView, OnChainChessScStorage};

verus! {

/// A stored value that is set only while it is still empty.
pub open spec fn set_if_empty(stored: Seq<u8>, value: Seq<u8>) -> Seq<u8> {
    if stored.len() == 0 {
        value
    } else {
        stored
    }
}

pub trait OnChainChessScAdminInteractions: OnChainChessScStorage {
    /// Stops the operations of the players.
    fn pause(&mut self)
        ensures
            final(self)@ == (ContractView { paused: true, ..old(self)@ }),
    ;

    /// Lets the players operate again.
    fn unpause(&mut self)
        ensures
            final(self)@ == (ContractView { paused: false, ..old(self)@ }),
    ;

    /// Fixes the stake: the token and the amount. Each of the two is taken
    /// only if none is stored yet, so the terms of a running contract do
    /// not change.
    fn set_wager(&mut self, wager_token_id: Vec<u8>, wager_amount: Vec<u8>)
        ensures
            final(self)@ == (ContractView {
                wager_token_id: set_if_empty(old(self)@.wager_token_id, wager_token_id@),
                wager_amount: set_if_empty(old(self)@.wager_amount, wager_amount@),
                ..old(self)@
            }),
    ;
}

impl OnChainChessScAdminInteractions for ChessContract {
    fn pause(&mut self) {
        self.paused = true;
    }

    fn unpause(&mut self) {
        self.paused = false;
    }

    fn set_wager(&mut self, wager_token_id: Vec<u8>, wager_amount: Vec<u8>) {
        if self.wager_token_id.len() == 0 {
            self.wager_token_id = wager_token_id;
        }
        if self.wager_amount.len() == 0 {
            self.wager_amount = wager_amount;
        }
    }
}

} // verus!
