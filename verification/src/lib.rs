//! Wagered two-player chess: the rules of movement, the detection of check,
//! and the life of a match from pairing to its outcome.
//!
//! The contract holds no clock, no caller and no money. Who calls and at
//! which epoch are arguments of each operation, and what is owed when a
//! match ends is returned as rewards for the caller to pay out.
use vstd::prelude::*;

pub mod board;
pub mod check;
pub mod interactions;
pub mod laws;
pub mod moves;
pub mod owner_interactions;
pub mod requirements;
pub mod storage;

use crate::interactions::OnChainChessScInteractions;
use crate::owner_interactions::OnChainChessScAdminInteractions;
use crate::requirements::OnChainChessScRequirements;
use crate::storage::{ChessContract, ContractView, OnChainChessScStorage};

verus! {

/// The contract as a whole: what it keeps, what its owner and its players
/// can do, and how it starts.
pub trait OnChainChessSc:
    OnChainChessScStorage
    + OnChainChessScAdminInteractions
    + OnChainChessScInteractions
    + OnChainChessScRequirements
{
    /// Deployment: the contract starts paused.
    fn init(&mut self)
        ensures
            final(self)@ == (ContractView { paused: true, ..old(self)@ }),
    ;

    /// An upgrade of the code keeps the state.
    fn upgrade(&mut self)
        ensures
            final(self)@ == old(self)@,
    ;
}

impl OnChainChessSc for ChessContract {
    fn init(&mut self) {
        self.paused = true;
    }

    fn upgrade(&mut self) {
    }
}

} // verus!
