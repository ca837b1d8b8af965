//! Reward-cycle parameters of the anchored chain.

use vstd::prelude::*;

verus! {

/// The reward-cycle parameters that the anchored chain's node reports.
#[derive(Debug, PartialEq, Eq)]
pub struct PoxInfo {
    pub contract_id: String,
    pub pox_activation_threshold_ustx: u64,
    pub first_burnchain_block_height: u32,
    pub prepare_phase_block_length: u32,
    pub reward_phase_block_length: u32,
    pub reward_slots: u32,
    pub total_liquid_supply_ustx: u64,
}

impl Clone for PoxInfo {
    fn clone(&self) -> (copy: PoxInfo)
        ensures
            copy == *self,
    {
        PoxInfo {
            contract_id: self.contract_id.clone(),
            pox_activation_threshold_ustx: self.pox_activation_threshold_ustx,
            first_burnchain_block_height: self.first_burnchain_block_height,
            prepare_phase_block_length: self.prepare_phase_block_length,
            reward_phase_block_length: self.reward_phase_block_length,
            reward_slots: self.reward_slots,
            total_liquid_supply_ustx: self.total_liquid_supply_ustx,
        }
    }
}

impl PoxInfo {
    /// The parameters of a local development network.
    pub open spec fn is_default(&self) -> bool {
        &&& self.contract_id@ == "ST000000000000000000002AMW42H.pox"@
        &&& self.pox_activation_threshold_ustx == 0
        &&& self.first_burnchain_block_height == 100
        &&& self.prepare_phase_block_length == 1
        &&& self.reward_phase_block_length == 4
        &&& self.reward_slots == 8
        &&& self.total_liquid_supply_ustx == 1000000000000000
    }

    /// The parameters in force before the node has reported any: those of a
    /// local development network.
    pub fn default() -> (info: PoxInfo)
        ensures
            info.is_default(),
    {
        PoxInfo {
            contract_id: "ST000000000000000000002AMW42H.pox".to_owned(),
            pox_activation_threshold_ustx: 0,
            first_burnchain_block_height: 100,
            prepare_phase_block_length: 1,
            reward_phase_block_length: 4,
            reward_slots: 8,
            total_liquid_supply_ustx: 1000000000000000,
        }
    }
}

} // verus!
