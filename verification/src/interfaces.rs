//! The collaborating contracts, interface-only: the calls the rotation
//! center issues outward, and the public records of the surrounding token
//! subsystems, modeled over plain values. None of their internal logic
//! belongs to this library.

use vstd::prelude::*;

verus! {

/// The milestone tracker notified after each completion (best effort:
/// a failure must never abort the rotation).
pub trait NftContract {
    /// Records a member's new completed-cycle count.
    fn update_member_cycles(&mut self, member: u64, cycles: u64);
}

/// The treasury that receives the DAO share of every inbound payment.
pub trait DaoV2Contract {
    /// Accepts a direct value transfer from the rotation center.
    fn receive_from_circle_of_life(&mut self, payment: u128);
}

/// The wrapping contract the liquidity pipeline calls first.
pub trait WegldContract {
    /// Wraps native value into the wrapped token.
    fn wrap_egld(&mut self, payment: u128);

    /// Unwraps wrapped tokens back into native value.
    fn unwrap_egld(&mut self, payment: u128);
}

/// The swap venue used by the middle steps of the liquidity pipeline.
pub trait XExchangePairContract {
    /// Swaps a fixed input amount for at least `amount_out_min` of
    /// `token_out`.
    fn swap_tokens_fixed_input(&mut self, token_out: u64, amount_out_min: u128, payment: u128);

    /// Provides the paid tokens as liquidity.
    fn add_liquidity(
        &mut self,
        first_token_amount_min: u128,
        second_token_amount_min: u128,
        first_payment: u128,
        second_payment: u128,
    );

    /// The pair's reserves and the liquidity-token supply.
    fn get_reserves_and_total_supply(&self) -> (u128, u128, u128);
}

/// The vault that locks the pipeline's liquidity tokens.
pub trait LpLockerContract {
    /// Locks the paid liquidity tokens for the given number of days.
    fn lock_lp_tokens(&mut self, lock_duration_days: u64, payment: u128);

    /// Releases an expired lock.
    fn unlock(&mut self, lock_id: u64);
}

/// The staking contract the DAO reads voting power from.
pub trait StakingContractProxy {
    /// A user's total staked balance.
    fn get_total_staked_by_user(&self, user: u64) -> u128;
}

/// Status of a DAO proposal.
#[derive(Clone, Copy, PartialEq, Eq, Structural, Debug)]
pub enum ProposalStatus {
    /// Waiting for voting to start.
    Pending,
    /// Voting in progress.
    Active,
    /// Passed, waiting for execution.
    Passed,
    /// Successfully executed.
    Executed,
    /// Rejected by voters.
    Rejected,
    /// Cancelled by the proposer or an admin.
    Cancelled,
    /// Timelock expired without execution.
    Expired,
}

/// What a DAO proposal asks for.
#[derive(Clone, Copy, PartialEq, Eq, Structural, Debug)]
pub enum ProposalType {
    /// Transfer protocol tokens from the treasury.
    TransferFunds,
    /// Transfer native value from the treasury.
    TransferEgld,
    /// Change a DAO parameter.
    ChangeParameter,
    /// Add a council member.
    AddMember,
    /// Remove a council member.
    RemoveMember,
    /// Upgrade a contract.
    UpgradeContract,
    /// Text-only proposal.
    Custom,
}

/// A DAO proposal.
#[derive(Clone, PartialEq, Eq, Debug)]
pub struct Proposal {
    pub id: u64,
    pub proposer: u64,
    pub title: Vec<u8>,
    pub description: Vec<u8>,
    pub proposal_type: ProposalType,
    pub status: ProposalStatus,
    pub votes_for: u128,
    pub votes_against: u128,
    pub created_at: u64,
    pub voting_ends_at: u64,
    pub execution_time: u64,
    pub target_address: u64,
    pub amount: u128,
    pub executed: bool,
}

/// One wallet's stake in the token sale.
#[derive(Clone, Copy, PartialEq, Eq, Structural, Debug)]
pub struct Contribution {
    pub amount_egld: u128,
    pub tokens_to_receive: u128,
    pub claimed: bool,
    pub refunded: bool,
}

/// Status of the token sale.
#[derive(Clone, Copy, PartialEq, Eq, Structural, Debug)]
pub enum IdoStatus {
    NotStarted,
    Active,
    Ended,
    Finalized,
    Cancelled,
}

/// On-chain attributes of a milestone token.
#[derive(Clone, PartialEq, Eq, Debug)]
pub struct NftAttributes {
    /// Milestone level.
    pub level: u8,
    /// Completed cycles of the owning member.
    pub cycles_completed: u64,
    /// Rarity code.
    pub rarity: u8,
    /// Rarity name.
    pub rarity_name: Vec<u8>,
    /// Background colour.
    pub background: Vec<u8>,
    /// Number of peripheral points drawn.
    pub peripheral_points: u8,
    /// Creation timestamp.
    pub created_at: u64,
    /// The first owner.
    pub original_owner: u64,
}

/// One staking position.
#[derive(Clone, Copy, PartialEq, Eq, Structural, Debug)]
pub struct StakePosition {
    pub amount: u128,
    pub lock_level: u8,
    pub start_epoch: u64,
    pub end_epoch: u64,
    pub last_claim_epoch: u64,
    pub accumulated_rewards: u128,
}

/// One staking level's configuration.
#[derive(Clone, Copy, PartialEq, Eq, Structural, Debug)]
pub struct StakingLevel {
    pub level: u8,
    pub lock_days: u64,
    pub apy_basis_points: u64,
}

/// One beneficiary's vesting schedule.
#[derive(Clone, Copy, PartialEq, Eq, Structural, Debug)]
pub struct VestingSchedule {
    pub beneficiary: u64,
    pub total_amount: u128,
    pub released_amount: u128,
    pub start_epoch: u64,
    pub cliff_epochs: u64,
    pub vesting_duration_epochs: u64,
    pub category: VestingCategory,
    pub is_revoked: bool,
}

/// Who a vesting schedule is for.
#[derive(Clone, Copy, PartialEq, Eq, Structural, Debug)]
pub enum VestingCategory {
    /// Two years with a six-month cliff.
    Team,
    /// One year with a three-month cliff.
    Advisors,
    /// One year, no cliff.
    Marketing,
    /// A custom schedule.
    Custom,
}

} // verus!
