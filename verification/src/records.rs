//! Records of the earlier, self-contained savings-circle layout, kept as
//! plain data: a circle embedding its own member and vote lists.

use vstd::prelude::*;

verus! {

/// Lifecycle of a savings circle.
#[derive(Clone, Copy, PartialEq, Eq, Structural, Debug)]
pub enum CircleStatus {
    /// Waiting for members.
    Forming,
    /// Cycles are running.
    Active,
    /// Every member has been paid out.
    Completed,
    /// Abandoned before completion.
    Cancelled,
}

/// One recorded vote on a membership request.
#[derive(Clone, Copy, PartialEq, Eq, Structural, Debug)]
pub struct Vote {
    pub voter: u64,
    pub approve: bool,
}

/// A pending membership request with its votes.
#[derive(Clone, PartialEq, Eq, Debug)]
pub struct MembershipRequest {
    pub candidate: u64,
    pub timestamp: u64,
    pub votes: Vec<Vote>,
    pub yes_votes: u32,
    pub no_votes: u32,
}

/// A savings circle that embeds its own membership and rotation order.
#[derive(Clone, PartialEq, Eq, Debug)]
pub struct Circle {
    pub id: u64,
    pub creator: u64,
    pub members: Vec<u64>,
    pub contribution_amount: u128,
    pub cycle_duration: u64,
    pub max_members: u32,
    pub current_cycle: u32,
    pub rotation_order: Vec<u64>,
    pub cycle_start_timestamp: u64,
    pub status: CircleStatus,
    pub current_contributions: Vec<u64>,
}

impl MembershipRequest {
    /// A fresh request by `candidate` at `timestamp`, with no votes yet.
    pub fn new(candidate: u64, timestamp: u64) -> (r: MembershipRequest)
        ensures
            r.candidate == candidate,
            r.timestamp == timestamp,
            r.votes@ =~= Seq::<Vote>::empty(),
            r.yes_votes == 0,
            r.no_votes == 0,
    {
        MembershipRequest { candidate, timestamp, votes: Vec::new(), yes_votes: 0, no_votes: 0 }
    }
}

} // verus!
