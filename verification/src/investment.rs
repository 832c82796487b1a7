//! The collateral-backed investment circle: members deposit the whole run of
//! contributions up front as collateral, so no admission vote is needed; a
//! missed payment is covered from the defaulter's collateral, and collateral
//! unlocks in proportion to the payments actually made.

use vstd::prelude::*;

verus! {

/// How often a contribution falls due.
#[derive(Clone, Copy, PartialEq, Eq, Structural, Debug)]
pub enum ContributionFrequency {
    Weekly,
    BiWeekly,
    Monthly,
    Quarterly,
}

impl ContributionFrequency {
    /// The period length in seconds.
    pub fn to_seconds(&self) -> (r: u64)
        ensures
            r == self.spec_seconds(),
            0 < r <= 7_776_000,
    {
        match self {
            ContributionFrequency::Weekly => 7 * 24 * 60 * 60,
            ContributionFrequency::BiWeekly => 14 * 24 * 60 * 60,
            ContributionFrequency::Monthly => 30 * 24 * 60 * 60,
            ContributionFrequency::Quarterly => 90 * 24 * 60 * 60,
        }
    }

    /// The period length in seconds, as a specification value.
    pub open spec fn spec_seconds(self) -> u64 {
        match self {
            ContributionFrequency::Weekly => 604_800,
            ContributionFrequency::BiWeekly => 1_209_600,
            ContributionFrequency::Monthly => 2_592_000,
            ContributionFrequency::Quarterly => 7_776_000,
        }
    }
}

/// Lifecycle of an investment circle.
#[derive(Clone, Copy, PartialEq, Eq, Structural, Debug)]
pub enum CircleStatus {
    /// Waiting for members to join.
    Pending,
    /// Contributions are running.
    Active,
    /// All contribution periods are done.
    Completed,
    /// Cancelled before starting.
    Cancelled,
}

/// One circle's configuration and progress.
#[derive(Clone, PartialEq, Eq, Debug)]
pub struct CircleInfo {
    pub id: u64,
    pub creator: u64,
    pub name: Vec<u8>,
    pub contribution_amount: u128,
    pub frequency: ContributionFrequency,
    pub total_contributions: u64,
    pub min_members: u64,
    pub max_members: u64,
    pub current_members: u64,
    pub current_period: u64,
    pub status: CircleStatus,
    pub created_at: u64,
    pub started_at: u64,
    pub next_contribution_deadline: u64,
}

/// One member's standing in a circle.
#[derive(Clone, Copy, PartialEq, Eq, Structural, Debug)]
pub struct MemberInfo {
    pub address: u64,
    pub collateral_deposited: u128,
    pub collateral_used: u128,
    pub collateral_unlocked: u128,
    pub contributions_paid: u64,
    pub joined_at: u64,
    pub last_contribution_at: u64,
    pub is_active: bool,
}

/// Companion data of a circle-creation event.
#[derive(Clone, Copy, PartialEq, Eq, Structural, Debug)]
pub struct CircleCreatedEventData {
    pub contribution_amount: u128,
    pub total_contributions: u64,
}

/// Companion data of a collateral-use event.
#[derive(Clone, Copy, PartialEq, Eq, Structural, Debug)]
pub struct CollateralUsedEventData {
    pub amount: u128,
    pub missed_contributions: u64,
}

/// Why an investment-circle operation was rejected.
#[derive(Clone, Copy, PartialEq, Eq, Structural, Debug)]
pub enum InvestmentError {
    OwnerOnly,
    NoFees,
    FeeTooHigh,
    ZeroContribution,
    TooFewPeriods,
    TooManyPeriods,
    TooFewMembers,
    BadMemberBound,
    TooManyMembers,
    UnfairSplit,
    WrongCollateral,
    NoSuchCircle,
    NotAcceptingMembers,
    CircleFull,
    AlreadyMember,
    NotMember,
    NotPending,
    NotActive,
    NotEnoughMembers,
    WrongAmount,
    MemberInactive,
    AlreadyContributed,
    DeadlineNotPassed,
    NothingToClaim,
    CreatorCannotLeave,
    CreatorOnly,
    InsufficientBalance,
}

/// The investment-circle ledger: circles and, aligned with them, each
/// circle's member records, claimed-collateral figures and pot.
#[derive(Clone)]
pub struct InvestmentCircle {
    pub owner: u64,
    pub circles: Vec<CircleInfo>,
    pub members: Vec<Vec<MemberInfo>>,
    pub claimed: Vec<Vec<u128>>,
    pub pools: Vec<u128>,
    pub protocol_fee_percent: u64,
    pub collected_fees: u128,
    pub balance: u128,
}

/// Whether member record `mi` of list `ms` belongs to `address`.
pub open spec fn is_member_at(ms: Seq<MemberInfo>, address: u64, mi: int) -> bool {
    0 <= mi < ms.len() && ms[mi].address == address
}

/// Whether `address` is enrolled in the member list.
pub open spec fn sp_enrolled(ms: Seq<MemberInfo>, address: u64) -> bool {
    exists|mi: int| is_member_at(ms, address, mi)
}

impl InvestmentCircle {
    /// Structural invariant: tables aligned, ids dense and 1-based, the
    /// member count matches the member list, addresses unique per circle,
    /// and the fee within its cap.
    pub open spec fn wf(self) -> bool {
        &&& self.members@.len() == self.circles@.len()
        &&& self.claimed@.len() == self.circles@.len()
        &&& self.pools@.len() == self.circles@.len()
        &&& forall|i: int|
            0 <= i < self.circles@.len() ==> (#[trigger] self.circles@[i]).id == i + 1
        &&& forall|i: int|
            0 <= i < self.circles@.len() ==> (#[trigger] self.circles@[i]).current_members
                == self.members@[i]@.len()
        &&& forall|i: int|
            0 <= i < self.circles@.len() ==> (#[trigger] self.claimed@[i])@.len()
                == self.members@[i]@.len()
        &&& forall|i: int, a: int, b: int|
            #![trigger self.members@[i]@[a], self.members@[i]@[b]]
            0 <= i < self.circles@.len() && 0 <= a < b < self.members@[i]@.len()
                ==> self.members@[i]@[a].address != self.members@[i]@[b].address
        &&& forall|i: int, a: int|
            #![trigger self.members@[i]@[a].collateral_used]
            0 <= i < self.circles@.len() && 0 <= a < self.members@[i]@.len()
                ==> self.members@[i]@[a].collateral_used
                <= self.members@[i]@[a].collateral_deposited
        &&& self.protocol_fee_percent <= 1000
    }

    /// A fresh ledger with the default 3% protocol fee.
    pub fn init(owner: u64) -> (r: InvestmentCircle)
        ensures
            r.wf(),
            r.owner == owner,
            r.circles@.len() == 0,
            r.protocol_fee_percent == 300,
            r.collected_fees == 0,
            r.balance == 0,
    {
        InvestmentCircle {
            owner,
            circles: Vec::new(),
            members: Vec::new(),
            claimed: Vec::new(),
            pools: Vec::new(),
            protocol_fee_percent: 300,
            collected_fees: 0,
            balance: 0,
        }
    }

    /// Sets the protocol fee, capped at 10%.
    pub fn set_protocol_fee(&mut self, caller: u64, fee_percent: u64) -> (r: Result<
        (),
        InvestmentError,
    >)
        requires
            old(self).wf(),
        ensures
            final(self).wf(),
            r is Ok <==> caller == old(self).owner && fee_percent <= 1000,
            r is Err ==> *final(self) == *old(self),
            (match r {
                Err(e) => e == if caller != old(self).owner {
                    InvestmentError::OwnerOnly
                } else {
                    InvestmentError::FeeTooHigh
                },
                Ok(()) => *final(self) == (
                InvestmentCircle { protocol_fee_percent: fee_percent, ..*old(self) }),
            }),
    {
        if caller != self.owner {
            return Err(InvestmentError::OwnerOnly);
        }
        if fee_percent > 1000 {
            return Err(InvestmentError::FeeTooHigh);
        }
        self.protocol_fee_percent = fee_percent;
        Ok(())
    }

    /// Pays the collected protocol fees out to the owner; returns the amount.
    pub fn withdraw_fees(&mut self, caller: u64) -> (r: Result<u128, InvestmentError>)
        requires
            old(self).wf(),
        ensures
            final(self).wf(),
            r is Ok <==> caller == old(self).owner && old(self).collected_fees > 0 && old(self).balance >= old(self).collected_fees,
            r is Err ==> *final(self) == *old(self),
            (match r {
                Err(e) => e == if caller != old(self).owner {
                    InvestmentError::OwnerOnly
                } else {
                    InvestmentError::NoFees
                },
                Ok(fees) => {
                    &&& caller == old(self).owner
                    &&& fees == old(self).collected_fees
                    &&& fees > 0
                    &&& old(self).balance >= fees
                    &&& *final(self) == (InvestmentCircle {
                        collected_fees: 0,
                        balance: (old(self).balance - fees) as u128,
                        ..*old(self)
                    })
                },
            }),
    {
        if caller != self.owner {
            return Err(InvestmentError::OwnerOnly);
        }
        let fees = self.collected_fees;
        if fees == 0 {
            return Err(InvestmentError::NoFees);
        }
        if self.balance < fees {
            return Err(InvestmentError::NoFees);
        }
        self.collected_fees = 0;
        self.balance = self.balance - fees;
        Ok(fees)
    }

    /// Index of a 1-based circle id, when the circle exists.
    pub fn circle_idx(&self, circle_id: u64) -> (r: Option<usize>)
        ensures
            match r {
                Some(i) => i as int == circle_id - 1 && 1 <= circle_id
                    && circle_id <= self.circles@.len(),
                None => circle_id == 0 || circle_id > self.circles@.len(),
            },
    {
        if circle_id == 0 {
            return None;
        }
        if circle_id > (self.circles.len() as u64) {
            return None;
        }
        Some((circle_id - 1) as usize)
    }

    /// Index of a member's record in a circle.
    #[verifier::loop_isolation(false)]
    pub fn member_idx(&self, circle_idx: usize, address: u64) -> (r: Option<usize>)
        requires
            circle_idx < self.members@.len(),
        ensures
            match r {
                Some(mi) => is_member_at(self.members@[circle_idx as int]@, address, mi as int),
                None => !sp_enrolled(self.members@[circle_idx as int]@, address),
            },
    {
        let ms = &self.members[circle_idx];
        let n = ms.len();
        let mut j: usize = 0;
        while j < n
            invariant
                j <= n,
                n == ms@.len(),
                forall|a: int| 0 <= a < j ==> (#[trigger] ms@[a]).address != address,
            decreases n - j,
        {
            if ms[j].address == address {
                proof {
                    assert(ms@ == self.members@[circle_idx as int]@);
                }
                return Some(j);
            }
            j = j + 1;
        }
        proof {
            assert(ms@ == self.members@[circle_idx as int]@);
        }
        None
    }

    /// The collateral a joiner of this circle must deposit: one contribution
    /// per period.
    pub open spec fn sp_required_collateral(c: CircleInfo) -> int {
        c.contribution_amount * c.total_contributions
    }

    /// Creates a circle; the creator's payment must equal the required
    /// collateral, and the period count must divide evenly among the minimum
    /// membership. Returns the circle id.
    pub fn create_circle(
        &mut self,
        caller: u64,
        payment: u128,
        name: Vec<u8>,
        contribution_amount: u128,
        frequency: ContributionFrequency,
        total_contributions: u64,
        min_members: u64,
        max_members: u64,
        now: u64,
    ) -> (r: Result<u64, InvestmentError>)
        requires
            old(self).wf(),
            old(self).circles@.len() < u64::MAX,
            old(self).balance + payment <= u128::MAX,
        ensures
            final(self).wf(),
            r is Ok <==> contribution_amount > 0 && 2 <= total_contributions <= 52 && min_members >= 2 && min_members <= max_members <= 100 && total_contributions as int % min_members as int == 0 && payment == contribution_amount * total_contributions,
            r is Err ==> *final(self) == *old(self),
            (match r {
                Err(e) => e == if contribution_amount == 0 {
                    InvestmentError::ZeroContribution
                } else if total_contributions < 2 {
                    InvestmentError::TooFewPeriods
                } else if total_contributions > 52 {
                    InvestmentError::TooManyPeriods
                } else if min_members < 2 {
                    InvestmentError::TooFewMembers
                } else if max_members < min_members {
                    InvestmentError::BadMemberBound
                } else if max_members > 100 {
                    InvestmentError::TooManyMembers
                } else if total_contributions as int % min_members as int != 0 {
                    InvestmentError::UnfairSplit
                } else {
                    InvestmentError::WrongCollateral
                },
                Ok(id) => {
                    &&& payment == contribution_amount * total_contributions
                    &&& id == old(self).circles@.len() + 1
                    &&& final(self).circles@.len() == old(self).circles@.len() + 1
                    &&& final(self).circles@ == old(self).circles@.push(
                        final(self).circles@.last(),
                    )
                    &&& ({
                        let c = final(self).circles@.last();
                        &&& c.id == id
                        &&& c.creator == caller
                        &&& c.contribution_amount == contribution_amount
                        &&& c.frequency == frequency
                        &&& c.total_contributions == total_contributions
                        &&& c.min_members == min_members
                        &&& c.max_members == max_members
                        &&& c.current_members == 1
                        &&& c.current_period == 0
                        &&& c.status == CircleStatus::Pending
                        &&& c.created_at == now
                        &&& c.started_at == 0
                        &&& c.next_contribution_deadline == 0
                    })
                    &&& final(self).members@.last()@ =~= seq![
                        (MemberInfo {
                            address: caller,
                            collateral_deposited: payment,
                            collateral_used: 0,
                            collateral_unlocked: 0,
                            contributions_paid: 0,
                            joined_at: now,
                            last_contribution_at: 0,
                            is_active: true,
                        }),
                    ]
                    &&& final(self).balance == old(self).balance + payment
                },
            }),
    {
        if contribution_amount == 0 {
            return Err(InvestmentError::ZeroContribution);
        }
        if total_contributions < 2 {
            return Err(InvestmentError::TooFewPeriods);
        }
        if total_contributions > 52 {
            return Err(InvestmentError::TooManyPeriods);
        }
        if min_members < 2 {
            return Err(InvestmentError::TooFewMembers);
        }
        if max_members < min_members {
            return Err(InvestmentError::BadMemberBound);
        }
        if max_members > 100 {
            return Err(InvestmentError::TooManyMembers);
        }
        if total_contributions % min_members != 0 {
            return Err(InvestmentError::UnfairSplit);
        }
        let t128 = total_contributions as u128;
        if contribution_amount > u128::MAX / t128 {
            proof {
                let a = contribution_amount as int;
                let t = t128 as int;
                let q = u128::MAX as int / t;
                vstd::arithmetic::div_mod::lemma_fundamental_div_mod(u128::MAX as int, t);
                vstd::arithmetic::div_mod::lemma_mod_bound(u128::MAX as int, t);
                vstd::arithmetic::mul::lemma_mul_inequality(q + 1, a, t);
                assert((q + 1) * t == q * t + t) by (nonlinear_arith);
                assert(a * t == t * a) by (nonlinear_arith);
                assert(q * t == t * q) by (nonlinear_arith);
                assert(a * t > u128::MAX);
            }
            return Err(InvestmentError::WrongCollateral);
        }
        proof {
            let a = contribution_amount as int;
            let t = t128 as int;
            let q = u128::MAX as int / t;
            vstd::arithmetic::div_mod::lemma_fundamental_div_mod(u128::MAX as int, t);
            vstd::arithmetic::div_mod::lemma_mod_bound(u128::MAX as int, t);
            vstd::arithmetic::mul::lemma_mul_inequality(a, q, t);
            assert(a * t == t * a) by (nonlinear_arith);
            assert(q * t == t * q) by (nonlinear_arith);
        }
        let required_collateral = contribution_amount * t128;
        if payment != required_collateral {
            return Err(InvestmentError::WrongCollateral);
        }
        let circle_id = (self.circles.len() as u64) + 1;
        let circle = CircleInfo {
            id: circle_id,
            creator: caller,
            name,
            contribution_amount,
            frequency,
            total_contributions,
            min_members,
            max_members,
            current_members: 1,
            current_period: 0,
            status: CircleStatus::Pending,
            created_at: now,
            started_at: 0,
            next_contribution_deadline: 0,
        };
        self.circles.push(circle);
        let member = MemberInfo {
            address: caller,
            collateral_deposited: required_collateral,
            collateral_used: 0,
            collateral_unlocked: 0,
            contributions_paid: 0,
            joined_at: now,
            last_contribution_at: 0,
            is_active: true,
        };
        let mut ms: Vec<MemberInfo> = Vec::new();
        ms.push(member);
        self.members.push(ms);
        let mut cl: Vec<u128> = Vec::new();
        cl.push(0);
        self.claimed.push(cl);
        self.pools.push(0);
        self.balance = self.balance + payment;
        Ok(circle_id)
    }

    /// Joins a pending circle by depositing the exact collateral.
    pub fn join_circle(&mut self, caller: u64, circle_id: u64, payment: u128, now: u64) -> (r:
        Result<(), InvestmentError>)
        requires
            old(self).wf(),
            old(self).balance + payment <= u128::MAX,
            circle_id >= 1 && circle_id <= old(self).circles@.len() ==> old(self).circles@[circle_id - 1].current_members < u64::MAX,
        ensures
            final(self).wf(),
            r is Ok <==> 1 <= circle_id <= old(self).circles@.len() && ({
                let c = old(self).circles@[circle_id - 1];
                &&& c.status == CircleStatus::Pending
                &&& c.current_members < c.max_members
                &&& !sp_enrolled(old(self).members@[circle_id - 1]@, caller)
                &&& payment == Self::sp_required_collateral(c)
            }),
            r is Err ==> *final(self) == *old(self),
            (match r {
                Err(e) => e == if circle_id == 0 || circle_id > old(self).circles@.len() {
                    InvestmentError::NoSuchCircle
                } else {
                    let c = old(self).circles@[circle_id - 1];
                    if c.status != CircleStatus::Pending {
                        InvestmentError::NotAcceptingMembers
                    } else if c.current_members >= c.max_members {
                        InvestmentError::CircleFull
                    } else if sp_enrolled(old(self).members@[circle_id - 1]@, caller) {
                        InvestmentError::AlreadyMember
                    } else {
                        InvestmentError::WrongCollateral
                    }
                },
                Ok(()) => {
                    let ci = circle_id - 1;
                    let c = old(self).circles@[ci];
                    &&& payment == Self::sp_required_collateral(c)
                    &&& final(self).members@[ci]@ == old(self).members@[ci]@.push(
                        (MemberInfo {
                            address: caller,
                            collateral_deposited: payment,
                            collateral_used: 0,
                            collateral_unlocked: 0,
                            contributions_paid: 0,
                            joined_at: now,
                            last_contribution_at: 0,
                            is_active: true,
                        }),
                    )
                    &&& final(self).circles@[ci] == (CircleInfo {
                        current_members: (c.current_members + 1) as u64,
                        ..c
                    })
                    &&& final(self).balance == old(self).balance + payment
                    &&& final(self).pools@ == old(self).pools@
                    &&& final(self).collected_fees == old(self).collected_fees
                },
            }),
    {
        let ci = match self.circle_idx(circle_id) {
            None => {
                return Err(InvestmentError::NoSuchCircle);
            },
            Some(ci) => ci,
        };
        if !matches!(self.circles[ci].status, CircleStatus::Pending) {
            return Err(InvestmentError::NotAcceptingMembers);
        }
        if self.circles[ci].current_members >= self.circles[ci].max_members {
            return Err(InvestmentError::CircleFull);
        }
        if self.member_idx(ci, caller).is_some() {
            return Err(InvestmentError::AlreadyMember);
        }
        let amount = self.circles[ci].contribution_amount;
        let total = self.circles[ci].total_contributions;
        let t128 = total as u128;
        if total == 0 {
            proof {
                let a = amount as int;
                assert(a * 0 == 0) by (nonlinear_arith);
            }
            if payment != 0 {
                return Err(InvestmentError::WrongCollateral);
            }
            self.push_member(ci, caller, 0, now);
            self.balance = self.balance + payment;
            return Ok(());
        }
        if amount > u128::MAX / t128 {
            proof {
                let a = amount as int;
                let t = t128 as int;
                let q = u128::MAX as int / t;
                vstd::arithmetic::div_mod::lemma_fundamental_div_mod(u128::MAX as int, t);
                vstd::arithmetic::div_mod::lemma_mod_bound(u128::MAX as int, t);
                vstd::arithmetic::mul::lemma_mul_inequality(q + 1, a, t);
                assert((q + 1) * t == q * t + t) by (nonlinear_arith);
                assert(a * t == t * a) by (nonlinear_arith);
                assert(q * t == t * q) by (nonlinear_arith);
            }
            return Err(InvestmentError::WrongCollateral);
        }
        proof {
            let a = amount as int;
            let t = t128 as int;
            let q = u128::MAX as int / t;
            vstd::arithmetic::div_mod::lemma_fundamental_div_mod(u128::MAX as int, t);
            vstd::arithmetic::div_mod::lemma_mod_bound(u128::MAX as int, t);
            vstd::arithmetic::mul::lemma_mul_inequality(a, q, t);
            assert(a * t == t * a) by (nonlinear_arith);
            assert(q * t == t * q) by (nonlinear_arith);
        }
        let required_collateral = amount * t128;
        if payment != required_collateral {
            return Err(InvestmentError::WrongCollateral);
        }
        self.push_member(ci, caller, payment, now);
        self.balance = self.balance + payment;
        Ok(())
    }

    /// Appends a fresh member record and steps the member count.
    fn push_member(&mut self, circle_idx: usize, caller: u64, collateral: u128, now: u64)
        requires
            old(self).wf(),
            circle_idx < old(self).circles@.len(),
            !sp_enrolled(old(self).members@[circle_idx as int]@, caller),
            old(self).circles@[circle_idx as int].current_members < u64::MAX,
        ensures
            final(self).wf(),
            final(self).members@[circle_idx as int]@ == old(self).members@[circle_idx as int]@.push(
                (MemberInfo {
                    address: caller,
                    collateral_deposited: collateral,
                    collateral_used: 0,
                    collateral_unlocked: 0,
                    contributions_paid: 0,
                    joined_at: now,
                    last_contribution_at: 0,
                    is_active: true,
                }),
            ),
            final(self).members@ == old(self).members@.update(
                circle_idx as int,
                final(self).members@[circle_idx as int],
            ),
            final(self).claimed@ == old(self).claimed@.update(
                circle_idx as int,
                final(self).claimed@[circle_idx as int],
            ),
            final(self).claimed@[circle_idx as int]@ == old(self).claimed@[circle_idx as int]@.push(0),
            final(self).circles@ == old(self).circles@.update(
                circle_idx as int,
                (CircleInfo {
                    current_members: (old(self).circles@[circle_idx as int].current_members
                        + 1) as u64,
                    ..old(self).circles@[circle_idx as int]
                }),
            ),
            *final(self) == (InvestmentCircle {
                members: final(self).members,
                claimed: final(self).claimed,
                circles: final(self).circles,
                ..*old(self)
            }),
    {
        let member = MemberInfo {
            address: caller,
            collateral_deposited: collateral,
            collateral_used: 0,
            collateral_unlocked: 0,
            contributions_paid: 0,
            joined_at: now,
            last_contribution_at: 0,
            is_active: true,
        };
        let mut ms = self.members.remove(circle_idx);
        ms.push(member);
        self.members.insert(circle_idx, ms);
        let mut cl = self.claimed.remove(circle_idx);
        cl.push(0);
        self.claimed.insert(circle_idx, cl);
        let mut c = self.circles.remove(circle_idx);
        c.current_members = c.current_members + 1;
        self.circles.insert(circle_idx, c);
        proof {
            crate::manager::lemma_remove_insert(
                old(self).members@,
                circle_idx as int,
                self.members@[circle_idx as int],
            );
            crate::manager::lemma_remove_insert(
                old(self).claimed@,
                circle_idx as int,
                self.claimed@[circle_idx as int],
            );
            crate::manager::lemma_remove_insert(
                old(self).circles@,
                circle_idx as int,
                self.circles@[circle_idx as int],
            );
            let ci = circle_idx as int;
            assert forall|i: int, a: int, b: int|
                #![trigger self.members@[i]@[a], self.members@[i]@[b]]
                0 <= i < self.circles@.len() && 0 <= a < b
                    < self.members@[i]@.len() implies self.members@[i]@[a].address
                != self.members@[i]@[b].address by {
                if i == ci {
                    if b == self.members@[ci]@.len() - 1 {
                        if self.members@[ci]@[a].address == caller {
                            assert(is_member_at(old(self).members@[ci]@, caller, a));
                        }
                    } else {
                        assert(old(self).members@[i]@[a].address != old(self).members@[i]@[b].address);
                    }
                } else {
                    assert(old(self).members@[i]@[a].address != old(self).members@[i]@[b].address);
                }
            }
        }
    }

    /// Starts a pending circle once enough members joined and the period
    /// count divides evenly among them.
    pub fn start_circle(&mut self, caller: u64, circle_id: u64, now: u64) -> (r: Result<
        (),
        InvestmentError,
    >)
        requires
            old(self).wf(),
            now + 7_776_000 <= u64::MAX,
        ensures
            final(self).wf(),
            r is Ok <==> 1 <= circle_id <= old(self).circles@.len() && ({
                let c = old(self).circles@[circle_id - 1];
                &&& sp_enrolled(old(self).members@[circle_id - 1]@, caller)
                &&& c.status == CircleStatus::Pending
                &&& c.current_members >= c.min_members
                &&& c.total_contributions as int % c.current_members as int == 0
            }),
            r is Err ==> *final(self) == *old(self),
            (match r {
                Err(e) => e == if circle_id == 0 || circle_id > old(self).circles@.len() {
                    InvestmentError::NoSuchCircle
                } else if !sp_enrolled(old(self).members@[circle_id - 1]@, caller) {
                    InvestmentError::NotMember
                } else {
                    let c = old(self).circles@[circle_id - 1];
                    if c.status != CircleStatus::Pending {
                        InvestmentError::NotPending
                    } else if c.current_members < c.min_members {
                        InvestmentError::NotEnoughMembers
                    } else {
                        InvestmentError::UnfairSplit
                    }
                },
                Ok(()) => {
                    let ci = circle_id - 1;
                    let c = old(self).circles@[ci];
                    &&& c.status == CircleStatus::Pending
                    &&& c.current_members >= c.min_members
                    &&& c.total_contributions as int % c.current_members as int == 0
                    &&& final(self).circles@ == old(self).circles@.update(
                        ci,
                        (CircleInfo {
                            status: CircleStatus::Active,
                            started_at: now,
                            current_period: 1,
                            next_contribution_deadline: (now
                                + c.frequency.spec_seconds()) as u64,
                            ..c
                        }),
                    )
                    &&& *final(self) == (InvestmentCircle {
                        circles: final(self).circles,
                        ..*old(self)
                    })
                },
            }),
    {
        let ci = match self.circle_idx(circle_id) {
            None => {
                return Err(InvestmentError::NoSuchCircle);
            },
            Some(ci) => ci,
        };
        if self.member_idx(ci, caller).is_none() {
            return Err(InvestmentError::NotMember);
        }
        if !matches!(self.circles[ci].status, CircleStatus::Pending) {
            return Err(InvestmentError::NotPending);
        }
        if self.circles[ci].current_members < self.circles[ci].min_members {
            return Err(InvestmentError::NotEnoughMembers);
        }
        if self.circles[ci].total_contributions % self.circles[ci].current_members != 0 {
            return Err(InvestmentError::UnfairSplit);
        }
        let mut c = self.circles.remove(ci);
        let period_duration = c.frequency.to_seconds();
        c.status = CircleStatus::Active;
        c.started_at = now;
        c.current_period = 1;
        c.next_contribution_deadline = now + period_duration;
        self.circles.insert(ci, c);
        proof {
            crate::manager::lemma_remove_insert(
                old(self).circles@,
                ci as int,
                self.circles@[ci as int],
            );
        }
        Ok(())
    }
}


/// One member's record after the missed contributions of `period` are
/// settled from its collateral: fully covered when the free collateral
/// suffices, otherwise drained and deactivated.
pub open spec fn sp_after_missed(m: MemberInfo, amount: u128, period: u64) -> MemberInfo {
    if !m.is_active || m.contributions_paid >= period {
        m
    } else {
        let missed = period - m.contributions_paid;
        let missed_amount = amount * missed;
        let avail = m.collateral_deposited - m.collateral_used;
        if avail >= missed_amount {
            MemberInfo {
                collateral_used: (m.collateral_used + missed_amount) as u128,
                contributions_paid: period,
                ..m
            }
        } else {
            MemberInfo { collateral_used: m.collateral_deposited, is_active: false, ..m }
        }
    }
}

/// What settling one member's missed contributions adds to the pot.
pub open spec fn sp_missed_delta(m: MemberInfo, amount: u128, period: u64) -> int {
    if !m.is_active || m.contributions_paid >= period {
        0
    } else {
        let missed = period - m.contributions_paid;
        let missed_amount = amount * missed;
        let avail = m.collateral_deposited - m.collateral_used;
        if avail >= missed_amount {
            missed_amount
        } else {
            avail
        }
    }
}

impl InvestmentCircle {
    /// A member pays the current period's contribution and unlocks collateral
    /// in proportion to everything paid so far.
    #[verifier::loop_isolation(false)]
    pub fn contribute(&mut self, caller: u64, circle_id: u64, payment: u128, now: u64) -> (r:
        Result<(), InvestmentError>)
        requires
            old(self).wf(),
            old(self).balance + payment <= u128::MAX,
            circle_id >= 1 && circle_id <= old(self).circles@.len() ==> {
                &&& old(self).pools@[circle_id - 1] + payment <= u128::MAX
                &&& forall|a: int|
                    0 <= a < old(self).members@[circle_id - 1]@.len() ==> (#[trigger] old(self).members@[circle_id - 1]@[a]).collateral_deposited as int * 52 <= u128::MAX
                &&& old(self).circles@[circle_id - 1].current_period <= 52
                &&& old(self).circles@[circle_id - 1].total_contributions >= 1
            },
        ensures
            final(self).wf(),
            r is Ok <==> 1 <= circle_id <= old(self).circles@.len() && ({
                let c = old(self).circles@[circle_id - 1];
                &&& c.status == CircleStatus::Active
                &&& payment == c.contribution_amount
                &&& exists|mi: int|
                    {
                        &&& #[trigger] is_member_at(old(self).members@[circle_id - 1]@, caller, mi)
                        &&& old(self).members@[circle_id - 1]@[mi].is_active
                        &&& old(self).members@[circle_id - 1]@[mi].contributions_paid < c.current_period
                    }
            }),
            r is Err ==> *final(self) == *old(self),
            (match r {
                Err(e) => e == if circle_id == 0 || circle_id > old(self).circles@.len() {
                    InvestmentError::NoSuchCircle
                } else if !sp_enrolled(old(self).members@[circle_id - 1]@, caller) {
                    InvestmentError::NotMember
                } else if old(self).circles@[circle_id - 1].status != CircleStatus::Active {
                    InvestmentError::NotActive
                } else if payment != old(self).circles@[circle_id - 1].contribution_amount {
                    InvestmentError::WrongAmount
                } else {
                    let mi = choose|mi: int|
                        #[trigger] is_member_at(old(self).members@[circle_id - 1]@, caller, mi);
                    if !old(self).members@[circle_id - 1]@[mi].is_active {
                        InvestmentError::MemberInactive
                    } else {
                        InvestmentError::AlreadyContributed
                    }
                },
                Ok(()) => {
                    let ci = circle_id - 1;
                    let c = old(self).circles@[ci];
                    &&& exists|mi: int|
                        {
                            let m = old(self).members@[ci]@[mi];
                            let paid2 = (m.contributions_paid + 1) as u64;
                            let potential = (m.collateral_deposited - m.collateral_used) * paid2
                                / (c.total_contributions as int);
                            &&& #[trigger] is_member_at(old(self).members@[ci]@, caller, mi)
                            &&& m.is_active
                            &&& m.contributions_paid < c.current_period
                            &&& final(self).members@[ci]@ == old(self).members@[ci]@.update(
                                mi,
                                (MemberInfo {
                                    contributions_paid: paid2,
                                    last_contribution_at: now,
                                    collateral_unlocked: (if potential
                                        > m.collateral_unlocked {
                                        potential
                                    } else {
                                        m.collateral_unlocked as int
                                    }) as u128,
                                    ..m
                                }),
                            )
                        }
                    &&& final(self).pools@ == old(self).pools@.update(
                        ci,
                        (old(self).pools@[ci] + payment) as u128,
                    )
                    &&& final(self).balance == old(self).balance + payment
                    &&& final(self).circles@ == old(self).circles@
                    &&& final(self).collected_fees == old(self).collected_fees
                },
            }),
    {
        let ci = match self.circle_idx(circle_id) {
            None => {
                return Err(InvestmentError::NoSuchCircle);
            },
            Some(ci) => ci,
        };
        let mi = match self.member_idx(ci, caller) {
            None => {
                return Err(InvestmentError::NotMember);
            },
            Some(mi) => mi,
        };
        proof {
            let mi0 = choose|mi0: int| is_member_at(old(self).members@[ci as int]@, caller, mi0);
            assert(mi0 == mi as int);
        }
        if !matches!(self.circles[ci].status, CircleStatus::Active) {
            return Err(InvestmentError::NotActive);
        }
        if payment != self.circles[ci].contribution_amount {
            return Err(InvestmentError::WrongAmount);
        }
        let m = self.members[ci][mi];
        if !m.is_active {
            return Err(InvestmentError::MemberInactive);
        }
        if m.contributions_paid >= self.circles[ci].current_period {
            return Err(InvestmentError::AlreadyContributed);
        }
        let total = self.circles[ci].total_contributions;
        let paid2 = m.contributions_paid + 1;
        proof {
            assert(m.contributions_paid < 52);
            assert(m.collateral_used <= m.collateral_deposited);
            let avail = m.collateral_deposited as int - m.collateral_used as int;
            vstd::arithmetic::mul::lemma_mul_inequality(paid2 as int, 52, avail);
            assert(avail * paid2 as int == paid2 as int * avail) by (nonlinear_arith);
            assert(avail * 52 <= m.collateral_deposited as int * 52) by (nonlinear_arith)
                requires
                    0 <= avail <= m.collateral_deposited,
            ;
            vstd::arithmetic::mul::lemma_mul_nonnegative(avail, paid2 as int);
            crate::center::lemma_div_le(avail * paid2 as int, total as int);
        }
        let avail = m.collateral_deposited - m.collateral_used;
        let potential_unlock = avail * (paid2 as u128) / (total as u128);
        let new_unlocked = if potential_unlock > m.collateral_unlocked {
            potential_unlock
        } else {
            m.collateral_unlocked
        };
        let m2 = MemberInfo {
            contributions_paid: paid2,
            last_contribution_at: now,
            collateral_unlocked: new_unlocked,
            ..m
        };
        let mut ms = self.members.remove(ci);
        ms.set(mi, m2);
        self.members.insert(ci, ms);
        let pool = self.pools[ci];
        self.pools.set(ci, pool + payment);
        self.balance = self.balance + payment;
        proof {
            crate::manager::lemma_remove_insert(
                old(self).members@,
                ci as int,
                self.members@[ci as int],
            );
        }
        Ok(())
    }

    /// A member of a pending circle leaves with its full collateral; the
    /// returned amount is the refund the host must pay.
    pub fn leave_circle(&mut self, caller: u64, circle_id: u64) -> (r: Result<
        u128,
        InvestmentError,
    >)
        requires
            old(self).wf(),
        ensures
            final(self).wf(),
            r is Ok <==> 1 <= circle_id <= old(self).circles@.len() && ({
                let c = old(self).circles@[circle_id - 1];
                &&& c.status == CircleStatus::Pending
                &&& caller != c.creator
                &&& exists|mi: int|
                    {
                        &&& #[trigger] is_member_at(old(self).members@[circle_id - 1]@, caller, mi)
                        &&& old(self).balance >= old(self).members@[circle_id
                            - 1]@[mi].collateral_deposited
                    }
            }),
            r is Err ==> *final(self) == *old(self),
            (match r {
                Err(e) => e == if circle_id == 0 || circle_id > old(self).circles@.len() {
                    InvestmentError::NoSuchCircle
                } else if !sp_enrolled(old(self).members@[circle_id - 1]@, caller) {
                    InvestmentError::NotMember
                } else if old(self).circles@[circle_id - 1].status != CircleStatus::Pending {
                    InvestmentError::NotPending
                } else if caller == old(self).circles@[circle_id - 1].creator {
                    InvestmentError::CreatorCannotLeave
                } else {
                    InvestmentError::WrongCollateral
                },
                Ok(refund) => {
                    let ci = circle_id - 1;
                    &&& !sp_enrolled(final(self).members@[ci]@, caller)
                    &&& old(self).balance >= refund
                    &&& final(self).circles@[ci].current_members == old(self).circles@[ci
                        ].current_members - 1
                    &&& final(self).balance == old(self).balance - refund
                    &&& exists|mi: int|
                        is_member_at(old(self).members@[ci]@, caller, mi) && refund == old(self).members@[ci]@[mi].collateral_deposited
                },
            }),
    {
        let ci = match self.circle_idx(circle_id) {
            None => {
                return Err(InvestmentError::NoSuchCircle);
            },
            Some(ci) => ci,
        };
        let mi = match self.member_idx(ci, caller) {
            None => {
                return Err(InvestmentError::NotMember);
            },
            Some(mi) => mi,
        };
        if !matches!(self.circles[ci].status, CircleStatus::Pending) {
            return Err(InvestmentError::NotPending);
        }
        if caller == self.circles[ci].creator {
            return Err(InvestmentError::CreatorCannotLeave);
        }
        let refund = self.members[ci][mi].collateral_deposited;
        if self.balance < refund {
            return Err(InvestmentError::WrongCollateral);
        }
        let mut ms = self.members.remove(ci);
        let _gone = ms.remove(mi);
        self.members.insert(ci, ms);
        let mut cl = self.claimed.remove(ci);
        let _cgone = cl.remove(mi);
        self.claimed.insert(ci, cl);
        let mut c = self.circles.remove(ci);
        c.current_members = c.current_members - 1;
        self.circles.insert(ci, c);
        self.balance = self.balance - refund;
        proof {
            crate::manager::lemma_remove_insert(
                old(self).members@,
                ci as int,
                self.members@[ci as int],
            );
            crate::manager::lemma_remove_insert(
                old(self).claimed@,
                ci as int,
                self.claimed@[ci as int],
            );
            crate::manager::lemma_remove_insert(
                old(self).circles@,
                ci as int,
                self.circles@[ci as int],
            );
            let cii = ci as int;
            let l0 = old(self).members@[cii]@;
            let l1 = self.members@[cii]@;
            assert(l1 == l0.remove(mi as int));
            assert forall|i: int, a: int, b: int|
                #![trigger self.members@[i]@[a], self.members@[i]@[b]]
                0 <= i < self.circles@.len() && 0 <= a < b
                    < self.members@[i]@.len() implies self.members@[i]@[a].address
                != self.members@[i]@[b].address by {
                if i == cii {
                    let a0: int = if a < mi as int {
                        a
                    } else {
                        a + 1
                    };
                    let b0: int = if b < mi as int {
                        b
                    } else {
                        b + 1
                    };
                    assert(l1[a] == l0[a0] && l1[b] == l0[b0]);
                    assert(l0[a0].address != l0[b0].address);
                } else {
                    assert(old(self).members@[i]@[a].address != old(self).members@[i]@[b].address);
                }
            }
            assert forall|i: int, a: int|
                #![trigger self.members@[i]@[a].collateral_used]
                0 <= i < self.circles@.len() && 0 <= a
                    < self.members@[i]@.len() implies self.members@[i]@[a].collateral_used
                <= self.members@[i]@[a].collateral_deposited by {
                if i == cii {
                    let a0: int = if a < mi as int {
                        a
                    } else {
                        a + 1
                    };
                    assert(l1[a] == l0[a0]);
                    assert(l0[a0].collateral_used <= l0[a0].collateral_deposited);
                } else {
                    assert(old(self).members@[i]@[a].collateral_used <= old(self).members@[i]@[a].collateral_deposited);
                }
            }
            assert(!sp_enrolled(l1, caller)) by {
                if sp_enrolled(l1, caller) {
                    let a = choose|a: int| is_member_at(l1, caller, a);
                    let a0: int = if a < mi as int {
                        a
                    } else {
                        a + 1
                    };
                    assert(l0[a0].address == caller);
                    assert(l0[mi as int].address == caller);
                }
            }
        }
        Ok(refund)
    }

    /// The creator cancels a pending circle; every member's collateral is
    /// refunded. The returned list is the refunds the host must pay.
    #[verifier::loop_isolation(false)]
    pub fn cancel_circle(&mut self, caller: u64, circle_id: u64) -> (r: Result<
        Vec<(u64, u128)>,
        InvestmentError,
    >)
        requires
            old(self).wf(),
        ensures
            final(self).wf(),
            r is Ok <==> 1 <= circle_id <= old(self).circles@.len() && caller == old(self).circles@[circle_id - 1].creator && old(self).circles@[circle_id - 1].status == CircleStatus::Pending,
            r is Err ==> *final(self) == *old(self),
            (match r {
                Err(e) => e == if circle_id == 0 || circle_id > old(self).circles@.len() {
                    InvestmentError::NoSuchCircle
                } else if caller != old(self).circles@[circle_id - 1].creator {
                    InvestmentError::CreatorOnly
                } else {
                    InvestmentError::NotPending
                },
                Ok(refunds) => {
                    let ci = circle_id - 1;
                    &&& caller == old(self).circles@[ci].creator
                    &&& old(self).circles@[ci].status == CircleStatus::Pending
                    &&& final(self).circles@ == old(self).circles@.update(
                        ci,
                        (CircleInfo {
                            status: CircleStatus::Cancelled,
                            ..old(self).circles@[ci]
                        }),
                    )
                    &&& refunds@.len() == old(self).members@[ci]@.len()
                    &&& forall|a: int|
                        0 <= a < refunds@.len() ==> #[trigger] refunds@[a] == (
                            old(self).members@[ci]@[a].address,
                            old(self).members@[ci]@[a].collateral_deposited,
                        )
                    &&& *final(self) == (InvestmentCircle {
                        circles: final(self).circles,
                        ..*old(self)
                    })
                },
            }),
    {
        let ci = match self.circle_idx(circle_id) {
            None => {
                return Err(InvestmentError::NoSuchCircle);
            },
            Some(ci) => ci,
        };
        if caller != self.circles[ci].creator {
            return Err(InvestmentError::CreatorOnly);
        }
        if !matches!(self.circles[ci].status, CircleStatus::Pending) {
            return Err(InvestmentError::NotPending);
        }
        let n = self.members[ci].len();
        let mut refunds: Vec<(u64, u128)> = Vec::new();
        let mut k: usize = 0;
        while k < n
            invariant
                k <= n,
                refunds@.len() == k,
                *self == *old(self),
                forall|a: int|
                    0 <= a < k ==> #[trigger] refunds@[a] == (
                        old(self).members@[ci as int]@[a].address,
                        old(self).members@[ci as int]@[a].collateral_deposited,
                    ),
            decreases n - k,
        {
            let m = self.members[ci][k];
            refunds.push((m.address, m.collateral_deposited));
            k = k + 1;
        }
        let mut c = self.circles.remove(ci);
        c.status = CircleStatus::Cancelled;
        self.circles.insert(ci, c);
        proof {
            crate::manager::lemma_remove_insert(
                old(self).circles@,
                ci as int,
                self.circles@[ci as int],
            );
        }
        Ok(refunds)
    }
}


/// What a member can claim right now: everything left after use once the
/// circle completed, otherwise the unlocked part not yet claimed.
pub open spec fn sp_claimable(status: CircleStatus, m: MemberInfo, already: u128) -> int {
    if status == CircleStatus::Completed {
        m.collateral_deposited - m.collateral_used - already
    } else if m.collateral_unlocked > already {
        m.collateral_unlocked - already
    } else {
        0
    }
}

impl InvestmentCircle {
    /// Settles one member's missed contributions from its collateral; anyone
    /// may call it once the deadline has passed. Returns what was added to
    /// the pot, and whether the member was drained and deactivated.
    pub fn process_missed_contribution(
        &mut self,
        circle_id: u64,
        member_address: u64,
        now: u64,
    ) -> (r: Result<CollateralUsedEventData, InvestmentError>)
        requires
            old(self).wf(),
            circle_id >= 1 && circle_id <= old(self).circles@.len() ==> {
                &&& old(self).circles@[circle_id - 1].current_period <= 52
                &&& old(self).circles@[circle_id - 1].contribution_amount as int * 52
                    <= u128::MAX
                &&& old(self).pools@[circle_id - 1] + old(self).circles@[circle_id
                    - 1].contribution_amount as int * 52 <= u128::MAX
            },
        ensures
            final(self).wf(),
            r is Ok <==> 1 <= circle_id <= old(self).circles@.len() && ({
                let c = old(self).circles@[circle_id - 1];
                &&& c.status == CircleStatus::Active
                &&& now > c.next_contribution_deadline
                &&& exists|mi: int|
                    {
                        &&& #[trigger] is_member_at(
                            old(self).members@[circle_id - 1]@,
                            member_address,
                            mi,
                        )
                        &&& old(self).members@[circle_id - 1]@[mi].is_active
                    }
            }),
            r is Err ==> *final(self) == *old(self),
            (match r {
                Err(e) => e == if circle_id == 0 || circle_id > old(self).circles@.len() {
                    InvestmentError::NoSuchCircle
                } else if !sp_enrolled(old(self).members@[circle_id - 1]@, member_address) {
                    InvestmentError::NotMember
                } else if old(self).circles@[circle_id - 1].status != CircleStatus::Active {
                    InvestmentError::NotActive
                } else if now <= old(self).circles@[circle_id - 1].next_contribution_deadline {
                    InvestmentError::DeadlineNotPassed
                } else {
                    InvestmentError::MemberInactive
                },
                Ok(data) => {
                    let ci = circle_id - 1;
                    let c = old(self).circles@[ci];
                    exists|mi: int|
                        {
                            let m = old(self).members@[ci]@[mi];
                            &&& #[trigger] is_member_at(old(self).members@[ci]@, member_address, mi)
                            &&& m.is_active
                            &&& final(self).members@[ci]@ == old(self).members@[ci]@.update(
                                mi,
                                sp_after_missed(m, c.contribution_amount, c.current_period),
                            )
                            &&& data.amount == sp_missed_delta(
                                m,
                                c.contribution_amount,
                                c.current_period,
                            )
                            &&& data.missed_contributions == (if m.contributions_paid
                                < c.current_period {
                                c.current_period - m.contributions_paid
                            } else {
                                0int
                            })
                            &&& final(self).pools@ == old(self).pools@.update(
                                ci,
                                (old(self).pools@[ci] + data.amount) as u128,
                            )
                            &&& final(self).circles@ == old(self).circles@
                            &&& final(self).balance == old(self).balance
                        }
                },
            }),
    {
        let ci = match self.circle_idx(circle_id) {
            None => {
                return Err(InvestmentError::NoSuchCircle);
            },
            Some(ci) => ci,
        };
        let mi = match self.member_idx(ci, member_address) {
            None => {
                return Err(InvestmentError::NotMember);
            },
            Some(mi) => mi,
        };
        if !matches!(self.circles[ci].status, CircleStatus::Active) {
            return Err(InvestmentError::NotActive);
        }
        if now <= self.circles[ci].next_contribution_deadline {
            return Err(InvestmentError::DeadlineNotPassed);
        }
        let m = self.members[ci][mi];
        if !m.is_active {
            return Err(InvestmentError::MemberInactive);
        }
        let period = self.circles[ci].current_period;
        let amount = self.circles[ci].contribution_amount;
        if m.contributions_paid >= period {
            proof {
                crate::manager::lemma_remove_insert(
                    old(self).members@,
                    ci as int,
                    old(self).members@[ci as int],
                );
                assert(old(self).members@[ci as int]@.update(
                    mi as int,
                    sp_after_missed(m, amount, period),
                ) =~= old(self).members@[ci as int]@);
                assert(old(self).pools@.update(
                    ci as int,
                    (old(self).pools@[ci as int] + 0) as u128,
                ) =~= old(self).pools@);
            }
            return Ok(CollateralUsedEventData { amount: 0, missed_contributions: 0 });
        }
        let missed = period - m.contributions_paid;
        proof {
            assert(missed <= 52);
            vstd::arithmetic::mul::lemma_mul_inequality(missed as int, 52, amount as int);
            assert(amount as int * missed as int == missed as int * amount as int)
                by (nonlinear_arith);
            assert(amount as int * 52 == 52 * amount as int) by (nonlinear_arith);
        }
        let missed_amount = amount * (missed as u128);
        let available_collateral = m.collateral_deposited - m.collateral_used;
        let taken: u128;
        let m2: MemberInfo;
        if available_collateral >= missed_amount {
            taken = missed_amount;
            m2 = MemberInfo {
                collateral_used: m.collateral_used + missed_amount,
                contributions_paid: period,
                ..m
            };
        } else {
            taken = available_collateral;
            m2 = MemberInfo { collateral_used: m.collateral_deposited, is_active: false, ..m };
        }
        let mut ms = self.members.remove(ci);
        ms.set(mi, m2);
        self.members.insert(ci, ms);
        let pool = self.pools[ci];
        self.pools.set(ci, pool + taken);
        proof {
            crate::manager::lemma_remove_insert(
                old(self).members@,
                ci as int,
                self.members@[ci as int],
            );
        }
        Ok(CollateralUsedEventData { amount: taken, missed_contributions: missed })
    }

    /// A member claims its unlocked (or, after completion, all remaining)
    /// collateral; the returned amount is the payment the host must make.
    pub fn claim_collateral(&mut self, caller: u64, circle_id: u64) -> (r: Result<
        u128,
        InvestmentError,
    >)
        requires
            old(self).wf(),
        ensures
            final(self).wf(),
            r is Ok <==> 1 <= circle_id <= old(self).circles@.len() && exists|mi: int|
                {
                    &&& #[trigger] is_member_at(old(self).members@[circle_id - 1]@, caller, mi)
                    &&& sp_claimable(
                        old(self).circles@[circle_id - 1].status,
                        old(self).members@[circle_id - 1]@[mi],
                        old(self).claimed@[circle_id - 1]@[mi],
                    ) > 0
                    &&& old(self).balance >= sp_claimable(
                        old(self).circles@[circle_id - 1].status,
                        old(self).members@[circle_id - 1]@[mi],
                        old(self).claimed@[circle_id - 1]@[mi],
                    )
                },
            r is Err ==> *final(self) == *old(self),
            (match r {
                Err(e) => (e == InvestmentError::NoSuchCircle && (circle_id == 0 || circle_id
                    > old(self).circles@.len())) || (e == InvestmentError::NotMember
                    && !sp_enrolled(old(self).members@[circle_id - 1]@, caller)) || e
                    == InvestmentError::NothingToClaim,
                Ok(paid) => {
                    let ci = circle_id - 1;
                    exists|mi: int|
                        {
                            let m = old(self).members@[ci]@[mi];
                            let already = old(self).claimed@[ci]@[mi];
                            &&& #[trigger] is_member_at(old(self).members@[ci]@, caller, mi)
                            &&& paid == sp_claimable(old(self).circles@[ci].status, m, already)
                            &&& paid > 0
                            &&& old(self).balance >= paid
                            &&& final(self).claimed@[ci]@ == old(self).claimed@[ci]@.update(
                                mi,
                                (already + paid) as u128,
                            )
                            &&& final(self).balance == old(self).balance - paid
                            &&& final(self).members@ == old(self).members@
                            &&& final(self).circles@ == old(self).circles@
                        }
                },
            }),
    {
        let ci = match self.circle_idx(circle_id) {
            None => {
                return Err(InvestmentError::NoSuchCircle);
            },
            Some(ci) => ci,
        };
        let mi = match self.member_idx(ci, caller) {
            None => {
                return Err(InvestmentError::NotMember);
            },
            Some(mi) => mi,
        };
        let m = self.members[ci][mi];
        let already_claimed = self.claimed[ci][mi];
        let claimable: u128;
        if matches!(self.circles[ci].status, CircleStatus::Completed) {
            let base = m.collateral_deposited - m.collateral_used;
            if base < already_claimed {
                return Err(InvestmentError::NothingToClaim);
            }
            claimable = base - already_claimed;
        } else {
            if m.collateral_unlocked > already_claimed {
                claimable = m.collateral_unlocked - already_claimed;
            } else {
                claimable = 0;
            }
        }
        if claimable == 0 {
            return Err(InvestmentError::NothingToClaim);
        }
        if self.balance < claimable {
            return Err(InvestmentError::NothingToClaim);
        }
        let mut cl = self.claimed.remove(ci);
        cl.set(mi, already_claimed + claimable);
        self.claimed.insert(ci, cl);
        self.balance = self.balance - claimable;
        proof {
            crate::manager::lemma_remove_insert(
                old(self).claimed@,
                ci as int,
                self.claimed@[ci as int],
            );
        }
        Ok(claimable)
    }

    /// The circle's record, if it exists.
    pub fn get_circle_info(&self, circle_id: u64) -> (r: Option<&CircleInfo>)
        ensures
            match r {
                Some(c) => 1 <= circle_id <= self.circles@.len() && *c == self.circles@[circle_id
                    - 1],
                None => circle_id == 0 || circle_id > self.circles@.len(),
            },
    {
        match self.circle_idx(circle_id) {
            None => None,
            Some(ci) => Some(&self.circles[ci]),
        }
    }

    /// A member's record in a circle, if enrolled.
    pub fn get_member_info(&self, circle_id: u64, member: u64) -> (r: Option<MemberInfo>)
        requires
            self.wf(),
        ensures
            match r {
                Some(m) => 1 <= circle_id <= self.circles@.len() && exists|mi: int|
                    #[trigger] is_member_at(self.members@[circle_id - 1]@, member, mi) && m
                        == self.members@[circle_id - 1]@[mi],
                None => circle_id == 0 || circle_id > self.circles@.len() || !sp_enrolled(
                    self.members@[circle_id - 1]@,
                    member,
                ),
            },
    {
        match self.circle_idx(circle_id) {
            None => None,
            Some(ci) => match self.member_idx(ci, member) {
                None => None,
                Some(mi) => Some(self.members[ci][mi]),
            },
        }
    }

    /// Every circle the user belongs to, by id and ascending.
    #[verifier::loop_isolation(false)]
    pub fn get_user_circles(&self, user: u64) -> (r: Vec<u64>)
        requires
            self.wf(),
        ensures
            forall|a: int|
                0 <= a < r@.len() ==> 1 <= #[trigger] r@[a] && r@[a] <= self.circles@.len()
                    && sp_enrolled(self.members@[r@[a] - 1]@, user),
    {
        let n = self.circles.len();
        let mut r: Vec<u64> = Vec::new();
        let mut i: usize = 0;
        while i < n
            invariant
                i <= n,
                forall|a: int|
                    0 <= a < r@.len() ==> 1 <= #[trigger] r@[a] && r@[a] <= self.circles@.len()
                        && sp_enrolled(self.members@[r@[a] - 1]@, user),
            decreases n - i,
        {
            if self.member_idx(i, user).is_some() {
                r.push((i as u64) + 1);
            }
            i = i + 1;
        }
        r
    }

    /// The members of a circle, in join order.
    pub fn get_circle_members(&self, circle_idx: usize) -> (r: &Vec<MemberInfo>)
        requires
            circle_idx < self.members@.len(),
        ensures
            r@ == self.members@[circle_idx as int]@,
    {
        &self.members[circle_idx]
    }

    /// The collateral a joiner must deposit, when it fits the machine word.
    pub fn get_required_collateral(&self, circle_id: u64) -> (r: Option<u128>)
        requires
            circle_id >= 1 && circle_id <= self.circles@.len() ==> self.circles@[circle_id
                - 1].contribution_amount as int * self.circles@[circle_id
                - 1].total_contributions as int <= u128::MAX,
            circle_id >= 1 && circle_id <= self.circles@.len() ==> self.circles@[circle_id
                - 1].total_contributions >= 1,
        ensures
            match r {
                Some(v) => 1 <= circle_id <= self.circles@.len() && v
                    == Self::sp_required_collateral(self.circles@[circle_id - 1]),
                None => circle_id == 0 || circle_id > self.circles@.len(),
            },
    {
        match self.circle_idx(circle_id) {
            None => None,
            Some(ci) => {
                let amount = self.circles[ci].contribution_amount;
                let total = self.circles[ci].total_contributions;
                proof {
                    let a = amount as int;
                    let t = total as int;
                    vstd::arithmetic::mul::lemma_mul_inequality(1, t, a);
                    assert(a * t == t * a) by (nonlinear_arith);
                    assert(a * 1 == a) by (nonlinear_arith);
                }
                Some(amount * (total as u128))
            },
        }
    }

    /// The circle's current pot.
    pub fn get_pool_balance(&self, circle_idx: usize) -> (r: u128)
        requires
            circle_idx < self.pools@.len(),
        ensures
            r == self.pools@[circle_idx as int],
    {
        self.pools[circle_idx]
    }

    /// What a member could claim right now (zero for strangers).
    pub fn get_claimable_collateral(&self, circle_id: u64, member: u64) -> (r: u128)
        requires
            self.wf(),
        ensures
            1 <= circle_id <= self.circles@.len() && sp_enrolled(
                self.members@[circle_id - 1]@,
                member,
            ) ==> exists|mi: int|
                {
                    &&& #[trigger] is_member_at(self.members@[circle_id - 1]@, member, mi)
                    &&& ({
                        let v = sp_claimable(
                            self.circles@[circle_id - 1].status,
                            self.members@[circle_id - 1]@[mi],
                            self.claimed@[circle_id - 1]@[mi],
                        );
                        r == if v >= 0 {
                            v
                        } else {
                            0int
                        }
                    })
                },
            (circle_id == 0 || circle_id > self.circles@.len() || !sp_enrolled(
                self.members@[circle_id - 1]@,
                member,
            )) ==> r == 0,
    {
        let ci = match self.circle_idx(circle_id) {
            None => {
                return 0;
            },
            Some(ci) => ci,
        };
        let mi = match self.member_idx(ci, member) {
            None => {
                return 0;
            },
            Some(mi) => mi,
        };
        let m = self.members[ci][mi];
        let already_claimed = self.claimed[ci][mi];
        if matches!(self.circles[ci].status, CircleStatus::Completed) {
            let base = m.collateral_deposited - m.collateral_used;
            if base < already_claimed {
                0
            } else {
                base - already_claimed
            }
        } else if m.collateral_unlocked > already_claimed {
            m.collateral_unlocked - already_claimed
        } else {
            0
        }
    }

    /// How many circles exist.
    pub fn get_total_circles(&self) -> (r: u64)
        requires
            self.circles@.len() <= u64::MAX,
        ensures
            r == self.circles@.len(),
    {
        self.circles.len() as u64
    }

    /// Whether the circle could start right now with a fair split.
    pub fn can_start_circle(&self, circle_id: u64) -> (r: bool)
        ensures
            r == (1 <= circle_id <= self.circles@.len() && {
                let c = self.circles@[circle_id - 1];
                c.status == CircleStatus::Pending && c.current_members >= c.min_members
                    && c.current_members > 0 && c.total_contributions as int
                    % c.current_members as int == 0
            }),
    {
        match self.circle_idx(circle_id) {
            None => false,
            Some(ci) => {
                let c = &self.circles[ci];
                if c.current_members == 0 {
                    return false;
                }
                matches!(c.status, CircleStatus::Pending) && c.current_members >= c.min_members
                    && c.total_contributions % c.current_members == 0
            },
        }
    }

    /// How many payouts each member receives with the current membership.
    pub fn get_payouts_per_member(&self, circle_id: u64) -> (r: u64)
        ensures
            r == if 1 <= circle_id <= self.circles@.len() && self.circles@[circle_id
                - 1].current_members > 0 {
                self.circles@[circle_id - 1].total_contributions as int / self.circles@[circle_id
                    - 1].current_members as int
            } else {
                0int
            },
    {
        match self.circle_idx(circle_id) {
            None => 0,
            Some(ci) => {
                let c = &self.circles[ci];
                if c.current_members == 0 {
                    return 0;
                }
                c.total_contributions / c.current_members
            },
        }
    }

    /// Whether one more member would still allow a fair split.
    pub fn can_join_fairly(&self, circle_id: u64) -> (r: bool)
        requires
            circle_id >= 1 && circle_id <= self.circles@.len() ==> self.circles@[circle_id
                - 1].current_members < u64::MAX,
        ensures
            r == (1 <= circle_id <= self.circles@.len() && {
                let c = self.circles@[circle_id - 1];
                c.status == CircleStatus::Pending && c.current_members < c.max_members
                    && c.total_contributions as int % (c.current_members + 1) as int == 0
            }),
    {
        match self.circle_idx(circle_id) {
            None => false,
            Some(ci) => {
                let c = &self.circles[ci];
                if !matches!(c.status, CircleStatus::Pending) {
                    return false;
                }
                if c.current_members >= c.max_members {
                    return false;
                }
                c.total_contributions % (c.current_members + 1) == 0
            },
        }
    }

    /// The member receiving the pot of a given period (rotating order).
    pub fn get_period_recipient(&self, circle_idx: usize, period: u64) -> (r: Option<u64>)
        requires
            circle_idx < self.members@.len(),
            period >= 1,
        ensures
            match r {
                Some(a) => self.members@[circle_idx as int]@.len() > 0 && a
                    == self.members@[circle_idx as int]@[(period - 1) as int % self.members@[
                    circle_idx as int]@.len() as int].address,
                None => self.members@[circle_idx as int]@.len() == 0,
            },
    {
        let member_count = self.members[circle_idx].len();
        if member_count == 0 {
            return None;
        }
        let recipient_index = (((period - 1) as u64) % (member_count as u64)) as usize;
        Some(self.members[circle_idx][recipient_index].address)
    }
}



/// What settling a whole member list adds to the pot, in member order.
pub open spec fn sp_missed_total(ms: Seq<MemberInfo>, amount: u128, period: u64) -> int
    decreases ms.len(),
{
    if ms.len() == 0 {
        0
    } else {
        sp_missed_total(ms.drop_last(), amount, period) + sp_missed_delta(
            ms.last(),
            amount,
            period,
        )
    }
}

/// With collateral never overdrawn, every settlement adds a non-negative
/// amount, so a prefix never adds more than the whole list.
pub proof fn lemma_missed_total_take(ms: Seq<MemberInfo>, amount: u128, period: u64, k: int)
    requires
        0 <= k <= ms.len(),
        forall|a: int|
            0 <= a < ms.len() ==> (#[trigger] ms[a]).collateral_used
                <= ms[a].collateral_deposited,
    ensures
        0 <= sp_missed_total(ms.take(k), amount, period) <= sp_missed_total(ms, amount, period),
        sp_missed_total(ms.take(ms.len() as int), amount, period) == sp_missed_total(
            ms,
            amount,
            period,
        ),
    decreases ms.len() - k,
{
    if k == ms.len() {
        assert(ms.take(k) =~= ms);
        lemma_missed_total_nonneg(ms, amount, period);
    } else {
        lemma_missed_total_take(ms, amount, period, k + 1);
        assert(ms.take(k + 1).drop_last() =~= ms.take(k));
        assert(ms.take(k + 1).last() == ms[k]);
        lemma_missed_total_nonneg(ms.take(k), amount, period);
        assert(sp_missed_delta(ms[k], amount, period) >= 0) by {
            vstd::arithmetic::mul::lemma_mul_nonnegative(
                amount as int,
                if ms[k].contributions_paid < period {
                    period - ms[k].contributions_paid
                } else {
                    0
                },
            );
        }
    }
}

pub proof fn lemma_missed_total_nonneg(ms: Seq<MemberInfo>, amount: u128, period: u64)
    requires
        forall|a: int|
            0 <= a < ms.len() ==> (#[trigger] ms[a]).collateral_used
                <= ms[a].collateral_deposited,
    ensures
        sp_missed_total(ms, amount, period) >= 0,
    decreases ms.len(),
{
    if ms.len() > 0 {
        assert(forall|a: int|
            0 <= a < ms.drop_last().len() ==> (#[trigger] ms.drop_last()[a]).collateral_used
                <= ms.drop_last()[a].collateral_deposited);
        lemma_missed_total_nonneg(ms.drop_last(), amount, period);
        let m = ms.last();
        assert(sp_missed_delta(m, amount, period) >= 0) by {
            vstd::arithmetic::mul::lemma_mul_nonnegative(
                amount as int,
                if m.contributions_paid < period {
                    period - m.contributions_paid
                } else {
                    0
                },
            );
        }
    }
}

impl InvestmentCircle {
    /// Closes the current period: first every active member's missed
    /// contributions are settled from collateral, then the pot, minus the
    /// protocol fee, goes to the member whose turn it is, and the circle
    /// moves to its next period (or completes). The returned pair is the
    /// payout the host must perform, if the pot held anything.
    #[verifier::loop_isolation(false)]
    #[verifier::rlimit(60)]
    pub fn advance_period(&mut self, circle_id: u64, now: u64) -> (r: Result<
        Option<(u64, u128)>,
        InvestmentError,
    >)
        requires
            old(self).wf(),
            circle_id >= 1 && circle_id <= old(self).circles@.len() ==> {
                let ci = circle_id - 1;
                let c = old(self).circles@[ci];
                &&& c.current_period <= 52
                &&& c.contribution_amount as int * 52 <= u128::MAX
                &&& old(self).pools@[ci] + sp_missed_total(
                    old(self).members@[ci]@,
                    c.contribution_amount,
                    c.current_period,
                ) <= u128::MAX
                &&& (old(self).pools@[ci] + sp_missed_total(
                    old(self).members@[ci]@,
                    c.contribution_amount,
                    c.current_period,
                )) * 10_000 <= u128::MAX
                &&& old(self).collected_fees + old(self).pools@[ci] + sp_missed_total(
                    old(self).members@[ci]@,
                    c.contribution_amount,
                    c.current_period,
                ) <= u128::MAX
                &&& now + 7_776_000 <= u64::MAX
            },
        ensures
            final(self).wf(),
            r is Ok <==> 1 <= circle_id <= old(self).circles@.len() && ({
                let ci = circle_id - 1;
                let c = old(self).circles@[ci];
                let settled = old(self).pools@[ci] + sp_missed_total(
                    old(self).members@[ci]@,
                    c.contribution_amount,
                    c.current_period,
                );
                let fee = settled * (old(self).protocol_fee_percent as int) / 10_000;
                &&& c.status == CircleStatus::Active
                &&& now > c.next_contribution_deadline
                &&& (settled == 0 || (old(self).balance >= settled - fee && old(self).members@[ci]@.len() > 0))
            }),
            r is Err ==> *final(self) == *old(self),
            (match r {
                Err(e) => e == if circle_id == 0 || circle_id > old(self).circles@.len() {
                    InvestmentError::NoSuchCircle
                } else if old(self).circles@[circle_id - 1].status != CircleStatus::Active {
                    InvestmentError::NotActive
                } else if now <= old(self).circles@[circle_id - 1].next_contribution_deadline {
                    InvestmentError::DeadlineNotPassed
                } else {
                    InvestmentError::InsufficientBalance
                },
                Ok(payout) => {
                    let ci = circle_id - 1;
                    let c = old(self).circles@[ci];
                    let settled = (old(self).pools@[ci] + sp_missed_total(
                        old(self).members@[ci]@,
                        c.contribution_amount,
                        c.current_period,
                    )) as u128;
                    let fee = settled as int * (old(self).protocol_fee_percent as int) / 10_000;
                    &&& c.status == CircleStatus::Active
                    &&& now > c.next_contribution_deadline
                    &&& final(self).members@[ci]@.len() == old(self).members@[ci]@.len()
                    &&& forall|a: int|
                        0 <= a < old(self).members@[ci]@.len() ==> #[trigger] final(self).members@[ci]@[a] == sp_after_missed(
                            old(self).members@[ci]@[a],
                            c.contribution_amount,
                            c.current_period,
                        )
                    &&& final(self).pools@ == old(self).pools@.update(ci, 0u128)
                    &&& (match payout {
                        Some((recipient, amount_sent)) => {
                            &&& settled > 0
                            &&& amount_sent == settled - fee
                            &&& recipient == old(self).members@[ci]@[if c.current_period == 0 {
                                0int
                            } else {
                                (c.current_period - 1) as int % old(self).members@[ci]@.len() as int
                            }].address
                            &&& final(self).collected_fees == old(self).collected_fees + fee
                            &&& final(self).balance == old(self).balance - amount_sent
                        },
                        None => {
                            &&& settled == 0
                            &&& final(self).collected_fees == old(self).collected_fees
                            &&& final(self).balance == old(self).balance
                        },
                    })
                    &&& final(self).circles@ == old(self).circles@.update(
                        ci,
                        (CircleInfo {
                            current_period: (c.current_period + 1) as u64,
                            status: if c.current_period + 1 > c.total_contributions {
                                CircleStatus::Completed
                            } else {
                                CircleStatus::Active
                            },
                            next_contribution_deadline: if c.current_period + 1
                                > c.total_contributions {
                                c.next_contribution_deadline
                            } else {
                                (now + c.frequency.spec_seconds()) as u64
                            },
                            ..c
                        }),
                    )
                },
            }),
    {
        let ci = match self.circle_idx(circle_id) {
            None => {
                return Err(InvestmentError::NoSuchCircle);
            },
            Some(ci) => ci,
        };
        if !matches!(self.circles[ci].status, CircleStatus::Active) {
            return Err(InvestmentError::NotActive);
        }
        if now <= self.circles[ci].next_contribution_deadline {
            return Err(InvestmentError::DeadlineNotPassed);
        }
        let period = self.circles[ci].current_period;
        let amount = self.circles[ci].contribution_amount;
        let ghost cii = ci as int;
        let ghost mem0 = self.members@[cii]@;
        let n = self.members[ci].len();
        proof {
            assert(mem0.take(0) =~= Seq::<MemberInfo>::empty());
            assert forall|a: int|
                0 <= a < mem0.len() implies (#[trigger] mem0[a]).collateral_used
                <= mem0[a].collateral_deposited by {
                assert(old(self).members@[cii]@[a].collateral_used <= old(self).members@[cii]@[a].collateral_deposited);
            }
            lemma_missed_total_take(mem0, amount, period, 0);
        }
        // first pass, read-only: how much collateral the settlement will add
        let mut settled_extra: u128 = 0;
        let mut k: usize = 0;
        while k < n
            invariant
                k <= n,
                n == mem0.len(),
                settled_extra == sp_missed_total(mem0.take(k as int), amount, period),
            decreases n - k,
        {
            proof {
                lemma_missed_total_take(mem0, amount, period, k as int + 1);
                assert(mem0.take(k as int + 1).drop_last() =~= mem0.take(k as int));
                assert(mem0.take(k as int + 1).last() == mem0[k as int]);
            }
            let m = self.members[ci][k];
            if m.is_active && m.contributions_paid < period {
                let missed = period - m.contributions_paid;
                proof {
                    assert(missed <= 52);
                    vstd::arithmetic::mul::lemma_mul_inequality(
                        missed as int,
                        52,
                        amount as int,
                    );
                    assert(amount as int * missed as int == missed as int * amount as int)
                        by (nonlinear_arith);
                    assert(amount as int * 52 == 52 * amount as int) by (nonlinear_arith);
                }
                let missed_amount = amount * (missed as u128);
                let available = m.collateral_deposited - m.collateral_used;
                if available >= missed_amount {
                    settled_extra = settled_extra + missed_amount;
                } else {
                    settled_extra = settled_extra + available;
                }
            }
            k = k + 1;
        }
        proof {
            assert(mem0.take(n as int) =~= mem0);
            assert(settled_extra == sp_missed_total(mem0, amount, period));
        }
        let pool = self.pools[ci];
        let settled = pool + settled_extra;
        // reject before any mutation if the payout cannot be covered
        let payout: Option<(u64, u128)>;
        if settled > 0 {
            proof {
                vstd::arithmetic::mul::lemma_mul_inequality(
                    self.protocol_fee_percent as int,
                    10_000,
                    settled as int,
                );
                assert(settled as int * (self.protocol_fee_percent as int)
                    == (self.protocol_fee_percent as int) * settled as int)
                    by (nonlinear_arith);
                assert(settled as int * 10_000 == 10_000 * settled as int)
                    by (nonlinear_arith);
                crate::center::lemma_frac_le(
                    settled as int,
                    self.protocol_fee_percent as int,
                    10_000,
                );
            }
            let fee = settled * (self.protocol_fee_percent as u128) / 10_000;
            let amount_to_send = settled - fee;
            if self.balance < amount_to_send {
                return Err(InvestmentError::InsufficientBalance);
            }
            let member_len = self.members[ci].len();
            if member_len == 0 {
                return Err(InvestmentError::InsufficientBalance);
            }
            let recipient_index = if period == 0 {
                0
            } else {
                (((period - 1) as u64) % (member_len as u64)) as usize
            };
            let recipient = self.members[ci][recipient_index].address;
            self.collected_fees = self.collected_fees + fee;
            self.balance = self.balance - amount_to_send;
            payout = Some((recipient, amount_to_send));
        } else {
            payout = None;
        }
        // second pass: apply the settlement to every member
        let mut ms = self.members.remove(ci);
        let mut j: usize = 0;
        while j < n
            invariant
                j <= n,
                n == mem0.len(),
                ms@.len() == mem0.len(),
                forall|a: int|
                    0 <= a < j ==> #[trigger] ms@[a] == sp_after_missed(mem0[a], amount, period),
                forall|a: int| j <= a < n ==> #[trigger] ms@[a] == mem0[a],
                self.members@ == old(self).members@.remove(cii),
            decreases n - j,
        {
            let m = ms[j];
            if m.is_active && m.contributions_paid < period {
                let missed = period - m.contributions_paid;
                proof {
                    assert(missed <= 52);
                    vstd::arithmetic::mul::lemma_mul_inequality(
                        missed as int,
                        52,
                        amount as int,
                    );
                    assert(amount as int * missed as int == missed as int * amount as int)
                        by (nonlinear_arith);
                    assert(amount as int * 52 == 52 * amount as int) by (nonlinear_arith);
                }
                let missed_amount = amount * (missed as u128);
                let available = m.collateral_deposited - m.collateral_used;
                if available >= missed_amount {
                    let m2 = MemberInfo {
                        collateral_used: m.collateral_used + missed_amount,
                        contributions_paid: period,
                        ..m
                    };
                    ms.set(j, m2);
                } else {
                    let m2 = MemberInfo {
                        collateral_used: m.collateral_deposited,
                        is_active: false,
                        ..m
                    };
                    ms.set(j, m2);
                }
            }
            j = j + 1;
        }
        self.members.insert(ci, ms);
        self.pools.set(ci, 0);
        proof {
            crate::manager::lemma_remove_insert(old(self).members@, cii, self.members@[cii]);
            assert forall|i: int, a: int, b: int|
                #![trigger self.members@[i]@[a], self.members@[i]@[b]]
                0 <= i < self.circles@.len() && 0 <= a < b
                    < self.members@[i]@.len() implies self.members@[i]@[a].address
                != self.members@[i]@[b].address by {
                if i == cii {
                    assert(self.members@[cii]@[a].address == mem0[a].address);
                    assert(self.members@[cii]@[b].address == mem0[b].address);
                    assert(old(self).members@[cii]@[a].address != old(self).members@[cii]@[b].address);
                } else {
                    assert(old(self).members@[i]@[a].address != old(self).members@[i]@[b].address);
                }
            }
            assert forall|i: int, a: int|
                #![trigger self.members@[i]@[a].collateral_used]
                0 <= i < self.circles@.len() && 0 <= a
                    < self.members@[i]@.len() implies self.members@[i]@[a].collateral_used
                <= self.members@[i]@[a].collateral_deposited by {
                if i == cii {
                    assert(self.members@[cii]@[a] == sp_after_missed(mem0[a], amount, period));
                    assert(mem0[a].collateral_used <= mem0[a].collateral_deposited);
                } else {
                    assert(old(self).members@[i]@[a].collateral_used <= old(self).members@[i]@[a].collateral_used || old(self).members@[i]@[a].collateral_used <= old(self).members@[i]@[a].collateral_deposited);
                }
            }
        }
        let mut c = self.circles.remove(ci);
        c.current_period = c.current_period + 1;
        if c.current_period > c.total_contributions {
            c.status = CircleStatus::Completed;
        } else {
            let period_duration = c.frequency.to_seconds();
            c.next_contribution_deadline = now + period_duration;
        }
        self.circles.insert(ci, c);
        proof {
            crate::manager::lemma_remove_insert(old(self).circles@, cii, self.circles@[cii]);
        }
        Ok(payout)
    }
}

} // verus!
