//! The distribution router: every inbound payment is split into a treasury
//! share that stays in the center, a DAO share that is sent away at once, and
//! a liquidity share that accumulates for the operator-driven pipeline.

use vstd::prelude::*;

use crate::center::{
    dep_keys_distinct, deposits_of, lemma_deposits_of_absent, lemma_deposits_of_at,
    lemma_share_bounds, sp_dao_share, sp_is_member, sp_liquidity_share, sp_treasury_share,
    CenterError, CircleOfLifeCenter, MemberDeposit, BPS_BASE, DAO_BPS, LIQUIDITY_BPS, TREASURY_BPS,
};

verus! {

/// With distinct keys, overwriting one entry's amount changes that member's
/// recorded deposits and nobody else's.
pub proof fn lemma_deposits_of_update(d: Seq<MemberDeposit>, i: int, a: u128)
    requires
        dep_keys_distinct(d),
        0 <= i < d.len(),
    ensures
        deposits_of(d.update(i, (MemberDeposit { member: d[i].member, amount: a })), d[i].member)
            == a,
        forall|m: u64|
            m != d[i].member ==> deposits_of(
                d.update(i, (MemberDeposit { member: d[i].member, amount: a })),
                m,
            ) == deposits_of(d, m),
        dep_keys_distinct(d.update(i, (MemberDeposit { member: d[i].member, amount: a }))),
    decreases d.len(),
{
    let d2 = d.update(i, (MemberDeposit { member: d[i].member, amount: a }));
    if i == d.len() - 1 {
        assert(d2.drop_last() =~= d.drop_last());
        assert forall|m: u64| m != d[i].member implies deposits_of(d2, m) == deposits_of(
            d,
            m,
        ) by {
            assert(deposits_of(d2, m) == deposits_of(d2.drop_last(), m));
            assert(deposits_of(d, m) == deposits_of(d.drop_last(), m));
        }
    } else {
        assert(dep_keys_distinct(d.drop_last()));
        assert(d.drop_last()[i] == d[i]);
        lemma_deposits_of_update(d.drop_last(), i, a);
        let e2 = d.drop_last().update(i, (MemberDeposit { member: d[i].member, amount: a }));
        assert(d2.drop_last() =~= e2);
        assert(d2.last() == d.last());
        assert(d.last().member != d[i].member);
        assert(deposits_of(d2, d[i].member) == deposits_of(e2, d[i].member));
        assert forall|m: u64| m != d[i].member implies deposits_of(d2, m) == deposits_of(
            d,
            m,
        ) by {
            if m == d.last().member {
                assert(deposits_of(d2, m) == d2.last().amount);
                assert(deposits_of(d, m) == d.last().amount);
            } else {
                assert(deposits_of(d2, m) == deposits_of(e2, m));
                assert(deposits_of(d, m) == deposits_of(d.drop_last(), m));
            }
        }
    }
}

impl CircleOfLifeCenter {
    /// Records `payment` more lifetime deposits for `member`.
    fn add_member_deposit(&mut self, member: u64, payment: u128) -> (r: ())
        requires
            dep_keys_distinct(old(self).deposits@),
            deposits_of(old(self).deposits@, member) + payment <= u128::MAX,
        ensures
            dep_keys_distinct(final(self).deposits@),
            deposits_of(final(self).deposits@, member) == deposits_of(old(self).deposits@, member)
                + payment,
            forall|m: u64|
                m != member ==> deposits_of(final(self).deposits@, m) == deposits_of(
                    old(self).deposits@,
                    m,
                ),
            *final(self) == (CircleOfLifeCenter { deposits: final(self).deposits, ..*old(self) }),
    {
        let n = self.deposits.len();
        let mut j: usize = 0;
        while j < n
            invariant
                j <= n,
                n == self.deposits@.len(),
                *self == *old(self),
                dep_keys_distinct(self.deposits@),
                deposits_of(old(self).deposits@, member) + payment <= u128::MAX,
                forall|i: int| 0 <= i < j ==> (#[trigger] self.deposits@[i]).member != member,
            decreases n - j,
        {
            if self.deposits[j].member == member {
                proof {
                    lemma_deposits_of_at(self.deposits@, j as int);
                    lemma_deposits_of_update(self.deposits@, j as int, (self.deposits@[j as int].amount + payment) as u128);
                }
                let new_amount = self.deposits[j].amount + payment;
                self.deposits.set(j, MemberDeposit { member, amount: new_amount });
                assert(self.deposits@ =~= old(self).deposits@.update(
                    j as int,
                    (MemberDeposit { member: old(self).deposits@[j as int].member, amount: (old(self).deposits@[j as int].amount + payment) as u128 }),
                ));
                return ;
            }
            j = j + 1;
        }
        proof {
            lemma_deposits_of_absent(self.deposits@, member);
        }
        self.deposits.push(MemberDeposit { member, amount: payment });
        proof {
            assert(self.deposits@.drop_last() =~= old(self).deposits@);
            assert forall|m: u64| m != member implies deposits_of(self.deposits@, m)
                == deposits_of(old(self).deposits@, m) by {
                assert(self.deposits@.drop_last() =~= old(self).deposits@);
            }
        }
    }

    /// The three-way split of an inbound payment:
    /// treasury, then 70% / 30% of the remainder for liquidity and the DAO.
    pub fn calculate_distribution(&self, total: u128) -> (r: (u128, u128, u128))
        requires
            total as int * (BPS_BASE as int) <= u128::MAX,
        ensures
            r.0 == sp_treasury_share(total as int),
            r.1 == sp_liquidity_share(total as int),
            r.2 == sp_dao_share(total as int),
            r.0 + r.1 + r.2 <= total,
    {
        proof {
            lemma_share_bounds(total as int);
            let rem = total as int - sp_treasury_share(total as int);
            assert(rem * (LIQUIDITY_BPS as int) <= total as int * (BPS_BASE as int))
                by (nonlinear_arith)
                requires
                    0 <= rem <= total as int,
            ;
            assert(rem * (DAO_BPS as int) <= total as int * (BPS_BASE as int)) by (nonlinear_arith)
                requires
                    0 <= rem <= total as int,
            ;
        }
        let treasury = total * (TREASURY_BPS as u128) / (BPS_BASE as u128);
        let remaining = total - treasury;
        let liquidity = remaining * (LIQUIDITY_BPS as u128) / (BPS_BASE as u128);
        let dao = remaining * (DAO_BPS as u128) / (BPS_BASE as u128);
        (treasury, liquidity, dao)
    }

    /// Tracks the treasury share, which simply stays in the center's balance.
    fn process_treasury_distribution(&mut self, amount: u128)
        requires
            old(self).total_distributed_treasury + amount <= u128::MAX,
        ensures
            *final(self) == (CircleOfLifeCenter {
                total_distributed_treasury: (old(self).total_distributed_treasury + amount) as u128,
                ..*old(self)
            }),
    {
        if amount == 0 {
            return ;
        }
        self.total_distributed_treasury = self.total_distributed_treasury + amount;
    }

    /// Sends the DAO share away as a direct value transfer, when a DAO
    /// account is configured; otherwise the share stays in the balance.
    fn send_to_dao(&mut self, amount: u128)
        requires
            old(self).total_distributed_dao + amount <= u128::MAX,
            old(self).egld_balance >= amount,
        ensures
            *final(self) == if old(self).dao_contract is Some {
                (CircleOfLifeCenter {
                    total_distributed_dao: (old(self).total_distributed_dao + amount) as u128,
                    egld_balance: (old(self).egld_balance - amount) as u128,
                    ..*old(self)
                })
            } else {
                *old(self)
            },
    {
        if amount == 0 {
            return ;
        }
        if self.dao_contract.is_none() {
            return ;
        }
        self.egld_balance = self.egld_balance - amount;
        self.total_distributed_dao = self.total_distributed_dao + amount;
    }

    /// Accumulates the liquidity share for the manually driven pipeline.
    fn accumulate_for_liquidity(&mut self, amount: u128)
        requires
            old(self).pending_liquidity_egld + amount <= u128::MAX,
            old(self).total_distributed_liquidity + amount <= u128::MAX,
        ensures
            *final(self) == (CircleOfLifeCenter {
                pending_liquidity_egld: (old(self).pending_liquidity_egld + amount) as u128,
                total_distributed_liquidity: (old(self).total_distributed_liquidity
                    + amount) as u128,
                ..*old(self)
            }),
    {
        if amount == 0 {
            return ;
        }
        self.pending_liquidity_egld = self.pending_liquidity_egld + amount;
        self.total_distributed_liquidity = self.total_distributed_liquidity + amount;
    }

    /// Splits one inbound payment that has already been credited to the
    /// balance. Does nothing while distribution is disabled.
    pub fn process_egld_distribution(&mut self, payment: u128)
        requires
            old(self).sp_split_headroom(payment),
            old(self).egld_balance >= payment,
        ensures
            *final(self) == old(self).sp_after_distribution(payment),
    {
        if !self.distribution_enabled {
            return ;
        }
        proof {
            lemma_share_bounds(payment as int);
        }
        let (treasury, liquidity, dao) = self.calculate_distribution(payment);
        self.process_treasury_distribution(treasury);
        self.send_to_dao(dao);
        self.accumulate_for_liquidity(liquidity);
    }
}

/// The reasons a member deposit rejects.
pub open spec fn sp_deposit_err(s: CircleOfLifeCenter, caller: u64) -> Option<CenterError> {
    if !sp_is_member(s.participants@, caller) {
        Some(CenterError::NotMember)
    } else {
        None
    }
}

impl CircleOfLifeCenter {
    /// A member pays native value in: the payment is split like every inbound
    /// payment and counted toward the member's deposit bonus.
    pub fn deposit(&mut self, caller: u64, payment: u128) -> (r: Result<(), CenterError>)
        requires
            old(self).wf(),
            old(self).sp_pay_headroom(payment),
            old(self).total_egld_deposits + payment <= u128::MAX,
            deposits_of(old(self).deposits@, caller) + payment <= u128::MAX,
        ensures
            final(self).wf(),
            r is Err ==> *final(self) == *old(self),
            (match r {
                Err(e) => Some(e) == sp_deposit_err(*old(self), caller),
                Ok(()) => sp_deposit_err(*old(self), caller) is None,
            }),
            r is Ok ==> {
                let credited = (CircleOfLifeCenter {
                    egld_balance: (old(self).egld_balance + payment) as u128,
                    ..*old(self)
                });
                let split = credited.sp_after_distribution(payment);
                &&& *final(self) == (CircleOfLifeCenter {
                    deposits: final(self).deposits,
                    total_egld_deposits: (old(self).total_egld_deposits + payment) as u128,
                    ..split
                })
                &&& deposits_of(final(self).deposits@, caller) == deposits_of(
                    old(self).deposits@,
                    caller,
                ) + payment
                &&& forall|m: u64|
                    m != caller ==> deposits_of(final(self).deposits@, m) == deposits_of(
                        old(self).deposits@,
                        m,
                    )
            },
    {
        if self.find_member_sc(caller).is_none() {
            return Err(CenterError::NotMember);
        }
        self.egld_balance = self.egld_balance + payment;
        self.process_egld_distribution(payment);
        proof {
            lemma_share_bounds(payment as int);
        }
        self.add_member_deposit(caller, payment);
        self.total_egld_deposits = self.total_egld_deposits + payment;
        Ok(())
    }

    /// Owner-triggered split of value already sitting in the center, keeping
    /// the circulating amount aside.
    pub fn distribute_existing_egld(&mut self, caller: u64, amount: u128) -> (r: Result<
        (),
        CenterError,
    >)
        requires
            old(self).sp_split_headroom(amount),
        ensures
            r is Err ==> *final(self) == *old(self),
            r is Ok <==> {
                let avail = if old(self).egld_balance > old(self).circulation_amount {
                    old(self).egld_balance - old(self).circulation_amount
                } else {
                    0
                };
                caller == old(self).owner && old(self).distribution_enabled && old(self).dao_contract is Some && amount <= avail && amount > 0
            },
            r is Ok ==> *final(self) == old(self).sp_after_distribution(amount),
            (match r {
                Ok(()) => true,
                Err(e) => {
                    let avail = if old(self).egld_balance > old(self).circulation_amount {
                        old(self).egld_balance - old(self).circulation_amount
                    } else {
                        0
                    };
                    e == if caller != old(self).owner {
                        CenterError::OwnerOnly
                    } else if !old(self).distribution_enabled {
                        CenterError::DistributionDisabled
                    } else if old(self).dao_contract is None {
                        CenterError::DaoNotSet
                    } else if amount > avail {
                        CenterError::AmountTooLarge
                    } else {
                        CenterError::ZeroAmount
                    }
                },
            }),
    {
        self.require_owner(caller)?;
        if !self.distribution_enabled {
            return Err(CenterError::DistributionDisabled);
        }
        if self.dao_contract.is_none() {
            return Err(CenterError::DaoNotSet);
        }
        let available = if self.egld_balance > self.circulation_amount {
            self.egld_balance - self.circulation_amount
        } else {
            0
        };
        if amount > available {
            return Err(CenterError::AmountTooLarge);
        }
        if amount == 0 {
            return Err(CenterError::ZeroAmount);
        }
        proof {
            lemma_share_bounds(amount as int);
        }
        self.process_egld_distribution(amount);
        Ok(())
    }
}


// ───────────────────── the four-step liquidity pipeline ─────────────────────

/// An outward call the liquidity pipeline asks the host to perform. Each
/// step is driven by an explicit operator call and resumed by its completion
/// event, so a crash leaves the `processing_in_progress` flag for recovery.
#[derive(Clone, Copy, PartialEq, Eq, Structural, Debug)]
pub enum LiquidityAction {
    /// Wrap this much native value into the wrapped token.
    WrapEgld { amount: u128 },
    /// Swap this much wrapped token for the protocol token.
    SwapTokens { amount_in: u128 },
    /// Provide both amounts as liquidity at the swap venue.
    AddLiquidity { xcirclex: u128, wegld: u128 },
    /// Lock this many liquidity tokens at the vault.
    LockTokens { amount: u128, duration_days: u64 },
    /// Ask the vault to release a lock.
    UnlockTokens { lock_id: u64 },
}

/// Days the pipeline locks liquidity tokens for.
pub const LP_LOCK_DURATION_DAYS: u64 = 365;

impl CircleOfLifeCenter {
    /// Whether every account and token the pipeline calls is configured.
    pub open spec fn sp_pipeline_configured(self) -> bool {
        &&& self.wegld_contract is Some
        &&& self.xexchange_pair is Some
        &&& self.wegld_token is Some
        &&& self.xcirclex_token is Some
        &&& self.lp_locker is Some
    }

    /// When step one can run: a liquidity share waits, no step is in flight,
    /// the circulating amount stays covered, and the pipeline is configured.
    pub open spec fn sp_can_process_liquidity(self) -> bool {
        &&& self.pending_liquidity_egld > 0
        &&& !self.processing_in_progress
        &&& self.egld_balance >= self.pending_liquidity_egld + self.circulation_amount
        &&& self.sp_pipeline_configured()
    }

    /// When step two can run: the tokens it trades are configured and there
    /// is wrapped balance to swap.
    pub open spec fn sp_can_swap(self) -> bool {
        &&& self.wegld_token is Some
        &&& self.xexchange_pair is Some
        &&& self.xcirclex_token is Some
        &&& self.lp_locker is Some
        &&& self.wegld_balance > 0
    }

    /// When step three can run: fully configured, with both sides on hand.
    pub open spec fn sp_can_add_liquidity(self) -> bool {
        &&& self.wegld_token is Some
        &&& self.xcirclex_token is Some
        &&& self.xexchange_pair is Some
        &&& self.lp_locker is Some
        &&& self.lp_token is Some
        &&& self.wegld_balance > 0
        &&& self.xcirclex_balance > 0
    }

    /// When step four can run: the lock targets are configured and there are
    /// liquidity tokens to lock.
    pub open spec fn sp_can_lock(self) -> bool {
        &&& self.lp_token is Some
        &&& self.lp_locker is Some
        &&& self.lp_balance > 0
    }

    /// Whether every account and token the pipeline calls is configured.
    pub fn pipeline_configured(&self) -> (r: bool)
        ensures
            r == (self.wegld_contract is Some && self.xexchange_pair is Some
                && self.wegld_token is Some && self.xcirclex_token is Some
                && self.lp_locker is Some),
    {
        self.wegld_contract.is_some() && self.xexchange_pair.is_some()
            && self.wegld_token.is_some() && self.xcirclex_token.is_some()
            && self.lp_locker.is_some()
    }

    /// Step one of the pipeline: takes the accumulated liquidity share out of
    /// the balance and asks the host to wrap it. The circulating amount must
    /// stay available.
    fn do_process_liquidity(&mut self) -> (r: Result<LiquidityAction, CenterError>)
        ensures
            r is Ok <==> old(self).sp_can_process_liquidity(),
            r is Err ==> *final(self) == *old(self),
            (match r {
                Err(e) => e == if old(self).pending_liquidity_egld == 0 {
                    CenterError::NoPendingLiquidity
                } else if old(self).processing_in_progress {
                    CenterError::ProcessingInProgress
                } else if old(self).egld_balance < old(self).pending_liquidity_egld + old(self).circulation_amount {
                    CenterError::InsufficientBalance
                } else {
                    CenterError::ConfigMissing
                },
                Ok(a) => {
                    let pending = old(self).pending_liquidity_egld;
                    &&& pending > 0
                    &&& !old(self).processing_in_progress
                    &&& old(self).egld_balance >= pending + old(self).circulation_amount
                    &&& old(self).wegld_contract is Some && old(self).xexchange_pair is Some
                        && old(self).wegld_token is Some && old(self).xcirclex_token is Some
                        && old(self).lp_locker is Some
                    &&& a == (LiquidityAction::WrapEgld { amount: pending })
                    &&& *final(self) == (CircleOfLifeCenter {
                        processing_in_progress: true,
                        pending_liquidity_egld: 0,
                        pending_wegld_for_swap: (pending / 2) as u128,
                        pending_wegld_for_lp: (pending - pending / 2) as u128,
                        egld_balance: (old(self).egld_balance - pending) as u128,
                        ..*old(self)
                    })
                },
            }),
    {
        let pending = self.pending_liquidity_egld;
        if pending == 0 {
            return Err(CenterError::NoPendingLiquidity);
        }
        if self.processing_in_progress {
            return Err(CenterError::ProcessingInProgress);
        }
        if self.egld_balance < pending || self.egld_balance - pending < self.circulation_amount {
            return Err(CenterError::InsufficientBalance);
        }
        if !self.pipeline_configured() {
            return Err(CenterError::ConfigMissing);
        }
        self.processing_in_progress = true;
        let half = pending / 2;
        let other_half = pending - half;
        self.pending_liquidity_egld = 0;
        self.pending_wegld_for_swap = half;
        self.pending_wegld_for_lp = other_half;
        self.egld_balance = self.egld_balance - pending;
        Ok(LiquidityAction::WrapEgld { amount: pending })
    }

    /// Operator entry for step one (owner only).
    pub fn liquidity_step1_wrap_egld(&mut self, caller: u64) -> (r: Result<
        LiquidityAction,
        CenterError,
    >)
        ensures
            r is Ok <==> caller == old(self).owner && old(self).sp_can_process_liquidity(),
            r is Err ==> *final(self) == *old(self),
            caller != old(self).owner ==> r == Result::<LiquidityAction, CenterError>::Err(
                CenterError::OwnerOnly,
            ),
            (match r {
                Err(_) => true,
                Ok(a) => caller == old(self).owner && a == (LiquidityAction::WrapEgld {
                    amount: old(self).pending_liquidity_egld,
                }) && *final(self) == (CircleOfLifeCenter {
                    processing_in_progress: true,
                    pending_liquidity_egld: 0,
                    pending_wegld_for_swap: (old(self).pending_liquidity_egld / 2) as u128,
                    pending_wegld_for_lp: (old(self).pending_liquidity_egld - old(self).pending_liquidity_egld / 2) as u128,
                    egld_balance: (old(self).egld_balance - old(self).pending_liquidity_egld) as u128,
                    ..*old(self)
                }),
            }),
    {
        self.require_owner(caller)?;
        self.do_process_liquidity()
    }

    /// Superseded operator entry kept for compatibility: same as step one.
    pub fn process_liquidity(&mut self, caller: u64) -> (r: Result<LiquidityAction, CenterError>)
        ensures
            r is Ok <==> caller == old(self).owner && old(self).sp_can_process_liquidity(),
            r is Err ==> *final(self) == *old(self),
            caller != old(self).owner ==> r == Result::<LiquidityAction, CenterError>::Err(
                CenterError::OwnerOnly,
            ),
            r is Ok ==> caller == old(self).owner && *final(self) == (CircleOfLifeCenter {
                processing_in_progress: true,
                pending_liquidity_egld: 0,
                pending_wegld_for_swap: (old(self).pending_liquidity_egld / 2) as u128,
                pending_wegld_for_lp: (old(self).pending_liquidity_egld - old(self).pending_liquidity_egld / 2) as u128,
                egld_balance: (old(self).egld_balance - old(self).pending_liquidity_egld) as u128,
                ..*old(self)
            }),
    {
        self.require_owner(caller)?;
        self.do_process_liquidity()
    }

    /// Completion event of the wrap. On success the wrapped tokens are in the
    /// center's account; on failure the host returns the native value.
    pub fn wrap_egld_callback(&mut self, success: bool) -> (r: ())
        requires
            old(self).wegld_balance + old(self).pending_wegld_for_swap + old(self).pending_wegld_for_lp <= u128::MAX,
            old(self).egld_balance + old(self).pending_wegld_for_swap + old(self).pending_wegld_for_lp <= u128::MAX,
        ensures
            success ==> *final(self) == (CircleOfLifeCenter {
                wegld_balance: (old(self).wegld_balance + old(self).pending_wegld_for_swap + old(self).pending_wegld_for_lp) as u128,
                processing_in_progress: false,
                ..*old(self)
            }),
            !success ==> *final(self) == (CircleOfLifeCenter {
                egld_balance: (old(self).egld_balance + old(self).pending_wegld_for_swap + old(self).pending_wegld_for_lp) as u128,
                processing_in_progress: false,
                ..*old(self)
            }),
    {
        let total = self.pending_wegld_for_swap + self.pending_wegld_for_lp;
        if success {
            self.wegld_balance = self.wegld_balance + total;
            self.processing_in_progress = false;
        } else {
            self.egld_balance = self.egld_balance + total;
            self.cleanup_failed_processing();
        }
    }

    /// Step two: swap half of the wrapped-token balance for protocol tokens.
    pub fn liquidity_step2_swap(&mut self, caller: u64) -> (r: Result<
        LiquidityAction,
        CenterError,
    >)
        ensures
            r is Ok <==> caller == old(self).owner && old(self).sp_can_swap(),
            r is Err ==> *final(self) == *old(self),
            (match r {
                Err(e) => e == if caller != old(self).owner {
                    CenterError::OwnerOnly
                } else if !(old(self).wegld_token is Some && old(self).xexchange_pair is Some
                    && old(self).xcirclex_token is Some && old(self).lp_locker is Some) {
                    CenterError::ConfigMissing
                } else {
                    CenterError::NoTokenBalance
                },
                Ok(a) => {
                    let half = old(self).wegld_balance / 2;
                    &&& caller == old(self).owner
                    &&& old(self).wegld_balance > 0
                    &&& a == (LiquidityAction::SwapTokens { amount_in: half as u128 })
                    &&& *final(self) == (CircleOfLifeCenter {
                        processing_in_progress: true,
                        pending_wegld_for_swap: half as u128,
                        pending_wegld_for_lp: (old(self).wegld_balance - half) as u128,
                        wegld_balance: (old(self).wegld_balance - half) as u128,
                        ..*old(self)
                    })
                },
            }),
    {
        self.require_owner(caller)?;
        if self.wegld_token.is_none() || self.xexchange_pair.is_none()
            || self.xcirclex_token.is_none() || self.lp_locker.is_none() {
            return Err(CenterError::ConfigMissing);
        }
        if self.wegld_balance == 0 {
            return Err(CenterError::NoTokenBalance);
        }
        self.processing_in_progress = true;
        let half = self.wegld_balance / 2;
        let other_half = self.wegld_balance - half;
        self.pending_wegld_for_swap = half;
        self.pending_wegld_for_lp = other_half;
        self.wegld_balance = other_half;
        Ok(LiquidityAction::SwapTokens { amount_in: half })
    }

    /// Completion event of the swap: `received` protocol tokens arrived (what
    /// a swap returns depends on the venue, so it is an input here). On
    /// failure the wrapped tokens come back.
    pub fn swap_xcirclex_callback(&mut self, success: bool, received: u128) -> (r: ())
        requires
            old(self).xcirclex_balance + received <= u128::MAX,
            old(self).wegld_balance + old(self).pending_wegld_for_swap <= u128::MAX,
        ensures
            success ==> *final(self) == (CircleOfLifeCenter {
                xcirclex_balance: (old(self).xcirclex_balance + received) as u128,
                pending_xcirclex_for_lp: (old(self).xcirclex_balance + received) as u128,
                processing_in_progress: false,
                ..*old(self)
            }),
            !success ==> *final(self) == (CircleOfLifeCenter {
                wegld_balance: (old(self).wegld_balance + old(self).pending_wegld_for_swap) as u128,
                processing_in_progress: false,
                ..*old(self)
            }),
    {
        if success {
            self.xcirclex_balance = self.xcirclex_balance + received;
            self.pending_xcirclex_for_lp = self.xcirclex_balance;
            self.processing_in_progress = false;
        } else {
            self.wegld_balance = self.wegld_balance + self.pending_wegld_for_swap;
            self.cleanup_failed_processing();
        }
    }

    /// Step three: provide the whole wrapped and protocol balances as
    /// liquidity.
    pub fn liquidity_step3_add_liquidity(&mut self, caller: u64) -> (r: Result<
        LiquidityAction,
        CenterError,
    >)
        ensures
            r is Ok <==> caller == old(self).owner && old(self).sp_can_add_liquidity(),
            r is Err ==> *final(self) == *old(self),
            (match r {
                Err(e) => e == if caller != old(self).owner {
                    CenterError::OwnerOnly
                } else if !(old(self).wegld_token is Some && old(self).xcirclex_token is Some
                    && old(self).xexchange_pair is Some && old(self).lp_locker is Some && old(self).lp_token is Some) {
                    CenterError::ConfigMissing
                } else {
                    CenterError::NoTokenBalance
                },
                Ok(a) => {
                    &&& caller == old(self).owner
                    &&& old(self).wegld_balance > 0 && old(self).xcirclex_balance > 0
                    &&& a == (LiquidityAction::AddLiquidity {
                        xcirclex: old(self).xcirclex_balance,
                        wegld: old(self).wegld_balance,
                    })
                    &&& *final(self) == (CircleOfLifeCenter {
                        processing_in_progress: true,
                        pending_xcirclex_for_lp: old(self).xcirclex_balance,
                        pending_wegld_for_lp: old(self).wegld_balance,
                        xcirclex_balance: 0,
                        wegld_balance: 0,
                        ..*old(self)
                    })
                },
            }),
    {
        self.require_owner(caller)?;
        if self.wegld_token.is_none() || self.xcirclex_token.is_none()
            || self.xexchange_pair.is_none() || self.lp_locker.is_none()
            || self.lp_token.is_none() {
            return Err(CenterError::ConfigMissing);
        }
        if self.wegld_balance == 0 || self.xcirclex_balance == 0 {
            return Err(CenterError::NoTokenBalance);
        }
        self.processing_in_progress = true;
        let xcirclex = self.xcirclex_balance;
        let wegld = self.wegld_balance;
        self.pending_xcirclex_for_lp = xcirclex;
        self.pending_wegld_for_lp = wegld;
        self.xcirclex_balance = 0;
        self.wegld_balance = 0;
        Ok(LiquidityAction::AddLiquidity { xcirclex, wegld })
    }

    /// Completion event of the liquidity provision: `lp_received` liquidity
    /// tokens arrived. On failure both payments come back.
    pub fn add_liquidity_callback(&mut self, success: bool, lp_received: u128) -> (r: ())
        requires
            old(self).lp_balance + lp_received <= u128::MAX,
            old(self).xcirclex_balance + old(self).pending_xcirclex_for_lp <= u128::MAX,
            old(self).wegld_balance + old(self).pending_wegld_for_lp <= u128::MAX,
        ensures
            success ==> *final(self) == (CircleOfLifeCenter {
                lp_balance: (old(self).lp_balance + lp_received) as u128,
                pending_lp_tokens: (old(self).lp_balance + lp_received) as u128,
                pending_wegld_for_swap: 0,
                pending_wegld_for_lp: 0,
                pending_xcirclex_for_lp: 0,
                processing_in_progress: false,
                ..*old(self)
            }),
            !success ==> *final(self) == (CircleOfLifeCenter {
                xcirclex_balance: (old(self).xcirclex_balance + old(self).pending_xcirclex_for_lp) as u128,
                wegld_balance: (old(self).wegld_balance + old(self).pending_wegld_for_lp) as u128,
                processing_in_progress: false,
                ..*old(self)
            }),
    {
        if success {
            self.lp_balance = self.lp_balance + lp_received;
            self.pending_lp_tokens = self.lp_balance;
            self.cleanup_processing();
        } else {
            self.xcirclex_balance = self.xcirclex_balance + self.pending_xcirclex_for_lp;
            self.wegld_balance = self.wegld_balance + self.pending_wegld_for_lp;
            self.cleanup_failed_processing();
        }
    }

    /// Step four: lock the whole liquidity-token balance at the vault for a
    /// year.
    pub fn liquidity_step4_lock_lp(&mut self, caller: u64) -> (r: Result<
        LiquidityAction,
        CenterError,
    >)
        ensures
            r is Ok <==> caller == old(self).owner && old(self).sp_can_lock(),
            r is Err ==> *final(self) == *old(self),
            (match r {
                Err(e) => e == if caller != old(self).owner {
                    CenterError::OwnerOnly
                } else if !(old(self).lp_token is Some && old(self).lp_locker is Some) {
                    CenterError::ConfigMissing
                } else {
                    CenterError::NoTokenBalance
                },
                Ok(a) => {
                    &&& caller == old(self).owner
                    &&& old(self).lp_balance > 0
                    &&& a == (LiquidityAction::LockTokens {
                        amount: old(self).lp_balance,
                        duration_days: LP_LOCK_DURATION_DAYS,
                    })
                    &&& *final(self) == (CircleOfLifeCenter { lp_balance: 0, ..*old(self) })
                },
            }),
    {
        self.require_owner(caller)?;
        if self.lp_token.is_none() || self.lp_locker.is_none() {
            return Err(CenterError::ConfigMissing);
        }
        if self.lp_balance == 0 {
            return Err(CenterError::NoTokenBalance);
        }
        let amount = self.lp_balance;
        self.lp_balance = 0;
        Ok(LiquidityAction::LockTokens { amount, duration_days: LP_LOCK_DURATION_DAYS })
    }

    /// Completion event of the lock. On failure the tokens come back for a
    /// manual retry.
    pub fn lock_lp_callback(&mut self, success: bool, lp_amount: u128) -> (r: ())
        requires
            old(self).lp_balance + lp_amount <= u128::MAX,
        ensures
            success ==> *final(self) == (CircleOfLifeCenter {
                pending_wegld_for_swap: 0,
                pending_wegld_for_lp: 0,
                pending_xcirclex_for_lp: 0,
                processing_in_progress: false,
                ..*old(self)
            }),
            !success ==> *final(self) == (CircleOfLifeCenter {
                lp_balance: (old(self).lp_balance + lp_amount) as u128,
                processing_in_progress: false,
                ..*old(self)
            }),
    {
        if success {
            self.cleanup_processing();
        } else {
            self.lp_balance = self.lp_balance + lp_amount;
            self.cleanup_failed_processing();
        }
    }

    /// Superseded alias of step two, with step two's whole contract.
    pub fn resume_processing_from_wegld(&mut self, caller: u64) -> (r: Result<
        LiquidityAction,
        CenterError,
    >)
        ensures
            r is Ok <==> caller == old(self).owner && old(self).sp_can_swap(),
            r is Err ==> *final(self) == *old(self),
            (match r {
                Err(e) => e == if caller != old(self).owner {
                    CenterError::OwnerOnly
                } else if !(old(self).wegld_token is Some && old(self).xexchange_pair is Some
                    && old(self).xcirclex_token is Some && old(self).lp_locker is Some) {
                    CenterError::ConfigMissing
                } else {
                    CenterError::NoTokenBalance
                },
                Ok(a) => {
                    let half = old(self).wegld_balance / 2;
                    &&& a == (LiquidityAction::SwapTokens { amount_in: half as u128 })
                    &&& *final(self) == (CircleOfLifeCenter {
                        processing_in_progress: true,
                        pending_wegld_for_swap: half as u128,
                        pending_wegld_for_lp: (old(self).wegld_balance - half) as u128,
                        wegld_balance: (old(self).wegld_balance - half) as u128,
                        ..*old(self)
                    })
                },
            }),
    {
        self.liquidity_step2_swap(caller)
    }

    /// Superseded alias of step three, with step three's whole contract.
    pub fn resume_from_add_liquidity(&mut self, caller: u64) -> (r: Result<
        LiquidityAction,
        CenterError,
    >)
        ensures
            r is Ok <==> caller == old(self).owner && old(self).sp_can_add_liquidity(),
            r is Err ==> *final(self) == *old(self),
            (match r {
                Err(e) => e == if caller != old(self).owner {
                    CenterError::OwnerOnly
                } else if !(old(self).wegld_token is Some && old(self).xcirclex_token is Some
                    && old(self).xexchange_pair is Some && old(self).lp_locker is Some && old(self).lp_token is Some) {
                    CenterError::ConfigMissing
                } else {
                    CenterError::NoTokenBalance
                },
                Ok(a) => {
                    &&& a == (LiquidityAction::AddLiquidity {
                        xcirclex: old(self).xcirclex_balance,
                        wegld: old(self).wegld_balance,
                    })
                    &&& *final(self) == (CircleOfLifeCenter {
                        processing_in_progress: true,
                        pending_xcirclex_for_lp: old(self).xcirclex_balance,
                        pending_wegld_for_lp: old(self).wegld_balance,
                        xcirclex_balance: 0,
                        wegld_balance: 0,
                        ..*old(self)
                    })
                },
            }),
    {
        self.liquidity_step3_add_liquidity(caller)
    }

    /// Superseded alias of step four, with step four's whole contract.
    pub fn lock_pending_lp_tokens(&mut self, caller: u64) -> (r: Result<
        LiquidityAction,
        CenterError,
    >)
        ensures
            r is Ok <==> caller == old(self).owner && old(self).sp_can_lock(),
            r is Err ==> *final(self) == *old(self),
            (match r {
                Err(e) => e == if caller != old(self).owner {
                    CenterError::OwnerOnly
                } else if !(old(self).lp_token is Some && old(self).lp_locker is Some) {
                    CenterError::ConfigMissing
                } else {
                    CenterError::NoTokenBalance
                },
                Ok(a) => {
                    &&& a == (LiquidityAction::LockTokens {
                        amount: old(self).lp_balance,
                        duration_days: LP_LOCK_DURATION_DAYS,
                    })
                    &&& *final(self) == (CircleOfLifeCenter { lp_balance: 0, ..*old(self) })
                },
            }),
    {
        self.liquidity_step4_lock_lp(caller)
    }

    /// Asks the vault to release a lock; the released tokens will be handed
    /// to `recipient` by the completion event.
    pub fn unlock_lp_tokens(&mut self, caller: u64, lock_id: u64, recipient: u64) -> (r: Result<
        LiquidityAction,
        CenterError,
    >)
        ensures
            r is Ok <==> caller == old(self).owner && old(self).lp_locker is Some,
            *final(self) == *old(self),
            (match r {
                Err(e) => e == if caller != old(self).owner {
                    CenterError::OwnerOnly
                } else {
                    CenterError::ConfigMissing
                },
                Ok(a) => caller == old(self).owner && old(self).lp_locker is Some && a == (
                LiquidityAction::UnlockTokens { lock_id }),
            }),
    {
        self.require_owner(caller)?;
        if self.lp_locker.is_none() {
            return Err(CenterError::ConfigMissing);
        }
        let _ = recipient;
        Ok(LiquidityAction::UnlockTokens { lock_id })
    }

    /// Completion event of the unlock: on success the released tokens pass
    /// straight through to the recipient, returned here as the transfer the
    /// host must perform.
    pub fn unlock_lp_tokens_callback(&mut self, success: bool, recipient: u64, received: u128) -> (
        r: Option<(u64, u128)>)
        ensures
            *final(self) == *old(self),
            r == if success && received > 0 {
                Some((recipient, received))
            } else {
                Option::<(u64, u128)>::None
            },
    {
        if success && received > 0 {
            Some((recipient, received))
        } else {
            None
        }
    }

    /// Clears the pipeline's intermediate records after a completed run.
    fn cleanup_processing(&mut self)
        ensures
            *final(self) == (CircleOfLifeCenter {
                pending_wegld_for_swap: 0,
                pending_wegld_for_lp: 0,
                pending_xcirclex_for_lp: 0,
                processing_in_progress: false,
                ..*old(self)
            }),
    {
        self.pending_wegld_for_swap = 0;
        self.pending_wegld_for_lp = 0;
        self.pending_xcirclex_for_lp = 0;
        self.processing_in_progress = false;
    }

    /// Clears only the crash-recovery flag after a failed step; the
    /// intermediate records stay for a manual retry.
    fn cleanup_failed_processing(&mut self)
        ensures
            *final(self) == (CircleOfLifeCenter {
                processing_in_progress: false,
                ..*old(self)
            }),
    {
        self.processing_in_progress = false;
    }

    /// Sends the accumulated liquidity share away for manual handling.
    pub fn withdraw_pending_liquidity(&mut self, caller: u64, to: u64) -> (r: Result<
        u128,
        CenterError,
    >)
        ensures
            r is Ok <==> caller == old(self).owner && old(self).pending_liquidity_egld > 0 && old(self).egld_balance >= old(self).pending_liquidity_egld,
            r is Err ==> *final(self) == *old(self),
            (match r {
                Err(e) => e == if caller != old(self).owner {
                    CenterError::OwnerOnly
                } else if old(self).pending_liquidity_egld == 0 {
                    CenterError::NoPendingLiquidity
                } else {
                    CenterError::InsufficientBalance
                },
                Ok(paid) => {
                    &&& caller == old(self).owner
                    &&& paid == old(self).pending_liquidity_egld
                    &&& paid > 0
                    &&& *final(self) == (CircleOfLifeCenter {
                        pending_liquidity_egld: 0,
                        egld_balance: (old(self).egld_balance - paid) as u128,
                        ..*old(self)
                    })
                },
            }),
    {
        self.require_owner(caller)?;
        let pending = self.pending_liquidity_egld;
        if pending == 0 {
            return Err(CenterError::NoPendingLiquidity);
        }
        if self.egld_balance < pending {
            return Err(CenterError::InsufficientBalance);
        }
        let _ = to;
        self.pending_liquidity_egld = 0;
        self.egld_balance = self.egld_balance - pending;
        Ok(pending)
    }
}

} // verus!
