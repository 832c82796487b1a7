//! The reward engine: the halving emission, the bonus overlays, the burn, and
//! the weekly claim.
//!
//! The emission for one completed cycle is `BASE_REWARD_ATTO / 2^era`, the era
//! being `completed / 360` capped at ten. Each active participant receives the
//! per-participant share plus its pioneer and deposit overlays; the burn and
//! the base shares are funded from the pool with a single sufficiency check.

use vstd::prelude::*;

use crate::center::{
    dep_keys_distinct, deposits_of, is_member_sc, lemma_base_reward_bounds,
    lemma_deposits_of_absent, lemma_deposits_of_at, lemma_div_le, lemma_frac_le, lemma_frac_le4,
    lemma_grant_bounds, lemma_mul_div_le, lemma_pow2_1024, lemma_pow2_le, sp_base_cycle_reward, sp_capped_era,
    sp_day_of, sp_deposit_bonus_bps, sp_deposit_bonus_percent, sp_era_of, sp_is_claim_day,
    sp_is_member, sp_pow2, sp_reward_with_bonuses, CenterError, CircleOfLifeCenter, Participant,
    BASE_REWARD_ATTO, BPS_BASE, DEPOSIT_BONUS_PER_EGLD_BPS, HALVING_PERIOD, MAX_DEPOSIT_BONUS_BPS,
    MAX_ERA, ONE_EGLD, PIONEER_THRESHOLD, PIONEER_BONUS_BPS, PI_BONUS_BPS, SECONDS_PER_DAY,
};

verus! {

// ───────────────────────── emission model ─────────────────────────

/// The completed-cycle count the emission of the closing cycle is computed
/// with: the counter has already been stepped when the engine runs.
pub open spec fn sp_cycles_now(s: CircleOfLifeCenter) -> u64 {
    (s.cycles_completed + 1) as u64
}

/// Whether the pool covers the base emission plus the whole burn.
pub open spec fn sp_emission_funded(
    token_set: bool,
    pool: u128,
    burn_per: u128,
    cycles_now: u64,
    n: int,
) -> bool {
    token_set && pool as int >= sp_base_cycle_reward(cycles_now) + burn_per as int * n
}

/// Per-participant base share of one completion (zero when unfunded).
pub open spec fn sp_emission_per_sc(
    token_set: bool,
    pool: u128,
    burn_per: u128,
    cycles_now: u64,
    n: int,
) -> int {
    if sp_emission_funded(token_set, pool, burn_per, cycles_now, n) {
        sp_base_cycle_reward(cycles_now) / n
    } else {
        0
    }
}

/// Amount burned by one completion (zero when unfunded).
pub open spec fn sp_emission_burn(
    token_set: bool,
    pool: u128,
    burn_per: u128,
    cycles_now: u64,
    n: int,
) -> int {
    if sp_emission_funded(token_set, pool, burn_per, cycles_now, n) {
        burn_per as int * n
    } else {
        0
    }
}

/// The pool after the base emission and the burn are deducted.
pub open spec fn sp_pool_after_emission(
    token_set: bool,
    pool: u128,
    burn_per: u128,
    cycles_now: u64,
    n: int,
) -> int {
    pool - sp_emission_per_sc(token_set, pool, burn_per, cycles_now, n) * n - sp_emission_burn(
        token_set,
        pool,
        burn_per,
        cycles_now,
        n,
    )
}

/// Per-participant base share for a completion closing in state `s` with `n`
/// active participants.
pub open spec fn sp_per_sc_of(s: CircleOfLifeCenter, n: int) -> int {
    sp_emission_per_sc(s.reward_token is Some, s.rewards_pool, s.burn_per_sc, sp_cycles_now(s), n)
}

pub open spec fn sp_emission_burn_of(s: CircleOfLifeCenter, n: int) -> int {
    sp_emission_burn(s.reward_token is Some, s.rewards_pool, s.burn_per_sc, sp_cycles_now(s), n)
}

pub open spec fn sp_pool_after_emission_of(s: CircleOfLifeCenter, n: int) -> int {
    sp_pool_after_emission(
        s.reward_token is Some,
        s.rewards_pool,
        s.burn_per_sc,
        sp_cycles_now(s),
        n,
    )
}

/// The full-circle bonus amount of the closing cycle.
pub open spec fn sp_pi_amount_of(s: CircleOfLifeCenter) -> int {
    sp_base_cycle_reward(sp_cycles_now(s)) * (PI_BONUS_BPS as int) / (BPS_BASE as int)
}

/// The full-circle bonus actually staged: due only when the closing cycle's
/// number is a whole multiple of the halving period, and only when the pool
/// still covers it after the emission.
pub open spec fn sp_pi_applied(s: CircleOfLifeCenter, n: int) -> int {
    if sp_cycles_now(s) as int % (HALVING_PERIOD as int) == 0 && sp_pi_amount_of(s) > 0
        && sp_pool_after_emission_of(s, n) >= sp_pi_amount_of(s) {
        sp_pi_amount_of(s)
    } else {
        0
    }
}

/// The starter bonus before its solvency check.
pub open spec fn sp_starter_bonus_raw(s: CircleOfLifeCenter, n: int) -> int {
    (sp_base_cycle_reward(sp_cycles_now(s)) / n) * (s.starter_bonus_percentage as int) / (
    BPS_BASE as int)
}

/// The starter bonus actually staged: a starter must be recorded and still
/// enrolled, the percentage configured, and the pool must cover the bonus
/// after the emission and the full-circle bonus.
pub open spec fn sp_starter_applied(s: CircleOfLifeCenter, n: int) -> int {
    match s.cycle_starter {
        None => 0,
        Some(st) => if s.starter_bonus_percentage > 0 && sp_is_member(s.participants@, st)
            && sp_starter_bonus_raw(s, n) > 0 && sp_pool_after_emission_of(s, n) - sp_pi_applied(
            s,
            n,
        ) >= sp_starter_bonus_raw(s, n) {
            sp_starter_bonus_raw(s, n)
        } else {
            0
        },
    }
}

/// The pool once one completion has been paid for in full.
pub open spec fn sp_pool_final(s: CircleOfLifeCenter, n: int) -> int {
    sp_pool_after_emission_of(s, n) - sp_pi_applied(s, n) - sp_starter_applied(s, n)
}

/// Whether participant `i` is the account the recorded starter is bound to.
pub open spec fn sp_starter_is(s: CircleOfLifeCenter, i: int) -> bool {
    match s.cycle_starter {
        Some(st) => is_member_sc(s.participants@, st, i),
        None => false,
    }
}

// ───────────────────────── executable engine ─────────────────────────

impl CircleOfLifeCenter {
    /// The protocol day of a clock reading.
    pub fn get_current_day(&self, now: u64) -> (r: u64)
        ensures
            r == sp_day_of(now),
    {
        now / SECONDS_PER_DAY
    }

    /// Whether rewards may be claimed at this clock reading.
    pub fn is_sunday(&self, now: u64) -> (r: bool)
        ensures
            r == sp_is_claim_day(now),
    {
        let days_since_epoch = now / SECONDS_PER_DAY;
        let day_of_week = (days_since_epoch + 4) % 7;
        day_of_week == 0
    }

    /// The current halving era.
    pub fn get_current_era(&self) -> (r: u64)
        ensures
            r == sp_era_of(self.cycles_completed),
    {
        self.cycles_completed / HALVING_PERIOD
    }

    /// The base emission for the cycle closing at the current completed count.
    pub fn calculate_option_f_reward(&self) -> (r: u128)
        ensures
            r == sp_base_cycle_reward(self.cycles_completed),
            0 < r <= BASE_REWARD_ATTO,
    {
        proof {
            lemma_base_reward_bounds(self.cycles_completed);
        }
        let era: u64 = self.cycles_completed / HALVING_PERIOD;
        let capped: u64 = if era > MAX_ERA {
            MAX_ERA
        } else {
            era
        };
        let mut divisor: u128 = 1;
        let mut k: u64 = 0;
        while k < capped
            invariant
                k <= capped <= 10,
                divisor == sp_pow2(k as nat),
                1 <= divisor <= 1024,
            decreases capped - k,
        {
            proof {
                lemma_pow2_le((k + 1) as nat, 10);
                lemma_pow2_1024();
            }
            divisor = divisor * 2;
            k = k + 1;
        }
        assert(capped as nat == sp_capped_era(self.cycles_completed));
        BASE_REWARD_ATTO / divisor
    }

    /// The full-circle bonus due after the just-recorded completion, if its
    /// number is a whole multiple of the halving period.
    pub fn calculate_pi_bonus(&self, base_reward: u128) -> (r: u128)
        requires
            base_reward as int * (PI_BONUS_BPS as int) <= u128::MAX,
        ensures
            r == if self.cycles_completed > 0 && self.cycles_completed as int % (
            HALVING_PERIOD as int) == 0 {
                base_reward as int * (PI_BONUS_BPS as int) / (BPS_BASE as int)
            } else {
                0
            },
    {
        if self.cycles_completed > 0 && self.cycles_completed % HALVING_PERIOD == 0 {
            base_reward * (PI_BONUS_BPS as u128) / (BPS_BASE as u128)
        } else {
            0
        }
    }

    /// Deposit bonus of a lifetime-deposit figure, in whole percent.
    pub fn calculate_deposit_bonus_percent(&self, deposits: u128) -> (r: u64)
        ensures
            r == sp_deposit_bonus_percent(deposits),
    {
        let egld_count = deposits / ONE_EGLD;
        if egld_count > 360 {
            360
        } else {
            egld_count as u64
        }
    }

    /// Deposit bonus of a lifetime-deposit figure, in basis points.
    pub fn calculate_deposit_bonus_bps(&self, deposits: u128) -> (r: u64)
        ensures
            r == sp_deposit_bonus_bps(deposits),
    {
        let percent = self.calculate_deposit_bonus_percent(deposits);
        let bps = percent * DEPOSIT_BONUS_PER_EGLD_BPS;
        if bps > MAX_DEPOSIT_BONUS_BPS {
            MAX_DEPOSIT_BONUS_BPS
        } else {
            bps
        }
    }

    /// The lifetime deposits recorded for a member wallet.
    pub fn lookup_deposits(&self, member: u64) -> (r: u128)
        requires
            dep_keys_distinct(self.deposits@),
        ensures
            r == deposits_of(self.deposits@, member),
    {
        let n = self.deposits.len();
        let mut j: usize = 0;
        while j < n
            invariant
                j <= n,
                n == self.deposits@.len(),
                dep_keys_distinct(self.deposits@),
                forall|i: int| 0 <= i < j ==> (#[trigger] self.deposits@[i]).member != member,
            decreases n - j,
        {
            if self.deposits[j].member == member {
                proof {
                    lemma_deposits_of_at(self.deposits@, j as int);
                }
                return self.deposits[j].amount;
            }
            j = j + 1;
        }
        proof {
            lemma_deposits_of_absent(self.deposits@, member);
        }
        0
    }

    /// One participant's reward for one completion: the base share plus the
    /// pioneer and deposit overlays.
    pub fn calculate_final_reward_with_bonuses(&self, base_reward: u128, i: usize) -> (r: u128)
        requires
            i < self.participants@.len(),
            base_reward <= BASE_REWARD_ATTO,
            dep_keys_distinct(self.deposits@),
        ensures
            r == sp_reward_with_bonuses(
                base_reward as int,
                self.participants@[i as int],
                deposits_of(self.deposits@, self.participants@[i as int].owner),
            ),
            r <= 6 * BASE_REWARD_ATTO,
    {
        let p = self.participants[i];
        let deposits = self.lookup_deposits(p.owner);
        proof {
            lemma_grant_bounds(base_reward as int, p, deposits);
            lemma_frac_le(base_reward as int, PIONEER_BONUS_BPS as int, BPS_BASE as int);
            lemma_div_le(deposits as int, ONE_EGLD as int);
            lemma_frac_le4(base_reward as int, sp_deposit_bonus_bps(deposits), BPS_BASE as int);
        }
        let mut reward = base_reward;
        if p.join_index > 0 && p.join_index <= PIONEER_THRESHOLD {
            let pioneer_bonus = base_reward * (PIONEER_BONUS_BPS as u128) / (BPS_BASE as u128);
            reward = reward + pioneer_bonus;
        }
        if deposits > 0 {
            let bps = self.calculate_deposit_bonus_bps(deposits);
            if bps > 0 {
                let deposit_bonus = base_reward * (bps as u128) / (BPS_BASE as u128);
                reward = reward + deposit_bonus;
            }
        }
        proof {
            let pp = self.participants@[i as int];
            let dep = deposits_of(self.deposits@, pp.owner);
            assert(deposits == dep);
            let pio: int = if 0 < pp.join_index <= PIONEER_THRESHOLD {
                base_reward as int * (PIONEER_BONUS_BPS as int) / (BPS_BASE as int)
            } else {
                0
            };
            let db: int = base_reward as int * sp_deposit_bonus_bps(dep) / (BPS_BASE as int);
            assert(0int / (ONE_EGLD as int) == 0) by (nonlinear_arith);
            if sp_deposit_bonus_bps(dep) == 0 {
                assert(base_reward as int * sp_deposit_bonus_bps(dep) == 0) by (nonlinear_arith)
                    requires
                        sp_deposit_bonus_bps(dep) == 0,
                ;
                assert(0int / (BPS_BASE as int) == 0) by (nonlinear_arith);
            }
            assert(reward == base_reward + pio + db);
        }
        reward
    }

    /// Funds one completion from the pool: burns `burn_per_sc` per active
    /// participant and returns the per-participant base share, or returns
    /// zero and changes nothing when the pool cannot cover both.
    pub fn calculate_reward_per_participant(&mut self, num_participants: usize) -> (r: u128)
        requires
            num_participants >= 1,
            old(self).total_burned + old(self).rewards_pool <= u128::MAX,
        ensures
            r == sp_emission_per_sc(
                old(self).reward_token is Some,
                old(self).rewards_pool,
                old(self).burn_per_sc,
                old(self).cycles_completed,
                num_participants as int,
            ),
            *final(self) == (CircleOfLifeCenter {
                rewards_pool: sp_pool_after_emission(
                    old(self).reward_token is Some,
                    old(self).rewards_pool,
                    old(self).burn_per_sc,
                    old(self).cycles_completed,
                    num_participants as int,
                ) as u128,
                total_burned: (old(self).total_burned + sp_emission_burn(
                    old(self).reward_token is Some,
                    old(self).rewards_pool,
                    old(self).burn_per_sc,
                    old(self).cycles_completed,
                    num_participants as int,
                )) as u128,
                ..*old(self)
            }),
    {
        let ghost n = num_participants as int;
        let ghost tok = self.reward_token is Some;
        let ghost pool0 = self.rewards_pool;
        let ghost bp = self.burn_per_sc;
        let ghost cyc = self.cycles_completed;
        if self.reward_token.is_none() {
            assert(!sp_emission_funded(tok, pool0, bp, cyc, n));
            return 0;
        }
        let reward_per_cycle = self.calculate_option_f_reward();
        let n128 = num_participants as u128;
        let total_burn: u128;
        if self.burn_per_sc == 0 {
            total_burn = 0;
        } else {
            if n128 > u128::MAX / self.burn_per_sc {
                proof {
                    let b = self.burn_per_sc as int;
                    let q = u128::MAX as int / b;
                    vstd::arithmetic::div_mod::lemma_fundamental_div_mod(u128::MAX as int, b);
                    vstd::arithmetic::div_mod::lemma_mod_bound(u128::MAX as int, b);
                    assert(b * q > u128::MAX - b);
                    vstd::arithmetic::mul::lemma_mul_inequality(q + 1, n128 as int, b);
                    assert((q + 1) * b == q * b + b) by (nonlinear_arith);
                    assert(b * (n128 as int) == (n128 as int) * b) by (nonlinear_arith);
                    assert(b * q == q * b) by (nonlinear_arith);
                }
                assert(bp as int * n > u128::MAX);
                assert(!sp_emission_funded(tok, pool0, bp, cyc, n));
                assert(sp_pool_after_emission(tok, pool0, bp, cyc, n) == pool0);
                return 0;
            }
            proof {
                let b = self.burn_per_sc as int;
                let q = u128::MAX as int / b;
                vstd::arithmetic::div_mod::lemma_fundamental_div_mod(u128::MAX as int, b);
                vstd::arithmetic::div_mod::lemma_mod_bound(u128::MAX as int, b);
                vstd::arithmetic::mul::lemma_mul_inequality(n128 as int, q, b);
                assert(b * q == q * b) by (nonlinear_arith);
                assert(b * (n128 as int) == (n128 as int) * b) by (nonlinear_arith);
                assert(b * q <= u128::MAX);
            }
            total_burn = self.burn_per_sc * n128;
        }
        assert(total_burn == bp as int * n);
        if self.rewards_pool < total_burn {
            assert(!sp_emission_funded(tok, pool0, bp, cyc, n));
            assert(sp_pool_after_emission(tok, pool0, bp, cyc, n) == pool0);
            return 0;
        }
        if self.rewards_pool - total_burn < reward_per_cycle {
            assert(!sp_emission_funded(tok, pool0, bp, cyc, n));
            assert(sp_pool_after_emission(tok, pool0, bp, cyc, n) == pool0);
            return 0;
        }
        assert(sp_emission_funded(tok, pool0, bp, cyc, n));
        if total_burn > 0 {
            self.total_burned = self.total_burned + total_burn;
        }
        let reward_per_sc = reward_per_cycle / n128;
        proof {
            lemma_div_le(reward_per_cycle as int, n as int);
            lemma_mul_div_le(reward_per_cycle as int, n as int);
        }
        let total_reward = reward_per_sc * n128;
        self.rewards_pool = self.rewards_pool - total_reward - total_burn;
        reward_per_sc
    }

    /// Accepts a deposit of reward tokens into the pool.
    pub fn deposit_rewards(&mut self, caller: u64, token: u64, payment: u128) -> (r: Result<
        (),
        CenterError,
    >)
        requires
            old(self).rewards_pool + payment <= u128::MAX,
        ensures
            r is Ok <==> caller == old(self).owner && old(self).reward_token is Some && old(self).reward_token == Some(token),
            r is Ok ==> *final(self) == (CircleOfLifeCenter {
                rewards_pool: (old(self).rewards_pool + payment) as u128,
                ..*old(self)
            }),
            r is Err ==> *final(self) == *old(self) && r == Result::<(), CenterError>::Err(
                if caller != old(self).owner {
                    CenterError::OwnerOnly
                } else if old(self).reward_token is None {
                    CenterError::RewardTokenNotSet
                } else {
                    CenterError::WrongToken
                },
            ),
    {
        self.require_owner(caller)?;
        match self.reward_token {
            None => Err(CenterError::RewardTokenNotSet),
            Some(reward_token) => {
                if token != reward_token {
                    return Err(CenterError::WrongToken);
                }
                self.rewards_pool = self.rewards_pool + payment;
                Ok(())
            },
        }
    }

    /// Owner emergency path: removes tokens from the pool.
    pub fn withdraw_rewards(&mut self, caller: u64, amount: u128, to: u64) -> (r: Result<
        (),
        CenterError,
    >)
        ensures
            r is Ok <==> caller == old(self).owner && old(self).reward_token is Some && old(self).rewards_pool >= amount,
            r is Ok ==> *final(self) == (CircleOfLifeCenter {
                rewards_pool: (old(self).rewards_pool - amount) as u128,
                ..*old(self)
            }),
            r is Err ==> *final(self) == *old(self) && r == Result::<(), CenterError>::Err(
                if caller != old(self).owner {
                    CenterError::OwnerOnly
                } else if old(self).reward_token is None {
                    CenterError::RewardTokenNotSet
                } else {
                    CenterError::PoolInsufficient
                },
            ),
    {
        self.require_owner(caller)?;
        if self.reward_token.is_none() {
            return Err(CenterError::RewardTokenNotSet);
        }
        if self.rewards_pool < amount {
            return Err(CenterError::PoolInsufficient);
        }
        let _ = to;
        self.rewards_pool = self.rewards_pool - amount;
        Ok(())
    }
}

/// The reasons `claim_rewards` rejects, in the order they are checked.
pub open spec fn sp_claim_err(s: CircleOfLifeCenter, caller: u64, now: u64) -> Option<CenterError> {
    if !sp_is_claim_day(now) {
        Some(CenterError::NotClaimDay)
    } else if !sp_is_member(s.participants@, caller) {
        Some(CenterError::NotMember)
    } else {
        None
    }
}

impl CircleOfLifeCenter {
    /// Pays out the caller's accrued rewards, allowed only on the weekly claim
    /// day; the paid amount is returned so the host can transfer the tokens.
    pub fn claim_rewards(&mut self, caller: u64, now: u64) -> (r: Result<u128, CenterError>)
        requires
            old(self).wf(),
            forall|i: int|
                0 <= i < old(self).participants@.len() ==> old(self).total_rewards_distributed + (
                #[trigger] old(self).participants@[i]).pending_rewards <= u128::MAX,
        ensures
            final(self).wf(),
            r is Err ==> *final(self) == *old(self),
            match r {
                Ok(paid) => {
                    &&& sp_claim_err(*old(self), caller, now) is None
                    &&& exists|i: int|
                        {
                            &&& is_member_sc(old(self).participants@, caller, i)
                            &&& paid == old(self).participants@[i].pending_rewards
                            &&& paid > 0
                            &&& old(self).reward_token is Some
                            &&& final(self).participants@ == old(self).participants@.update(
                                i,
                                (Participant {
                                    pending_rewards: 0,
                                    ..old(self).participants@[i]
                                }),
                            )
                        }
                    &&& *final(self) == (CircleOfLifeCenter {
                        participants: final(self).participants,
                        total_rewards_distributed: (old(self).total_rewards_distributed
                            + paid) as u128,
                        ..*old(self)
                    })
                },
                Err(e) => match sp_claim_err(*old(self), caller, now) {
                    Some(e0) => e == e0,
                    None => {
                        &&& exists|i: int|
                            {
                                &&& is_member_sc(old(self).participants@, caller, i)
                                &&& if old(self).participants@[i].pending_rewards == 0 {
                                    e == CenterError::NoRewards
                                } else {
                                    e == CenterError::RewardTokenNotSet && old(self).reward_token is None
                                }
                            }
                    },
                },
            },
    {
        if !self.is_sunday(now) {
            return Err(CenterError::NotClaimDay);
        }
        let sc = match self.find_member_sc(caller) {
            None => {
                return Err(CenterError::NotMember);
            },
            Some(sc) => sc,
        };
        let p = self.participants[sc];
        if p.pending_rewards == 0 {
            return Err(CenterError::NoRewards);
        }
        if self.reward_token.is_none() {
            return Err(CenterError::RewardTokenNotSet);
        }
        let paid = p.pending_rewards;
        self.total_rewards_distributed = self.total_rewards_distributed + paid;
        let p2 = Participant { pending_rewards: 0, ..p };
        self.participants.set(sc, p2);
        Ok(paid)
    }
}

} // verus!
