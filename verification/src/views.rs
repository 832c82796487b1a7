//! The read-only view surface of the rotation center. Every view is a pure
//! function of the state and, where the original consulted the clock, of the
//! `now` parameter.

use vstd::prelude::*;

use crate::center::{
    active_idxs, deposits_of, is_member_sc, lemma_active_idxs_props, lemma_div_le, lemma_frac_le,
    lemma_mul_div_le, lemma_pow2_1024, lemma_pow2_le, sp_base_cycle_reward, sp_day_of,
    sp_day_of_week, sp_deposit_bonus_bps, sp_deposit_bonus_percent, sp_era_of, sp_is_claim_day,
    sp_is_member, sp_is_pioneer, sp_pow2, sp_presigned, sp_signed, CircleOfLifeCenter,
    Participant, BASE_REWARD_ATTO, BPS_BASE, HALVING_PERIOD, INFRACTION_RESET_DAYS,
    PIONEER_BONUS_BPS, PIONEER_THRESHOLD, PI_BONUS_BPS, SECONDS_PER_DAY,
};
use crate::rotation::idxs_of;

verus! {

/// Owners of the accounts that count as pre-signed for the given epoch,
/// in join order.
pub open spec fn presigned_owners(s: Seq<Participant>, epoch: u64) -> Seq<u64>
    decreases s.len(),
{
    if s.len() == 0 {
        Seq::empty()
    } else {
        let pre = presigned_owners(s.drop_last(), epoch);
        if sp_presigned(s.last(), epoch) {
            pre.push(s.last().owner)
        } else {
            pre
        }
    }
}

impl CircleOfLifeCenter {
    /// Overview: total accounts, active accounts, entry fee, circulating
    /// amount, cycle day and cycle index.
    pub fn get_circle_info(&self) -> (r: (usize, usize, u128, u128, u64, usize))
        ensures
            r.0 == self.participants@.len(),
            r.1 == active_idxs(self.participants@).len(),
            r.2 == self.entry_fee,
            r.3 == self.circulation_amount,
            r.4 == self.cycle_day,
            r.5 == self.current_cycle_index,
    {
        let active = self.get_active_contracts();
        (
            self.participants.len(),
            active.len(),
            self.entry_fee,
            self.circulation_amount,
            self.cycle_day,
            self.current_cycle_index,
        )
    }

    /// The account bound to a member wallet, if any.
    pub fn get_my_contract(&self, member: u64) -> (r: Option<usize>)
        ensures
            match r {
                Some(i) => is_member_sc(self.participants@, member, i as int),
                None => !sp_is_member(self.participants@, member),
            },
    {
        self.find_member_sc(member)
    }

    /// Whether a wallet is enrolled.
    pub fn is_member(&self, addr: u64) -> (r: bool)
        ensures
            r == sp_is_member(self.participants@, addr),
    {
        match self.find_member_sc(addr) {
            None => false,
            Some(_sc) => true,
        }
    }

    /// Whether a wallet's account is active.
    pub fn is_active(&self, member: u64) -> (r: bool)
        requires
            self.wf(),
        ensures
            r == match self.get_member_idx(member) {
                None => false,
                Some(i) => self.participants@[i].active,
            },
    {
        match self.find_member_sc(member) {
            None => false,
            Some(i) => {
                proof {
                    self.lemma_member_idx_agrees(member, i as int);
                }
                self.participants[i].active
            },
        }
    }

    /// Whether the member's account currently holds the circulating amount.
    pub fn is_my_turn(&self, member: u64) -> (r: bool)
        requires
            self.wf(),
        ensures
            r == (self.cycle_holder is Some && active_idxs(self.participants@).len() > 0
                && (match self.get_member_idx(member) {
                None => false,
                Some(i) => self.participants@[i].active && self.cycle_holder == Some(i as usize),
            })),
    {
        let holder = match self.cycle_holder {
            None => {
                return false;
            },
            Some(h) => h,
        };
        let sc = match self.find_member_sc(member) {
            None => {
                return false;
            },
            Some(sc) => sc,
        };
        proof {
            self.lemma_member_idx_agrees(member, sc as int);
        }
        if !self.participants[sc].active {
            return false;
        }
        let active = self.get_active_contracts();
        if active.len() == 0 {
            proof {
                lemma_active_idxs_props(self.participants@);
            }
            return false;
        }
        sc == holder
    }

    /// The active accounts, in rotation order.
    pub fn get_active_contracts_view(&self) -> (r: Vec<usize>)
        ensures
            idxs_of(r@) == active_idxs(self.participants@),
    {
        self.get_active_contracts()
    }

    /// Every account ever deployed, in join order.
    pub fn get_all_contracts(&self) -> (r: Vec<usize>)
        ensures
            r@.len() == self.participants@.len(),
            forall|i: int| 0 <= i < r@.len() ==> #[trigger] r@[i] == i,
    {
        let mut r: Vec<usize> = Vec::new();
        let n = self.participants.len();
        let mut i: usize = 0;
        while i < n
            invariant
                i <= n,
                r@.len() == i,
                forall|j: int| 0 <= j < i ==> #[trigger] r@[j] == j,
            decreases n - i,
        {
            r.push(i);
            i = i + 1;
        }
        r
    }

    /// The configured peripheral template, if any.
    pub fn get_peripheral_template(&self) -> (r: Option<u64>)
        ensures
            r == self.peripheral_template,
    {
        self.peripheral_template
    }

    /// The center's administrator.
    pub fn get_owner(&self) -> (r: u64)
        ensures
            r == self.owner,
    {
        self.owner
    }

    /// Whether the center is paused.
    pub fn get_is_paused(&self) -> (r: bool)
        ensures
            r == self.paused,
    {
        self.paused
    }

    /// The center's own native-value balance.
    pub fn get_contract_balance(&self) -> (r: u128)
        ensures
            r == self.egld_balance,
    {
        self.egld_balance
    }

    /// The current holder, if a cycle is running.
    pub fn get_cycle_holder(&self) -> (r: Option<usize>)
        ensures
            r == self.cycle_holder,
    {
        self.cycle_holder
    }

    /// The day the last cycle started on.
    pub fn get_cycle_day(&self) -> (r: u64)
        ensures
            r == self.cycle_day,
    {
        self.cycle_day
    }

    /// The protocol day of the given clock reading.
    pub fn get_current_day_view(&self, now: u64) -> (r: u64)
        ensures
            r == sp_day_of(now),
    {
        self.get_current_day(now)
    }

    /// The logical epoch.
    pub fn get_cycle_epoch(&self) -> (r: u64)
        ensures
            r == self.cycle_epoch,
    {
        self.cycle_epoch
    }

    pub fn get_cycles_completed(&self) -> (r: u64)
        ensures
            r == self.cycles_completed,
    {
        self.cycles_completed
    }

    pub fn get_cycles_failed(&self) -> (r: u64)
        ensures
            r == self.cycles_failed,
    {
        self.cycles_failed
    }

    /// Completed, failed, and total cycle counts.
    pub fn get_cycle_stats(&self) -> (r: (u64, u64, u64))
        requires
            self.cycles_completed + self.cycles_failed <= u64::MAX,
        ensures
            r.0 == self.cycles_completed,
            r.1 == self.cycles_failed,
            r.2 == self.cycles_completed + self.cycles_failed,
    {
        (self.cycles_completed, self.cycles_failed, self.cycles_completed + self.cycles_failed)
    }

    /// Whether a member's account counts as pre-signed for the current epoch.
    pub fn has_pre_signed(&self, member: u64) -> (r: bool)
        requires
            self.wf(),
        ensures
            r == match self.get_member_idx(member) {
                None => false,
                Some(i) => sp_presigned(self.participants@[i], self.cycle_epoch),
            },
    {
        match self.find_member_sc(member) {
            None => false,
            Some(sc) => {
                proof {
                    self.lemma_member_idx_agrees(member, sc as int);
                }
                self.is_effectively_pre_signed(sc, self.cycle_epoch)
            },
        }
    }

    /// Whether a member's account already forwarded in the current epoch.
    pub fn has_signed_this_cycle(&self, member: u64) -> (r: bool)
        requires
            self.wf(),
        ensures
            r == match self.get_member_idx(member) {
                None => false,
                Some(i) => sp_signed(self.participants@[i], self.cycle_epoch),
            },
    {
        match self.find_member_sc(member) {
            None => false,
            Some(sc) => {
                proof {
                    self.lemma_member_idx_agrees(member, sc as int);
                }
                self.participants[sc].signed_epoch == self.cycle_epoch
            },
        }
    }

    /// Auto-signature status: (permanent flag, bounded-until epoch, epochs
    /// the bound still covers).
    pub fn get_auto_sign_status(&self, member: u64) -> (r: (bool, u64, u64))
        requires
            self.wf(),
        ensures
            match self.get_member_idx(member) {
                None => r == (false, 0u64, 0u64),
                Some(i) => {
                    let p = self.participants@[i];
                    r == (
                        p.auto_sign_enabled,
                        p.auto_sign_until,
                        (if p.auto_sign_until > self.cycle_epoch {
                            p.auto_sign_until - self.cycle_epoch
                        } else {
                            0
                        }) as u64,
                    )
                },
            },
    {
        match self.find_member_sc(member) {
            None => (false, 0, 0),
            Some(sc) => {
                let p = self.participants[sc];
                let remaining = if p.auto_sign_until > self.cycle_epoch {
                    p.auto_sign_until - self.cycle_epoch
                } else {
                    0
                };
                proof {
                    self.lemma_member_idx_agrees(member, sc as int);
                }
                (p.auto_sign_enabled, p.auto_sign_until, remaining)
            },
        }
    }

    /// The index of the member's bound account, as a specification value.
    pub open spec fn get_member_idx(&self, member: u64) -> Option<int> {
        if sp_is_member(self.participants@, member) {
            Some(choose|i: int| is_member_sc(self.participants@, member, i))
        } else {
            None
        }
    }

    /// Under the invariant, the bound account of a member is unique, so any
    /// found index agrees with the chosen one.
    pub proof fn lemma_member_idx_agrees(&self, member: u64, i: int)
        requires
            self.wf(),
            is_member_sc(self.participants@, member, i),
        ensures
            self.get_member_idx(member) == Some(i),
    {
        let j = choose|j: int| is_member_sc(self.participants@, member, j);
        assert(is_member_sc(self.participants@, member, j));
    }

    /// Whether the permanent auto-signature is on.
    pub fn is_auto_sign_enabled(&self, member: u64) -> (r: bool)
        requires
            self.wf(),
        ensures
            r == match self.get_member_idx(member) {
                None => false,
                Some(i) => self.participants@[i].auto_sign_enabled,
            },
    {
        match self.find_member_sc(member) {
            None => false,
            Some(sc) => {
                proof {
                    self.lemma_member_idx_agrees(member, sc as int);
                }
                self.participants[sc].auto_sign_enabled
            },
        }
    }

    /// The epoch a bounded auto-signature covers up to (0 when off or not a
    /// member).
    pub fn get_auto_sign_until(&self, member: u64) -> (r: u64)
        requires
            self.wf(),
        ensures
            r == match self.get_member_idx(member) {
                None => 0u64,
                Some(i) => self.participants@[i].auto_sign_until,
            },
    {
        match self.find_member_sc(member) {
            None => 0,
            Some(sc) => {
                proof {
                    self.lemma_member_idx_agrees(member, sc as int);
                }
                self.participants[sc].auto_sign_until
            },
        }
    }

    /// How many epochs a bounded auto-signature still covers.
    pub fn get_auto_sign_remaining_cycles(&self, member: u64) -> (r: u64)
        requires
            self.wf(),
        ensures
            r == match self.get_member_idx(member) {
                None => 0int,
                Some(i) => {
                    let until = self.participants@[i].auto_sign_until;
                    if until > self.cycle_epoch {
                        until - self.cycle_epoch
                    } else {
                        0
                    }
                },
            },
    {
        match self.find_member_sc(member) {
            None => 0,
            Some(sc) => {
                proof {
                    self.lemma_member_idx_agrees(member, sc as int);
                }
                let until = self.participants[sc].auto_sign_until;
                if until > self.cycle_epoch {
                    until - self.cycle_epoch
                } else {
                    0
                }
            },
        }
    }

    /// The owning wallet of an account.
    pub fn get_contract_owner(&self, sc: usize) -> (r: Option<u64>)
        ensures
            r == if sc < self.participants@.len() {
                Some(self.participants@[sc as int].owner)
            } else {
                Option::<u64>::None
            },
    {
        if sc < self.participants.len() {
            Some(self.participants[sc].owner)
        } else {
            None
        }
    }

    /// Every account together with its owning wallet, in join order.
    pub fn get_all_contracts_with_owners(&self) -> (r: Vec<(usize, u64)>)
        ensures
            r@.len() == self.participants@.len(),
            forall|i: int|
                0 <= i < r@.len() ==> #[trigger] r@[i] == (
                    i as usize,
                    self.participants@[i].owner,
                ),
    {
        let mut r: Vec<(usize, u64)> = Vec::new();
        let n = self.participants.len();
        let mut i: usize = 0;
        while i < n
            invariant
                i <= n,
                n == self.participants@.len(),
                r@.len() == i,
                forall|j: int|
                    0 <= j < i ==> #[trigger] r@[j] == (
                        j as usize,
                        self.participants@[j].owner,
                    ),
            decreases n - i,
        {
            r.push((i, self.participants[i].owner));
            i = i + 1;
        }
        r
    }

    /// Owners of every account that counts as pre-signed this epoch.
    pub fn get_pre_signed_members(&self) -> (r: Vec<u64>)
        ensures
            r@ == presigned_owners(self.participants@, self.cycle_epoch),
    {
        let mut r: Vec<u64> = Vec::new();
        let n = self.participants.len();
        let mut i: usize = 0;
        while i < n
            invariant
                i <= n,
                n == self.participants@.len(),
                r@ == presigned_owners(self.participants@.take(i as int), self.cycle_epoch),
            decreases n - i,
        {
            let ghost pre = r@;
            let ghost t1 = self.participants@.take((i + 1) as int);
            if self.is_effectively_pre_signed(i, self.cycle_epoch) {
                r.push(self.participants[i].owner);
            }
            proof {
                assert(t1.drop_last() =~= self.participants@.take(i as int));
                assert(t1.last() == self.participants@[i as int]);
                if sp_presigned(self.participants@[i as int], self.cycle_epoch) {
                    assert(r@ =~= pre.push(self.participants@[i as int].owner));
                }
            }
            i = i + 1;
        }
        proof {
            assert(self.participants@.take(n as int) =~= self.participants@);
        }
        r
    }

    /// One account's statistics: completed, failed, ban expiry, banned now,
    /// infraction count.
    pub fn get_sc_stats(&self, sc: usize, now: u64) -> (r: (u64, u64, u64, bool, u64))
        requires
            sc < self.participants@.len(),
        ensures
            ({
                let p = self.participants@[sc as int];
                r == (
                    p.cycles_completed,
                    p.cycles_failed,
                    p.ban_until,
                    p.ban_until > now,
                    p.infraction_count,
                )
            }),
    {
        let p = self.participants[sc];
        (p.cycles_completed, p.cycles_failed, p.ban_until, p.ban_until > now, p.infraction_count)
    }

    /// Detailed ban bookkeeping for an account: infraction count, last
    /// infraction, ban expiry, whole days of ban left, whole days until the
    /// infraction count resets.
    pub fn get_infraction_info(&self, sc: usize, now: u64) -> (r: (u64, u64, u64, u64, u64))
        requires
            sc < self.participants@.len(),
            self.participants@[sc as int].last_infraction <= now,
        ensures
            ({
                let p = self.participants@[sc as int];
                r.0 == p.infraction_count && r.1 == p.last_infraction && r.2 == p.ban_until && r.3
                    == (if p.ban_until > now {
                    (p.ban_until - now) / (SECONDS_PER_DAY as int)
                } else {
                    0
                }) && r.4 == (if p.last_infraction > 0 {
                    let ds = (now - p.last_infraction) / (SECONDS_PER_DAY as int);
                    if ds >= INFRACTION_RESET_DAYS as int {
                        0
                    } else {
                        INFRACTION_RESET_DAYS - ds
                    }
                } else {
                    0
                })
            }),
    {
        let p = self.participants[sc];
        let remaining_ban_days = if p.ban_until > now {
            (p.ban_until - now) / SECONDS_PER_DAY
        } else {
            0
        };
        let days_until_reset = if p.last_infraction > 0 {
            let days_since = (now - p.last_infraction) / SECONDS_PER_DAY;
            if days_since >= INFRACTION_RESET_DAYS {
                0
            } else {
                INFRACTION_RESET_DAYS - days_since
            }
        } else {
            0
        };
        (p.infraction_count, p.last_infraction, p.ban_until, remaining_ban_days, days_until_reset)
    }

    /// Whether the next infraction would start a fresh count.
    pub fn will_infraction_reset(&self, sc: usize, now: u64) -> (r: bool)
        requires
            sc < self.participants@.len(),
            self.participants@[sc as int].last_infraction <= now,
        ensures
            ({
                let p = self.participants@[sc as int];
                r == (p.last_infraction == 0 || (now - p.last_infraction) / (
                SECONDS_PER_DAY as int) >= INFRACTION_RESET_DAYS as int)
            }),
    {
        let p = self.participants[sc];
        if p.last_infraction == 0 {
            return true;
        }
        let days_since = (now - p.last_infraction) / SECONDS_PER_DAY;
        days_since >= INFRACTION_RESET_DAYS
    }

    /// Whether an account is banned, and until when.
    pub fn is_banned(&self, sc: usize, now: u64) -> (r: (bool, u64))
        requires
            sc < self.participants@.len(),
        ensures
            r.0 == (self.participants@[sc as int].ban_until > now),
            r.1 == self.participants@[sc as int].ban_until,
    {
        let p = self.participants[sc];
        (p.ban_until > now, p.ban_until)
    }

    /// Statistics of every account, in join order.
    pub fn get_all_sc_stats(&self, now: u64) -> (r: Vec<(usize, u64, u64, u64, bool, u64)>)
        ensures
            r@.len() == self.participants@.len(),
            forall|i: int|
                0 <= i < r@.len() ==> ({
                    let p = self.participants@[i];
                    #[trigger] r@[i] == (
                        i as usize,
                        p.cycles_completed,
                        p.cycles_failed,
                        p.ban_until,
                        p.ban_until > now,
                        p.infraction_count,
                    )
                }),
    {
        let mut r: Vec<(usize, u64, u64, u64, bool, u64)> = Vec::new();
        let n = self.participants.len();
        let mut i: usize = 0;
        while i < n
            invariant
                i <= n,
                n == self.participants@.len(),
                r@.len() == i,
                forall|j: int|
                    0 <= j < i ==> ({
                        let p = self.participants@[j];
                        #[trigger] r@[j] == (
                            j as usize,
                            p.cycles_completed,
                            p.cycles_failed,
                            p.ban_until,
                            p.ban_until > now,
                            p.infraction_count,
                        )
                    }),
            decreases n - i,
        {
            let p = self.participants[i];
            r.push(
                (i, p.cycles_completed, p.cycles_failed, p.ban_until, p.ban_until > now, p.infraction_count),
            );
            i = i + 1;
        }
        r
    }

    /// The configured reward token, if any.
    pub fn get_reward_token_id(&self) -> (r: Option<u64>)
        ensures
            r == self.reward_token,
    {
        self.reward_token
    }

    pub fn get_rewards_pool(&self) -> (r: u128)
        ensures
            r == self.rewards_pool,
    {
        self.rewards_pool
    }

    /// The emission of the cycle closing at the current completed count.
    pub fn get_reward_per_cycle(&self) -> (r: u128)
        ensures
            r == sp_base_cycle_reward(self.cycles_completed),
    {
        self.calculate_option_f_reward()
    }

    /// The manually configured per-cycle figure (superseded).
    pub fn get_base_reward_config(&self) -> (r: u128)
        ensures
            r == self.reward_per_cycle_config,
    {
        self.reward_per_cycle_config
    }

    /// The accrued rewards of a member's account (zero for strangers).
    pub fn get_pending_rewards(&self, member: u64) -> (r: u128)
        requires
            self.wf(),
        ensures
            r == match self.get_member_idx(member) {
                None => 0u128,
                Some(i) => self.participants@[i].pending_rewards,
            },
    {
        match self.find_member_sc(member) {
            None => 0,
            Some(sc) => {
                proof {
                    self.lemma_member_idx_agrees(member, sc as int);
                }
                self.participants[sc].pending_rewards
            },
        }
    }

    pub fn get_total_rewards_distributed(&self) -> (r: u128)
        ensures
            r == self.total_rewards_distributed,
    {
        self.total_rewards_distributed
    }

    /// Pool, configured per-cycle figure, total distributed, configured flag.
    pub fn get_rewards_info(&self) -> (r: (u128, u128, u128, bool))
        ensures
            r == (
                self.rewards_pool,
                self.reward_per_cycle_config,
                self.total_rewards_distributed,
                self.reward_token is Some,
            ),
    {
        (
            self.rewards_pool,
            self.reward_per_cycle_config,
            self.total_rewards_distributed,
            self.reward_token.is_some(),
        )
    }

    /// Whether the clock reading falls on the weekly claim day.
    pub fn is_sunday_view(&self, now: u64) -> (r: bool)
        ensures
            r == sp_is_claim_day(now),
    {
        self.is_sunday(now)
    }

    /// Day of the week of the clock reading (0 = claim day).
    pub fn get_day_of_week(&self, now: u64) -> (r: u64)
        ensures
            r == sp_day_of_week(now),
    {
        let days_since_epoch = now / SECONDS_PER_DAY;
        (days_since_epoch + 4) % 7
    }

    /// Whether the member could claim now: (claim day, pending, has any).
    pub fn can_claim_rewards(&self, member: u64, now: u64) -> (r: (bool, u128, bool))
        requires
            self.wf(),
        ensures
            r.0 == sp_is_claim_day(now),
            r.1 == match self.get_member_idx(member) {
                None => 0u128,
                Some(i) => self.participants@[i].pending_rewards,
            },
            r.2 == (r.1 > 0),
    {
        let pending = self.get_pending_rewards(member);
        (self.is_sunday(now), pending, pending > 0)
    }

    /// The emission of the cycle closing at the current completed count.
    pub fn get_current_cycle_reward(&self) -> (r: u128)
        ensures
            r == sp_base_cycle_reward(self.cycles_completed),
    {
        self.calculate_option_f_reward()
    }

    /// The current halving era.
    pub fn get_current_era_view(&self) -> (r: u64)
        ensures
            r == sp_era_of(self.cycles_completed),
    {
        self.get_current_era()
    }

    /// The next cycle number that pays a full-circle bonus.
    pub fn get_next_circle_complete_cycle(&self) -> (r: u64)
        requires
            self.cycles_completed + HALVING_PERIOD <= u64::MAX,
        ensures
            r == (sp_era_of(self.cycles_completed) + 1) * (HALVING_PERIOD as int),
    {
        proof {
            lemma_mul_div_le(self.cycles_completed as int, HALVING_PERIOD as int);
            assert((sp_era_of(self.cycles_completed) + 1) * (HALVING_PERIOD as int) == sp_era_of(
                self.cycles_completed,
            ) * (HALVING_PERIOD as int) + HALVING_PERIOD) by (nonlinear_arith);
        }
        let current_circle = self.cycles_completed / HALVING_PERIOD;
        (current_circle + 1) * HALVING_PERIOD
    }

    /// Completed cycles left before the next halving.
    pub fn get_cycles_until_next_halving(&self) -> (r: u64)
        requires
            self.cycles_completed + HALVING_PERIOD <= u64::MAX,
        ensures
            r == (sp_era_of(self.cycles_completed) + 1) * (HALVING_PERIOD as int)
                - self.cycles_completed,
            1 <= r <= HALVING_PERIOD,
    {
        proof {
            lemma_mul_div_le(self.cycles_completed as int, HALVING_PERIOD as int);
            assert((sp_era_of(self.cycles_completed) + 1) * (HALVING_PERIOD as int) == sp_era_of(
                self.cycles_completed,
            ) * (HALVING_PERIOD as int) + HALVING_PERIOD) by (nonlinear_arith);
            vstd::arithmetic::div_mod::lemma_fundamental_div_mod(
                self.cycles_completed as int,
                HALVING_PERIOD as int,
            );
            vstd::arithmetic::div_mod::lemma_mod_bound(
                self.cycles_completed as int,
                HALVING_PERIOD as int,
            );
        }
        let next_halving = (self.cycles_completed / HALVING_PERIOD + 1) * HALVING_PERIOD;
        next_halving - self.cycles_completed
    }

    /// Emission overview: current reward, era, next full-circle cycle,
    /// cycles until halving, potential full-circle bonus.
    pub fn get_option_f_info(&self) -> (r: (u128, u64, u64, u64, u128))
        requires
            self.cycles_completed + HALVING_PERIOD <= u64::MAX,
        ensures
            r.0 == sp_base_cycle_reward(self.cycles_completed),
            r.1 == sp_era_of(self.cycles_completed),
            r.2 == (sp_era_of(self.cycles_completed) + 1) * (HALVING_PERIOD as int),
            r.3 == (sp_era_of(self.cycles_completed) + 1) * (HALVING_PERIOD as int)
                - self.cycles_completed,
            r.4 == sp_base_cycle_reward(self.cycles_completed) * (PI_BONUS_BPS as int) / (
            BPS_BASE as int),
    {
        let current_reward = self.calculate_option_f_reward();
        let current_era = self.get_current_era();
        let next_circle = self.get_next_circle_complete_cycle();
        let cycles_until = self.get_cycles_until_next_halving();
        let pi_bonus = current_reward * (PI_BONUS_BPS as u128) / (BPS_BASE as u128);
        (current_reward, current_era, next_circle, cycles_until, pi_bonus)
    }

    /// Whether the next completion pays a full-circle bonus.
    pub fn is_next_cycle_circle_complete(&self) -> (r: bool)
        requires
            self.cycles_completed < u64::MAX,
        ensures
            r == ((self.cycles_completed + 1) as int % (HALVING_PERIOD as int) == 0),
    {
        (self.cycles_completed + 1) % HALVING_PERIOD == 0
    }

    /// The emission table of the next five eras: (era, first cycle, reward).
    pub fn get_reward_schedule(&self) -> (r: Vec<(u64, u64, u128)>)
        ensures
            r@.len() == 5,
            forall|e: int|
                0 <= e < 5 ==> #[trigger] r@[e] == (
                    e as u64,
                    (e * (HALVING_PERIOD as int)) as u64,
                    (BASE_REWARD_ATTO as int / sp_pow2(e as nat) as int) as u128,
                ),
    {
        let mut r: Vec<(u64, u64, u128)> = Vec::new();
        let mut divisor: u128 = 1;
        let mut era: u64 = 0;
        while era < 5
            invariant
                era <= 5,
                r@.len() == era,
                divisor == sp_pow2(era as nat),
                1 <= divisor <= 1024,
                forall|e: int|
                    0 <= e < era ==> #[trigger] r@[e] == (
                        e as u64,
                        (e * (HALVING_PERIOD as int)) as u64,
                        (BASE_REWARD_ATTO as int / sp_pow2(e as nat) as int) as u128,
                    ),
            decreases 5 - era,
        {
            proof {
                lemma_pow2_le((era + 1) as nat, 10);
                lemma_pow2_1024();
            }
            let start_cycle = era * HALVING_PERIOD;
            let reward = BASE_REWARD_ATTO / divisor;
            r.push((era, start_cycle, reward));
            divisor = divisor * 2;
            era = era + 1;
        }
        r
    }

    pub fn get_total_burned(&self) -> (r: u128)
        ensures
            r == self.total_burned,
    {
        self.total_burned
    }

    pub fn get_burn_per_sc(&self) -> (r: u128)
        ensures
            r == self.burn_per_sc,
    {
        self.burn_per_sc
    }

    /// Burn overview: total burned, per-account burn, estimated next burn.
    pub fn get_burn_stats(&self) -> (r: (u128, u128, u128))
        requires
            self.burn_per_sc as int * active_idxs(self.participants@).len() <= u128::MAX,
        ensures
            r.0 == self.total_burned,
            r.1 == self.burn_per_sc,
            r.2 == self.burn_per_sc as int * active_idxs(self.participants@).len(),
    {
        let active = self.get_active_contracts();
        let estimated = self.burn_per_sc * (active.len() as u128);
        (self.total_burned, self.burn_per_sc, estimated)
    }

    pub fn get_total_distributed_treasury(&self) -> (r: u128)
        ensures
            r == self.total_distributed_treasury,
    {
        self.total_distributed_treasury
    }

    pub fn get_total_distributed_dao(&self) -> (r: u128)
        ensures
            r == self.total_distributed_dao,
    {
        self.total_distributed_dao
    }

    pub fn get_pending_liquidity_egld(&self) -> (r: u128)
        ensures
            r == self.pending_liquidity_egld,
    {
        self.pending_liquidity_egld
    }

    pub fn is_distribution_enabled(&self) -> (r: bool)
        ensures
            r == self.distribution_enabled,
    {
        self.distribution_enabled
    }

    /// Starter-bonus overview: percentage, recorded starter, potential bonus
    /// for the cycle closing next, total distributed so far.
    pub fn get_starter_bonus_info(&self) -> (r: (u64, Option<u64>, u128, u128))
        requires
            self.wf(),
        ensures
            r.0 == self.starter_bonus_percentage,
            r.1 == self.cycle_starter,
            r.3 == self.total_starter_bonus_distributed,
            ({
                let n = active_idxs(self.participants@).len() as int;
                let base = sp_base_cycle_reward(self.cycles_completed);
                r.2 == if self.starter_bonus_percentage == 0 {
                    0int
                } else if n > 0 {
                    (base / n) * (self.starter_bonus_percentage as int) / (BPS_BASE as int)
                } else {
                    base * (self.starter_bonus_percentage as int) / (BPS_BASE as int)
                }
            }),
    {
        let percentage = self.starter_bonus_percentage;
        let potential_bonus: u128;
        if percentage > 0 {
            let reward_per_cycle = self.calculate_option_f_reward();
            let active = self.get_active_contracts();
            let base_per_sc = if active.len() > 0 {
                proof {
                    lemma_div_le(reward_per_cycle as int, active@.len() as int);
                }
                reward_per_cycle / (active.len() as u128)
            } else {
                reward_per_cycle
            };
            proof {
                lemma_frac_le(base_per_sc as int, percentage as int, BPS_BASE as int);
            }
            potential_bonus = base_per_sc * (percentage as u128) / (BPS_BASE as u128);
        } else {
            potential_bonus = 0;
        }
        (percentage, self.cycle_starter, potential_bonus, self.total_starter_bonus_distributed)
    }

    pub fn get_starter_bonus_percentage(&self) -> (r: u64)
        ensures
            r == self.starter_bonus_percentage,
    {
        self.starter_bonus_percentage
    }

    pub fn get_cycle_starter(&self) -> (r: Option<u64>)
        ensures
            r == self.cycle_starter,
    {
        self.cycle_starter
    }

    pub fn get_total_starter_bonus_distributed(&self) -> (r: u128)
        ensures
            r == self.total_starter_bonus_distributed,
    {
        self.total_starter_bonus_distributed
    }

    pub fn get_nft_contract(&self) -> (r: Option<u64>)
        ensures
            r == self.nft_contract,
    {
        self.nft_contract
    }

    /// Whether a member's account holds one of the pioneer slots.
    pub fn is_pioneer(&self, member: u64) -> (r: bool)
        requires
            self.wf(),
        ensures
            r == match self.get_member_idx(member) {
                None => false,
                Some(i) => sp_is_pioneer(self.participants@[i].join_index),
            },
    {
        match self.find_member_sc(member) {
            None => false,
            Some(sc) => {
                proof {
                    self.lemma_member_idx_agrees(member, sc as int);
                }
                let index = self.participants[sc].join_index;
                index > 0 && index <= PIONEER_THRESHOLD
            },
        }
    }

    /// A member's join index (0 for strangers).
    pub fn get_peripheral_index(&self, member: u64) -> (r: u64)
        requires
            self.wf(),
        ensures
            r == match self.get_member_idx(member) {
                None => 0u64,
                Some(i) => self.participants@[i].join_index,
            },
    {
        match self.find_member_sc(member) {
            None => 0,
            Some(sc) => {
                proof {
                    self.lemma_member_idx_agrees(member, sc as int);
                }
                self.participants[sc].join_index
            },
        }
    }

    /// Pioneer overview: (is pioneer, join index, bonus bps, slots left).
    pub fn get_pioneer_info(&self, member: u64) -> (r: (bool, u64, u64, u64))
        requires
            self.wf(),
        ensures
            r.3 == if self.participants@.len() < PIONEER_THRESHOLD {
                PIONEER_THRESHOLD - self.participants@.len()
            } else {
                0int
            },
            (match self.get_member_idx(member) {
                None => r.0 == false && r.1 == 0 && r.2 == 0,
                Some(i) => {
                    let ji = self.participants@[i].join_index;
                    r.0 == sp_is_pioneer(ji) && r.1 == ji && r.2 == if sp_is_pioneer(ji) {
                        PIONEER_BONUS_BPS as int
                    } else {
                        0int
                    }
                },
            }),
    {
        let total = self.participants.len();
        let remaining_slots = if (total as u64) < PIONEER_THRESHOLD {
            PIONEER_THRESHOLD - (total as u64)
        } else {
            0
        };
        match self.find_member_sc(member) {
            None => (false, 0, 0, remaining_slots),
            Some(sc) => {
                proof {
                    self.lemma_member_idx_agrees(member, sc as int);
                }
                let index = self.participants[sc].join_index;
                let is_pioneer = index > 0 && index <= PIONEER_THRESHOLD;
                let bonus = if is_pioneer {
                    PIONEER_BONUS_BPS
                } else {
                    0
                };
                (is_pioneer, index, bonus, remaining_slots)
            },
        }
    }

    /// How many pioneer slots are still open.
    pub fn get_remaining_pioneer_slots(&self) -> (r: u64)
        ensures
            r == if self.participants@.len() < PIONEER_THRESHOLD {
                PIONEER_THRESHOLD - self.participants@.len()
            } else {
                0int
            },
    {
        let total = self.participants.len();
        if (total as u64) < PIONEER_THRESHOLD {
            PIONEER_THRESHOLD - (total as u64)
        } else {
            0
        }
    }

    /// Deposit-bonus overview for a member: (lifetime deposits, bonus
    /// percent, bonus bps, the cap in percent).
    pub fn get_deposit_bonus_info(&self, member: u64) -> (r: (u128, u64, u64, u64))
        requires
            self.wf(),
        ensures
            r.0 == deposits_of(self.deposits@, member),
            r.1 == sp_deposit_bonus_percent(deposits_of(self.deposits@, member)),
            r.2 == sp_deposit_bonus_bps(deposits_of(self.deposits@, member)),
            r.3 == 360,
    {
        let deposits = self.lookup_deposits(member);
        let bonus_percent = self.calculate_deposit_bonus_percent(deposits);
        let bonus_bps = self.calculate_deposit_bonus_bps(deposits);
        (deposits, bonus_percent, bonus_bps, 360)
    }

    /// A member's lifetime deposits.
    pub fn get_member_egld_deposits(&self, member: u64) -> (r: u128)
        requires
            self.wf(),
        ensures
            r == deposits_of(self.deposits@, member),
    {
        self.lookup_deposits(member)
    }

    /// A member's deposit bonus in whole percent.
    pub fn get_deposit_bonus_percent(&self, member: u64) -> (r: u64)
        requires
            self.wf(),
        ensures
            r == sp_deposit_bonus_percent(deposits_of(self.deposits@, member)),
    {
        let deposits = self.lookup_deposits(member);
        self.calculate_deposit_bonus_percent(deposits)
    }

    pub fn get_total_egld_deposits(&self) -> (r: u128)
        ensures
            r == self.total_egld_deposits,
    {
        self.total_egld_deposits
    }

    /// All bonus figures for a member: (is pioneer, pioneer bps, deposit bps,
    /// total bps).
    pub fn get_all_bonuses(&self, member: u64) -> (r: (bool, u64, u64, u64))
        requires
            self.wf(),
        ensures
            match self.get_member_idx(member) {
                None => r == (false, 0u64, 0u64, 0u64),
                Some(i) => {
                    let pio = sp_is_pioneer(self.participants@[i].join_index);
                    let pbps: int = if pio {
                        PIONEER_BONUS_BPS as int
                    } else {
                        0
                    };
                    let dbps = sp_deposit_bonus_bps(deposits_of(self.deposits@, member));
                    r.0 == pio && r.1 == pbps && r.2 == dbps && r.3 == pbps + dbps
                },
            },
    {
        match self.find_member_sc(member) {
            None => (false, 0, 0, 0),
            Some(sc) => {
                proof {
                    self.lemma_member_idx_agrees(member, sc as int);
                }
                let index = self.participants[sc].join_index;
                let is_pioneer = index > 0 && index <= PIONEER_THRESHOLD;
                let pioneer_bonus_bps = if is_pioneer {
                    PIONEER_BONUS_BPS
                } else {
                    0
                };
                let deposits = self.lookup_deposits(member);
                let deposit_bonus_bps = self.calculate_deposit_bonus_bps(deposits);
                proof {
                    lemma_div_le(deposits as int, crate::center::ONE_EGLD as int);
                }
                (
                    is_pioneer,
                    pioneer_bonus_bps,
                    deposit_bonus_bps,
                    pioneer_bonus_bps + deposit_bonus_bps,
                )
            },
        }
    }
}

} // verus!
