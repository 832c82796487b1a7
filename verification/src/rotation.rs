//! The rotation state machine: enrollment, consent (pre- and auto-signing),
//! the single-step and batched advancement of the circulating amount, cycle
//! completion with its reward staging, and failure handling with the
//! progressive ban.

use vstd::prelude::*;

use crate::center::{
    active_idxs, dep_keys_distinct, deposits_of, is_member_sc, lemma_active_idxs_congruent, lemma_active_idxs_props,
    lemma_base_reward_bounds, lemma_deposits_of_at, lemma_div_le,
    lemma_frac_le, lemma_grant_bounds, lemma_mul_div_le, sp_after_infraction, sp_base_cycle_reward,
    sp_day_of, sp_infractions_reset, sp_is_member, sp_new_participant, sp_presigned,
    sp_reward_with_bonuses, sp_signed, CenterError, CircleOfLifeCenter, Participant,
    BAN_UNIT_SECONDS, BASE_REWARD_ATTO, BPS_BASE, GRANT_HEADROOM, HALVING_PERIOD,
    INFRACTION_RESET_DAYS, MAX_AUTO_SIGN_CYCLES, MAX_STARTER_BONUS_BPS, PI_BONUS_BPS,
    SECONDS_PER_DAY,
};
use crate::rewards::{
    sp_cycles_now, sp_emission_burn, sp_emission_burn_of, sp_emission_funded, sp_emission_per_sc,
    sp_per_sc_of, sp_pi_amount_of, sp_pi_applied, sp_pool_after_emission, sp_pool_after_emission_of,
    sp_pool_final, sp_starter_applied, sp_starter_bonus_raw, sp_starter_is,
};

verus! {

/// The integer view of an index vector.
pub open spec fn idxs_of(v: Seq<usize>) -> Seq<int> {
    v.map_values(|x: usize| x as int)
}

/// Arithmetic room an advance needs so one completion cannot overflow any
/// counter (machine limits only).
pub open spec fn sp_advance_headroom(s: CircleOfLifeCenter) -> bool {
    &&& s.cycles_completed < u64::MAX
    &&& s.cycle_epoch < u64::MAX
    &&& forall|i: int|
        0 <= i < s.participants@.len() ==> (#[trigger] s.participants@[i]).cycles_completed
            < u64::MAX
    &&& forall|i: int|
        0 <= i < s.participants@.len() ==> (#[trigger] s.participants@[i]).pending_rewards
            <= u128::MAX - GRANT_HEADROOM
    &&& s.egld_balance + s.circulation_amount <= u128::MAX
    &&& s.total_burned + s.rewards_pool <= u128::MAX
    &&& s.total_starter_bonus_distributed + s.rewards_pool <= u128::MAX
}

/// Everything one completion adds to participant `i`'s pending rewards:
/// the bonused base share for every active participant, the full-circle
/// bonus for the one that closed the loop, and the starter bonus for the
/// starter's account.
pub open spec fn sp_grant_total(s: CircleOfLifeCenter, n: int, from: int, i: int) -> int {
    let p = s.participants@[i];
    (if p.active && sp_per_sc_of(s, n) > 0 {
        sp_reward_with_bonuses(sp_per_sc_of(s, n), p, deposits_of(s.deposits@, p.owner))
    } else {
        0
    }) + (if i == from {
        sp_pi_applied(s, n)
    } else {
        0
    }) + (if sp_starter_is(s, i) {
        sp_starter_applied(s, n)
    } else {
        0
    })
}

/// Participant `i` after the completion that participant `from` closed.
pub open spec fn sp_after_complete(
    s: CircleOfLifeCenter,
    n: int,
    from: int,
    i: int,
    now: u64,
) -> Participant {
    let p = s.participants@[i];
    Participant {
        cycles_completed: (p.cycles_completed + if p.active {
            1int
        } else {
            0int
        }) as u64,
        pending_rewards: (p.pending_rewards + sp_grant_total(s, n, from, i)) as u128,
        signed_epoch: if i == from {
            s.cycle_epoch
        } else {
            p.signed_epoch
        },
        signed_at: if i == from {
            now
        } else {
            p.signed_at
        },
        ..p
    }
}

/// The full effect of one advance from position `pos` of the active ordering:
/// mid-rotation it records the signature and moves the pointer; at the wrap it
/// completes the cycle — counters step, rewards and bonuses are staged, the
/// holder clears, and the epoch increments.
pub open spec fn sp_advanced(
    s: CircleOfLifeCenter,
    t: CircleOfLifeCenter,
    pos: int,
    now: u64,
) -> bool {
    let acts = active_idxs(s.participants@);
    let n = acts.len() as int;
    let from = acts[pos];
    if pos + 1 < n {
        &&& t.participants@ == s.participants@.update(
            from,
            (Participant { signed_epoch: s.cycle_epoch, signed_at: now, ..s.participants@[from] }),
        )
        &&& t == (CircleOfLifeCenter {
            participants: t.participants,
            current_cycle_index: (pos + 1) as usize,
            cycle_holder: Some(acts[pos + 1] as usize),
            ..s
        })
    } else {
        &&& t.participants@ == Seq::new(
            s.participants@.len(),
            |i: int| sp_after_complete(s, n, from, i, now),
        )
        &&& t == (CircleOfLifeCenter {
            participants: t.participants,
            cycles_completed: (s.cycles_completed + 1) as u64,
            cycle_epoch: (s.cycle_epoch + 1) as u64,
            cycle_holder: None,
            cycle_starter: None,
            rewards_pool: sp_pool_final(s, n) as u128,
            total_burned: (s.total_burned + sp_emission_burn_of(s, n)) as u128,
            total_starter_bonus_distributed: (s.total_starter_bonus_distributed
                + sp_starter_applied(s, n)) as u128,
            egld_balance: (s.egld_balance + s.circulation_amount) as u128,
            ..s
        })
    }
}

impl CircleOfLifeCenter {
    /// The active participants in rotation order, as indices into the
    /// participant table.
    pub fn get_active_contracts(&self) -> (r: Vec<usize>)
        ensures
            idxs_of(r@) == active_idxs(self.participants@),
    {
        let mut r: Vec<usize> = Vec::new();
        let n = self.participants.len();
        let mut i: usize = 0;
        while i < n
            invariant
                i <= n,
                n == self.participants@.len(),
                idxs_of(r@) == active_idxs(self.participants@.take(i as int)),
            decreases n - i,
        {
            let ghost pre = idxs_of(r@);
            let ghost t1 = self.participants@.take((i + 1) as int);
            if self.participants[i].active {
                r.push(i);
            }
            proof {
                assert(t1.drop_last() =~= self.participants@.take(i as int));
                assert(t1.last() == self.participants@[i as int]);
                if self.participants@[i as int].active {
                    assert(active_idxs(t1) == active_idxs(t1.drop_last()).push(i as int));
                    assert(idxs_of(r@) =~= pre.push(i as int));
                } else {
                    assert(active_idxs(t1) == active_idxs(t1.drop_last()));
                }
            }
            i = i + 1;
        }
        proof {
            assert(self.participants@.take(n as int) =~= self.participants@);
        }
        r
    }

    /// The account bound to a member wallet, if the wallet is enrolled.
    pub fn find_member_sc(&self, member: u64) -> (r: Option<usize>)
        ensures
            match r {
                Some(i) => is_member_sc(self.participants@, member, i as int),
                None => !sp_is_member(self.participants@, member),
            },
    {
        let n = self.participants.len();
        let mut i: usize = 0;
        while i < n
            invariant
                i <= n,
                n == self.participants@.len(),
                forall|j: int| 0 <= j < i ==> !is_member_sc(self.participants@, member, j),
            decreases n - i,
        {
            let p = self.participants[i];
            if p.bound && p.owner == member {
                return Some(i);
            }
            i = i + 1;
        }
        None
    }

    /// Whether the account at `i` counts as pre-signed for `epoch`, by any of
    /// the three consent modes.
    pub fn is_effectively_pre_signed(&self, i: usize, epoch: u64) -> (r: bool)
        requires
            i < self.participants@.len(),
        ensures
            r == sp_presigned(self.participants@[i as int], epoch),
    {
        let p = self.participants[i];
        if p.pre_signed_epoch == epoch {
            return true;
        }
        if p.auto_sign_enabled {
            return true;
        }
        if p.auto_sign_until > 0 && epoch <= p.auto_sign_until {
            return true;
        }
        false
    }
}

/// The reasons enrollment rejects, in the order they are checked.
pub open spec fn sp_join_err(s: CircleOfLifeCenter, caller: u64, payment: u128) -> Option<
    CenterError,
> {
    if s.paused {
        Some(CenterError::Paused)
    } else if payment < s.entry_fee {
        Some(CenterError::InsufficientPayment)
    } else if sp_is_member(s.participants@, caller) {
        Some(CenterError::AlreadyMember)
    } else if s.peripheral_template is None {
        Some(CenterError::TemplateNotSet)
    } else {
        None
    }
}

impl CircleOfLifeCenter {
    /// Enrolls the caller: the entry fee is split like every inbound payment
    /// and a fresh active account with the next join index is deployed for
    /// them. Returns the new account's index.
    pub fn join_circle(&mut self, caller: u64, payment: u128) -> (r: Result<usize, CenterError>)
        requires
            old(self).wf(),
            old(self).sp_pay_headroom(payment),
            old(self).participants@.len() < u64::MAX,
        ensures
            final(self).wf(),
            r is Err ==> *final(self) == *old(self),
            (match r {
                Err(e) => Some(e) == sp_join_err(*old(self), caller, payment),
                Ok(sc) => {
                    let credited = (CircleOfLifeCenter {
                        egld_balance: (old(self).egld_balance + payment) as u128,
                        ..*old(self)
                    });
                    let split = credited.sp_after_distribution(payment);
                    &&& sp_join_err(*old(self), caller, payment) is None
                    &&& sc == old(self).participants@.len()
                    &&& final(self).participants@ == old(self).participants@.push(
                        sp_new_participant(caller, (old(self).participants@.len() + 1) as u64),
                    )
                    &&& *final(self) == (CircleOfLifeCenter {
                        participants: final(self).participants,
                        ..split
                    })
                },
            }),
    {
        self.require_not_paused()?;
        if payment < self.entry_fee {
            return Err(CenterError::InsufficientPayment);
        }
        if self.find_member_sc(caller).is_some() {
            return Err(CenterError::AlreadyMember);
        }
        if self.peripheral_template.is_none() {
            return Err(CenterError::TemplateNotSet);
        }
        self.egld_balance = self.egld_balance + payment;
        self.process_egld_distribution(payment);
        let sc = self.participants.len();
        let join_index = (sc as u64) + 1;
        let p = Participant {
            owner: caller,
            bound: true,
            active: true,
            join_index,
            cycles_completed: 0,
            cycles_failed: 0,
            ban_until: 0,
            infraction_count: 0,
            last_infraction: 0,
            pending_rewards: 0,
            pre_signed_epoch: 0,
            auto_sign_enabled: false,
            auto_sign_until: 0,
            signed_epoch: 0,
            signed_at: 0,
        };
        self.participants.push(p);
        proof {
            let ps = self.participants@;
            let ops = old(self).participants@;
            assert(ps.drop_last() =~= ops);
            assert forall|a: int, b: int| 0 <= a < b < ps.len() implies !((#[trigger] ps[a]).bound
                && (#[trigger] ps[b]).bound && ps[a].owner == ps[b].owner) by {
                if b == ps.len() - 1 {
                    assert(!is_member_sc(ops, caller, a));
                } else {
                    assert(ps[a] == ops[a] && ps[b] == ops[b]);
                }
            }
        }
        Ok(sc)
    }
}

/// The reasons `start_daily_cycle` rejects, in the order they are checked.
pub open spec fn sp_start_err(s: CircleOfLifeCenter, now: u64) -> Option<CenterError> {
    if s.paused {
        Some(CenterError::Paused)
    } else if !(sp_day_of(now) > s.cycle_day) {
        Some(CenterError::CycleAlreadyStartedToday)
    } else if active_idxs(s.participants@).len() == 0 {
        Some(CenterError::NoActiveParticipants)
    } else if s.circulation_amount == 0 {
        Some(CenterError::CirculationNotSet)
    } else if s.egld_balance < s.circulation_amount {
        Some(CenterError::InsufficientBalance)
    } else {
        None
    }
}

impl CircleOfLifeCenter {
    /// Starts the day's cycle: records the caller as starter, hands the
    /// circulating amount to the first active participant and makes it the
    /// holder. The epoch is left alone, so consent given since the previous
    /// cycle ended stays valid.
    pub fn start_daily_cycle(&mut self, caller: u64, now: u64) -> (r: Result<(), CenterError>)
        requires
            old(self).wf(),
        ensures
            final(self).wf(),
            r is Err ==> *final(self) == *old(self),
            (match r {
                Err(e) => Some(e) == sp_start_err(*old(self), now),
                Ok(()) => {
                    &&& sp_start_err(*old(self), now) is None
                    &&& *final(self) == (CircleOfLifeCenter {
                        cycle_starter: Some(caller),
                        egld_balance: (old(self).egld_balance - old(self).circulation_amount) as u128,
                        current_cycle_index: 0,
                        cycle_day: sp_day_of(now) as u64,
                        cycle_holder: Some(active_idxs(old(self).participants@)[0] as usize),
                        ..*old(self)
                    })
                },
            }),
    {
        self.require_not_paused()?;
        let current_day = self.get_current_day(now);
        if !(current_day > self.cycle_day) {
            return Err(CenterError::CycleAlreadyStartedToday);
        }
        let active_contracts = self.get_active_contracts();
        if active_contracts.len() == 0 {
            return Err(CenterError::NoActiveParticipants);
        }
        if self.circulation_amount == 0 {
            return Err(CenterError::CirculationNotSet);
        }
        if self.egld_balance < self.circulation_amount {
            return Err(CenterError::InsufficientBalance);
        }
        proof {
            lemma_active_idxs_props(self.participants@);
        }
        self.cycle_starter = Some(caller);
        let first_sc = active_contracts[0];
        self.egld_balance = self.egld_balance - self.circulation_amount;
        self.current_cycle_index = 0;
        self.cycle_day = current_day;
        self.cycle_holder = Some(first_sc);
        Ok(())
    }
}

/// The reasons `pre_sign` rejects, in the order they are checked.
pub open spec fn sp_pre_sign_err(s: CircleOfLifeCenter, caller: u64) -> Option<CenterError> {
    if s.paused {
        Some(CenterError::Paused)
    } else if !sp_is_member(s.participants@, caller) {
        Some(CenterError::NotMember)
    } else {
        let i = choose|i: int| is_member_sc(s.participants@, caller, i);
        if !s.participants@[i].active {
            Some(CenterError::InactiveAccount)
        } else if s.participants@[i].pre_signed_epoch == s.cycle_epoch {
            Some(CenterError::AlreadyPreSigned)
        } else if sp_signed(s.participants@[i], s.cycle_epoch) {
            Some(CenterError::AlreadySigned)
        } else {
            None
        }
    }
}

impl CircleOfLifeCenter {
    /// Grants one-epoch consent: the caller's account counts as pre-signed
    /// for the current epoch only.
    pub fn pre_sign(&mut self, caller: u64) -> (r: Result<(), CenterError>)
        requires
            old(self).wf(),
        ensures
            final(self).wf(),
            r is Err ==> *final(self) == *old(self),
            (match r {
                Err(e) => Some(e) == sp_pre_sign_err(*old(self), caller),
                Ok(()) => {
                    &&& sp_pre_sign_err(*old(self), caller) is None
                    &&& exists|i: int|
                        {
                            &&& is_member_sc(old(self).participants@, caller, i)
                            &&& final(self).participants@ == old(self).participants@.update(
                                i,
                                (Participant {
                                    pre_signed_epoch: old(self).cycle_epoch,
                                    ..old(self).participants@[i]
                                }),
                            )
                        }
                    &&& *final(self) == (CircleOfLifeCenter {
                        participants: final(self).participants,
                        ..*old(self)
                    })
                },
            }),
    {
        self.require_not_paused()?;
        let sc = match self.find_member_sc(caller) {
            None => {
                return Err(CenterError::NotMember);
            },
            Some(sc) => sc,
        };
        proof {
            let i0 = choose|i: int| is_member_sc(old(self).participants@, caller, i);
            assert(i0 == sc as int);
        }
        let p = self.participants[sc];
        if !p.active {
            return Err(CenterError::InactiveAccount);
        }
        if p.pre_signed_epoch == self.cycle_epoch {
            return Err(CenterError::AlreadyPreSigned);
        }
        if p.signed_epoch == self.cycle_epoch {
            return Err(CenterError::AlreadySigned);
        }
        let p2 = Participant { pre_signed_epoch: self.cycle_epoch, ..p };
        self.participants.set(sc, p2);
        Ok(())
    }

    /// Grants standing consent for every future epoch; clears any bounded
    /// auto-signature.
    pub fn enable_auto_sign(&mut self, caller: u64) -> (r: Result<(), CenterError>)
        requires
            old(self).wf(),
        ensures
            final(self).wf(),
            r is Err ==> *final(self) == *old(self),
            (match r {
                Err(e) => {
                    if old(self).paused {
                        e == CenterError::Paused
                    } else if !sp_is_member(old(self).participants@, caller) {
                        e == CenterError::NotMember
                    } else {
                        e == CenterError::InactiveAccount && (exists|i: int|
                            is_member_sc(old(self).participants@, caller, i) && !old(self).participants@[i].active)
                    }
                },
                Ok(()) => exists|i: int|
                    {
                        &&& is_member_sc(old(self).participants@, caller, i)
                        &&& old(self).participants@[i].active
                        &&& final(self).participants@ == old(self).participants@.update(
                            i,
                            (Participant {
                                auto_sign_enabled: true,
                                auto_sign_until: 0,
                                ..old(self).participants@[i]
                            }),
                        )
                        &&& *final(self) == (CircleOfLifeCenter {
                            participants: final(self).participants,
                            ..*old(self)
                        })
                    },
            }),
    {
        self.require_not_paused()?;
        let sc = match self.find_member_sc(caller) {
            None => {
                return Err(CenterError::NotMember);
            },
            Some(sc) => sc,
        };
        let p = self.participants[sc];
        if !p.active {
            return Err(CenterError::InactiveAccount);
        }
        let p2 = Participant { auto_sign_enabled: true, auto_sign_until: 0, ..p };
        self.participants.set(sc, p2);
        Ok(())
    }

    /// Grants consent for the next `num_cycles` epochs (1 to 365); clears the
    /// permanent flag.
    pub fn enable_auto_sign_for_cycles(&mut self, caller: u64, num_cycles: u64) -> (r: Result<
        (),
        CenterError,
    >)
        requires
            old(self).wf(),
            old(self).cycle_epoch + MAX_AUTO_SIGN_CYCLES <= u64::MAX,
        ensures
            final(self).wf(),
            r is Err ==> *final(self) == *old(self),
            (match r {
                Err(e) => {
                    if old(self).paused {
                        e == CenterError::Paused
                    } else if num_cycles < 1 || num_cycles > MAX_AUTO_SIGN_CYCLES {
                        e == CenterError::InvalidCycleCount
                    } else if !sp_is_member(old(self).participants@, caller) {
                        e == CenterError::NotMember
                    } else {
                        e == CenterError::InactiveAccount && (exists|i: int|
                            is_member_sc(old(self).participants@, caller, i) && !old(self).participants@[i].active)
                    }
                },
                Ok(()) => exists|i: int|
                    {
                        &&& is_member_sc(old(self).participants@, caller, i)
                        &&& old(self).participants@[i].active
                        &&& 1 <= num_cycles <= MAX_AUTO_SIGN_CYCLES
                        &&& final(self).participants@ == old(self).participants@.update(
                            i,
                            (Participant {
                                auto_sign_enabled: false,
                                auto_sign_until: (old(self).cycle_epoch + num_cycles) as u64,
                                ..old(self).participants@[i]
                            }),
                        )
                        &&& *final(self) == (CircleOfLifeCenter {
                            participants: final(self).participants,
                            ..*old(self)
                        })
                    },
            }),
    {
        self.require_not_paused()?;
        if num_cycles < 1 || num_cycles > MAX_AUTO_SIGN_CYCLES {
            return Err(CenterError::InvalidCycleCount);
        }
        let sc = match self.find_member_sc(caller) {
            None => {
                return Err(CenterError::NotMember);
            },
            Some(sc) => sc,
        };
        let p = self.participants[sc];
        if !p.active {
            return Err(CenterError::InactiveAccount);
        }
        let until_epoch = self.cycle_epoch + num_cycles;
        let p2 = Participant { auto_sign_enabled: false, auto_sign_until: until_epoch, ..p };
        self.participants.set(sc, p2);
        Ok(())
    }

    /// Withdraws both consent modes. Works even while paused.
    pub fn disable_auto_sign(&mut self, caller: u64) -> (r: Result<(), CenterError>)
        requires
            old(self).wf(),
        ensures
            final(self).wf(),
            r is Err ==> *final(self) == *old(self) && r == Result::<(), CenterError>::Err(
                CenterError::NotMember,
            ) && !sp_is_member(old(self).participants@, caller),
            r is Ok ==> exists|i: int|
                {
                    &&& is_member_sc(old(self).participants@, caller, i)
                    &&& final(self).participants@ == old(self).participants@.update(
                        i,
                        (Participant {
                            auto_sign_enabled: false,
                            auto_sign_until: 0,
                            ..old(self).participants@[i]
                        }),
                    )
                    &&& *final(self) == (CircleOfLifeCenter {
                        participants: final(self).participants,
                        ..*old(self)
                    })
                },
    {
        let sc = match self.find_member_sc(caller) {
            None => {
                return Err(CenterError::NotMember);
            },
            Some(sc) => sc,
        };
        let p = self.participants[sc];
        let p2 = Participant { auto_sign_enabled: false, auto_sign_until: 0, ..p };
        self.participants.set(sc, p2);
        Ok(())
    }

    /// A member steps its own account out of the rotation.
    pub fn set_inactive(&mut self, caller: u64) -> (r: Result<(), CenterError>)
        requires
            old(self).wf(),
        ensures
            final(self).wf(),
            r is Err ==> *final(self) == *old(self) && r == Result::<(), CenterError>::Err(
                CenterError::NotMember,
            ) && !sp_is_member(old(self).participants@, caller),
            r is Ok ==> exists|i: int|
                {
                    &&& is_member_sc(old(self).participants@, caller, i)
                    &&& final(self).participants@ == old(self).participants@.update(
                        i,
                        (Participant { active: false, ..old(self).participants@[i] }),
                    )
                    &&& *final(self) == (CircleOfLifeCenter {
                        participants: final(self).participants,
                        ..*old(self)
                    })
                },
    {
        let sc = match self.find_member_sc(caller) {
            None => {
                return Err(CenterError::NotMember);
            },
            Some(sc) => sc,
        };
        let p = self.participants[sc];
        let p2 = Participant { active: false, ..p };
        self.participants.set(sc, p2);
        Ok(())
    }

    /// A member steps its account back in, once any ban has expired.
    pub fn set_active(&mut self, caller: u64, now: u64) -> (r: Result<(), CenterError>)
        requires
            old(self).wf(),
        ensures
            final(self).wf(),
            r is Err ==> *final(self) == *old(self),
            (match r {
                Err(e) => {
                    if !sp_is_member(old(self).participants@, caller) {
                        e == CenterError::NotMember
                    } else {
                        e == CenterError::StillBanned && (exists|i: int|
                            is_member_sc(old(self).participants@, caller, i) && now < old(self).participants@[i].ban_until)
                    }
                },
                Ok(()) => exists|i: int|
                    {
                        &&& is_member_sc(old(self).participants@, caller, i)
                        &&& now >= old(self).participants@[i].ban_until
                        &&& final(self).participants@ == old(self).participants@.update(
                            i,
                            (Participant { active: true, ..old(self).participants@[i] }),
                        )
                        &&& *final(self) == (CircleOfLifeCenter {
                            participants: final(self).participants,
                            ..*old(self)
                        })
                    },
            }),
    {
        let sc = match self.find_member_sc(caller) {
            None => {
                return Err(CenterError::NotMember);
            },
            Some(sc) => sc,
        };
        let p = self.participants[sc];
        if now < p.ban_until {
            return Err(CenterError::StillBanned);
        }
        let p2 = Participant { active: true, ..p };
        self.participants.set(sc, p2);
        Ok(())
    }

    /// A member leaves: the account is deactivated and unbound from the
    /// wallet. The account itself, its index and its history remain.
    pub fn leave_circle(&mut self, caller: u64) -> (r: Result<(), CenterError>)
        requires
            old(self).wf(),
        ensures
            final(self).wf(),
            r is Err ==> *final(self) == *old(self) && r == Result::<(), CenterError>::Err(
                CenterError::NotMember,
            ) && !sp_is_member(old(self).participants@, caller),
            r is Ok ==> exists|i: int|
                {
                    &&& is_member_sc(old(self).participants@, caller, i)
                    &&& final(self).participants@ == old(self).participants@.update(
                        i,
                        (Participant { active: false, bound: false, ..old(self).participants@[i] }),
                    )
                    &&& *final(self) == (CircleOfLifeCenter {
                        participants: final(self).participants,
                        ..*old(self)
                    })
                },
    {
        let sc = match self.find_member_sc(caller) {
            None => {
                return Err(CenterError::NotMember);
            },
            Some(sc) => sc,
        };
        let p = self.participants[sc];
        let p2 = Participant { active: false, bound: false, ..p };
        self.participants.set(sc, p2);
        Ok(())
    }

    /// Migration helper: fills in missing join indices. Under the invariant
    /// every index is already assigned, so this is a checked no-op.
    pub fn initialize_pioneer_indices(&mut self, caller: u64) -> (r: Result<(), CenterError>)
        requires
            old(self).wf(),
        ensures
            final(self).wf(),
            *final(self) == *old(self),
            r is Ok <==> caller == old(self).owner,
            r is Err ==> r == Result::<(), CenterError>::Err(CenterError::OwnerOnly),
    {
        self.require_owner(caller)?;
        let n = self.participants.len();
        let mut i: usize = 0;
        while i < n
            invariant
                i <= n,
                n == self.participants@.len(),
                *self == *old(self),
                old(self).wf(),
            decreases n - i,
        {
            if self.participants[i].join_index == 0 {
                let p = self.participants[i];
                let p2 = Participant { join_index: (i as u64) + 1, ..p };
                self.participants.set(i, p2);
                proof {
                    assert(old(self).participants@[i as int].join_index == i + 1);
                    assert(false);
                }
            }
            i = i + 1;
        }
        Ok(())
    }
}


// ───────────────────────── the advance itself ─────────────────────────

impl CircleOfLifeCenter {
    /// Executes one forward from position `pos` of the active ordering:
    /// records the signature and either moves the holder pointer on or, at
    /// the wrap, completes the cycle. Validation is the callers' duty.
    /// Returns whether the cycle completed.
    /// Grants one completion's per-participant rewards: every active
    /// participant's completed-cycle counter steps and, when the emission is
    /// funded, its bonused share is staged.
    #[verifier::loop_isolation(false)]
    fn grant_completion_rewards(&mut self, per: u128, active: &Vec<usize>)
        requires
            dep_keys_distinct(old(self).deposits@),
            idxs_of(active@) == active_idxs(old(self).participants@),
            0 < active@.len(),
            per <= BASE_REWARD_ATTO,
            forall|i: int|
                0 <= i < old(self).participants@.len() ==> (#[trigger] old(self).participants@[i]).cycles_completed < u64::MAX,
            forall|i: int|
                0 <= i < old(self).participants@.len() ==> (#[trigger] old(self).participants@[i]).pending_rewards <= u128::MAX - GRANT_HEADROOM
                    + BASE_REWARD_ATTO,
        ensures
            final(self).participants@.len() == old(self).participants@.len(),
            forall|j: int|
                0 <= j < active_idxs(old(self).participants@).len() ==> (#[trigger] final(self).participants@[active_idxs(old(self).participants@)[j]])
                    == (Participant {
                    cycles_completed: (old(self).participants@[active_idxs(
                        old(self).participants@,
                    )[j]].cycles_completed + 1) as u64,
                    pending_rewards: (old(self).participants@[active_idxs(
                        old(self).participants@,
                    )[j]].pending_rewards + (if per > 0 {
                        sp_reward_with_bonuses(
                            per as int,
                            old(self).participants@[active_idxs(old(self).participants@)[j]],
                            deposits_of(
                                old(self).deposits@,
                                old(self).participants@[active_idxs(
                                    old(self).participants@,
                                )[j]].owner,
                            ),
                        )
                    } else {
                        0int
                    })) as u128,
                    ..old(self).participants@[active_idxs(old(self).participants@)[j]]
                }),
            forall|i: int|
                0 <= i < old(self).participants@.len() && !(#[trigger] old(self).participants@[i]).active ==> final(self).participants@[i] == old(self).participants@[i],
            *final(self) == (CircleOfLifeCenter {
                participants: final(self).participants,
                ..*old(self)
            }),
    {
        let ghost s2 = *old(self);
        let ghost acts = active_idxs(s2.participants@);
        let ghost nn = acts.len() as int;
        proof {
            lemma_active_idxs_props(s2.participants@);
        }
        let n = active.len();
        let mut k: usize = 0;
        while k < n
            invariant
                k <= n,
                self.participants@.len() == s2.participants@.len(),
                forall|j: int|
                    0 <= j < k ==> self.participants@[#[trigger] acts[j]] == (Participant {
                        cycles_completed: (s2.participants@[acts[j]].cycles_completed + 1) as u64,
                        pending_rewards: (s2.participants@[acts[j]].pending_rewards + (if per > 0 {
                            sp_reward_with_bonuses(
                                per as int,
                                s2.participants@[acts[j]],
                                deposits_of(s2.deposits@, s2.participants@[acts[j]].owner),
                            )
                        } else {
                            0int
                        })) as u128,
                        ..s2.participants@[acts[j]]
                    }),
                forall|j: int|
                    k <= j < nn ==> self.participants@[#[trigger] acts[j]]
                        == s2.participants@[acts[j]],
                forall|i: int|
                    0 <= i < s2.participants@.len() && !(#[trigger] s2.participants@[i]).active
                        ==> self.participants@[i] == s2.participants@[i],
                *self == (CircleOfLifeCenter { participants: self.participants, ..s2 }),
            decreases n - k,
        {
            let i = active[k];
            proof {
                assert(idxs_of(active@)[k as int] == active@[k as int] as int);
                assert(i as int == acts[k as int]);
                assert(i < self.participants@.len());
                assert(self.participants@[i as int] == s2.participants@[i as int]);
            }
            let mut p = self.participants[i];
            p.cycles_completed = p.cycles_completed + 1;
            if per > 0 {
                let grant = self.calculate_final_reward_with_bonuses(per, i);
                proof {
                    assert(grant <= 6 * BASE_REWARD_ATTO);
                }
                p.pending_rewards = p.pending_rewards + grant;
            }
            self.participants.set(i, p);
            proof {
                assert forall|j1: int, j2: int|
                    0 <= j1 < j2 < nn implies acts[j1] != acts[j2] by {
                    assert(acts[j1] < acts[j2]);
                }
            }
            k = k + 1;
        }
    }

    /// Whether and how much starter bonus this completion pays, judged on the
    /// state right after the emission and the full-circle bonus.
    pub open spec fn sp_starter_grant(self, n: int) -> int {
        match self.cycle_starter {
            None => 0,
            Some(st) => {
                let raw = (sp_base_cycle_reward(self.cycles_completed) / n) * (
                self.starter_bonus_percentage as int) / (BPS_BASE as int);
                if self.starter_bonus_percentage > 0 && sp_is_member(self.participants@, st) && raw
                    > 0 && self.rewards_pool >= raw {
                    raw
                } else {
                    0
                }
            },
        }
    }

    /// Stages the starter bonus, when one is due and the pool covers it, and
    /// clears the starter record.
    #[verifier::loop_isolation(false)]
    fn stage_starter_bonus(&mut self, active: &Vec<usize>)
        requires
            old(self).wf(),
            idxs_of(active@) == active_idxs(old(self).participants@),
            0 < active@.len(),
            forall|i: int|
                0 <= i < old(self).participants@.len() ==> (#[trigger] old(self).participants@[i]).pending_rewards <= u128::MAX - GRANT_HEADROOM + 7
                    * BASE_REWARD_ATTO,
            old(self).total_starter_bonus_distributed + old(self).rewards_pool <= u128::MAX,
        ensures
            final(self).cycle_starter is None,
            final(self).rewards_pool == old(self).rewards_pool - old(self).sp_starter_grant(
                active_idxs(old(self).participants@).len() as int,
            ),
            final(self).total_starter_bonus_distributed == old(self).total_starter_bonus_distributed + old(self).sp_starter_grant(
                active_idxs(old(self).participants@).len() as int,
            ),
            final(self).participants@.len() == old(self).participants@.len(),
            forall|i: int|
                0 <= i < old(self).participants@.len() ==> #[trigger] final(self).participants@[i]
                    == (Participant {
                    pending_rewards: (old(self).participants@[i].pending_rewards + (if (match old(self).cycle_starter {
                        Some(st) => is_member_sc(old(self).participants@, st, i),
                        None => false,
                    }) {
                        old(self).sp_starter_grant(
                            active_idxs(old(self).participants@).len() as int,
                        )
                    } else {
                        0int
                    })) as u128,
                    ..old(self).participants@[i]
                }),
            *final(self) == (CircleOfLifeCenter {
                participants: final(self).participants,
                cycle_starter: None,
                rewards_pool: final(self).rewards_pool,
                total_starter_bonus_distributed: final(self).total_starter_bonus_distributed,
                ..*old(self)
            }),
    {
        let ghost s3 = *old(self);
        let ghost nn = active_idxs(s3.participants@).len() as int;
        let ghost gr = s3.sp_starter_grant(nn);
        proof {
            lemma_active_idxs_props(s3.participants@);
            lemma_base_reward_bounds(s3.cycles_completed);
            lemma_div_le(sp_base_cycle_reward(s3.cycles_completed), nn);
            lemma_frac_le(
                sp_base_cycle_reward(s3.cycles_completed) / nn,
                s3.starter_bonus_percentage as int,
                BPS_BASE as int,
            );
            assert(0 <= gr <= BASE_REWARD_ATTO);
        }
        match self.cycle_starter {
            None => {
                proof {
                    assert(gr == 0);
                }
            },
            Some(starter) => {
                if self.starter_bonus_percentage > 0 {
                    match self.find_member_sc(starter) {
                        None => {
                            proof {
                                assert(gr == 0);
                            }
                        },
                        Some(si) => {
                            let count = active.len();
                            let reward_per_cycle = self.calculate_option_f_reward();
                            let base_per_sc = reward_per_cycle / (count as u128);
                            let bonus = base_per_sc * (self.starter_bonus_percentage as u128) / (
                            BPS_BASE as u128);
                            if bonus > 0 {
                                if self.rewards_pool >= bonus {
                                    proof {
                                        assert(gr == bonus);
                                    }
                                    let mut ps = self.participants[si];
                                    ps.pending_rewards = ps.pending_rewards + bonus;
                                    self.participants.set(si, ps);
                                    self.rewards_pool = self.rewards_pool - bonus;
                                    self.total_starter_bonus_distributed =
                                        self.total_starter_bonus_distributed + bonus;
                                } else {
                                    proof {
                                        assert(gr == 0);
                                    }
                                }
                            } else {
                                proof {
                                    assert(gr == 0);
                                }
                            }
                        },
                    }
                } else {
                    proof {
                        assert(gr == 0);
                    }
                }
                self.cycle_starter = None;
            },
        }
        proof {
            assert forall|i: int|
                0 <= i < s3.participants@.len() implies #[trigger] self.participants@[i]
                    == (Participant {
                    pending_rewards: (s3.participants@[i].pending_rewards + (if (match s3
                        .cycle_starter {
                        Some(st) => is_member_sc(s3.participants@, st, i),
                        None => false,
                    }) {
                        gr
                    } else {
                        0int
                    })) as u128,
                    ..s3.participants@[i]
                }) by {
                match s3.cycle_starter {
                    None => {},
                    Some(st) => {
                        if is_member_sc(s3.participants@, st, i) {
                            assert(sp_is_member(s3.participants@, st));
                        }
                    },
                }
            }
        }
    }

    /// Executes one forward from position `pos` of the active ordering:
    /// records the signature and either moves the holder pointer on or, at
    /// the wrap, completes the cycle. Validation is the callers' duty.
    /// Returns whether the cycle completed.
    #[verifier::rlimit(100)]
    pub fn execute_transfer(&mut self, pos: usize, active: &Vec<usize>, now: u64) -> (completed:
        bool)
        requires
            old(self).wf(),
            sp_advance_headroom(*old(self)),
            idxs_of(active@) == active_idxs(old(self).participants@),
            0 < active@.len(),
            pos < active@.len(),
        ensures
            final(self).wf(),
            completed == (pos + 1 == active@.len()),
            sp_advanced(*old(self), *final(self), pos as int, now),
    {
        let ghost s = *old(self);
        let ghost acts = active_idxs(s.participants@);
        let ghost nn = acts.len() as int;
        proof {
            lemma_active_idxs_props(s.participants@);
            assert(idxs_of(active@)[pos as int] == active@[pos as int] as int);
            lemma_base_reward_bounds(sp_cycles_now(s));
            lemma_frac_le(
                sp_base_cycle_reward(sp_cycles_now(s)),
                PI_BONUS_BPS as int,
                BPS_BASE as int,
            );
            lemma_div_le(sp_base_cycle_reward(sp_cycles_now(s)), nn);
            lemma_mul_div_le(sp_base_cycle_reward(sp_cycles_now(s)), nn);
            lemma_frac_le(
                sp_base_cycle_reward(sp_cycles_now(s)) / nn,
                s.starter_bonus_percentage as int,
                BPS_BASE as int,
            );
        }
        let ghost pi_app = sp_pi_applied(s, nn);
        let ghost st_app = sp_starter_applied(s, nn);
        proof {
            assert(0 <= pi_app <= BASE_REWARD_ATTO);
            assert(0 <= st_app <= BASE_REWARD_ATTO);
        }
        let n = active.len();
        let from = active[pos];
        let ghost fromi = from as int;
        proof {
            assert(fromi == acts[pos as int]);
            assert(from < self.participants@.len());
            assert(s.participants@[fromi].active);
        }
        let mut pfrom = self.participants[from];
        pfrom.signed_epoch = self.cycle_epoch;
        pfrom.signed_at = now;
        self.participants.set(from, pfrom);
        let amount = self.circulation_amount;
        if pos + 1 < n {
            self.current_cycle_index = pos + 1;
            let next_sc = active[pos + 1];
            proof {
                assert(idxs_of(active@)[pos as int + 1] == active@[pos as int + 1] as int);
                assert(next_sc as int == acts[pos as int + 1]);
                assert(next_sc < self.participants@.len());
            }
            self.cycle_holder = Some(next_sc);
            false
        } else {
            self.cycles_completed = self.cycles_completed + 1;
            let per = self.calculate_reward_per_participant(n);
            proof {
                assert(0 <= sp_emission_burn_of(s, nn) <= s.rewards_pool);
                assert(0 <= sp_pool_after_emission_of(s, nn) <= s.rewards_pool);
                assert(per == sp_per_sc_of(s, nn));
                assert(0 <= per <= BASE_REWARD_ATTO);
                assert(self.rewards_pool == sp_pool_after_emission_of(s, nn));
                assert(self.total_burned == s.total_burned + sp_emission_burn_of(s, nn));
            }
            let cycles_now = self.cycles_completed;
            if cycles_now % HALVING_PERIOD == 0 {
                let reward_per_cycle = self.calculate_option_f_reward();
                let pi_bonus = reward_per_cycle * (PI_BONUS_BPS as u128) / (BPS_BASE as u128);
                proof {
                    assert(pi_bonus == sp_pi_amount_of(s));
                    assert(pi_bonus <= BASE_REWARD_ATTO);
                }
                if pi_bonus > 0 {
                    if self.rewards_pool >= pi_bonus {
                        proof {
                            assert(pi_app == pi_bonus);
                        }
                        let mut pf = self.participants[from];
                        proof {
                            assert(pf.pending_rewards == s.participants@[fromi].pending_rewards);
                            assert(pf.pending_rewards <= u128::MAX - GRANT_HEADROOM);
                        }
                        pf.pending_rewards = pf.pending_rewards + pi_bonus;
                        self.participants.set(from, pf);
                        self.rewards_pool = self.rewards_pool - pi_bonus;
                    } else {
                        proof {
                            assert(pi_app == 0);
                        }
                    }
                } else {
                    proof {
                        assert(pi_app == 0);
                    }
                }
            } else {
                proof {
                    assert(pi_app == 0);
                }
            }
            let ghost s2 = *self;
            proof {
                assert(self.rewards_pool == sp_pool_after_emission_of(s, nn) - pi_app);
                assert(s2.participants@.len() == s.participants@.len());
                assert(forall|i: int|
                    0 <= i < s.participants@.len() && i != fromi ==> s2.participants@[i]
                        == s.participants@[i]);
                assert(s2.participants@[fromi] == (Participant {
                    signed_epoch: s.cycle_epoch,
                    signed_at: now,
                    pending_rewards: (s.participants@[fromi].pending_rewards + pi_app) as u128,
                    ..s.participants@[fromi]
                }));
                assert(s2 == (CircleOfLifeCenter {
                    participants: s2.participants,
                    cycles_completed: (s.cycles_completed + 1) as u64,
                    rewards_pool: (sp_pool_after_emission_of(s, nn) - pi_app) as u128,
                    total_burned: (s.total_burned + sp_emission_burn_of(s, nn)) as u128,
                    ..s
                }));
                assert forall|i: int|
                    0 <= i < s.participants@.len() implies (#[trigger] s2.participants@[i]).active
                        == s.participants@[i].active && s2.participants@[i].cycles_completed
                        == s.participants@[i].cycles_completed
                        && s2.participants@[i].pending_rewards <= u128::MAX - GRANT_HEADROOM
                        + BASE_REWARD_ATTO && s2.participants@[i].join_index
                        == s.participants@[i].join_index && s2.participants@[i].owner
                        == s.participants@[i].owner && s2.participants@[i].bound
                        == s.participants@[i].bound by {
                    if i != fromi {
                        assert(s2.participants@[i] == s.participants@[i]);
                    }
                }
                lemma_active_idxs_congruent(s2.participants@, s.participants@);
            }
            self.grant_completion_rewards(per, active);
            let ghost s3 = *self;
            proof {
                assert forall|i: int|
                    0 <= i < s.participants@.len() implies {
                    let g: int = if s.participants@[i].active && per > 0 {
                        sp_reward_with_bonuses(
                            per as int,
                            s.participants@[i],
                            deposits_of(s.deposits@, s.participants@[i].owner),
                        )
                    } else {
                        0
                    };
                    (#[trigger] s3.participants@[i]) == (Participant {
                        cycles_completed: (s2.participants@[i].cycles_completed + (
                        if s.participants@[i].active {
                            1int
                        } else {
                            0int
                        })) as u64,
                        pending_rewards: (s2.participants@[i].pending_rewards + g) as u128,
                        ..s2.participants@[i]
                    })
                } by {
                    if s.participants@[i].active {
                        let j = choose|j: int| 0 <= j < acts.len() && acts[j] == i;
                        assert(s3.participants@[acts[j]] == s3.participants@[i]);
                        if per > 0 {
                            assert(sp_reward_with_bonuses(
                                per as int,
                                s2.participants@[i],
                                deposits_of(s2.deposits@, s2.participants@[i].owner),
                            ) == sp_reward_with_bonuses(
                                per as int,
                                s.participants@[i],
                                deposits_of(s.deposits@, s.participants@[i].owner),
                            ));
                        }
                    }
                }
                assert(s3 == (CircleOfLifeCenter { participants: s3.participants, ..s2 }));
                assert forall|i: int|
                    0 <= i < s.participants@.len() implies (#[trigger] s3.participants@[i]).bound
                        == s.participants@[i].bound && s3.participants@[i].owner
                        == s.participants@[i].owner && s3.participants@[i].active
                        == s.participants@[i].active && s3.participants@[i].join_index
                        == s.participants@[i].join_index && s3.participants@[i].pending_rewards
                        <= u128::MAX - GRANT_HEADROOM + 7 * BASE_REWARD_ATTO by {
                    if s.participants@[i].active && per > 0 {
                        lemma_grant_bounds(
                            per as int,
                            s.participants@[i],
                            deposits_of(s.deposits@, s.participants@[i].owner),
                        );
                    }
                }
                lemma_active_idxs_congruent(s3.participants@, s.participants@);
                assert(s3.wf());
                assert(s3.sp_starter_grant(nn) == st_app) by {
                    assert(s3.cycle_starter == s.cycle_starter);
                    assert(s3.cycles_completed == sp_cycles_now(s));
                    assert(s3.rewards_pool == sp_pool_after_emission_of(s, nn) - pi_app);
                    match s.cycle_starter {
                        None => {},
                        Some(st) => {
                            assert(sp_is_member(s3.participants@, st) == sp_is_member(
                                s.participants@,
                                st,
                            )) by {
                                if sp_is_member(s3.participants@, st) {
                                    let i = choose|i: int|
                                        is_member_sc(s3.participants@, st, i);
                                    assert(is_member_sc(s.participants@, st, i));
                                }
                                if sp_is_member(s.participants@, st) {
                                    let i = choose|i: int| is_member_sc(s.participants@, st, i);
                                    assert(is_member_sc(s3.participants@, st, i));
                                }
                            }
                        },
                    }
                }
            }
            self.stage_starter_bonus(active);
            proof {
                let tgt = Seq::new(
                    s.participants@.len(),
                    |i: int| sp_after_complete(s, nn, fromi, i, now),
                );
                assert forall|i: int|
                    0 <= i < s.participants@.len() implies #[trigger] self.participants@[i]
                        == tgt[i] by {
                    let p0 = s.participants@[i];
                    let g_base: int = if p0.active && per > 0 {
                        sp_reward_with_bonuses(
                            per as int,
                            p0,
                            deposits_of(s.deposits@, p0.owner),
                        )
                    } else {
                        0
                    };
                    let g_pi: int = if i == fromi {
                        pi_app
                    } else {
                        0
                    };
                    let g_st: int = if sp_starter_is(s, i) {
                        st_app
                    } else {
                        0
                    };
                    if p0.active && per > 0 {
                        lemma_grant_bounds(per as int, p0, deposits_of(s.deposits@, p0.owner));
                    }
                    assert(0 <= g_base <= 6 * BASE_REWARD_ATTO);
                    assert(p0.pending_rewards <= u128::MAX - GRANT_HEADROOM);
                    assert(sp_starter_is(s, i) == (match s3.cycle_starter {
                        Some(st) => is_member_sc(s3.participants@, st, i),
                        None => false,
                    }));
                    assert(self.participants@[i] == (Participant {
                        pending_rewards: (s3.participants@[i].pending_rewards + (if sp_starter_is(
                            s,
                            i,
                        ) {
                            st_app
                        } else {
                            0int
                        })) as u128,
                        ..s3.participants@[i]
                    }));
                    assert(s2.participants@[i].pending_rewards == p0.pending_rewards + g_pi);
                    assert(s3.participants@[i].pending_rewards == p0.pending_rewards + g_pi
                        + g_base);
                    assert(self.participants@[i].pending_rewards == p0.pending_rewards + g_pi
                        + g_base + g_st);
                    assert(sp_grant_total(s, nn, fromi, i) == g_base + g_pi + g_st);
                    assert(self.participants@[i].cycles_completed == tgt[i].cycles_completed);
                    assert(self.participants@[i].signed_epoch == tgt[i].signed_epoch);
                    assert(self.participants@[i].signed_at == tgt[i].signed_at);
                }
                assert(self.participants@ =~= tgt);
            }
            self.cycle_holder = None;
            self.cycle_epoch = self.cycle_epoch + 1;
            self.egld_balance = self.egld_balance + amount;
            proof {
                let tgt = Seq::new(
                    s.participants@.len(),
                    |i: int| sp_after_complete(s, nn, fromi, i, now),
                );
                assert(self.participants@ == tgt);
                assert(*self == (CircleOfLifeCenter {
                    participants: self.participants,
                    cycles_completed: (s.cycles_completed + 1) as u64,
                    cycle_epoch: (s.cycle_epoch + 1) as u64,
                    cycle_holder: None,
                    cycle_starter: None,
                    rewards_pool: sp_pool_final(s, nn) as u128,
                    total_burned: (s.total_burned + sp_emission_burn_of(s, nn)) as u128,
                    total_starter_bonus_distributed: (s.total_starter_bonus_distributed
                        + st_app) as u128,
                    egld_balance: (s.egld_balance + s.circulation_amount) as u128,
                    ..s
                }));
                assert forall|i: int|
                    0 <= i < self.participants@.len() implies (
                #[trigger] self.participants@[i]).join_index == i + 1 && self.participants@[i].bound
                    == s.participants@[i].bound && self.participants@[i].owner
                    == s.participants@[i].owner by {
                    assert(self.participants@[i] == tgt[i]);
                }
                assert forall|a: int, b: int|
                    0 <= a < b < self.participants@.len() implies !((
                #[trigger] self.participants@[a]).bound && (#[trigger] self.participants@[b]).bound
                    && self.participants@[a].owner == self.participants@[b].owner) by {
                    assert(self.participants@[a].bound == s.participants@[a].bound
                        && self.participants@[a].owner == s.participants@[a].owner);
                    assert(self.participants@[b].bound == s.participants@[b].bound
                        && self.participants@[b].owner == s.participants@[b].owner);
                }
            }
            true
        }
    }
}


// ───────────────────────── single-step endpoint ─────────────────────────

/// Position of the next participant in line.
pub open spec fn sp_chain_pos(s: CircleOfLifeCenter) -> int {
    s.current_cycle_index as int % active_idxs(s.participants@).len() as int
}

/// Whether the permissionless chain may take one more step: a cycle is
/// running and the participant in line consented but has not yet forwarded.
pub open spec fn sp_chain_enabled(s: CircleOfLifeCenter) -> bool {
    let acts = active_idxs(s.participants@);
    &&& s.cycle_holder is Some
    &&& acts.len() > 0
    &&& sp_presigned(s.participants@[acts[sp_chain_pos(s)]], s.cycle_epoch)
    &&& !sp_signed(s.participants@[acts[sp_chain_pos(s)]], s.cycle_epoch)
}

/// `t` is reachable from `s` by exactly `k` consented advances.
pub open spec fn sp_steps(
    s: CircleOfLifeCenter,
    t: CircleOfLifeCenter,
    k: nat,
    now: u64,
) -> bool
    decreases k,
{
    if k == 0 {
        t == s
    } else {
        sp_chain_enabled(s) && exists|m: CircleOfLifeCenter|
            sp_steps(m, t, (k - 1) as nat, now) && #[trigger] sp_advanced(
                s,
                m,
                sp_chain_pos(s),
                now,
            )
    }
}

/// Chains of consented advances compose one step at a time.
pub proof fn lemma_steps_extend(
    s: CircleOfLifeCenter,
    m: CircleOfLifeCenter,
    t: CircleOfLifeCenter,
    k: nat,
    now: u64,
)
    requires
        sp_steps(s, m, k, now),
        sp_chain_enabled(m),
        sp_advanced(m, t, sp_chain_pos(m), now),
    ensures
        sp_steps(s, t, (k + 1) as nat, now),
    decreases k,
{
    let kk = (k + 1) as nat;
    if k == 0 {
        assert(m == s);
        assert((kk - 1) as nat == 0);
        assert(sp_steps(t, t, (kk - 1) as nat, now));
        assert(sp_steps(s, t, kk, now));
    } else {
        assert(sp_chain_enabled(s));
        let m1 = choose|m1: CircleOfLifeCenter|
            sp_steps(m1, m, (k - 1) as nat, now) && #[trigger] sp_advanced(
                s,
                m1,
                sp_chain_pos(s),
                now,
            );
        lemma_steps_extend(m1, m, t, (k - 1) as nat, now);
        assert(sp_steps(m1, t, ((k - 1) + 1) as nat, now));
        assert(((k - 1) + 1) as nat == (kk - 1) as nat);
        assert(sp_steps(m1, t, (kk - 1) as nat, now));
        assert(sp_steps(s, t, kk, now));
    }
}

/// `m` differs from `s` at most in the cycle pointer and in signature marks:
/// what every mid-rotation advance leaves invariant.
pub open spec fn sp_mid_same(s: CircleOfLifeCenter, m: CircleOfLifeCenter) -> bool {
    &&& m.participants@.len() == s.participants@.len()
    &&& forall|i: int|
        0 <= i < s.participants@.len() ==> #[trigger] m.participants@[i] == (Participant {
            signed_epoch: m.participants@[i].signed_epoch,
            signed_at: m.participants@[i].signed_at,
            ..s.participants@[i]
        })
    &&& m == (CircleOfLifeCenter {
        participants: m.participants,
        current_cycle_index: m.current_cycle_index,
        cycle_holder: m.cycle_holder,
        ..s
    })
}

/// The reasons the single-step advance rejects, in the order they are checked.
pub open spec fn sp_next_transfer_err(s: CircleOfLifeCenter) -> Option<CenterError> {
    if s.paused {
        Some(CenterError::Paused)
    } else if s.cycle_day == 0 {
        Some(CenterError::CycleNotStarted)
    } else if s.cycle_holder is None {
        Some(CenterError::NoCycleRunning)
    } else {
        let acts = active_idxs(s.participants@);
        if acts.len() == 0 {
            Some(CenterError::NoActiveParticipants)
        } else {
            let cur = s.participants@[acts[sp_chain_pos(s)]];
            if !sp_presigned(cur, s.cycle_epoch) {
                Some(CenterError::NotPreSigned)
            } else if sp_signed(cur, s.cycle_epoch) {
                Some(CenterError::AlreadySigned)
            } else {
                None
            }
        }
    }
}

impl CircleOfLifeCenter {
    /// Permissionless single-step advance: forwards for the participant in
    /// line, provided it consented and has not forwarded this epoch. Returns
    /// whether this step completed the cycle. Calling it twice for the same
    /// participant in one epoch is rejected without effect.
    pub fn process_next_transfer(&mut self, now: u64) -> (r: Result<bool, CenterError>)
        requires
            old(self).wf(),
            sp_advance_headroom(*old(self)),
        ensures
            final(self).wf(),
            r is Err ==> *final(self) == *old(self),
            (match r {
                Err(e) => Some(e) == sp_next_transfer_err(*old(self)),
                Ok(completed) => {
                    &&& sp_next_transfer_err(*old(self)) is None
                    &&& sp_advanced(*old(self), *final(self), sp_chain_pos(*old(self)), now)
                    &&& completed == (sp_chain_pos(*old(self)) + 1 == active_idxs(
                        old(self).participants@,
                    ).len())
                    &&& final(self).cycle_epoch == old(self).cycle_epoch + if completed {
                        1int
                    } else {
                        0int
                    }
                },
            }),
    {
        self.require_not_paused()?;
        if self.cycle_day == 0 {
            return Err(CenterError::CycleNotStarted);
        }
        if self.cycle_holder.is_none() {
            return Err(CenterError::NoCycleRunning);
        }
        let active = self.get_active_contracts();
        if active.len() == 0 {
            return Err(CenterError::NoActiveParticipants);
        }
        proof {
            lemma_active_idxs_props(self.participants@);
        }
        let pos = self.current_cycle_index % active.len();
        let current_sc = active[pos];
        proof {
            assert(idxs_of(active@)[pos as int] == active@[pos as int] as int);
            assert(current_sc as int == active_idxs(self.participants@)[pos as int]);
            assert(current_sc < self.participants@.len());
        }
        if !self.is_effectively_pre_signed(current_sc, self.cycle_epoch) {
            return Err(CenterError::NotPreSigned);
        }
        let p = self.participants[current_sc];
        if p.signed_epoch == self.cycle_epoch {
            return Err(CenterError::AlreadySigned);
        }
        let completed = self.execute_transfer(pos, &active, now);
        Ok(completed)
    }
}

/// The reasons declaring a failed cycle rejects, in the order checked.
pub open spec fn sp_fail_err(s: CircleOfLifeCenter, now: u64) -> Option<CenterError> {
    if s.paused {
        Some(CenterError::Paused)
    } else if s.cycle_holder is None {
        Some(CenterError::NoCycleRunning)
    } else if !(sp_day_of(now) > s.cycle_day) {
        Some(CenterError::NotTimedOut)
    } else {
        None
    }
}

/// Arithmetic room `fail_cycle` needs (machine limits only), plus clock
/// monotonicity: the clock never reads before the holder's last infraction.
pub open spec fn sp_fail_headroom(s: CircleOfLifeCenter, now: u64) -> bool {
    &&& s.cycles_failed < u64::MAX
    &&& s.cycle_epoch < u64::MAX
    &&& s.egld_balance + s.circulation_amount <= u128::MAX
    &&& match s.cycle_holder {
        None => true,
        Some(h) => {
            let p = s.participants@[h as int];
            &&& p.cycles_failed < u64::MAX
            &&& p.last_infraction <= now
            &&& (p.infraction_count + 1) * (BAN_UNIT_SECONDS as int) + now <= u64::MAX
        },
    }
}

impl CircleOfLifeCenter {
    /// Declares the running cycle failed, once the day it started on has
    /// passed: recovers the circulating amount from the stalled holder,
    /// records the infraction with its escalating ban, deactivates the
    /// holder, and bumps the epoch.
    pub fn fail_cycle(&mut self, now: u64) -> (r: Result<(), CenterError>)
        requires
            old(self).wf(),
            sp_fail_headroom(*old(self), now),
        ensures
            final(self).wf(),
            r is Err ==> *final(self) == *old(self),
            (match r {
                Err(e) => Some(e) == sp_fail_err(*old(self), now),
                Ok(()) => {
                    &&& sp_fail_err(*old(self), now) is None
                    &&& exists|h: int|
                        {
                            &&& old(self).cycle_holder == Some(h as usize)
                            &&& 0 <= h < old(self).participants@.len()
                            &&& final(self).participants@ == old(self).participants@.update(
                                h,
                                sp_after_infraction(old(self).participants@[h], now),
                            )
                        }
                    &&& *final(self) == (CircleOfLifeCenter {
                        participants: final(self).participants,
                        cycles_failed: (old(self).cycles_failed + 1) as u64,
                        cycle_epoch: (old(self).cycle_epoch + 1) as u64,
                        cycle_holder: None,
                        current_cycle_index: 0,
                        egld_balance: (old(self).egld_balance + old(self).circulation_amount) as u128,
                        ..*old(self)
                    })
                },
            }),
    {
        self.require_not_paused()?;
        let holder = match self.cycle_holder {
            None => {
                return Err(CenterError::NoCycleRunning);
            },
            Some(h) => h,
        };
        let current_day = self.get_current_day(now);
        if !(current_day > self.cycle_day) {
            return Err(CenterError::NotTimedOut);
        }
        self.egld_balance = self.egld_balance + self.circulation_amount;
        self.cycles_failed = self.cycles_failed + 1;
        let p = self.participants[holder];
        let days_since_last_infraction: u64 = if p.last_infraction > 0 {
            (now - p.last_infraction) / SECONDS_PER_DAY
        } else {
            0
        };
        let infraction_count: u64 = if days_since_last_infraction >= INFRACTION_RESET_DAYS {
            1
        } else {
            p.infraction_count + 1
        };
        let ban_until = now + infraction_count * BAN_UNIT_SECONDS;
        let p2 = Participant {
            active: false,
            cycles_failed: p.cycles_failed + 1,
            infraction_count,
            last_infraction: now,
            ban_until,
            ..p
        };
        self.participants.set(holder, p2);
        self.cycle_epoch = self.cycle_epoch + 1;
        self.cycle_holder = None;
        self.current_cycle_index = 0;
        proof {
            assert(p2 == sp_after_infraction(old(self).participants@[holder as int], now));
        }
        Ok(())
    }

    /// Repeats the consented single-step advance while the participant in
    /// line has consented and not yet forwarded, at most once per active
    /// participant. Returns the number of forwards executed; afterwards no
    /// further consented step is possible without new input.
    #[verifier::loop_isolation(false)]
    pub fn process_pending_transfers(&mut self, now: u64) -> (r: u32)
        requires
            old(self).wf(),
            old(self).participants@.len() < u32::MAX,
            old(self).cycle_holder is Some ==> sp_advance_headroom(*old(self)),
        ensures
            final(self).wf(),
            r <= active_idxs(old(self).participants@).len(),
            sp_steps(*old(self), *final(self), r as nat, now),
            !sp_chain_enabled(*final(self)),
    {
        let ghost s0 = *old(self);
        let active = self.get_active_contracts();
        let n = active.len();
        proof {
            lemma_active_idxs_props(s0.participants@);
        }
        if n == 0 {
            return 0;
        }
        let mut k: usize = 0;
        while k < n
            invariant
                k <= n,
                self.wf(),
                sp_steps(s0, *self, k as nat, now),
                self.cycle_holder is Some ==> sp_mid_same(s0, *self),
                self.cycle_holder is Some ==> (k == 0 || (self.current_cycle_index < n && k
                    <= self.current_cycle_index)),
            decreases n - k,
        {
            if self.cycle_holder.is_none() {
                proof {
                    assert(!sp_chain_enabled(*self));
                }
                return k as u32;
            }
            proof {
                assert(sp_mid_same(s0, *self));
                assert forall|i: int|
                    0 <= i < s0.participants@.len() implies (
                #[trigger] self.participants@[i]).active == s0.participants@[i].active by {
                    assert(self.participants@[i] == (Participant {
                        signed_epoch: self.participants@[i].signed_epoch,
                        signed_at: self.participants@[i].signed_at,
                        ..s0.participants@[i]
                    }));
                }
                lemma_active_idxs_congruent(self.participants@, s0.participants@);
            }
            let pos = self.current_cycle_index % n;
            let current_sc = active[pos];
            proof {
                assert(idxs_of(active@)[pos as int] == active@[pos as int] as int);
                assert(current_sc as int == active_idxs(s0.participants@)[pos as int]);
                assert(current_sc < self.participants@.len());
                assert(pos as int == sp_chain_pos(*self));
            }
            if !self.is_effectively_pre_signed(current_sc, self.cycle_epoch) {
                proof {
                    assert(!sp_chain_enabled(*self));
                }
                return k as u32;
            }
            let p = self.participants[current_sc];
            if p.signed_epoch == self.cycle_epoch {
                proof {
                    assert(!sp_chain_enabled(*self));
                }
                return k as u32;
            }
            let ghost prev = *self;
            let ghost oldpos = self.current_cycle_index;
            proof {
                assert(sp_chain_enabled(prev));
                assert(sp_advance_headroom(prev)) by {
                    assert(sp_advance_headroom(s0));
                    assert forall|i: int|
                        0 <= i < prev.participants@.len() implies (
                    #[trigger] prev.participants@[i]).cycles_completed < u64::MAX
                        && prev.participants@[i].pending_rewards <= u128::MAX
                        - GRANT_HEADROOM by {
                        assert(prev.participants@[i] == (Participant {
                            signed_epoch: prev.participants@[i].signed_epoch,
                            signed_at: prev.participants@[i].signed_at,
                            ..s0.participants@[i]
                        }));
                    }
                }
            }
            let completed = self.execute_transfer(pos, &active, now);
            proof {
                lemma_steps_extend(s0, prev, *self, k as nat, now);
                if !completed {
                    assert forall|i: int|
                        0 <= i < s0.participants@.len() implies #[trigger] self.participants@[i]
                            == (Participant {
                            signed_epoch: self.participants@[i].signed_epoch,
                            signed_at: self.participants@[i].signed_at,
                            ..s0.participants@[i]
                        }) by {
                        assert(prev.participants@[i] == (Participant {
                            signed_epoch: prev.participants@[i].signed_epoch,
                            signed_at: prev.participants@[i].signed_at,
                            ..s0.participants@[i]
                        }));
                    }
                    assert(*self == (CircleOfLifeCenter {
                        participants: self.participants,
                        current_cycle_index: self.current_cycle_index,
                        cycle_holder: self.cycle_holder,
                        ..s0
                    }));
                    assert(sp_mid_same(s0, *self));
                    assert(self.current_cycle_index == pos + 1);
                    assert(oldpos as int % (n as int) == pos as int);
                    if k > 0 {
                        assert(oldpos < n);
                        vstd::arithmetic::div_mod::lemma_small_mod(oldpos as nat, n as nat);
                        assert(k <= pos);
                    }
                    assert(k + 1 <= self.current_cycle_index && self.current_cycle_index < n);
                }
            }
            k = k + 1;
        }
        proof {
            if self.cycle_holder is Some {
                assert(n > 0 && k == n);
                assert(self.current_cycle_index < n && k <= self.current_cycle_index);
                assert(false);
            }
            assert(!sp_chain_enabled(*self));
        }
        k as u32
    }
}

/// The reasons the batched advance rejects, in the order they are checked.
pub open spec fn sp_process_all_err(s: CircleOfLifeCenter) -> Option<CenterError> {
    if s.paused {
        Some(CenterError::Paused)
    } else if s.cycle_day == 0 {
        Some(CenterError::CycleNotStarted)
    } else {
        None
    }
}

impl CircleOfLifeCenter {
    /// Permissionless batched advance: performs every currently consented
    /// forward in one call and returns how many were executed.
    pub fn process_all_pending_transfers(&mut self, now: u64) -> (r: Result<u32, CenterError>)
        requires
            old(self).wf(),
            old(self).participants@.len() < u32::MAX,
            old(self).cycle_holder is Some ==> sp_advance_headroom(*old(self)),
        ensures
            final(self).wf(),
            r is Err ==> *final(self) == *old(self),
            (match r {
                Err(e) => Some(e) == sp_process_all_err(*old(self)),
                Ok(count) => {
                    &&& sp_process_all_err(*old(self)) is None
                    &&& count <= active_idxs(old(self).participants@).len()
                    &&& sp_steps(*old(self), *final(self), count as nat, now)
                    &&& !sp_chain_enabled(*final(self))
                },
            }),
    {
        self.require_not_paused()?;
        if self.cycle_day == 0 {
            return Err(CenterError::CycleNotStarted);
        }
        if self.cycle_holder.is_none() {
            proof {
                assert(sp_steps(*self, *self, 0, now));
            }
            return Ok(0);
        }
        let count = self.process_pending_transfers(now);
        Ok(count)
    }
}

/// The reasons the manual sign-and-forward rejects, in the order checked.
pub open spec fn sp_sign_err(s: CircleOfLifeCenter, caller: u64) -> Option<CenterError> {
    if s.paused {
        Some(CenterError::Paused)
    } else if s.cycle_day == 0 {
        Some(CenterError::CycleNotStarted)
    } else if !sp_is_member(s.participants@, caller) {
        Some(CenterError::NotMember)
    } else {
        let acts = active_idxs(s.participants@);
        if acts.len() == 0 {
            Some(CenterError::NoActiveParticipants)
        } else {
            let i = choose|i: int| is_member_sc(s.participants@, caller, i);
            if i != acts[sp_chain_pos(s)] {
                Some(CenterError::NotYourTurn)
            } else if sp_signed(s.participants@[i], s.cycle_epoch) {
                Some(CenterError::AlreadySigned)
            } else {
                None
            }
        }
    }
}

impl CircleOfLifeCenter {
    /// The member whose turn it is signs and forwards, then every already
    /// consented follower is advanced in the same call.
    pub fn sign_and_forward(&mut self, caller: u64, now: u64) -> (r: Result<(), CenterError>)
        requires
            old(self).wf(),
            old(self).participants@.len() < u32::MAX,
            sp_advance_headroom(*old(self)),
        ensures
            final(self).wf(),
            r is Err ==> *final(self) == *old(self),
            (match r {
                Err(e) => Some(e) == sp_sign_err(*old(self), caller),
                Ok(()) => {
                    &&& sp_sign_err(*old(self), caller) is None
                    &&& exists|m: CircleOfLifeCenter, k: nat|
                        {
                            &&& #[trigger] sp_advanced(
                                *old(self),
                                m,
                                sp_chain_pos(*old(self)),
                                now,
                            )
                            &&& #[trigger] sp_steps(m, *final(self), k, now)
                        }
                    &&& !sp_chain_enabled(*final(self))
                },
            }),
    {
        self.require_not_paused()?;
        if self.cycle_day == 0 {
            return Err(CenterError::CycleNotStarted);
        }
        let caller_sc = match self.find_member_sc(caller) {
            None => {
                return Err(CenterError::NotMember);
            },
            Some(sc) => sc,
        };
        proof {
            let i0 = choose|i: int| is_member_sc(old(self).participants@, caller, i);
            assert(i0 == caller_sc as int);
        }
        let active = self.get_active_contracts();
        if active.len() == 0 {
            return Err(CenterError::NoActiveParticipants);
        }
        proof {
            lemma_active_idxs_props(self.participants@);
        }
        let pos = self.current_cycle_index % active.len();
        let expected_sc = active[pos];
        proof {
            assert(idxs_of(active@)[pos as int] == active@[pos as int] as int);
            assert(expected_sc as int == active_idxs(self.participants@)[pos as int]);
            assert(expected_sc < self.participants@.len());
            assert(pos as int == sp_chain_pos(*self));
        }
        if caller_sc != expected_sc {
            return Err(CenterError::NotYourTurn);
        }
        let p = self.participants[caller_sc];
        if p.signed_epoch == self.cycle_epoch {
            return Err(CenterError::AlreadySigned);
        }
        let ghost s0 = *old(self);
        let completed = self.execute_transfer(pos, &active, now);
        let ghost m = *self;
        proof {
            if !completed {
                assert(sp_mid_same(s0, m));
                assert(sp_advance_headroom(m));
            }
        }
        let _chained = self.process_pending_transfers(now);
        Ok(())
    }
}


// ───────────────────────── pending-consent count ─────────────────────────

/// How many consecutive participants, starting at position `idx` of the
/// active ordering, have consented and not yet forwarded, looking at most
/// `fuel` positions ahead.
pub open spec fn sp_auto_count(s: CircleOfLifeCenter, idx: int, fuel: nat) -> int
    decreases fuel,
{
    if fuel == 0 {
        0
    } else {
        let acts = active_idxs(s.participants@);
        let n = acts.len() as int;
        let p = s.participants@[acts[idx % n]];
        if sp_presigned(p, s.cycle_epoch) && !sp_signed(p, s.cycle_epoch) {
            1 + sp_auto_count(s, idx + 1, (fuel - 1) as nat)
        } else {
            0
        }
    }
}

impl CircleOfLifeCenter {
    /// How many forwards the permissionless batch could execute right now.
    #[verifier::loop_isolation(false)]
    pub fn get_pending_auto_transfers(&self) -> (r: usize)
        requires
            self.current_cycle_index as int + active_idxs(self.participants@).len()
                <= usize::MAX,
        ensures
            r == if self.cycle_holder is None || active_idxs(self.participants@).len() == 0 {
                0int
            } else {
                sp_auto_count(
                    *self,
                    self.current_cycle_index as int,
                    active_idxs(self.participants@).len() as nat,
                )
            },
    {
        if self.cycle_holder.is_none() {
            return 0;
        }
        let active = self.get_active_contracts();
        let n = active.len();
        if n == 0 {
            return 0;
        }
        proof {
            lemma_active_idxs_props(self.participants@);
        }
        let ghost idx0 = self.current_cycle_index as int;
        let mut current_index = self.current_cycle_index;
        let mut count: usize = 0;
        while count < n
            invariant
                count <= n,
                current_index == idx0 + count,
                sp_auto_count(*self, idx0, n as nat) == count + sp_auto_count(
                    *self,
                    idx0 + count,
                    (n - count) as nat,
                ),
            decreases n - count,
        {
            let expected_index = current_index % n;
            let current_sc = active[expected_index];
            proof {
                assert(idxs_of(active@)[expected_index as int] == active@[expected_index
                    as int] as int);
                assert(current_sc as int == active_idxs(self.participants@)[expected_index
                    as int]);
                assert(current_sc < self.participants@.len());
                assert((idx0 + count) % (n as int) == expected_index as int);
            }
            let p = self.participants[current_sc];
            let pre = self.is_effectively_pre_signed(current_sc, self.cycle_epoch);
            if pre && p.signed_epoch != self.cycle_epoch {
                proof {
                    assert(sp_auto_count(*self, idx0 + count, (n - count) as nat) == 1
                        + sp_auto_count(*self, idx0 + count + 1, (n - count - 1) as nat));
                }
                count = count + 1;
                current_index = current_index + 1;
            } else {
                proof {
                    assert(sp_auto_count(*self, idx0 + count, (n - count) as nat) == 0);
                }
                return count;
            }
        }
        proof {
            assert(sp_auto_count(*self, idx0 + count, (n - count) as nat) == 0);
        }
        count
    }
}


/// The milestone notifications a completion owes: each active participant's
/// owner paired with its completed-cycle count, in rotation order.
pub open spec fn sp_notifications(s: CircleOfLifeCenter) -> Seq<(u64, u64)> {
    active_idxs(s.participants@).map_values(
        |i: int| (s.participants@[i].owner, s.participants@[i].cycles_completed),
    )
}

impl CircleOfLifeCenter {
    /// The best-effort milestone updates the host should send after an
    /// advance that completed a cycle: one (member wallet, completed cycles)
    /// pair per active participant. A delivery failure must not abort
    /// anything; the host simply drops the rest.
    #[verifier::loop_isolation(false)]
    pub fn completion_notifications(&self) -> (r: Vec<(u64, u64)>)
        ensures
            r@ == sp_notifications(*self),
    {
        let active = self.get_active_contracts();
        proof {
            lemma_active_idxs_props(self.participants@);
        }
        let n = active.len();
        let mut r: Vec<(u64, u64)> = Vec::new();
        let mut k: usize = 0;
        while k < n
            invariant
                k <= n,
                r@.len() == k,
                forall|j: int| 0 <= j < k ==> #[trigger] r@[j] == sp_notifications(*self)[j],
            decreases n - k,
        {
            let i = active[k];
            proof {
                assert(idxs_of(active@)[k as int] == active@[k as int] as int);
                assert(i as int == active_idxs(self.participants@)[k as int]);
                assert(i < self.participants@.len());
            }
            let p = self.participants[i];
            r.push((p.owner, p.cycles_completed));
            k = k + 1;
        }
        proof {
            assert(r@ =~= sp_notifications(*self));
        }
        r
    }
}

} // verus!
