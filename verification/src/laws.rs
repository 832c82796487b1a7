//! The library's global laws, stated over the same spec functions the
//! endpoint contracts use and proved once and for all.

use vstd::prelude::*;

use crate::center::{
    active_idxs, lemma_active_idxs_congruent, lemma_active_idxs_props, sp_after_infraction,
    sp_base_cycle_reward, sp_dao_share, sp_liquidity_share, sp_pow2, sp_presigned,
    sp_treasury_share, CenterError, CircleOfLifeCenter, Participant, BAN_UNIT_SECONDS,
    HALVING_PERIOD, INFRACTION_RESET_DAYS, SECONDS_PER_DAY,
};
use crate::center::{lemma_share_bounds, lemma_split_exact};
use crate::rewards::sp_per_sc_of;
use crate::rotation::{
    sp_advanced, sp_chain_enabled, sp_chain_pos, sp_next_transfer_err, sp_steps,
};

verus! {

// ───────────────── epoch monotonicity (advance paths) ─────────────────

/// Law: one advance never decreases the epoch; it bumps it by exactly one on
/// the completing step and leaves it alone mid-rotation. The failure path's
/// bump by exactly one is pinned directly by `fail_cycle`'s contract.
pub proof fn lemma_epoch_progression(
    s: CircleOfLifeCenter,
    t: CircleOfLifeCenter,
    pos: int,
    now: u64,
)
    requires
        s.cycle_epoch < u64::MAX,
        s.cycles_completed < u64::MAX,
        0 <= pos < active_idxs(s.participants@).len(),
        sp_advanced(s, t, pos, now),
    ensures
        t.cycle_epoch >= s.cycle_epoch,
        pos + 1 == active_idxs(s.participants@).len() ==> t.cycle_epoch == s.cycle_epoch + 1
            && t.cycles_completed == s.cycles_completed + 1,
        pos + 1 < active_idxs(s.participants@).len() ==> t.cycle_epoch == s.cycle_epoch
            && t.cycles_completed == s.cycles_completed,
{
}

// ───────────────── a full rotation is exactly N advances ─────────────────

/// Law: with `n` active participants and the pointer at `current_cycle_index`
/// inside a running cycle, a chain of `k` consented advances keeps the cycle
/// running with the pointer moved forward by `k` — until the `n`-th position
/// is passed, at which point the cycle completes, exactly once.
pub proof fn lemma_rotation_progress(
    s: CircleOfLifeCenter,
    t: CircleOfLifeCenter,
    k: nat,
    now: u64,
)
    requires
        s.wf(),
        s.cycle_epoch < u64::MAX,
        s.cycles_completed < u64::MAX,
        active_idxs(s.participants@).len() > 0,
        s.cycle_holder is Some,
        s.current_cycle_index < active_idxs(s.participants@).len(),
        k + s.current_cycle_index <= active_idxs(s.participants@).len(),
        sp_steps(s, t, k, now),
    ensures
        s.current_cycle_index + k < active_idxs(s.participants@).len() ==> t.cycle_holder is Some
            && t.current_cycle_index == s.current_cycle_index + k && t.cycles_completed
            == s.cycles_completed && t.cycle_epoch == s.cycle_epoch,
        s.current_cycle_index + k == active_idxs(s.participants@).len() ==> t.cycle_holder is None
            && t.cycles_completed == s.cycles_completed + 1 && t.cycle_epoch == s.cycle_epoch + 1,
    decreases k,
{
    let acts = active_idxs(s.participants@);
    let n = acts.len() as int;
    if k > 0 {
        let m = choose|m: CircleOfLifeCenter|
            sp_steps(m, t, (k - 1) as nat, now) && #[trigger] sp_advanced(
                s,
                m,
                sp_chain_pos(s),
                now,
            );
        let pos = sp_chain_pos(s);
        vstd::arithmetic::div_mod::lemma_small_mod(
            s.current_cycle_index as nat,
            acts.len() as nat,
        );
        assert(pos == s.current_cycle_index as int);
        lemma_active_idxs_props(s.participants@);
        broadcast use vstd::std_specs::vec::axiom_spec_len;
        if pos + 1 < n {
            // the step stayed mid-rotation; the chain continues from `m`
            assert(vstd::std_specs::vec::spec_vec_len(&s.participants)
                == s.participants@.len());
            assert(pos + 1 <= usize::MAX);
            assert(m.current_cycle_index == pos + 1);
            assert forall|i: int|
                0 <= i < s.participants@.len() implies (#[trigger] m.participants@[i]).active
                    == s.participants@[i].active && m.participants@[i].join_index
                    == s.participants@[i].join_index && m.participants@[i].bound
                    == s.participants@[i].bound && m.participants@[i].owner
                    == s.participants@[i].owner by {
                if i != acts[pos] {
                    assert(m.participants@[i] == s.participants@[i]);
                }
            }
            lemma_active_idxs_congruent(m.participants@, s.participants@);
            assert(m.wf()) by {
                assert(m.cycle_holder == Some(acts[pos + 1] as usize));
            }
            lemma_rotation_progress(m, t, (k - 1) as nat, now);
        } else {
            // the step completed the cycle; no consented step can follow
            assert(m.cycle_holder is None);
            assert(!sp_chain_enabled(m));
            if (k - 1) as nat != 0 {
                assert(sp_chain_enabled(m));
            }
            assert(t == m);
        }
    }
}

// ───────────────── reward halving schedule ─────────────────

/// Law: the emission starts at the full base, halves after each era of 360
/// completed cycles, and stops halving once the divisor reaches 2^10, so that
/// every count from ten eras onward pays the same era-ten amount.
pub proof fn lemma_reward_halving()
    ensures
        sp_base_cycle_reward(0) == 36_000_000_000_000_000_000_000int,
        sp_base_cycle_reward(360) == 18_000_000_000_000_000_000_000int,
        sp_base_cycle_reward(3600) == sp_base_cycle_reward(3960),
        sp_base_cycle_reward(3600) == sp_base_cycle_reward(12960),
        sp_base_cycle_reward(3600) == 36_000_000_000_000_000_000_000int / 1024,
{
    assert(sp_pow2(0) == 1);
    assert(sp_pow2(1) == 2);
    crate::center::lemma_pow2_1024();
    assert(sp_era_check(0, 0) && sp_era_check(360, 1) && sp_era_check(3600, 10) && sp_era_check(
        3960,
        11,
    ) && sp_era_check(12960, 36)) by (nonlinear_arith);
    assert(36_000_000_000_000_000_000_000int / 1 == 36_000_000_000_000_000_000_000int)
        by (nonlinear_arith);
    assert(36_000_000_000_000_000_000_000int / 2 == 18_000_000_000_000_000_000_000int)
        by (nonlinear_arith);
}

/// Helper for the halving law: the era of a count.
pub open spec fn sp_era_check(cycles: u64, era: int) -> bool {
    cycles as int / (HALVING_PERIOD as int) == era
}

// ───────────────── ban escalation ─────────────────

/// Law: a first infraction bans for 30 days; a second one within the reset
/// window bans for 60 days; an infraction at least 360 days after the
/// previous one starts a fresh count and bans for 30 days again. Every
/// infraction deactivates the account.
pub proof fn lemma_ban_escalation(p: Participant, now1: u64, now2: u64)
    requires
        p.infraction_count == 0,
        p.last_infraction == 0,
        0 < now1 <= now2,
        now2 + 2 * BAN_UNIT_SECONDS <= u64::MAX,
    ensures
        ({
            let first = sp_after_infraction(p, now1);
            &&& first.infraction_count == 1
            &&& first.ban_until == now1 + BAN_UNIT_SECONDS
            &&& !first.active
            &&& ((now2 - now1) / (SECONDS_PER_DAY as int) < INFRACTION_RESET_DAYS as int ==> {
                let second = sp_after_infraction(first, now2);
                second.infraction_count == 2 && second.ban_until == now2 + 2 * BAN_UNIT_SECONDS
            })
            &&& ((now2 - now1) / (SECONDS_PER_DAY as int) >= INFRACTION_RESET_DAYS as int ==> {
                let second = sp_after_infraction(first, now2);
                second.infraction_count == 1 && second.ban_until == now2 + BAN_UNIT_SECONDS
            })
        }),
{
    assert(0int / (SECONDS_PER_DAY as int) == 0) by (nonlinear_arith);
}

// ───────────────── exactly-once forwarding ─────────────────

/// Whether the participant in line has already forwarded this epoch.
pub open spec fn sp_signed_law(s: CircleOfLifeCenter) -> bool {
    crate::center::sp_signed(
        s.participants@[active_idxs(s.participants@)[sp_chain_pos(s)]],
        s.cycle_epoch,
    )
}

/// Law: once the participant in line is recorded as signed for the current
/// epoch, the single-step advance rejects with `AlreadySigned` — and by its
/// contract a rejection leaves the state, and thus the funds, untouched.
pub proof fn lemma_second_advance_rejected(s: CircleOfLifeCenter)
    requires
        !s.paused,
        s.cycle_day > 0,
        s.cycle_holder is Some,
        active_idxs(s.participants@).len() > 0,
        sp_presigned(
            s.participants@[active_idxs(s.participants@)[sp_chain_pos(s)]],
            s.cycle_epoch,
        ),
        sp_signed_law(s),
    ensures
        sp_next_transfer_err(s) == Some(CenterError::AlreadySigned),
{
}

/// Law: a mid-rotation advance marks the forwarding participant as signed for
/// the epoch, so the same participant cannot forward again within it.
pub proof fn lemma_advance_records_signature(
    s: CircleOfLifeCenter,
    t: CircleOfLifeCenter,
    pos: int,
    now: u64,
)
    requires
        0 <= pos,
        pos + 1 < active_idxs(s.participants@).len(),
        sp_advanced(s, t, pos, now),
    ensures
        crate::center::sp_signed(
            t.participants@[active_idxs(s.participants@)[pos]],
            t.cycle_epoch,
        ),
        t.cycle_epoch == s.cycle_epoch,
{
    lemma_active_idxs_props(s.participants@);
}

// ───────────────── exact distribution split ─────────────────

/// Law: the three-way split never creates value, loses at most one unit of
/// the remainder to rounding, and is exact whenever the remainder after
/// treasury is a whole multiple of ten. (For a total of 10000, with remainder
/// 9686, the split loses one unit, so exactness cannot hold of every total.)
pub proof fn lemma_distribution_split(total: int)
    requires
        0 <= total,
    ensures
        0 <= sp_treasury_share(total) <= total,
        sp_treasury_share(total) + sp_liquidity_share(total) + sp_dao_share(total) <= total,
        total - 1 <= sp_treasury_share(total) + sp_liquidity_share(total) + sp_dao_share(total),
        (total - sp_treasury_share(total)) % 10 == 0 ==> sp_treasury_share(total)
            + sp_liquidity_share(total) + sp_dao_share(total) == total,
{
    lemma_share_bounds(total);
    if (total - sp_treasury_share(total)) % 10 == 0 {
        lemma_split_exact(total);
    }
}

// ───────────────── epoch-scoped consent ─────────────────

/// Law: completing a cycle bumps the epoch, and a consent given only as an
/// explicit pre-signature for the old epoch no longer counts — while a
/// standing auto-signature, or a bounded one still covering the new epoch,
/// survives.
pub proof fn lemma_presign_expires(
    s: CircleOfLifeCenter,
    t: CircleOfLifeCenter,
    pos: int,
    now: u64,
    i: int,
)
    requires
        s.cycle_epoch < u64::MAX,
        s.cycles_completed < u64::MAX,
        0 <= pos < active_idxs(s.participants@).len(),
        pos + 1 == active_idxs(s.participants@).len(),
        sp_advanced(s, t, pos, now),
        0 <= i < s.participants@.len(),
    ensures
        t.cycle_epoch == s.cycle_epoch + 1,
        s.participants@[i].pre_signed_epoch <= s.cycle_epoch
            && !s.participants@[i].auto_sign_enabled && s.participants@[i].auto_sign_until
            <= s.cycle_epoch ==> !sp_presigned(t.participants@[i], t.cycle_epoch),
        s.participants@[i].auto_sign_enabled ==> sp_presigned(t.participants@[i], t.cycle_epoch),
        s.participants@[i].auto_sign_until > s.cycle_epoch ==> sp_presigned(
            t.participants@[i],
            t.cycle_epoch,
        ),
{
    lemma_active_idxs_props(s.participants@);
    assert(t.participants@[i] == crate::rotation::sp_after_complete(
        s,
        active_idxs(s.participants@).len() as int,
        active_idxs(s.participants@)[pos],
        i,
        now,
    ));
}

// ───────────────── pool solvency of one completion ─────────────────

/// Law: a completion never overdraws the pool: the per-participant base share
/// times the participant count, the burn, and both solvency-checked bonuses
/// all fit in the pool they are taken from.
pub proof fn lemma_pool_solvency(s: CircleOfLifeCenter, n: int)
    requires
        n >= 1,
    ensures
        0 <= crate::rewards::sp_pool_final(s, n) <= s.rewards_pool,
        sp_per_sc_of(s, n) >= 0,
{
    crate::center::lemma_base_reward_bounds(crate::rewards::sp_cycles_now(s));
    crate::center::lemma_div_le(
        sp_base_cycle_reward(crate::rewards::sp_cycles_now(s)),
        n,
    );
    crate::center::lemma_mul_div_le(
        sp_base_cycle_reward(crate::rewards::sp_cycles_now(s)),
        n,
    );
    crate::center::lemma_frac_le(
        sp_base_cycle_reward(crate::rewards::sp_cycles_now(s)),
        crate::center::PI_BONUS_BPS as int,
        crate::center::BPS_BASE as int,
    );
}

} // verus!
