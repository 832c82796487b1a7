//! The arithmetic surfaces of the center: the halving schedule, the
//! distribution split, the deposit bonus, and the liquidity pipeline.

use circle_of_life::center::CenterError;
use circle_of_life::center::CircleOfLifeCenter;
use circle_of_life::distribution::LiquidityAction;

const EGLD: u128 = 1_000_000_000_000_000_000;
const BASE: u128 = 36_000 * EGLD;

#[test]
fn reward_schedule_halves_and_caps_at_era_ten() {
    let mut c = CircleOfLifeCenter::init(1);
    assert_eq!(c.get_reward_per_cycle(), BASE);
    c.cycles_completed = 360;
    assert_eq!(c.get_reward_per_cycle(), 18_000 * EGLD);
    assert_eq!(c.get_current_era_view(), 1);
    c.cycles_completed = 3_600;
    let capped = c.get_reward_per_cycle();
    assert_eq!(capped, BASE / 1024);
    c.cycles_completed = 3_960;
    assert_eq!(c.get_reward_per_cycle(), capped);
    c.cycles_completed = 36 * 360;
    assert_eq!(c.get_reward_per_cycle(), capped);
    let schedule = c.get_reward_schedule();
    assert_eq!(schedule.len(), 5);
    assert_eq!(schedule[0], (0, 0, BASE));
    assert_eq!(schedule[1], (1, 360, 18_000 * EGLD));
    assert_eq!(schedule[4], (4, 1_440, 2_250 * EGLD));
}

#[test]
fn distribution_split_is_exact_on_round_remainders() {
    let c = CircleOfLifeCenter::init(1);
    // remainder after treasury is a multiple of ten: the split is exhaustive
    let (t, l, d) = c.calculate_distribution(1_000_000);
    assert_eq!(t, 31_400);
    assert_eq!(l, 678_020);
    assert_eq!(d, 290_580);
    assert_eq!(t + l + d, 1_000_000);
    // a tiny total: the treasury share truncates to zero
    let (t2, l2, d2) = c.calculate_distribution(10);
    assert_eq!((t2, l2, d2), (0, 7, 3));
    assert_eq!(t2 + l2 + d2, 10);
    // a remainder not divisible by ten loses exactly one unit to rounding
    let (t3, l3, d3) = c.calculate_distribution(10_000);
    assert_eq!((t3, l3, d3), (314, 6_780, 2_905));
    assert_eq!(t3 + l3 + d3, 9_999);
}

#[test]
fn inbound_payments_are_split_and_the_dao_share_leaves() {
    let owner = 1;
    let mut c = CircleOfLifeCenter::init(owner);
    c.set_peripheral_template(owner, 900).unwrap();
    c.join_circle(11, EGLD).unwrap();
    c.set_distribution_enabled(owner, true).unwrap();
    c.set_dao_contract(owner, 500).unwrap();
    let balance_before = c.get_contract_balance();
    c.deposit(11, 1_000_000).unwrap();
    assert_eq!(c.get_total_distributed_treasury(), 31_400);
    assert_eq!(c.get_pending_liquidity_egld(), 678_020);
    assert_eq!(c.get_total_distributed_dao(), 290_580);
    // the payment arrived and the DAO share left again
    assert_eq!(c.get_contract_balance(), balance_before + 1_000_000 - 290_580);
    assert_eq!(c.get_member_egld_deposits(11), 1_000_000);
    assert_eq!(c.get_total_egld_deposits(), 1_000_000);
    assert_eq!(c.deposit(99, 5), Err(CenterError::NotMember));
}

#[test]
fn deposit_bonus_grows_per_whole_unit_and_caps() {
    let owner = 1;
    let mut c = CircleOfLifeCenter::init(owner);
    c.set_peripheral_template(owner, 900).unwrap();
    c.join_circle(11, EGLD).unwrap();
    c.deposit(11, 2 * EGLD + 5).unwrap();
    assert_eq!(c.get_deposit_bonus_percent(11), 2);
    let (deposits, percent, bps, cap) = c.get_deposit_bonus_info(11);
    assert_eq!(deposits, 2 * EGLD + 5);
    assert_eq!(percent, 2);
    assert_eq!(bps, 200);
    assert_eq!(cap, 360);
    // far past the cap: 360% is the ceiling
    c.deposit(11, 1_000 * EGLD).unwrap();
    assert_eq!(c.get_deposit_bonus_percent(11), 360);
    let (_, _, bps2, _) = c.get_deposit_bonus_info(11);
    assert_eq!(bps2, 36_000);
}

#[test]
fn deposit_bonus_raises_the_staged_reward() {
    let owner = 1;
    let mut c = CircleOfLifeCenter::init(owner);
    c.set_peripheral_template(owner, 900).unwrap();
    c.set_circulation_amount(owner, 100).unwrap();
    c.set_reward_token(owner, 7).unwrap();
    c.deposit_rewards(owner, 7, 100_000 * EGLD).unwrap();
    c.join_circle(11, EGLD).unwrap();
    c.deposit(11, 2 * EGLD).unwrap();
    c.pre_sign(11).unwrap();
    c.start_daily_cycle(99, 86_400).unwrap();
    assert_eq!(c.process_next_transfer(86_401).unwrap(), true);
    // sole participant: the full base share, the pioneer overlay, and a
    // 2% deposit overlay
    let share = BASE;
    let expected = share + share * 314 / 10_000 + share * 200 / 10_000;
    assert_eq!(c.get_pending_rewards(11), expected);
}

#[test]
fn burn_is_funded_together_with_the_emission() {
    let owner = 1;
    let mut c = CircleOfLifeCenter::init(owner);
    c.set_peripheral_template(owner, 900).unwrap();
    c.set_circulation_amount(owner, 100).unwrap();
    c.set_reward_token(owner, 7).unwrap();
    c.set_burn_per_sc(owner, EGLD).unwrap();
    c.join_circle(11, EGLD).unwrap();
    // pool covers the emission but not emission plus burn: nothing is staged
    c.deposit_rewards(owner, 7, BASE).unwrap();
    c.pre_sign(11).unwrap();
    c.start_daily_cycle(99, 86_400).unwrap();
    c.process_next_transfer(86_401).unwrap();
    assert_eq!(c.get_pending_rewards(11), 0);
    assert_eq!(c.get_total_burned(), 0);
    assert_eq!(c.get_rewards_pool(), BASE);
    // topping the pool up by the burn makes the next completion pay and burn
    c.deposit_rewards(owner, 7, EGLD).unwrap();
    c.pre_sign(11).unwrap();
    c.start_daily_cycle(99, 2 * 86_400).unwrap();
    c.process_next_transfer(2 * 86_400 + 1).unwrap();
    assert!(c.get_pending_rewards(11) > 0);
    assert_eq!(c.get_total_burned(), EGLD);
    assert_eq!(c.get_rewards_pool(), 0);
}

#[test]
fn starter_bonus_is_paid_from_the_pool_to_the_starter() {
    let owner = 1;
    let mut c = CircleOfLifeCenter::init(owner);
    c.set_peripheral_template(owner, 900).unwrap();
    c.set_circulation_amount(owner, 100).unwrap();
    c.set_reward_token(owner, 7).unwrap();
    c.set_starter_bonus_percentage(owner, 1_000).unwrap();
    c.deposit_rewards(owner, 7, 100_000 * EGLD).unwrap();
    c.join_circle(11, EGLD).unwrap();
    c.pre_sign(11).unwrap();
    c.start_daily_cycle(11, 86_400).unwrap();
    c.process_next_transfer(86_401).unwrap();
    // the member started its own cycle: share, pioneer overlay, and a 10%
    // starter bonus of the base share
    let share = BASE;
    let expected = share + share * 314 / 10_000 + share * 1_000 / 10_000;
    assert_eq!(c.get_pending_rewards(11), expected);
    assert_eq!(c.get_total_starter_bonus_distributed(), share * 1_000 / 10_000);
    assert_eq!(c.get_cycle_starter(), None);
    assert_eq!(c.set_starter_bonus_percentage(owner, 5_001), Err(CenterError::StarterBonusTooLarge));
}

#[test]
fn liquidity_pipeline_walks_its_four_steps() {
    let owner = 1;
    let mut c = CircleOfLifeCenter::init(owner);
    c.set_peripheral_template(owner, 900).unwrap();
    c.join_circle(11, EGLD).unwrap();
    c.set_distribution_enabled(owner, true).unwrap();
    c.set_dao_contract(owner, 500).unwrap();
    c.set_wegld_contract(owner, 501, 71).unwrap();
    c.set_xexchange_pair(owner, 502).unwrap();
    c.set_lp_locker(owner, 503).unwrap();
    c.set_xcirclex_token_id(owner, 72).unwrap();
    c.set_lp_token_id(owner, 73).unwrap();
    c.set_circulation_amount(owner, 100).unwrap();
    c.deposit(11, 1_000_000).unwrap();
    let pending = c.get_pending_liquidity_egld();
    assert_eq!(pending, 678_020);

    let balance_before = c.get_contract_balance();
    let a1 = c.liquidity_step1_wrap_egld(owner).unwrap();
    assert_eq!(a1, LiquidityAction::WrapEgld { amount: pending });
    assert_eq!(c.get_pending_liquidity_egld(), 0);
    assert_eq!(c.get_contract_balance(), balance_before - pending);
    // a second start is refused while the step is in flight
    assert_eq!(c.liquidity_step1_wrap_egld(owner), Err(CenterError::NoPendingLiquidity));
    c.wrap_egld_callback(true);
    assert_eq!(c.wegld_balance, pending);

    let a2 = c.liquidity_step2_swap(owner).unwrap();
    assert_eq!(a2, LiquidityAction::SwapTokens { amount_in: pending / 2 });
    c.swap_xcirclex_callback(true, 40_000);
    assert_eq!(c.xcirclex_balance, 40_000);

    let a3 = c.liquidity_step3_add_liquidity(owner).unwrap();
    assert_eq!(
        a3,
        LiquidityAction::AddLiquidity { xcirclex: 40_000, wegld: pending - pending / 2 },
    );
    c.add_liquidity_callback(true, 9_999);
    assert_eq!(c.lp_balance, 9_999);
    assert!(!c.processing_in_progress);

    let a4 = c.liquidity_step4_lock_lp(owner).unwrap();
    assert_eq!(a4, LiquidityAction::LockTokens { amount: 9_999, duration_days: 365 });
    c.lock_lp_callback(true, 9_999);
    assert_eq!(c.lp_balance, 0);
    // with nothing left to trade or lock, every step refuses
    assert_eq!(c.liquidity_step2_swap(owner), Err(CenterError::NoTokenBalance));
    assert_eq!(c.liquidity_step4_lock_lp(owner), Err(CenterError::NoTokenBalance));
}

#[test]
fn pipeline_steps_demand_their_configuration() {
    let owner = 1;
    let mut c = CircleOfLifeCenter::init(owner);
    assert_eq!(c.liquidity_step2_swap(owner), Err(CenterError::ConfigMissing));
    assert_eq!(c.liquidity_step3_add_liquidity(owner), Err(CenterError::ConfigMissing));
    assert_eq!(c.liquidity_step4_lock_lp(owner), Err(CenterError::ConfigMissing));
    assert_eq!(c.unlock_lp_tokens(owner, 1, 9), Err(CenterError::ConfigMissing));
    assert_eq!(c.liquidity_step1_wrap_egld(2), Err(CenterError::OwnerOnly));
    assert_eq!(c.withdraw_pending_liquidity(owner, 9), Err(CenterError::NoPendingLiquidity));
    // the superseded entry points carry the same gates
    assert_eq!(c.resume_processing_from_wegld(owner), Err(CenterError::ConfigMissing));
    assert_eq!(c.resume_from_add_liquidity(owner), Err(CenterError::ConfigMissing));
    assert_eq!(c.lock_pending_lp_tokens(owner), Err(CenterError::ConfigMissing));
}

#[test]
fn failed_pipeline_steps_return_the_funds_for_retry() {
    let owner = 1;
    let mut c = CircleOfLifeCenter::init(owner);
    c.set_peripheral_template(owner, 900).unwrap();
    c.join_circle(11, EGLD).unwrap();
    c.set_distribution_enabled(owner, true).unwrap();
    c.set_dao_contract(owner, 500).unwrap();
    c.set_wegld_contract(owner, 501, 71).unwrap();
    c.set_xexchange_pair(owner, 502).unwrap();
    c.set_lp_locker(owner, 503).unwrap();
    c.set_xcirclex_token_id(owner, 72).unwrap();
    c.set_circulation_amount(owner, 100).unwrap();
    c.deposit(11, 1_000_000).unwrap();
    let pending = c.get_pending_liquidity_egld();
    let balance_before = c.get_contract_balance();
    c.liquidity_step1_wrap_egld(owner).unwrap();
    assert!(c.processing_in_progress);
    c.wrap_egld_callback(false);
    // the wrap failed: the native value is back and the flag is clear
    assert!(!c.processing_in_progress);
    assert_eq!(c.get_contract_balance(), balance_before);
    assert_eq!(c.wegld_balance, 0);
    let _ = pending;
}

#[test]
fn owner_gates_hold_across_the_admin_surface() {
    let owner = 1;
    let mut c = CircleOfLifeCenter::init(owner);
    assert_eq!(c.set_entry_fee(2, 5), Err(CenterError::OwnerOnly));
    assert_eq!(c.pause(2), Err(CenterError::OwnerOnly));
    assert_eq!(c.set_slippage_tolerance(1, 20), Err(CenterError::InvalidSlippage));
    c.set_slippage_tolerance(1, 100).unwrap();
    assert_eq!(c.slippage_tolerance_bps, 100);
    c.change_owner(1, 2).unwrap();
    assert_eq!(c.set_entry_fee(1, 5), Err(CenterError::OwnerOnly));
    c.set_entry_fee(2, 5).unwrap();
    assert_eq!(c.entry_fee, 5);
    // withdraw respects the tracked balance
    assert_eq!(c.withdraw(2, 1, 9), Err(CenterError::InsufficientBalance));
    c.recover_funds_from_peripheral(2, 50).unwrap();
    c.withdraw(2, 20, 9).unwrap();
    assert_eq!(c.get_contract_balance(), 30);
}

#[test]
fn full_circle_completion_pays_the_closing_participant_extra() {
    let owner = 1;
    let mut c = CircleOfLifeCenter::init(owner);
    c.set_peripheral_template(owner, 900).unwrap();
    c.set_circulation_amount(owner, 100).unwrap();
    c.set_reward_token(owner, 7).unwrap();
    c.deposit_rewards(owner, 7, 100_000 * EGLD).unwrap();
    c.join_circle(11, EGLD).unwrap();
    c.join_circle(12, EGLD).unwrap();
    // the cycle about to complete is number 360: the first one of era one
    c.cycles_completed = 359;
    c.pre_sign(11).unwrap();
    c.pre_sign(12).unwrap();
    c.start_daily_cycle(99, 86_400).unwrap();
    let balance_before = c.get_contract_balance();
    assert_eq!(c.process_all_pending_transfers(86_401).unwrap(), 2);
    assert_eq!(c.get_cycles_completed(), 360);
    // era one emission: half the base, split two ways
    let share = 9_000 * EGLD;
    let pioneer = share * 314 / 10_000;
    // the participant that closed the loop also gets 3.14% of the whole
    // era-one emission
    let pi_bonus = 18_000 * EGLD * 314 / 10_000;
    assert_eq!(c.get_pending_rewards(11), share + pioneer);
    assert_eq!(c.get_pending_rewards(12), share + pioneer + pi_bonus);
    // the wrap returns the circulating amount to the center
    assert_eq!(c.get_contract_balance(), balance_before + 100);
}
