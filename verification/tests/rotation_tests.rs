//! End-to-end scenarios of the rotation center: daily cycles, consent,
//! completion rewards, failure handling and epoch scoping.

use circle_of_life::center::CenterError;
use circle_of_life::center::CircleOfLifeCenter;

const EGLD: u128 = 1_000_000_000_000_000_000;
const DAY: u64 = 86_400;

/// A center with three enrolled, consenting members and a funded reward pool.
fn three_member_center() -> CircleOfLifeCenter {
    let owner = 1;
    let mut c = CircleOfLifeCenter::init(owner);
    c.set_peripheral_template(owner, 900).unwrap();
    c.set_circulation_amount(owner, 100).unwrap();
    c.set_reward_token(owner, 7).unwrap();
    c.deposit_rewards(owner, 7, 200_000 * EGLD).unwrap();
    for member in [11, 12, 13] {
        let sc = c.join_circle(member, EGLD).unwrap();
        assert!(c.is_member(member));
        assert!(c.is_active(member));
        assert_eq!(c.get_contract_owner(sc), Some(member));
    }
    c
}

#[test]
fn full_rotation_is_exactly_three_advances() {
    let mut c = three_member_center();
    for member in [11, 12, 13] {
        c.pre_sign(member).unwrap();
    }
    assert_eq!(c.get_cycle_epoch(), 1);
    c.start_daily_cycle(99, DAY).unwrap();
    assert_eq!(c.get_cycle_day(), 1);
    assert_eq!(c.get_cycle_holder(), Some(0));
    assert_eq!(c.get_cycle_starter(), Some(99));
    // the epoch does not move on the start, nor on mid-rotation advances
    assert_eq!(c.get_cycle_epoch(), 1);
    assert_eq!(c.get_pending_auto_transfers(), 3);

    assert_eq!(c.process_next_transfer(DAY + 1).unwrap(), false);
    assert_eq!(c.get_cycle_holder(), Some(1));
    assert_eq!(c.get_cycle_epoch(), 1);
    assert_eq!(c.process_next_transfer(DAY + 2).unwrap(), false);
    assert_eq!(c.get_cycle_holder(), Some(2));
    // the third advance wraps: back to no cycle, counters stepped once
    assert_eq!(c.process_next_transfer(DAY + 3).unwrap(), true);
    assert_eq!(c.get_cycle_holder(), None);
    assert_eq!(c.get_cycles_completed(), 1);
    assert_eq!(c.get_cycle_epoch(), 2);
    // the milestone updates the host owes after the completion
    assert_eq!(c.completion_notifications(), vec![(11u64, 1u64), (12, 1), (13, 1)]);
    // a fourth advance has nothing to do
    assert_eq!(c.process_next_transfer(DAY + 4), Err(CenterError::NoCycleRunning));
}

#[test]
fn completion_stages_base_share_with_pioneer_overlay() {
    let mut c = three_member_center();
    for member in [11, 12, 13] {
        c.pre_sign(member).unwrap();
    }
    c.start_daily_cycle(99, DAY).unwrap();
    let pool_before = c.get_rewards_pool();
    assert_eq!(c.process_all_pending_transfers(DAY + 1).unwrap(), 3);
    assert_eq!(c.get_cycles_completed(), 1);
    // base emission 36000 tokens, split three ways; everyone is a pioneer,
    // so each share carries the 3.14% overlay on top
    let share = 12_000 * EGLD;
    let pioneer = share * 314 / 10_000;
    for member in [11, 12, 13] {
        assert_eq!(c.get_pending_rewards(member), share + pioneer);
    }
    // only the base emission leaves the pool; the overlay is not deducted
    assert_eq!(c.get_rewards_pool(), pool_before - 36_000 * EGLD);
}

#[test]
fn advance_requires_consent_and_happens_once_per_epoch() {
    let mut c = three_member_center();
    c.pre_sign(11).unwrap();
    c.start_daily_cycle(99, DAY).unwrap();
    // the first member consented; the second did not
    assert_eq!(c.process_next_transfer(DAY + 1).unwrap(), false);
    assert_eq!(c.process_next_transfer(DAY + 2), Err(CenterError::NotPreSigned));
    // the second member steps out, so the ordering shrinks to the first
    // member again, which is already recorded as signed for this epoch:
    // a repeated advance is rejected and moves nothing
    c.set_inactive(12).unwrap();
    c.set_inactive(13).unwrap();
    let holder_before = c.get_cycle_holder();
    let completed_before = c.get_cycles_completed();
    assert_eq!(c.process_next_transfer(DAY + 3), Err(CenterError::AlreadySigned));
    assert_eq!(c.get_cycle_holder(), holder_before);
    assert_eq!(c.get_cycles_completed(), completed_before);
    assert!(c.has_signed_this_cycle(11));
}

#[test]
fn sign_and_forward_chains_consenting_followers() {
    let mut c = three_member_center();
    // the second and third member consent ahead of time; the first signs
    // manually and the whole rotation completes in one call
    c.pre_sign(12).unwrap();
    c.enable_auto_sign(13).unwrap();
    c.start_daily_cycle(99, DAY).unwrap();
    c.sign_and_forward(11, DAY + 1).unwrap();
    assert_eq!(c.get_cycle_holder(), None);
    assert_eq!(c.get_cycles_completed(), 1);
    assert_eq!(c.get_cycle_epoch(), 2);
}

#[test]
fn fail_cycle_waits_for_the_day_boundary_and_bans_once() {
    let mut c = three_member_center();
    c.start_daily_cycle(99, DAY).unwrap();
    let balance_before = c.get_contract_balance();
    // same day: not yet a timeout
    assert_eq!(c.fail_cycle(DAY + 500), Err(CenterError::NotTimedOut));
    // next day: the stalled holder is drained, banned 30 days, deactivated
    let now = 2 * DAY;
    c.fail_cycle(now).unwrap();
    assert_eq!(c.get_cycles_failed(), 1);
    assert_eq!(c.get_cycle_holder(), None);
    assert_eq!(c.get_cycle_epoch(), 2);
    assert_eq!(c.get_contract_balance(), balance_before + 100);
    assert!(!c.is_active(11));
    let (completed, failed, ban_until, banned, infractions) = c.get_sc_stats(0, now);
    assert_eq!(completed, 0);
    assert_eq!(failed, 1);
    assert_eq!(ban_until, now + 30 * DAY);
    assert!(banned);
    assert_eq!(infractions, 1);
    // the ban really gates reactivation
    assert_eq!(c.set_active(11, now + DAY), Err(CenterError::StillBanned));
    c.set_active(11, now + 30 * DAY).unwrap();
    assert!(c.is_active(11));
    // and the failure path cannot run twice for the same cycle
    assert_eq!(c.fail_cycle(now + 30 * DAY), Err(CenterError::NoCycleRunning));
}

#[test]
fn second_infraction_within_window_bans_sixty_days() {
    let mut c = three_member_center();
    c.start_daily_cycle(99, DAY).unwrap();
    let first = 2 * DAY;
    c.fail_cycle(first).unwrap();
    c.set_active(11, first + 30 * DAY).unwrap();
    // the same member stalls again well inside the 360-day window
    c.start_daily_cycle(99, first + 31 * DAY).unwrap();
    let second = first + 32 * DAY;
    c.fail_cycle(second).unwrap();
    let (_, failed, ban_until, _, infractions) = c.get_sc_stats(0, second);
    assert_eq!(failed, 2);
    assert_eq!(infractions, 2);
    assert_eq!(ban_until, second + 60 * DAY);
}

#[test]
fn infraction_count_resets_after_the_quiet_window() {
    let mut c = three_member_center();
    c.start_daily_cycle(99, DAY).unwrap();
    let first = 2 * DAY;
    c.fail_cycle(first).unwrap();
    c.set_active(11, first + 30 * DAY).unwrap();
    // 400 quiet days: the next infraction starts a fresh count
    let later_day = first + 400 * DAY;
    c.start_daily_cycle(99, later_day).unwrap();
    let second = later_day + DAY;
    c.fail_cycle(second).unwrap();
    let (_, _, ban_until, _, infractions) = c.get_sc_stats(0, second);
    assert_eq!(infractions, 1);
    assert_eq!(ban_until, second + 30 * DAY);
}

#[test]
fn presign_is_scoped_to_its_epoch_but_auto_sign_survives() {
    let mut c = three_member_center();
    c.pre_sign(11).unwrap();
    c.enable_auto_sign(12).unwrap();
    assert!(c.has_pre_signed(11));
    assert!(c.has_pre_signed(12));
    // the cycle ends in failure, which bumps the epoch
    c.start_daily_cycle(99, DAY).unwrap();
    c.fail_cycle(2 * DAY).unwrap();
    assert_eq!(c.get_cycle_epoch(), 2);
    // the explicit pre-signature died with its epoch; the standing one lives
    assert!(!c.has_pre_signed(11));
    assert!(c.has_pre_signed(12));
    // a fresh explicit pre-signature works for the new epoch
    c.set_active(11, 2 * DAY + 30 * DAY).unwrap();
    c.pre_sign(11).unwrap();
    assert!(c.has_pre_signed(11));
}

#[test]
fn bounded_auto_sign_covers_exactly_its_epochs() {
    let mut c = three_member_center();
    c.enable_auto_sign_for_cycles(11, 2).unwrap();
    assert_eq!(c.get_auto_sign_until(11), 3);
    assert_eq!(c.get_auto_sign_remaining_cycles(11), 2);
    assert!(c.has_pre_signed(11));
    // three failed cycles burn three epochs; the bound covers two of them
    for day in [1u64, 100, 300] {
        let start = day * DAY + 40 * DAY;
        c.set_active(11, start).unwrap();
        c.set_active(12, start).unwrap();
        c.set_active(13, start).unwrap();
        c.start_daily_cycle(99, start).unwrap();
        c.fail_cycle(start + DAY).unwrap();
    }
    assert_eq!(c.get_cycle_epoch(), 4);
    assert!(!c.has_pre_signed(11));
    c.disable_auto_sign(11).unwrap();
    assert_eq!(c.get_auto_sign_until(11), 0);
}

#[test]
fn join_rejects_short_payment_and_double_enrollment() {
    let owner = 1;
    let mut c = CircleOfLifeCenter::init(owner);
    assert_eq!(c.join_circle(11, EGLD), Err(CenterError::TemplateNotSet));
    c.set_peripheral_template(owner, 900).unwrap();
    assert_eq!(c.join_circle(11, EGLD - 1), Err(CenterError::InsufficientPayment));
    c.join_circle(11, EGLD).unwrap();
    assert_eq!(c.join_circle(11, EGLD), Err(CenterError::AlreadyMember));
    c.pause(owner).unwrap();
    assert_eq!(c.join_circle(12, EGLD), Err(CenterError::Paused));
}

#[test]
fn start_daily_cycle_rejections() {
    let owner = 1;
    let mut c = CircleOfLifeCenter::init(owner);
    c.set_peripheral_template(owner, 900).unwrap();
    assert_eq!(c.start_daily_cycle(99, DAY), Err(CenterError::NoActiveParticipants));
    c.join_circle(11, EGLD).unwrap();
    c.set_circulation_amount(owner, 0).unwrap();
    assert_eq!(c.start_daily_cycle(99, DAY), Err(CenterError::CirculationNotSet));
    c.set_circulation_amount(owner, 10 * EGLD).unwrap();
    assert_eq!(c.start_daily_cycle(99, DAY), Err(CenterError::InsufficientBalance));
    c.set_circulation_amount(owner, 100).unwrap();
    c.start_daily_cycle(99, DAY).unwrap();
    assert_eq!(c.start_daily_cycle(99, DAY + 5), Err(CenterError::CycleAlreadyStartedToday));
}

#[test]
fn rewards_claim_only_on_the_weekly_day() {
    let mut c = three_member_center();
    for member in [11, 12, 13] {
        c.pre_sign(member).unwrap();
    }
    c.start_daily_cycle(99, DAY).unwrap();
    c.process_all_pending_transfers(DAY + 1).unwrap();
    let pending = c.get_pending_rewards(11);
    assert!(pending > 0);
    // day one of the Unix epoch week is a Friday; day three is the claim day
    assert_eq!(c.claim_rewards(11, DAY), Err(CenterError::NotClaimDay));
    let sunday = 3 * DAY;
    assert!(c.is_sunday_view(sunday));
    assert_eq!(c.claim_rewards(11, sunday).unwrap(), pending);
    assert_eq!(c.get_pending_rewards(11), 0);
    assert_eq!(c.get_total_rewards_distributed(), pending);
    assert_eq!(c.claim_rewards(11, sunday), Err(CenterError::NoRewards));
    assert_eq!(c.claim_rewards(99, sunday), Err(CenterError::NotMember));
}

#[test]
fn leaving_keeps_the_account_but_unbinds_the_wallet() {
    let mut c = three_member_center();
    c.leave_circle(11).unwrap();
    assert!(!c.is_member(11));
    assert!(!c.is_active(11));
    // rejoining deploys a fresh account with the next join index
    let sc = c.join_circle(11, EGLD).unwrap();
    assert_eq!(sc, 3);
    assert_eq!(c.get_peripheral_index(11), 4);
}
