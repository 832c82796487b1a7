//! The collaborator contracts: the peripheral account, the vote-based
//! savings-circle manager, and the collateral-backed investment circle.

use circle_of_life::investment::CircleStatus;
use circle_of_life::investment::ContributionFrequency;
use circle_of_life::investment::InvestmentCircle;
use circle_of_life::investment::InvestmentError;
use circle_of_life::manager::CircleManager;
use circle_of_life::manager::ManagerError;
use circle_of_life::peripheral::CirclePeripheral;
use circle_of_life::peripheral::PeripheralContract;
use circle_of_life::peripheral::PeripheralError;

#[test]
fn contribution_frequencies_in_seconds() {
    assert_eq!(ContributionFrequency::Weekly.to_seconds(), 604_800);
    assert_eq!(ContributionFrequency::BiWeekly.to_seconds(), 1_209_600);
    assert_eq!(ContributionFrequency::Monthly.to_seconds(), 2_592_000);
    assert_eq!(ContributionFrequency::Quarterly.to_seconds(), 7_776_000);
}

#[test]
fn peripheral_account_gates_its_transfers() {
    let mut p = CirclePeripheral::init(11, 900);
    assert_eq!(p.get_owner(), 11);
    assert_eq!(p.get_sc0_address(), 900);
    assert!(p.get_is_active());
    p.deposit(55, 1_000);
    assert_eq!(p.get_balance(), 1_000);
    // a stranger may not move funds; the owner and the center may
    assert_eq!(p.transfer(55, 12, 100), Err(PeripheralError::OwnerOrSc0Only));
    p.transfer(11, 12, 100).unwrap();
    p.transfer(900, 13, 100).unwrap();
    assert_eq!(p.get_balance(), 800);
    assert_eq!(p.transfer(11, 12, 900), Err(PeripheralError::InsufficientBalance));
    // only the center may drain the account
    assert_eq!(p.force_transfer_to_sc0(11), Err(PeripheralError::Sc0Only));
    assert_eq!(p.force_transfer_to_sc0(900).unwrap(), 800);
    assert_eq!(p.get_balance(), 0);
    assert_eq!(p.deactivate(900), Err(PeripheralError::OwnerOnly));
    p.deactivate(11).unwrap();
    assert!(!p.get_is_active());
    p.activate(11).unwrap();
    assert!(p.get_is_active());
}

#[test]
fn savings_circle_admits_by_majority_and_rotates_the_pot() {
    let creator = 21;
    let mut m = CircleManager::init();
    assert_eq!(
        m.create_circle(creator, 0, 86_400, 5, vec![b'a'], 1_000),
        Err(ManagerError::ZeroContribution),
    );
    let id = m.create_circle(creator, 100, 86_400, 5, vec![b'a'], 1_000).unwrap();
    assert_eq!(id, 1);
    assert_eq!(m.get_circle_count(), 1);
    // a candidate asks to join; the creator's vote alone is a majority of one
    m.request_membership(22, id).unwrap();
    assert!(m.has_pending_request_view(id, 22));
    assert_eq!(m.vote_for_member(23, id, 22, true), Err(ManagerError::NotMember));
    m.vote_for_member(creator, id, 22, true).unwrap();
    assert!(!m.has_pending_request_view(id, 22));
    assert!(m.is_member(0, 22));
    // with two members a single approval is no longer a majority
    m.request_membership(23, id).unwrap();
    m.vote_for_member(creator, id, 23, true).unwrap();
    assert!(!m.is_member(0, 23));
    m.vote_for_member(22, id, 23, true).unwrap();
    assert!(m.is_member(0, 23));
    assert_eq!(m.vote_for_member(22, id, 23, true), Err(ManagerError::NoPendingRequest));
    // a rejected candidate is dropped by a majority of refusals
    m.request_membership(24, id).unwrap();
    m.vote_for_member(creator, id, 24, false).unwrap();
    m.vote_for_member(22, id, 24, false).unwrap();
    assert!(!m.has_pending_request_view(id, 24));
    assert!(!m.is_member(0, 24));

    // everyone pays in; the first cycle's pot goes to the first member
    for member in [creator, 22, 23] {
        m.contribute(member, id, 100).unwrap();
    }
    assert_eq!(m.contribute(creator, id, 100), Err(ManagerError::AlreadyContributed));
    assert_eq!(m.get_cycle_contributor_count(0), 3);
    let (beneficiary, paid) = m.force_distribute(creator, id, 2_000).unwrap();
    assert_eq!(beneficiary, creator);
    // 3% of the 300 pot goes to the treasury
    assert_eq!(paid, 291);
    assert_eq!(m.get_treasury_balance(), 9);
    let circle = m.get_circle(id).unwrap();
    assert_eq!(circle.current_cycle, 1);
    assert!(circle.is_active);
}

#[test]
fn savings_circle_distribution_gates() {
    let creator = 21;
    let mut m = CircleManager::init();
    let id = m.create_circle(creator, 100, 86_400, 5, vec![b'a'], 1_000).unwrap();
    assert_eq!(m.force_distribute(22, id, 5_000), Err(ManagerError::CreatorOnly));
    assert_eq!(
        m.distribute_funds(creator, id, 2_000),
        Err(ManagerError::NotDistributionTime),
    );
    assert_eq!(
        m.distribute_funds(creator, id, 90_000),
        Err(ManagerError::NotAllContributed),
    );
    m.contribute(creator, id, 100).unwrap();
    let (beneficiary, paid) = m.distribute_funds(creator, id, 90_000).unwrap();
    assert_eq!(beneficiary, creator);
    assert_eq!(paid, 97);
    // one member means one cycle: the circle has finished
    assert!(!m.get_circle(id).unwrap().is_active);
    assert_eq!(m.force_distribute(creator, id, 95_000), Err(ManagerError::CircleInactive));
}

#[test]
fn investment_circle_collateral_lifecycle() {
    let owner = 1;
    let mut v = InvestmentCircle::init(owner);
    // four periods of 10 each: collateral is 40
    let id = v
        .create_circle(31, 40, vec![b'c'], 10, ContributionFrequency::Weekly, 4, 2, 4, 1_000)
        .unwrap();
    assert_eq!(id, 1);
    assert_eq!(
        v.join_circle(32, id, 39, 1_100),
        Err(InvestmentError::WrongCollateral),
    );
    v.join_circle(32, id, 40, 1_100).unwrap();
    assert_eq!(v.join_circle(32, id, 40, 1_100), Err(InvestmentError::AlreadyMember));
    assert!(v.can_start_circle(id));
    assert_eq!(v.get_payouts_per_member(id), 2);
    v.start_circle(31, id, 2_000).unwrap();
    let info = v.get_circle_info(id).unwrap();
    assert_eq!(info.current_period, 1);
    assert_eq!(info.next_contribution_deadline, 2_000 + 604_800);

    // the first member pays; a quarter of its collateral unlocks
    v.contribute(31, id, 10, 2_500).unwrap();
    assert_eq!(v.contribute(31, id, 10, 2_600), Err(InvestmentError::AlreadyContributed));
    assert_eq!(v.get_pool_balance(0), 10);
    let m31 = v.get_member_info(id, 31).unwrap();
    assert_eq!(m31.contributions_paid, 1);
    assert_eq!(m31.collateral_unlocked, 10);
    assert_eq!(v.get_claimable_collateral(id, 31), 10);
    assert_eq!(v.claim_collateral(31, id).unwrap(), 10);
    assert_eq!(v.get_claimable_collateral(id, 31), 0);

    // the second member never pays: after the deadline its collateral covers
    let deadline = 2_000 + 604_800;
    assert_eq!(
        v.process_missed_contribution(id, 32, deadline),
        Err(InvestmentError::DeadlineNotPassed),
    );
    let data = v.process_missed_contribution(id, 32, deadline + 1).unwrap();
    assert_eq!(data.amount, 10);
    assert_eq!(data.missed_contributions, 1);
    let m32 = v.get_member_info(id, 32).unwrap();
    assert_eq!(m32.collateral_used, 10);
    assert!(m32.is_active);
    assert_eq!(v.get_pool_balance(0), 20);
}

#[test]
fn investment_circle_creation_and_leave_rules() {
    let owner = 1;
    let mut v = InvestmentCircle::init(owner);
    assert_eq!(
        v.create_circle(31, 40, vec![b'c'], 10, ContributionFrequency::Weekly, 4, 3, 2, 1_000),
        Err(InvestmentError::BadMemberBound),
    );
    assert_eq!(
        v.create_circle(31, 40, vec![b'c'], 10, ContributionFrequency::Weekly, 5, 2, 4, 1_000),
        Err(InvestmentError::UnfairSplit),
    );
    let id = v
        .create_circle(31, 40, vec![b'c'], 10, ContributionFrequency::Weekly, 4, 2, 4, 1_000)
        .unwrap();
    // the creator cannot walk away from a pending circle, a member can
    assert_eq!(v.leave_circle(31, id), Err(InvestmentError::CreatorCannotLeave));
    v.join_circle(32, id, 40, 1_100).unwrap();
    assert_eq!(v.leave_circle(32, id).unwrap(), 40);
    assert_eq!(v.get_circle_info(id).unwrap().current_members, 1);
    // not enough members to start
    assert_eq!(v.start_circle(31, id, 2_000), Err(InvestmentError::NotEnoughMembers));
    // the creator cancels; every remaining member is refunded
    let refunds = v.cancel_circle(31, id).unwrap();
    assert_eq!(refunds, vec![(31u64, 40u128)]);
    assert_eq!(
        v.join_circle(33, id, 40, 3_000),
        Err(InvestmentError::NotAcceptingMembers),
    );
    // owner fee controls
    assert_eq!(v.set_protocol_fee(2, 100), Err(InvestmentError::OwnerOnly));
    assert_eq!(v.set_protocol_fee(1, 1_001), Err(InvestmentError::FeeTooHigh));
    v.set_protocol_fee(1, 100).unwrap();
    assert_eq!(v.withdraw_fees(1), Err(InvestmentError::NoFees));
}

#[test]
fn investment_periods_advance_and_settle_from_collateral() {
    let week = 604_800u64;
    let mut v = InvestmentCircle::init(1);
    let id = v
        .create_circle(31, 40, vec![b'c'], 10, ContributionFrequency::Weekly, 4, 2, 4, 1_000)
        .unwrap();
    v.join_circle(32, id, 40, 1_100).unwrap();
    v.start_circle(31, id, 2_000).unwrap();
    v.contribute(31, id, 10, 2_500).unwrap();
    // period one closes: the paying member's pot entry plus the defaulter's
    // collateral make 20, paid to the first member in line
    let t1 = 2_000 + week + 1;
    assert_eq!(v.advance_period(id, 2_000 + week), Err(InvestmentError::DeadlineNotPassed));
    let payout1 = v.advance_period(id, t1).unwrap();
    assert_eq!(payout1, Some((31, 20)));
    assert_eq!(v.get_member_info(id, 32).unwrap().collateral_used, 10);
    assert_eq!(v.get_circle_info(id).unwrap().current_period, 2);
    // three more silent periods: the pot rotates, funded from collateral
    let t2 = t1 + week + 1;
    assert_eq!(v.advance_period(id, t2).unwrap(), Some((32, 20)));
    let t3 = t2 + week + 1;
    assert_eq!(v.advance_period(id, t3).unwrap(), Some((31, 20)));
    let t4 = t3 + week + 1;
    assert_eq!(v.advance_period(id, t4).unwrap(), Some((32, 20)));
    let info = v.get_circle_info(id).unwrap();
    assert_eq!(info.status, CircleStatus::Completed);
    assert_eq!(v.get_member_info(id, 31).unwrap().collateral_used, 30);
    assert_eq!(v.get_member_info(id, 32).unwrap().collateral_used, 40);
    assert_eq!(v.advance_period(id, t4 + week), Err(InvestmentError::NotActive));
    // the paying member recovers its unused collateral; the defaulter has none
    assert_eq!(v.claim_collateral(31, id), Ok(10));
    assert_eq!(v.claim_collateral(32, id), Err(InvestmentError::NothingToClaim));
}
