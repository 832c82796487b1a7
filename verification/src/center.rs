//! State of the rotation center: enrolled participants, the cycle singleton,
//! the reward pool, and the distribution accumulators, together with the
//! mathematical model (spec functions) that every contract of the library is
//! stated over.
//!
//! The host environment enters only through plain parameters: the caller's
//! account (`caller: u64`), the clock (`now`, seconds), and the value paid in
//! (`payment`). Value that leaves or enters the center's own account is
//! tracked in `egld_balance`.

use vstd::prelude::*;

verus! {

/// Seconds in one protocol day.
pub const SECONDS_PER_DAY: u64 = 86_400;
/// Seconds in one 30-day ban unit.
pub const BAN_UNIT_SECONDS: u64 = 2_592_000;
/// Days without a new infraction after which the infraction count resets.
pub const INFRACTION_RESET_DAYS: u64 = 360;
/// Cycles per halving era; also the length of a "full circle".
pub const HALVING_PERIOD: u64 = 360;
/// Largest halving era: the divisor is capped at 2^10.
pub const MAX_ERA: u64 = 10;
/// Base emission per completed cycle, in atto-units (36 000 tokens).
pub const BASE_REWARD_ATTO: u128 = 36_000_000_000_000_000_000_000;
/// Full-circle bonus, in basis points.
pub const PI_BONUS_BPS: u64 = 314;
/// Basis-point denominator.
pub const BPS_BASE: u64 = 10_000;
/// Pioneer bonus, in basis points.
pub const PIONEER_BONUS_BPS: u64 = 314;
/// Number of earliest joiners that count as pioneers.
pub const PIONEER_THRESHOLD: u64 = 360;
/// Cap on the deposit bonus, in basis points.
pub const MAX_DEPOSIT_BONUS_BPS: u64 = 36_000;
/// One whole native unit, in atto-units.
pub const ONE_EGLD: u128 = 1_000_000_000_000_000_000;
/// Deposit bonus per whole native unit deposited, in basis points.
pub const DEPOSIT_BONUS_PER_EGLD_BPS: u64 = 100;
/// Treasury share of every inbound payment, in basis points.
pub const TREASURY_BPS: u64 = 314;
/// Liquidity share of the remainder after treasury, in basis points.
pub const LIQUIDITY_BPS: u64 = 7_000;
/// DAO share of the remainder after treasury, in basis points.
pub const DAO_BPS: u64 = 3_000;
/// Smallest accepted swap slippage, in basis points.
pub const MIN_SLIPPAGE_BPS: u64 = 50;
/// Largest accepted swap slippage, in basis points.
pub const MAX_SLIPPAGE_BPS: u64 = 1_000;
/// Largest accepted starter bonus percentage, in basis points.
pub const MAX_STARTER_BONUS_BPS: u64 = 5_000;
/// Largest number of cycles a bounded auto-signature may cover.
pub const MAX_AUTO_SIGN_CYCLES: u64 = 365;
/// Default entry fee: one whole native unit.
pub const DEFAULT_ENTRY_FEE: u128 = 1_000_000_000_000_000_000;
/// Default circulating amount: 0.001 native units.
pub const DEFAULT_CIRCULATION: u128 = 1_000_000_000_000_000;
/// Upper bound on everything one cycle completion can add to a single
/// participant's pending rewards: 2^80 (the true bound is below 2^79).
pub const GRANT_HEADROOM: u128 = 1_208_925_819_614_629_174_706_176;

/// One enrolled peripheral account and everything the center records about it.
#[derive(Clone, Copy, PartialEq, Eq, Structural, Debug)]
pub struct Participant {
    /// Owning wallet account.
    pub owner: u64,
    /// Whether the owner's membership record still points at this account
    /// (cleared when the owner leaves; the ownership itself is permanent).
    pub bound: bool,
    /// Active flag: only active participants take part in rotations.
    pub active: bool,
    /// 1-based join index, immutable once assigned.
    pub join_index: u64,
    /// Completed rotations this participant took part in.
    pub cycles_completed: u64,
    /// Rotations this participant stalled.
    pub cycles_failed: u64,
    /// Timestamp until which this participant is banned.
    pub ban_until: u64,
    /// Infractions counted since the last reset window.
    pub infraction_count: u64,
    /// Timestamp of the most recent infraction (0: none).
    pub last_infraction: u64,
    /// Accrued, unclaimed reward balance.
    pub pending_rewards: u128,
    /// Epoch of the latest explicit pre-signature (0: none).
    pub pre_signed_epoch: u64,
    /// Permanent auto-signature flag.
    pub auto_sign_enabled: bool,
    /// Auto-signature is honoured up to this epoch, inclusive (0: off).
    pub auto_sign_until: u64,
    /// Epoch of the latest executed forward (0: none).
    pub signed_epoch: u64,
    /// Timestamp of that forward.
    pub signed_at: u64,
}

/// Lifetime native-value deposits of one member wallet.
#[derive(Clone, Copy, PartialEq, Eq, Structural, Debug)]
pub struct MemberDeposit {
    pub member: u64,
    pub amount: u128,
}

/// Why an operation was rejected. Every rejection leaves the state unchanged.
#[derive(Clone, Copy, PartialEq, Eq, Structural, Debug)]
pub enum CenterError {
    OwnerOnly,
    Paused,
    NotMember,
    AlreadyMember,
    InactiveAccount,
    TemplateNotSet,
    InsufficientPayment,
    CycleAlreadyStartedToday,
    CycleNotStarted,
    NoCycleRunning,
    NoActiveParticipants,
    CirculationNotSet,
    InsufficientBalance,
    AlreadyPreSigned,
    AlreadySigned,
    NotPreSigned,
    NotYourTurn,
    NotTimedOut,
    StillBanned,
    NotClaimDay,
    NoRewards,
    RewardTokenNotSet,
    WrongToken,
    PoolInsufficient,
    InvalidSlippage,
    StarterBonusTooLarge,
    InvalidCycleCount,
    DistributionDisabled,
    DaoNotSet,
    AmountTooLarge,
    ZeroAmount,
    NoPendingLiquidity,
    ProcessingInProgress,
    ConfigMissing,
    NoTokenBalance,
}

/// The rotation center itself.
#[derive(Clone)]
pub struct CircleOfLifeCenter {
    pub owner: u64,
    pub paused: bool,
    /// Template for newly deployed peripheral accounts (account id).
    pub peripheral_template: Option<u64>,
    /// All peripheral accounts ever deployed, in join order.
    pub participants: Vec<Participant>,
    /// Lifetime deposits per member wallet.
    pub deposits: Vec<MemberDeposit>,
    pub total_egld_deposits: u128,
    pub entry_fee: u128,
    /// The fixed amount relayed around the rotation.
    pub circulation_amount: u128,
    /// Position within the active ordering, interpreted modulo its length.
    pub current_cycle_index: usize,
    /// Day the running (or last) cycle was started on (0: never).
    pub cycle_day: u64,
    /// Logical epoch; bumped on completion and failure, never decremented.
    pub cycle_epoch: u64,
    /// Participant currently entrusted with the circulating amount.
    pub cycle_holder: Option<usize>,
    /// Wallet that started the running cycle, if any.
    pub cycle_starter: Option<u64>,
    pub cycles_completed: u64,
    pub cycles_failed: u64,
    /// The center's own native-value balance.
    pub egld_balance: u128,
    /// Reward token, once configured (token id).
    pub reward_token: Option<u64>,
    pub rewards_pool: u128,
    /// Manually configured per-cycle reward (superseded by the halving rule).
    pub reward_per_cycle_config: u128,
    pub total_rewards_distributed: u128,
    pub total_burned: u128,
    /// Amount burned per active participant on each completion.
    pub burn_per_sc: u128,
    /// Starter bonus, in basis points (0: none).
    pub starter_bonus_percentage: u64,
    pub total_starter_bonus_distributed: u128,
    pub nft_contract: Option<u64>,
    pub distribution_enabled: bool,
    pub dao_contract: Option<u64>,
    pub xexchange_pair: Option<u64>,
    pub wegld_contract: Option<u64>,
    pub wegld_token: Option<u64>,
    pub lp_locker: Option<u64>,
    pub slippage_tolerance_bps: u64,
    pub total_distributed_treasury: u128,
    pub total_distributed_liquidity: u128,
    pub total_distributed_dao: u128,
    /// Native value waiting for the four-step liquidity pipeline.
    pub pending_liquidity_egld: u128,
    pub liquidity_threshold: u128,
    pub lp_token: Option<u64>,
    pub xcirclex_token: Option<u64>,
    pub pending_wegld_for_swap: u128,
    pub pending_wegld_for_lp: u128,
    pub pending_xcirclex_for_lp: u128,
    pub pending_lp_tokens: u128,
    /// Crash-recovery flag: a pipeline step awaits its completion event.
    pub processing_in_progress: bool,
    /// Wrapped-token balance held by the center.
    pub wegld_balance: u128,
    /// Protocol-token balance held by the center.
    pub xcirclex_balance: u128,
    /// Liquidity-token balance held by the center.
    pub lp_balance: u128,
}

// ───────────────────────── time ─────────────────────────

/// Protocol day of a timestamp.
pub open spec fn sp_day_of(now: u64) -> int {
    now as int / (SECONDS_PER_DAY as int)
}

/// Day of the week, 0 = the weekly claim day (the Unix epoch was a Thursday).
pub open spec fn sp_day_of_week(now: u64) -> int {
    (now as int / (SECONDS_PER_DAY as int) + 4) % 7
}

/// Whether rewards may be claimed at this timestamp.
pub open spec fn sp_is_claim_day(now: u64) -> bool {
    sp_day_of_week(now) == 0
}

// ───────────────────────── halving ─────────────────────────

pub open spec fn sp_pow2(e: nat) -> nat
    decreases e,
{
    if e == 0 {
        1
    } else {
        2 * sp_pow2((e - 1) as nat)
    }
}

/// Halving era of a completed-cycle count.
pub open spec fn sp_era_of(cycles: u64) -> int {
    cycles as int / (HALVING_PERIOD as int)
}

pub open spec fn sp_capped_era(cycles: u64) -> nat {
    if sp_era_of(cycles) > MAX_ERA as int {
        MAX_ERA as nat
    } else {
        sp_era_of(cycles) as nat
    }
}

/// The halving schedule: base emission after `cycles` completed cycles.
pub open spec fn sp_base_cycle_reward(cycles: u64) -> int {
    (BASE_REWARD_ATTO as int) / (sp_pow2(sp_capped_era(cycles)) as int)
}

// ───────────────────────── distribution split ─────────────────────────

/// Treasury share of an inbound payment.
pub open spec fn sp_treasury_share(total: int) -> int {
    total * (TREASURY_BPS as int) / (BPS_BASE as int)
}

/// Liquidity share: 70% of what remains after treasury.
pub open spec fn sp_liquidity_share(total: int) -> int {
    (total - sp_treasury_share(total)) * (LIQUIDITY_BPS as int) / (BPS_BASE as int)
}

/// DAO share: 30% of what remains after treasury.
pub open spec fn sp_dao_share(total: int) -> int {
    (total - sp_treasury_share(total)) * (DAO_BPS as int) / (BPS_BASE as int)
}

// ───────────────────────── bonuses ─────────────────────────

/// Deposit bonus in whole percent: one per whole unit deposited, capped at 360.
pub open spec fn sp_deposit_bonus_percent(deposits: u128) -> int {
    let units = deposits as int / (ONE_EGLD as int);
    if units > 360 {
        360
    } else {
        units
    }
}

/// Deposit bonus in basis points.
pub open spec fn sp_deposit_bonus_bps(deposits: u128) -> int {
    sp_deposit_bonus_percent(deposits) * (DEPOSIT_BONUS_PER_EGLD_BPS as int)
}

/// Whether a join index is a pioneer slot.
pub open spec fn sp_is_pioneer(join_index: u64) -> bool {
    0 < join_index <= PIONEER_THRESHOLD
}

/// Per-participant reward after the pioneer and deposit overlays.
pub open spec fn sp_reward_with_bonuses(base: int, p: Participant, dep: u128) -> int {
    base + (if sp_is_pioneer(p.join_index) {
        base * (PIONEER_BONUS_BPS as int) / (BPS_BASE as int)
    } else {
        0
    }) + (base * sp_deposit_bonus_bps(dep) / (BPS_BASE as int))
}

// ───────────────────────── signatures ─────────────────────────

/// Effective pre-signature: explicit for this epoch, permanent, or bounded.
pub open spec fn sp_presigned(p: Participant, epoch: u64) -> bool {
    ||| p.pre_signed_epoch == epoch
    ||| p.auto_sign_enabled
    ||| p.auto_sign_until > 0 && epoch <= p.auto_sign_until
}

/// Whether the participant has already forwarded in this epoch.
pub open spec fn sp_signed(p: Participant, epoch: u64) -> bool {
    p.signed_epoch == epoch
}

// ───────────────────────── infractions ─────────────────────────

/// Whether the reset window has elapsed since the last infraction.
pub open spec fn sp_infractions_reset(p: Participant, now: u64) -> bool {
    p.last_infraction > 0 && (now - p.last_infraction) / (SECONDS_PER_DAY as int)
        >= INFRACTION_RESET_DAYS as int
}

/// Infraction count after recording one more infraction at `now`.
pub open spec fn sp_next_infraction_count(p: Participant, now: u64) -> int {
    if sp_infractions_reset(p, now) {
        1
    } else {
        p.infraction_count + 1
    }
}

/// Ban expiry after recording one more infraction at `now`.
pub open spec fn sp_next_ban_until(p: Participant, now: u64) -> int {
    now + sp_next_infraction_count(p, now) * (BAN_UNIT_SECONDS as int)
}

/// The participant record after an infraction is recorded against it:
/// counters escalate, the ban is applied and the account is deactivated.
pub open spec fn sp_after_infraction(p: Participant, now: u64) -> Participant {
    Participant {
        active: false,
        cycles_failed: (p.cycles_failed + 1) as u64,
        infraction_count: sp_next_infraction_count(p, now) as u64,
        last_infraction: now,
        ban_until: sp_next_ban_until(p, now) as u64,
        ..p
    }
}

// ───────────────────────── derived collections ─────────────────────────

/// Indices of the active participants, ascending (the rotation order).
pub open spec fn active_idxs(s: Seq<Participant>) -> Seq<int>
    decreases s.len(),
{
    if s.len() == 0 {
        Seq::empty()
    } else {
        let pre = active_idxs(s.drop_last());
        if s.last().active {
            pre.push(s.len() - 1)
        } else {
            pre
        }
    }
}

/// Whether participant `i` is the account bound to member wallet `m`.
pub open spec fn is_member_sc(s: Seq<Participant>, m: u64, i: int) -> bool {
    0 <= i < s.len() && s[i].bound && s[i].owner == m
}

/// Whether member wallet `m` is enrolled.
pub open spec fn sp_is_member(s: Seq<Participant>, m: u64) -> bool {
    exists|i: int| is_member_sc(s, m, i)
}

/// Lifetime deposits recorded for member wallet `m`.
pub open spec fn deposits_of(d: Seq<MemberDeposit>, m: u64) -> u128
    decreases d.len(),
{
    if d.len() == 0 {
        0
    } else if d.last().member == m {
        d.last().amount
    } else {
        deposits_of(d.drop_last(), m)
    }
}

pub open spec fn dep_keys_distinct(d: Seq<MemberDeposit>) -> bool {
    forall|i: int, j: int|
        0 <= i < j < d.len() ==> (#[trigger] d[i]).member != (#[trigger] d[j]).member
}

// ───────────────────────── well-formedness ─────────────────────────

impl CircleOfLifeCenter {
    /// Structural invariant, established by `init` and kept by every method.
    pub open spec fn wf(self) -> bool {
        &&& self.cycle_epoch >= 1
        &&& forall|i: int|
            0 <= i < self.participants@.len() ==> (#[trigger] self.participants@[i]).join_index
                == i + 1
        &&& forall|i: int, j: int|
            0 <= i < j < self.participants@.len() ==> !((#[trigger] self.participants@[i]).bound
                && (#[trigger] self.participants@[j]).bound && self.participants@[i].owner
                == self.participants@[j].owner)
        &&& match self.cycle_holder {
            Some(h) => h < self.participants@.len(),
            None => true,
        }
        &&& dep_keys_distinct(self.deposits@)
        &&& self.starter_bonus_percentage <= MAX_STARTER_BONUS_BPS
    }

    /// A fresh center owned by the deploying account.
    pub fn init(owner: u64) -> (r: CircleOfLifeCenter)
        ensures
            r.wf(),
            r.participants@ =~= Seq::<Participant>::empty(),
            r.deposits@ =~= Seq::<MemberDeposit>::empty(),
            r.owner == owner,
            !r.paused,
            r.peripheral_template is None,
            r.total_egld_deposits == 0,
            r.entry_fee == DEFAULT_ENTRY_FEE,
            r.circulation_amount == DEFAULT_CIRCULATION,
            r.current_cycle_index == 0,
            r.cycle_day == 0,
            r.cycle_epoch == 1,
            r.cycle_holder is None,
            r.cycle_starter is None,
            r.cycles_completed == 0,
            r.cycles_failed == 0,
            r.egld_balance == 0,
            r.reward_token is None,
            r.rewards_pool == 0,
            r.reward_per_cycle_config == 0,
            r.total_rewards_distributed == 0,
            r.total_burned == 0,
            r.burn_per_sc == 0,
            r.starter_bonus_percentage == 0,
            r.total_starter_bonus_distributed == 0,
            r.nft_contract is None,
            !r.distribution_enabled,
            r.dao_contract is None,
            r.xexchange_pair is None,
            r.wegld_contract is None,
            r.wegld_token is None,
            r.lp_locker is None,
            r.slippage_tolerance_bps == 0,
            r.total_distributed_treasury == 0,
            r.total_distributed_liquidity == 0,
            r.total_distributed_dao == 0,
            r.pending_liquidity_egld == 0,
            r.liquidity_threshold == 0,
            r.lp_token is None,
            r.xcirclex_token is None,
            r.pending_wegld_for_swap == 0,
            r.pending_wegld_for_lp == 0,
            r.pending_xcirclex_for_lp == 0,
            r.pending_lp_tokens == 0,
            !r.processing_in_progress,
            r.wegld_balance == 0,
            r.xcirclex_balance == 0,
            r.lp_balance == 0,
    {
        CircleOfLifeCenter {
            owner,
            paused: false,
            peripheral_template: None,
            participants: Vec::new(),
            deposits: Vec::new(),
            total_egld_deposits: 0,
            entry_fee: DEFAULT_ENTRY_FEE,
            circulation_amount: DEFAULT_CIRCULATION,
            current_cycle_index: 0,
            cycle_day: 0,
            cycle_epoch: 1,
            cycle_holder: None,
            cycle_starter: None,
            cycles_completed: 0,
            cycles_failed: 0,
            egld_balance: 0,
            reward_token: None,
            rewards_pool: 0,
            reward_per_cycle_config: 0,
            total_rewards_distributed: 0,
            total_burned: 0,
            burn_per_sc: 0,
            starter_bonus_percentage: 0,
            total_starter_bonus_distributed: 0,
            nft_contract: None,
            distribution_enabled: false,
            dao_contract: None,
            xexchange_pair: None,
            wegld_contract: None,
            wegld_token: None,
            lp_locker: None,
            slippage_tolerance_bps: 0,
            total_distributed_treasury: 0,
            total_distributed_liquidity: 0,
            total_distributed_dao: 0,
            pending_liquidity_egld: 0,
            liquidity_threshold: 0,
            lp_token: None,
            xcirclex_token: None,
            pending_wegld_for_swap: 0,
            pending_wegld_for_lp: 0,
            pending_xcirclex_for_lp: 0,
            pending_lp_tokens: 0,
            processing_in_progress: false,
            wegld_balance: 0,
            xcirclex_balance: 0,
            lp_balance: 0,
        }
    }

    /// Owner gate shared by the administrative endpoints.
    pub fn require_owner(&self, caller: u64) -> (r: Result<(), CenterError>)
        ensures
            r is Ok <==> caller == self.owner,
            r is Err ==> r == Result::<(), CenterError>::Err(CenterError::OwnerOnly),
    {
        if caller == self.owner {
            Ok(())
        } else {
            Err(CenterError::OwnerOnly)
        }
    }

    /// Pause gate shared by the user-facing endpoints.
    pub fn require_not_paused(&self) -> (r: Result<(), CenterError>)
        ensures
            r is Ok <==> !self.paused,
            r is Err ==> r == Result::<(), CenterError>::Err(CenterError::Paused),
    {
        if self.paused {
            Err(CenterError::Paused)
        } else {
            Ok(())
        }
    }
}


// ───────────────────── distribution of inbound value ─────────────────────

impl CircleOfLifeCenter {
    /// State after an inbound payment of `pay` has been split: treasury is
    /// tracked in place, the DAO share leaves the balance when a DAO account
    /// is configured, and the liquidity share accumulates for the pipeline.
    /// With distribution disabled nothing happens.
    pub open spec fn sp_after_distribution(self, pay: u128) -> CircleOfLifeCenter {
        if !self.distribution_enabled {
            self
        } else {
            let t = sp_treasury_share(pay as int);
            let l = sp_liquidity_share(pay as int);
            let d = sp_dao_share(pay as int);
            let dao_paid: int = if self.dao_contract is Some {
                d
            } else {
                0
            };
            CircleOfLifeCenter {
                total_distributed_treasury: (self.total_distributed_treasury + t) as u128,
                total_distributed_dao: (self.total_distributed_dao + dao_paid) as u128,
                total_distributed_liquidity: (self.total_distributed_liquidity + l) as u128,
                pending_liquidity_egld: (self.pending_liquidity_egld + l) as u128,
                egld_balance: (self.egld_balance - dao_paid) as u128,
                ..self
            }
        }
    }

    /// Arithmetic room the split of a payment of `payment` needs
    /// (machine limits only).
    pub open spec fn sp_split_headroom(self, payment: u128) -> bool {
        &&& payment as int * (BPS_BASE as int) <= u128::MAX
        &&& self.total_distributed_treasury + payment <= u128::MAX
        &&& self.total_distributed_liquidity + payment <= u128::MAX
        &&& self.total_distributed_dao + payment <= u128::MAX
        &&& self.pending_liquidity_egld + payment <= u128::MAX
    }

    /// Arithmetic room an endpoint needs before it can accept and split a
    /// payment of `payment` (machine limits only).
    pub open spec fn sp_pay_headroom(self, payment: u128) -> bool {
        &&& self.egld_balance + payment <= u128::MAX
        &&& self.sp_split_headroom(payment)
    }
}

/// A freshly enrolled participant with the given owner and join index.
pub open spec fn sp_new_participant(owner: u64, join_index: u64) -> Participant {
    Participant {
        owner,
        bound: true,
        active: true,
        join_index,
        cycles_completed: 0,
        cycles_failed: 0,
        ban_until: 0,
        infraction_count: 0,
        last_infraction: 0,
        pending_rewards: 0,
        pre_signed_epoch: 0,
        auto_sign_enabled: false,
        auto_sign_until: 0,
        signed_epoch: 0,
        signed_at: 0,
    }
}

// ───────────────────────── arithmetic lemmas ─────────────────────────

/// Euclidean division by a positive divisor never grows a non-negative value.
pub proof fn lemma_div_le(x: int, d: int)
    requires
        0 <= x,
        1 <= d,
    ensures
        0 <= x / d <= x,
{
    assert(0 <= x / d <= x) by (nonlinear_arith)
        requires
            0 <= x,
            1 <= d,
    ;
}

/// Rounding down and multiplying back never exceeds the original value.
pub proof fn lemma_mul_div_le(x: int, d: int)
    requires
        0 <= x,
        1 <= d,
    ensures
        0 <= (x / d) * d <= x,
{
    assert(0 <= (x / d) * d <= x) by (nonlinear_arith)
        requires
            0 <= x,
            1 <= d,
    ;
}

/// A fraction with numerator at most the denominator never grows the value.
pub proof fn lemma_frac_le(x: int, num: int, den: int)
    requires
        0 <= x,
        0 <= num <= den,
        0 < den,
    ensures
        0 <= x * num / den <= x,
{
    assert(0 <= x * num / den <= x) by (nonlinear_arith)
        requires
            0 <= x,
            0 <= num <= den,
            0 < den,
    ;
}

/// A fraction with numerator at most four denominators stays below four times
/// the value.
pub proof fn lemma_frac_le4(x: int, num: int, den: int)
    requires
        0 <= x,
        0 <= num,
        0 < den,
        num <= 4 * den,
    ensures
        0 <= x * num / den <= 4 * x,
{
    assert(0 <= x * num / den <= 4 * x) by (nonlinear_arith)
        requires
            0 <= x,
            0 <= num,
            0 < den,
            num <= 4 * den,
    ;
}

/// Splitting before dividing loses at most the rounding.
pub proof fn lemma_div_sum_le(x: int, y: int, d: int)
    requires
        0 <= x,
        0 <= y,
        0 < d,
    ensures
        x / d + y / d <= (x + y) / d,
{
    assert(x / d + y / d <= (x + y) / d) by (nonlinear_arith)
        requires
            0 <= x,
            0 <= y,
            0 < d,
    ;
}

/// Bounds of the three-way split of an inbound payment: every share is
/// non-negative, treasury stays within the total, and liquidity plus DAO
/// stay within the remainder, losing at most one unit to rounding.
pub proof fn lemma_share_bounds(total: int)
    requires
        0 <= total,
    ensures
        0 <= sp_treasury_share(total) <= total,
        0 <= sp_liquidity_share(total) <= total - sp_treasury_share(total),
        0 <= sp_dao_share(total) <= total - sp_treasury_share(total),
        sp_liquidity_share(total) + sp_dao_share(total) <= total - sp_treasury_share(total),
        total - sp_treasury_share(total) - 1 <= sp_liquidity_share(total) + sp_dao_share(total),
{
    lemma_frac_le(total, TREASURY_BPS as int, BPS_BASE as int);
    let rem = total - sp_treasury_share(total);
    lemma_frac_le(rem, LIQUIDITY_BPS as int, BPS_BASE as int);
    lemma_frac_le(rem, DAO_BPS as int, BPS_BASE as int);
    lemma_div_sum_le(rem * (LIQUIDITY_BPS as int), rem * (DAO_BPS as int), BPS_BASE as int);
    assert(rem * (LIQUIDITY_BPS as int) + rem * (DAO_BPS as int) == rem * (BPS_BASE as int))
        by (nonlinear_arith);
    assert(rem * (BPS_BASE as int) / (BPS_BASE as int) == rem) by (nonlinear_arith)
        requires
            0 <= rem,
    ;
    assert(rem - 1 <= sp_liquidity_share(total) + sp_dao_share(total)) by (nonlinear_arith)
        requires
            0 <= rem,
            sp_liquidity_share(total) == rem * (LIQUIDITY_BPS as int) / (BPS_BASE as int),
            sp_dao_share(total) == rem * (DAO_BPS as int) / (BPS_BASE as int),
    ;
}

/// When the remainder after treasury is a multiple of ten, the split is exact.
pub proof fn lemma_split_exact(total: int)
    requires
        0 <= total,
        (total - sp_treasury_share(total)) % 10 == 0,
    ensures
        sp_treasury_share(total) + sp_liquidity_share(total) + sp_dao_share(total) == total,
{
    lemma_share_bounds(total);
    let rem = total - sp_treasury_share(total);
    let q = rem / 10;
    assert(rem == 10 * q) by (nonlinear_arith)
        requires
            rem % 10 == 0,
            q == rem / 10,
    ;
    assert(rem * (LIQUIDITY_BPS as int) / (BPS_BASE as int) == 7 * q) by (nonlinear_arith)
        requires
            rem == 10 * q,
            0 <= q,
    ;
    assert(rem * (DAO_BPS as int) / (BPS_BASE as int) == 3 * q) by (nonlinear_arith)
        requires
            rem == 10 * q,
            0 <= q,
    ;
}

// ───────────────────────── halving lemmas ─────────────────────────

pub proof fn lemma_pow2_pos(e: nat)
    ensures
        sp_pow2(e) >= 1,
    decreases e,
{
    if e > 0 {
        lemma_pow2_pos((e - 1) as nat);
    }
}

/// The capped divisor table tops out at 2^10.
pub proof fn lemma_pow2_1024()
    ensures
        sp_pow2(10) == 1024,
{
    assert(sp_pow2(0) == 1);
    assert(sp_pow2(1) == 2);
    assert(sp_pow2(2) == 4);
    assert(sp_pow2(3) == 8);
    assert(sp_pow2(4) == 16);
    assert(sp_pow2(5) == 32);
    assert(sp_pow2(6) == 64);
    assert(sp_pow2(7) == 128);
    assert(sp_pow2(8) == 256);
    assert(sp_pow2(9) == 512);
}

pub proof fn lemma_pow2_le(e1: nat, e2: nat)
    requires
        e1 <= e2,
    ensures
        sp_pow2(e1) <= sp_pow2(e2),
    decreases e2,
{
    lemma_pow2_pos(e1);
    if e1 < e2 {
        lemma_pow2_le(e1, (e2 - 1) as nat);
    }
}

/// The halving schedule stays strictly positive and never exceeds the base.
pub proof fn lemma_base_reward_bounds(cycles: u64)
    ensures
        0 < sp_base_cycle_reward(cycles) <= BASE_REWARD_ATTO,
        sp_pow2(sp_capped_era(cycles)) <= 1024,
{
    lemma_pow2_pos(sp_capped_era(cycles));
    lemma_pow2_le(sp_capped_era(cycles), 10);
    assert(sp_pow2(0) == 1);
    assert(sp_pow2(1) == 2);
    assert(sp_pow2(2) == 4);
    assert(sp_pow2(3) == 8);
    assert(sp_pow2(4) == 16);
    assert(sp_pow2(5) == 32);
    assert(sp_pow2(6) == 64);
    assert(sp_pow2(7) == 128);
    assert(sp_pow2(8) == 256);
    assert(sp_pow2(9) == 512);
    assert(sp_pow2(10) == 1024);
    let p = sp_pow2(sp_capped_era(cycles)) as int;
    lemma_div_le(BASE_REWARD_ATTO as int, p);
    assert(BASE_REWARD_ATTO as int / p > 0) by (nonlinear_arith)
        requires
            1 <= p <= 1024,
    ;
}

/// A participant's whole overlay for one completion stays below six times the
/// base emission.
pub proof fn lemma_grant_bounds(base: int, p: Participant, dep: u128)
    requires
        0 <= base <= BASE_REWARD_ATTO,
    ensures
        0 <= sp_reward_with_bonuses(base, p, dep) <= 6 * (BASE_REWARD_ATTO as int),
{
    lemma_frac_le(base, PIONEER_BONUS_BPS as int, BPS_BASE as int);
    assert(0 <= sp_deposit_bonus_bps(dep) <= 36_000) by {
        lemma_div_le(dep as int, ONE_EGLD as int);
    }
    lemma_frac_le4(base, sp_deposit_bonus_bps(dep), BPS_BASE as int);
}

// ───────────────────────── deposit-table lemmas ─────────────────────────

/// With distinct keys, the recorded deposits of a listed member are exactly
/// that entry's amount.
pub proof fn lemma_deposits_of_at(d: Seq<MemberDeposit>, i: int)
    requires
        dep_keys_distinct(d),
        0 <= i < d.len(),
    ensures
        deposits_of(d, d[i].member) == d[i].amount,
    decreases d.len(),
{
    if i < d.len() - 1 {
        assert(dep_keys_distinct(d.drop_last()));
        lemma_deposits_of_at(d.drop_last(), i);
    }
}

/// A member with no entry has zero recorded deposits.
pub proof fn lemma_deposits_of_absent(d: Seq<MemberDeposit>, m: u64)
    requires
        forall|i: int| 0 <= i < d.len() ==> (#[trigger] d[i]).member != m,
    ensures
        deposits_of(d, m) == 0,
    decreases d.len(),
{
    if d.len() > 0 {
        lemma_deposits_of_absent(d.drop_last(), m);
    }
}

// ───────────────────────── active-list lemmas ─────────────────────────

/// Every position of the active ordering names an active participant, the
/// ordering ascends, and every active participant appears in it.
pub proof fn lemma_active_idxs_props(s: Seq<Participant>)
    ensures
        active_idxs(s).len() <= s.len(),
        forall|k: int|
            0 <= k < active_idxs(s).len() ==> 0 <= #[trigger] active_idxs(s)[k] < s.len()
                && s[active_idxs(s)[k]].active,
        forall|k1: int, k2: int|
            0 <= k1 < k2 < active_idxs(s).len() ==> #[trigger] active_idxs(s)[k1]
                < #[trigger] active_idxs(s)[k2],
        forall|i: int|
            0 <= i < s.len() && (#[trigger] s[i]).active ==> exists|k: int|
                0 <= k < active_idxs(s).len() && active_idxs(s)[k] == i,
    decreases s.len(),
{
    if s.len() > 0 {
        lemma_active_idxs_props(s.drop_last());
        let pre = active_idxs(s.drop_last());
        assert forall|i: int| 0 <= i < s.len() && (#[trigger] s[i]).active implies exists|k: int|
            0 <= k < active_idxs(s).len() && active_idxs(s)[k] == i by {
            if i < s.len() - 1 {
                assert(s.drop_last()[i].active);
                let k = choose|k: int| 0 <= k < pre.len() && pre[k] == i;
                assert(active_idxs(s)[k] == i);
            } else {
                assert(active_idxs(s)[active_idxs(s).len() - 1] == i);
            }
        }
    }
}

/// The active ordering depends on the active flags alone.
pub proof fn lemma_active_idxs_congruent(s1: Seq<Participant>, s2: Seq<Participant>)
    requires
        s1.len() == s2.len(),
        forall|i: int| 0 <= i < s1.len() ==> (#[trigger] s1[i]).active == (#[trigger] s2[i]).active,
    ensures
        active_idxs(s1) == active_idxs(s2),
    decreases s1.len(),
{
    if s1.len() > 0 {
        assert forall|i: int|
            0 <= i < s1.drop_last().len() implies (#[trigger] s1.drop_last()[i]).active == (
        #[trigger] s2.drop_last()[i]).active by {
            assert(s1[i].active == s2[i].active);
        }
        lemma_active_idxs_congruent(s1.drop_last(), s2.drop_last());
        assert(s1.last().active == s2.last().active);
    }
}

// ───────────────────────── administration ─────────────────────────

impl CircleOfLifeCenter {
    /// Configures the template new peripheral accounts are deployed from.
    pub fn set_peripheral_template(&mut self, caller: u64, template: u64) -> (r: Result<
        (),
        CenterError,
    >)
        ensures
            r is Ok <==> caller == old(self).owner,
            r is Ok ==> *final(self) == (CircleOfLifeCenter {
                peripheral_template: Some(template),
                ..*old(self)
            }),
            r is Err ==> r == Result::<(), CenterError>::Err(CenterError::OwnerOnly) && *final(self)
                == *old(self),
    {
        self.require_owner(caller)?;
        self.peripheral_template = Some(template);
        Ok(())
    }

    /// Hands ownership of the center to another account.
    pub fn change_owner(&mut self, caller: u64, new_owner: u64) -> (r: Result<(), CenterError>)
        ensures
            r is Ok <==> caller == old(self).owner,
            r is Ok ==> *final(self) == (CircleOfLifeCenter { owner: new_owner, ..*old(self) }),
            r is Err ==> r == Result::<(), CenterError>::Err(CenterError::OwnerOnly) && *final(self)
                == *old(self),
    {
        self.require_owner(caller)?;
        self.owner = new_owner;
        Ok(())
    }

    /// Pauses every user-facing endpoint.
    pub fn pause(&mut self, caller: u64) -> (r: Result<(), CenterError>)
        ensures
            r is Ok <==> caller == old(self).owner,
            r is Ok ==> *final(self) == (CircleOfLifeCenter { paused: true, ..*old(self) }),
            r is Err ==> r == Result::<(), CenterError>::Err(CenterError::OwnerOnly) && *final(self)
                == *old(self),
    {
        self.require_owner(caller)?;
        self.paused = true;
        Ok(())
    }

    /// Lifts the pause.
    pub fn unpause(&mut self, caller: u64) -> (r: Result<(), CenterError>)
        ensures
            r is Ok <==> caller == old(self).owner,
            r is Ok ==> *final(self) == (CircleOfLifeCenter { paused: false, ..*old(self) }),
            r is Err ==> r == Result::<(), CenterError>::Err(CenterError::OwnerOnly) && *final(self)
                == *old(self),
    {
        self.require_owner(caller)?;
        self.paused = false;
        Ok(())
    }

    /// Sets the enrollment fee.
    pub fn set_entry_fee(&mut self, caller: u64, new_fee: u128) -> (r: Result<(), CenterError>)
        ensures
            r is Ok <==> caller == old(self).owner,
            r is Ok ==> *final(self) == (CircleOfLifeCenter { entry_fee: new_fee, ..*old(self) }),
            r is Err ==> r == Result::<(), CenterError>::Err(CenterError::OwnerOnly) && *final(self)
                == *old(self),
    {
        self.require_owner(caller)?;
        self.entry_fee = new_fee;
        Ok(())
    }

    /// Sets the circulating amount relayed by each cycle.
    pub fn set_circulation_amount(&mut self, caller: u64, new_amount: u128) -> (r: Result<
        (),
        CenterError,
    >)
        ensures
            r is Ok <==> caller == old(self).owner,
            r is Ok ==> *final(self) == (CircleOfLifeCenter {
                circulation_amount: new_amount,
                ..*old(self)
            }),
            r is Err ==> r == Result::<(), CenterError>::Err(CenterError::OwnerOnly) && *final(self)
                == *old(self),
    {
        self.require_owner(caller)?;
        self.circulation_amount = new_amount;
        Ok(())
    }

    /// Switches the inbound-payment split on or off.
    pub fn set_distribution_enabled(&mut self, caller: u64, enabled: bool) -> (r: Result<
        (),
        CenterError,
    >)
        ensures
            r is Ok <==> caller == old(self).owner,
            r is Ok ==> *final(self) == (CircleOfLifeCenter {
                distribution_enabled: enabled,
                ..*old(self)
            }),
            r is Err ==> r == Result::<(), CenterError>::Err(CenterError::OwnerOnly) && *final(self)
                == *old(self),
    {
        self.require_owner(caller)?;
        self.distribution_enabled = enabled;
        Ok(())
    }

    /// Configures the DAO account that receives its share of payments.
    pub fn set_dao_contract(&mut self, caller: u64, dao: u64) -> (r: Result<(), CenterError>)
        ensures
            r is Ok <==> caller == old(self).owner,
            r is Ok ==> *final(self) == (CircleOfLifeCenter {
                dao_contract: Some(dao),
                ..*old(self)
            }),
            r is Err ==> r == Result::<(), CenterError>::Err(CenterError::OwnerOnly) && *final(self)
                == *old(self),
    {
        self.require_owner(caller)?;
        self.dao_contract = Some(dao);
        Ok(())
    }

    /// Configures the swap-venue pair account.
    pub fn set_xexchange_pair(&mut self, caller: u64, pair: u64) -> (r: Result<(), CenterError>)
        ensures
            r is Ok <==> caller == old(self).owner,
            r is Ok ==> *final(self) == (CircleOfLifeCenter {
                xexchange_pair: Some(pair),
                ..*old(self)
            }),
            r is Err ==> r == Result::<(), CenterError>::Err(CenterError::OwnerOnly) && *final(self)
                == *old(self),
    {
        self.require_owner(caller)?;
        self.xexchange_pair = Some(pair);
        Ok(())
    }

    /// Configures the wrapping contract and the wrapped token it mints.
    pub fn set_wegld_contract(&mut self, caller: u64, wegld: u64, wegld_token: u64) -> (r: Result<
        (),
        CenterError,
    >)
        ensures
            r is Ok <==> caller == old(self).owner,
            r is Ok ==> *final(self) == (CircleOfLifeCenter {
                wegld_contract: Some(wegld),
                wegld_token: Some(wegld_token),
                ..*old(self)
            }),
            r is Err ==> r == Result::<(), CenterError>::Err(CenterError::OwnerOnly) && *final(self)
                == *old(self),
    {
        self.require_owner(caller)?;
        self.wegld_contract = Some(wegld);
        self.wegld_token = Some(wegld_token);
        Ok(())
    }

    /// Configures the vault that locks liquidity tokens.
    pub fn set_lp_locker(&mut self, caller: u64, locker: u64) -> (r: Result<(), CenterError>)
        ensures
            r is Ok <==> caller == old(self).owner,
            r is Ok ==> *final(self) == (CircleOfLifeCenter {
                lp_locker: Some(locker),
                ..*old(self)
            }),
            r is Err ==> r == Result::<(), CenterError>::Err(CenterError::OwnerOnly) && *final(self)
                == *old(self),
    {
        self.require_owner(caller)?;
        self.lp_locker = Some(locker);
        Ok(())
    }

    /// Sets the accepted swap slippage, bounded between 0.5% and 10%.
    pub fn set_slippage_tolerance(&mut self, caller: u64, slippage_bps: u64) -> (r: Result<
        (),
        CenterError,
    >)
        ensures
            r is Ok <==> caller == old(self).owner && MIN_SLIPPAGE_BPS <= slippage_bps
                <= MAX_SLIPPAGE_BPS,
            r is Ok ==> *final(self) == (CircleOfLifeCenter {
                slippage_tolerance_bps: slippage_bps,
                ..*old(self)
            }),
            r is Err ==> *final(self) == *old(self) && r == Result::<(), CenterError>::Err(
                if caller != old(self).owner {
                    CenterError::OwnerOnly
                } else {
                    CenterError::InvalidSlippage
                },
            ),
    {
        self.require_owner(caller)?;
        if slippage_bps < MIN_SLIPPAGE_BPS || slippage_bps > MAX_SLIPPAGE_BPS {
            return Err(CenterError::InvalidSlippage);
        }
        self.slippage_tolerance_bps = slippage_bps;
        Ok(())
    }

    /// Sets the threshold above which pending liquidity is worth processing.
    pub fn set_liquidity_threshold(&mut self, caller: u64, threshold: u128) -> (r: Result<
        (),
        CenterError,
    >)
        ensures
            r is Ok <==> caller == old(self).owner,
            r is Ok ==> *final(self) == (CircleOfLifeCenter {
                liquidity_threshold: threshold,
                ..*old(self)
            }),
            r is Err ==> r == Result::<(), CenterError>::Err(CenterError::OwnerOnly) && *final(self)
                == *old(self),
    {
        self.require_owner(caller)?;
        self.liquidity_threshold = threshold;
        Ok(())
    }

    /// Records the liquidity-token id obtained from the swap venue.
    pub fn set_lp_token_id(&mut self, caller: u64, token: u64) -> (r: Result<(), CenterError>)
        ensures
            r is Ok <==> caller == old(self).owner,
            r is Ok ==> *final(self) == (CircleOfLifeCenter { lp_token: Some(token), ..*old(self) }),
            r is Err ==> r == Result::<(), CenterError>::Err(CenterError::OwnerOnly) && *final(self)
                == *old(self),
    {
        self.require_owner(caller)?;
        self.lp_token = Some(token);
        Ok(())
    }

    /// Records the protocol-token id.
    pub fn set_xcirclex_token_id(&mut self, caller: u64, token: u64) -> (r: Result<
        (),
        CenterError,
    >)
        ensures
            r is Ok <==> caller == old(self).owner,
            r is Ok ==> *final(self) == (CircleOfLifeCenter {
                xcirclex_token: Some(token),
                ..*old(self)
            }),
            r is Err ==> r == Result::<(), CenterError>::Err(CenterError::OwnerOnly) && *final(self)
                == *old(self),
    {
        self.require_owner(caller)?;
        self.xcirclex_token = Some(token);
        Ok(())
    }

    /// Configures the reward token.
    pub fn set_reward_token(&mut self, caller: u64, token: u64) -> (r: Result<(), CenterError>)
        ensures
            r is Ok <==> caller == old(self).owner,
            r is Ok ==> *final(self) == (CircleOfLifeCenter {
                reward_token: Some(token),
                ..*old(self)
            }),
            r is Err ==> r == Result::<(), CenterError>::Err(CenterError::OwnerOnly) && *final(self)
                == *old(self),
    {
        self.require_owner(caller)?;
        self.reward_token = Some(token);
        Ok(())
    }

    /// Stores the manually configured per-cycle reward figure.
    pub fn set_reward_per_cycle(&mut self, caller: u64, amount: u128) -> (r: Result<
        (),
        CenterError,
    >)
        ensures
            r is Ok <==> caller == old(self).owner,
            r is Ok ==> *final(self) == (CircleOfLifeCenter {
                reward_per_cycle_config: amount,
                ..*old(self)
            }),
            r is Err ==> r == Result::<(), CenterError>::Err(CenterError::OwnerOnly) && *final(self)
                == *old(self),
    {
        self.require_owner(caller)?;
        self.reward_per_cycle_config = amount;
        Ok(())
    }

    /// Sets the amount burned per active participant on each completion.
    pub fn set_burn_per_sc(&mut self, caller: u64, amount: u128) -> (r: Result<(), CenterError>)
        ensures
            r is Ok <==> caller == old(self).owner,
            r is Ok ==> *final(self) == (CircleOfLifeCenter { burn_per_sc: amount, ..*old(self) }),
            r is Err ==> r == Result::<(), CenterError>::Err(CenterError::OwnerOnly) && *final(self)
                == *old(self),
    {
        self.require_owner(caller)?;
        self.burn_per_sc = amount;
        Ok(())
    }

    /// Sets the starter bonus percentage, capped at 50%.
    pub fn set_starter_bonus_percentage(&mut self, caller: u64, percentage: u64) -> (r: Result<
        (),
        CenterError,
    >)
        ensures
            r is Ok <==> caller == old(self).owner && percentage <= MAX_STARTER_BONUS_BPS,
            r is Ok ==> *final(self) == (CircleOfLifeCenter {
                starter_bonus_percentage: percentage,
                ..*old(self)
            }),
            r is Err ==> *final(self) == *old(self) && r == Result::<(), CenterError>::Err(
                if caller != old(self).owner {
                    CenterError::OwnerOnly
                } else {
                    CenterError::StarterBonusTooLarge
                },
            ),
    {
        self.require_owner(caller)?;
        if percentage > MAX_STARTER_BONUS_BPS {
            return Err(CenterError::StarterBonusTooLarge);
        }
        self.starter_bonus_percentage = percentage;
        Ok(())
    }

    /// Configures the milestone-tracking contract notified after completions.
    pub fn set_nft_contract(&mut self, caller: u64, nft: u64) -> (r: Result<(), CenterError>)
        ensures
            r is Ok <==> caller == old(self).owner,
            r is Ok ==> *final(self) == (CircleOfLifeCenter {
                nft_contract: Some(nft),
                ..*old(self)
            }),
            r is Err ==> r == Result::<(), CenterError>::Err(CenterError::OwnerOnly) && *final(self)
                == *old(self),
    {
        self.require_owner(caller)?;
        self.nft_contract = Some(nft);
        Ok(())
    }

    /// Abandons the running cycle: bumps the epoch so stale pre-signatures die,
    /// and clears the day, index and holder.
    pub fn reset_cycle(&mut self, caller: u64) -> (r: Result<(), CenterError>)
        requires
            old(self).cycle_epoch < u64::MAX,
        ensures
            r is Ok <==> caller == old(self).owner,
            r is Ok ==> *final(self) == (CircleOfLifeCenter {
                cycle_epoch: (old(self).cycle_epoch + 1) as u64,
                cycle_day: 0,
                current_cycle_index: 0,
                cycle_holder: None,
                ..*old(self)
            }),
            r is Err ==> r == Result::<(), CenterError>::Err(CenterError::OwnerOnly) && *final(self)
                == *old(self),
    {
        self.require_owner(caller)?;
        self.cycle_epoch = self.cycle_epoch + 1;
        self.cycle_day = 0;
        self.current_cycle_index = 0;
        self.cycle_holder = None;
        Ok(())
    }

    /// Test hook: pulls the recorded cycle day one back so the running cycle
    /// counts as timed out. Holder and index stay, as failure handling needs them.
    pub fn simulate_next_day(&mut self, caller: u64) -> (r: Result<(), CenterError>)
        ensures
            r is Ok <==> caller == old(self).owner,
            r is Ok ==> *final(self) == (CircleOfLifeCenter {
                cycle_day: if old(self).cycle_day > 0 {
                    (old(self).cycle_day - 1) as u64
                } else {
                    0
                },
                ..*old(self)
            }),
            r is Err ==> r == Result::<(), CenterError>::Err(CenterError::OwnerOnly) && *final(self)
                == *old(self),
    {
        self.require_owner(caller)?;
        if self.cycle_day > 0 {
            self.cycle_day = self.cycle_day - 1;
        }
        Ok(())
    }

    /// Owner escape hatch: sends part of the center's own balance away.
    pub fn withdraw(&mut self, caller: u64, amount: u128, to: u64) -> (r: Result<
        (),
        CenterError,
    >)
        ensures
            r is Ok <==> caller == old(self).owner && old(self).egld_balance >= amount,
            r is Ok ==> *final(self) == (CircleOfLifeCenter {
                egld_balance: (old(self).egld_balance - amount) as u128,
                ..*old(self)
            }),
            r is Err ==> *final(self) == *old(self) && r == Result::<(), CenterError>::Err(
                if caller != old(self).owner {
                    CenterError::OwnerOnly
                } else {
                    CenterError::InsufficientBalance
                },
            ),
    {
        self.require_owner(caller)?;
        if self.egld_balance < amount {
            return Err(CenterError::InsufficientBalance);
        }
        let _ = to;
        self.egld_balance = self.egld_balance - amount;
        Ok(())
    }

    /// Owner recovery path: pulls a stuck peripheral account's whole balance
    /// (`recovered`, reported by the host) back into the center.
    pub fn recover_funds_from_peripheral(&mut self, caller: u64, recovered: u128) -> (r: Result<
        (),
        CenterError,
    >)
        requires
            old(self).egld_balance + recovered <= u128::MAX,
        ensures
            r is Ok <==> caller == old(self).owner,
            r is Ok ==> *final(self) == (CircleOfLifeCenter {
                egld_balance: (old(self).egld_balance + recovered) as u128,
                ..*old(self)
            }),
            r is Err ==> r == Result::<(), CenterError>::Err(CenterError::OwnerOnly) && *final(self)
                == *old(self),
    {
        self.require_owner(caller)?;
        self.egld_balance = self.egld_balance + recovered;
        Ok(())
    }
}

} // verus!
