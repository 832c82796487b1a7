//! The vote-based savings-circle manager: circles are created with a fixed
//! contribution, candidates are admitted by simple majority of the members,
//! and each cycle's pot, minus a treasury fee, goes to the members in turn.

use vstd::prelude::*;

verus! {

/// Why a manager operation was rejected.
#[derive(Clone, Copy, PartialEq, Eq, Structural, Debug)]
pub enum ManagerError {
    ZeroContribution,
    CycleTooShort,
    BadMemberBound,
    EmptyName,
    NoSuchCircle,
    CircleInactive,
    CircleFull,
    AlreadyMember,
    RequestPending,
    NotMember,
    NoPendingRequest,
    AlreadyVoted,
    WrongAmount,
    AlreadyContributed,
    CreatorOnly,
    NotDistributionTime,
    NotAllContributed,
    InsufficientBalance,
}

/// One savings circle's configuration and progress.
#[derive(Clone, PartialEq, Eq, Debug)]
pub struct Circle {
    pub id: u64,
    pub creator: u64,
    pub name: Vec<u8>,
    pub contribution_amount: u128,
    pub cycle_duration: u64,
    pub max_members: u32,
    pub current_cycle: u32,
    pub member_count: u32,
    pub is_active: bool,
    pub created_at: u64,
    pub next_distribution_time: u64,
}

/// One recorded admission vote.
#[derive(Clone, Copy, PartialEq, Eq, Structural, Debug)]
pub struct VoteRecord {
    pub candidate: u64,
    pub voter: u64,
    pub approve: bool,
}

/// One recorded contribution.
#[derive(Clone, Copy, PartialEq, Eq, Structural, Debug)]
pub struct ContributionRecord {
    pub cycle: u32,
    pub member: u64,
    pub amount: u128,
}

/// Whether `voter` has voted on `candidate` in this vote table.
pub open spec fn sp_has_voted(v: Seq<VoteRecord>, candidate: u64, voter: u64) -> bool {
    exists|j: int| 0 <= j < v.len() && v[j].candidate == candidate && (#[trigger] v[j]).voter == voter
}

/// Approvals recorded for `candidate`.
pub open spec fn sp_yes_votes(v: Seq<VoteRecord>, candidate: u64) -> int
    decreases v.len(),
{
    if v.len() == 0 {
        0
    } else {
        sp_yes_votes(v.drop_last(), candidate) + if v.last().candidate == candidate
            && v.last().approve {
            1int
        } else {
            0int
        }
    }
}

/// Votes of either kind recorded for `candidate`.
pub open spec fn sp_total_votes(v: Seq<VoteRecord>, candidate: u64) -> int
    decreases v.len(),
{
    if v.len() == 0 {
        0
    } else {
        sp_total_votes(v.drop_last(), candidate) + if v.last().candidate == candidate {
            1int
        } else {
            0int
        }
    }
}

/// Whether `member` contributed in `cycle`.
pub open spec fn sp_has_contributed(c: Seq<ContributionRecord>, cycle: u32, member: u64) -> bool {
    exists|j: int|
        0 <= j < c.len() && c[j].cycle == cycle && (#[trigger] c[j]).member == member
}

/// What `member` contributed in `cycle` (the latest record counts; records
/// are unique under the invariant).
pub open spec fn sp_contribution_of(c: Seq<ContributionRecord>, cycle: u32, member: u64) -> u128
    decreases c.len(),
{
    if c.len() == 0 {
        0
    } else if c.last().cycle == cycle && c.last().member == member {
        c.last().amount
    } else {
        sp_contribution_of(c.drop_last(), cycle, member)
    }
}

/// The pot of `cycle`: the members' contributions summed in member order.
pub open spec fn sp_cycle_pot(
    c: Seq<ContributionRecord>,
    cycle: u32,
    members: Seq<u64>,
) -> int
    decreases members.len(),
{
    if members.len() == 0 {
        0
    } else {
        sp_cycle_pot(c, cycle, members.drop_last()) + sp_contribution_of(
            c,
            cycle,
            members.last(),
        )
    }
}

/// Taking an element out and putting another back at the same place is an
/// update.
pub proof fn lemma_remove_insert<A>(s: Seq<A>, i: int, x: A)
    requires
        0 <= i < s.len(),
    ensures
        s.remove(i).insert(i, x) == s.update(i, x),
{
    assert(s.remove(i).insert(i, x) =~= s.update(i, x));
}

/// The savings-circle manager: the circle table and, aligned with it, each
/// circle's members, pending requests, votes and contributions.
#[derive(Clone)]
pub struct CircleManager {
    pub circles: Vec<Circle>,
    pub members: Vec<Vec<u64>>,
    pub pending_requests: Vec<Vec<u64>>,
    pub votes: Vec<Vec<VoteRecord>>,
    pub contributions: Vec<Vec<ContributionRecord>>,
    pub treasury_balance: u128,
    pub balance: u128,
}

impl CircleManager {
    /// Structural invariant: the tables stay aligned, ids are dense and
    /// 1-based, membership and pending lists hold no duplicates, votes and
    /// contributions are unique per key, and the member count matches the
    /// member list.
    pub open spec fn wf(self) -> bool {
        &&& self.members@.len() == self.circles@.len()
        &&& self.pending_requests@.len() == self.circles@.len()
        &&& self.votes@.len() == self.circles@.len()
        &&& self.contributions@.len() == self.circles@.len()
        &&& forall|i: int|
            0 <= i < self.circles@.len() ==> (#[trigger] self.circles@[i]).id == i + 1
        &&& forall|i: int|
            0 <= i < self.circles@.len() ==> (#[trigger] self.circles@[i]).member_count
                == self.members@[i]@.len()
        &&& forall|i: int, a: int, b: int|
            #![trigger self.members@[i]@[a], self.members@[i]@[b]]
            0 <= i < self.circles@.len() && 0 <= a < b < self.members@[i]@.len()
                ==> self.members@[i]@[a] != self.members@[i]@[b]
        &&& forall|i: int, a: int, b: int|
            #![trigger self.pending_requests@[i]@[a], self.pending_requests@[i]@[b]]
            0 <= i < self.circles@.len() && 0 <= a < b < self.pending_requests@[i]@.len()
                ==> self.pending_requests@[i]@[a] != self.pending_requests@[i]@[b]
        &&& forall|i: int, a: int, b: int|
            #![trigger self.votes@[i]@[a], self.votes@[i]@[b]]
            0 <= i < self.circles@.len() && 0 <= a < b < self.votes@[i]@.len() ==> !(
            self.votes@[i]@[a].candidate == self.votes@[i]@[b].candidate
                && self.votes@[i]@[a].voter == self.votes@[i]@[b].voter)
        &&& forall|i: int, a: int, b: int|
            #![trigger self.contributions@[i]@[a], self.contributions@[i]@[b]]
            0 <= i < self.circles@.len() && 0 <= a < b < self.contributions@[i]@.len() ==> !(
            self.contributions@[i]@[a].cycle == self.contributions@[i]@[b].cycle
                && self.contributions@[i]@[a].member == self.contributions@[i]@[b].member)
        &&& forall|i: int, a: int|
            #![trigger self.members@[i]@.contains(self.pending_requests@[i]@[a])]
            0 <= i < self.circles@.len() && 0 <= a < self.pending_requests@[i]@.len()
                ==> !self.members@[i]@.contains(self.pending_requests@[i]@[a])
        &&& forall|i: int|
            0 <= i < self.circles@.len() ==> (#[trigger] self.members@[i])@.len() >= 1
    }

    /// A fresh manager with no circles.
    pub fn init() -> (r: CircleManager)
        ensures
            r.wf(),
            r.circles@.len() == 0,
            r.treasury_balance == 0,
            r.balance == 0,
    {
        CircleManager {
            circles: Vec::new(),
            members: Vec::new(),
            pending_requests: Vec::new(),
            votes: Vec::new(),
            contributions: Vec::new(),
            treasury_balance: 0,
            balance: 0,
        }
    }

    /// Creates a circle with the caller as first member; returns its id.
    pub fn create_circle(
        &mut self,
        caller: u64,
        contribution_amount: u128,
        cycle_duration: u64,
        max_members: u32,
        name: Vec<u8>,
        now: u64,
    ) -> (r: Result<u64, ManagerError>)
        requires
            old(self).wf(),
            old(self).circles@.len() < u64::MAX,
            now + cycle_duration <= u64::MAX,
        ensures
            final(self).wf(),
            r is Ok <==> contribution_amount > 0 && cycle_duration >= 86400 && 5 <= max_members <= 20 && name@.len() > 0,
            r is Err ==> *final(self) == *old(self),
            (match r {
                Err(e) => e == if contribution_amount == 0 {
                    ManagerError::ZeroContribution
                } else if cycle_duration < 86400 {
                    ManagerError::CycleTooShort
                } else if max_members < 5 || max_members > 20 {
                    ManagerError::BadMemberBound
                } else {
                    ManagerError::EmptyName
                },
                Ok(id) => {
                    &&& contribution_amount > 0 && cycle_duration >= 86400 && 5 <= max_members
                        <= 20 && name@.len() > 0
                    &&& id == old(self).circles@.len() + 1
                    &&& final(self).circles@.len() == old(self).circles@.len() + 1
                    &&& final(self).circles@ == old(self).circles@.push(
                        final(self).circles@.last(),
                    )
                    &&& ({
                        let c = final(self).circles@.last();
                        &&& c.id == id
                        &&& c.creator == caller
                        &&& c.contribution_amount == contribution_amount
                        &&& c.cycle_duration == cycle_duration
                        &&& c.max_members == max_members
                        &&& c.current_cycle == 0
                        &&& c.member_count == 1
                        &&& c.is_active
                        &&& c.created_at == now
                        &&& c.next_distribution_time == now + cycle_duration
                    })
                    &&& final(self).members@.last()@ =~= seq![caller]
                    &&& final(self).pending_requests@.last()@ =~= Seq::<u64>::empty()
                    &&& *final(self) == (CircleManager {
                        circles: final(self).circles,
                        members: final(self).members,
                        pending_requests: final(self).pending_requests,
                        votes: final(self).votes,
                        contributions: final(self).contributions,
                        ..*old(self)
                    })
                },
            }),
    {
        if contribution_amount == 0 {
            return Err(ManagerError::ZeroContribution);
        }
        if cycle_duration < 86400 {
            return Err(ManagerError::CycleTooShort);
        }
        if max_members < 5 || max_members > 20 {
            return Err(ManagerError::BadMemberBound);
        }
        if name.len() == 0 {
            return Err(ManagerError::EmptyName);
        }
        let circle_id = (self.circles.len() as u64) + 1;
        let circle = Circle {
            id: circle_id,
            creator: caller,
            name,
            contribution_amount,
            cycle_duration,
            max_members,
            current_cycle: 0,
            member_count: 1,
            is_active: true,
            created_at: now,
            next_distribution_time: now + cycle_duration,
        };
        self.circles.push(circle);
        let mut first_members: Vec<u64> = Vec::new();
        first_members.push(caller);
        self.members.push(first_members);
        self.pending_requests.push(Vec::new());
        self.votes.push(Vec::new());
        self.contributions.push(Vec::new());
        Ok(circle_id)
    }

    /// Index of a 1-based circle id, when the circle exists.
    pub fn circle_idx(&self, circle_id: u64) -> (r: Option<usize>)
        ensures
            match r {
                Some(i) => i as int == circle_id - 1 && 1 <= circle_id
                    && circle_id <= self.circles@.len(),
                None => circle_id == 0 || circle_id > self.circles@.len(),
            },
    {
        if circle_id == 0 {
            return None;
        }
        if circle_id > (self.circles.len() as u64) {
            return None;
        }
        Some((circle_id - 1) as usize)
    }

    /// Whether `address` is in the member list of a vector of wallets.
    #[verifier::loop_isolation(false)]
    fn list_contains(list: &Vec<u64>, address: u64) -> (r: bool)
        ensures
            r == list@.contains(address),
    {
        let n = list.len();
        let mut j: usize = 0;
        while j < n
            invariant
                j <= n,
                n == list@.len(),
                forall|a: int| 0 <= a < j ==> list@[a] != address,
            decreases n - j,
        {
            if list[j] == address {
                return true;
            }
            j = j + 1;
        }
        proof {
            assert(forall|a: int| 0 <= a < list@.len() ==> list@[a] != address);
        }
        false
    }

    /// Whether a wallet is a member of the circle.
    pub fn is_member(&self, circle_idx: usize, address: u64) -> (r: bool)
        requires
            circle_idx < self.members@.len(),
        ensures
            r == self.members@[circle_idx as int]@.contains(address),
    {
        Self::list_contains(&self.members[circle_idx], address)
    }

    /// Whether a wallet has a pending membership request.
    pub fn has_pending_request(&self, circle_idx: usize, address: u64) -> (r: bool)
        requires
            circle_idx < self.pending_requests@.len(),
        ensures
            r == self.pending_requests@[circle_idx as int]@.contains(address),
    {
        Self::list_contains(&self.pending_requests[circle_idx], address)
    }

    /// Asks to join a circle; admission is decided by member votes.
    pub fn request_membership(&mut self, caller: u64, circle_id: u64) -> (r: Result<
        (),
        ManagerError,
    >)
        requires
            old(self).wf(),
        ensures
            final(self).wf(),
            r is Ok <==> 1 <= circle_id <= old(self).circles@.len() && old(self).circles@[circle_id - 1].is_active && old(self).circles@[circle_id - 1].member_count < old(self).circles@[circle_id - 1].max_members && !old(self).members@[circle_id - 1]@.contains(caller) && !old(self).pending_requests@[circle_id - 1]@.contains(caller),
            r is Err ==> *final(self) == *old(self),
            (match r {
                Err(e) => e == if circle_id == 0 || circle_id > old(self).circles@.len() {
                    ManagerError::NoSuchCircle
                } else {
                    let ci = circle_id - 1;
                    if !old(self).circles@[ci].is_active {
                        ManagerError::CircleInactive
                    } else if old(self).circles@[ci].member_count >= old(self).circles@[ci].max_members {
                        ManagerError::CircleFull
                    } else if old(self).members@[ci]@.contains(caller) {
                        ManagerError::AlreadyMember
                    } else {
                        ManagerError::RequestPending
                    }
                },
                Ok(()) => {
                    let ci = circle_id - 1;
                    &&& 1 <= circle_id <= old(self).circles@.len()
                    &&& old(self).circles@[ci].is_active
                    &&& old(self).circles@[ci].member_count < old(self).circles@[ci].max_members
                    &&& !old(self).members@[ci]@.contains(caller)
                    &&& !old(self).pending_requests@[ci]@.contains(caller)
                    &&& final(self).pending_requests@ == old(self).pending_requests@.update(
                        ci,
                        final(self).pending_requests@[ci],
                    )
                    &&& final(self).pending_requests@[ci]@ == old(self).pending_requests@[ci]@.push(caller)
                    &&& *final(self) == (CircleManager {
                        pending_requests: final(self).pending_requests,
                        ..*old(self)
                    })
                },
            }),
    {
        let ci = match self.circle_idx(circle_id) {
            None => {
                return Err(ManagerError::NoSuchCircle);
            },
            Some(ci) => ci,
        };
        if !self.circles[ci].is_active {
            return Err(ManagerError::CircleInactive);
        }
        if self.circles[ci].member_count >= self.circles[ci].max_members {
            return Err(ManagerError::CircleFull);
        }
        if self.is_member(ci, caller) {
            return Err(ManagerError::AlreadyMember);
        }
        if self.has_pending_request(ci, caller) {
            return Err(ManagerError::RequestPending);
        }
        let mut reqs = self.pending_requests.remove(ci);
        reqs.push(caller);
        self.pending_requests.insert(ci, reqs);
        proof {
            lemma_remove_insert(
                old(self).pending_requests@,
                ci as int,
                self.pending_requests@[ci as int],
            );
        }
        Ok(())
    }

    /// Whether `voter` already voted on `candidate` in this circle.
    #[verifier::loop_isolation(false)]
    pub fn has_voted(&self, circle_idx: usize, candidate: u64, voter: u64) -> (r: bool)
        requires
            circle_idx < self.votes@.len(),
        ensures
            r == sp_has_voted(self.votes@[circle_idx as int]@, candidate, voter),
    {
        let v = &self.votes[circle_idx];
        let n = v.len();
        let mut j: usize = 0;
        while j < n
            invariant
                j <= n,
                n == v@.len(),
                forall|a: int|
                    0 <= a < j ==> !(v@[a].candidate == candidate && (#[trigger] v@[a]).voter
                        == voter),
            decreases n - j,
        {
            if v[j].candidate == candidate && v[j].voter == voter {
                proof {
                    assert(v@ == self.votes@[circle_idx as int]@);
                    assert(self.votes@[circle_idx as int]@[j as int].candidate == candidate);
                    assert(sp_has_voted(self.votes@[circle_idx as int]@, candidate, voter));
                }
                return true;
            }
            j = j + 1;
        }
        false
    }

    /// Counts `candidate`'s approvals and total votes.
    #[verifier::loop_isolation(false)]
    pub fn count_votes(&self, circle_idx: usize, candidate: u64) -> (r: (usize, usize))
        requires
            circle_idx < self.votes@.len(),
        ensures
            r.0 == sp_yes_votes(self.votes@[circle_idx as int]@, candidate),
            r.1 == sp_total_votes(self.votes@[circle_idx as int]@, candidate),
            r.0 <= r.1 <= self.votes@[circle_idx as int]@.len(),
    {
        let v = &self.votes[circle_idx];
        let n = v.len();
        let mut yes: usize = 0;
        let mut total: usize = 0;
        let mut j: usize = 0;
        while j < n
            invariant
                j <= n,
                n == v@.len(),
                yes == sp_yes_votes(v@.take(j as int), candidate),
                total == sp_total_votes(v@.take(j as int), candidate),
                yes <= total <= j,
            decreases n - j,
        {
            let ghost t1 = v@.take((j + 1) as int);
            proof {
                assert(t1.drop_last() =~= v@.take(j as int));
                assert(t1.last() == v@[j as int]);
            }
            if v[j].candidate == candidate {
                total = total + 1;
                if v[j].approve {
                    yes = yes + 1;
                }
            }
            j = j + 1;
        }
        proof {
            assert(v@.take(n as int) =~= v@);
        }
        (yes, total)
    }

    /// Adds an approved candidate to the member list.
    fn add_member_to_circle(&mut self, circle_idx: usize, member: u64)
        requires
            old(self).wf(),
            circle_idx < old(self).circles@.len(),
            !old(self).members@[circle_idx as int]@.contains(member),
            !old(self).pending_requests@[circle_idx as int]@.contains(member),
            old(self).circles@[circle_idx as int].member_count < u32::MAX,
        ensures
            final(self).wf(),
            final(self).members@[circle_idx as int]@ == old(self).members@[circle_idx as int]@.push(member),
            final(self).members@ == old(self).members@.update(
                circle_idx as int,
                final(self).members@[circle_idx as int],
            ),
            final(self).circles@ == old(self).circles@.update(
                circle_idx as int,
                (Circle {
                    member_count: (old(self).circles@[circle_idx as int].member_count + 1) as u32,
                    ..old(self).circles@[circle_idx as int]
                }),
            ),
            *final(self) == (CircleManager {
                members: final(self).members,
                circles: final(self).circles,
                ..*old(self)
            }),
    {
        let mut list = self.members.remove(circle_idx);
        list.push(member);
        self.members.insert(circle_idx, list);
        let mut c = self.circles.remove(circle_idx);
        c.member_count = c.member_count + 1;
        self.circles.insert(circle_idx, c);
        proof {
            lemma_remove_insert(
                old(self).members@,
                circle_idx as int,
                self.members@[circle_idx as int],
            );
            lemma_remove_insert(
                old(self).circles@,
                circle_idx as int,
                self.circles@[circle_idx as int],
            );
            let ci = circle_idx as int;
            let newlist = self.members@[ci]@;
            assert(newlist == old(self).members@[ci]@.push(member));
            assert forall|i: int, a: int, b: int|
                #![trigger self.members@[i]@[a], self.members@[i]@[b]]
                0 <= i < self.circles@.len() && 0 <= a < b
                    < self.members@[i]@.len() implies self.members@[i]@[a]
                    != self.members@[i]@[b] by {
                if i == ci {
                    if b == newlist.len() - 1 {
                        assert(newlist[b] == member);
                        assert(newlist[a] == old(self).members@[ci]@[a]);
                        if newlist[a] == member {
                            assert(old(self).members@[ci]@.contains(member));
                        }
                    } else {
                        assert(old(self).members@[i]@[a] != old(self).members@[i]@[b]);
                    }
                } else {
                    assert(old(self).members@[i]@[a] != old(self).members@[i]@[b]);
                }
            }
            assert forall|i: int, a: int|
                #![trigger self.members@[i]@.contains(self.pending_requests@[i]@[a])]
                0 <= i < self.circles@.len() && 0 <= a
                    < self.pending_requests@[i]@.len() implies !self.members@[i]@.contains(
                self.pending_requests@[i]@[a]) by {
                let x = self.pending_requests@[i]@[a];
                assert(x == old(self).pending_requests@[i]@[a]);
                assert(!old(self).members@[i]@.contains(x));
                if i == ci {
                    assert(x != member);
                    if newlist.contains(x) {
                        let b = choose|b: int| 0 <= b < newlist.len() && newlist[b] == x;
                        if b < newlist.len() - 1 {
                            assert(old(self).members@[ci]@[b] == x);
                        } else {
                            assert(newlist[b] == member);
                        }
                    }
                } else {
                    assert(self.members@[i] == old(self).members@[i]);
                }
            }
        }
    }

    /// Removes `address` from the pending list by swapping in the last entry.
    #[verifier::loop_isolation(false)]
    fn remove_pending(&mut self, circle_idx: usize, address: u64)
        requires
            old(self).wf(),
            circle_idx < old(self).circles@.len(),
            old(self).pending_requests@[circle_idx as int]@.contains(address),
        ensures
            final(self).wf(),
            !final(self).pending_requests@[circle_idx as int]@.contains(address),
            forall|x: u64|
                x != address ==> #[trigger] final(self).pending_requests@[circle_idx
                    as int]@.contains(x) == old(self).pending_requests@[circle_idx
                    as int]@.contains(x),
            final(self).pending_requests@ == old(self).pending_requests@.update(
                circle_idx as int,
                final(self).pending_requests@[circle_idx as int],
            ),
            *final(self) == (CircleManager {
                pending_requests: final(self).pending_requests,
                ..*old(self)
            }),
    {
        let ghost l0 = old(self).pending_requests@[circle_idx as int]@;
        proof {
            assert forall|a: int, b: int| 0 <= a < b < l0.len() implies l0[a] != l0[b] by {
                assert(old(self).pending_requests@[circle_idx as int]@[a] == l0[a]);
                assert(old(self).pending_requests@[circle_idx as int]@[b] == l0[b]);
            }
        }
        let mut list = self.pending_requests.remove(circle_idx);
        let n = list.len();
        let mut j: usize = 0;
        while j < n
            invariant
                j <= n,
                n == list@.len(),
                list@ == l0,
                self.pending_requests@ == old(self).pending_requests@.remove(circle_idx as int),
                *self == (CircleManager {
                    pending_requests: self.pending_requests,
                    ..*old(self)
                }),
                forall|a: int| 0 <= a < j ==> l0[a] != address,
            decreases n - j,
        {
            if list[j] == address {
                let ghost jj = j as int;
                let _removed = list.swap_remove(j);
                proof {
                    let l1 = list@;
                    assert(l1 == l0.update(jj, l0.last()).drop_last());
                    assert(l1.len() == l0.len() - 1);
                    assert(!l1.contains(address)) by {
                        if l1.contains(address) {
                            let a = choose|a: int| 0 <= a < l1.len() && l1[a] == address;
                            if a == jj {
                                assert(l0[l0.len() - 1] == address);
                                assert(l0[jj] == address);
                            } else {
                                assert(l0[a] == address);
                                assert(l0[jj] == address);
                            }
                        }
                    }
                    assert forall|x: u64| x != address implies #[trigger] l1.contains(x)
                        == l0.contains(x) by {
                        if l1.contains(x) {
                            let a = choose|a: int| 0 <= a < l1.len() && l1[a] == x;
                            if a == jj {
                                assert(l0[l0.len() - 1] == x);
                            } else {
                                assert(l0[a] == x);
                            }
                            assert(l0.contains(x));
                        }
                        if l0.contains(x) {
                            let a = choose|a: int| 0 <= a < l0.len() && l0[a] == x;
                            if a < l0.len() - 1 {
                                if a == jj {
                                    assert(l0[jj] == address);
                                } else {
                                    assert(l1[a] == x);
                                }
                            } else {
                                if jj < l0.len() - 1 {
                                    assert(l1[jj] == x);
                                } else {
                                    assert(l0[jj] == x);
                                }
                            }
                            assert(l1.contains(x));
                        }
                    }
                    assert forall|a: int, b: int| 0 <= a < b < l1.len() implies l1[a]
                        != l1[b] by {
                        if a == jj {
                            assert(l1[a] == l0[l0.len() - 1] && l1[b] == l0[b]);
                        } else if b == jj {
                            assert(l1[b] == l0[l0.len() - 1] && l1[a] == l0[a]);
                        } else {
                            assert(l1[a] == l0[a] && l1[b] == l0[b]);
                        }
                    }
                }
                self.pending_requests.insert(circle_idx, list);
                proof {
                    lemma_remove_insert(
                        old(self).pending_requests@,
                        circle_idx as int,
                        self.pending_requests@[circle_idx as int],
                    );
                    assert forall|i: int, a: int, b: int|
                        #![trigger self.pending_requests@[i]@[a], self.pending_requests@[i]@[b]]
                        0 <= i < self.circles@.len() && 0 <= a < b
                            < self.pending_requests@[i]@.len() implies self.pending_requests@[i]@[a]
                            != self.pending_requests@[i]@[b] by {
                        if i != circle_idx as int {
                            assert(self.pending_requests@[i] == old(self).pending_requests@[i]);
                            assert(old(self).pending_requests@[i]@[a] != old(self).pending_requests@[i]@[b]);
                        }
                    }
                }
                return ;
            }
            j = j + 1;
        }
        proof {
            assert(l0.contains(address));
            assert(false);
        }
    }

    /// A member votes on a pending candidate. A strict majority of approvals
    /// admits the candidate at once; a strict majority of rejections drops
    /// the request.
    pub fn vote_for_member(
        &mut self,
        caller: u64,
        circle_id: u64,
        candidate: u64,
        approve: bool,
    ) -> (r: Result<(), ManagerError>)
        requires
            old(self).wf(),
            circle_id >= 1 && circle_id <= old(self).circles@.len() ==> (old(self).circles@[circle_id - 1].member_count < u32::MAX),
        ensures
            final(self).wf(),
            r is Ok <==> 1 <= circle_id <= old(self).circles@.len() && old(self).members@[circle_id - 1]@.contains(caller) && old(self).pending_requests@[circle_id - 1]@.contains(candidate) && !sp_has_voted(old(self).votes@[circle_id - 1]@, candidate, caller),
            r is Err ==> *final(self) == *old(self),
            (match r {
                Err(e) => e == if circle_id == 0 || circle_id > old(self).circles@.len() {
                    ManagerError::NoSuchCircle
                } else {
                    let ci = circle_id - 1;
                    if !old(self).members@[ci]@.contains(caller) {
                        ManagerError::NotMember
                    } else if !old(self).pending_requests@[ci]@.contains(candidate) {
                        ManagerError::NoPendingRequest
                    } else {
                        ManagerError::AlreadyVoted
                    }
                },
                Ok(()) => {
                    let ci = circle_id - 1;
                    let newv = old(self).votes@[ci]@.push(
                        VoteRecord { candidate, voter: caller, approve },
                    );
                    let yes = sp_yes_votes(newv, candidate);
                    let tot = sp_total_votes(newv, candidate);
                    let mc = old(self).members@[ci]@.len() as int;
                    &&& 1 <= circle_id <= old(self).circles@.len()
                    &&& old(self).members@[ci]@.contains(caller)
                    &&& old(self).pending_requests@[ci]@.contains(candidate)
                    &&& !sp_has_voted(old(self).votes@[ci]@, candidate, caller)
                    &&& final(self).votes@[ci]@ == newv
                    &&& (yes * 2 > mc ==> final(self).members@[ci]@ == old(self).members@[ci]@.push(candidate) && !final(self).pending_requests@[ci]@.contains(candidate))
                    &&& (!(yes * 2 > mc) && (tot - yes) * 2 > mc ==> final(self).members@[ci]@
                        == old(self).members@[ci]@ && !final(self).pending_requests@[ci]@.contains(candidate))
                    &&& (!(yes * 2 > mc) && !((tot - yes) * 2 > mc) ==> final(self).members@[ci]@
                        == old(self).members@[ci]@ && final(self).pending_requests@[ci]@ == old(self).pending_requests@[ci]@)
                    &&& final(self).treasury_balance == old(self).treasury_balance
                    &&& final(self).balance == old(self).balance
                    &&& final(self).contributions@ == old(self).contributions@
                },
            }),
    {
        let ci = match self.circle_idx(circle_id) {
            None => {
                return Err(ManagerError::NoSuchCircle);
            },
            Some(ci) => ci,
        };
        if !self.is_member(ci, caller) {
            return Err(ManagerError::NotMember);
        }
        if !self.has_pending_request(ci, candidate) {
            return Err(ManagerError::NoPendingRequest);
        }
        if self.has_voted(ci, candidate, caller) {
            return Err(ManagerError::AlreadyVoted);
        }
        let mut v = self.votes.remove(ci);
        v.push(VoteRecord { candidate, voter: caller, approve });
        self.votes.insert(ci, v);
        proof {
            lemma_remove_insert(old(self).votes@, ci as int, self.votes@[ci as int]);
        }
        proof {
            assert forall|a: int, b: int|
                0 <= a < b < self.votes@[ci as int]@.len() implies !(
            self.votes@[ci as int]@[a].candidate == self.votes@[ci as int]@[b].candidate
                && self.votes@[ci as int]@[a].voter == self.votes@[ci as int]@[b].voter) by {
                let nv = self.votes@[ci as int]@;
                let ov = old(self).votes@[ci as int]@;
                if b == nv.len() - 1 {
                    if nv[a].candidate == candidate && nv[a].voter == caller {
                        assert(sp_has_voted(ov, candidate, caller));
                    }
                }
            }
        }
        let (yes_votes, total_votes) = self.count_votes(ci, candidate);
        let member_count = self.members[ci].len();
        if (yes_votes as u128) * 2 > (member_count as u128) {
            self.remove_pending(ci, candidate);
            self.add_member_to_circle(ci, candidate);
        } else if (total_votes as u128 - yes_votes as u128) * 2 > (member_count as u128) {
            self.remove_pending(ci, candidate);
        }
        Ok(())
    }

    /// Whether a member has contributed in the given cycle.
    #[verifier::loop_isolation(false)]
    pub fn has_contributed(&self, circle_idx: usize, cycle: u32, member: u64) -> (r: bool)
        requires
            circle_idx < self.contributions@.len(),
        ensures
            r == sp_has_contributed(self.contributions@[circle_idx as int]@, cycle, member),
    {
        let c = &self.contributions[circle_idx];
        let n = c.len();
        let mut j: usize = 0;
        while j < n
            invariant
                j <= n,
                n == c@.len(),
                forall|a: int|
                    0 <= a < j ==> !(c@[a].cycle == cycle && (#[trigger] c@[a]).member == member),
            decreases n - j,
        {
            if c[j].cycle == cycle && c[j].member == member {
                proof {
                    assert(c@ == self.contributions@[circle_idx as int]@);
                    assert(self.contributions@[circle_idx as int]@[j as int].cycle == cycle);
                    assert(sp_has_contributed(self.contributions@[circle_idx as int]@, cycle, member));
                }
                return true;
            }
            j = j + 1;
        }
        false
    }

    /// A member pays this cycle's contribution into the pot.
    pub fn contribute(&mut self, caller: u64, circle_id: u64, payment: u128) -> (r: Result<
        (),
        ManagerError,
    >)
        requires
            old(self).wf(),
            old(self).balance + payment <= u128::MAX,
        ensures
            final(self).wf(),
            r is Ok <==> 1 <= circle_id <= old(self).circles@.len() && old(self).circles@[circle_id - 1].is_active && old(self).members@[circle_id - 1]@.contains(caller) && payment == old(self).circles@[circle_id - 1].contribution_amount && !sp_has_contributed(old(self).contributions@[circle_id - 1]@, old(self).circles@[circle_id - 1].current_cycle, caller),
            r is Err ==> *final(self) == *old(self),
            (match r {
                Err(e) => e == if circle_id == 0 || circle_id > old(self).circles@.len() {
                    ManagerError::NoSuchCircle
                } else {
                    let ci = circle_id - 1;
                    if !old(self).circles@[ci].is_active {
                        ManagerError::CircleInactive
                    } else if !old(self).members@[ci]@.contains(caller) {
                        ManagerError::NotMember
                    } else if payment != old(self).circles@[ci].contribution_amount {
                        ManagerError::WrongAmount
                    } else {
                        ManagerError::AlreadyContributed
                    }
                },
                Ok(()) => {
                    let ci = circle_id - 1;
                    let cyc = old(self).circles@[ci].current_cycle;
                    &&& 1 <= circle_id <= old(self).circles@.len()
                    &&& old(self).circles@[ci].is_active
                    &&& old(self).members@[ci]@.contains(caller)
                    &&& payment == old(self).circles@[ci].contribution_amount
                    &&& !sp_has_contributed(old(self).contributions@[ci]@, cyc, caller)
                    &&& final(self).contributions@[ci]@ == old(self).contributions@[ci]@.push(
                        ContributionRecord { cycle: cyc, member: caller, amount: payment },
                    )
                    &&& final(self).contributions@ == old(self).contributions@.update(
                        ci,
                        final(self).contributions@[ci],
                    )
                    &&& *final(self) == (CircleManager {
                        contributions: final(self).contributions,
                        balance: (old(self).balance + payment) as u128,
                        ..*old(self)
                    })
                },
            }),
    {
        let ci = match self.circle_idx(circle_id) {
            None => {
                return Err(ManagerError::NoSuchCircle);
            },
            Some(ci) => ci,
        };
        if !self.circles[ci].is_active {
            return Err(ManagerError::CircleInactive);
        }
        if !self.is_member(ci, caller) {
            return Err(ManagerError::NotMember);
        }
        if payment != self.circles[ci].contribution_amount {
            return Err(ManagerError::WrongAmount);
        }
        let cycle = self.circles[ci].current_cycle;
        if self.has_contributed(ci, cycle, caller) {
            return Err(ManagerError::AlreadyContributed);
        }
        let mut c = self.contributions.remove(ci);
        c.push(ContributionRecord { cycle, member: caller, amount: payment });
        self.contributions.insert(ci, c);
        proof {
            lemma_remove_insert(
                old(self).contributions@,
                ci as int,
                self.contributions@[ci as int],
            );
        }
        self.balance = self.balance + payment;
        Ok(())
    }
}


/// A prefix of the member list never collects more than the whole list.
pub proof fn lemma_pot_take_le(
    c: Seq<ContributionRecord>,
    cycle: u32,
    members: Seq<u64>,
    k: int,
)
    requires
        0 <= k <= members.len(),
    ensures
        0 <= sp_cycle_pot(c, cycle, members.take(k)) <= sp_cycle_pot(c, cycle, members),
        sp_cycle_pot(c, cycle, members.take(members.len() as int)) == sp_cycle_pot(
            c,
            cycle,
            members,
        ),
    decreases members.len() - k,
{
    if k == members.len() {
        assert(members.take(k) =~= members);
        lemma_pot_nonneg(c, cycle, members);
    } else {
        lemma_pot_take_le(c, cycle, members, k + 1);
        assert(members.take(k + 1).drop_last() =~= members.take(k));
        assert(members.take(k + 1).last() == members[k]);
        lemma_pot_nonneg(c, cycle, members.take(k));
    }
}

/// A pot is a sum of balances and cannot be negative.
pub proof fn lemma_pot_nonneg(c: Seq<ContributionRecord>, cycle: u32, members: Seq<u64>)
    ensures
        sp_cycle_pot(c, cycle, members) >= 0,
    decreases members.len(),
{
    if members.len() > 0 {
        lemma_pot_nonneg(c, cycle, members.drop_last());
    }
}

/// With unique keys, a matching record's amount is the recorded contribution.
pub proof fn lemma_contribution_at(c: Seq<ContributionRecord>, i: int)
    requires
        forall|a: int, b: int|
            #![trigger c[a], c[b]]
            0 <= a < b < c.len() ==> !(c[a].cycle == c[b].cycle && c[a].member == c[b].member),
        0 <= i < c.len(),
    ensures
        sp_contribution_of(c, c[i].cycle, c[i].member) == c[i].amount,
    decreases c.len(),
{
    if i < c.len() - 1 {
        assert(forall|a: int, b: int|
            #![trigger c.drop_last()[a], c.drop_last()[b]]
            0 <= a < b < c.drop_last().len() ==> !(c.drop_last()[a].cycle == c.drop_last()[b].cycle
                && c.drop_last()[a].member == c.drop_last()[b].member));
        lemma_contribution_at(c.drop_last(), i);
    }
}

impl CircleManager {
    /// What `member` paid in `cycle` of the circle (zero when nothing is
    /// recorded).
    #[verifier::loop_isolation(false)]
    pub fn contribution_of(&self, circle_idx: usize, cycle: u32, member: u64) -> (r: u128)
        requires
            self.wf(),
            circle_idx < self.circles@.len(),
        ensures
            r == sp_contribution_of(self.contributions@[circle_idx as int]@, cycle, member),
    {
        let c = &self.contributions[circle_idx];
        let n = c.len();
        let mut j: usize = 0;
        while j < n
            invariant
                j <= n,
                n == c@.len(),
                forall|a: int|
                    0 <= a < j ==> !(c@[a].cycle == cycle && (#[trigger] c@[a]).member == member),
            decreases n - j,
        {
            if c[j].cycle == cycle && c[j].member == member {
                proof {
                    assert(c@ == self.contributions@[circle_idx as int]@);
                    lemma_contribution_at(c@, j as int);
                }
                return c[j].amount;
            }
            j = j + 1;
        }
        proof {
            lemma_contribution_absent(c@, cycle, member);
        }
        0
    }

    /// Pays the cycle's pot, minus the treasury fee, to the member whose turn
    /// it is, and advances the circle to its next cycle. The returned pair is
    /// the transfer the host must perform.
    #[verifier::loop_isolation(false)]
    fn internal_distribute(&mut self, circle_idx: usize, now: u64) -> (r: Result<
        (u64, u128),
        ManagerError,
    >)
        requires
            old(self).wf(),
            circle_idx < old(self).circles@.len(),
            old(self).circles@[circle_idx as int].current_cycle < u32::MAX,
            now + old(self).circles@[circle_idx as int].cycle_duration <= u64::MAX,
            sp_cycle_pot(
                old(self).contributions@[circle_idx as int]@,
                old(self).circles@[circle_idx as int].current_cycle,
                old(self).members@[circle_idx as int]@,
            ) * 3 <= u128::MAX,
            old(self).treasury_balance + sp_cycle_pot(
                old(self).contributions@[circle_idx as int]@,
                old(self).circles@[circle_idx as int].current_cycle,
                old(self).members@[circle_idx as int]@,
            ) <= u128::MAX,
        ensures
            final(self).wf(),
            r is Ok <==> ({
                let pot = sp_cycle_pot(
                    old(self).contributions@[circle_idx as int]@,
                    old(self).circles@[circle_idx as int].current_cycle,
                    old(self).members@[circle_idx as int]@,
                );
                &&& forall|a: int|
                    0 <= a < old(self).members@[circle_idx as int]@.len() ==> sp_has_contributed(
                        old(self).contributions@[circle_idx as int]@,
                        old(self).circles@[circle_idx as int].current_cycle,
                        #[trigger] old(self).members@[circle_idx as int]@[a],
                    )
                &&& old(self).balance >= pot - pot * 3 / 100
            }),
            r is Err ==> *final(self) == *old(self),
            (match r {
                Err(e) => (e == ManagerError::NotAllContributed && exists|a: int|
                    0 <= a < old(self).members@[circle_idx as int]@.len()
                        && !sp_has_contributed(
                        old(self).contributions@[circle_idx as int]@,
                        old(self).circles@[circle_idx as int].current_cycle,
                        #[trigger] old(self).members@[circle_idx as int]@[a],
                    )) || e == ManagerError::InsufficientBalance,
                Ok((beneficiary, paid)) => {
                    let ci = circle_idx as int;
                    let c0 = old(self).circles@[ci];
                    let pot = sp_cycle_pot(
                        old(self).contributions@[ci]@,
                        c0.current_cycle,
                        old(self).members@[ci]@,
                    );
                    let fee = pot * 3 / 100;
                    &&& forall|a: int|
                        0 <= a < old(self).members@[ci]@.len() ==> sp_has_contributed(
                            old(self).contributions@[ci]@,
                            c0.current_cycle,
                            #[trigger] old(self).members@[ci]@[a],
                        )
                    &&& paid == pot - fee
                    &&& beneficiary == old(self).members@[ci]@[c0.current_cycle as int % old(self).members@[ci]@.len() as int]
                    &&& old(self).balance >= paid
                    &&& final(self).circles@ == old(self).circles@.update(
                        ci,
                        (Circle {
                            current_cycle: (c0.current_cycle + 1) as u32,
                            next_distribution_time: (now + c0.cycle_duration) as u64,
                            is_active: c0.is_active && c0.current_cycle + 1 < c0.member_count,
                            ..c0
                        }),
                    )
                    &&& *final(self) == (CircleManager {
                        circles: final(self).circles,
                        treasury_balance: (old(self).treasury_balance + fee) as u128,
                        balance: (old(self).balance - paid) as u128,
                        ..*old(self)
                    })
                },
            }),
    {
        let ghost ci = circle_idx as int;
        let cycle = self.circles[circle_idx].current_cycle;
        let member_len = self.members[circle_idx].len();
        let ghost mem = self.members@[ci]@;
        let ghost contribs = self.contributions@[ci]@;
        let mut total: u128 = 0;
        let mut k: usize = 0;
        proof {
            lemma_pot_take_le(contribs, cycle, mem, 0);
            assert(mem.take(0) =~= Seq::<u64>::empty());
        }
        while k < member_len
            invariant
                k <= member_len,
                member_len == mem.len(),
                total == sp_cycle_pot(contribs, cycle, mem.take(k as int)),
                forall|a: int|
                    0 <= a < k ==> sp_has_contributed(contribs, cycle, #[trigger] mem[a]),
            decreases member_len - k,
        {
            let m = self.members[circle_idx][k];
            if !self.has_contributed(circle_idx, cycle, m) {
                proof {
                    assert(old(self).members@[circle_idx as int]@[k as int] == mem[k as int]);
                    assert(!sp_has_contributed(
                        old(self).contributions@[circle_idx as int]@,
                        old(self).circles@[circle_idx as int].current_cycle,
                        old(self).members@[circle_idx as int]@[k as int],
                    ));
                }
                return Err(ManagerError::NotAllContributed);
            }
            let contribution = self.contribution_of(circle_idx, cycle, m);
            proof {
                lemma_pot_take_le(contribs, cycle, mem, k + 1);
                assert(mem.take(k as int + 1).drop_last() =~= mem.take(k as int));
                assert(mem.take(k as int + 1).last() == mem[k as int]);
            }
            total = total + contribution;
            k = k + 1;
        }
        proof {
            assert(mem.take(member_len as int) =~= mem);
        }
        let fee = total * 3 / 100;
        proof {
            lemma_pot_nonneg(contribs, cycle, mem);
            crate::center::lemma_frac_le(total as int, 3, 100);
        }
        let amount_to_distribute = total - fee;
        if self.balance < amount_to_distribute {
            return Err(ManagerError::InsufficientBalance);
        }
        let beneficiary_index = (cycle as usize) % member_len;
        let beneficiary = self.members[circle_idx][beneficiary_index];
        self.treasury_balance = self.treasury_balance + fee;
        self.balance = self.balance - amount_to_distribute;
        let mut c = self.circles.remove(circle_idx);
        c.current_cycle = c.current_cycle + 1;
        c.next_distribution_time = now + c.cycle_duration;
        if c.current_cycle >= c.member_count {
            c.is_active = false;
        }
        self.circles.insert(circle_idx, c);
        proof {
            lemma_remove_insert(old(self).circles@, ci, self.circles@[ci]);
        }
        Ok((beneficiary, amount_to_distribute))
    }

    /// Creator override: distributes the current pot regardless of the clock.
    pub fn force_distribute(&mut self, caller: u64, circle_id: u64, now: u64) -> (r: Result<
        (u64, u128),
        ManagerError,
    >)
        requires
            old(self).wf(),
            circle_id >= 1 && circle_id <= old(self).circles@.len() ==> {
                let ci = circle_id - 1;
                &&& old(self).circles@[ci].current_cycle < u32::MAX
                &&& now + old(self).circles@[ci].cycle_duration <= u64::MAX
                &&& sp_cycle_pot(
                    old(self).contributions@[ci]@,
                    old(self).circles@[ci].current_cycle,
                    old(self).members@[ci]@,
                ) * 3 <= u128::MAX
                &&& old(self).treasury_balance + sp_cycle_pot(
                    old(self).contributions@[ci]@,
                    old(self).circles@[ci].current_cycle,
                    old(self).members@[ci]@,
                ) <= u128::MAX
            },
        ensures
            final(self).wf(),
            r is Err ==> *final(self) == *old(self),
            (match r {
                Err(e) => {
                    if circle_id == 0 || circle_id > old(self).circles@.len() {
                        e == ManagerError::NoSuchCircle
                    } else if caller != old(self).circles@[circle_id - 1].creator {
                        e == ManagerError::CreatorOnly
                    } else if !old(self).circles@[circle_id - 1].is_active {
                        e == ManagerError::CircleInactive
                    } else {
                        e == ManagerError::NotAllContributed || e
                            == ManagerError::InsufficientBalance
                    }
                },
                Ok(_) => caller == old(self).circles@[circle_id - 1].creator && old(self).circles@[circle_id - 1].is_active,
            }),
            r is Ok <==> 1 <= circle_id <= old(self).circles@.len() && ({
                let ci = circle_id - 1;
                let pot = sp_cycle_pot(
                    old(self).contributions@[ci]@,
                    old(self).circles@[ci].current_cycle,
                    old(self).members@[ci]@,
                );
                &&& caller == old(self).circles@[ci].creator
                &&& old(self).circles@[ci].is_active
                &&& forall|a: int|
                    0 <= a < old(self).members@[ci]@.len() ==> sp_has_contributed(
                        old(self).contributions@[ci]@,
                        old(self).circles@[ci].current_cycle,
                        #[trigger] old(self).members@[ci]@[a],
                    )
                &&& old(self).balance >= pot - pot * 3 / 100
            }),
    {
        let ci = match self.circle_idx(circle_id) {
            None => {
                return Err(ManagerError::NoSuchCircle);
            },
            Some(ci) => ci,
        };
        if caller != self.circles[ci].creator {
            return Err(ManagerError::CreatorOnly);
        }
        if !self.circles[ci].is_active {
            return Err(ManagerError::CircleInactive);
        }
        self.internal_distribute(ci, now)
    }

    /// Distributes the current pot once the distribution time has been
    /// reached; members and the creator may trigger it.
    pub fn distribute_funds(&mut self, caller: u64, circle_id: u64, now: u64) -> (r: Result<
        (u64, u128),
        ManagerError,
    >)
        requires
            old(self).wf(),
            circle_id >= 1 && circle_id <= old(self).circles@.len() ==> {
                let ci = circle_id - 1;
                &&& old(self).circles@[ci].current_cycle < u32::MAX
                &&& now + old(self).circles@[ci].cycle_duration <= u64::MAX
                &&& sp_cycle_pot(
                    old(self).contributions@[ci]@,
                    old(self).circles@[ci].current_cycle,
                    old(self).members@[ci]@,
                ) * 3 <= u128::MAX
                &&& old(self).treasury_balance + sp_cycle_pot(
                    old(self).contributions@[ci]@,
                    old(self).circles@[ci].current_cycle,
                    old(self).members@[ci]@,
                ) <= u128::MAX
            },
        ensures
            final(self).wf(),
            r is Err ==> *final(self) == *old(self),
            (match r {
                Err(e) => {
                    if circle_id == 0 || circle_id > old(self).circles@.len() {
                        e == ManagerError::NoSuchCircle
                    } else if !old(self).members@[circle_id - 1]@.contains(caller) && caller
                        != old(self).circles@[circle_id - 1].creator {
                        e == ManagerError::NotMember
                    } else if !old(self).circles@[circle_id - 1].is_active {
                        e == ManagerError::CircleInactive
                    } else if now < old(self).circles@[circle_id - 1].next_distribution_time {
                        e == ManagerError::NotDistributionTime
                    } else {
                        e == ManagerError::NotAllContributed || e
                            == ManagerError::InsufficientBalance
                    }
                },
                Ok(_) => (old(self).members@[circle_id - 1]@.contains(caller) || caller == old(self).circles@[circle_id - 1].creator) && old(self).circles@[circle_id - 1].is_active
                    && now >= old(self).circles@[circle_id - 1].next_distribution_time,
            }),
            r is Ok <==> 1 <= circle_id <= old(self).circles@.len() && ({
                let ci = circle_id - 1;
                let pot = sp_cycle_pot(
                    old(self).contributions@[ci]@,
                    old(self).circles@[ci].current_cycle,
                    old(self).members@[ci]@,
                );
                &&& (old(self).members@[ci]@.contains(caller) || caller == old(self).circles@[ci].creator)
                &&& old(self).circles@[ci].is_active
                &&& now >= old(self).circles@[ci].next_distribution_time
                &&& forall|a: int|
                    0 <= a < old(self).members@[ci]@.len() ==> sp_has_contributed(
                        old(self).contributions@[ci]@,
                        old(self).circles@[ci].current_cycle,
                        #[trigger] old(self).members@[ci]@[a],
                    )
                &&& old(self).balance >= pot - pot * 3 / 100
            }),
    {
        let ci = match self.circle_idx(circle_id) {
            None => {
                return Err(ManagerError::NoSuchCircle);
            },
            Some(ci) => ci,
        };
        if !self.is_member(ci, caller) && caller != self.circles[ci].creator {
            return Err(ManagerError::NotMember);
        }
        if !self.circles[ci].is_active {
            return Err(ManagerError::CircleInactive);
        }
        if now < self.circles[ci].next_distribution_time {
            return Err(ManagerError::NotDistributionTime);
        }
        self.internal_distribute(ci, now)
    }

    /// The circle's record, if it exists.
    pub fn get_circle(&self, circle_id: u64) -> (r: Option<&Circle>)
        ensures
            match r {
                Some(c) => 1 <= circle_id <= self.circles@.len() && *c == self.circles@[circle_id
                    - 1],
                None => circle_id == 0 || circle_id > self.circles@.len(),
            },
    {
        match self.circle_idx(circle_id) {
            None => None,
            Some(ci) => Some(&self.circles[ci]),
        }
    }

    /// How many circles exist.
    pub fn get_circle_count(&self) -> (r: u64)
        requires
            self.circles@.len() <= u64::MAX,
        ensures
            r == self.circles@.len(),
    {
        self.circles.len() as u64
    }

    /// The members of a circle, in admission order.
    pub fn get_circle_members(&self, circle_idx: usize) -> (r: &Vec<u64>)
        requires
            circle_idx < self.members@.len(),
        ensures
            r@ == self.members@[circle_idx as int]@,
    {
        &self.members[circle_idx]
    }

    /// The treasury fees collected so far.
    pub fn get_treasury_balance(&self) -> (r: u128)
        ensures
            r == self.treasury_balance,
    {
        self.treasury_balance
    }

    /// The wallets waiting for an admission vote.
    pub fn get_pending_requests(&self, circle_idx: usize) -> (r: &Vec<u64>)
        requires
            circle_idx < self.pending_requests@.len(),
        ensures
            r@ == self.pending_requests@[circle_idx as int]@,
    {
        &self.pending_requests[circle_idx]
    }

    /// The circle's creator, if the circle exists.
    pub fn get_circle_creator(&self, circle_id: u64) -> (r: Option<u64>)
        ensures
            match r {
                Some(c) => 1 <= circle_id <= self.circles@.len() && c == self.circles@[circle_id
                    - 1].creator,
                None => circle_id == 0 || circle_id > self.circles@.len(),
            },
    {
        match self.circle_idx(circle_id) {
            None => None,
            Some(ci) => Some(self.circles[ci].creator),
        }
    }

    /// Whether a wallet has a pending request (by circle id).
    pub fn has_pending_request_view(&self, circle_id: u64, address: u64) -> (r: bool)
        requires
            self.wf(),
        ensures
            r == (1 <= circle_id <= self.circles@.len() && self.pending_requests@[circle_id
                - 1]@.contains(address)),
    {
        match self.circle_idx(circle_id) {
            None => false,
            Some(ci) => self.has_pending_request(ci, address),
        }
    }

    /// Whether a member has contributed in the circle's current cycle.
    pub fn has_contributed_view(&self, circle_id: u64, member: u64) -> (r: bool)
        requires
            self.wf(),
        ensures
            r == (1 <= circle_id <= self.circles@.len() && sp_has_contributed(
                self.contributions@[circle_id - 1]@,
                self.circles@[circle_id - 1].current_cycle,
                member,
            )),
    {
        match self.circle_idx(circle_id) {
            None => false,
            Some(ci) => {
                let cycle = self.circles[ci].current_cycle;
                self.has_contributed(ci, cycle, member)
            },
        }
    }

    /// The members that have contributed in the current cycle, in member
    /// order.
    #[verifier::loop_isolation(false)]
    pub fn get_cycle_contributors(&self, circle_idx: usize) -> (r: Vec<u64>)
        requires
            self.wf(),
            circle_idx < self.circles@.len(),
        ensures
            r@ == contributors_of(
                self.contributions@[circle_idx as int]@,
                self.circles@[circle_idx as int].current_cycle,
                self.members@[circle_idx as int]@,
            ),
    {
        let cycle = self.circles[circle_idx].current_cycle;
        let n = self.members[circle_idx].len();
        let ghost mem = self.members@[circle_idx as int]@;
        let mut r: Vec<u64> = Vec::new();
        let mut k: usize = 0;
        proof {
            assert(mem.take(0) =~= Seq::<u64>::empty());
        }
        while k < n
            invariant
                k <= n,
                n == mem.len(),
                r@ == contributors_of(
                    self.contributions@[circle_idx as int]@,
                    cycle,
                    mem.take(k as int),
                ),
            decreases n - k,
        {
            let m = self.members[circle_idx][k];
            let ghost pre = r@;
            if self.has_contributed(circle_idx, cycle, m) {
                r.push(m);
            }
            proof {
                assert(mem.take(k as int + 1).drop_last() =~= mem.take(k as int));
                assert(mem.take(k as int + 1).last() == mem[k as int]);
            }
            k = k + 1;
        }
        proof {
            assert(mem.take(n as int) =~= mem);
        }
        r
    }

    /// How many members have contributed in the current cycle.
    pub fn get_cycle_contributor_count(&self, circle_idx: usize) -> (r: usize)
        requires
            self.wf(),
            circle_idx < self.circles@.len(),
        ensures
            r == contributors_of(
                self.contributions@[circle_idx as int]@,
                self.circles@[circle_idx as int].current_cycle,
                self.members@[circle_idx as int]@,
            ).len(),
    {
        let contributors = self.get_cycle_contributors(circle_idx);
        contributors.len()
    }
}

/// The members of `members` that contributed in `cycle`, in member order.
pub open spec fn contributors_of(
    c: Seq<ContributionRecord>,
    cycle: u32,
    members: Seq<u64>,
) -> Seq<u64>
    decreases members.len(),
{
    if members.len() == 0 {
        Seq::empty()
    } else {
        let pre = contributors_of(c, cycle, members.drop_last());
        if sp_has_contributed(c, cycle, members.last()) {
            pre.push(members.last())
        } else {
            pre
        }
    }
}

/// A member with no record in the cycle contributed nothing.
pub proof fn lemma_contribution_absent(c: Seq<ContributionRecord>, cycle: u32, member: u64)
    requires
        forall|a: int|
            0 <= a < c.len() ==> !(c[a].cycle == cycle && (#[trigger] c[a]).member == member),
    ensures
        sp_contribution_of(c, cycle, member) == 0,
    decreases c.len(),
{
    if c.len() > 0 {
        lemma_contribution_absent(c.drop_last(), cycle, member);
    }
}

} // verus!
