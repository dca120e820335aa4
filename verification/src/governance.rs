//! Governance: hub licenses, proposals and votes, global standards, and
//! regional governance settings.

use vstd::prelude::*;
use std::collections::HashMap;
use crate::utils::{
    current_timestamp, generate_id, CommonsError, CommonsResult, LicenseId, MemberId, Region,
    Timestamp,
};

verus! {

broadcast use vstd::std_specs::hash::group_hash_axioms;

/// Seconds in a day.
pub const SECONDS_PER_DAY: i64 = 86_400;

/// Days counted per month of license duration.
pub const DAYS_PER_MONTH: u32 = 30;

/// The last representable instant (December 31, 262142, 23:59:59 UTC).
pub const MAX_TIMESTAMP: i64 = 8_210_266_876_799;

/// License for operating a Studio Commons hub.
#[derive(Debug, Clone)]
pub struct License {
    pub id: LicenseId,
    pub region: Region,
    pub duration_months: u32,
    pub licensee: String,
    pub start_date: Timestamp,
    pub end_date: Timestamp,
    pub auction_price: u128,
    pub standards_compliant: bool,
}

/// Governance proposal types.
#[derive(Debug, Clone)]
pub enum ProposalType {
    NewHub,
    PolicyChange,
    BudgetAllocation,
    StandardsUpdate,
    Other(String),
}

#[derive(Debug, Clone, Copy, PartialEq, Eq, Structural)]
pub enum ProposalStatus {
    Active,
    Passed,
    Rejected,
    Expired,
}

/// Proposal for DAO voting.
#[derive(Debug, Clone)]
pub struct Proposal {
    pub id: u128,
    pub title: String,
    pub description: String,
    pub proposal_type: ProposalType,
    pub proposer: MemberId,
    pub created_at: Timestamp,
    pub voting_deadline: Timestamp,
    pub status: ProposalStatus,
}

/// Vote on a proposal. The weight is kept as the bits of an IEEE-754 double.
#[derive(Debug, Clone, Copy, PartialEq, Eq)]
pub struct Vote {
    pub proposal_id: u128,
    pub voter: MemberId,
    pub in_favor: bool,
    pub weight_bits: u64,
    pub timestamp: Timestamp,
}

/// Vote result.
#[derive(Debug, Clone, Copy, PartialEq, Eq)]
pub struct VoteResult {
    pub proposal_id: u128,
    pub total_votes: usize,
    pub votes_in_favor: usize,
    pub votes_against: usize,
    pub passed: bool,
}

/// How a hub measures against the global standards. Each score is a
/// percentage, kept by the bit pattern of its double (`f64::to_bits`).
#[derive(Debug, Clone, Copy, PartialEq, Eq)]
pub struct GlobalMetrics {
    /// Share of membership applications accepted purely on published,
    /// objective criteria (dues paid, code of conduct); 100 is fully open.
    pub open_access_score_bits: u64,
    /// Share of paid roles meeting or exceeding local fair-wage standards.
    pub fair_wage_compliance_bits: u64,
    pub sustainability_score_bits: u64,
    pub community_satisfaction_bits: u64,
}

/// Bit pattern of `95.0_f64`, the open-access threshold.
pub const OPEN_ACCESS_MIN_BITS: u64 = 0x4057_c000_0000_0000;

/// Bit pattern of `100.0_f64`, the fair-wage threshold.
pub const FAIR_WAGE_MIN_BITS: u64 = 0x4059_0000_0000_0000;

/// Bit pattern of `70.0_f64`, the sustainability threshold.
pub const SUSTAINABILITY_MIN_BITS: u64 = 0x4051_8000_0000_0000;

/// Bit pattern of positive infinity, the largest non-NaN double pattern
/// below the negative values.
pub const POSITIVE_INFINITY_BITS: u64 = 0x7ff0_0000_0000_0000;

/// The double with pattern `bits` is at least the positive double with
/// pattern `min_bits`: positive doubles order as their patterns, and no
/// negative value or NaN reaches a positive threshold.
pub open spec fn at_least(bits: u64, min_bits: u64) -> bool {
    min_bits <= bits <= POSITIVE_INFINITY_BITS
}

/// Open access at least 95%, fair wages at 100%, sustainability at least 70%.
pub open spec fn meets_standards(m: GlobalMetrics) -> bool {
    &&& at_least(m.open_access_score_bits, OPEN_ACCESS_MIN_BITS)
    &&& at_least(m.fair_wage_compliance_bits, FAIR_WAGE_MIN_BITS)
    &&& at_least(m.sustainability_score_bits, SUSTAINABILITY_MIN_BITS)
}

/// Governance settings of a region.
#[derive(Debug, Clone, Copy, PartialEq, Eq)]
pub struct GovernanceConfig {
    /// Quorum in whole percent.
    pub quorum_percentage: u32,
    pub voting_period_days: u32,
    pub requires_kyc: bool,
}

pub struct GovernanceSystem {
    region: Region,
    licenses: Vec<License>,
    proposals: Vec<Proposal>,
    votes: HashMap<u128, Vec<Vote>>,
}

/// The first license with id `id`, if any.
pub open spec fn first_license(ls: Seq<License>, id: LicenseId) -> Option<int> {
    if exists|i: int| 0 <= i < ls.len() && ls[i].id == id {
        Some(
            choose|i: int|
                0 <= i < ls.len() && ls[i].id == id && forall|j: int| 0 <= j < i ==> ls[j].id != id,
        )
    } else {
        None
    }
}

/// Regional governance: (quorum percent, voting period in days, KYC).
pub open spec fn config_of(region: Region) -> (u32, u32, bool) {
    match region {
        Region::LA | Region::NYC | Region::Atlanta => (51, 7, false),
        Region::Berlin | Region::London => (60, 14, true),
        Region::Mumbai => (50, 10, true),
        _ => (51, 7, false),
    }
}

/// A license starting at `start` for `months` months ends within range.
pub open spec fn license_fits(months: u32, start: Timestamp) -> bool {
    &&& months * DAYS_PER_MONTH <= u32::MAX
    &&& 0 <= start
    &&& start + months * DAYS_PER_MONTH * SECONDS_PER_DAY <= MAX_TIMESTAMP
}

/// Position of the first license with id `id`.
fn find_license(ls: &Vec<License>, id: LicenseId) -> (r: Option<usize>)
    ensures
        match r {
            Some(i) => i < ls@.len() && ls@[i as int].id == id && first_license(ls@, id) == Some(
                i as int,
            ),
            None => first_license(ls@, id) is None,
        },
{
    let mut i: usize = 0;
    while i < ls.len()
        invariant
            i <= ls@.len(),
            forall|j: int| 0 <= j < i ==> ls@[j].id != id,
        decreases ls@.len() - i,
    {
        if ls[i].id == id {
            proof {
                let k = choose|k: int|
                    0 <= k < ls@.len() && ls@[k].id == id && forall|j: int|
                        0 <= j < k ==> ls@[j].id != id;
                assert(exists|k: int|
                    0 <= k < ls@.len() && ls@[k].id == id && forall|j: int|
                        0 <= j < k ==> ls@[j].id != id) by {
                    assert(ls@[i as int].id == id);
                }
                if k < i {
                    assert(ls@[k].id != id);
                } else if k > i {
                    assert(ls@[i as int].id != id);
                }
            }
            return Some(i);
        }
        i = i + 1;
    }
    None
}

impl GovernanceSystem {
    pub closed spec fn licenses(&self) -> Seq<License> {
        self.licenses@
    }

    pub closed spec fn proposals(&self) -> Seq<Proposal> {
        self.proposals@
    }

    /// Votes per proposal.
    pub closed spec fn votes(&self) -> Map<u128, Seq<Vote>> {
        self.votes@.map_values(|v: Vec<Vote>| v@)
    }

    pub fn new(region: &str) -> (r: CommonsResult<GovernanceSystem>)
        ensures
            r matches Ok(g) && g.licenses().len() == 0 && g.proposals().len() == 0 && g.votes()
                == Map::<u128, Seq<Vote>>::empty(),
    {
        Ok(
            GovernanceSystem {
                region: Region::from_str(region),
                licenses: Vec::new(),
                proposals: Vec::new(),
                votes: HashMap::new(),
            },
        )
    }

    /// `self` is `old` with license `id` appended: `licensee` holds it in
    /// `region` from `start` for `months` months of 30 days, at `price`, not
    /// yet found compliant; proposals and votes are unchanged.
    pub open spec fn licensed(
        &self,
        old: &GovernanceSystem,
        id: LicenseId,
        region: Region,
        months: u32,
        licensee: Seq<char>,
        start: Timestamp,
        price: u128,
    ) -> bool {
        let l = self.licenses().last();
        &&& self.proposals() == old.proposals()
        &&& self.votes() == old.votes()
        &&& self.licenses().drop_last() == old.licenses()
        &&& self.licenses().len() == old.licenses().len() + 1
        &&& l.id == id
        &&& l.region == region
        &&& l.duration_months == months
        &&& l.licensee@ == licensee
        &&& l.start_date == start
        &&& l.end_date == start + months * DAYS_PER_MONTH * SECONDS_PER_DAY
        &&& l.auction_price == price
        &&& !l.standards_compliant
    }

    /// Record an auctioned license with id `id`, starting at `start` and
    /// running `duration_months` months of 30 days.
    pub fn global_auction_license_at(
        &mut self,
        region: Region,
        duration_months: u32,
        licensee: String,
        auction_price: u128,
        id: LicenseId,
        start: Timestamp,
    ) -> (r: CommonsResult<LicenseId>)
        requires
            license_fits(duration_months, start),
        ensures
            r == Ok::<LicenseId, CommonsError>(id),
            final(self).licensed(old(self), id, region, duration_months, licensee@, start, auction_price),
    {
        let days = duration_months * DAYS_PER_MONTH;
        let seconds = (days as i64) * SECONDS_PER_DAY;
        let license = License {
            id,
            region,
            duration_months,
            licensee,
            start_date: start,
            end_date: start + seconds,
            auction_price,
            standards_compliant: false,
        };
        let ghost before = self.licenses@;
        self.licenses.push(license);
        assert(self.licenses@.drop_last() =~= before);
        Ok(id)
    }

    /// Conduct a global auction for a studio license, starting now. Refused
    /// when the license would end outside the representable time range.
    pub fn global_auction_license(
        &mut self,
        region: Region,
        duration_months: u32,
        licensee: String,
        auction_price: u128,
    ) -> (r: CommonsResult<LicenseId>)
        ensures
            final(self).proposals() == old(self).proposals(),
            final(self).votes() == old(self).votes(),
            r is Err ==> r == Err::<LicenseId, CommonsError>(CommonsError::DurationOutOfRange)
                && final(self).licenses() == old(self).licenses(),
            r matches Ok(id) ==> license_fits(duration_months, final(self).licenses().last().start_date)
                && final(self).licensed(
                old(self),
                id,
                region,
                duration_months,
                licensee@,
                final(self).licenses().last().start_date,
                auction_price,
            ),
            duration_months * DAYS_PER_MONTH > u32::MAX ==> r is Err,
    {
        let id = generate_id();
        let start = current_timestamp();
        if duration_months > u32::MAX / DAYS_PER_MONTH || start < 0 {
            return Err(CommonsError::DurationOutOfRange);
        }
        let seconds = ((duration_months * DAYS_PER_MONTH) as i64) * SECONDS_PER_DAY;
        if start > MAX_TIMESTAMP - seconds {
            return Err(CommonsError::DurationOutOfRange);
        }
        self.global_auction_license_at(region, duration_months, licensee, auction_price, id, start)
    }

    /// Open a proposal for a multi-signature vote. Every listed voter is
    /// counted in favor, and the proposal's vote list starts empty.
    pub fn multi_vote(&mut self, proposal: Proposal, voters: Vec<MemberId>) -> (r: CommonsResult<
        VoteResult,
    >)
        ensures
            final(self).licenses() == old(self).licenses(),
            final(self).proposals() == old(self).proposals().push(proposal),
            final(self).votes() == old(self).votes().insert(proposal.id, Seq::<Vote>::empty()),
            r == Ok::<VoteResult, CommonsError>(
                VoteResult {
                    proposal_id: proposal.id,
                    total_votes: voters@.len() as usize,
                    votes_in_favor: voters@.len() as usize,
                    votes_against: 0,
                    passed: true,
                },
            ),
    {
        let proposal_id = proposal.id;
        self.proposals.push(proposal);
        let empty: Vec<Vote> = Vec::new();
        self.votes.insert(proposal_id, empty);
        assert(self.votes@.map_values(|v: Vec<Vote>| v@) =~= old(self).votes@.map_values(
            |v: Vec<Vote>| v@,
        ).insert(proposal_id, Seq::<Vote>::empty()));
        Ok(
            VoteResult {
                proposal_id,
                total_votes: voters.len(),
                votes_in_favor: voters.len(),
                votes_against: 0,
                passed: true,
            },
        )
    }

    /// Cast a vote at `timestamp`; it is appended to the proposal's votes.
    pub fn cast_vote_at(
        &mut self,
        proposal_id: u128,
        voter: MemberId,
        in_favor: bool,
        weight_bits: u64,
        timestamp: Timestamp,
    ) -> (r: CommonsResult<()>)
        ensures
            r is Ok,
            final(self).licenses() == old(self).licenses(),
            final(self).proposals() == old(self).proposals(),
            final(self).votes().dom() == old(self).votes().dom().insert(proposal_id),
            forall|k: u128| k != proposal_id && #[trigger] old(self).votes().contains_key(k) ==> final(self).votes()[k] == old(self).votes()[k],
            final(self).votes()[proposal_id] == (if old(self).votes().contains_key(proposal_id) {
                old(self).votes()[proposal_id]
            } else {
                Seq::empty()
            }).push(Vote { proposal_id, voter, in_favor, weight_bits, timestamp }),
    {
        let vote = Vote { proposal_id, voter, in_favor, weight_bits, timestamp };
        let mut list = match self.votes.remove(&proposal_id) {
            Some(v) => v,
            None => Vec::new(),
        };
        list.push(vote);
        self.votes.insert(proposal_id, list);
        proof {
            let old_map = old(self).votes@;
            let new_map = self.votes@;
            assert(new_map.map_values(|v: Vec<Vote>| v@).dom() =~= old_map.map_values(
                |v: Vec<Vote>| v@,
            ).dom().insert(proposal_id));
            assert forall|k: u128|
                k != proposal_id && #[trigger] old(self).votes().contains_key(k) implies self.votes()[k]
                == old(self).votes()[k] by {
                assert(new_map[k] == old_map[k]);
            }
        }
        Ok(())
    }

    /// Cast a vote now.
    pub fn cast_vote(&mut self, proposal_id: u128, voter: MemberId, in_favor: bool, weight_bits: u64) -> (r: CommonsResult<()>)
        ensures
            r is Ok,
            final(self).licenses() == old(self).licenses(),
            final(self).proposals() == old(self).proposals(),
            final(self).votes().dom() == old(self).votes().dom().insert(proposal_id),
            forall|k: u128| k != proposal_id && #[trigger] old(self).votes().contains_key(k) ==> final(self).votes()[k] == old(self).votes()[k],
            final(self).votes()[proposal_id].len() == (if old(self).votes().contains_key(proposal_id) {
                old(self).votes()[proposal_id].len()
            } else {
                0
            }) + 1,
    {
        let now = current_timestamp();
        self.cast_vote_at(proposal_id, voter, in_favor, weight_bits, now)
    }

    /// Enforce global standards: a license is compliant exactly when open
    /// access, fair wages and sustainability all pass. No quota on who the
    /// members are enters the verdict. The first license with the id records
    /// the verdict; an unknown id changes nothing.
    #[verifier::rlimit(40)]
    pub fn enforce_global_standards(&mut self, license_id: LicenseId, metrics: GlobalMetrics) -> (r:
        CommonsResult<bool>)
        ensures
            r == Ok::<bool, CommonsError>(meets_standards(metrics)),
            final(self).proposals() == old(self).proposals(),
            final(self).votes() == old(self).votes(),
            final(self).licenses().len() == old(self).licenses().len(),
            match first_license(old(self).licenses(), license_id) {
                Some(i) => {
                    &&& forall|j: int|
                        0 <= j < old(self).licenses().len() && j != i ==> final(self).licenses()[j]
                            == old(self).licenses()[j]
                    &&& final(self).licenses()[i] == (License {
                        standards_compliant: meets_standards(metrics),
                        ..old(self).licenses()[i]
                    })
                },
                None => final(self).licenses() == old(self).licenses(),
            },
    {
        let open_access_ok = OPEN_ACCESS_MIN_BITS <= metrics.open_access_score_bits
            && metrics.open_access_score_bits <= POSITIVE_INFINITY_BITS;
        let fair_wage_ok = FAIR_WAGE_MIN_BITS <= metrics.fair_wage_compliance_bits
            && metrics.fair_wage_compliance_bits <= POSITIVE_INFINITY_BITS;
        let sustainability_ok = SUSTAINABILITY_MIN_BITS <= metrics.sustainability_score_bits
            && metrics.sustainability_score_bits <= POSITIVE_INFINITY_BITS;
        let compliant = open_access_ok && fair_wage_ok && sustainability_ok;
        let found = find_license(&self.licenses, license_id);
        match found {
            Some(i) => {
                let ghost before = self.licenses@;
                let mut license = self.licenses.remove(i);
                license.standards_compliant = compliant;
                let ghost updated = license;
                self.licenses.insert(i, license);
                proof {
                    assert(updated == License { standards_compliant: compliant, ..before[i as int] });
                    assert(self.licenses@ =~= before.update(i as int, updated));
                }
            },
            None => {},
        }
        Ok(compliant)
    }

    /// Governance settings for a region.
    pub fn adapt_governance(&self, region: Region) -> (c: GovernanceConfig)
        ensures
            c.quorum_percentage == config_of(region).0,
            c.voting_period_days == config_of(region).1,
            c.requires_kyc == config_of(region).2,
    {
        match region {
            Region::LA | Region::NYC | Region::Atlanta => GovernanceConfig {
                quorum_percentage: 51,
                voting_period_days: 7,
                requires_kyc: false,
            },
            Region::Berlin | Region::London => GovernanceConfig {
                quorum_percentage: 60,
                voting_period_days: 14,
                requires_kyc: true,
            },
            Region::Mumbai => GovernanceConfig {
                quorum_percentage: 50,
                voting_period_days: 10,
                requires_kyc: true,
            },
            _ => GovernanceConfig { quorum_percentage: 51, voting_period_days: 7, requires_kyc: false },
        }
    }

    /// All active proposals, in the order they were opened.
    pub fn get_active_proposals(&self) -> (r: Vec<&Proposal>)
        ensures
            r@.map_values(|p: &Proposal| *p) == self.proposals().filter(
                |p: Proposal| p.status == ProposalStatus::Active,
            ),
    {
        let ghost ps = self.proposals@;
        let ghost pred = |p: Proposal| p.status == ProposalStatus::Active;
        let mut r: Vec<&Proposal> = Vec::new();
        let mut i: usize = 0;
        while i < self.proposals.len()
            invariant
                ps == self.proposals@,
                pred == (|p: Proposal| p.status == ProposalStatus::Active),
                i <= ps.len(),
                r@.map_values(|p: &Proposal| *p) == ps.subrange(0, i as int).filter(pred),
            decreases ps.len() - i,
        {
            proof {
                reveal_with_fuel(Seq::<_>::filter, 1);
                assert(ps.subrange(0, i + 1).drop_last() =~= ps.subrange(0, i as int));
            }
            if self.proposals[i].status == ProposalStatus::Active {
                r.push(&self.proposals[i]);
            }
            assert(r@.map_values(|p: &Proposal| *p) =~= ps.subrange(0, i + 1).filter(pred));
            i = i + 1;
        }
        assert(ps.subrange(0, i as int) =~= ps);
        r
    }

    /// The first license with id `license_id`.
    pub fn get_license(&self, license_id: LicenseId) -> (r: Option<&License>)
        ensures
            match first_license(self.licenses(), license_id) {
                Some(i) => r == Some(&self.licenses()[i]),
                None => r is None,
            },
    {
        match find_license(&self.licenses, license_id) {
            Some(i) => Some(&self.licenses[i]),
            None => None,
        }
    }
}

} // verus!
