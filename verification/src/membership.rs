//! Global membership: joining with a portable identity, moving between hubs,
//! regional dues and membership tiers.

use vstd::prelude::*;
use crate::utils::{
    parsed_region,
    current_timestamp, generate_id, uuid_string, uuid_text, CommonsError, CommonsResult, Currency,
    HubId, MemberId, Region, Timestamp,
};

verus! {

#[derive(Debug, Clone, Copy, PartialEq, Eq, Structural)]
pub enum MembershipTier {
    Basic,
    Professional,
    Steward,
}

/// Member profile.
#[derive(Debug, Clone)]
pub struct Member {
    pub id: MemberId,
    pub name: String,
    pub region: Region,
    pub home_hub: HubId,
    pub join_date: Timestamp,
    pub membership_tier: MembershipTier,
    /// Global portable identity: `SC-` followed by the member id's UUID text.
    pub portable_id: String,
}

#[derive(Debug, Clone, Copy, PartialEq, Eq, Structural)]
pub enum DuesPeriod {
    Monthly,
    Quarterly,
    Annual,
}

/// Membership dues structure.
#[derive(Debug, Clone)]
pub struct DuesStructure {
    pub region: Region,
    pub amount: u128,
    pub currency: Currency,
    pub period: DuesPeriod,
}

/// Cross-hub transfer record.
#[derive(Debug, Clone)]
pub struct HubTransfer {
    pub member_id: MemberId,
    pub from_hub: HubId,
    pub to_hub: HubId,
    pub transfer_date: Timestamp,
    pub reason: String,
}

pub struct MembershipSystem {
    region: Region,
    members: Vec<Member>,
    transfers: Vec<HubTransfer>,
}

pub open spec fn has_member(ms: Seq<Member>, id: MemberId) -> bool {
    exists|i: int| 0 <= i < ms.len() && ms[i].id == id
}

/// Position of the member with id `id` (meaningful when there is one).
pub open spec fn member_index(ms: Seq<Member>, id: MemberId) -> int {
    choose|i: int| 0 <= i < ms.len() && ms[i].id == id
}

/// Member ids are distinct.
pub open spec fn members_wf(ms: Seq<Member>) -> bool {
    forall|i: int, j: int|
        0 <= i < ms.len() && 0 <= j < ms.len() && i != j ==> #[trigger] ms[i].id != #[trigger] ms[j].id
}

/// A freshly joined member.
pub open spec fn new_member(
    m: Member,
    id: MemberId,
    name: Seq<char>,
    region: Region,
    home_hub: HubId,
    join_date: Timestamp,
) -> bool {
    &&& m.id == id
    &&& m.name@ == name
    &&& m.region == region
    &&& m.home_hub == home_hub
    &&& m.join_date == join_date
    &&& m.membership_tier == MembershipTier::Basic
    &&& m.portable_id@ == "SC-"@ + uuid_text(id)
}

/// Dues by region: (amount in minor units, currency); all monthly.
pub open spec fn dues_of(region: Region) -> (u128, Currency) {
    match region {
        Region::LA | Region::NYC | Region::Atlanta => (5000, Currency::USD),
        Region::Mumbai => (200000, Currency::INR),
        Region::Berlin | Region::London => (4500, Currency::EUR),
        _ => (5000, Currency::USD),
    }
}

/// `b` is `a` with the home hub and tier possibly changed.
pub open spec fn same_member_except(a: Member, b: Member) -> bool {
    &&& a.id == b.id
    &&& a.name@ == b.name@
    &&& a.region == b.region
    &&& a.join_date == b.join_date
    &&& a.portable_id@ == b.portable_id@
}

fn copy_member(m: &Member) -> (r: Member)
    ensures
        same_member_except(*m, r),
        r.home_hub == m.home_hub,
        r.membership_tier == m.membership_tier,
{
    Member {
        id: m.id,
        name: m.name.clone(),
        region: m.region.duplicate(),
        home_hub: m.home_hub,
        join_date: m.join_date,
        membership_tier: m.membership_tier,
        portable_id: m.portable_id.clone(),
    }
}

impl MembershipSystem {
    pub closed spec fn members(&self) -> Seq<Member> {
        self.members@
    }

    pub closed spec fn transfers(&self) -> Seq<HubTransfer> {
        self.transfers@
    }

    pub closed spec fn wf(&self) -> bool {
        members_wf(self.members@)
    }

    /// The region the system serves.
    pub closed spec fn region(&self) -> Region {
        self.region
    }

    /// An empty membership system for the region named `region`, parsed as
    /// `Region::from_str` parses it.
    pub fn new(region: &str) -> (r: CommonsResult<MembershipSystem>)
        ensures
            r matches Ok(m) && m.wf() && m.members().len() == 0 && m.transfers().len() == 0
                && parsed_region(region@, m.region()),
    {
        Ok(
            MembershipSystem {
                region: Region::from_str(region),
                members: Vec::new(),
                transfers: Vec::new(),
            },
        )
    }

    fn find(&self, id: MemberId) -> (r: Option<usize>)
        requires
            self.wf(),
        ensures
            match r {
                Some(i) => i < self.members().len() && self.members()[i as int].id == id
                    && member_index(self.members(), id) == i,
                None => !has_member(self.members(), id),
            },
    {
        let mut i: usize = 0;
        while i < self.members.len()
            invariant
                self.wf(),
                i <= self.members@.len(),
                forall|j: int| 0 <= j < i ==> self.members@[j].id != id,
            decreases self.members@.len() - i,
        {
            if self.members[i].id == id {
                proof {
                    let k = member_index(self.members@, id);
                    assert(has_member(self.members@, id));
                    if k != i {
                        assert(self.members@[k].id != self.members@[i as int].id);
                    }
                }
                return Some(i);
            }
            i = i + 1;
        }
        None
    }

    /// The record held for `id` (meaningful when there is one).
    pub open spec fn record_of(&self, id: MemberId) -> Member {
        self.members()[member_index(self.members(), id)]
    }

    /// `self` is `old` after `id` joined as `name` from `region`, homed at
    /// `home_hub` on `join_date`: a member already holding the id is
    /// replaced in place, otherwise the member is appended; transfers are
    /// unchanged.
    pub open spec fn joined(
        &self,
        old: &MembershipSystem,
        id: MemberId,
        name: Seq<char>,
        region: Region,
        home_hub: HubId,
        join_date: Timestamp,
    ) -> bool {
        &&& self.transfers() == old.transfers()
        &&& if has_member(old.members(), id) {
            let i = member_index(old.members(), id);
            &&& self.members().len() == old.members().len()
            &&& forall|j: int|
                0 <= j < old.members().len() && j != i ==> self.members()[j] == old.members()[j]
            &&& new_member(self.members()[i], id, name, region, home_hub, join_date)
        } else {
            &&& self.members().drop_last() == old.members()
            &&& self.members().len() == old.members().len() + 1
            &&& new_member(self.members().last(), id, name, region, home_hub, join_date)
        }
    }

    /// `self` is `old` after the member `id` moved from `from_hub` to
    /// `to_hub` on `date`, and `m` is the moved record.
    pub open spec fn transferred(
        &self,
        old: &MembershipSystem,
        id: MemberId,
        from_hub: HubId,
        to_hub: HubId,
        date: Timestamp,
        m: Member,
    ) -> bool {
        let i = member_index(old.members(), id);
        let before = old.members()[i];
        let after = self.members()[i];
        &&& same_member_except(before, m)
        &&& m.home_hub == to_hub
        &&& m.membership_tier == before.membership_tier
        &&& self.members().len() == old.members().len()
        &&& forall|j: int|
            0 <= j < old.members().len() && j != i ==> self.members()[j] == old.members()[j]
        &&& same_member_except(before, after)
        &&& after.home_hub == to_hub
        &&& after.membership_tier == before.membership_tier
        &&& self.transfers().drop_last() == old.transfers()
        &&& self.transfers().len() == old.transfers().len() + 1
        &&& self.transfers().last().member_id == id
        &&& self.transfers().last().from_hub == from_hub
        &&& self.transfers().last().to_hub == to_hub
        &&& self.transfers().last().transfer_date == date
        &&& self.transfers().last().reason@ == "Hub relocation"@
    }

    /// Join with the given id, home hub and join date. A member already
    /// holding the id is replaced.
    pub fn global_join_with(
        &mut self,
        name: String,
        region: Region,
        member_id: MemberId,
        home_hub: HubId,
        join_date: Timestamp,
    ) -> (r: CommonsResult<MemberId>)
        requires
            old(self).wf(),
        ensures
            final(self).wf(),
            r == Ok::<MemberId, CommonsError>(member_id),
            final(self).joined(old(self), member_id, name@, region, home_hub, join_date),
    {
        let mut portable_id = String::from_str("SC-");
        let id_text = uuid_string(member_id);
        portable_id.append(id_text.as_str());
        let member = Member {
            id: member_id,
            name,
            region,
            home_hub,
            join_date,
            membership_tier: MembershipTier::Basic,
            portable_id,
        };
        let ghost before = self.members@;
        match self.find(member_id) {
            Some(i) => {
                self.members.set(i, member);
                proof {
                    assert forall|a: int, b: int|
                        0 <= a < self.members@.len() && 0 <= b < self.members@.len() && a != b implies #[trigger] self.members@[a].id
                        != #[trigger] self.members@[b].id by {
                        assert(before[a].id != before[b].id);
                    }
                }
            },
            None => {
                self.members.push(member);
                proof {
                    assert(self.members@.drop_last() =~= before);
                    assert forall|a: int, b: int|
                        0 <= a < self.members@.len() && 0 <= b < self.members@.len() && a != b implies #[trigger] self.members@[a].id
                        != #[trigger] self.members@[b].id by {
                        if a < before.len() && b < before.len() {
                            assert(before[a].id != before[b].id);
                        }
                    }
                }
            },
        }
        Ok(member_id)
    }

    /// Join the global commons: a fresh member id, a fresh home hub, joined
    /// now, at the Basic tier. The dues amount is accepted as given.
    pub fn global_join(&mut self, name: String, dues: u128, region: Region) -> (r: CommonsResult<
        MemberId,
    >)
        requires
            old(self).wf(),
        ensures
            final(self).wf(),
            final(self).transfers() == old(self).transfers(),
            r is Ok,
            has_member(final(self).members(), r->Ok_0),
            final(self).joined(
                old(self),
                r->Ok_0,
                name@,
                region,
                final(self).record_of(r->Ok_0).home_hub,
                final(self).record_of(r->Ok_0).join_date,
            ),
    {
        let member_id = generate_id();
        let home_hub = generate_id();
        let join_date = current_timestamp();
        let r = self.global_join_with(name, region, member_id, home_hub, join_date);
        proof {
            let ms = self.members@;
            if has_member(old(self).members(), member_id) {
                let i = member_index(old(self).members(), member_id);
                assert(ms[i].id == member_id);
            } else {
                assert(ms[ms.len() - 1].id == member_id);
            }
            assert(has_member(ms, member_id));
            let k = member_index(ms, member_id);
            let i = if has_member(old(self).members(), member_id) {
                member_index(old(self).members(), member_id)
            } else {
                ms.len() - 1
            };
            if k != i {
                assert(ms[k].id != ms[i].id);
            }
        }
        r
    }

    /// Move a member to another hub, recording the transfer.
    pub fn cross_hub_transfer_at(
        &mut self,
        member_id: MemberId,
        from_hub: HubId,
        to_hub: HubId,
        transfer_date: Timestamp,
    ) -> (r: CommonsResult<Member>)
        requires
            old(self).wf(),
        ensures
            final(self).wf(),
            !has_member(old(self).members(), member_id) ==> r == Err::<Member, CommonsError>(
                CommonsError::MemberNotFound(member_id),
            ) && final(self).members() == old(self).members() && final(self).transfers() == old(self).transfers(),
            has_member(old(self).members(), member_id) ==> (r matches Ok(m) && final(self).transferred(old(self), member_id, from_hub, to_hub, transfer_date, m)),
    {
        let i = match self.find(member_id) {
            Some(i) => i,
            None => return Err(CommonsError::MemberNotFound(member_id)),
        };
        let transfer = HubTransfer {
            member_id,
            from_hub,
            to_hub,
            transfer_date,
            reason: String::from_str("Hub relocation"),
        };
        let ghost tbefore = self.transfers@;
        self.transfers.push(transfer);
        assert(self.transfers@.drop_last() =~= tbefore);
        let mut member = copy_member(&self.members[i]);
        member.home_hub = to_hub;
        let returned = copy_member(&member);
        let ghost before = self.members@;
        self.members.set(i, member);
        proof {
            assert forall|a: int, b: int|
                0 <= a < self.members@.len() && 0 <= b < self.members@.len() && a != b implies #[trigger] self.members@[a].id
                != #[trigger] self.members@[b].id by {
                assert(before[a].id != before[b].id);
            }
        }
        Ok(returned)
    }

    /// Move a member to another hub now, recording the transfer.
    pub fn cross_hub_transfer(
        &mut self,
        member_id: MemberId,
        from_hub: HubId,
        to_hub: HubId,
    ) -> (r: CommonsResult<Member>)
        requires
            old(self).wf(),
        ensures
            final(self).wf(),
            !has_member(old(self).members(), member_id) ==> r == Err::<Member, CommonsError>(
                CommonsError::MemberNotFound(member_id),
            ) && final(self).members() == old(self).members() && final(self).transfers() == old(self).transfers(),
            has_member(old(self).members(), member_id) ==> (r matches Ok(m) && final(self).transferred(
                old(self),
                member_id,
                from_hub,
                to_hub,
                final(self).transfers().last().transfer_date,
                m,
            )),
    {
        let now = current_timestamp();
        self.cross_hub_transfer_at(member_id, from_hub, to_hub, now)
    }

    /// Localized dues for a region.
    pub fn get_dues_structure(&self, region: Region) -> (d: DuesStructure)
        ensures
            d.region == region,
            d.amount == dues_of(region).0,
            d.currency == dues_of(region).1,
            d.period == DuesPeriod::Monthly,
    {
        let (amount, currency) = match &region {
            Region::LA | Region::NYC | Region::Atlanta => (5000, Currency::USD),
            Region::Mumbai => (200000, Currency::INR),
            Region::Berlin | Region::London => (4500, Currency::EUR),
            _ => (5000, Currency::USD),
        };
        DuesStructure { region, amount, currency, period: DuesPeriod::Monthly }
    }

    pub fn get_member(&self, member_id: MemberId) -> (r: Option<&Member>)
        requires
            self.wf(),
        ensures
            has_member(self.members(), member_id) ==> r == Some(
                &self.members()[member_index(self.members(), member_id)],
            ),
            !has_member(self.members(), member_id) ==> r is None,
    {
        match self.find(member_id) {
            Some(i) => Some(&self.members[i]),
            None => None,
        }
    }

    /// All members, in joining order.
    pub fn get_all_members(&self) -> (r: Vec<&Member>)
        ensures
            r@.len() == self.members().len(),
            forall|i: int| 0 <= i < r@.len() ==> *r@[i] == self.members()[i],
    {
        let mut r: Vec<&Member> = Vec::new();
        let mut i: usize = 0;
        while i < self.members.len()
            invariant
                i <= self.members@.len(),
                r@.len() == i,
                forall|k: int| 0 <= k < i ==> *r@[k] == self.members@[k],
            decreases self.members@.len() - i,
        {
            r.push(&self.members[i]);
            i = i + 1;
        }
        r
    }

    /// The transfers of one member, oldest first.
    pub fn get_transfer_history(&self, member_id: MemberId) -> (r: Vec<&HubTransfer>)
        ensures
            r@.map_values(|t: &HubTransfer| *t) == self.transfers().filter(
                |t: HubTransfer| t.member_id == member_id,
            ),
    {
        let ghost ts = self.transfers@;
        let ghost pred = |t: HubTransfer| t.member_id == member_id;
        let mut r: Vec<&HubTransfer> = Vec::new();
        let mut i: usize = 0;
        while i < self.transfers.len()
            invariant
                ts == self.transfers@,
                pred == (|t: HubTransfer| t.member_id == member_id),
                i <= ts.len(),
                r@.map_values(|t: &HubTransfer| *t) == ts.subrange(0, i as int).filter(pred),
            decreases ts.len() - i,
        {
            proof {
                reveal_with_fuel(Seq::<_>::filter, 1);
                assert(ts.subrange(0, i + 1).drop_last() =~= ts.subrange(0, i as int));
            }
            if self.transfers[i].member_id == member_id {
                r.push(&self.transfers[i]);
            }
            assert(r@.map_values(|t: &HubTransfer| *t) =~= ts.subrange(0, i + 1).filter(pred));
            i = i + 1;
        }
        assert(ts.subrange(0, i as int) =~= ts);
        r
    }

    /// Change a member's tier.
    pub fn upgrade_tier(&mut self, member_id: MemberId, tier: MembershipTier) -> (r: CommonsResult<()>)
        requires
            old(self).wf(),
        ensures
            final(self).wf(),
            final(self).transfers() == old(self).transfers(),
            !has_member(old(self).members(), member_id) ==> r == Err::<(), CommonsError>(
                CommonsError::MemberNotFound(member_id),
            ) && final(self).members() == old(self).members(),
            has_member(old(self).members(), member_id) ==> {
                let i = member_index(old(self).members(), member_id);
                &&& r is Ok
                &&& final(self).members().len() == old(self).members().len()
                &&& forall|j: int|
                    0 <= j < old(self).members().len() && j != i ==> final(self).members()[j]
                        == old(self).members()[j]
                &&& same_member_except(old(self).members()[i], final(self).members()[i])
                &&& final(self).members()[i].home_hub == old(self).members()[i].home_hub
                &&& final(self).members()[i].membership_tier == tier
            },
    {
        let i = match self.find(member_id) {
            Some(i) => i,
            None => return Err(CommonsError::MemberNotFound(member_id)),
        };
        let mut member = copy_member(&self.members[i]);
        member.membership_tier = tier;
        let ghost before = self.members@;
        self.members.set(i, member);
        proof {
            assert forall|a: int, b: int|
                0 <= a < self.members@.len() && 0 <= b < self.members@.len() && a != b implies #[trigger] self.members@[a].id
                != #[trigger] self.members@[b].id by {
                assert(before[a].id != before[b].id);
            }
        }
        Ok(())
    }
}

impl Default for MembershipSystem {
    fn default() -> (r: MembershipSystem)
        ensures
            r.wf(),
            r.members().len() == 0,
            r.transfers().len() == 0,
    {
        MembershipSystem { region: Region::LA, members: Vec::new(), transfers: Vec::new() }
    }
}

} // verus!
