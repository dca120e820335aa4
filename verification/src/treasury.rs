//! Treasury: yield positions, per-currency balances, profit distribution and
//! the carbon ledger.
//!
//! Rates are kept in basis points and carbon figures by the bit patterns of
//! their doubles, so the bookkeeping here is exact integer logic.

use vstd::prelude::*;
use crate::payments::{allocation_of, percent, FOUNDER_FEE_PERCENTAGE, MEMBER_DISTRIBUTION_PERCENTAGE};
use crate::utils::{current_timestamp, generate_id, CommonsResult, Currency, MemberId, Timestamp};

verus! {

/// DeFi protocol integrations.
#[derive(Debug, Clone, PartialEq, Eq)]
pub enum Protocol {
    Aave,
    Compound,
    YearnFinance,
    Custom(String),
}

/// Yield farming position.
#[derive(Debug, Clone)]
pub struct YieldPosition {
    pub id: u128,
    pub protocol: Protocol,
    pub amount: u128,
    pub currency: Currency,
    /// Annual yield in basis points (450 is 4.5%).
    pub apy_bps: u32,
    pub start_date: Timestamp,
}

/// Payout to a member.
#[derive(Debug, Clone)]
pub struct Payout {
    pub member_id: MemberId,
    pub amount: u128,
    pub currency: Currency,
    pub reason: String,
    pub timestamp: Timestamp,
}

/// Distribution breakdown.
#[derive(Debug, Clone)]
pub struct DistributionBreakdown {
    pub member_payouts: Vec<Payout>,
    pub reinvestment_amount: u128,
    pub reserve_amount: u128,
    pub founder_fee: u128,
    pub total_distributed: u128,
}

/// One entry of the carbon ledger; the figures are bit patterns of doubles.
#[derive(Debug, Clone, Copy, PartialEq, Eq, Structural)]
pub struct CarbonRecord {
    pub energy_kwh_bits: u64,
    pub carbon_tons_bits: u64,
    pub offset_required_bits: u64,
    pub net_zero_achieved: bool,
}

pub struct TreasurySystem {
    positions: Vec<YieldPosition>,
    /// One balance per currency, each currency at most once.
    total_balance: Vec<(Currency, u128)>,
    carbon_data: Vec<CarbonRecord>,
}

/// The yield a protocol offers, in basis points.
pub open spec fn apy_of(p: Protocol) -> u32 {
    match p {
        Protocol::Aave => 450,
        Protocol::Compound => 520,
        Protocol::YearnFinance => 600,
        Protocol::Custom(_) => 400,
    }
}

/// No currency occurs twice in `s`.
pub open spec fn distinct_currencies(s: Seq<(Currency, u128)>) -> bool {
    forall|i: int, j: int| 0 <= i < j < s.len() ==> #[trigger] s[i].0 != #[trigger] s[j].0
}

/// The map that a list of (currency, amount) pairs with distinct currencies
/// stands for.
pub open spec fn as_balances(s: Seq<(Currency, u128)>) -> Map<Currency, u128>
    decreases s.len(),
{
    if s.len() == 0 {
        Map::empty()
    } else {
        as_balances(s.drop_last()).insert(s.last().0, s.last().1)
    }
}

/// The amount deployed in currency `c` across `ps`.
pub open spec fn deployed(ps: Seq<YieldPosition>, c: Currency) -> int
    decreases ps.len(),
{
    if ps.len() == 0 {
        0
    } else {
        deployed(ps.drop_last(), c) + if ps.last().currency == c {
            ps.last().amount as int
        } else {
            0
        }
    }
}

/// The currencies of `ps`.
pub open spec fn currencies_of(ps: Seq<YieldPosition>) -> Set<Currency> {
    Set::new(|c: Currency| exists|i: int| 0 <= i < ps.len() && #[trigger] ps[i].currency == c)
}

/// `p` pays `amount` USD of profits to `member` at `timestamp`.
pub open spec fn paid_to(p: Payout, member: MemberId, amount: int, timestamp: Timestamp) -> bool {
    &&& p.member_id == member
    &&& p.amount == amount
    &&& p.currency == Currency::USD
    &&& p.reason@ == "Profit distribution"@
    &&& p.timestamp == timestamp
}

/// The distribution of `profits`: (founder's fee, member share,
/// reinvestment, reserves).
pub open spec fn profit_split(profits: u128) -> (int, int, int, int) {
    allocation_of(profits)
}

proof fn lemma_opening_balances(s: Seq<(Currency, u128)>)
    requires
        s == seq![(Currency::USD, 0u128), (Currency::XRP, 0u128)],
    ensures
        distinct_currencies(s),
        as_balances(s) == map![Currency::USD => 0u128, Currency::XRP => 0u128],
{
    assert(s.drop_last().drop_last() =~= Seq::<(Currency, u128)>::empty());
    assert(as_balances(s.drop_last().drop_last()) == Map::<Currency, u128>::empty());
    assert(as_balances(s.drop_last()) == Map::<Currency, u128>::empty().insert(Currency::USD, 0u128));
    assert(as_balances(s) =~= map![Currency::USD => 0u128, Currency::XRP => 0u128]);
}

proof fn lemma_as_balances_find(s: Seq<(Currency, u128)>, i: int)
    requires
        distinct_currencies(s),
        0 <= i < s.len(),
    ensures
        as_balances(s).contains_key(s[i].0),
        as_balances(s)[s[i].0] == s[i].1,
    decreases s.len(),
{
    if i < s.len() - 1 {
        lemma_as_balances_find(s.drop_last(), i);
        assert(s[i].0 != s.last().0);
    }
}

proof fn lemma_as_balances_absent(s: Seq<(Currency, u128)>, c: Currency)
    requires
        forall|i: int| 0 <= i < s.len() ==> #[trigger] s[i].0 != c,
    ensures
        !as_balances(s).contains_key(c),
    decreases s.len(),
{
    if s.len() > 0 {
        lemma_as_balances_absent(s.drop_last(), c);
    }
}

proof fn lemma_as_balances_update(s: Seq<(Currency, u128)>, i: int, v: u128)
    requires
        distinct_currencies(s),
        0 <= i < s.len(),
    ensures
        distinct_currencies(s.update(i, (s[i].0, v))),
        as_balances(s.update(i, (s[i].0, v))) == as_balances(s).insert(s[i].0, v),
    decreases s.len(),
{
    let t = s.update(i, (s[i].0, v));
    if i == s.len() - 1 {
        assert(t.drop_last() =~= s.drop_last());
        assert(as_balances(t) =~= as_balances(s).insert(s[i].0, v));
    } else {
        lemma_as_balances_update(s.drop_last(), i, v);
        assert(t.drop_last() =~= s.drop_last().update(i, (s[i].0, v)));
        assert(s[i].0 != s.last().0);
        assert(as_balances(t) =~= as_balances(s).insert(s[i].0, v));
    }
}

/// Find the index of currency `c` in a balance list.
fn find_currency(s: &Vec<(Currency, u128)>, c: Currency) -> (r: Option<usize>)
    ensures
        match r {
            Some(i) => i < s@.len() && s@[i as int].0 == c,
            None => forall|i: int| 0 <= i < s@.len() ==> #[trigger] s@[i].0 != c,
        },
{
    let mut i: usize = 0;
    while i < s.len()
        invariant
            i <= s@.len(),
            forall|j: int| 0 <= j < i ==> #[trigger] s@[j].0 != c,
        decreases s@.len() - i,
    {
        if s[i].0 == c {
            return Some(i);
        }
        i = i + 1;
    }
    None
}

impl Protocol {
    /// A copy of the protocol.
    pub fn duplicate(&self) -> (r: Protocol)
        ensures
            r == *self,
    {
        match self {
            Protocol::Aave => Protocol::Aave,
            Protocol::Compound => Protocol::Compound,
            Protocol::YearnFinance => Protocol::YearnFinance,
            Protocol::Custom(s) => Protocol::Custom(s.clone()),
        }
    }
}

impl TreasurySystem {
    pub closed spec fn positions(&self) -> Seq<YieldPosition> {
        self.positions@
    }

    /// The balance held in each currency.
    pub closed spec fn balances(&self) -> Map<Currency, u128> {
        as_balances(self.total_balance@)
    }

    pub closed spec fn carbon(&self) -> Seq<CarbonRecord> {
        self.carbon_data@
    }

    pub closed spec fn wf(&self) -> bool {
        distinct_currencies(self.total_balance@)
    }

    /// The balance held in currency `c`, zero where none is recorded.
    pub open spec fn balance_in(&self, c: Currency) -> u128 {
        if self.balances().contains_key(c) {
            self.balances()[c]
        } else {
            0
        }
    }

    /// A treasury holding nothing, with USD and XRP balances opened at zero.
    pub fn new() -> (r: CommonsResult<TreasurySystem>)
        ensures
            r matches Ok(t) && {
                &&& t.wf()
                &&& t.positions().len() == 0
                &&& t.carbon().len() == 0
                &&& t.balances() == map![Currency::USD => 0u128, Currency::XRP => 0u128]
            },
    {
        let mut total_balance: Vec<(Currency, u128)> = Vec::new();
        total_balance.push((Currency::USD, 0));
        total_balance.push((Currency::XRP, 0));
        let t = TreasurySystem { positions: Vec::new(), total_balance, carbon_data: Vec::new() };
        proof {
            assert(t.total_balance@ =~= seq![(Currency::USD, 0u128), (Currency::XRP, 0u128)]);
            lemma_opening_balances(t.total_balance@);
        }
        Ok(t)
    }

    /// Deploy `amount` of `currency` to `protocol` as position `id`, opened
    /// at `start_date`: the position earns the protocol's rate, and the
    /// currency's balance falls by `amount`, stopping at zero.
    pub fn deploy_multi_currency_with(
        &mut self,
        amount: u128,
        protocol: Protocol,
        currency: Currency,
        id: u128,
        start_date: Timestamp,
    ) -> (r: CommonsResult<u128>)
        requires
            old(self).wf(),
        ensures
            final(self).wf(),
            r == Ok::<u128, crate::utils::CommonsError>(id),
            final(self).positions().len() == old(self).positions().len() + 1,
            final(self).positions().drop_last() == old(self).positions(),
            final(self).positions().last().id == id,
            final(self).positions().last().protocol == protocol,
            final(self).positions().last().amount == amount,
            final(self).positions().last().currency == currency,
            final(self).positions().last().apy_bps == apy_of(protocol),
            final(self).positions().last().start_date == start_date,
            final(self).balances() == old(self).balances().insert(
                currency,
                (if old(self).balance_in(currency) >= amount {
                    old(self).balance_in(currency) - amount
                } else {
                    0
                }) as u128,
            ),
            final(self).carbon() == old(self).carbon(),
    {
        let apy_bps: u32 = match protocol {
            Protocol::Aave => 450,
            Protocol::Compound => 520,
            Protocol::YearnFinance => 600,
            Protocol::Custom(_) => 400,
        };
        let position = YieldPosition { id, protocol, amount, currency, apy_bps, start_date };
        self.positions.push(position);
        match find_currency(&self.total_balance, currency) {
            Some(i) => {
                let (c, held) = self.total_balance[i];
                proof {
                    lemma_as_balances_find(self.total_balance@, i as int);
                    lemma_as_balances_update(self.total_balance@, i as int, held.saturating_sub(amount));
                }
                self.total_balance.set(i, (c, held.saturating_sub(amount)));
            },
            None => {
                proof {
                    lemma_as_balances_absent(self.total_balance@, currency);
                }
                self.total_balance.push((currency, 0));
                proof {
                    let s = self.total_balance@;
                    assert(s.drop_last() =~= old(self).total_balance@);
                }
            },
        }
        Ok(id)
    }

    /// Deploy funds to a DeFi protocol as a fresh position opened now.
    pub fn deploy_multi_currency(&mut self, amount: u128, protocol: Protocol, currency: Currency) -> (r:
        CommonsResult<u128>)
        requires
            old(self).wf(),
        ensures
            final(self).wf(),
            r matches Ok(id) && final(self).positions().last().id == id,
            final(self).positions().len() == old(self).positions().len() + 1,
            final(self).positions().drop_last() == old(self).positions(),
            final(self).positions().last().protocol == protocol,
            final(self).positions().last().amount == amount,
            final(self).positions().last().currency == currency,
            final(self).positions().last().apy_bps == apy_of(protocol),
            final(self).balances() == old(self).balances().insert(
                currency,
                (if old(self).balance_in(currency) >= amount {
                    old(self).balance_in(currency) - amount
                } else {
                    0
                }) as u128,
            ),
            final(self).carbon() == old(self).carbon(),
    {
        let id = generate_id();
        let start_date = current_timestamp();
        self.deploy_multi_currency_with(amount, protocol, currency, id, start_date)
    }

    /// Distribute `profits`: a 1% founder's fee comes off first, then half
    /// of the rest goes to members (here two payouts of equal size to
    /// `first` and `second`, in USD), 30% to reinvestment and the remainder
    /// to reserves.
    pub fn global_distribute_with(
        &self,
        profits: u128,
        first: MemberId,
        second: MemberId,
        timestamp: Timestamp,
    ) -> (r: CommonsResult<Vec<Payout>>)
        ensures
            r matches Ok(ps) && {
                let share = profit_split(profits).1 / 2;
                &&& ps@.len() == 2
                &&& paid_to(ps@[0], first, share, timestamp)
                &&& paid_to(ps@[1], second, share, timestamp)
            },
    {
        let founder_fee = percent(profits, FOUNDER_FEE_PERCENTAGE);
        let remaining = profits - founder_fee;
        let member_share = percent(remaining, MEMBER_DISTRIBUTION_PERCENTAGE);
        let mut payouts: Vec<Payout> = Vec::new();
        payouts.push(
            Payout {
                member_id: first,
                amount: member_share / 2,
                currency: Currency::USD,
                reason: String::from_str("Profit distribution"),
                timestamp,
            },
        );
        payouts.push(
            Payout {
                member_id: second,
                amount: member_share / 2,
                currency: Currency::USD,
                reason: String::from_str("Profit distribution"),
                timestamp,
            },
        );
        Ok(payouts)
    }

    /// Global profit distribution (50/30/20 split after the 1% founder's
    /// fee), paying the member share to two fresh member ids.
    pub fn global_distribute(&self, profits: u128) -> (r: CommonsResult<Vec<Payout>>)
        ensures
            r matches Ok(ps) && {
                let share = profit_split(profits).1 / 2;
                &&& ps@.len() == 2
                &&& paid_to(ps@[0], ps@[0].member_id, share, ps@[0].timestamp)
                &&& paid_to(ps@[1], ps@[1].member_id, share, ps@[1].timestamp)
            },
    {
        let first = generate_id();
        let second = generate_id();
        let timestamp = current_timestamp();
        self.global_distribute_with(profits, first, second, timestamp)
    }

    /// Record the carbon figures of an energy reading. The record counts as
    /// net zero exactly when it is the first one.
    pub fn record_carbon(&mut self, energy_kwh_bits: u64, carbon_tons_bits: u64, offset_required_bits: u64) -> (r:
        CommonsResult<CarbonRecord>)
        requires
            old(self).wf(),
        ensures
            final(self).wf(),
            r == Ok::<CarbonRecord, crate::utils::CommonsError>(
                CarbonRecord {
                    energy_kwh_bits,
                    carbon_tons_bits,
                    offset_required_bits,
                    net_zero_achieved: old(self).carbon().len() == 0,
                },
            ),
            final(self).carbon() == old(self).carbon().push(r->Ok_0),
            final(self).positions() == old(self).positions(),
            final(self).balances() == old(self).balances(),
    {
        let record = CarbonRecord {
            energy_kwh_bits,
            carbon_tons_bits,
            offset_required_bits,
            net_zero_achieved: self.carbon_data.len() == 0,
        };
        self.carbon_data.push(record);
        Ok(record)
    }

    /// The carbon ledger, oldest first.
    pub fn carbon_records(&self) -> (r: &[CarbonRecord])
        ensures
            r@ == self.carbon(),
    {
        self.carbon_data.as_slice()
    }

    /// The yield positions, oldest first.
    pub fn get_positions(&self) -> (r: &[YieldPosition])
        ensures
            r@ == self.positions(),
    {
        self.positions.as_slice()
    }

    /// The balance held in `currency`, zero where none is recorded.
    pub fn balance(&self, currency: Currency) -> (r: u128)
        requires
            self.wf(),
        ensures
            r == self.balance_in(currency),
    {
        match find_currency(&self.total_balance, currency) {
            Some(i) => {
                proof {
                    lemma_as_balances_find(self.total_balance@, i as int);
                }
                self.total_balance[i].1
            },
            None => {
                proof {
                    lemma_as_balances_absent(self.total_balance@, currency);
                }
                0
            },
        }
    }

    /// Total value locked: the amount deployed in each currency that has a
    /// position, currencies in order of their first position.
    pub fn get_tvl(&self) -> (r: Vec<(Currency, u128)>)
        requires
            forall|c: Currency| #[trigger] deployed(self.positions(), c) <= u128::MAX,
        ensures
            distinct_currencies(r@),
            forall|c: Currency| #[trigger]
                as_balances(r@).contains_key(c) == currencies_of(self.positions()).contains(c),
            forall|c: Currency| #[trigger]
                as_balances(r@).contains_key(c) ==> as_balances(r@)[c] == deployed(
                    self.positions(),
                    c,
                ),
    {
        let mut tvl: Vec<(Currency, u128)> = Vec::new();
        let mut i: usize = 0;
        while i < self.positions.len()
            invariant
                i <= self.positions@.len(),
                forall|c: Currency| #[trigger] deployed(self.positions(), c) <= u128::MAX,
                distinct_currencies(tvl@),
                forall|c: Currency| #[trigger]
                    as_balances(tvl@).contains_key(c) == currencies_of(
                        self.positions@.subrange(0, i as int),
                    ).contains(c),
                forall|c: Currency| #[trigger]
                    as_balances(tvl@).contains_key(c) ==> as_balances(tvl@)[c] == deployed(
                        self.positions@.subrange(0, i as int),
                        c,
                    ),
            decreases self.positions@.len() - i,
        {
            let ghost before = self.positions@.subrange(0, i as int);
            let ghost after = self.positions@.subrange(0, i + 1);
            let p = &self.positions[i];
            proof {
                assert(after.drop_last() =~= before);
                assert(after.last() == *p);
                lemma_deployed_prefix_bound(self.positions@, i + 1, p.currency);
                assert(deployed(self.positions(), p.currency) <= u128::MAX);
            }
            match find_currency(&tvl, p.currency) {
                Some(k) => {
                    let (c, v) = tvl[k];
                    proof {
                        lemma_as_balances_find(tvl@, k as int);
                        lemma_as_balances_update(tvl@, k as int, (v + p.amount) as u128);
                    }
                    tvl.set(k, (c, v + p.amount));
                },
                None => {
                    proof {
                        lemma_as_balances_absent(tvl@, p.currency);
                        assert(!currencies_of(before).contains(p.currency));
                        lemma_deployed_absent(before, p.currency);
                    }
                    let ghost old_tvl = tvl@;
                    tvl.push((p.currency, p.amount));
                    proof {
                        assert(tvl@.drop_last() =~= old_tvl);
                    }
                },
            }
            proof {
                assert forall|c: Currency| #[trigger]
                    as_balances(tvl@).contains_key(c) == currencies_of(after).contains(c) by {
                    if currencies_of(before).contains(c) {
                        let j = choose|j: int| 0 <= j < before.len() && #[trigger] before[j].currency == c;
                        assert(after[j].currency == c);
                    }
                    if currencies_of(after).contains(c) && c != p.currency {
                        let j = choose|j: int| 0 <= j < after.len() && #[trigger] after[j].currency == c;
                        assert(before[j].currency == c);
                    }
                    if c == p.currency {
                        assert(after[i as int].currency == c);
                    }
                }
            }
            i = i + 1;
        }
        assert(self.positions@.subrange(0, i as int) =~= self.positions@);
        tvl
    }
}

proof fn lemma_deployed_absent(ps: Seq<YieldPosition>, c: Currency)
    requires
        !currencies_of(ps).contains(c),
    ensures
        deployed(ps, c) == 0,
    decreases ps.len(),
{
    if ps.len() > 0 {
        let init = ps.drop_last();
        assert(!currencies_of(init).contains(c)) by {
            if currencies_of(init).contains(c) {
                let j = choose|j: int| 0 <= j < init.len() && #[trigger] init[j].currency == c;
                assert(ps[j].currency == c);
            }
        }
        assert(ps[ps.len() - 1].currency != c);
        lemma_deployed_absent(init, c);
    }
}

proof fn lemma_deployed_prefix_bound(ps: Seq<YieldPosition>, n: int, c: Currency)
    requires
        0 <= n <= ps.len(),
    ensures
        deployed(ps.subrange(0, n), c) <= deployed(ps, c),
    decreases ps.len() - n,
{
    if n < ps.len() {
        lemma_deployed_prefix_bound(ps, n + 1, c);
        assert(ps.subrange(0, n + 1).drop_last() =~= ps.subrange(0, n));
    } else {
        assert(ps.subrange(0, n) =~= ps);
    }
}

/// The founder's fee, member share, reinvestment and reserves of a profit
/// distribution add up to the profits.
pub proof fn lemma_distribution_conserves(profits: u128)
    ensures
        profit_split(profits).0 + profit_split(profits).1 + profit_split(profits).2
            + profit_split(profits).3 == profits,
        profit_split(profits).0 == profits / 100,
{
}

impl Default for TreasurySystem {
    fn default() -> (r: TreasurySystem)
        ensures
            r.wf(),
            r.positions().len() == 0,
            r.carbon().len() == 0,
            r.balances() == map![Currency::USD => 0u128, Currency::XRP => 0u128],
    {
        let mut total_balance: Vec<(Currency, u128)> = Vec::new();
        total_balance.push((Currency::USD, 0));
        total_balance.push((Currency::XRP, 0));
        let t = TreasurySystem { positions: Vec::new(), total_balance, carbon_data: Vec::new() };
        proof {
            assert(t.total_balance@ =~= seq![(Currency::USD, 0u128), (Currency::XRP, 0u128)]);
            lemma_opening_balances(t.total_balance@);
        }
        t
    }
}

} // verus!
