//! The fiscal engine: costs first, exact integer money, survival before
//! generosity, and expansion only from a proven surplus.
//!
//! All money is `u128` in minor units and all rates are basis points. The
//! engine's state satisfies an exact conservation identity at all times:
//! lifetime revenue equals expenses paid, founder fees, member distributions,
//! reinvestment, hub seeds, reserves, the expansion fund and the revenue of
//! the still-open period.

use vstd::prelude::*;
use crate::utils::generate_id;

verus! {

/// All rates are in basis points; 10_000 bps = 100%.
pub const BPS: u128 = 10_000;

/// Founder's fee: 1% of net surplus, levied only on a surplus.
pub const FOUNDER_FEE_BPS: u128 = 100;

/// Healthy-state split of post-fee surplus: members by merit.
pub const MEMBER_BPS: u128 = 5_000;

/// Healthy-state split of post-fee surplus: local reinvestment.
pub const REINVEST_BPS: u128 = 2_000;

/// Healthy-state split of post-fee surplus: the global expansion fund.
pub const EXPANSION_BPS: u128 = 1_000;

/// Share of a Rebuilding hub's post-fee surplus that goes back to reserves.
pub const REBUILD_RESERVE_BPS: u128 = 5_000;

/// Runway below this many months is Critical.
pub const MIN_RUNWAY_MONTHS: u128 = 3;

/// Runway at or above this many months is Healthy.
pub const TARGET_RUNWAY_MONTHS: u128 = 6;

/// Reserves above this many months of burn overflow into the expansion fund.
pub const RESERVE_CAP_MONTHS: u128 = 12;

/// Closed periods over which the monthly burn is averaged.
pub const BURN_WINDOW_PERIODS: usize = 12;

/// Consecutive profitable, Healthy periods required before seeding a hub.
pub const SEED_TRACK_RECORD_PERIODS: usize = 3;

/// Fiscal health of the hub, derived purely from runway and unpaid debt.
#[derive(Debug, Clone, Copy, PartialEq, Eq, PartialOrd, Ord, Hash, Structural)]
pub enum FiscalHealth {
    /// Obligations left unpaid.
    Insolvent,
    /// Runway below `MIN_RUNWAY_MONTHS`.
    Critical,
    /// Runway between `MIN_RUNWAY_MONTHS` and `TARGET_RUNWAY_MONTHS`.
    Rebuilding,
    /// Runway at or above `TARGET_RUNWAY_MONTHS`.
    Healthy,
}

/// Result of closing one fiscal period.
#[derive(Debug, Clone, Copy, PartialEq, Eq)]
pub struct PeriodReport {
    pub period_index: usize,
    pub revenue: u128,
    pub expenses: u128,
    /// Profit after past debts were settled; zero on a loss.
    pub surplus: u128,
    /// `expenses - revenue` when positive, else 0.
    pub deficit: u128,
    /// Deficit covered by drawing down reserves.
    pub reserves_drawn: u128,
    /// Deficit that reserves could not cover.
    pub unfunded_deficit: u128,
    /// Past unfunded obligations settled out of this period's gross surplus.
    pub debt_repaid: u128,
    pub founder_fee: u128,
    pub member_distribution: u128,
    pub local_reinvestment: u128,
    pub expansion_deposit: u128,
    pub reserve_deposit: u128,
    /// Reserves above the prudence cap moved into the expansion fund.
    pub reserve_overflow_to_expansion: u128,
    pub reserves_after: u128,
    pub expansion_fund_after: u128,
    pub health_after: FiscalHealth,
}

/// Grant released to seed a new hub.
#[derive(Debug, Clone, Copy, PartialEq, Eq)]
pub struct HubSeed {
    pub id: u128,
    pub amount: u128,
    pub funded_after_period: usize,
}

/// Conservation audit: every unit in equals every unit out or held.
#[derive(Debug, Clone, Copy, PartialEq, Eq)]
pub struct ConservationAudit {
    pub lifetime_revenue: u128,
    pub lifetime_expenses_paid: u128,
    pub lifetime_founder_fees: u128,
    pub lifetime_member_distributions: u128,
    pub lifetime_reinvestment: u128,
    pub lifetime_hub_seeds: u128,
    pub reserves_held: u128,
    pub expansion_fund_held: u128,
    pub unfunded_deficit: u128,
    /// True iff in == out + held, exactly.
    pub conserved: bool,
}

/// Why the engine refused an operation.
#[derive(Debug, Clone, Copy, PartialEq, Eq)]
pub enum FiscalError {
    /// Recorded revenue would exceed `u128::MAX`.
    RevenueOverflow,
    /// Recorded expenses would exceed `u128::MAX`.
    ExpenseOverflow,
    /// A seed must cost something.
    ZeroSeedCost,
    /// Expansion requires a Healthy hub; this is the hub's health.
    NotHealthy(FiscalHealth),
    /// Fewer closed periods than the required track record.
    TrackRecordTooShort { required: usize, have: usize },
    /// One of the last periods was a loss or not Healthy.
    TrackRecordBroken,
    /// The expansion fund cannot cover the seed.
    InsufficientExpansionFund { fund: u128, cost: u128 },
}

pub struct FiscalEngine {
    reserves: u128,
    expansion_fund: u128,
    open_revenue: u128,
    open_expenses: u128,
    reports: Vec<PeriodReport>,
    seeds: Vec<HubSeed>,
    lifetime_revenue: u128,
    lifetime_expenses_paid: u128,
    lifetime_founder_fees: u128,
    lifetime_member_distributions: u128,
    lifetime_reinvestment: u128,
    lifetime_hub_seeds: u128,
    unfunded_deficit: u128,
}

/// The abstract state of a fiscal engine.
pub struct FiscalState {
    pub reserves: u128,
    pub expansion_fund: u128,
    pub open_revenue: u128,
    pub open_expenses: u128,
    pub reports: Seq<PeriodReport>,
    pub seeds: Seq<HubSeed>,
    pub lifetime_revenue: u128,
    pub lifetime_expenses_paid: u128,
    pub lifetime_founder_fees: u128,
    pub lifetime_member_distributions: u128,
    pub lifetime_reinvestment: u128,
    pub lifetime_hub_seeds: u128,
    pub unfunded_deficit: u128,
}

impl View for FiscalEngine {
    type V = FiscalState;

    closed spec fn view(&self) -> FiscalState {
        FiscalState {
            reserves: self.reserves,
            expansion_fund: self.expansion_fund,
            open_revenue: self.open_revenue,
            open_expenses: self.open_expenses,
            reports: self.reports@,
            seeds: self.seeds@,
            lifetime_revenue: self.lifetime_revenue,
            lifetime_expenses_paid: self.lifetime_expenses_paid,
            lifetime_founder_fees: self.lifetime_founder_fees,
            lifetime_member_distributions: self.lifetime_member_distributions,
            lifetime_reinvestment: self.lifetime_reinvestment,
            lifetime_hub_seeds: self.lifetime_hub_seeds,
            unfunded_deficit: self.unfunded_deficit,
        }
    }
}

/// `bps` basis points of `amount`, rounded down; when `amount * bps` would
/// overflow, the amount is divided first.
pub open spec fn bps_share(amount: u128, bps: u128) -> int {
    if amount * bps <= u128::MAX {
        (amount * bps) / (BPS as int)
    } else {
        (amount / BPS) * bps
    }
}

/// Sum of the expenses of a sequence of reports.
pub open spec fn sum_expenses(rs: Seq<PeriodReport>) -> nat
    decreases rs.len(),
{
    if rs.len() == 0 {
        0
    } else {
        sum_expenses(rs.drop_last()) + rs.last().expenses as nat
    }
}

/// Sum of the amounts of a sequence of seeds.
pub open spec fn sum_seeds(ss: Seq<HubSeed>) -> nat
    decreases ss.len(),
{
    if ss.len() == 0 {
        0
    } else {
        sum_seeds(ss.drop_last()) + ss.last().amount as nat
    }
}

/// Number of trailing closed periods that the burn rate averages over.
pub open spec fn burn_window(n: nat) -> nat {
    if n < BURN_WINDOW_PERIODS { n } else { BURN_WINDOW_PERIODS as nat }
}

/// The last `burn_window` reports.
pub open spec fn burn_reports(rs: Seq<PeriodReport>) -> Seq<PeriodReport> {
    rs.subrange(rs.len() - burn_window(rs.len()), rs.len() as int)
}

/// Average monthly expenses: over the trailing year of closed periods, or the
/// open period's expenses when nothing has closed yet.
pub open spec fn average_burn(rs: Seq<PeriodReport>, open_expenses: u128) -> nat {
    if rs.len() == 0 {
        open_expenses as nat
    } else {
        sum_expenses(burn_reports(rs)) / burn_window(rs.len())
    }
}

/// Months that reserves last at `burn`; unlimited (`u128::MAX`) without burn.
pub open spec fn runway_of(reserves: u128, burn: nat) -> nat {
    if burn == 0 {
        u128::MAX as nat
    } else {
        reserves as nat / burn
    }
}

/// Health from unpaid debt and runway.
pub open spec fn health_from(reserves: u128, unfunded: u128, burn: nat) -> FiscalHealth {
    if unfunded > 0 {
        FiscalHealth::Insolvent
    } else if runway_of(reserves, burn) < MIN_RUNWAY_MONTHS {
        FiscalHealth::Critical
    } else if runway_of(reserves, burn) < TARGET_RUNWAY_MONTHS {
        FiscalHealth::Rebuilding
    } else {
        FiscalHealth::Healthy
    }
}

/// Split of a post-fee surplus by the health judged before the period closed:
/// (members, reinvestment, expansion, reserves).
pub open spec fn split_post_fee(pre: FiscalHealth, post: u128) -> (int, int, int, int) {
    match pre {
        FiscalHealth::Insolvent => (0, 0, 0, post as int),
        FiscalHealth::Critical => (0, 0, 0, post as int),
        FiscalHealth::Rebuilding => {
            let to_reserves = bps_share(post, REBUILD_RESERVE_BPS);
            let flow_on = post - to_reserves;
            let members = flow_on / 2;
            (members, flow_on - members, 0, to_reserves)
        },
        FiscalHealth::Healthy => {
            let members = bps_share(post, MEMBER_BPS);
            let reinvest = bps_share(post, REINVEST_BPS);
            let expansion = bps_share(post, EXPANSION_BPS);
            (members, reinvest, expansion, post - members - reinvest - expansion)
        },
    }
}

/// Twelve months of `burn`, saturating at `u128::MAX`.
pub open spec fn reserve_cap(burn: nat) -> nat {
    if burn * RESERVE_CAP_MONTHS <= u128::MAX {
        burn * (RESERVE_CAP_MONTHS as nat)
    } else {
        u128::MAX as nat
    }
}

pub open spec fn min_int(a: int, b: int) -> int {
    if a <= b { a } else { b }
}

pub open spec fn max_int(a: int, b: int) -> int {
    if a >= b { a } else { b }
}

/// A closed period that was both profitable and Healthy.
pub open spec fn proven_period(r: PeriodReport) -> bool {
    r.surplus > 0 && r.health_after == FiscalHealth::Healthy
}

impl FiscalState {
    /// The state after `amount` of revenue was recorded.
    pub open spec fn with_revenue(self, amount: u128) -> FiscalState {
        FiscalState {
            open_revenue: (self.open_revenue + amount) as u128,
            lifetime_revenue: (self.lifetime_revenue + amount) as u128,
            ..self
        }
    }

    /// The state after an `amount` of expense was recorded.
    pub open spec fn with_expense(self, amount: u128) -> FiscalState {
        FiscalState { open_expenses: (self.open_expenses + amount) as u128, ..self }
    }

    /// The state after `seed` left the expansion fund.
    pub open spec fn after_seed(self, seed: HubSeed) -> FiscalState {
        FiscalState {
            expansion_fund: (self.expansion_fund - seed.amount) as u128,
            lifetime_hub_seeds: (self.lifetime_hub_seeds + seed.amount) as u128,
            seeds: self.seeds.push(seed),
            ..self
        }
    }

    /// The exact conservation identity, plus: unpaid debt means empty
    /// reserves, reports are numbered in order, and the seed counter is the
    /// sum of the seeds.
    pub open spec fn wf(self) -> bool {
        &&& self.lifetime_revenue as int == self.lifetime_expenses_paid + self.lifetime_founder_fees
            + self.lifetime_member_distributions + self.lifetime_reinvestment
            + self.lifetime_hub_seeds + self.reserves + self.expansion_fund + self.open_revenue
        &&& self.unfunded_deficit > 0 ==> self.reserves == 0
        &&& self.reports.len() <= usize::MAX
        &&& forall|i: int| 0 <= i < self.reports.len() ==> (#[trigger] self.reports[i]).period_index == i
        &&& self.lifetime_hub_seeds == sum_seeds(self.seeds)
    }

    /// The burn rate that runway is measured against.
    pub open spec fn burn(self) -> nat {
        average_burn(self.reports, self.open_expenses)
    }

    pub open spec fn runway(self) -> nat {
        runway_of(self.reserves, self.burn())
    }

    pub open spec fn health(self) -> FiscalHealth {
        health_from(self.reserves, self.unfunded_deficit, self.burn())
    }

    /// The report that closing the open period produces.
    pub open spec fn close_report(self) -> PeriodReport {
        let rev = self.open_revenue as int;
        let exp = self.open_expenses as int;
        let pre = self.health();
        let closed_burn = average_burn(self.reports, 0);
        if rev >= exp {
            let gross = rev - exp;
            let repaid = min_int(gross, self.unfunded_deficit as int);
            let surplus = gross - repaid;
            let fee = bps_share(surplus as u128, FOUNDER_FEE_BPS);
            let post = surplus - fee;
            let split = split_post_fee(pre, post as u128);
            let reserves1 = self.reserves + split.3;
            let burn = max_int(closed_burn as int, exp);
            let cap = reserve_cap(burn as nat);
            let overflow = if burn > 0 && reserves1 > cap { reserves1 - cap } else { 0 };
            let reserves2 = reserves1 - overflow;
            let fund2 = self.expansion_fund + split.2 + overflow;
            let unfunded2 = self.unfunded_deficit - repaid;
            PeriodReport {
                period_index: self.reports.len() as usize,
                revenue: self.open_revenue,
                expenses: self.open_expenses,
                surplus: surplus as u128,
                deficit: 0,
                reserves_drawn: 0,
                unfunded_deficit: 0,
                debt_repaid: repaid as u128,
                founder_fee: fee as u128,
                member_distribution: split.0 as u128,
                local_reinvestment: split.1 as u128,
                expansion_deposit: split.2 as u128,
                reserve_deposit: split.3 as u128,
                reserve_overflow_to_expansion: overflow as u128,
                reserves_after: reserves2 as u128,
                expansion_fund_after: fund2 as u128,
                health_after: health_from(reserves2 as u128, unfunded2 as u128, closed_burn),
            }
        } else {
            let deficit = exp - rev;
            let drawn = min_int(deficit, self.reserves as int);
            let unfunded = deficit - drawn;
            let reserves2 = self.reserves - drawn;
            let unfunded2 = self.unfunded_deficit + unfunded;
            PeriodReport {
                period_index: self.reports.len() as usize,
                revenue: self.open_revenue,
                expenses: self.open_expenses,
                surplus: 0,
                deficit: deficit as u128,
                reserves_drawn: drawn as u128,
                unfunded_deficit: unfunded as u128,
                debt_repaid: 0,
                founder_fee: 0,
                member_distribution: 0,
                local_reinvestment: 0,
                expansion_deposit: 0,
                reserve_deposit: 0,
                reserve_overflow_to_expansion: 0,
                reserves_after: reserves2 as u128,
                expansion_fund_after: self.expansion_fund,
                health_after: health_from(reserves2 as u128, unfunded2 as u128, closed_burn),
            }
        }
    }

    /// Closing fits the machine: there is room for one more report, and a
    /// loss cannot push unpaid debt past `u128::MAX`.
    pub open spec fn close_fits(self) -> bool {
        &&& self.reports.len() < usize::MAX
        &&& self.open_revenue >= self.open_expenses || self.unfunded_deficit + (
        self.open_expenses - self.open_revenue) - min_int(
            self.open_expenses - self.open_revenue,
            self.reserves as int,
        ) <= u128::MAX
    }

    /// The state after closing the open period.
    pub open spec fn after_close(self) -> FiscalState {
        let rep = self.close_report();
        FiscalState {
            reserves: rep.reserves_after,
            expansion_fund: rep.expansion_fund_after,
            open_revenue: 0,
            open_expenses: 0,
            reports: self.reports.push(rep),
            seeds: self.seeds,
            lifetime_revenue: self.lifetime_revenue,
            lifetime_expenses_paid: (self.lifetime_expenses_paid + min_int(
                self.open_revenue as int,
                self.open_expenses as int,
            ) + rep.debt_repaid + rep.reserves_drawn) as u128,
            lifetime_founder_fees: (self.lifetime_founder_fees + rep.founder_fee) as u128,
            lifetime_member_distributions: (self.lifetime_member_distributions
                + rep.member_distribution) as u128,
            lifetime_reinvestment: (self.lifetime_reinvestment + rep.local_reinvestment) as u128,
            lifetime_hub_seeds: self.lifetime_hub_seeds,
            unfunded_deficit: (self.unfunded_deficit - rep.debt_repaid
                + rep.unfunded_deficit) as u128,
        }
    }

    /// Why seeding a hub at `cost` is refused, checked in this order; `None`
    /// when it is allowed.
    pub open spec fn seed_refusal(self, cost: u128) -> Option<FiscalError> {
        let n = self.reports.len();
        if cost == 0 {
            Some(FiscalError::ZeroSeedCost)
        } else if self.health() != FiscalHealth::Healthy {
            Some(FiscalError::NotHealthy(self.health()))
        } else if n < SEED_TRACK_RECORD_PERIODS {
            Some(
                FiscalError::TrackRecordTooShort {
                    required: SEED_TRACK_RECORD_PERIODS,
                    have: n as usize,
                },
            )
        } else if !(forall|i: int|
            n - SEED_TRACK_RECORD_PERIODS <= i < n ==> proven_period(#[trigger] self.reports[i])) {
            Some(FiscalError::TrackRecordBroken)
        } else if cost > self.expansion_fund {
            Some(FiscalError::InsufficientExpansionFund { fund: self.expansion_fund, cost })
        } else {
            None
        }
    }
}


/// `bps_share` never exceeds the amount for rates up to 100%, and rounds down.
proof fn lemma_bps_share_bounds(a: u128, b: u128)
    requires
        b <= BPS,
    ensures
        0 <= bps_share(a, b) <= a,
        bps_share(a, b) * (BPS as int) <= a * b,
        a * b <= u128::MAX || (a / BPS) * b <= u128::MAX,
{
    let s = bps_share(a, b);
    let q = a / BPS;
    assert(q * 10000 <= a && q >= 0) by (nonlinear_arith)
        requires
            q == a / 10000,
            a >= 0,
    ;
    if a * b <= u128::MAX {
        let x = a * b;
        assert(s * 10000 <= x && s >= 0) by (nonlinear_arith)
            requires
                s == x / 10000,
                x >= 0,
        ;
    } else {
        assert(s * 10000 <= a * b && s >= 0 && s <= a) by (nonlinear_arith)
            requires
                s == q * b,
                q * 10000 <= a,
                q >= 0,
                0 <= b <= 10000,
        ;
    }
    assert(s <= a) by (nonlinear_arith)
        requires
            s * 10000 <= a * b,
            0 <= b <= 10000,
            a >= 0,
    ;
}

/// `bps` basis points of `amount`, rounded down, without overflow.
pub fn bps_of(amount: u128, bps: u128) -> (r: u128)
    requires
        amount * bps <= u128::MAX || (amount / BPS) * bps <= u128::MAX,
    ensures
        r == bps_share(amount, bps),
{
    match amount.checked_mul(bps) {
        Some(x) => x / BPS,
        None => (amount / BPS) * bps,
    }
}

/// A sum of expenses is at most `u128::MAX` per report.
proof fn lemma_sum_expenses_bound(rs: Seq<PeriodReport>)
    ensures
        sum_expenses(rs) <= rs.len() * (u128::MAX as nat),
    decreases rs.len(),
{
    if rs.len() > 0 {
        lemma_sum_expenses_bound(rs.drop_last());
    }
}

/// The average burn always fits in `u128`.
proof fn lemma_average_burn_fits(rs: Seq<PeriodReport>, open_expenses: u128)
    ensures
        average_burn(rs, open_expenses) <= u128::MAX,
{
    if rs.len() > 0 {
        let w = burn_reports(rs);
        let k = burn_window(rs.len());
        lemma_sum_expenses_bound(w);
        let t = sum_expenses(w);
        assert(t / k <= u128::MAX) by (nonlinear_arith)
            requires
                t <= k * (u128::MAX as nat),
                k > 0,
        ;
    }
}

/// The four parts of a split are non-negative and add up to the post-fee surplus.
proof fn lemma_split_sums(pre: FiscalHealth, post: u128)
    ensures
        split_post_fee(pre, post).0 >= 0,
        split_post_fee(pre, post).1 >= 0,
        split_post_fee(pre, post).2 >= 0,
        split_post_fee(pre, post).3 >= 0,
        split_post_fee(pre, post).0 + split_post_fee(pre, post).1 + split_post_fee(pre, post).2
            + split_post_fee(pre, post).3 == post,
{
    lemma_bps_share_bounds(post, REBUILD_RESERVE_BPS);
    lemma_bps_share_bounds(post, MEMBER_BPS);
    lemma_bps_share_bounds(post, REINVEST_BPS);
    lemma_bps_share_bounds(post, EXPANSION_BPS);
}

/// Split a post-fee surplus by pre-close health; the four parts add up to it.
fn allocate_surplus(pre: FiscalHealth, post: u128) -> (r: (u128, u128, u128, u128))
    ensures
        r.0 == split_post_fee(pre, post).0,
        r.1 == split_post_fee(pre, post).1,
        r.2 == split_post_fee(pre, post).2,
        r.3 == split_post_fee(pre, post).3,
        r.0 + r.1 + r.2 + r.3 == post,
{
    match pre {
        FiscalHealth::Insolvent => (0, 0, 0, post),
        FiscalHealth::Critical => (0, 0, 0, post),
        FiscalHealth::Rebuilding => {
            proof {
                lemma_bps_share_bounds(post, REBUILD_RESERVE_BPS);
            }
            let to_reserves = bps_of(post, REBUILD_RESERVE_BPS);
            let flow_on = post - to_reserves;
            let members = flow_on / 2;
            let reinvest = flow_on - members;
            (members, reinvest, 0, to_reserves)
        },
        FiscalHealth::Healthy => {
            proof {
                lemma_bps_share_bounds(post, MEMBER_BPS);
                lemma_bps_share_bounds(post, REINVEST_BPS);
                lemma_bps_share_bounds(post, EXPANSION_BPS);
            }
            let members = bps_of(post, MEMBER_BPS);
            let reinvest = bps_of(post, REINVEST_BPS);
            let expansion = bps_of(post, EXPANSION_BPS);
            let to_reserves = post - members - reinvest - expansion;
            (members, reinvest, expansion, to_reserves)
        },
    }
}

impl FiscalEngine {
    /// A fresh engine: no money, no history.
    pub fn new() -> (r: Result<FiscalEngine, FiscalError>)
        ensures
            r matches Ok(e) && e@.wf() && e@ == FiscalEngine::empty_state(),
    {
        Ok(
            FiscalEngine {
                reserves: 0,
                expansion_fund: 0,
                open_revenue: 0,
                open_expenses: 0,
                reports: Vec::new(),
                seeds: Vec::new(),
                lifetime_revenue: 0,
                lifetime_expenses_paid: 0,
                lifetime_founder_fees: 0,
                lifetime_member_distributions: 0,
                lifetime_reinvestment: 0,
                lifetime_hub_seeds: 0,
                unfunded_deficit: 0,
            },
        )
    }

    /// The state of a fresh engine.
    pub open spec fn empty_state() -> FiscalState {
        FiscalState {
            reserves: 0,
            expansion_fund: 0,
            open_revenue: 0,
            open_expenses: 0,
            reports: Seq::empty(),
            seeds: Seq::empty(),
            lifetime_revenue: 0,
            lifetime_expenses_paid: 0,
            lifetime_founder_fees: 0,
            lifetime_member_distributions: 0,
            lifetime_reinvestment: 0,
            lifetime_hub_seeds: 0,
            unfunded_deficit: 0,
        }
    }

    /// Record revenue for the open period. Refused, changing nothing, when the
    /// lifetime revenue would exceed `u128::MAX`.
    pub fn record_revenue(&mut self, amount: u128) -> (r: Result<(), FiscalError>)
        requires
            old(self)@.wf(),
        ensures
            final(self)@.wf(),
            old(self)@.lifetime_revenue + amount <= u128::MAX ==> r is Ok && final(self)@
                == old(self)@.with_revenue(amount),
            old(self)@.lifetime_revenue + amount > u128::MAX ==> r == Err::<(), FiscalError>(
                FiscalError::RevenueOverflow,
            ) && final(self)@ == old(self)@,
    {
        match self.lifetime_revenue.checked_add(amount) {
            Some(total) => {
                self.open_revenue = self.open_revenue + amount;
                self.lifetime_revenue = total;
                Ok(())
            },
            None => Err(FiscalError::RevenueOverflow),
        }
    }

    /// Record an operating expense for the open period. Refused, changing
    /// nothing, when the open period's expenses would exceed `u128::MAX`.
    pub fn record_expense(&mut self, amount: u128) -> (r: Result<(), FiscalError>)
        requires
            old(self)@.wf(),
        ensures
            final(self)@.wf(),
            old(self)@.open_expenses + amount <= u128::MAX ==> r is Ok && final(self)@
                == old(self)@.with_expense(amount),
            old(self)@.open_expenses + amount > u128::MAX ==> r == Err::<(), FiscalError>(
                FiscalError::ExpenseOverflow,
            ) && final(self)@ == old(self)@,
    {
        match self.open_expenses.checked_add(amount) {
            Some(total) => {
                self.open_expenses = total;
                Ok(())
            },
            None => Err(FiscalError::ExpenseOverflow),
        }
    }

    /// Average monthly operating expenses over the trailing year of closed
    /// periods (or the open period's expenses when none has closed).
    pub fn average_monthly_expenses(&self) -> (r: u128)
        ensures
            r == self@.burn(),
    {
        let n = self.reports.len();
        if n == 0 {
            return self.open_expenses;
        }
        let k: usize = if n < BURN_WINDOW_PERIODS { n } else { BURN_WINDOW_PERIODS };
        let kk: u128 = k as u128;
        let start: usize = n - k;
        let ghost rs = self.reports@;
        let mut quotient: u128 = 0;
        let mut remainder: u128 = 0;
        let mut i: usize = start;
        while i < n
            invariant
                rs == self.reports@,
                n == rs.len(),
                k == burn_window(n as nat),
                kk == k,
                0 < k <= 12,
                start == n - k,
                start <= i <= n,
                quotient * kk + remainder == sum_expenses(rs.subrange(start as int, i as int)),
                quotient <= (i - start) * (u128::MAX / kk),
                remainder <= (i - start) * (kk - 1),
            decreases n - i,
        {
            let e = self.reports[i].expenses;
            let eq = e / kk;
            let er = e % kk;
            let j = i - start;
            assert(quotient + eq <= (j + 1) * (u128::MAX / kk) <= u128::MAX) by (nonlinear_arith)
                requires
                    quotient <= j * (u128::MAX / kk),
                    eq == e / kk,
                    e <= u128::MAX,
                    j + 1 <= kk,
                    kk > 0,
            ;
            assert(remainder + er <= (j + 1) * (kk - 1) <= 200) by (nonlinear_arith)
                requires
                    remainder <= j * (kk - 1),
                    er == e % kk,
                    0 < kk <= 12,
                    j + 1 <= kk,
            ;
            assert(eq * kk + er == e) by (nonlinear_arith)
                requires
                    eq == e / kk,
                    er == e % kk,
                    kk > 0,
            ;
            assert(rs.subrange(start as int, i + 1).drop_last() =~= rs.subrange(
                start as int,
                i as int,
            ));
            assert((quotient + eq) * kk == quotient * kk + eq * kk) by (nonlinear_arith);
            quotient = quotient + eq;
            remainder = remainder + er;
            i = i + 1;
        }
        proof {
            assert(rs.subrange(start as int, n as int) =~= burn_reports(rs));
            vstd::arithmetic::div_mod::lemma_hoist_over_denominator(
                remainder as int,
                quotient as int,
                kk as nat,
            );
            assert(remainder / kk <= 200) by (nonlinear_arith)
                requires
                    remainder <= (n - start) * (kk - 1),
                    n - start == kk,
                    0 < kk <= 12,
            ;
            lemma_average_burn_fits(rs, self.open_expenses);
        }
        quotient + remainder / kk
    }

    /// Months of runway at the current burn; `u128::MAX` without burn.
    pub fn runway_months(&self) -> (r: u128)
        ensures
            r == self@.runway(),
    {
        let burn = self.average_monthly_expenses();
        if burn == 0 {
            return u128::MAX;
        }
        self.reserves / burn
    }

    /// Fiscal health: Insolvent with unpaid debt, else by runway.
    pub fn health(&self) -> (h: FiscalHealth)
        ensures
            h == self@.health(),
    {
        if self.unfunded_deficit > 0 {
            return FiscalHealth::Insolvent;
        }
        let runway = self.runway_months();
        if runway < MIN_RUNWAY_MONTHS {
            FiscalHealth::Critical
        } else if runway < TARGET_RUNWAY_MONTHS {
            FiscalHealth::Rebuilding
        } else {
            FiscalHealth::Healthy
        }
    }

    /// Close the open period and run the allocation waterfall.
    ///
    /// Loss: reserves cover what they can; the rest becomes unpaid debt; no
    /// fee, no distribution. Surplus: past debt is settled first, then the 1%
    /// founder fee, then the split by the health judged before the period
    /// closed; reserves above twelve months of burn overflow into expansion.
    #[verifier::rlimit(50)]
    pub fn close_period(&mut self) -> (r: Result<PeriodReport, FiscalError>)
        requires
            old(self)@.wf(),
            old(self)@.close_fits(),
        ensures
            r == Ok::<PeriodReport, FiscalError>(old(self)@.close_report()),
            final(self)@ == old(self)@.after_close(),
            final(self)@.wf(),
    {
        let ghost s0 = self@;
        let revenue = self.open_revenue;
        let expenses = self.open_expenses;
        let pre_health = self.health();
        self.open_revenue = 0;
        self.open_expenses = 0;
        let period_index = self.reports.len();
        let ghost closed_burn = average_burn(s0.reports, 0);
        assert(self@.burn() == closed_burn);
        let mut report = PeriodReport {
            period_index,
            revenue,
            expenses,
            surplus: 0,
            deficit: 0,
            reserves_drawn: 0,
            unfunded_deficit: 0,
            debt_repaid: 0,
            founder_fee: 0,
            member_distribution: 0,
            local_reinvestment: 0,
            expansion_deposit: 0,
            reserve_deposit: 0,
            reserve_overflow_to_expansion: 0,
            reserves_after: 0,
            expansion_fund_after: 0,
            health_after: FiscalHealth::Critical,
        };
        if revenue >= expenses {
            let gross = revenue - expenses;
            self.lifetime_expenses_paid = self.lifetime_expenses_paid + expenses;
            let repaid = if gross < self.unfunded_deficit {
                gross
            } else {
                self.unfunded_deficit
            };
            let surplus = gross - repaid;
            self.unfunded_deficit = self.unfunded_deficit - repaid;
            self.lifetime_expenses_paid = self.lifetime_expenses_paid + repaid;
            report.debt_repaid = repaid;
            report.surplus = surplus;
            proof {
                lemma_bps_share_bounds(surplus, FOUNDER_FEE_BPS);
            }
            let fee = bps_of(surplus, FOUNDER_FEE_BPS);
            let post_fee = surplus - fee;
            report.founder_fee = fee;
            self.lifetime_founder_fees = self.lifetime_founder_fees + fee;
            let (members, reinvest, expansion, to_reserves) = allocate_surplus(
                pre_health,
                post_fee,
            );
            report.member_distribution = members;
            report.local_reinvestment = reinvest;
            report.expansion_deposit = expansion;
            report.reserve_deposit = to_reserves;
            self.lifetime_member_distributions = self.lifetime_member_distributions + members;
            self.lifetime_reinvestment = self.lifetime_reinvestment + reinvest;
            self.expansion_fund = self.expansion_fund + expansion;
            self.reserves = self.reserves + to_reserves;
            let average = self.average_monthly_expenses();
            let burn = if average >= expenses {
                average
            } else {
                expenses
            };
            if burn > 0 {
                let cap = match burn.checked_mul(RESERVE_CAP_MONTHS) {
                    Some(c) => c,
                    None => u128::MAX,
                };
                if self.reserves > cap {
                    let overflow = self.reserves - cap;
                    self.reserves = cap;
                    self.expansion_fund = self.expansion_fund + overflow;
                    report.reserve_overflow_to_expansion = overflow;
                }
            }
        } else {
            let deficit = expenses - revenue;
            report.deficit = deficit;
            let drawn = if deficit < self.reserves {
                deficit
            } else {
                self.reserves
            };
            self.reserves = self.reserves - drawn;
            report.reserves_drawn = drawn;
            self.lifetime_expenses_paid = self.lifetime_expenses_paid + revenue + drawn;
            let unfunded = deficit - drawn;
            report.unfunded_deficit = unfunded;
            self.unfunded_deficit = self.unfunded_deficit + unfunded;
        }
        report.reserves_after = self.reserves;
        report.expansion_fund_after = self.expansion_fund;
        report.health_after = self.health();
        assert(report == s0.close_report());
        self.reports.push(report);
        proof {
            assert(self@.reports =~= s0.reports.push(report));
            assert(self@ == s0.after_close());
        }
        Ok(report)
    }

    /// Seed a new hub from the expansion fund, under the id `id`.
    ///
    /// Allowed only when the seed costs something, the hub is Healthy now,
    /// the last `SEED_TRACK_RECORD_PERIODS` closed periods were all profitable
    /// and Healthy, and the expansion fund covers the cost. Reserves are never
    /// touched; a refusal changes nothing.
    pub fn try_seed_hub_with_id(&mut self, seed_cost: u128, id: u128) -> (r: Result<
        HubSeed,
        FiscalError,
    >)
        requires
            old(self)@.wf(),
        ensures
            final(self)@.wf(),
            match r {
                Ok(seed) => {
                    &&& old(self)@.seed_refusal(seed_cost) is None
                    &&& seed == HubSeed {
                        id,
                        amount: seed_cost,
                        funded_after_period: old(self)@.reports.len() as usize,
                    }
                    &&& final(self)@ == old(self)@.after_seed(seed)
                },
                Err(e) => old(self)@.seed_refusal(seed_cost) == Some(e) && final(self)@ == old(self)@,
            },
    {
        if seed_cost == 0 {
            return Err(FiscalError::ZeroSeedCost);
        }
        let health = self.health();
        if health != FiscalHealth::Healthy {
            return Err(FiscalError::NotHealthy(health));
        }
        let n = self.reports.len();
        if n < SEED_TRACK_RECORD_PERIODS {
            return Err(
                FiscalError::TrackRecordTooShort { required: SEED_TRACK_RECORD_PERIODS, have: n },
            );
        }
        let mut i = n - SEED_TRACK_RECORD_PERIODS;
        while i < n
            invariant
                self@ == old(self)@,
                self@.wf(),
                seed_cost != 0,
                self@.health() == FiscalHealth::Healthy,
                n == self.reports@.len(),
                n >= SEED_TRACK_RECORD_PERIODS,
                n - SEED_TRACK_RECORD_PERIODS <= i <= n,
                forall|j: int|
                    n - SEED_TRACK_RECORD_PERIODS <= j < i ==> proven_period(
                        #[trigger] self.reports@[j],
                    ),
            decreases n - i,
        {
            let rep = self.reports[i];
            if !(rep.surplus > 0 && rep.health_after == FiscalHealth::Healthy) {
                return Err(FiscalError::TrackRecordBroken);
            }
            i = i + 1;
        }
        if seed_cost > self.expansion_fund {
            return Err(
                FiscalError::InsufficientExpansionFund { fund: self.expansion_fund, cost: seed_cost },
            );
        }
        self.expansion_fund = self.expansion_fund - seed_cost;
        self.lifetime_hub_seeds = self.lifetime_hub_seeds + seed_cost;
        let seed = HubSeed { id, amount: seed_cost, funded_after_period: n };
        let ghost before = self.seeds@;
        self.seeds.push(seed);
        proof {
            assert(self.seeds@.drop_last() =~= before);
        }
        Ok(seed)
    }

    /// Seed a new hub from the expansion fund under a fresh random id; see
    /// `try_seed_hub_with_id` for when it is allowed.
    pub fn try_seed_hub(&mut self, seed_cost: u128) -> (r: Result<HubSeed, FiscalError>)
        requires
            old(self)@.wf(),
        ensures
            final(self)@.wf(),
            match r {
                Ok(seed) => {
                    &&& old(self)@.seed_refusal(seed_cost) is None
                    &&& seed.amount == seed_cost
                    &&& seed.funded_after_period == old(self)@.reports.len() as usize
                    &&& final(self)@ == old(self)@.after_seed(seed)
                },
                Err(e) => old(self)@.seed_refusal(seed_cost) == Some(e) && final(self)@ == old(self)@,
            },
    {
        let id = generate_id();
        self.try_seed_hub_with_id(seed_cost, id)
    }

    /// Exact conservation audit of the engine's books.
    pub fn audit(&self) -> (a: ConservationAudit)
        requires
            self@.wf(),
        ensures
            a.conserved,
            a == (ConservationAudit {
                lifetime_revenue: self@.lifetime_revenue,
                lifetime_expenses_paid: self@.lifetime_expenses_paid,
                lifetime_founder_fees: self@.lifetime_founder_fees,
                lifetime_member_distributions: self@.lifetime_member_distributions,
                lifetime_reinvestment: self@.lifetime_reinvestment,
                lifetime_hub_seeds: self@.lifetime_hub_seeds,
                reserves_held: self@.reserves,
                expansion_fund_held: self@.expansion_fund,
                unfunded_deficit: self@.unfunded_deficit,
                conserved: true,
            }),
    {
        let out = self.lifetime_expenses_paid + self.lifetime_founder_fees
            + self.lifetime_member_distributions + self.lifetime_reinvestment
            + self.lifetime_hub_seeds;
        let held = self.reserves + self.expansion_fund;
        let conserved = self.lifetime_revenue == out + held + self.open_revenue;
        ConservationAudit {
            lifetime_revenue: self.lifetime_revenue,
            lifetime_expenses_paid: self.lifetime_expenses_paid,
            lifetime_founder_fees: self.lifetime_founder_fees,
            lifetime_member_distributions: self.lifetime_member_distributions,
            lifetime_reinvestment: self.lifetime_reinvestment,
            lifetime_hub_seeds: self.lifetime_hub_seeds,
            reserves_held: self.reserves,
            expansion_fund_held: self.expansion_fund,
            unfunded_deficit: self.unfunded_deficit,
            conserved,
        }
    }

    pub fn reserves(&self) -> (r: u128)
        ensures
            r == self@.reserves,
    {
        self.reserves
    }

    pub fn expansion_fund(&self) -> (r: u128)
        ensures
            r == self@.expansion_fund,
    {
        self.expansion_fund
    }

    pub fn reports(&self) -> (r: &[PeriodReport])
        ensures
            r@ == self@.reports,
    {
        self.reports.as_slice()
    }

    pub fn seeds(&self) -> (r: &[HubSeed])
        ensures
            r@ == self@.seeds,
    {
        self.seeds.as_slice()
    }
}


/// A Healthy hub's post-fee surplus goes half to members, a fifth to local
/// reinvestment and a tenth to the expansion fund, each rounded down (for
/// any surplus small enough that the products fit a `u128`).
pub proof fn lemma_healthy_split_shares(post: u128)
    requires
        post * 5000 <= u128::MAX,
    ensures
        split_post_fee(FiscalHealth::Healthy, post).0 == post * 5000 / 10000,
        split_post_fee(FiscalHealth::Healthy, post).1 == post * 2000 / 10000,
        split_post_fee(FiscalHealth::Healthy, post).2 == post * 1000 / 10000,
        split_post_fee(FiscalHealth::Healthy, post).3 == post - post * 5000 / 10000 - post * 2000
            / 10000 - post * 1000 / 10000,
{
}

/// Closing a profitable period of a hub that was Healthy going in pays
/// members half of the surplus left after the founder's fee, puts a fifth
/// into local reinvestment and a tenth into the expansion fund, each
/// rounded down.
pub proof fn lemma_healthy_hub_distributes(s: FiscalState)
    requires
        s.wf(),
        s.health() == FiscalHealth::Healthy,
        s.open_revenue >= s.open_expenses,
    ensures
        ({
            let rep = s.close_report();
            let post = rep.surplus - rep.founder_fee;
            &&& 0 <= post
            &&& post * 5000 <= u128::MAX ==> {
                &&& rep.member_distribution == post * 5000 / 10000
                &&& rep.local_reinvestment == post * 2000 / 10000
                &&& rep.expansion_deposit == post * 1000 / 10000
            }
        }),
{
    lemma_close_report_shape(s);
    let rep = s.close_report();
    let post = rep.surplus - rep.founder_fee;
    if post * 5000 <= u128::MAX {
        lemma_healthy_split_shares(post as u128);
    }
}

/// Earned expansion: if any of the last three closed periods was a loss or
/// ended short of Healthy, no seed is granted; a positive seed asked by a
/// Healthy hub with at least three closed periods is refused as a broken
/// track record.
pub proof fn lemma_broken_record_refuses_seed(s: FiscalState, cost: u128, k: int)
    requires
        s.reports.len() >= 3,
        s.reports.len() - 3 <= k < s.reports.len(),
        !(s.reports[k].surplus > 0 && s.reports[k].health_after == FiscalHealth::Healthy),
    ensures
        s.seed_refusal(cost) is Some,
        cost > 0 && s.health() == FiscalHealth::Healthy ==> s.seed_refusal(cost) == Some(
            FiscalError::TrackRecordBroken,
        ),
{
    assert(!proven_period(s.reports[k]));
}

/// A seed is granted only after three profitable, Healthy periods in a row:
/// whenever seeding is allowed, each of the last three closed periods had a
/// surplus and ended Healthy.
pub proof fn lemma_granted_seed_has_record(s: FiscalState, cost: u128)
    requires
        s.seed_refusal(cost) is None,
    ensures
        cost > 0,
        s.health() == FiscalHealth::Healthy,
        s.reports.len() >= 3,
        cost <= s.expansion_fund,
        forall|k: int|
            s.reports.len() - 3 <= k < s.reports.len() ==> #[trigger] s.reports[k].surplus > 0
                && s.reports[k].health_after == FiscalHealth::Healthy,
{
    assert forall|k: int| s.reports.len() - 3 <= k < s.reports.len() implies #[trigger] s.reports[k].surplus > 0
        && s.reports[k].health_after == FiscalHealth::Healthy by {
        assert(proven_period(s.reports[k]));
    }
}

impl Default for FiscalEngine {
    fn default() -> (e: FiscalEngine)
        ensures
            e@.wf(),
            e@ == FiscalEngine::empty_state(),
    {
        FiscalEngine {
            reserves: 0,
            expansion_fund: 0,
            open_revenue: 0,
            open_expenses: 0,
            reports: Vec::new(),
            seeds: Vec::new(),
            lifetime_revenue: 0,
            lifetime_expenses_paid: 0,
            lifetime_founder_fees: 0,
            lifetime_member_distributions: 0,
            lifetime_reinvestment: 0,
            lifetime_hub_seeds: 0,
            unfunded_deficit: 0,
        }
    }
}


/// Facts about a closing report that hold of every well-formed state: the
/// surplus split is non-negative and the waterfall's amounts are in range.
proof fn lemma_close_report_shape(s: FiscalState)
    requires
        s.wf(),
    ensures
        s.open_revenue >= s.open_expenses ==> {
            let gross = s.open_revenue - s.open_expenses;
            let repaid = min_int(gross, s.unfunded_deficit as int);
            let surplus = gross - repaid;
            let fee = bps_share(surplus as u128, FOUNDER_FEE_BPS);
            &&& 0 <= fee <= surplus
            &&& fee * 10000 <= surplus * 100
        },
{
    if s.open_revenue >= s.open_expenses {
        let gross = s.open_revenue - s.open_expenses;
        let repaid = min_int(gross, s.unfunded_deficit as int);
        let surplus = gross - repaid;
        lemma_bps_share_bounds(surplus as u128, FOUNDER_FEE_BPS);
        lemma_split_sums(s.health(), (surplus - bps_share(surplus as u128, FOUNDER_FEE_BPS)) as u128);
    }
}

/// Waterfall exactness: a closed period's surplus is split with no unit lost
/// or minted: fee + members + reinvestment + expansion + reserves == surplus.
pub proof fn lemma_close_partitions_surplus(s: FiscalState)
    requires
        s.wf(),
    ensures
        ({
            let rep = s.close_report();
            rep.founder_fee + rep.member_distribution + rep.local_reinvestment
                + rep.expansion_deposit + rep.reserve_deposit == rep.surplus
        }),
{
    lemma_close_report_shape(s);
    if s.open_revenue >= s.open_expenses {
        let gross = s.open_revenue - s.open_expenses;
        let repaid = min_int(gross, s.unfunded_deficit as int);
        let surplus = gross - repaid;
        let fee = bps_share(surplus as u128, FOUNDER_FEE_BPS);
        lemma_split_sums(s.health(), (surplus - fee) as u128);
    }
}

/// Costs come first: a loss-making period pays no fee and distributes
/// nothing; it has no surplus and repays no debt.
pub proof fn lemma_loss_pays_nobody(s: FiscalState)
    requires
        s.wf(),
    ensures
        ({
            let rep = s.close_report();
            rep.deficit > 0 ==> {
                &&& rep.surplus == 0
                &&& rep.founder_fee == 0
                &&& rep.member_distribution == 0
                &&& rep.local_reinvestment == 0
                &&& rep.expansion_deposit == 0
                &&& rep.reserve_deposit == 0
                &&& rep.debt_repaid == 0
            }
        }),
{
}

/// Debts before profit: past unpaid obligations are settled out of the gross
/// surplus first, and while any remain the period shows no profit and pays no
/// fee.
pub proof fn lemma_debt_before_profit(s: FiscalState)
    requires
        s.wf(),
        s.close_fits(),
    ensures
        ({
            let rep = s.close_report();
            let after = s.after_close();
            &&& s.open_revenue >= s.open_expenses ==> rep.debt_repaid == min_int(
                s.open_revenue - s.open_expenses,
                s.unfunded_deficit as int,
            ) && rep.debt_repaid + rep.surplus == s.open_revenue - s.open_expenses
            &&& s.open_revenue >= s.open_expenses && after.unfunded_deficit > 0 ==> rep.surplus
                == 0 && rep.founder_fee == 0
        }),
{
    lemma_close_report_shape(s);
}

/// Survival before generosity: a hub that was Critical or Insolvent going
/// into the period banks its whole post-fee surplus in reserves.
pub proof fn lemma_struggling_hub_rebuilds_reserves(s: FiscalState)
    requires
        s.wf(),
        s.health() == FiscalHealth::Critical || s.health() == FiscalHealth::Insolvent,
    ensures
        ({
            let rep = s.close_report();
            &&& rep.member_distribution == 0
            &&& rep.local_reinvestment == 0
            &&& rep.expansion_deposit == 0
            &&& rep.reserve_deposit + rep.founder_fee == rep.surplus
        }),
{
    lemma_close_report_shape(s);
}

/// The founder's fee is 1% of the surplus, rounded down, and nothing else.
pub proof fn lemma_fee_is_one_percent_of_surplus(s: FiscalState)
    requires
        s.wf(),
    ensures
        ({
            let rep = s.close_report();
            &&& rep.founder_fee * 100 <= rep.surplus
            &&& rep.surplus * FOUNDER_FEE_BPS <= u128::MAX ==> rep.founder_fee == rep.surplus
                / 100
        }),
{
    lemma_close_report_shape(s);
    let rep = s.close_report();
    let sp = rep.surplus;
    if s.open_revenue >= s.open_expenses && sp * FOUNDER_FEE_BPS <= u128::MAX {
        assert((sp * 100) / 10000 == sp / 100) by (nonlinear_arith)
            requires
                sp >= 0,
        ;
    }
}

/// Prudence has a cap: after a surplus period, reserves never exceed twelve
/// months of burn (the larger of the trailing average and this period's
/// expenses), when there is any burn.
pub proof fn lemma_reserves_capped(s: FiscalState)
    requires
        s.wf(),
    ensures
        ({
            let rep = s.close_report();
            let burn = max_int(average_burn(s.reports, 0) as int, s.open_expenses as int);
            s.open_revenue >= s.open_expenses && burn > 0 ==> rep.reserves_after <= reserve_cap(
                burn as nat,
            )
        }),
{
    lemma_close_report_shape(s);
}

/// Exact conservation and the other state invariants survive closing a period.
pub proof fn lemma_close_preserves_invariants(s: FiscalState)
    requires
        s.wf(),
        s.close_fits(),
    ensures
        s.after_close().wf(),
{
    lemma_close_partitions_surplus(s);
    lemma_close_report_shape(s);
    let after = s.after_close();
    assert(after.seeds == s.seeds);
    assert forall|i: int| 0 <= i < after.reports.len() implies (
    #[trigger] after.reports[i]).period_index == i by {
        if i < s.reports.len() {
            assert(after.reports[i] == s.reports[i]);
        }
    }
}

/// Seeding keeps the books conserved and never touches reserves.
pub proof fn lemma_seed_preserves_invariants(s: FiscalState, seed: HubSeed)
    requires
        s.wf(),
        s.seed_refusal(seed.amount) is None,
    ensures
        s.after_seed(seed).wf(),
        s.after_seed(seed).reserves == s.reserves,
        s.after_seed(seed).expansion_fund + seed.amount == s.expansion_fund,
{
    assert(s.after_seed(seed).seeds.drop_last() =~= s.seeds);
}

/// Unpaid debt means reserves are exhausted: an Insolvent hub holds no
/// reserves.
pub proof fn lemma_insolvent_holds_no_reserves(s: FiscalState)
    requires
        s.wf(),
        s.health() == FiscalHealth::Insolvent,
    ensures
        s.reserves == 0,
{
}

} // verus!
