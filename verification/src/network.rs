//! The hub network: many fiscal engines, one family tree, growth only from
//! proven strength.
//!
//! Hubs are firewalled: an operation on one hub leaves every other hub as it
//! was, and the only money that moves between hubs is a seed, which leaves a
//! sponsor's expansion fund and arrives, unit for unit, as a child's capital.

use vstd::prelude::*;
use crate::economics::{
    FiscalEngine, FiscalError, FiscalHealth, FiscalState, PeriodReport, HubSeed, proven_period,
    sum_seeds, SEED_TRACK_RECORD_PERIODS,
};
use crate::utils::generate_id;

verus! {

/// A hub in the network: a fiscal engine plus its place in the family tree.
pub struct NetworkHub {
    pub id: u128,
    pub name: String,
    pub parent: Option<u128>,
    /// Root hubs are generation 0; a child is its parent's generation + 1.
    pub generation: u32,
    /// Capital received at founding from the sponsor's expansion fund.
    pub seed_capital: u128,
    pub engine: FiscalEngine,
}

/// How strongly a hub qualifies as an expansion sponsor.
#[derive(Debug, Clone, Copy, PartialEq, Eq)]
pub struct SponsorScore {
    pub hub_id: u128,
    /// Consecutive trailing closed periods that were profitable and Healthy.
    pub healthy_streak: usize,
    pub expansion_fund: u128,
}

/// Aggregate state of the whole network.
#[derive(Debug, Clone, Copy, PartialEq, Eq)]
pub struct NetworkReport {
    pub hubs: usize,
    pub generations: u32,
    pub healthy: usize,
    pub rebuilding: usize,
    pub critical: usize,
    pub insolvent: usize,
    pub total_reserves: u128,
    pub total_expansion_funds: u128,
}

/// Network-wide conservation audit.
#[derive(Debug, Clone, Copy, PartialEq, Eq)]
pub struct NetworkAudit {
    /// Every hub's own books conserve exactly.
    pub all_hubs_conserved: bool,
    /// Every unit that left a sponsor as a seed arrived as a child's capital.
    pub seeds_match_capital: bool,
    pub total_seed_outflow: u128,
    pub total_seed_capital: u128,
    pub conserved: bool,
}

/// Why the network refused an operation.
#[derive(Debug, Clone, Copy, PartialEq, Eq)]
pub enum NetworkError {
    /// No hub has this id.
    UnknownHub(u128),
    /// A hub with this id already exists.
    DuplicateHubId(u128),
    /// No hub currently qualifies to sponsor expansion.
    NoQualifiedSponsor,
    /// Qualified hubs exist, but none can afford the seed.
    SeedUnaffordable { cost: u128, best_fund: u128 },
    /// The hub's own engine refused.
    Fiscal(FiscalError),
}

pub struct HubNetwork {
    hubs: Vec<NetworkHub>,
    /// Hub ids in founding order (the order of `hubs`).
    order: Vec<u128>,
}

/// The position of the hub with id `id` (meaningful when there is one).
pub open spec fn index_of(hubs: Seq<NetworkHub>, id: u128) -> int {
    choose|i: int| 0 <= i < hubs.len() && hubs[i].id == id
}

pub open spec fn has_hub(hubs: Seq<NetworkHub>, id: u128) -> bool {
    exists|i: int| 0 <= i < hubs.len() && hubs[i].id == id
}

/// The network's structural invariant: every engine is well formed, ids are
/// distinct, and every parent was founded before its child, one generation
/// up.
pub open spec fn network_wf(hubs: Seq<NetworkHub>) -> bool {
    &&& forall|i: int| 0 <= i < hubs.len() ==> (#[trigger] hubs[i]).engine@.wf()
    &&& forall|i: int, j: int|
        0 <= i < hubs.len() && 0 <= j < hubs.len() && i != j ==> #[trigger] hubs[i].id
            != #[trigger] hubs[j].id
    &&& forall|i: int| 0 <= i < hubs.len() ==> parent_ok(hubs, i)
    &&& forall|i: int| 0 <= i < hubs.len() ==> (#[trigger] hubs[i]).generation <= i
    &&& total_seed_capital(hubs) == total_seed_outflow(hubs)
}

/// Hub `i` is a root of generation 0 without capital, or the child of an
/// earlier hub, one generation below it.
pub open spec fn parent_ok(hubs: Seq<NetworkHub>, i: int) -> bool {
    match hubs[i].parent {
        None => hubs[i].generation == 0 && hubs[i].seed_capital == 0,
        Some(p) => exists|j: int|
            0 <= j < i && #[trigger] hubs[j].id == p && hubs[i].generation == hubs[j].generation
                + 1,
    }
}

/// Sum of the founding capital of the hubs.
pub open spec fn total_seed_capital(hubs: Seq<NetworkHub>) -> nat
    decreases hubs.len(),
{
    if hubs.len() == 0 {
        0
    } else {
        total_seed_capital(hubs.drop_last()) + hubs.last().seed_capital as nat
    }
}

/// Sum of every seed that left any hub.
pub open spec fn total_seed_outflow(hubs: Seq<NetworkHub>) -> nat
    decreases hubs.len(),
{
    if hubs.len() == 0 {
        0
    } else {
        total_seed_outflow(hubs.drop_last()) + sum_seeds(hubs.last().engine@.seeds)
    }
}

/// `b` is `a` with possibly a different engine.
pub open spec fn same_place(a: NetworkHub, b: NetworkHub) -> bool {
    &&& a.id == b.id
    &&& a.name@ == b.name@
    &&& a.parent == b.parent
    &&& a.generation == b.generation
    &&& a.seed_capital == b.seed_capital
}

/// `after` is `before` with only hub `i`'s engine changed, to `engine`.
pub open spec fn only_engine_changed(
    before: Seq<NetworkHub>,
    after: Seq<NetworkHub>,
    i: int,
    engine: FiscalState,
) -> bool {
    &&& after.len() == before.len()
    &&& forall|j: int| 0 <= j < before.len() && j != i ==> after[j] == before[j]
    &&& same_place(before[i], after[i])
    &&& after[i].engine@ == engine
}

/// A root hub of generation 0 with a fresh engine.
pub open spec fn fresh_root(hub: NetworkHub, id: u128, name: Seq<char>) -> bool {
    &&& hub.id == id
    &&& hub.name@ == name
    &&& hub.parent is None
    &&& hub.generation == 0
    &&& hub.seed_capital == 0
    &&& hub.engine@ == FiscalEngine::empty_state()
}

/// Consecutive trailing periods that were profitable and Healthy.
pub open spec fn streak(rs: Seq<PeriodReport>) -> nat
    decreases rs.len(),
{
    if rs.len() == 0 {
        0
    } else if proven_period(rs.last()) {
        streak(rs.drop_last()) + 1
    } else {
        0
    }
}

proof fn lemma_streak_bound(rs: Seq<PeriodReport>)
    ensures
        streak(rs) <= rs.len(),
    decreases rs.len(),
{
    if rs.len() > 0 {
        lemma_streak_bound(rs.drop_last());
    }
}

/// A hub may sponsor expansion: Healthy now, with a full track record of
/// profitable, Healthy periods.
pub open spec fn eligible(hub: NetworkHub) -> bool {
    hub.engine@.health() == FiscalHealth::Healthy && streak(hub.engine@.reports)
        >= SEED_TRACK_RECORD_PERIODS
}

pub open spec fn score_of(hub: NetworkHub) -> SponsorScore {
    SponsorScore {
        hub_id: hub.id,
        healthy_streak: streak(hub.engine@.reports) as usize,
        expansion_fund: hub.engine@.expansion_fund,
    }
}

/// Ranking order: longest streak, then largest expansion fund, then
/// smallest id.
pub open spec fn ranks_before(a: SponsorScore, b: SponsorScore) -> bool {
    ||| a.healthy_streak > b.healthy_streak
    ||| a.healthy_streak == b.healthy_streak && a.expansion_fund > b.expansion_fund
    ||| a.healthy_streak == b.healthy_streak && a.expansion_fund == b.expansion_fund && a.hub_id
        < b.hub_id
}

/// `s` is the score of an eligible hub among the first `n`.
pub open spec fn eligible_score(hubs: Seq<NetworkHub>, n: int, s: SponsorScore) -> bool {
    exists|i: int| 0 <= i < n && eligible(hubs[i]) && s == #[trigger] score_of(hubs[i])
}

/// `r` ranks exactly the eligible hubs among the first `n`, strongest first.
pub open spec fn ranking_upto(hubs: Seq<NetworkHub>, n: int, r: Seq<SponsorScore>) -> bool {
    &&& forall|k: int| 0 <= k < r.len() ==> eligible_score(hubs, n, #[trigger] r[k])
    &&& forall|i: int| 0 <= i < n && eligible(hubs[i]) ==> r.contains(#[trigger] score_of(hubs[i]))
    &&& forall|a: int, b: int| 0 <= a < b < r.len() ==> ranks_before(#[trigger] r[a], #[trigger] r[b])
}

/// `r` ranks exactly the eligible hubs of the network, strongest first.
pub open spec fn is_ranking(hubs: Seq<NetworkHub>, r: Seq<SponsorScore>) -> bool {
    ranking_upto(hubs, hubs.len() as int, r)
}

/// Current streak of consecutive trailing periods that were profitable and
/// Healthy.
pub fn healthy_streak(reports: &[PeriodReport]) -> (r: usize)
    ensures
        r == streak(reports@),
{
    let ghost rs = reports@;
    let n = reports.len();
    let mut i = n;
    assert(rs.subrange(0, n as int) =~= rs);
    while i > 0 && reports[i - 1].surplus > 0 && reports[i - 1].health_after
        == FiscalHealth::Healthy
        invariant
            rs == reports@,
            n == rs.len(),
            i <= n,
            streak(rs) == (n - i) + streak(rs.subrange(0, i as int)),
        decreases i,
    {
        assert(rs.subrange(0, i as int).drop_last() =~= rs.subrange(0, i - 1));
        i = i - 1;
    }
    proof {
        assert(rs.subrange(0, n as int) =~= rs);
        if i > 0 {
            assert(rs.subrange(0, i as int).last() == rs[i - 1]);
        }
    }
    n - i
}

fn ranks_before_exec(a: &SponsorScore, b: &SponsorScore) -> (r: bool)
    ensures
        r == ranks_before(*a, *b),
{
    a.healthy_streak > b.healthy_streak || (a.healthy_streak == b.healthy_streak
        && a.expansion_fund > b.expansion_fund) || (a.healthy_streak == b.healthy_streak
        && a.expansion_fund == b.expansion_fund && a.hub_id < b.hub_id)
}

/// A streak of at least the track record means the last periods were all
/// profitable and Healthy.
proof fn lemma_streak_proven(rs: Seq<PeriodReport>, n: nat)
    requires
        streak(rs) >= n,
    ensures
        n <= rs.len(),
        forall|i: int| rs.len() - n <= i < rs.len() ==> proven_period(#[trigger] rs[i]),
    decreases n,
{
    lemma_streak_bound(rs);
    if n > 0 {
        lemma_streak_proven(rs.drop_last(), (n - 1) as nat);
        assert forall|i: int| rs.len() - n <= i < rs.len() implies proven_period(
            #[trigger] rs[i],
        ) by {
            if i < rs.len() - 1 {
                assert(rs.drop_last()[i] == rs[i]);
            }
        }
    }
}

/// Hub `i` is the sponsor that expansion at `cost` picks: eligible, able to
/// afford the seed, and every eligible hub that ranks before it cannot.
pub open spec fn chosen_sponsor(hubs: Seq<NetworkHub>, cost: u128, i: int) -> bool {
    &&& 0 <= i < hubs.len()
    &&& eligible(hubs[i])
    &&& hubs[i].engine@.expansion_fund >= cost
    &&& forall|j: int|
        0 <= j < hubs.len() && eligible(hubs[j]) && ranks_before(
            score_of(hubs[j]),
            #[trigger] score_of(hubs[i]),
        ) ==> hubs[j].engine@.expansion_fund < cost
}

pub open spec fn any_eligible(hubs: Seq<NetworkHub>) -> bool {
    exists|i: int| 0 <= i < hubs.len() && eligible(#[trigger] hubs[i])
}

/// `best` is the largest expansion fund among eligible hubs.
pub open spec fn best_eligible_fund(hubs: Seq<NetworkHub>, best: u128) -> bool {
    &&& exists|i: int| 0 <= i < hubs.len() && eligible(hubs[i]) && #[trigger] hubs[i].engine@.expansion_fund == best
    &&& forall|i: int| 0 <= i < hubs.len() && eligible(#[trigger] hubs[i]) ==> hubs[i].engine@.expansion_fund <= best
}

/// The child hub founded by expansion.
pub open spec fn seeded_child(
    hub: NetworkHub,
    id: u128,
    name: Seq<char>,
    sponsor: NetworkHub,
    cost: u128,
) -> bool {
    &&& hub.id == id
    &&& hub.name@ == name
    &&& hub.parent == Some(sponsor.id)
    &&& hub.generation == sponsor.generation + 1
    &&& hub.seed_capital == cost
    &&& hub.engine@ == FiscalEngine::empty_state().with_revenue(cost)
}

/// Expansion at `cost` succeeded with `after` as the new hubs: the chosen
/// sponsor `sponsor` paid a seed of exactly `cost` out of its own expansion
/// fund (its reserves and every other hub untouched), and `child` was
/// appended as its seeded child named `name`.
pub open spec fn expansion_done(
    hubs: Seq<NetworkHub>,
    after: Seq<NetworkHub>,
    name: Seq<char>,
    cost: u128,
    child: u128,
    sponsor: u128,
) -> bool {
    let i = index_of(hubs, sponsor);
    &&& cost > 0
    &&& !has_hub(hubs, child)
    &&& has_hub(hubs, sponsor)
    &&& chosen_sponsor(hubs, cost, i)
    &&& after.len() == hubs.len() + 1
    &&& exists|seed: HubSeed|
        seed.amount == cost && seed.funded_after_period == hubs[i].engine@.reports.len()
            && only_engine_changed(hubs, #[trigger] after.drop_last(), i, hubs[i].engine@.after_seed(seed))
    &&& seeded_child(after.last(), child, name, hubs[i], cost)
}

/// `hubs` has an eligible hub whose expansion fund covers `cost`.
pub open spec fn affordable_sponsor(hubs: Seq<NetworkHub>, cost: u128) -> bool {
    exists|i: int|
        0 <= i < hubs.len() && eligible(#[trigger] hubs[i]) && hubs[i].engine@.expansion_fund >= cost
}

/// Why expansion at `cost` was refused: no eligible hub; eligible hubs but
/// none affords the cost (with the best fund reported); a zero cost; or a
/// child id that is already taken. With an eligible hub that affords a
/// positive cost, only a taken id refuses it.
pub open spec fn expansion_refused(hubs: Seq<NetworkHub>, cost: u128, e: NetworkError) -> bool {
    &&& e is NoQualifiedSponsor <==> !any_eligible(hubs)
    &&& (e matches NetworkError::SeedUnaffordable { cost: c, best_fund } ==> c == cost
        && best_eligible_fund(hubs, best_fund) && best_fund < cost)
    &&& (e is SeedUnaffordable <==> any_eligible(hubs) && !affordable_sponsor(hubs, cost))
    &&& (e == NetworkError::Fiscal(FiscalError::ZeroSeedCost) ==> cost == 0)
    &&& (e matches NetworkError::DuplicateHubId(c) ==> has_hub(hubs, c))
    &&& (e is NoQualifiedSponsor || e is SeedUnaffordable || e == NetworkError::Fiscal(
        FiscalError::ZeroSeedCost,
    ) || e is DuplicateHubId)
    &&& (affordable_sponsor(hubs, cost) ==> (cost == 0 && e == NetworkError::Fiscal(
        FiscalError::ZeroSeedCost,
    )) || (cost > 0 && e is DuplicateHubId))
}

/// The path from hub `i` to its founding root, child first.
pub open spec fn lineage_from(hubs: Seq<NetworkHub>, i: int) -> Seq<u128>
    decreases i,
{
    if i < 0 || i >= hubs.len() {
        Seq::empty()
    } else {
        match hubs[i].parent {
            None => seq![hubs[i].id],
            Some(p) => {
                let j = index_of(hubs, p);
                if 0 <= j < i {
                    seq![hubs[i].id] + lineage_from(hubs, j)
                } else {
                    seq![hubs[i].id]
                }
            },
        }
    }
}

/// In a well-formed network the parent of hub `i` sits at an earlier index.
proof fn lemma_parent_index(hubs: Seq<NetworkHub>, i: int)
    requires
        network_wf(hubs),
        0 <= i < hubs.len(),
        hubs[i].parent is Some,
    ensures
        ({
            let j = index_of(hubs, hubs[i].parent->Some_0);
            &&& 0 <= j < i
            &&& hubs[j].id == hubs[i].parent->Some_0
            &&& hubs[i].generation == hubs[j].generation + 1
        }),
{
    assert(parent_ok(hubs, i));
    let p = hubs[i].parent->Some_0;
    let j0 = choose|j: int|
        0 <= j < i && #[trigger] hubs[j].id == p && hubs[i].generation == hubs[j].generation + 1;
    assert(has_hub(hubs, p));
    let j = index_of(hubs, p);
    if j != j0 {
        assert(hubs[j].id != hubs[j0].id);
    }
}

/// Lineage is sound: it starts at the hub, has one entry per generation,
/// ends at a root hub, and never repeats a hub (the family tree is acyclic).
pub proof fn lemma_lineage_shape(hubs: Seq<NetworkHub>, i: int)
    requires
        network_wf(hubs),
        0 <= i < hubs.len(),
    ensures
        lineage_from(hubs, i).len() == hubs[i].generation + 1,
        lineage_from(hubs, i)[0] == hubs[i].id,
        exists|r: int|
            0 <= r < hubs.len() && hubs[r].parent is None && #[trigger] hubs[r].id
                == lineage_from(hubs, i).last(),
        forall|a: int|
            0 <= a < lineage_from(hubs, i).len() ==> exists|k: int|
                0 <= k <= i && hubs[k].id == #[trigger] lineage_from(hubs, i)[a],
        forall|a: int, b: int|
            0 <= a < b < lineage_from(hubs, i).len() ==> #[trigger] lineage_from(hubs, i)[a]
                != #[trigger] lineage_from(hubs, i)[b],
        forall|a: int|
            0 <= a < lineage_from(hubs, i).len() - 1 ==> hubs[index_of(
                hubs,
                #[trigger] lineage_from(hubs, i)[a],
            )].parent == Some(lineage_from(hubs, i)[a + 1]),
    decreases i,
{
    let l = lineage_from(hubs, i);
    match hubs[i].parent {
        None => {
            assert(parent_ok(hubs, i));
            assert(hubs[i].id == l.last());
        },
        Some(p) => {
            lemma_parent_index(hubs, i);
            let j = index_of(hubs, p);
            lemma_lineage_shape(hubs, j);
            let t = lineage_from(hubs, j);
            assert(l == seq![hubs[i].id] + t);
            assert(l.last() == t.last());
            assert forall|a: int| 0 <= a < l.len() implies exists|k: int|
                0 <= k <= i && hubs[k].id == #[trigger] l[a] by {
                if a > 0 {
                    assert(l[a] == t[a - 1]);
                    let k = choose|k: int| 0 <= k <= j && hubs[k].id == #[trigger] t[a - 1];
                    assert(hubs[k].id == l[a]);
                } else {
                    assert(hubs[i].id == l[a]);
                }
            }
            assert forall|a: int, b: int| 0 <= a < b < l.len() implies #[trigger] l[a]
                != #[trigger] l[b] by {
                if a == 0 {
                    assert(l[b] == t[b - 1]);
                    let k = choose|k: int| 0 <= k <= j && hubs[k].id == #[trigger] t[b - 1];
                    assert(hubs[k].id != hubs[i].id);
                } else {
                    assert(l[a] == t[a - 1] && l[b] == t[b - 1]);
                }
            }
            assert forall|a: int| 0 <= a < l.len() - 1 implies hubs[index_of(
                hubs,
                #[trigger] l[a],
            )].parent == Some(l[a + 1]) by {
                if a == 0 {
                    assert(has_hub(hubs, hubs[i].id));
                    let k = index_of(hubs, hubs[i].id);
                    if k != i {
                        assert(hubs[k].id != hubs[i].id);
                    }
                    assert(l[1] == t[0]);
                } else {
                    assert(l[a] == t[a - 1] && l[a + 1] == t[a]);
                }
            }
        },
    }
}

/// `path` is a well-shaped lineage of hub `id` in `hubs`: it starts at the
/// hub, has one entry per generation, each entry's parent is the next entry,
/// it ends at a root hub, and it never repeats a hub.
pub open spec fn lineage_shape(hubs: Seq<NetworkHub>, id: u128, path: Seq<u128>) -> bool {
    &&& path.len() == hubs[index_of(hubs, id)].generation + 1
    &&& path[0] == id
    &&& forall|a: int| 0 <= a < path.len() ==> has_hub(hubs, #[trigger] path[a])
    &&& forall|a: int|
        0 <= a < path.len() - 1 ==> hubs[index_of(hubs, #[trigger] path[a])].parent == Some(
            path[a + 1],
        )
    &&& hubs[index_of(hubs, path.last())].parent is None
    &&& forall|a: int, b: int| 0 <= a < b < path.len() ==> #[trigger] path[a] != #[trigger] path[b]
}

/// In a well-formed network, the lineage of every hub has the lineage shape.
pub proof fn lemma_lineage_is_shaped(hubs: Seq<NetworkHub>, id: u128)
    requires
        network_wf(hubs),
        has_hub(hubs, id),
    ensures
        lineage_shape(hubs, id, lineage_from(hubs, index_of(hubs, id))),
{
    let i = index_of(hubs, id);
    lemma_lineage_shape(hubs, i);
    let l = lineage_from(hubs, i);
    assert forall|a: int| 0 <= a < l.len() implies has_hub(hubs, #[trigger] l[a]) by {
        let k = choose|k: int| 0 <= k <= i && hubs[k].id == #[trigger] l[a];
        assert(hubs[k].id == l[a]);
    }
    let r = choose|r: int| 0 <= r < hubs.len() && hubs[r].parent is None && #[trigger] hubs[r].id
        == l.last();
    let q = index_of(hubs, l.last());
    assert(has_hub(hubs, l.last())) by {
        assert(hubs[r].id == l.last());
    }
    if q != r {
        assert(hubs[q].id != hubs[r].id);
    }
}

/// Every seed is conserved: an expansion moves exactly the seed out of the
/// sponsor's expansion fund and into the child's founding capital, so the
/// network's total seed outflow and total founding capital both grow by the
/// seed, and stay equal.
pub proof fn lemma_expansion_conserves_seeds(
    hubs: Seq<NetworkHub>,
    after: Seq<NetworkHub>,
    name: Seq<char>,
    cost: u128,
    child: u128,
    sponsor: u128,
)
    requires
        network_wf(hubs),
        expansion_done(hubs, after, name, cost, child, sponsor),
    ensures
        total_seed_outflow(after) == total_seed_outflow(hubs) + cost,
        total_seed_capital(after) == total_seed_capital(hubs) + cost,
        total_seed_outflow(after) == total_seed_capital(after),
{
    let i = index_of(hubs, sponsor);
    let seed = choose|seed: HubSeed|
        seed.amount == cost && seed.funded_after_period == hubs[i].engine@.reports.len()
            && only_engine_changed(hubs, #[trigger] after.drop_last(), i, hubs[i].engine@.after_seed(seed));
    let mid = after.drop_last();
    assert(mid =~= hubs.update(i, mid[i]));
    lemma_capital_update(hubs, i, mid[i]);
    lemma_outflow_update(hubs, i, mid[i]);
    assert(mid[i].engine@.seeds.drop_last() =~= hubs[i].engine@.seeds);
    assert(sum_seeds(after.last().engine@.seeds) == 0);
}

/// Sponsor rankings are ordered by healthy streak, longest first; among
/// equal streaks by expansion fund, largest first; and among equal funds by
/// hub id, smallest first.
pub proof fn lemma_ranking_order(hubs: Seq<NetworkHub>, r: Seq<SponsorScore>, a: int, b: int)
    requires
        is_ranking(hubs, r),
        0 <= a < b < r.len(),
    ensures
        r[a].healthy_streak >= r[b].healthy_streak,
        r[a].healthy_streak == r[b].healthy_streak ==> r[a].expansion_fund >= r[b].expansion_fund,
        r[a].healthy_streak == r[b].healthy_streak && r[a].expansion_fund == r[b].expansion_fund
            ==> r[a].hub_id < r[b].hub_id,
{
    assert(ranks_before(r[a], r[b]));
}

/// The sponsor that expansion picks is the strongest hub able to pay: any
/// other eligible hub that could also afford the seed has a shorter streak,
/// or the same streak and a smaller fund, or the same streak and fund and a
/// larger id.
pub proof fn lemma_sponsor_is_strongest_affordable(hubs: Seq<NetworkHub>, cost: u128, i: int, j: int)
    requires
        network_wf(hubs),
        chosen_sponsor(hubs, cost, i),
        0 <= j < hubs.len(),
        hubs[j].id != hubs[i].id,
        eligible(hubs[j]),
        hubs[j].engine@.expansion_fund >= cost,
    ensures
        streak(hubs[j].engine@.reports) < streak(hubs[i].engine@.reports) || (streak(
            hubs[j].engine@.reports,
        ) == streak(hubs[i].engine@.reports) && hubs[j].engine@.expansion_fund
            < hubs[i].engine@.expansion_fund) || (streak(hubs[j].engine@.reports) == streak(
            hubs[i].engine@.reports,
        ) && hubs[j].engine@.expansion_fund == hubs[i].engine@.expansion_fund && hubs[j].id
            > hubs[i].id),
{
    assert(!ranks_before(score_of(hubs[j]), score_of(hubs[i])));
    assert(hubs[i].engine@.wf() && hubs[j].engine@.wf());
    lemma_streak_bound(hubs[i].engine@.reports);
    lemma_streak_bound(hubs[j].engine@.reports);
}

/// The number of hubs in health `h`, counted straight from the hubs.
proof fn lemma_count_health_is_filter(hubs: Seq<NetworkHub>, h: FiscalHealth)
    ensures
        count_health(hubs, h) == hubs.filter(|x: NetworkHub| x.engine@.health() == h).len(),
    decreases hubs.len(),
{
    reveal_with_fuel(Seq::<_>::filter, 1);
    if hubs.len() > 0 {
        lemma_count_health_is_filter(hubs.drop_last(), h);
    }
}

/// The network report counts each health band from the hubs themselves:
/// `healthy`, `rebuilding`, `critical` and `insolvent` are the numbers of
/// hubs whose engine is in that health.
pub proof fn lemma_report_counts_health(hubs: Seq<NetworkHub>)
    requires
        hubs.len() <= usize::MAX,
    ensures
        network_report(hubs).healthy == hubs.filter(
            |x: NetworkHub| x.engine@.health() == FiscalHealth::Healthy,
        ).len(),
        network_report(hubs).rebuilding == hubs.filter(
            |x: NetworkHub| x.engine@.health() == FiscalHealth::Rebuilding,
        ).len(),
        network_report(hubs).critical == hubs.filter(
            |x: NetworkHub| x.engine@.health() == FiscalHealth::Critical,
        ).len(),
        network_report(hubs).insolvent == hubs.filter(
            |x: NetworkHub| x.engine@.health() == FiscalHealth::Insolvent,
        ).len(),
{
    lemma_count_health_is_filter(hubs, FiscalHealth::Healthy);
    lemma_count_health_is_filter(hubs, FiscalHealth::Rebuilding);
    lemma_count_health_is_filter(hubs, FiscalHealth::Critical);
    lemma_count_health_is_filter(hubs, FiscalHealth::Insolvent);
    lemma_count_health_le(hubs, FiscalHealth::Healthy);
    lemma_count_health_le(hubs, FiscalHealth::Rebuilding);
    lemma_count_health_le(hubs, FiscalHealth::Critical);
    lemma_count_health_le(hubs, FiscalHealth::Insolvent);
}

proof fn lemma_count_health_le(hubs: Seq<NetworkHub>, h: FiscalHealth)
    ensures
        count_health(hubs, h) <= hubs.len(),
    decreases hubs.len(),
{
    if hubs.len() > 0 {
        lemma_count_health_le(hubs.drop_last(), h);
    }
}

/// The largest generation among the hubs (0 for none).
pub open spec fn max_generation(hubs: Seq<NetworkHub>) -> u32
    decreases hubs.len(),
{
    if hubs.len() == 0 {
        0
    } else {
        let m = max_generation(hubs.drop_last());
        if hubs.last().generation > m {
            hubs.last().generation
        } else {
            m
        }
    }
}

/// How many hubs are in health `h`.
pub open spec fn count_health(hubs: Seq<NetworkHub>, h: FiscalHealth) -> nat
    decreases hubs.len(),
{
    if hubs.len() == 0 {
        0
    } else {
        count_health(hubs.drop_last(), h) + if hubs.last().engine@.health() == h {
            1nat
        } else {
            0nat
        }
    }
}

pub open spec fn total_reserves(hubs: Seq<NetworkHub>) -> nat
    decreases hubs.len(),
{
    if hubs.len() == 0 {
        0
    } else {
        total_reserves(hubs.drop_last()) + hubs.last().engine@.reserves as nat
    }
}

pub open spec fn total_expansion_funds(hubs: Seq<NetworkHub>) -> nat
    decreases hubs.len(),
{
    if hubs.len() == 0 {
        0
    } else {
        total_expansion_funds(hubs.drop_last()) + hubs.last().engine@.expansion_fund as nat
    }
}

/// The network report of a sequence of hubs.
pub open spec fn network_report(hubs: Seq<NetworkHub>) -> NetworkReport {
    NetworkReport {
        hubs: hubs.len() as usize,
        generations: max_generation(hubs),
        healthy: count_health(hubs, FiscalHealth::Healthy) as usize,
        rebuilding: count_health(hubs, FiscalHealth::Rebuilding) as usize,
        critical: count_health(hubs, FiscalHealth::Critical) as usize,
        insolvent: count_health(hubs, FiscalHealth::Insolvent) as usize,
        total_reserves: total_reserves(hubs) as u128,
        total_expansion_funds: total_expansion_funds(hubs) as u128,
    }
}

/// Prefix sums never exceed the whole sum.
proof fn lemma_prefix_totals(hubs: Seq<NetworkHub>, i: int)
    requires
        0 <= i <= hubs.len(),
    ensures
        total_reserves(hubs.subrange(0, i)) <= total_reserves(hubs),
        total_expansion_funds(hubs.subrange(0, i)) <= total_expansion_funds(hubs),
        total_seed_capital(hubs.subrange(0, i)) <= total_seed_capital(hubs),
        total_seed_outflow(hubs.subrange(0, i)) <= total_seed_outflow(hubs),
        count_health(hubs.subrange(0, i), FiscalHealth::Healthy) <= i,
        count_health(hubs.subrange(0, i), FiscalHealth::Rebuilding) <= i,
        count_health(hubs.subrange(0, i), FiscalHealth::Critical) <= i,
        count_health(hubs.subrange(0, i), FiscalHealth::Insolvent) <= i,
    decreases hubs.len(),
{
    if i == hubs.len() {
        assert(hubs.subrange(0, i) =~= hubs);
        lemma_counts_bound(hubs);
    } else {
        assert(hubs.drop_last().subrange(0, i) =~= hubs.subrange(0, i));
        lemma_prefix_totals(hubs.drop_last(), i);
    }
}

proof fn lemma_counts_bound(hubs: Seq<NetworkHub>)
    ensures
        count_health(hubs, FiscalHealth::Healthy) <= hubs.len(),
        count_health(hubs, FiscalHealth::Rebuilding) <= hubs.len(),
        count_health(hubs, FiscalHealth::Critical) <= hubs.len(),
        count_health(hubs, FiscalHealth::Insolvent) <= hubs.len(),
    decreases hubs.len(),
{
    if hubs.len() > 0 {
        lemma_counts_bound(hubs.drop_last());
    }
}

proof fn lemma_prefix_seeds(ss: Seq<HubSeed>, k: int)
    requires
        0 <= k <= ss.len(),
    ensures
        sum_seeds(ss.subrange(0, k)) <= sum_seeds(ss),
    decreases ss.len(),
{
    if k == ss.len() {
        assert(ss.subrange(0, k) =~= ss);
    } else {
        assert(ss.drop_last().subrange(0, k) =~= ss.subrange(0, k));
        lemma_prefix_seeds(ss.drop_last(), k);
    }
}

/// The sum of a slice of seeds, in order.
fn seed_total(seeds: &[HubSeed]) -> (t: u128)
    requires
        sum_seeds(seeds@) <= u128::MAX,
    ensures
        t == sum_seeds(seeds@),
{
    let mut t: u128 = 0;
    let mut k: usize = 0;
    while k < seeds.len()
        invariant
            k <= seeds@.len(),
            sum_seeds(seeds@) <= u128::MAX,
            t == sum_seeds(seeds@.subrange(0, k as int)),
        decreases seeds@.len() - k,
    {
        proof {
            assert(seeds@.subrange(0, k + 1).drop_last() =~= seeds@.subrange(0, k as int));
            lemma_prefix_seeds(seeds@, k + 1);
        }
        t = t + seeds[k].amount;
        k = k + 1;
    }
    assert(seeds@.subrange(0, k as int) =~= seeds@);
    t
}

/// Replacing one hub changes the capital total by the difference in its capital.
proof fn lemma_capital_update(hubs: Seq<NetworkHub>, i: int, h: NetworkHub)
    requires
        0 <= i < hubs.len(),
    ensures
        total_seed_capital(hubs.update(i, h)) + hubs[i].seed_capital == total_seed_capital(hubs)
            + h.seed_capital,
    decreases hubs.len(),
{
    let u = hubs.update(i, h);
    if i < hubs.len() - 1 {
        assert(u.drop_last() =~= hubs.drop_last().update(i, h));
        lemma_capital_update(hubs.drop_last(), i, h);
    } else {
        assert(u.drop_last() =~= hubs.drop_last());
    }
}

/// Replacing one hub changes the seed-outflow total by the difference in its
/// seeds.
proof fn lemma_outflow_update(hubs: Seq<NetworkHub>, i: int, h: NetworkHub)
    requires
        0 <= i < hubs.len(),
    ensures
        total_seed_outflow(hubs.update(i, h)) + sum_seeds(hubs[i].engine@.seeds)
            == total_seed_outflow(hubs) + sum_seeds(h.engine@.seeds),
    decreases hubs.len(),
{
    let u = hubs.update(i, h);
    if i < hubs.len() - 1 {
        assert(u.drop_last() =~= hubs.drop_last().update(i, h));
        lemma_outflow_update(hubs.drop_last(), i, h);
    } else {
        assert(u.drop_last() =~= hubs.drop_last());
    }
}

/// Replacing a hub's engine by a well-formed one with the same seeds keeps
/// the network well formed.
proof fn lemma_engine_swap_wf(hubs: Seq<NetworkHub>, i: int, h: NetworkHub)
    requires
        network_wf(hubs),
        0 <= i < hubs.len(),
        same_place(hubs[i], h),
        h.engine@.wf(),
        sum_seeds(h.engine@.seeds) == sum_seeds(hubs[i].engine@.seeds),
    ensures
        network_wf(hubs.update(i, h)),
{
    let u = hubs.update(i, h);
    lemma_capital_update(hubs, i, h);
    lemma_outflow_update(hubs, i, h);
    assert forall|k: int| 0 <= k < u.len() implies parent_ok(u, k) by {
        assert(parent_ok(hubs, k));
        if let Some(p) = hubs[k].parent {
            let j = choose|j: int|
                0 <= j < k && #[trigger] hubs[j].id == p && hubs[k].generation == hubs[j].generation
                    + 1;
            assert(u[j].id == p && u[k].generation == u[j].generation + 1);
        }
    }
    assert forall|a: int, b: int|
        0 <= a < u.len() && 0 <= b < u.len() && a != b implies #[trigger] u[a].id
        != #[trigger] u[b].id by {
        assert(hubs[a].id != hubs[b].id);
    }
}

impl HubNetwork {
    /// The hubs in founding order.
    pub closed spec fn hubs(&self) -> Seq<NetworkHub> {
        self.hubs@
    }

    /// A well-formed network's hubs satisfy the structural invariant.
    pub proof fn lemma_wf_structure(&self)
        requires
            self.wf(),
        ensures
            network_wf(self.hubs()),
    {
    }

    pub closed spec fn wf(&self) -> bool {
        &&& network_wf(self.hubs@)
        &&& self.order@.len() == self.hubs@.len()
        &&& forall|i: int| 0 <= i < self.order@.len() ==> self.order@[i] == #[trigger] self.hubs@[i].id
    }

    /// An empty network.
    pub fn new() -> (r: HubNetwork)
        ensures
            r.wf(),
            r.hubs().len() == 0,
    {
        HubNetwork { hubs: Vec::new(), order: Vec::new() }
    }

    /// Position of the hub with id `id`, if any.
    fn find(&self, id: u128) -> (r: Option<usize>)
        requires
            self.wf(),
        ensures
            match r {
                Some(i) => i < self.hubs().len() && self.hubs()[i as int].id == id && index_of(
                    self.hubs(),
                    id,
                ) == i,
                None => !has_hub(self.hubs(), id),
            },
    {
        let mut i: usize = 0;
        while i < self.hubs.len()
            invariant
                self.wf(),
                0 <= i <= self.hubs@.len(),
                forall|j: int| 0 <= j < i ==> self.hubs@[j].id != id,
            decreases self.hubs@.len() - i,
        {
            if self.hubs[i].id == id {
                proof {
                    let k = index_of(self.hubs@, id);
                    assert(has_hub(self.hubs@, id));
                    if k != i {
                        assert(self.hubs@[k].id != self.hubs@[i as int].id);
                    }
                }
                return Some(i);
            }
            i = i + 1;
        }
        None
    }

    /// Found an independent root hub under the id `id`: generation 0, no
    /// sponsor, no capital. Refused, changing nothing, if the id is taken.
    pub fn found_hub_with_id(&mut self, name: &str, id: u128) -> (r: Result<u128, NetworkError>)
        requires
            old(self).wf(),
        ensures
            final(self).wf(),
            has_hub(old(self).hubs(), id) ==> r == Err::<u128, NetworkError>(
                NetworkError::DuplicateHubId(id),
            ) && final(self).hubs() == old(self).hubs(),
            !has_hub(old(self).hubs(), id) ==> r == Ok::<u128, NetworkError>(id)
                && final(self).hubs().len() == old(self).hubs().len() + 1
                && final(self).hubs().drop_last() == old(self).hubs()
                && fresh_root(final(self).hubs().last(), id, name@),
    {
        if self.find(id).is_some() {
            return Err(NetworkError::DuplicateHubId(id));
        }
        let engine = match FiscalEngine::new() {
            Ok(e) => e,
            Err(e) => return Err(NetworkError::Fiscal(e)),
        };
        let hub = NetworkHub {
            id,
            name: String::from_str(name),
            parent: None,
            generation: 0,
            seed_capital: 0,
            engine,
        };
        let ghost before = self.hubs@;
        self.hubs.push(hub);
        self.order.push(id);
        proof {
            assert(self.hubs@.drop_last() =~= before);
            assert(sum_seeds(hub.engine@.seeds) == 0);
            assert forall|i: int| 0 <= i < self.hubs@.len() implies parent_ok(self.hubs@, i) by {
                if i < before.len() {
                    assert(parent_ok(before, i));
                    if let Some(p) = before[i].parent {
                        let j = choose|j: int|
                            0 <= j < i && #[trigger] before[j].id == p && before[i].generation
                                == before[j].generation + 1;
                        assert(self.hubs@[j] == before[j]);
                    }
                }
            }
        }
        Ok(id)
    }

    /// Take hub `i` out, to put it back with `put_back`.
    fn take(&mut self, i: usize) -> (h: NetworkHub)
        requires
            old(self).wf(),
            i < old(self).hubs().len(),
        ensures
            h == old(self).hubs()[i as int],
            final(self).hubs() == old(self).hubs().remove(i as int),
            final(self).order@ == old(self).order@,
    {
        self.hubs.remove(i)
    }

    /// Put a hub back at position `i` after its engine was used.
    fn put_back(&mut self, i: usize, h: NetworkHub, Ghost(before): Ghost<Seq<NetworkHub>>)
        requires
            network_wf(before),
            i < before.len(),
            old(self).hubs() == before.remove(i as int),
            old(self).order@.len() == before.len(),
            forall|k: int| 0 <= k < before.len() ==> old(self).order@[k] == #[trigger] before[k].id,
            same_place(before[i as int], h),
            h.engine@.wf(),
            sum_seeds(h.engine@.seeds) == sum_seeds(before[i as int].engine@.seeds),
        ensures
            final(self).wf(),
            final(self).hubs() == before.update(i as int, h),
    {
        self.hubs.insert(i, h);
        proof {
            assert(self.hubs@ =~= before.update(i as int, h));
            lemma_engine_swap_wf(before, i as int, h);
        }
    }

    /// Record revenue for a hub's open period.
    pub fn record_revenue(&mut self, hub_id: u128, amount: u128) -> (r: Result<(), NetworkError>)
        requires
            old(self).wf(),
        ensures
            final(self).wf(),
            !has_hub(old(self).hubs(), hub_id) ==> r == Err::<(), NetworkError>(
                NetworkError::UnknownHub(hub_id),
            ) && final(self).hubs() == old(self).hubs(),
            has_hub(old(self).hubs(), hub_id) ==> {
                let i = index_of(old(self).hubs(), hub_id);
                let e = old(self).hubs()[i].engine@;
                if e.lifetime_revenue + amount <= u128::MAX {
                    r is Ok && only_engine_changed(
                        old(self).hubs(),
                        final(self).hubs(),
                        i,
                        e.with_revenue(amount),
                    )
                } else {
                    r == Err::<(), NetworkError>(NetworkError::Fiscal(FiscalError::RevenueOverflow))
                        && only_engine_changed(old(self).hubs(), final(self).hubs(), i, e)
                }
            },
    {
        let i = match self.find(hub_id) {
            Some(i) => i,
            None => return Err(NetworkError::UnknownHub(hub_id)),
        };
        let ghost before = self.hubs@;
        let mut hub = self.take(i);
        let res = hub.engine.record_revenue(amount);
        self.put_back(i, hub, Ghost(before));
        match res {
            Ok(()) => Ok(()),
            Err(e) => Err(NetworkError::Fiscal(e)),
        }
    }

    /// Record an operating expense for a hub's open period.
    pub fn record_expense(&mut self, hub_id: u128, amount: u128) -> (r: Result<(), NetworkError>)
        requires
            old(self).wf(),
        ensures
            final(self).wf(),
            !has_hub(old(self).hubs(), hub_id) ==> r == Err::<(), NetworkError>(
                NetworkError::UnknownHub(hub_id),
            ) && final(self).hubs() == old(self).hubs(),
            has_hub(old(self).hubs(), hub_id) ==> {
                let i = index_of(old(self).hubs(), hub_id);
                let e = old(self).hubs()[i].engine@;
                if e.open_expenses + amount <= u128::MAX {
                    r is Ok && only_engine_changed(
                        old(self).hubs(),
                        final(self).hubs(),
                        i,
                        e.with_expense(amount),
                    )
                } else {
                    r == Err::<(), NetworkError>(NetworkError::Fiscal(FiscalError::ExpenseOverflow))
                        && only_engine_changed(old(self).hubs(), final(self).hubs(), i, e)
                }
            },
    {
        let i = match self.find(hub_id) {
            Some(i) => i,
            None => return Err(NetworkError::UnknownHub(hub_id)),
        };
        let ghost before = self.hubs@;
        let mut hub = self.take(i);
        let res = hub.engine.record_expense(amount);
        self.put_back(i, hub, Ghost(before));
        match res {
            Ok(()) => Ok(()),
            Err(e) => Err(NetworkError::Fiscal(e)),
        }
    }

    /// Close a hub's open period; no other hub is touched.
    pub fn close_period(&mut self, hub_id: u128) -> (r: Result<PeriodReport, NetworkError>)
        requires
            old(self).wf(),
            has_hub(old(self).hubs(), hub_id) ==> old(self).hubs()[index_of(
                old(self).hubs(),
                hub_id,
            )].engine@.close_fits(),
        ensures
            final(self).wf(),
            !has_hub(old(self).hubs(), hub_id) ==> r == Err::<PeriodReport, NetworkError>(
                NetworkError::UnknownHub(hub_id),
            ) && final(self).hubs() == old(self).hubs(),
            has_hub(old(self).hubs(), hub_id) ==> {
                let i = index_of(old(self).hubs(), hub_id);
                let e = old(self).hubs()[i].engine@;
                &&& r == Ok::<PeriodReport, NetworkError>(e.close_report())
                &&& only_engine_changed(old(self).hubs(), final(self).hubs(), i, e.after_close())
            },
    {
        let i = match self.find(hub_id) {
            Some(i) => i,
            None => return Err(NetworkError::UnknownHub(hub_id)),
        };
        let ghost before = self.hubs@;
        let mut hub = self.take(i);
        let res = hub.engine.close_period();
        self.put_back(i, hub, Ghost(before));
        match res {
            Ok(rep) => Ok(rep),
            Err(e) => Err(NetworkError::Fiscal(e)),
        }
    }

    /// Every hub currently eligible to sponsor expansion, strongest first:
    /// longest healthy streak, then largest expansion fund, then smallest id.
    pub fn sponsor_rankings(&self) -> (r: Vec<SponsorScore>)
        requires
            self.wf(),
        ensures
            is_ranking(self.hubs(), r@),
    {
        let ghost hubs = self.hubs@;
        let n = self.hubs.len();
        let mut ranked: Vec<SponsorScore> = Vec::new();
        let mut i: usize = 0;
        while i < n
            invariant
                hubs == self.hubs@,
                self.wf(),
                n == hubs.len(),
                i <= n,
                ranking_upto(hubs, i as int, ranked@),
            decreases n - i,
        {
            let hub = &self.hubs[i];
            let health = hub.engine.health();
            let streak_len = healthy_streak(hub.engine.reports());
            if health == FiscalHealth::Healthy && streak_len >= SEED_TRACK_RECORD_PERIODS {
                proof {
                    lemma_streak_bound(hub.engine@.reports);
                }
                let score = SponsorScore {
                    hub_id: hub.id,
                    healthy_streak: streak_len,
                    expansion_fund: hub.engine.expansion_fund(),
                };
                assert(score == score_of(hubs[i as int]));
                let mut p: usize = 0;
                while p < ranked.len() && !ranks_before_exec(&score, &ranked[p])
                    invariant
                        p <= ranked@.len(),
                        forall|k: int| 0 <= k < p ==> !ranks_before(score, #[trigger] ranked@[k]),
                    decreases ranked@.len() - p,
                {
                    p = p + 1;
                }
                let ghost old_ranked = ranked@;
                proof {
                    assert forall|k: int| 0 <= k < old_ranked.len() implies (#[trigger] old_ranked[k]).hub_id
                        != score.hub_id by {
                        let j = choose|j: int|
                            0 <= j < i && eligible(hubs[j]) && old_ranked[k] == #[trigger] score_of(
                                hubs[j],
                            );
                        assert(hubs[j].id != hubs[i as int].id);
                    }
                }
                ranked.insert(p, score);
                proof {
                    let nr = ranked@;
                    assert(nr == old_ranked.insert(p as int, score));
                    assert forall|k: int| 0 <= k < nr.len() implies eligible_score(
                        hubs,
                        i + 1,
                        #[trigger] nr[k],
                    ) by {
                        if k < p {
                            assert(nr[k] == old_ranked[k]);
                        } else if k > p {
                            assert(nr[k] == old_ranked[k - 1]);
                        } else {
                            assert(nr[k] == score_of(hubs[i as int]));
                        }
                    }
                    assert forall|j: int| 0 <= j < i + 1 && eligible(hubs[j]) implies nr.contains(
                        #[trigger] score_of(hubs[j]),
                    ) by {
                        if j < i {
                            let k = choose|k: int|
                                0 <= k < old_ranked.len() && old_ranked[k] == score_of(hubs[j]);
                            if k < p {
                                assert(nr[k] == old_ranked[k]);
                            } else {
                                assert(nr[k + 1] == old_ranked[k]);
                            }
                        } else {
                            assert(nr[p as int] == score);
                        }
                    }
                    assert forall|a: int, b: int| 0 <= a < b < nr.len() implies ranks_before(
                        #[trigger] nr[a],
                        #[trigger] nr[b],
                    ) by {
                        if b < p {
                            assert(ranks_before(old_ranked[a], old_ranked[b]));
                        } else if b == p {
                            assert(!ranks_before(score, old_ranked[a]));
                            assert(old_ranked[a].hub_id != score.hub_id);
                        } else if a > p {
                            assert(ranks_before(old_ranked[a - 1], old_ranked[b - 1]));
                        } else if a == p {
                            assert(ranks_before(score, old_ranked[p as int]));
                            if b - 1 > p {
                                assert(ranks_before(old_ranked[p as int], old_ranked[b - 1]));
                            }
                        } else {
                            assert(!ranks_before(score, old_ranked[a]));
                            assert(old_ranked[a].hub_id != score.hub_id);
                            assert(ranks_before(score, old_ranked[p as int]));
                            if b - 1 > p {
                                assert(ranks_before(old_ranked[p as int], old_ranked[b - 1]));
                            }
                            assert(ranks_before(old_ranked[a], old_ranked[b - 1]));
                        }
                    }
                }
            } else {
                proof {
                    assert forall|k: int| 0 <= k < ranked@.len() implies eligible_score(
                        hubs,
                        i + 1,
                        #[trigger] ranked@[k],
                    ) by {
                        assert(eligible_score(hubs, i as int, ranked@[k]));
                    }
                }
            }
            i = i + 1;
        }
        ranked
    }

    /// Expand the network under the child id `child_id`: the strongest
    /// eligible sponsor that can afford `seed_cost` seeds a new hub, which
    /// receives the seed as its founding capital. Refusals change nothing.
    pub fn expand_with_id(&mut self, name: &str, seed_cost: u128, child_id: u128) -> (r: Result<
        (u128, u128),
        NetworkError,
    >)
        requires
            old(self).wf(),
            old(self).hubs().len() < u32::MAX,
        ensures
            final(self).wf(),
            match r {
                Ok((child, sponsor)) => child == child_id && expansion_done(
                    old(self).hubs(),
                    final(self).hubs(),
                    name@,
                    seed_cost,
                    child,
                    sponsor,
                ),
                Err(e) => {
                    &&& final(self).hubs() == old(self).hubs()
                    &&& expansion_refused(old(self).hubs(), seed_cost, e)
                    &&& (e is DuplicateHubId ==> e == NetworkError::DuplicateHubId(child_id))
                },
            },
    {
        let ghost hubs = self.hubs@;
        let rankings = self.sponsor_rankings();
        if rankings.len() == 0 {
            proof {
                if any_eligible(hubs) {
                    let i = choose|i: int| 0 <= i < hubs.len() && eligible(#[trigger] hubs[i]);
                    assert(rankings@.contains(score_of(hubs[i])));
                }
            }
            return Err(NetworkError::NoQualifiedSponsor);
        }
        proof {
            let j = choose|j: int|
                0 <= j < hubs.len() && eligible(hubs[j]) && rankings@[0] == #[trigger] score_of(
                    hubs[j],
                );
            assert(eligible(hubs[j]));
        }
        let mut k: usize = 0;
        while k < rankings.len() && rankings[k].expansion_fund < seed_cost
            invariant
                k <= rankings@.len(),
                forall|m: int| 0 <= m < k ==> (#[trigger] rankings@[m]).expansion_fund < seed_cost,
            decreases rankings@.len() - k,
        {
            k = k + 1;
        }
        if k == rankings.len() {
            let mut best: u128 = rankings[0].expansion_fund;
            let mut m: usize = 1;
            while m < rankings.len()
                invariant
                    1 <= m <= rankings@.len(),
                    exists|q: int| 0 <= q < m && (#[trigger] rankings@[q]).expansion_fund == best,
                    forall|q: int| 0 <= q < m ==> (#[trigger] rankings@[q]).expansion_fund <= best,
                decreases rankings@.len() - m,
            {
                if rankings[m].expansion_fund > best {
                    best = rankings[m].expansion_fund;
                }
                m = m + 1;
            }
            proof {
                let q = choose|q: int| 0 <= q < m && (#[trigger] rankings@[q]).expansion_fund == best;
                let j = choose|j: int|
                    0 <= j < hubs.len() && eligible(hubs[j]) && rankings@[q] == #[trigger] score_of(
                        hubs[j],
                    );
                assert(hubs[j].engine@.expansion_fund == best);
                assert forall|i: int| 0 <= i < hubs.len() && eligible(#[trigger] hubs[i]) implies hubs[i].engine@.expansion_fund
                    <= best && hubs[i].engine@.expansion_fund < seed_cost by {
                    let p = choose|p: int| 0 <= p < rankings@.len() && rankings@[p] == score_of(hubs[i]);
                    assert(rankings@[p].expansion_fund <= best);
                }
            }
            return Err(NetworkError::SeedUnaffordable { cost: seed_cost, best_fund: best });
        }
        let sponsor_id = rankings[k].hub_id;
        let ghost sj = choose|j: int|
            0 <= j < hubs.len() && eligible(hubs[j]) && rankings@[k as int] == #[trigger] score_of(
                hubs[j],
            );
        proof {
            assert(eligible(hubs[sj]));
            assert forall|j: int|
                0 <= j < hubs.len() && eligible(hubs[j]) && ranks_before(
                    score_of(hubs[j]),
                    #[trigger] score_of(hubs[sj]),
                ) implies hubs[j].engine@.expansion_fund < seed_cost by {
                let p = choose|p: int| 0 <= p < rankings@.len() && rankings@[p] == score_of(hubs[j]);
                if p > k {
                    assert(ranks_before(rankings@[k as int], rankings@[p]));
                } else if p == k {
                    assert(hubs[j].id == hubs[sj].id);
                }
            }
        }
        if seed_cost == 0 {
            return Err(NetworkError::Fiscal(FiscalError::ZeroSeedCost));
        }
        if self.find(child_id).is_some() {
            return Err(NetworkError::DuplicateHubId(child_id));
        }
        let i = match self.find(sponsor_id) {
            Some(i) => i,
            None => return Err(NetworkError::UnknownHub(sponsor_id)),
        };
        proof {
            assert(i == sj) by {
                if i != sj {
                    assert(hubs[i as int].id != hubs[sj].id);
                }
            }
            lemma_streak_proven(hubs[sj].engine@.reports, SEED_TRACK_RECORD_PERIODS as nat);
            assert(hubs[sj].engine@.seed_refusal(seed_cost) is None);
        }
        let mut sponsor = self.hubs.remove(i);
        let sponsor_generation = sponsor.generation;
        let seeded = sponsor.engine.try_seed_hub(seed_cost);
        self.hubs.insert(i, sponsor);
        let seed = match seeded {
            Ok(seed) => seed,
            Err(e) => return Err(NetworkError::Fiscal(e)),
        };
        let mut engine = match FiscalEngine::new() {
            Ok(e) => e,
            Err(e) => return Err(NetworkError::Fiscal(e)),
        };
        match engine.record_revenue(seed.amount) {
            Ok(()) => {},
            Err(e) => return Err(NetworkError::Fiscal(e)),
        }
        let child = NetworkHub {
            id: child_id,
            name: String::from_str(name),
            parent: Some(sponsor_id),
            generation: sponsor_generation + 1,
            seed_capital: seed.amount,
            engine,
        };
        let ghost mid = self.hubs@;
        self.hubs.push(child);
        self.order.push(child_id);
        proof {
            let after = self.hubs@;
            assert(mid =~= hubs.update(i as int, mid[i as int]));
            assert(after.drop_last() =~= mid);
            lemma_capital_update(hubs, i as int, mid[i as int]);
            lemma_outflow_update(hubs, i as int, mid[i as int]);
            assert(mid[i as int].engine@.seeds.drop_last() =~= hubs[i as int].engine@.seeds);
            assert(sum_seeds(child.engine@.seeds) == 0);
            assert forall|q: int| 0 <= q < after.len() implies parent_ok(after, q) by {
                if q < hubs.len() {
                    assert(parent_ok(hubs, q));
                    if let Some(p) = hubs[q].parent {
                        let j = choose|j: int|
                            0 <= j < q && #[trigger] hubs[j].id == p && hubs[q].generation
                                == hubs[j].generation + 1;
                        assert(after[j].id == p && after[q].generation == after[j].generation + 1);
                    }
                } else {
                    assert(after[i as int].id == sponsor_id);
                }
            }
            assert forall|a: int, b: int|
                0 <= a < after.len() && 0 <= b < after.len() && a != b implies #[trigger] after[a].id
                != #[trigger] after[b].id by {
                if a < hubs.len() && b < hubs.len() {
                    assert(hubs[a].id != hubs[b].id);
                } else if a < hubs.len() {
                    assert(after[a].id == hubs[a].id);
                } else if b < hubs.len() {
                    assert(after[b].id == hubs[b].id);
                }
            }
            assert(only_engine_changed(hubs, after.drop_last(), i as int, hubs[i as int].engine@.after_seed(seed)));
        }
        Ok((child_id, sponsor_id))
    }

    /// Expand the network: the strongest eligible sponsor that can afford
    /// `seed_cost` seeds a new hub under a fresh random id.
    pub fn expand(&mut self, name: &str, seed_cost: u128) -> (r: Result<(u128, u128), NetworkError>)
        requires
            old(self).wf(),
            old(self).hubs().len() < u32::MAX,
        ensures
            final(self).wf(),
            match r {
                Ok((child, sponsor)) => expansion_done(
                    old(self).hubs(),
                    final(self).hubs(),
                    name@,
                    seed_cost,
                    child,
                    sponsor,
                ),
                Err(e) => final(self).hubs() == old(self).hubs() && expansion_refused(
                    old(self).hubs(),
                    seed_cost,
                    e,
                ),
            },
    {
        let id = generate_id();
        self.expand_with_id(name, seed_cost, id)
    }

    /// Path from a hub to its founding root, child first.
    pub fn lineage(&self, hub_id: u128) -> (r: Result<Vec<u128>, NetworkError>)
        requires
            self.wf(),
        ensures
            has_hub(self.hubs(), hub_id) ==> (r matches Ok(path) && path@ == lineage_from(
                self.hubs(),
                index_of(self.hubs(), hub_id),
            ) && lineage_shape(self.hubs(), hub_id, path@)),
            !has_hub(self.hubs(), hub_id) ==> r == Err::<Vec<u128>, NetworkError>(
                NetworkError::UnknownHub(hub_id),
            ),
    {
        let ghost hubs = self.hubs@;
        proof {
            if has_hub(hubs, hub_id) {
                lemma_lineage_is_shaped(hubs, hub_id);
            }
        }
        let start = match self.find(hub_id) {
            Some(i) => i,
            None => return Err(NetworkError::UnknownHub(hub_id)),
        };
        let mut cur = start;
        let mut path: Vec<u128> = Vec::new();
        loop
            invariant
                self.wf(),
                hubs == self.hubs@,
                start == index_of(hubs, hub_id),
                has_hub(hubs, hub_id),
                0 <= cur < hubs.len(),
                path@ + lineage_from(hubs, cur as int) == lineage_from(hubs, start as int),
                lineage_shape(hubs, hub_id, lineage_from(hubs, start as int)),
            decreases cur,
        {
            let hub = &self.hubs[cur];
            let ghost before = path@;
            path.push(hub.id);
            match hub.parent {
                None => {
                    assert(path@ =~= before + lineage_from(hubs, cur as int));
                    return Ok(path);
                },
                Some(p) => {
                    proof {
                        lemma_parent_index(hubs, cur as int);
                    }
                    match self.find(p) {
                        Some(j) => {
                            assert(lineage_from(hubs, cur as int) == seq![hubs[cur as int].id]
                                + lineage_from(hubs, j as int));
                            assert(path@ + lineage_from(hubs, j as int) =~= before + lineage_from(
                                hubs,
                                cur as int,
                            ));
                            cur = j;
                        },
                        None => return Err(NetworkError::UnknownHub(p)),
                    }
                },
            }
        }
    }

    /// The hub with id `hub_id`.
    pub fn hub(&self, hub_id: u128) -> (r: Result<&NetworkHub, NetworkError>)
        requires
            self.wf(),
        ensures
            has_hub(self.hubs(), hub_id) ==> (r matches Ok(h) && *h == self.hubs()[index_of(
                self.hubs(),
                hub_id,
            )]),
            !has_hub(self.hubs(), hub_id) ==> r == Err::<&NetworkHub, NetworkError>(
                NetworkError::UnknownHub(hub_id),
            ),
    {
        match self.find(hub_id) {
            Some(i) => Ok(&self.hubs[i]),
            None => Err(NetworkError::UnknownHub(hub_id)),
        }
    }

    /// Hub ids in founding order.
    pub fn hub_ids(&self) -> (r: &[u128])
        requires
            self.wf(),
        ensures
            r@.len() == self.hubs().len(),
            forall|i: int| 0 <= i < r@.len() ==> r@[i] == #[trigger] self.hubs()[i].id,
    {
        self.order.as_slice()
    }

    /// Aggregate report across the network.
    pub fn report(&self) -> (r: NetworkReport)
        requires
            self.wf(),
            total_reserves(self.hubs()) <= u128::MAX,
            total_expansion_funds(self.hubs()) <= u128::MAX,
        ensures
            r == network_report(self.hubs()),
    {
        let ghost hubs = self.hubs@;
        let n = self.hubs.len();
        let mut report = NetworkReport {
            hubs: n,
            generations: 0,
            healthy: 0,
            rebuilding: 0,
            critical: 0,
            insolvent: 0,
            total_reserves: 0,
            total_expansion_funds: 0,
        };
        let mut i: usize = 0;
        while i < n
            invariant
                hubs == self.hubs@,
                self.wf(),
                n == hubs.len(),
                i <= n,
                total_reserves(hubs) <= u128::MAX,
                total_expansion_funds(hubs) <= u128::MAX,
                report.hubs == n,
                ({
                    let pre = hubs.subrange(0, i as int);
                    &&& report.generations == max_generation(pre)
                    &&& report.healthy == count_health(pre, FiscalHealth::Healthy)
                    &&& report.rebuilding == count_health(pre, FiscalHealth::Rebuilding)
                    &&& report.critical == count_health(pre, FiscalHealth::Critical)
                    &&& report.insolvent == count_health(pre, FiscalHealth::Insolvent)
                    &&& report.total_reserves == total_reserves(pre)
                    &&& report.total_expansion_funds == total_expansion_funds(pre)
                }),
            decreases n - i,
        {
            let hub = &self.hubs[i];
            proof {
                assert(hubs.subrange(0, i + 1).drop_last() =~= hubs.subrange(0, i as int));
                lemma_prefix_totals(hubs, i + 1);
            }
            if hub.generation > report.generations {
                report.generations = hub.generation;
            }
            match hub.engine.health() {
                FiscalHealth::Healthy => report.healthy = report.healthy + 1,
                FiscalHealth::Rebuilding => report.rebuilding = report.rebuilding + 1,
                FiscalHealth::Critical => report.critical = report.critical + 1,
                FiscalHealth::Insolvent => report.insolvent = report.insolvent + 1,
            }
            report.total_reserves = report.total_reserves + hub.engine.reserves();
            report.total_expansion_funds = report.total_expansion_funds + hub.engine.expansion_fund();
            i = i + 1;
        }
        assert(hubs.subrange(0, n as int) =~= hubs);
        report
    }

    /// Prove the network's books: every hub conserves internally, and every
    /// unit seeded out of sponsors equals the seed capital received.
    pub fn audit(&self) -> (a: NetworkAudit)
        requires
            self.wf(),
            total_seed_capital(self.hubs()) <= u128::MAX,
        ensures
            a == (NetworkAudit {
                all_hubs_conserved: true,
                seeds_match_capital: true,
                total_seed_outflow: total_seed_outflow(self.hubs()) as u128,
                total_seed_capital: total_seed_capital(self.hubs()) as u128,
                conserved: true,
            }),
    {
        let ghost hubs = self.hubs@;
        let n = self.hubs.len();
        let mut all_hubs_conserved = true;
        let mut outflow: u128 = 0;
        let mut capital: u128 = 0;
        let mut i: usize = 0;
        while i < n
            invariant
                hubs == self.hubs@,
                self.wf(),
                n == hubs.len(),
                i <= n,
                total_seed_capital(hubs) <= u128::MAX,
                all_hubs_conserved,
                outflow == total_seed_outflow(hubs.subrange(0, i as int)),
                capital == total_seed_capital(hubs.subrange(0, i as int)),
            decreases n - i,
        {
            let hub = &self.hubs[i];
            proof {
                assert(hubs.subrange(0, i + 1).drop_last() =~= hubs.subrange(0, i as int));
                lemma_prefix_totals(hubs, i + 1);
                assert(hubs[i as int].engine@.wf());
            }
            let conserved = hub.engine.audit().conserved;
            all_hubs_conserved = all_hubs_conserved && conserved;
            let seeds = seed_total(hub.engine.seeds());
            outflow = outflow + seeds;
            capital = capital + hub.seed_capital;
            i = i + 1;
        }
        assert(hubs.subrange(0, n as int) =~= hubs);
        let seeds_match_capital = outflow == capital;
        NetworkAudit {
            all_hubs_conserved,
            seeds_match_capital,
            total_seed_outflow: outflow,
            total_seed_capital: capital,
            conserved: all_hubs_conserved && seeds_match_capital,
        }
    }

    /// Found an independent root hub under a fresh random id.
    pub fn found_hub(&mut self, name: &str) -> (r: Result<u128, NetworkError>)
        requires
            old(self).wf(),
        ensures
            final(self).wf(),
            match r {
                Ok(id) => !has_hub(old(self).hubs(), id) && final(self).hubs().drop_last()
                    == old(self).hubs() && fresh_root(final(self).hubs().last(), id, name@),
                Err(e) => (e matches NetworkError::DuplicateHubId(c) && has_hub(old(self).hubs(), c))
                    && final(self).hubs() == old(self).hubs(),
            },
    {
        let id = generate_id();
        self.found_hub_with_id(name, id)
    }
}

impl Default for HubNetwork {
    fn default() -> (r: HubNetwork)
        ensures
            r.wf(),
            r.hubs().len() == 0,
    {
        HubNetwork { hubs: Vec::new(), order: Vec::new() }
    }
}

} // verus!
