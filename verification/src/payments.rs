//! Revenue allocation and the perpetual founder's fee.
//!
//! All amounts are minor units; the fee is 1% of what it is levied on and the
//! remainder splits 50% members, 30% reinvestment, 20% (plus rounding dust)
//! reserves, in exact integer arithmetic.

use vstd::prelude::*;
use crate::utils::{
    current_timestamp, generate_id, uuid_string, uuid_text, CommonsResult, Currency, MemberId,
    StreamType, Timestamp, TransactionHash,
};

verus! {

/// XRP wallet that receives the founder's fee.
pub const FOUNDER_XRP_WALLET: &'static str = "rf82s1CDagppvM6ATqc1nSrL6GackzHJrm";

/// Memo attached to every founder's fee payment.
pub const FOUNDER_XRP_MEMO: &'static str = "2621443948";

/// Founder's fee, in percent of net profits.
pub const FOUNDER_FEE_PERCENTAGE: u64 = 1;

/// Share of the post-fee amount distributed to members, in percent.
pub const MEMBER_DISTRIBUTION_PERCENTAGE: u64 = 50;

/// Share of the post-fee amount reinvested, in percent.
pub const REINVESTMENT_PERCENTAGE: u64 = 30;

/// Share of the post-fee amount kept in reserves, in percent (it also takes
/// the rounding dust).
pub const RESERVE_PERCENTAGE: u64 = 20;

/// Payment allocation breakdown.
#[derive(Debug, Clone, Copy, PartialEq, Eq)]
pub struct Allocation {
    pub member_distribution: u128,
    pub reinvestment: u128,
    pub reserves: u128,
    pub founder_fee: u128,
    pub total_processed: u128,
    pub timestamp: Timestamp,
}

#[derive(Debug, Clone, Copy, PartialEq, Eq, Structural)]
pub enum TransactionStatus {
    Pending,
    Confirmed,
    Failed,
}

/// XRP transaction details.
#[derive(Debug, Clone)]
pub struct XRPTransaction {
    pub wallet_address: String,
    pub memo: String,
    pub amount: u128,
    pub currency: Currency,
    pub tx_hash: Option<TransactionHash>,
    pub timestamp: Timestamp,
    pub status: TransactionStatus,
}

/// Individual payout to a member.
#[derive(Debug, Clone)]
pub struct Payout {
    pub member_id: MemberId,
    pub amount: u128,
    pub currency: Currency,
    pub reason: String,
    pub timestamp: Timestamp,
}

pub struct PaymentsSystem {
    transactions: Vec<XRPTransaction>,
    allocations: Vec<Allocation>,
}

/// `percent`% of `amount`, rounded down.
pub open spec fn percent_of(amount: u128, percent: u64) -> int {
    (amount * percent) / 100
}

/// `percent`% of `amount`, rounded down, computed without overflow.
pub(crate) fn percent(amount: u128, pct: u64) -> (r: u128)
    requires
        pct <= 100,
    ensures
        r == percent_of(amount, pct),
{
    let p = pct as u128;
    let q = amount / 100;
    let rem = amount % 100;
    proof {
        assert((amount * pct) / 100 == q * pct + (rem * pct) / 100 && q * pct + (rem * pct) / 100
            <= amount) by (nonlinear_arith)
            requires
                q == amount / 100,
                rem == amount % 100,
                0 <= pct <= 100,
                amount >= 0,
        ;
        assert(q * p <= amount) by (nonlinear_arith)
            requires
                q == amount / 100,
                0 <= p <= 100,
                amount >= 0,
        ;
        assert(rem * p <= 10000) by (nonlinear_arith)
            requires
                rem < 100,
                0 <= p <= 100,
                rem >= 0,
        ;
    }
    q * p + (rem * p) / 100
}

/// The allocation of `amount`: (fee, members, reinvestment, reserves).
pub open spec fn allocation_of(amount: u128) -> (int, int, int, int) {
    let fee = percent_of(amount, FOUNDER_FEE_PERCENTAGE);
    let remaining = amount - fee;
    let members = percent_of(remaining as u128, MEMBER_DISTRIBUTION_PERCENTAGE);
    let reinvest = percent_of(remaining as u128, REINVESTMENT_PERCENTAGE);
    (fee, members, reinvest, remaining - members - reinvest)
}

/// A pending payment of `amount` to the founder's wallet and memo, under the
/// transaction id `id`.
pub open spec fn founder_payment(tx: XRPTransaction, amount: int, id: u128) -> bool {
    &&& tx.wallet_address@ == FOUNDER_XRP_WALLET@
    &&& tx.memo@ == FOUNDER_XRP_MEMO@
    &&& tx.amount == amount
    &&& tx.tx_hash matches Some(h) && h@ == "XRP_TX_"@ + uuid_text(id)
    &&& tx.status == TransactionStatus::Pending
}

/// The founder transaction recorded for a fee levied on `profit`.
pub open spec fn founder_transaction(tx: XRPTransaction, profit: u128, id: u128) -> bool {
    founder_payment(tx, percent_of(profit, FOUNDER_FEE_PERCENTAGE), id)
}

/// Sum of the amounts of founder transactions.
pub open spec fn founder_total(txs: Seq<XRPTransaction>) -> nat
    decreases txs.len(),
{
    if txs.len() == 0 {
        0
    } else {
        founder_total(txs.drop_last()) + if txs.last().wallet_address@ == FOUNDER_XRP_WALLET@ {
            txs.last().amount as nat
        } else {
            0
        }
    }
}

impl PaymentsSystem {
    pub closed spec fn transactions(&self) -> Seq<XRPTransaction> {
        self.transactions@
    }

    pub closed spec fn allocations(&self) -> Seq<Allocation> {
        self.allocations@
    }

    pub fn new() -> (r: CommonsResult<PaymentsSystem>)
        ensures
            r matches Ok(p) && p.transactions().len() == 0 && p.allocations().len() == 0,
    {
        Ok(PaymentsSystem { transactions: Vec::new(), allocations: Vec::new() })
    }

    /// Queue a pending payment of `amount` to the founder's wallet under the
    /// transaction id `id`, made at `timestamp`.
    fn queue_founder_payment(&mut self, amount: u128, currency: Currency, id: u128, timestamp: Timestamp) -> (h: TransactionHash)
        ensures
            h@ == "XRP_TX_"@ + uuid_text(id),
            final(self).allocations() == old(self).allocations(),
            final(self).transactions().len() == old(self).transactions().len() + 1,
            final(self).transactions().drop_last() == old(self).transactions(),
            founder_payment(final(self).transactions().last(), amount as int, id),
            final(self).transactions().last().currency == currency,
            final(self).transactions().last().timestamp == timestamp,
    {
        let mut tx_hash = String::from_str("XRP_TX_");
        let id_text = uuid_string(id);
        tx_hash.append(id_text.as_str());
        let returned = tx_hash.clone();
        let transaction = XRPTransaction {
            wallet_address: String::from_str(FOUNDER_XRP_WALLET),
            memo: String::from_str(FOUNDER_XRP_MEMO),
            amount,
            currency,
            tx_hash: Some(tx_hash),
            timestamp,
            status: TransactionStatus::Pending,
        };
        let ghost before = self.transactions@;
        self.transactions.push(transaction);
        assert(self.transactions@.drop_last() =~= before);
        returned
    }

    /// Allocate revenue: 1% founder's fee, then 50% members, 30%
    /// reinvestment, and the rest to reserves. The founder's fee itself is
    /// queued to the founder's wallet, and the allocation recorded.
    pub fn process_global_revenue(
        &mut self,
        stream: StreamType,
        amount: u128,
        currency: Currency,
    ) -> (r: CommonsResult<Allocation>)
        ensures
            r matches Ok(a) && {
                let split = allocation_of(amount);
                &&& a.founder_fee == split.0
                &&& a.member_distribution == split.1
                &&& a.reinvestment == split.2
                &&& a.reserves == split.3
                &&& a.total_processed == amount
                &&& a.founder_fee + a.member_distribution + a.reinvestment + a.reserves == amount
                &&& final(self).allocations() == old(self).allocations().push(a)
                &&& if a.founder_fee == 0 {
                    final(self).transactions() == old(self).transactions()
                } else {
                    &&& final(self).transactions().len() == old(self).transactions().len() + 1
                    &&& final(self).transactions().drop_last() == old(self).transactions()
                    &&& final(self).transactions().last().currency == currency
                    &&& final(self).transactions().last().amount == a.founder_fee
                    &&& exists|id: u128|
                        founder_payment(
                            #[trigger] final(self).transactions().last(),
                            a.founder_fee as int,
                            id,
                        )
                }
            },
    {
        let founder_fee = percent(amount, FOUNDER_FEE_PERCENTAGE);
        let remaining = amount - founder_fee;
        let member_distribution = percent(remaining, MEMBER_DISTRIBUTION_PERCENTAGE);
        let reinvestment = percent(remaining, REINVESTMENT_PERCENTAGE);
        let reserves = remaining - member_distribution - reinvestment;
        let allocation = Allocation {
            member_distribution,
            reinvestment,
            reserves,
            founder_fee,
            total_processed: amount,
            timestamp: current_timestamp(),
        };
        if founder_fee > 0 {
            let id = generate_id();
            let timestamp = current_timestamp();
            let _ = self.queue_founder_payment(founder_fee, currency, id, timestamp);
            assert(founder_payment(self.transactions@.last(), founder_fee as int, id));
        }
        self.allocations.push(allocation);
        Ok(allocation)
    }

    /// Queue the founder's fee (1% of `profit`) to the founder's XRP wallet
    /// under the transaction id `id`. Nothing is queued for a zero profit.
    pub fn perpetual_founder_fee_with_id(
        &mut self,
        profit: u128,
        currency: Currency,
        id: u128,
        timestamp: Timestamp,
    ) -> (r: CommonsResult<TransactionHash>)
        ensures
            final(self).allocations() == old(self).allocations(),
            profit == 0 ==> (r matches Ok(h) && h@ == "SKIPPED_ZERO_AMOUNT"@ && final(self).transactions() == old(self).transactions()),
            profit > 0 ==> (r matches Ok(h) && h@ == "XRP_TX_"@ + uuid_text(id) && final(self).transactions().len() == old(self).transactions().len() + 1 && final(self).transactions().drop_last() == old(self).transactions() && founder_transaction(
                final(self).transactions().last(),
                profit,
                id,
            ) && final(self).transactions().last().currency == currency && final(self).transactions().last().timestamp == timestamp),
    {
        if profit == 0 {
            return Ok(String::from_str("SKIPPED_ZERO_AMOUNT"));
        }
        let fee_amount = percent(profit, FOUNDER_FEE_PERCENTAGE);
        let h = self.queue_founder_payment(fee_amount, currency, id, timestamp);
        Ok(h)
    }

    /// Queue the founder's fee (1% of `profit`) to the founder's XRP wallet
    /// under a fresh transaction id. Nothing is queued for a zero profit.
    pub fn perpetual_founder_fee(&mut self, profit: u128, currency: Currency) -> (r: CommonsResult<
        TransactionHash,
    >)
        ensures
            final(self).allocations() == old(self).allocations(),
            profit == 0 ==> (r matches Ok(h) && h@ == "SKIPPED_ZERO_AMOUNT"@ && final(self).transactions() == old(self).transactions()),
            profit > 0 ==> (r matches Ok(h) && final(self).transactions().len() == old(self).transactions().len() + 1 && final(self).transactions().drop_last() == old(self).transactions() && (exists|id: u128|
                founder_transaction(#[trigger] final(self).transactions().last(), profit, id)
                    && h@ == "XRP_TX_"@ + uuid_text(id)) && final(self).transactions().last().currency == currency),
    {
        let id = generate_id();
        let now = current_timestamp();
        self.perpetual_founder_fee_with_id(profit, currency, id, now)
    }

    /// All founder's fee transactions, in the order they were queued.
    pub fn get_founder_transactions(&self) -> (r: Vec<&XRPTransaction>)
        ensures
            r@.len() <= self.transactions().len(),
            forall|k: int| 0 <= k < r@.len() ==> (#[trigger] r@[k]).wallet_address@ == FOUNDER_XRP_WALLET@,
            forall|i: int|
                0 <= i < self.transactions().len() && (#[trigger] self.transactions()[i]).wallet_address@
                    == FOUNDER_XRP_WALLET@ ==> r@.contains(&self.transactions()[i]),
    {
        let wallet = String::from_str(FOUNDER_XRP_WALLET);
        let mut r: Vec<&XRPTransaction> = Vec::new();
        let mut i: usize = 0;
        while i < self.transactions.len()
            invariant
                i <= self.transactions@.len(),
                wallet@ == FOUNDER_XRP_WALLET@,
                r@.len() <= i,
                forall|k: int| 0 <= k < r@.len() ==> (#[trigger] r@[k]).wallet_address@ == FOUNDER_XRP_WALLET@,
                forall|j: int|
                    0 <= j < i && (#[trigger] self.transactions@[j]).wallet_address@
                        == FOUNDER_XRP_WALLET@ ==> r@.contains(&self.transactions@[j]),
            decreases self.transactions@.len() - i,
        {
            let tx = &self.transactions[i];
            if tx.wallet_address == wallet {
                let ghost before = r@;
                r.push(tx);
                proof {
                    assert(r@[r@.len() - 1] == tx);
                    assert forall|j: int|
                        0 <= j < i + 1 && (#[trigger] self.transactions@[j]).wallet_address@
                            == FOUNDER_XRP_WALLET@ implies r@.contains(&self.transactions@[j]) by {
                        if j < i {
                            let k = choose|k: int| 0 <= k < before.len() && before[k] == &self.transactions@[j];
                            assert(r@[k] == before[k]);
                        }
                    }
                }
            }
            i = i + 1;
        }
        r
    }

    /// Total founder's fees queued.
    pub fn get_total_founder_fees(&self) -> (t: u128)
        requires
            founder_total(self.transactions()) <= u128::MAX,
        ensures
            t == founder_total(self.transactions()),
    {
        let wallet = String::from_str(FOUNDER_XRP_WALLET);
        let ghost txs = self.transactions@;
        let mut t: u128 = 0;
        let mut i: usize = 0;
        while i < self.transactions.len()
            invariant
                txs == self.transactions@,
                i <= txs.len(),
                wallet@ == FOUNDER_XRP_WALLET@,
                founder_total(txs) <= u128::MAX,
                t == founder_total(txs.subrange(0, i as int)),
            decreases txs.len() - i,
        {
            proof {
                assert(txs.subrange(0, i + 1).drop_last() =~= txs.subrange(0, i as int));
                lemma_founder_total_prefix(txs, i + 1);
            }
            if self.transactions[i].wallet_address == wallet {
                t = t + self.transactions[i].amount;
            }
            i = i + 1;
        }
        assert(txs.subrange(0, i as int) =~= txs);
        t
    }

    /// The founder's fee configuration: wallet, memo and fee percentage.
    pub fn verify_founder_config() -> (r: (String, String, u64))
        ensures
            r.0@ == FOUNDER_XRP_WALLET@,
            r.1@ == FOUNDER_XRP_MEMO@,
            r.2 == FOUNDER_FEE_PERCENTAGE,
    {
        (
            String::from_str(FOUNDER_XRP_WALLET),
            String::from_str(FOUNDER_XRP_MEMO),
            FOUNDER_FEE_PERCENTAGE,
        )
    }
}

proof fn lemma_founder_total_prefix(txs: Seq<XRPTransaction>, k: int)
    requires
        0 <= k <= txs.len(),
    ensures
        founder_total(txs.subrange(0, k)) <= founder_total(txs),
    decreases txs.len(),
{
    if k == txs.len() {
        assert(txs.subrange(0, k) =~= txs);
    } else {
        assert(txs.drop_last().subrange(0, k) =~= txs.subrange(0, k));
        lemma_founder_total_prefix(txs.drop_last(), k);
    }
}

/// The allocation of an amount is exact: fee, members, reinvestment and
/// reserves add up to the amount, and the fee is 1% of it, rounded down.
pub proof fn lemma_allocation_exact(amount: u128)
    ensures
        ({
            let a = allocation_of(amount);
            &&& a.0 + a.1 + a.2 + a.3 == amount
            &&& 0 <= a.0 && 0 <= a.1 && 0 <= a.2 && 0 <= a.3
            &&& a.0 == amount / 100
        }),
{
    let fee = percent_of(amount, FOUNDER_FEE_PERCENTAGE);
    assert(0 <= fee <= amount && fee == amount / 100) by (nonlinear_arith)
        requires
            fee == (amount * 1) / 100,
            amount >= 0,
    ;
    let remaining = amount - fee;
    let m = percent_of(remaining as u128, MEMBER_DISTRIBUTION_PERCENTAGE);
    let r = percent_of(remaining as u128, REINVESTMENT_PERCENTAGE);
    assert(0 <= m && 0 <= r && m + r <= remaining) by (nonlinear_arith)
        requires
            m == (remaining * 50) / 100,
            r == (remaining * 30) / 100,
            remaining >= 0,
    ;
}

impl Default for PaymentsSystem {
    fn default() -> (r: PaymentsSystem)
        ensures
            r.transactions().len() == 0,
            r.allocations().len() == 0,
    {
        PaymentsSystem { transactions: Vec::new(), allocations: Vec::new() }
    }
}

} // verus!
