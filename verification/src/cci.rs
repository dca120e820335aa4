//! Creative Contribution Index: a tamper-evident, hash-chained ledger of
//! creative work, with the peer-review rules that decide which reviews count.
//!
//! Hours and impact scores are IEEE-754 binary64 values. The ledger keeps them
//! by their bit patterns (`f64::to_bits`), so every rule here is integer logic:
//! for non-negative doubles the numeric order is the order of the bit
//! patterns, and every negative value and every NaN has a pattern above the
//! largest positive finite value.

use vstd::prelude::*;
use std::collections::HashMap;
use vstd::bytes::{spec_u128_to_le_bytes, spec_u64_to_le_bytes, u128_to_le_bytes, u64_to_le_bytes};
use vstd::slice::slice_to_vec;
use vstd::utf8::encode_utf8;
use crate::utils::{current_timestamp, generate_id, MemberId, ProjectId, Timestamp};

verus! {

broadcast use vstd::std_specs::hash::group_hash_axioms;

/// Minimum number of independent peer reviews before a contribution scores.
pub const MIN_REVIEWS: usize = 3;

/// Bit pattern of `84.0_f64`, the most hours one entry may claim.
pub const MAX_HOURS_BITS: u64 = 0x4055_0000_0000_0000;

/// Bit pattern of `1.0_f64`, the highest impact score.
pub const MAX_IMPACT_BITS: u64 = 0x3ff0_0000_0000_0000;

/// Bit pattern of `-0.0_f64`, which compares equal to `0.0`.
pub const NEGATIVE_ZERO_BITS: u64 = 0x8000_0000_0000_0000;

/// FNV-1a 64-bit offset basis.
pub const FNV_OFFSET: u64 = 0xcbf2_9ce4_8422_2325;

/// FNV-1a 64-bit prime.
pub const FNV_PRIME: u64 = 0x0000_0100_0000_01b3;

/// Types of creative contributions.
#[derive(Debug, Clone, PartialEq, Eq)]
pub enum ContributionType {
    Direction,
    Acting,
    Writing,
    Cinematography,
    Editing,
    Sound,
    Production,
    Design,
    Technical,
    Community,
    Other(String),
}

/// A single peer review of a contribution.
#[derive(Debug, Clone, Copy, PartialEq, Eq, Structural)]
pub struct PeerReview {
    pub reviewer: MemberId,
    /// Bit pattern of the quality judgment, a double in [0, 1].
    pub impact_bits: u64,
    pub timestamp: Timestamp,
}

/// One ledger entry.
#[derive(Debug, Clone)]
pub struct Contribution {
    pub id: u128,
    pub member_id: MemberId,
    pub project_id: ProjectId,
    pub contribution_type: ContributionType,
    /// Bit pattern of the hours claimed, a double in (0, 84].
    pub hours_bits: u64,
    pub reviews: Vec<PeerReview>,
    pub timestamp: Timestamp,
    /// Hash of the previous ledger entry, chaining the ledger together.
    pub prev_hash: u64,
    /// Hash of this entry's content combined with `prev_hash`.
    pub entry_hash: u64,
}

/// Why the ledger refused a contribution or a review.
#[derive(Debug, Clone, PartialEq, Eq)]
pub enum CciError {
    /// Hours must lie in (0, 84].
    HoursOutOfRange,
    /// A member reviewed their own work.
    SelfReview,
    /// The peer giving the judgment contributed to the same project.
    ConflictOfInterest { reviewer: MemberId, project: ProjectId },
    /// The same peer already judged this contribution.
    DuplicateReview(MemberId),
    /// Impact scores must lie in [0, 1].
    ImpactOutOfRange,
    /// No ledger entry has this id.
    UnknownContribution(u128),
}

/// Ledger integrity report.
#[derive(Debug, Clone, Copy, PartialEq, Eq, Structural)]
pub struct AuditReport {
    pub entries: usize,
    pub chain_valid: bool,
    pub first_invalid_entry: Option<u128>,
}

/// Hours an entry may claim: a positive double no larger than 84.
pub open spec fn hours_in_range(bits: u64) -> bool {
    0 < bits <= MAX_HOURS_BITS
}

/// Impact scores a review may give: a double in [0, 1], either zero included.
pub open spec fn impact_in_range(bits: u64) -> bool {
    bits <= MAX_IMPACT_BITS || bits == NEGATIVE_ZERO_BITS
}

/// FNV-1a of `bytes`, starting from the offset basis xor `seed`.
pub open spec fn fnv1a(bytes: Seq<u8>, seed: u64) -> u64
    decreases bytes.len(),
{
    if bytes.len() == 0 {
        FNV_OFFSET ^ seed
    } else {
        (fnv1a(bytes.drop_last(), seed) ^ (bytes.last() as u64)).wrapping_mul(FNV_PRIME)
    }
}

/// FNV-1a over `bytes`, seeded. Tamper-evidence for local audit.
pub fn hash_bytes(bytes: &[u8], seed: u64) -> (h: u64)
    ensures
        h == fnv1a(bytes@, seed),
{
    let mut h: u64 = FNV_OFFSET ^ seed;
    let mut i: usize = 0;
    while i < bytes.len()
        invariant
            i <= bytes@.len(),
            h == fnv1a(bytes@.subrange(0, i as int), seed),
        decreases bytes@.len() - i,
    {
        proof {
            let next = bytes@.subrange(0, i + 1);
            assert(next.drop_last() =~= bytes@.subrange(0, i as int));
            assert(next.last() == bytes@[i as int]);
        }
        h = h ^ (bytes[i] as u64);
        h = h.wrapping_mul(FNV_PRIME);
        i = i + 1;
    }
    assert(bytes@.subrange(0, i as int) =~= bytes@);
    h
}

/// The bytes a contribution type contributes to its entry's hash.
pub open spec fn type_bytes(t: ContributionType) -> Seq<u8> {
    match t {
        ContributionType::Direction => seq![0u8],
        ContributionType::Acting => seq![1u8],
        ContributionType::Writing => seq![2u8],
        ContributionType::Cinematography => seq![3u8],
        ContributionType::Editing => seq![4u8],
        ContributionType::Sound => seq![5u8],
        ContributionType::Production => seq![6u8],
        ContributionType::Design => seq![7u8],
        ContributionType::Technical => seq![8u8],
        ContributionType::Community => seq![9u8],
        ContributionType::Other(s) => seq![10u8] + spec_u64_to_le_bytes(
            encode_utf8(s@).len() as u64,
        ) + encode_utf8(s@),
    }
}

/// The bytes of one review: who gave it, the impact, the time, little-endian.
pub open spec fn review_bytes(r: PeerReview) -> Seq<u8> {
    spec_u128_to_le_bytes(r.reviewer) + spec_u64_to_le_bytes(r.impact_bits) + spec_u64_to_le_bytes(
        r.timestamp as u64,
    )
}

/// The bytes of a list of reviews, in order.
pub open spec fn reviews_bytes(rs: Seq<PeerReview>) -> Seq<u8>
    decreases rs.len(),
{
    if rs.len() == 0 {
        Seq::empty()
    } else {
        reviews_bytes(rs.drop_last()) + review_bytes(rs.last())
    }
}

/// The canonical encoding of an entry that its hash covers: every field but
/// the entry hash itself.
pub open spec fn entry_bytes(c: Contribution) -> Seq<u8> {
    spec_u128_to_le_bytes(c.id) + spec_u128_to_le_bytes(c.member_id) + spec_u128_to_le_bytes(
        c.project_id,
    ) + type_bytes(c.contribution_type) + spec_u64_to_le_bytes(c.hours_bits)
        + spec_u64_to_le_bytes(c.reviews@.len() as u64) + reviews_bytes(c.reviews@)
        + spec_u64_to_le_bytes(c.timestamp as u64) + spec_u64_to_le_bytes(c.prev_hash)
}

/// The hash an entry must carry: FNV-1a of its encoding, seeded by the
/// previous entry's hash.
pub open spec fn entry_hash_of(c: Contribution) -> u64 {
    fnv1a(entry_bytes(c), c.prev_hash)
}

fn type_encoding(t: &ContributionType) -> (v: Vec<u8>)
    ensures
        v@ == type_bytes(*t),
{
    let tag: u8 = match t {
        ContributionType::Direction => 0,
        ContributionType::Acting => 1,
        ContributionType::Writing => 2,
        ContributionType::Cinematography => 3,
        ContributionType::Editing => 4,
        ContributionType::Sound => 5,
        ContributionType::Production => 6,
        ContributionType::Design => 7,
        ContributionType::Technical => 8,
        ContributionType::Community => 9,
        ContributionType::Other(_) => 10,
    };
    let mut v: Vec<u8> = Vec::new();
    v.push(tag);
    match t {
        ContributionType::Other(s) => {
            let text = s.as_str().as_bytes();
            let mut len = u64_to_le_bytes(text.len() as u64);
            let mut body = slice_to_vec(text);
            v.append(&mut len);
            v.append(&mut body);
        },
        _ => {},
    }
    assert(v@ =~= type_bytes(*t));
    v
}

/// The canonical encoding of an entry (see `entry_bytes`).
pub fn encode_entry(c: &Contribution) -> (v: Vec<u8>)
    ensures
        v@ == entry_bytes(*c),
{
    let mut v = u128_to_le_bytes(c.id);
    let mut part = u128_to_le_bytes(c.member_id);
    v.append(&mut part);
    let mut part = u128_to_le_bytes(c.project_id);
    v.append(&mut part);
    let mut part = type_encoding(&c.contribution_type);
    v.append(&mut part);
    let mut part = u64_to_le_bytes(c.hours_bits);
    v.append(&mut part);
    let mut part = u64_to_le_bytes(c.reviews.len() as u64);
    v.append(&mut part);
    let ghost head = v@;
    let mut i: usize = 0;
    while i < c.reviews.len()
        invariant
            i <= c.reviews@.len(),
            v@ == head + reviews_bytes(c.reviews@.subrange(0, i as int)),
        decreases c.reviews@.len() - i,
    {
        let r = c.reviews[i];
        let mut part = u128_to_le_bytes(r.reviewer);
        v.append(&mut part);
        let mut part = u64_to_le_bytes(r.impact_bits);
        v.append(&mut part);
        let mut part = u64_to_le_bytes(r.timestamp as u64);
        v.append(&mut part);
        proof {
            let next = c.reviews@.subrange(0, i + 1);
            assert(next.drop_last() =~= c.reviews@.subrange(0, i as int));
            assert(next.last() == r);
            assert(v@ =~= head + reviews_bytes(next));
        }
        i = i + 1;
    }
    assert(c.reviews@.subrange(0, i as int) =~= c.reviews@);
    let mut part = u64_to_le_bytes(c.timestamp as u64);
    v.append(&mut part);
    let mut part = u64_to_le_bytes(c.prev_hash);
    v.append(&mut part);
    assert(v@ =~= entry_bytes(*c));
    v
}

/// The hash `c` must carry to be a valid ledger entry.
pub fn compute_entry_hash(c: &Contribution) -> (h: u64)
    ensures
        h == entry_hash_of(*c),
{
    let bytes = encode_entry(c);
    hash_bytes(bytes.as_slice(), c.prev_hash)
}

/// Why the `i`-th review listed with a new contribution of `member` on
/// `project` is refused, given the project's earlier contributors
/// `existing`: the checks run in this order, and each peer may judge once.
pub open spec fn listed_review_error(
    reviews: Seq<PeerReview>,
    i: int,
    member: MemberId,
    project: ProjectId,
    existing: Seq<MemberId>,
) -> Option<CciError> {
    let r = reviews[i];
    if r.reviewer == member {
        Some(CciError::SelfReview)
    } else if existing.contains(r.reviewer) {
        Some(CciError::ConflictOfInterest { reviewer: r.reviewer, project })
    } else if exists|j: int| 0 <= j < i && #[trigger] reviews[j].reviewer == r.reviewer {
        Some(CciError::DuplicateReview(r.reviewer))
    } else if !impact_in_range(r.impact_bits) {
        Some(CciError::ImpactOutOfRange)
    } else {
        None
    }
}

/// The refusal of the first of the first `n` listed reviews that is refused.
pub open spec fn first_listed_error(
    reviews: Seq<PeerReview>,
    n: int,
    member: MemberId,
    project: ProjectId,
    existing: Seq<MemberId>,
) -> Option<CciError>
    decreases n,
{
    if n <= 0 {
        None
    } else {
        match first_listed_error(reviews, n - 1, member, project, existing) {
            Some(e) => Some(e),
            None => listed_review_error(reviews, n - 1, member, project, existing),
        }
    }
}

/// Why a contribution is refused, if it is: hours first, then its reviews
/// in order.
pub open spec fn contribution_error(
    hours_bits: u64,
    reviews: Seq<PeerReview>,
    member: MemberId,
    project: ProjectId,
    existing: Seq<MemberId>,
) -> Option<CciError> {
    if !hours_in_range(hours_bits) {
        Some(CciError::HoursOutOfRange)
    } else {
        first_listed_error(reviews, reviews.len() as int, member, project, existing)
    }
}

/// `v` with `m` added at its end unless it is there already.
pub open spec fn with_member(v: Seq<MemberId>, m: MemberId) -> Seq<MemberId> {
    if v.contains(m) {
        v
    } else {
        v.push(m)
    }
}

/// Once a listed review is refused, the refusal stands whatever follows it.
proof fn lemma_first_error_stays(
    reviews: Seq<PeerReview>,
    n: int,
    m: int,
    member: MemberId,
    project: ProjectId,
    existing: Seq<MemberId>,
)
    requires
        0 <= n <= m,
        first_listed_error(reviews, n, member, project, existing) is Some,
    ensures
        first_listed_error(reviews, m, member, project, existing) == first_listed_error(
            reviews,
            n,
            member,
            project,
            existing,
        ),
    decreases m - n,
{
    if n < m {
        lemma_first_error_stays(reviews, n, m - 1, member, project, existing);
    }
}

fn reviewer_listed(v: &[PeerReview], reviewer: MemberId) -> (b: bool)
    ensures
        b == exists|k: int| 0 <= k < v@.len() && #[trigger] v@[k].reviewer == reviewer,
{
    let mut k: usize = 0;
    while k < v.len()
        invariant
            k <= v@.len(),
            forall|j: int| 0 <= j < k ==> #[trigger] v@[j].reviewer != reviewer,
        decreases v@.len() - k,
    {
        if v[k].reviewer == reviewer {
            assert(v@[k as int].reviewer == reviewer);
            return true;
        }
        k = k + 1;
    }
    false
}

fn id_listed(v: &[u128], x: u128) -> (b: bool)
    ensures
        b == v@.contains(x),
{
    let mut i: usize = 0;
    while i < v.len()
        invariant
            i <= v@.len(),
            forall|j: int| 0 <= j < i ==> v@[j] != x,
        decreases v@.len() - i,
    {
        if v[i] == x {
            assert(v@[i as int] == x);
            return true;
        }
        i = i + 1;
    }
    false
}

/// `i` is the first entry of `s` whose id is `id`.
pub open spec fn first_with_id(s: Seq<Contribution>, id: u128, i: int) -> bool {
    &&& 0 <= i < s.len()
    &&& s[i].id == id
    &&& forall|j: int| 0 <= j < i ==> #[trigger] s[j].id != id
}

/// `s` is strictly ascending.
pub open spec fn ascending(s: Seq<u128>) -> bool {
    forall|i: int, j: int| 0 <= i < j < s.len() ==> #[trigger] s[i] < #[trigger] s[j]
}

/// The sum of `s`.
pub open spec fn total(s: Seq<u128>) -> int
    decreases s.len(),
{
    if s.len() == 0 {
        0
    } else {
        total(s.drop_last()) + s.last()
    }
}

/// The first `n` payouts when each claim in `raw` is paid in order, capped
/// by what is left of `pot`.
pub open spec fn clamped(pot: u128, raw: Seq<u128>, n: int) -> Seq<u128>
    decreases n,
{
    if n <= 0 {
        Seq::empty()
    } else {
        let before = clamped(pot, raw, n - 1);
        let left = pot - total(before);
        before.push(if raw[n - 1] <= left { raw[n - 1] } else { left as u128 })
    }
}

/// Insert `x` into the strictly ascending `v`, unless it is there already.
fn insert_ascending(v: &mut Vec<u128>, x: u128)
    requires
        ascending(old(v)@),
    ensures
        ascending(final(v)@),
        forall|y: u128| #[trigger] final(v)@.contains(y) <==> (old(v)@.contains(y) || y == x),
{
    let mut pos: usize = 0;
    while pos < v.len() && v[pos] < x
        invariant
            pos <= v@.len(),
            forall|j: int| 0 <= j < pos ==> v@[j] < x,
        decreases v@.len() - pos,
    {
        pos = pos + 1;
    }
    if pos < v.len() && v[pos] == x {
        return;
    }
    let ghost before = v@;
    v.insert(pos, x);
    proof {
        let after = v@;
        assert forall|i: int, j: int| 0 <= i < j < after.len() implies #[trigger] after[i] < #[trigger] after[j] by {
            if j < pos {
                assert(after[i] == before[i] && after[j] == before[j]);
            } else if j == pos {
                assert(after[i] == before[i]);
            } else if i < pos {
                assert(after[i] == before[i] && after[j] == before[j - 1]);
                assert(before[i] < x);
                assert(x <= before[pos as int]);
                if j - 1 > pos {
                    assert(before[pos as int] < before[j - 1]);
                }
            } else if i == pos {
                assert(after[j] == before[j - 1]);
                assert(x < before[pos as int]);
                if j - 1 > pos {
                    assert(before[pos as int] < before[j - 1]);
                }
            } else {
                assert(after[i] == before[i - 1] && after[j] == before[j - 1]);
            }
        }
        assert forall|y: u128| #[trigger] after.contains(y) <==> (before.contains(y) || y == x) by {
            if after.contains(y) {
                let k = choose|k: int| 0 <= k < after.len() && after[k] == y;
                if k < pos {
                    assert(before[k] == y);
                } else if k > pos {
                    assert(before[k - 1] == y);
                }
            }
            if before.contains(y) {
                let k = choose|k: int| 0 <= k < before.len() && before[k] == y;
                if k < pos {
                    assert(after[k] == y);
                } else {
                    assert(after[k + 1] == y);
                }
            }
            if y == x {
                assert(after[pos as int] == x);
            }
        }
    }
}

/// Pay the claims in `raw` in order from `pot`, each capped by what is left,
/// so the payouts never add up to more than the pot.
pub fn clamp_shares(pot: u128, raw: &[u128]) -> (paid: Vec<u128>)
    ensures
        paid@ == clamped(pot, raw@, raw@.len() as int),
        total(paid@) <= pot,
{
    let mut paid: Vec<u128> = Vec::new();
    let mut remaining: u128 = pot;
    let mut i: usize = 0;
    while i < raw.len()
        invariant
            i <= raw@.len(),
            paid@ == clamped(pot, raw@, i as int),
            remaining == pot - total(paid@),
        decreases raw@.len() - i,
    {
        let amount = if raw[i] <= remaining {
            raw[i]
        } else {
            remaining
        };
        paid.push(amount);
        proof {
            assert(paid@.drop_last() =~= clamped(pot, raw@, i as int));
        }
        remaining = remaining - amount;
        i = i + 1;
    }
    paid
}

/// The hash the entry at `i` must link back to: its predecessor's, or zero.
pub open spec fn expected_prev(s: Seq<Contribution>, i: int) -> u64 {
    if i == 0 {
        0
    } else {
        s[i - 1].entry_hash
    }
}

/// The entry at `i` links to its predecessor and carries its own hash.
pub open spec fn entry_valid(s: Seq<Contribution>, i: int) -> bool {
    &&& s[i].prev_hash == expected_prev(s, i)
    &&& s[i].entry_hash == entry_hash_of(s[i])
}

/// Every entry of `s` is valid.
pub open spec fn chain_valid(s: Seq<Contribution>) -> bool {
    forall|i: int| 0 <= i < s.len() ==> #[trigger] entry_valid(s, i)
}

/// `i` is the first entry of `s` that is not valid.
pub open spec fn first_invalid(s: Seq<Contribution>, i: int) -> bool {
    &&& 0 <= i < s.len()
    &&& !entry_valid(s, i)
    &&& forall|j: int| 0 <= j < i ==> #[trigger] entry_valid(s, j)
}

/// The hash of the newest entry of `s`, or zero for an empty ledger.
pub open spec fn head_of(s: Seq<Contribution>) -> u64 {
    if s.len() == 0 {
        0
    } else {
        s.last().entry_hash
    }
}

/// Verify a hash chain: the report names the first entry that does not link
/// to its predecessor or does not carry the hash of its own content.
pub fn audit_entries(entries: &[Contribution]) -> (r: AuditReport)
    ensures
        r.entries == entries@.len(),
        r.chain_valid == chain_valid(entries@),
        r.chain_valid ==> r.first_invalid_entry is None,
        forall|i: int| #[trigger] first_invalid(entries@, i) ==> r.first_invalid_entry == Some(
            entries@[i].id,
        ),
{
    let mut prev_hash: u64 = 0;
    let mut i: usize = 0;
    while i < entries.len()
        invariant
            i <= entries@.len(),
            prev_hash == expected_prev(entries@, i as int),
            forall|j: int| 0 <= j < i ==> #[trigger] entry_valid(entries@, j),
        decreases entries@.len() - i,
    {
        let c = &entries[i];
        if c.prev_hash != prev_hash || compute_entry_hash(c) != c.entry_hash {
            proof {
                assert(!entry_valid(entries@, i as int));
                assert forall|k: int| #[trigger] first_invalid(entries@, k) implies k == i by {
                    if k < i {
                    } else if k > i {
                        assert(entry_valid(entries@, i as int));
                    }
                }
            }
            return AuditReport { entries: entries.len(), chain_valid: false, first_invalid_entry: Some(c.id) };
        }
        prev_hash = c.entry_hash;
        i = i + 1;
    }
    AuditReport { entries: entries.len(), chain_valid: true, first_invalid_entry: None }
}

/// Rewriting the content of an entry of a valid chain, while leaving the
/// hashes stored in it untouched, makes that entry the first one an audit
/// rejects, unless the rewritten content hashes to the same value.
pub proof fn lemma_rewrite_detected(s: Seq<Contribution>, i: int, c: Contribution)
    requires
        chain_valid(s),
        0 <= i < s.len(),
        c.prev_hash == s[i].prev_hash,
        c.entry_hash == s[i].entry_hash,
        entry_hash_of(c) != entry_hash_of(s[i]),
    ensures
        first_invalid(s.update(i, c), i),
{
    let t = s.update(i, c);
    assert(entry_valid(s, i));
    assert forall|j: int| 0 <= j < i implies #[trigger] entry_valid(t, j) by {
        assert(entry_valid(s, j));
        if j > 0 {
            assert(t[j - 1] == s[j - 1]);
        }
    }
}

/// Each peer judges a contribution at most once: a review of the entry at
/// `i` by a peer who already judged it, whether among the reviews listed
/// with it or among those added later, is refused; it is refused as a
/// duplicate unless it is a self-review or a conflict of interest.
pub proof fn lemma_second_review_refused(sys: &CCISystem, i: int, review: PeerReview)
    requires
        0 <= i < sys.ledger().len(),
        (exists|k: int|
            0 <= k < sys.ledger()[i].reviews@.len() && #[trigger] sys.ledger()[i].reviews@[k].reviewer
                == review.reviewer) || (exists|k: int|
            0 <= k < sys.pending_for(sys.ledger()[i].id).len() && #[trigger] sys.pending_for(
                sys.ledger()[i].id,
            )[k].reviewer == review.reviewer),
    ensures
        sys.review_error(i, review) is Some,
        review.reviewer != sys.ledger()[i].member_id && !sys.contributors_on(
            sys.ledger()[i].project_id,
        ).contains(review.reviewer) ==> sys.review_error(i, review) == Some(
            CciError::DuplicateReview(review.reviewer),
        ),
{
    let listed = sys.ledger()[i].reviews@;
    let later = sys.pending_for(sys.ledger()[i].id);
    let all = sys.reviews_of(i);
    assert(all == listed + later);
    if exists|k: int| 0 <= k < listed.len() && #[trigger] listed[k].reviewer == review.reviewer {
        let k = choose|k: int| 0 <= k < listed.len() && #[trigger] listed[k].reviewer == review.reviewer;
        assert(all[k] == listed[k]);
        assert(all[k].reviewer == review.reviewer);
    } else {
        let k = choose|k: int| 0 <= k < later.len() && #[trigger] later[k].reviewer == review.reviewer;
        assert(all[listed.len() + k] == later[k]);
        assert(all[listed.len() + k].reviewer == review.reviewer);
    }
}

/// The contribution ledger with its peer-review rules.
pub struct CCISystem {
    ledger: Vec<Contribution>,
    /// Members who contributed to each project, who may not review there.
    project_contributors: HashMap<ProjectId, Vec<MemberId>>,
    /// Reviews added after their contribution was appended.
    pending_reviews: HashMap<u128, Vec<PeerReview>>,
}

impl CCISystem {
    /// The ledger entries, oldest first.
    pub closed spec fn ledger(&self) -> Seq<Contribution> {
        self.ledger@
    }

    /// The contributors recorded for each project.
    pub closed spec fn contributors(&self) -> Map<ProjectId, Seq<MemberId>> {
        self.project_contributors@.map_values(|v: Vec<MemberId>| v@)
    }

    /// The reviews added to each entry after it was appended.
    pub closed spec fn pending(&self) -> Map<u128, Seq<PeerReview>> {
        self.pending_reviews@.map_values(|v: Vec<PeerReview>| v@)
    }

    /// The ledger is a valid hash chain.
    pub closed spec fn wf(&self) -> bool {
        chain_valid(self.ledger@)
    }

    pub open spec fn contributors_on(&self, project: ProjectId) -> Seq<MemberId> {
        if self.contributors().contains_key(project) {
            self.contributors()[project]
        } else {
            Seq::empty()
        }
    }

    pub open spec fn pending_for(&self, id: u128) -> Seq<PeerReview> {
        if self.pending().contains_key(id) {
            self.pending()[id]
        } else {
            Seq::empty()
        }
    }

    /// Every review that counts for the entry at `i`: those given with it,
    /// then those added later.
    pub open spec fn reviews_of(&self, i: int) -> Seq<PeerReview> {
        self.ledger()[i].reviews@ + self.pending_for(self.ledger()[i].id)
    }

    /// The entry at `i` has enough reviews to score.
    pub open spec fn scores(&self, i: int) -> bool {
        self.reviews_of(i).len() >= MIN_REVIEWS
    }

    pub fn new() -> (r: Result<CCISystem, CciError>)
        ensures
            r matches Ok(c) && {
                &&& c.wf()
                &&& c.ledger().len() == 0
                &&& c.contributors() == Map::<ProjectId, Seq<MemberId>>::empty()
                &&& c.pending() == Map::<u128, Seq<PeerReview>>::empty()
            },
    {
        let c = CCISystem {
            ledger: Vec::new(),
            project_contributors: HashMap::new(),
            pending_reviews: HashMap::new(),
        };
        assert(c.contributors() =~= Map::<ProjectId, Seq<MemberId>>::empty());
        assert(c.pending() =~= Map::<u128, Seq<PeerReview>>::empty());
        Ok(c)
    }

    /// `self` is `old` with one entry appended for `member`'s work on
    /// `project`, hashed onto the old head, and `member` recorded as a
    /// contributor there; pending reviews are unchanged.
    pub open spec fn appended(
        &self,
        old: &CCISystem,
        id: u128,
        member: MemberId,
        project: ProjectId,
        contribution_type: ContributionType,
        hours_bits: u64,
        reviews: Seq<PeerReview>,
        timestamp: Timestamp,
    ) -> bool {
        let c = self.ledger().last();
        &&& self.ledger().len() == old.ledger().len() + 1
        &&& self.ledger().drop_last() == old.ledger()
        &&& c.id == id
        &&& c.member_id == member
        &&& c.project_id == project
        &&& c.contribution_type == contribution_type
        &&& c.hours_bits == hours_bits
        &&& c.reviews@ == reviews
        &&& c.timestamp == timestamp
        &&& c.prev_hash == head_of(old.ledger())
        &&& c.entry_hash == entry_hash_of(c)
        &&& self.contributors() == old.contributors().insert(
            project,
            with_member(old.contributors_on(project), member),
        )
        &&& self.pending() == old.pending()
    }

    /// Append `member`'s work on `project` as entry `id`, made at
    /// `timestamp`, if the hours lie in (0, 84] and every listed review is
    /// admissible: not by the member, not by a contributor to the project,
    /// at most one per peer, with an impact in [0, 1].
    pub fn add_contribution_with(
        &mut self,
        member_id: MemberId,
        project_id: ProjectId,
        contribution_type: ContributionType,
        hours_bits: u64,
        reviews: Vec<PeerReview>,
        id: u128,
        timestamp: Timestamp,
    ) -> (r: Result<u128, CciError>)
        requires
            old(self).wf(),
        ensures
            final(self).wf(),
            match contribution_error(
                hours_bits,
                reviews@,
                member_id,
                project_id,
                old(self).contributors_on(project_id),
            ) {
                Some(e) => r == Err::<u128, CciError>(e) && *final(self) == *old(self),
                None => r == Ok::<u128, CciError>(id) && final(self).appended(
                    old(self),
                    id,
                    member_id,
                    project_id,
                    contribution_type,
                    hours_bits,
                    reviews@,
                    timestamp,
                ),
            },
    {
        if !(0 < hours_bits && hours_bits <= MAX_HOURS_BITS) {
            return Err(CciError::HoursOutOfRange);
        }
        let ghost existing_view = self.contributors_on(project_id);
        let existing: Vec<MemberId> = match self.project_contributors.get(&project_id) {
            Some(v) => v.clone(),
            None => Vec::new(),
        };
        assert(existing@ == existing_view);
        let mut seen: Vec<MemberId> = Vec::new();
        let mut i: usize = 0;
        while i < reviews.len()
            invariant
                i <= reviews@.len(),
                *self == *old(self),
                old(self).wf(),
                hours_in_range(hours_bits),
                existing_view == old(self).contributors_on(project_id),
                existing@ == existing_view,
                seen@.len() == i,
                forall|j: int| 0 <= j < i ==> #[trigger] seen@[j] == reviews@[j].reviewer,
                first_listed_error(reviews@, i as int, member_id, project_id, existing_view)
                    is None,
            decreases reviews@.len() - i,
        {
            let review = reviews[i];
            let ghost dup = exists|j: int| 0 <= j < i && #[trigger] reviews@[j].reviewer == review.reviewer;
            proof {
                if dup {
                    let j = choose|j: int| 0 <= j < i && #[trigger] reviews@[j].reviewer == review.reviewer;
                    assert(seen@[j] == review.reviewer);
                }
                if seen@.contains(review.reviewer) {
                    let j = choose|j: int| 0 <= j < seen@.len() && seen@[j] == review.reviewer;
                    assert(reviews@[j].reviewer == review.reviewer);
                }
            }
            proof {
                if listed_review_error(reviews@, i as int, member_id, project_id, existing_view) is Some {
                    lemma_first_error_stays(
                        reviews@,
                        i + 1,
                        reviews@.len() as int,
                        member_id,
                        project_id,
                        existing_view,
                    );
                }
            }
            if review.reviewer == member_id {
                return Err(CciError::SelfReview);
            }
            if id_listed(existing.as_slice(), review.reviewer) {
                return Err(CciError::ConflictOfInterest { reviewer: review.reviewer, project: project_id });
            }
            if id_listed(seen.as_slice(), review.reviewer) {
                return Err(CciError::DuplicateReview(review.reviewer));
            }
            if !(review.impact_bits <= MAX_IMPACT_BITS || review.impact_bits == NEGATIVE_ZERO_BITS) {
                return Err(CciError::ImpactOutOfRange);
            }
            seen.push(review.reviewer);
            i = i + 1;
        }
        let mut members = existing;
        if !id_listed(members.as_slice(), member_id) {
            members.push(member_id);
        }
        assert(members@ == with_member(existing_view, member_id));
        self.project_contributors.insert(project_id, members);
        let prev_hash = self.head_hash();
        let mut contribution = Contribution {
            id,
            member_id,
            project_id,
            contribution_type,
            hours_bits,
            reviews,
            timestamp,
            prev_hash,
            entry_hash: 0,
        };
        let h = compute_entry_hash(&contribution);
        contribution.entry_hash = h;
        assert(entry_bytes(contribution) == entry_bytes(
            Contribution { entry_hash: 0, ..contribution },
        ));
        self.ledger.push(contribution);
        proof {
            let s = self.ledger@;
            assert(s.drop_last() =~= old(self).ledger@);
            assert forall|k: int| 0 <= k < s.len() implies #[trigger] entry_valid(s, k) by {
                if k < s.len() - 1 {
                    assert(entry_valid(old(self).ledger@, k));
                }
            }
            assert(self.contributors() =~= old(self).contributors().insert(
                project_id,
                with_member(existing_view, member_id),
            ));
        }
        Ok(id)
    }

    /// Append `member`'s work on `project` under a fresh id, stamped now; the
    /// rules are those of `add_contribution_with`.
    pub fn add_contribution(
        &mut self,
        member_id: MemberId,
        project_id: ProjectId,
        contribution_type: ContributionType,
        hours_bits: u64,
        reviews: Vec<PeerReview>,
    ) -> (r: Result<u128, CciError>)
        requires
            old(self).wf(),
        ensures
            final(self).wf(),
            contribution_error(
                hours_bits,
                reviews@,
                member_id,
                project_id,
                old(self).contributors_on(project_id),
            ) matches Some(e) ==> r == Err::<u128, CciError>(e) && *final(self) == *old(self),
            contribution_error(
                hours_bits,
                reviews@,
                member_id,
                project_id,
                old(self).contributors_on(project_id),
            ) is None ==> (r is Ok && final(self).appended(
                old(self),
                r->Ok_0,
                member_id,
                project_id,
                contribution_type,
                hours_bits,
                reviews@,
                final(self).ledger().last().timestamp,
            )),
    {
        let id = generate_id();
        let timestamp = current_timestamp();
        self.add_contribution_with(
            member_id,
            project_id,
            contribution_type,
            hours_bits,
            reviews,
            id,
            timestamp,
        )
    }

    /// Why a review of the entry at `i` is refused, if it is: the checks run
    /// in this order.
    pub open spec fn review_error(&self, i: int, review: PeerReview) -> Option<CciError> {
        let c = self.ledger()[i];
        if review.reviewer == c.member_id {
            Some(CciError::SelfReview)
        } else if self.contributors_on(c.project_id).contains(review.reviewer) {
            Some(CciError::ConflictOfInterest { reviewer: review.reviewer, project: c.project_id })
        } else if exists|k: int|
            0 <= k < self.reviews_of(i).len() && #[trigger] self.reviews_of(i)[k].reviewer
                == review.reviewer {
            Some(CciError::DuplicateReview(review.reviewer))
        } else if !impact_in_range(review.impact_bits) {
            Some(CciError::ImpactOutOfRange)
        } else {
            None
        }
    }

    /// Add a peer review to an appended contribution. The same rules apply
    /// as for reviews listed with it; the review is kept beside the entry,
    /// outside its hash, and counts from now on.
    pub fn add_review(&mut self, contribution_id: u128, review: PeerReview) -> (r: Result<
        (),
        CciError,
    >)
        requires
            old(self).wf(),
        ensures
            final(self).wf(),
            (forall|i: int| 0 <= i < old(self).ledger().len() ==> #[trigger] old(self).ledger()[i].id
                != contribution_id) ==> r == Err::<(), CciError>(
                CciError::UnknownContribution(contribution_id),
            ) && *final(self) == *old(self),
            forall|i: int| #[trigger]
                first_with_id(old(self).ledger(), contribution_id, i) ==> match old(
                    self,
                ).review_error(i, review) {
                    Some(e) => r == Err::<(), CciError>(e) && *final(self) == *old(self),
                    None => r == Ok::<(), CciError>(()) && final(self).ledger() == old(
                        self,
                    ).ledger() && final(self).contributors() == old(self).contributors()
                        && final(self).pending() == old(self).pending().insert(
                        contribution_id,
                        old(self).pending_for(contribution_id).push(review),
                    ),
                },
    {
        let mut idx: usize = 0;
        while idx < self.ledger.len() && self.ledger[idx].id != contribution_id
            invariant
                idx <= self.ledger@.len(),
                forall|j: int| 0 <= j < idx ==> #[trigger] self.ledger@[j].id != contribution_id,
            decreases self.ledger@.len() - idx,
        {
            idx = idx + 1;
        }
        if idx == self.ledger.len() {
            return Err(CciError::UnknownContribution(contribution_id));
        }
        assert(first_with_id(self.ledger@, contribution_id, idx as int));
        assert forall|i: int| #[trigger] first_with_id(self.ledger@, contribution_id, i) implies i
            == idx by {
            if i < idx {
            } else if i > idx {
                assert(self.ledger@[idx as int].id == contribution_id);
            }
        }
        let member_id = self.ledger[idx].member_id;
        let project_id = self.ledger[idx].project_id;
        if review.reviewer == member_id {
            return Err(CciError::SelfReview);
        }
        let conflicted = match self.project_contributors.get(&project_id) {
            Some(v) => id_listed(v.as_slice(), review.reviewer),
            None => false,
        };
        if conflicted {
            return Err(CciError::ConflictOfInterest { reviewer: review.reviewer, project: project_id });
        }
        let all = self.effective_reviews(idx);
        if reviewer_listed(all.as_slice(), review.reviewer) {
            return Err(CciError::DuplicateReview(review.reviewer));
        }
        if !(review.impact_bits <= MAX_IMPACT_BITS || review.impact_bits == NEGATIVE_ZERO_BITS) {
            return Err(CciError::ImpactOutOfRange);
        }
        let mut list: Vec<PeerReview> = match self.pending_reviews.remove(&contribution_id) {
            Some(v) => v,
            None => Vec::new(),
        };
        list.push(review);
        self.pending_reviews.insert(contribution_id, list);
        proof {
            assert(self.pending() =~= old(self).pending().insert(
                contribution_id,
                old(self).pending_for(contribution_id).push(review),
            ));
        }
        Ok(())
    }

    /// Every review that counts for the entry at `index`: those given with
    /// it, then those added later.
    pub fn effective_reviews(&self, index: usize) -> (r: Vec<PeerReview>)
        requires
            index < self.ledger().len(),
        ensures
            r@ == self.reviews_of(index as int),
    {
        let c = &self.ledger[index];
        let mut all: Vec<PeerReview> = c.reviews.clone();
        assert(all@ =~= c.reviews@);
        match self.pending_reviews.get(&c.id) {
            Some(v) => {
                let mut later = v.clone();
                assert(later@ =~= v@);
                all.append(&mut later);
            },
            None => {},
        }
        all
    }

    /// The reviews of the entry at `index` once it has the minimum number
    /// of them to score; `None` before that.
    pub fn scored_reviews(&self, index: usize) -> (r: Option<Vec<PeerReview>>)
        requires
            index < self.ledger().len(),
        ensures
            match r {
                Some(v) => self.scores(index as int) && v@ == self.reviews_of(index as int),
                None => !self.scores(index as int),
            },
    {
        let all = self.effective_reviews(index);
        if all.len() < MIN_REVIEWS {
            None
        } else {
            Some(all)
        }
    }

    /// The members with scoring work on `project`, in ascending id order:
    /// the order in which residuals are shared out.
    pub fn scoring_members(&self, project_id: ProjectId) -> (r: Vec<MemberId>)
        ensures
            ascending(r@),
            forall|m: MemberId| #[trigger]
                r@.contains(m) <==> exists|i: int|
                    0 <= i < self.ledger().len() && #[trigger] self.ledger()[i].project_id
                        == project_id && self.ledger()[i].member_id == m && self.scores(i),
    {
        let mut r: Vec<MemberId> = Vec::new();
        let mut i: usize = 0;
        while i < self.ledger.len()
            invariant
                i <= self.ledger@.len(),
                ascending(r@),
                forall|m: MemberId| #[trigger]
                    r@.contains(m) <==> exists|k: int|
                        0 <= k < i && #[trigger] self.ledger@[k].project_id == project_id
                            && self.ledger@[k].member_id == m && self.scores(k),
            decreases self.ledger@.len() - i,
        {
            if self.ledger[i].project_id == project_id {
                let all = self.effective_reviews(i);
                if all.len() >= MIN_REVIEWS {
                    let m = self.ledger[i].member_id;
                    insert_ascending(&mut r, m);
                }
            }
            proof {
                assert forall|m: MemberId| #[trigger]
                    r@.contains(m) <==> exists|k: int|
                        0 <= k < i + 1 && #[trigger] self.ledger@[k].project_id == project_id
                            && self.ledger@[k].member_id == m && self.scores(k) by {
                    if self.ledger@[i as int].project_id == project_id && self.ledger@[i as int].member_id
                        == m && self.scores(i as int) {
                        assert(self.ledger@[i as int].project_id == project_id);
                    }
                }
            }
            i = i + 1;
        }
        r
    }

    /// Verify the hash chain. Every ledger this system builds passes.
    pub fn audit(&self) -> (r: AuditReport)
        requires
            self.wf(),
        ensures
            r == (AuditReport {
                entries: self.ledger().len() as usize,
                chain_valid: true,
                first_invalid_entry: None,
            }),
    {
        audit_entries(self.ledger.as_slice())
    }

    /// Hash of the newest ledger entry, or zero for an empty ledger.
    pub fn head_hash(&self) -> (h: u64)
        ensures
            h == head_of(self.ledger()),
    {
        if self.ledger.len() == 0 {
            0
        } else {
            self.ledger[self.ledger.len() - 1].entry_hash
        }
    }

    /// Number of ledger entries.
    pub fn ledger_len(&self) -> (n: usize)
        ensures
            n == self.ledger().len(),
    {
        self.ledger.len()
    }

    /// The ledger entries, oldest first.
    pub fn entries(&self) -> (r: &[Contribution])
        ensures
            r@ == self.ledger(),
    {
        self.ledger.as_slice()
    }
}

impl Default for CCISystem {
    fn default() -> (r: CCISystem)
        ensures
            r.wf(),
            r.ledger().len() == 0,
            r.contributors() == Map::<ProjectId, Seq<MemberId>>::empty(),
            r.pending() == Map::<u128, Seq<PeerReview>>::empty(),
    {
        let c = CCISystem {
            ledger: Vec::new(),
            project_contributors: HashMap::new(),
            pending_reviews: HashMap::new(),
        };
        assert(c.contributors() =~= Map::<ProjectId, Seq<MemberId>>::empty());
        assert(c.pending() =~= Map::<u128, Seq<PeerReview>>::empty());
        c
    }
}

} // verus!
