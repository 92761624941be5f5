//! The payout resolver: decides whether a payout breakdown reported by
//! the asset registry can be trusted, and the treasury-fee arithmetic
//! used when a trusted breakdown is settled.

use vstd::prelude::*;

use crate::market::Listing;

verus! {

/// The royalty rate denominator: rates are given in basis points.
pub const BASIS_POINTS: u128 = 10000;

/// How far (in minimal units) the summed breakdown may fall short of the
/// sale price and still be trusted; absorbs integer-rounding dust from
/// the registry's own royalty split.
pub const PAYOUT_TOLERANCE: u128 = 100;

/// One recipient of the sale proceeds, as named by a payout report.
#[derive(Debug)]
pub struct PayoutEntry {
    pub receiver_id: String,
    pub amount: u128,
}

/// An untrusted payout breakdown reported by the asset registry: a
/// mapping from recipient identity to the amount owed, in the order the
/// report named the recipients. [`crate::parse::parse_payout`] never
/// produces two entries with the same recipient.
#[derive(Debug)]
pub struct Payout {
    pub payout: Vec<PayoutEntry>,
}

/// The mathematical content of a run of entries: recipient names as
/// character sequences, paired with their amounts.
pub open spec fn entries_view(v: Seq<PayoutEntry>) -> Seq<(Seq<char>, u128)> {
    Seq::new(v.len(), |i: int| (v[i].receiver_id@, v[i].amount))
}

impl View for Payout {
    type V = Seq<(Seq<char>, u128)>;

    open spec fn view(&self) -> Seq<(Seq<char>, u128)> {
        entries_view(self.payout@)
    }
}

/// The sum of all amounts in a breakdown.
pub open spec fn payout_sum(entries: Seq<(Seq<char>, u128)>) -> int
    decreases entries.len(),
{
    if entries.len() == 0 {
        0
    } else {
        payout_sum(entries.drop_last()) + entries.last().1
    }
}

/// A breakdown is trusted for a price exactly when its amounts sum to no
/// more than the price and fall short of it by at most the tolerance.
pub open spec fn sum_within_tolerance(price: u128, entries: Seq<(Seq<char>, u128)>) -> bool {
    payout_sum(entries) <= price && price - payout_sum(entries) <= PAYOUT_TOLERANCE
}

/// A prefix of a breakdown never sums to more than the whole breakdown.
pub proof fn lemma_payout_sum_prefix(entries: Seq<(Seq<char>, u128)>, k: int)
    requires
        0 <= k <= entries.len(),
    ensures
        payout_sum(entries.take(k)) <= payout_sum(entries),
    decreases entries.len() - k,
{
    if k < entries.len() {
        assert(entries.take(k + 1).drop_last() =~= entries.take(k));
        lemma_payout_sum_prefix(entries, k + 1);
    } else {
        assert(entries.take(k) =~= entries);
    }
}

/// Concatenating two runs of entries adds their sums.
pub proof fn lemma_payout_sum_concat(a: Seq<(Seq<char>, u128)>, b: Seq<(Seq<char>, u128)>)
    ensures
        payout_sum(a + b) == payout_sum(a) + payout_sum(b),
    decreases b.len(),
{
    if b.len() == 0 {
        assert(a + b =~= a);
    } else {
        assert((a + b).drop_last() =~= a + b.drop_last());
        lemma_payout_sum_concat(a, b.drop_last());
    }
}

/// A run of one entry sums to that entry's amount.
pub proof fn lemma_payout_sum_singleton(t: (Seq<char>, u128))
    ensures
        payout_sum(seq![t]) == t.1,
{
    assert(seq![t].drop_last() =~= Seq::<(Seq<char>, u128)>::empty());
    assert(payout_sum(Seq::<(Seq<char>, u128)>::empty()) == 0);
}

/// The outcome of the trust check on a candidate breakdown.
#[derive(Debug)]
pub enum Decision {
    /// The breakdown decoded and its sum is within tolerance of the
    /// price: settle along it.
    Trusted(Payout),
    /// No breakdown, or one whose sum is off: fall back to refunding the
    /// buyer.
    Untrusted,
}

/// Whether the amounts of `entries` sum to within the tolerance of
/// `price`, exactly as [`sum_within_tolerance`] states; subtraction is
/// checked, so a breakdown that overshoots the price is never trusted.
pub fn check_sum(price: u128, entries: &Vec<PayoutEntry>) -> (r: bool)
    ensures
        r == sum_within_tolerance(price, entries_view(entries@)),
{
    let ghost all = entries_view(entries@);
    let mut remainder: u128 = price;
    let mut idx: usize = 0;
    while idx < entries.len()
        invariant
            0 <= idx <= entries.len(),
            all == entries_view(entries@),
            payout_sum(all.take(idx as int)) == price - remainder,
            remainder <= price,
        decreases entries.len() - idx,
    {
        let amount = entries[idx].amount;
        proof {
            assert(all.take(idx + 1).drop_last() =~= all.take(idx as int));
            assert(all.take(idx + 1).last() == all[idx as int]);
        }
        if amount > remainder {
            proof {
                lemma_payout_sum_prefix(all, idx + 1);
            }
            return false;
        }
        remainder = remainder - amount;
        idx = idx + 1;
    }
    proof {
        assert(all.take(entries@.len() as int) =~= all);
    }
    remainder <= PAYOUT_TOLERANCE
}

/// The payout resolver: given the listing being settled and the decoded
/// breakdown (if the report decoded at all), decide whether the breakdown
/// is trustworthy. Pure: it moves no funds and touches no state.
pub fn resolve(listing: &Listing, candidate: Option<Payout>) -> (d: Decision)
    ensures
        match d {
            Decision::Trusted(p) => candidate == Some(p) && sum_within_tolerance(
                listing.price,
                p@,
            ),
            Decision::Untrusted => match candidate {
                Some(q) => !sum_within_tolerance(listing.price, q@),
                None => true,
            },
        },
{
    match candidate {
        None => Decision::Untrusted,
        Some(p) => {
            if check_sum(listing.price, &p.payout) {
                Decision::Trusted(p)
            } else {
                Decision::Untrusted
            }
        },
    }
}

/// The platform's royalty cut: `price * royalty / 10000`, in exact
/// integer arithmetic.
pub open spec fn fee_of(price: u128, royalty: u128) -> int {
    price * royalty / (BASIS_POINTS as int)
}

/// The split form of the fee computed by [`treasury_fee`] equals
/// [`fee_of`], and the fee never exceeds the price.
proof fn lemma_fee_split(price: u128, royalty: u128)
    requires
        royalty <= BASIS_POINTS,
    ensures
        fee_of(price, royalty) == (price as int / 10000) * royalty + ((price as int % 10000)
            * royalty) / 10000,
        0 <= fee_of(price, royalty) <= price,
        0 <= (price as int / 10000) * royalty <= fee_of(price, royalty),
{
    let p = price as int;
    let r = royalty as int;
    let q = p / 10000;
    let m = p % 10000;
    vstd::arithmetic::div_mod::lemma_fundamental_div_mod(p, 10000);
    assert(p * r == (m * r) + (q * r) * 10000) by (nonlinear_arith)
        requires
            p == 10000 * q + m,
    ;
    vstd::arithmetic::div_mod::lemma_hoist_over_denominator(m * r, q * r, 10000nat);
    vstd::arithmetic::mul::lemma_mul_nonnegative(m, r);
    vstd::arithmetic::mul::lemma_mul_nonnegative(q, r);
    vstd::arithmetic::div_mod::lemma_div_is_ordered(0, m * r, 10000);
    vstd::arithmetic::mul::lemma_mul_inequality(r, 10000, p);
    assert(p * r <= p * 10000) by (nonlinear_arith)
        requires
            r <= 10000 && 0 <= p,
    ;
    vstd::arithmetic::div_mod::lemma_div_is_ordered(p * r, p * 10000, 10000);
    vstd::arithmetic::div_mod::lemma_div_by_multiple(p, 10000);
}

/// The treasury fee for a sale: `floor(price * royalty / 10000)`.
pub fn treasury_fee(price: u128, royalty: u128) -> (r: u128)
    requires
        royalty <= BASIS_POINTS,
    ensures
        r == fee_of(price, royalty),
        r <= price,
{
    proof {
        lemma_fee_split(price, royalty);
        vstd::arithmetic::mul::lemma_mul_upper_bound(
            price as int % 10000,
            9999,
            royalty as int,
            10000,
        );
    }
    let q = price / BASIS_POINTS;
    let m = price % BASIS_POINTS;
    q * royalty + (m * royalty) / BASIS_POINTS
}

} // verus!
