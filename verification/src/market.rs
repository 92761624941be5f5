//! The listing store, the contract configuration, and the purchase
//! orchestrator.
//!
//! A purchase spans two turns. `buy` checks the deposit, removes the
//! listing from the store — the reservation that rules out a double sale
//! — and returns the outbound transfer request together with the listing
//! snapshot the continuation needs. Once the outcome of the external
//! asset transfer is known, `resolve_purchase` decides, through the
//! payout resolver, whether the reported breakdown is trustworthy, and
//! returns the exact fund movements to perform: either the settlement
//! along the breakdown, or a full refund to the buyer.

use vstd::prelude::*;
use vstd::hash_map::StringHashMap;

use crate::errors::MarketError;
use crate::parse::parse_list_action;
use crate::parse::parse_payout;
use crate::parse::spec_list_action;
use crate::parse::spec_payout_entries;
use crate::payout::BASIS_POINTS;
use crate::payout::Decision;
use crate::payout::Payout;
use crate::payout::fee_of;
use crate::payout::lemma_payout_sum_concat;
use crate::payout::lemma_payout_sum_singleton;
use crate::payout::payout_sum;
use crate::payout::resolve;
use crate::payout::sum_within_tolerance;
use crate::payout::treasury_fee;

verus! {

/// How many royalty recipients the outbound transfer request asks the
/// asset registry to report at most.
pub const MAX_PAYOUT_RECIPIENTS: u32 = 10;

/// One active sale offer: an asset, its owner at listing time, the
/// authorization token the owner granted for its transfer, the minimum
/// amount a buyer must attach, and the portion of the price earmarked
/// for the charity account.
#[derive(Debug)]
pub struct Listing {
    pub owner_id: String,
    pub approval_id: u64,
    pub token_id: String,
    pub price: u128,
    pub donation: u128,
}

impl Listing {
    /// A listing never earmarks more than its price for the charity.
    pub open spec fn wf(self) -> bool {
        self.donation <= self.price
    }
}

/// One fund movement for the caller to perform: pay `amount` to
/// `receiver_id`.
#[derive(Debug)]
pub struct Transfer {
    pub receiver_id: String,
    pub amount: u128,
}

/// The mathematical content of a run of transfers: recipient names as
/// character sequences, paired with their amounts, in order.
pub open spec fn transfers_view(v: Seq<Transfer>) -> Seq<(Seq<char>, u128)> {
    Seq::new(v.len(), |i: int| (v[i].receiver_id@, v[i].amount))
}

/// The outbound asset-transfer request `buy` hands back, together with
/// the continuation state `resolve_purchase` must later receive: the
/// buyer and the reserved listing snapshot.
#[derive(Debug)]
pub struct PurchaseRequest {
    pub buyer_id: String,
    pub listing: Listing,
    pub max_recipients: u32,
}

/// The outcome of the external asset-transfer call, as observed by the
/// scheduler that dispatched it.
#[derive(Debug)]
pub enum CallOutcome {
    /// The call failed outright: no result is available.
    Failed,
    /// The call returned a value: the raw payout report it produced.
    Succeeded(String),
}

/// The result of resolving one purchase: the fund movements to perform,
/// in order, and the settled amount (always the listing price).
#[derive(Debug)]
pub struct Settlement {
    pub transfers: Vec<Transfer>,
    pub settled: u128,
}

/// The marketplace: its configuration and the listing store. The store
/// maps each asset identifier to at most one active listing.
pub struct Contract {
    pub owner_id: String,
    pub min_price: u128,
    pub royalty: u128,
    pub nft_collection: String,
    pub charity_account: String,
    pub listings: StringHashMap<Listing>,
}

/// The configuration fields of `post` are those of `pre`.
pub open spec fn config_unchanged(pre: Contract, post: Contract) -> bool {
    &&& post.owner_id == pre.owner_id
    &&& post.min_price == pre.min_price
    &&& post.royalty == pre.royalty
    &&& post.nft_collection == pre.nft_collection
    &&& post.charity_account == pre.charity_account
}

/// Nothing observable about the contract changed: the configuration and
/// the listing store are as before.
pub open spec fn state_unchanged(pre: Contract, post: Contract) -> bool {
    config_unchanged(pre, post) && post.listings@ == pre.listings@
}

/// What a call outcome decodes to: no breakdown for a failed call, and
/// for a successful call whatever its report means under
/// [`spec_payout_entries`], if anything.
pub open spec fn spec_outcome_entries(o: CallOutcome) -> Option<Seq<(Seq<char>, u128)>> {
    match o {
        CallOutcome::Failed => None,
        CallOutcome::Succeeded(body) => spec_payout_entries(body@),
    }
}

/// The transfers one breakdown entry gives rise to when the entry names
/// the listing's owner: the owner's amount less the treasury fee and the
/// donation, then the fee to the platform owner if any, then the
/// donation to the charity if any.
pub open spec fn owner_leg(
    e: (Seq<char>, u128),
    fee: int,
    donation: u128,
    platform: Seq<char>,
    charity: Seq<char>,
) -> Seq<(Seq<char>, u128)> {
    seq![(e.0, (e.1 - fee - donation) as u128)] + (if fee > 0 {
        seq![(platform, fee as u128)]
    } else {
        Seq::empty()
    }) + (if donation > 0 {
        seq![(charity, donation)]
    } else {
        Seq::empty()
    })
}

/// The transfers one breakdown entry gives rise to: the owner's entry is
/// split into up to three legs; every other recipient is paid its amount
/// unchanged.
pub open spec fn entry_transfers(
    e: (Seq<char>, u128),
    owner: Seq<char>,
    fee: int,
    donation: u128,
    platform: Seq<char>,
    charity: Seq<char>,
) -> Seq<(Seq<char>, u128)> {
    if e.0 == owner {
        owner_leg(e, fee, donation, platform, charity)
    } else {
        seq![e]
    }
}

/// The transfers of a whole trusted settlement: each entry's transfers,
/// in breakdown order.
pub open spec fn settlement_transfers(
    entries: Seq<(Seq<char>, u128)>,
    owner: Seq<char>,
    fee: int,
    donation: u128,
    platform: Seq<char>,
    charity: Seq<char>,
) -> Seq<(Seq<char>, u128)>
    decreases entries.len(),
{
    if entries.len() == 0 {
        Seq::empty()
    } else {
        settlement_transfers(entries.drop_last(), owner, fee, donation, platform, charity)
            + entry_transfers(entries.last(), owner, fee, donation, platform, charity)
    }
}

/// The fatal inconsistency of a trusted breakdown: its amount for the
/// owner does not cover the treasury fee plus the donation, so the
/// owner's leg would underflow.
pub open spec fn owner_amount_short(
    entries: Seq<(Seq<char>, u128)>,
    owner: Seq<char>,
    fee: int,
    donation: u128,
) -> bool {
    exists|i: int| 0 <= i < entries.len() && entries[i].0 == owner && entries[i].1 < fee + donation
}

/// A trusted settlement moves exactly the funds the breakdown names:
/// carving the treasury fee and the donation out of the owner's entry
/// redirects them but neither creates nor destroys funds, and every
/// other entry is paid as reported. So the total disbursed equals the
/// breakdown's own sum — whenever the owner's entry covers fee plus
/// donation, which is exactly when a settlement is produced at all.
pub proof fn lemma_settlement_conserves_funds(
    entries: Seq<(Seq<char>, u128)>,
    owner: Seq<char>,
    fee: int,
    donation: u128,
    platform: Seq<char>,
    charity: Seq<char>,
)
    requires
        0 <= fee,
        !owner_amount_short(entries, owner, fee, donation),
    ensures
        payout_sum(settlement_transfers(entries, owner, fee, donation, platform, charity))
            == payout_sum(entries),
    decreases entries.len(),
{
    if entries.len() > 0 {
        let rest = entries.drop_last();
        let e = entries.last();
        assert(!owner_amount_short(rest, owner, fee, donation)) by {
            if owner_amount_short(rest, owner, fee, donation) {
                let i = choose|i: int|
                    0 <= i < rest.len() && rest[i].0 == owner && rest[i].1 < fee + donation;
                assert(entries[i].0 == owner && entries[i].1 < fee + donation);
            }
        }
        lemma_settlement_conserves_funds(rest, owner, fee, donation, platform, charity);
        lemma_payout_sum_concat(
            settlement_transfers(rest, owner, fee, donation, platform, charity),
            entry_transfers(e, owner, fee, donation, platform, charity),
        );
        if e.0 == owner {
            assert(entries[entries.len() - 1] == e);
            assert(e.1 >= fee + donation);
            let x = (e.0, (e.1 - fee - donation) as u128);
            let first = seq![x];
            let mid: Seq<(Seq<char>, u128)> = if fee > 0 {
                seq![(platform, fee as u128)]
            } else {
                Seq::empty()
            };
            let tail: Seq<(Seq<char>, u128)> = if donation > 0 {
                seq![(charity, donation)]
            } else {
                Seq::empty()
            };
            lemma_payout_sum_concat(first, mid);
            lemma_payout_sum_concat(first + mid, tail);
            lemma_payout_sum_singleton(x);
            assert(payout_sum(Seq::<(Seq<char>, u128)>::empty()) == 0);
            if fee > 0 {
                lemma_payout_sum_singleton((platform, fee as u128));
            }
            if donation > 0 {
                lemma_payout_sum_singleton((charity, donation));
            }
            assert(owner_leg(e, fee, donation, platform, charity) == first + mid + tail);
            assert(payout_sum(owner_leg(e, fee, donation, platform, charity)) == e.1);
        } else {
            lemma_payout_sum_singleton(e);
        }
    }
}

/// The resolution refunded the buyer in full: a single transfer of the
/// whole price back to the buyer, and the price reported as settled.
pub open spec fn refund_result(
    r: Result<Settlement, MarketError>,
    buyer: Seq<char>,
    price: u128,
) -> bool {
    match r {
        Ok(st) => transfers_view(st.transfers@) == seq![(buyer, price)] && st.settled == price,
        Err(_) => false,
    }
}

/// Decodes the payout report carried by a call outcome, if any.
fn decode_outcome(outcome: &CallOutcome) -> (c: Option<Payout>)
    ensures
        match c {
            Some(p) => spec_outcome_entries(*outcome) == Some(p@),
            None => spec_outcome_entries(*outcome) is None,
        },
{
    match outcome {
        CallOutcome::Failed => None,
        CallOutcome::Succeeded(body) => match parse_payout(body.as_str()) {
            Ok(p) => Some(p),
            Err(_) => None,
        },
    }
}

/// Every listing a valid contract stores is well formed — `0 <= donation
/// <= price` — and is filed under its own asset identifier. Listings that
/// would break this are rejected before they reach the store.
pub proof fn lemma_stored_listings_valid(c: Contract, k: Seq<char>)
    requires
        c.inv(),
        c.listings@.contains_key(k),
    ensures
        c.listings@[k].wf(),
        c.listings@[k].token_id@ == k,
{
}

/// Listing an asset and then buying it leaves the store without that
/// asset's key: the reservation in `buy` removes exactly the entry that
/// listing inserted, whatever else the store holds, so from the moment a
/// purchase is in flight no operation can observe that listing.
pub proof fn lemma_list_then_buy_removes(pre: Map<Seq<char>, Listing>, l: Listing, k: Seq<char>)
    ensures
        !pre.insert(k, l).remove(k).contains_key(k),
{
}

impl Contract {
    /// Every listing in the store is well formed and filed under its own
    /// asset identifier, and the royalty rate is a valid basis-point
    /// rate.
    pub open spec fn inv(self) -> bool {
        &&& self.royalty <= BASIS_POINTS
        &&& forall|k: Seq<char>|
            self.listings@.contains_key(k) ==> ((#[trigger] self.listings@[k]).wf()
                && self.listings@[k].token_id@ == k)
    }

    /// Creates the marketplace with its configuration and an empty
    /// listing store.
    pub fn new(
        owner_id: String,
        min_price: u128,
        royalty: u128,
        nft_collection: String,
        charity_account: String,
    ) -> (c: Contract)
        requires
            royalty <= BASIS_POINTS,
        ensures
            c.inv(),
            c.owner_id == owner_id,
            c.min_price == min_price,
            c.royalty == royalty,
            c.nft_collection == nft_collection,
            c.charity_account == charity_account,
            c.listings@ == Map::<Seq<char>, Listing>::empty(),
    {
        Contract {
            owner_id,
            min_price,
            royalty,
            nft_collection,
            charity_account,
            listings: StringHashMap::new(),
        }
    }

    /// The listing notification from the asset registry: decodes the
    /// approval message, checks that the registry is the trusted
    /// collection and that the stated owner signed the transaction,
    /// checks the price against the configured minimum, and then files
    /// the listing — inserting it for, or overwriting whatever was filed
    /// under, the asset identifier.
    ///
    /// Rejections, in order of precedence: a message that does not
    /// decode, or whose donation exceeds its price, is `MalformedRequest`;
    /// a wrong signer or caller is `Unauthorized`; a price not above the
    /// minimum is `PriceTooLow`. A rejection changes nothing.
    pub fn nft_on_approve(
        &mut self,
        token_id: String,
        owner_id: String,
        approval_id: u64,
        msg: &str,
        predecessor_id: &String,
        signer_id: &String,
    ) -> (r: Result<(), MarketError>)
        requires
            old(self).inv(),
        ensures
            final(self).inv(),
            config_unchanged(*old(self), *final(self)),
            match r {
                Ok(()) => (match spec_list_action(msg@) {
                    Some(act) => {
                        &&& act.donation <= act.price
                        &&& act.price > old(self).min_price
                        &&& predecessor_id@ == old(self).nft_collection@
                        &&& signer_id@ == owner_id@
                        &&& final(self).listings@ == old(self).listings@.insert(
                            token_id@,
                            (Listing {
                                owner_id: owner_id,
                                approval_id: approval_id,
                                token_id: token_id,
                                price: act.price,
                                donation: act.donation,
                            }),
                        )
                    },
                    None => false,
                }),
                Err(e) => {
                    &&& state_unchanged(*old(self), *final(self))
                    &&& (match spec_list_action(msg@) {
                        None => e == MarketError::MalformedRequest,
                        Some(act) => if act.donation > act.price {
                            e == MarketError::MalformedRequest
                        } else if signer_id@ != owner_id@ || predecessor_id@
                            != old(self).nft_collection@ {
                            e == MarketError::Unauthorized
                        } else {
                            e == MarketError::PriceTooLow && act.price <= old(self).min_price
                        },
                    })
                },
            },
    {
        let act = match parse_list_action(msg) {
            Ok(a) => a,
            Err(e) => {
                return Err(e);
            },
        };
        if act.donation > act.price {
            return Err(MarketError::MalformedRequest);
        }
        if !(*signer_id == owner_id && *predecessor_id == self.nft_collection) {
            return Err(MarketError::Unauthorized);
        }
        if act.price <= self.min_price {
            return Err(MarketError::PriceTooLow);
        }
        let listing = Listing {
            owner_id: owner_id,
            approval_id: approval_id,
            token_id: token_id.clone(),
            price: act.price,
            donation: act.donation,
        };
        self.listings.insert(token_id, listing);
        Ok(())
    }

    /// Overwrites the price and donation of an existing listing in
    /// place; the listing's owner and approval are kept as they are (the
    /// underlying approval is assumed still valid, so no ownership
    /// re-check is performed). Fails with `NotFound` when no listing
    /// exists, and rejects the new pair under the same validity rules as
    /// listing itself.
    pub fn update_listing(&mut self, token_id: String, price: u128, donation: u128) -> (r: Result<
        (),
        MarketError,
    >)
        requires
            old(self).inv(),
        ensures
            final(self).inv(),
            config_unchanged(*old(self), *final(self)),
            match r {
                Ok(()) => {
                    &&& old(self).listings@.contains_key(token_id@)
                    &&& donation <= price
                    &&& price > old(self).min_price
                    &&& final(self).listings@ == old(self).listings@.insert(
                        token_id@,
                        (Listing {
                            owner_id: old(self).listings@[token_id@].owner_id,
                            approval_id: old(self).listings@[token_id@].approval_id,
                            token_id: old(self).listings@[token_id@].token_id,
                            price: price,
                            donation: donation,
                        }),
                    )
                },
                Err(e) => {
                    &&& state_unchanged(*old(self), *final(self))
                    &&& if !old(self).listings@.contains_key(token_id@) {
                        e == MarketError::NotFound
                    } else if donation > price {
                        e == MarketError::MalformedRequest
                    } else {
                        e == MarketError::PriceTooLow && price <= old(self).min_price
                    }
                },
            },
    {
        let updated = match self.listings.get(token_id.as_str()) {
            None => {
                return Err(MarketError::NotFound);
            },
            Some(l) => Listing {
                owner_id: l.owner_id.clone(),
                approval_id: l.approval_id,
                token_id: l.token_id.clone(),
                price: price,
                donation: donation,
            },
        };
        if donation > price {
            return Err(MarketError::MalformedRequest);
        }
        if price <= self.min_price {
            return Err(MarketError::PriceTooLow);
        }
        self.listings.insert(token_id, updated);
        Ok(())
    }

    /// Removes a listing at its owner's request. Fails with `NotFound`
    /// when no listing exists, and with `Unauthorized` when the signer is
    /// not the listing's owner.
    pub fn delete_listing(&mut self, token_id: &String, signer_id: &String) -> (r: Result<
        (),
        MarketError,
    >)
        requires
            old(self).inv(),
        ensures
            final(self).inv(),
            config_unchanged(*old(self), *final(self)),
            match r {
                Ok(()) => {
                    &&& old(self).listings@.contains_key(token_id@)
                    &&& signer_id@ == old(self).listings@[token_id@].owner_id@
                    &&& final(self).listings@ == old(self).listings@.remove(token_id@)
                },
                Err(e) => {
                    &&& state_unchanged(*old(self), *final(self))
                    &&& if !old(self).listings@.contains_key(token_id@) {
                        e == MarketError::NotFound
                    } else {
                        e == MarketError::Unauthorized && signer_id@ != old(
                            self,
                        ).listings@[token_id@].owner_id@
                    }
                },
            },
    {
        let authorized = match self.listings.get(token_id.as_str()) {
            None => {
                return Err(MarketError::NotFound);
            },
            Some(l) => *signer_id == l.owner_id,
        };
        if !authorized {
            return Err(MarketError::Unauthorized);
        }
        self.listings.remove(token_id.as_str());
        Ok(())
    }

    /// The purchase entry point. Looks the listing up (`NotFound` when
    /// absent), checks the attached deposit against its price
    /// (`InsufficientPayment` leaves the listing untouched and moves no
    /// funds), and then reserves: the listing is removed from the store
    /// before control returns, so no concurrent purchase, update or
    /// deletion can observe it — this is the single point that prevents
    /// a double sale. Returns the outbound transfer request for the
    /// caller to dispatch, carrying the buyer and the listing snapshot
    /// that must be handed to `resolve_purchase` once the outcome is
    /// known. No funds move during `buy`.
    pub fn buy(&mut self, token_id: &String, buyer_id: String, deposit: u128) -> (r: Result<
        PurchaseRequest,
        MarketError,
    >)
        requires
            old(self).inv(),
        ensures
            final(self).inv(),
            config_unchanged(*old(self), *final(self)),
            match r {
                Ok(req) => {
                    &&& old(self).listings@.contains_key(token_id@)
                    &&& deposit >= old(self).listings@[token_id@].price
                    &&& req.listing == old(self).listings@[token_id@]
                    &&& req.listing.wf()
                    &&& req.buyer_id == buyer_id
                    &&& req.max_recipients == MAX_PAYOUT_RECIPIENTS
                    &&& final(self).listings@ == old(self).listings@.remove(token_id@)
                },
                Err(e) => {
                    &&& state_unchanged(*old(self), *final(self))
                    &&& if !old(self).listings@.contains_key(token_id@) {
                        e == MarketError::NotFound
                    } else {
                        e == MarketError::InsufficientPayment && deposit < old(
                            self,
                        ).listings@[token_id@].price
                    }
                },
            },
    {
        let snapshot = match self.listings.get(token_id.as_str()) {
            None => {
                return Err(MarketError::NotFound);
            },
            Some(l) => {
                if deposit < l.price {
                    return Err(MarketError::InsufficientPayment);
                }
                Listing {
                    owner_id: l.owner_id.clone(),
                    approval_id: l.approval_id,
                    token_id: l.token_id.clone(),
                    price: l.price,
                    donation: l.donation,
                }
            },
        };
        self.listings.remove(token_id.as_str());
        Ok(
            PurchaseRequest {
                buyer_id: buyer_id,
                listing: snapshot,
                max_recipients: MAX_PAYOUT_RECIPIENTS,
            },
        )
    }

    /// The purchase continuation: runs once the outcome of the external
    /// asset transfer is known, with the buyer and the listing snapshot
    /// captured at reservation time. Touches no state; its result says
    /// which funds to move.
    ///
    /// A failed call, a report that does not decode, and a decoded
    /// breakdown whose sum is off are all the same branch: the buyer is
    /// refunded the full price and nobody else is paid. A trusted
    /// breakdown is settled along [`settlement_transfers`]: the owner's
    /// entry less the treasury fee and the donation, the fee to the
    /// platform owner, the donation to the charity, and every other
    /// recipient paid as reported — unless the owner's entry cannot
    /// cover fee plus donation, which is the fatal
    /// `InternalInconsistency`: no funds move at all and the deposit
    /// stays in the contract's holding balance for manual resolution.
    ///
    /// Deliberate asymmetry of this design: when the external transfer
    /// *succeeded* but its report cannot be trusted, the fallback still
    /// refunds the buyer — the asset is gone and the seller's proceeds
    /// are forfeited to the refund. A safer design would keep such funds
    /// in an explicit stuck-funds ledger instead.
    pub fn resolve_purchase(&self, buyer_id: String, listing: Listing, outcome: &CallOutcome) -> (r:
        Result<Settlement, MarketError>)
        requires
            self.inv(),
            listing.wf(),
        ensures
            match spec_outcome_entries(*outcome) {
                None => refund_result(r, buyer_id@, listing.price),
                Some(entries) => if !sum_within_tolerance(listing.price, entries) {
                    refund_result(r, buyer_id@, listing.price)
                } else if owner_amount_short(
                    entries,
                    listing.owner_id@,
                    fee_of(listing.price, self.royalty),
                    listing.donation,
                ) {
                    r == Err::<Settlement, MarketError>(MarketError::InternalInconsistency)
                } else {
                    match r {
                        Ok(st) => {
                            &&& transfers_view(st.transfers@) == settlement_transfers(
                                entries,
                                listing.owner_id@,
                                fee_of(listing.price, self.royalty),
                                listing.donation,
                                self.owner_id@,
                                self.charity_account@,
                            )
                            &&& st.settled == listing.price
                        },
                        Err(_) => false,
                    }
                },
            },
    {
        let ghost buyer_view = buyer_id@;
        let candidate = decode_outcome(outcome);
        match resolve(&listing, candidate) {
            Decision::Untrusted => {
                let mut transfers: Vec<Transfer> = Vec::new();
                transfers.push(Transfer { receiver_id: buyer_id, amount: listing.price });
                proof {
                    assert(transfers_view(transfers@) =~= seq![(buyer_view, listing.price)]);
                }
                Ok(Settlement { transfers, settled: listing.price })
            },
            Decision::Trusted(p) => {
                let ghost entries = p@;
                let ghost owner_view = listing.owner_id@;
                let ghost platform_view = self.owner_id@;
                let ghost charity_view = self.charity_account@;
                let fee = treasury_fee(listing.price, self.royalty);
                let mut transfers: Vec<Transfer> = Vec::new();
                let mut idx: usize = 0;
                while idx < p.payout.len()
                    invariant
                        idx <= p.payout.len(),
                        entries == p@,
                        spec_outcome_entries(*outcome) == Some(entries),
                        sum_within_tolerance(listing.price, entries),
                        owner_view == listing.owner_id@,
                        platform_view == self.owner_id@,
                        charity_view == self.charity_account@,
                        fee == fee_of(listing.price, self.royalty),
                        fee <= listing.price,
                        listing.donation <= listing.price,
                        transfers_view(transfers@) == settlement_transfers(
                            entries.take(idx as int),
                            owner_view,
                            fee as int,
                            listing.donation,
                            platform_view,
                            charity_view,
                        ),
                        forall|t: int|
                            0 <= t < idx ==> !(entries[t].0 == owner_view && entries[t].1 < fee
                                + listing.donation),
                    decreases p.payout.len() - idx,
                {
                    proof {
                        assert(entries.take(idx + 1).drop_last() =~= entries.take(idx as int));
                        assert(entries.take(idx + 1).last() == entries[idx as int]);
                    }
                    let is_owner_entry = p.payout[idx].receiver_id == listing.owner_id;
                    let amount = p.payout[idx].amount;
                    if is_owner_entry {
                        if amount < fee || amount - fee < listing.donation {
                            proof {
                                assert(entries[idx as int].0 == owner_view && entries[idx as int].1
                                    < fee + listing.donation);
                                assert(owner_amount_short(
                                    entries,
                                    owner_view,
                                    fee as int,
                                    listing.donation,
                                ));
                            }
                            return Err(MarketError::InternalInconsistency);
                        }
                        transfers.push(
                            Transfer {
                                receiver_id: p.payout[idx].receiver_id.clone(),
                                amount: amount - fee - listing.donation,
                            },
                        );
                        if fee > 0 {
                            transfers.push(
                                Transfer { receiver_id: self.owner_id.clone(), amount: fee },
                            );
                        }
                        if listing.donation > 0 {
                            transfers.push(
                                Transfer {
                                    receiver_id: self.charity_account.clone(),
                                    amount: listing.donation,
                                },
                            );
                        }
                    } else {
                        transfers.push(
                            Transfer {
                                receiver_id: p.payout[idx].receiver_id.clone(),
                                amount: amount,
                            },
                        );
                    }
                    proof {
                        assert(transfers_view(transfers@) =~= settlement_transfers(
                            entries.take(idx + 1),
                            owner_view,
                            fee as int,
                            listing.donation,
                            platform_view,
                            charity_view,
                        ));
                    }
                    idx = idx + 1;
                }
                proof {
                    assert(entries.take(p.payout@.len() as int) =~= entries);
                }
                Ok(Settlement { transfers, settled: listing.price })
            },
        }
    }

    /// Hands the marketplace to a new platform owner. Only the current
    /// owner may do so; any other signer is `Unauthorized` and nothing
    /// changes.
    pub fn set_owner(&mut self, signer_id: &String, owner_id: String) -> (r: Result<
        (),
        MarketError,
    >)
        requires
            old(self).inv(),
        ensures
            final(self).inv(),
            match r {
                Ok(()) => {
                    &&& signer_id@ == old(self).owner_id@
                    &&& final(self).owner_id == owner_id
                    &&& final(self).min_price == old(self).min_price
                    &&& final(self).royalty == old(self).royalty
                    &&& final(self).nft_collection == old(self).nft_collection
                    &&& final(self).charity_account == old(self).charity_account
                    &&& final(self).listings@ == old(self).listings@
                },
                Err(e) => {
                    &&& e == MarketError::Unauthorized
                    &&& signer_id@ != old(self).owner_id@
                    &&& state_unchanged(*old(self), *final(self))
                },
            },
    {
        if !(*signer_id == self.owner_id) {
            return Err(MarketError::Unauthorized);
        }
        self.owner_id = owner_id;
        Ok(())
    }

    /// Changes the minimum listing price. Only the current owner may do
    /// so; any other signer is `Unauthorized` and nothing changes.
    pub fn change_min_price(&mut self, signer_id: &String, price: u128) -> (r: Result<
        (),
        MarketError,
    >)
        requires
            old(self).inv(),
        ensures
            final(self).inv(),
            match r {
                Ok(()) => {
                    &&& signer_id@ == old(self).owner_id@
                    &&& final(self).min_price == price
                    &&& final(self).owner_id == old(self).owner_id
                    &&& final(self).royalty == old(self).royalty
                    &&& final(self).nft_collection == old(self).nft_collection
                    &&& final(self).charity_account == old(self).charity_account
                    &&& final(self).listings@ == old(self).listings@
                },
                Err(e) => {
                    &&& e == MarketError::Unauthorized
                    &&& signer_id@ != old(self).owner_id@
                    &&& state_unchanged(*old(self), *final(self))
                },
            },
    {
        if !(*signer_id == self.owner_id) {
            return Err(MarketError::Unauthorized);
        }
        self.min_price = price;
        Ok(())
    }

    /// Changes the charity account that receives donations. Only the
    /// current owner may do so; any other signer is `Unauthorized` and
    /// nothing changes.
    pub fn update_charity_account(&mut self, signer_id: &String, charity_account: String) -> (r:
        Result<(), MarketError>)
        requires
            old(self).inv(),
        ensures
            final(self).inv(),
            match r {
                Ok(()) => {
                    &&& signer_id@ == old(self).owner_id@
                    &&& final(self).charity_account == charity_account
                    &&& final(self).owner_id == old(self).owner_id
                    &&& final(self).min_price == old(self).min_price
                    &&& final(self).royalty == old(self).royalty
                    &&& final(self).nft_collection == old(self).nft_collection
                    &&& final(self).listings@ == old(self).listings@
                },
                Err(e) => {
                    &&& e == MarketError::Unauthorized
                    &&& signer_id@ != old(self).owner_id@
                    &&& state_unchanged(*old(self), *final(self))
                },
            },
    {
        if !(*signer_id == self.owner_id) {
            return Err(MarketError::Unauthorized);
        }
        self.charity_account = charity_account;
        Ok(())
    }

    /// Changes the royalty rate, given in basis points. Only the current
    /// owner may do so; any other signer is `Unauthorized` and nothing
    /// changes.
    pub fn update_royalty(&mut self, signer_id: &String, royalty: u128) -> (r: Result<
        (),
        MarketError,
    >)
        requires
            old(self).inv(),
            royalty <= BASIS_POINTS,
        ensures
            final(self).inv(),
            match r {
                Ok(()) => {
                    &&& signer_id@ == old(self).owner_id@
                    &&& final(self).royalty == royalty
                    &&& final(self).owner_id == old(self).owner_id
                    &&& final(self).min_price == old(self).min_price
                    &&& final(self).nft_collection == old(self).nft_collection
                    &&& final(self).charity_account == old(self).charity_account
                    &&& final(self).listings@ == old(self).listings@
                },
                Err(e) => {
                    &&& e == MarketError::Unauthorized
                    &&& signer_id@ != old(self).owner_id@
                    &&& state_unchanged(*old(self), *final(self))
                },
            },
    {
        if !(*signer_id == self.owner_id) {
            return Err(MarketError::Unauthorized);
        }
        self.royalty = royalty;
        Ok(())
    }
}

} // verus!
