use nft_market::errors::MarketError;
use nft_market::market::CallOutcome;
use nft_market::market::Contract;
use nft_market::market::Settlement;

fn s(x: &str) -> String {
    x.to_string()
}

/// A marketplace owned by `market`, minimum price 100, royalty 2.5%,
/// trusting the `nft` collection, donating to `charity`.
fn fresh() -> Contract {
    Contract::new(s("market"), 100, 250, s("nft"), s("charity"))
}

/// Lists the standard token of the scenario tests: owner `alice`,
/// price 10000, donation 500.
fn list_standard(c: &mut Contract) {
    let r = c.nft_on_approve(
        s("token-1"),
        s("alice"),
        7,
        "{\"price\":\"10000\",\"donation\":\"500\"}",
        &s("nft"),
        &s("alice"),
    );
    assert!(r.is_ok());
}

fn transfer_pairs(st: &Settlement) -> Vec<(String, u128)> {
    st.transfers.iter().map(|t| (t.receiver_id.clone(), t.amount)).collect()
}

#[test]
fn list_valid_inserts_listing() {
    let mut c = fresh();
    list_standard(&mut c);
    let l = c.listings.get("token-1").expect("listing should exist");
    assert_eq!(l.owner_id, "alice");
    assert_eq!(l.approval_id, 7);
    assert_eq!(l.token_id, "token-1");
    assert_eq!(l.price, 10000);
    assert_eq!(l.donation, 500);
}

#[test]
fn list_donation_above_price_rejected() {
    let mut c = fresh();
    let r = c.nft_on_approve(
        s("t"),
        s("alice"),
        1,
        "{\"price\":\"1000\",\"donation\":\"1001\"}",
        &s("nft"),
        &s("alice"),
    );
    assert_eq!(r, Err(MarketError::MalformedRequest));
    assert!(c.listings.get("t").is_none());
}

#[test]
fn list_price_not_above_minimum_rejected() {
    let mut c = fresh();
    let r = c.nft_on_approve(
        s("t"),
        s("alice"),
        1,
        "{\"price\":\"100\",\"donation\":\"0\"}",
        &s("nft"),
        &s("alice"),
    );
    assert_eq!(r, Err(MarketError::PriceTooLow));
    assert!(c.listings.get("t").is_none());
}

#[test]
fn list_wrong_signer_rejected() {
    let mut c = fresh();
    let r = c.nft_on_approve(
        s("t"),
        s("alice"),
        1,
        "{\"price\":\"1000\",\"donation\":\"0\"}",
        &s("nft"),
        &s("mallory"),
    );
    assert_eq!(r, Err(MarketError::Unauthorized));
}

#[test]
fn list_wrong_collection_rejected() {
    let mut c = fresh();
    let r = c.nft_on_approve(
        s("t"),
        s("alice"),
        1,
        "{\"price\":\"1000\",\"donation\":\"0\"}",
        &s("other-nft"),
        &s("alice"),
    );
    assert_eq!(r, Err(MarketError::Unauthorized));
}

#[test]
fn list_overwrites_existing_listing() {
    let mut c = fresh();
    list_standard(&mut c);
    let r = c.nft_on_approve(
        s("token-1"),
        s("bob"),
        9,
        "{\"price\":\"2000\",\"donation\":\"0\"}",
        &s("nft"),
        &s("bob"),
    );
    assert!(r.is_ok());
    assert_eq!(c.listings.len(), 1);
    let l = c.listings.get("token-1").unwrap();
    assert_eq!(l.owner_id, "bob");
    assert_eq!(l.price, 2000);
}

#[test]
fn update_listing_overwrites_price_and_donation() {
    let mut c = fresh();
    list_standard(&mut c);
    let r = c.update_listing(s("token-1"), 20000, 1000);
    assert_eq!(r, Ok(()));
    let l = c.listings.get("token-1").unwrap();
    assert_eq!(l.price, 20000);
    assert_eq!(l.donation, 1000);
    assert_eq!(l.owner_id, "alice");
    assert_eq!(l.approval_id, 7);
}

#[test]
fn update_listing_missing_not_found() {
    let mut c = fresh();
    assert_eq!(c.update_listing(s("ghost"), 2000, 0), Err(MarketError::NotFound));
}

#[test]
fn update_listing_invalid_pair_rejected() {
    let mut c = fresh();
    list_standard(&mut c);
    assert_eq!(c.update_listing(s("token-1"), 2000, 2001), Err(MarketError::MalformedRequest));
    assert_eq!(c.update_listing(s("token-1"), 50, 0), Err(MarketError::PriceTooLow));
    let l = c.listings.get("token-1").unwrap();
    assert_eq!(l.price, 10000);
    assert_eq!(l.donation, 500);
}

#[test]
fn delete_listing_by_owner_removes() {
    let mut c = fresh();
    list_standard(&mut c);
    assert_eq!(c.delete_listing(&s("token-1"), &s("alice")), Ok(()));
    assert!(c.listings.get("token-1").is_none());
}

#[test]
fn delete_listing_by_stranger_rejected() {
    let mut c = fresh();
    list_standard(&mut c);
    assert_eq!(c.delete_listing(&s("token-1"), &s("mallory")), Err(MarketError::Unauthorized));
    assert!(c.listings.get("token-1").is_some());
    assert_eq!(c.delete_listing(&s("ghost"), &s("alice")), Err(MarketError::NotFound));
}

#[test]
fn buy_reserves_listing_before_transfer() {
    let mut c = fresh();
    list_standard(&mut c);
    let req = c.buy(&s("token-1"), s("bob"), 10000).expect("buy should succeed");
    assert_eq!(req.buyer_id, "bob");
    assert_eq!(req.listing.owner_id, "alice");
    assert_eq!(req.listing.approval_id, 7);
    assert_eq!(req.listing.price, 10000);
    assert_eq!(req.listing.donation, 500);
    assert_eq!(req.max_recipients, 10);
    // the store no longer holds the key: nothing can race on the listing
    assert!(c.listings.get("token-1").is_none());
    assert!(matches!(c.buy(&s("token-1"), s("carol"), 10000), Err(MarketError::NotFound)));
    assert_eq!(c.update_listing(s("token-1"), 20000, 0), Err(MarketError::NotFound));
}

#[test]
fn buy_missing_listing_not_found() {
    let mut c = fresh();
    assert!(matches!(c.buy(&s("ghost"), s("bob"), 10000), Err(MarketError::NotFound)));
}

#[test]
fn buy_low_deposit_leaves_listing_untouched() {
    let mut c = fresh();
    list_standard(&mut c);
    let r = c.buy(&s("token-1"), s("bob"), 9999);
    assert!(matches!(r, Err(MarketError::InsufficientPayment)));
    let l = c.listings.get("token-1").expect("listing must remain");
    assert_eq!(l.price, 10000);
    assert_eq!(l.donation, 500);
    assert_eq!(l.owner_id, "alice");
}

#[test]
fn failed_transfer_refunds_full_price() {
    let mut c = fresh();
    list_standard(&mut c);
    let req = c.buy(&s("token-1"), s("bob"), 10000).unwrap();
    let st = c.resolve_purchase(req.buyer_id, req.listing, &CallOutcome::Failed).unwrap();
    assert_eq!(transfer_pairs(&st), vec![(s("bob"), 10000)]);
    assert_eq!(st.settled, 10000);
    // the listing is not restored
    assert!(c.listings.get("token-1").is_none());
}

#[test]
fn malformed_report_refunds_buyer() {
    let mut c = fresh();
    list_standard(&mut c);
    let req = c.buy(&s("token-1"), s("bob"), 10000).unwrap();
    let outcome = CallOutcome::Succeeded(s("not json at all"));
    let st = c.resolve_purchase(req.buyer_id, req.listing, &outcome).unwrap();
    assert_eq!(transfer_pairs(&st), vec![(s("bob"), 10000)]);
    assert_eq!(st.settled, 10000);
}

#[test]
fn trusted_breakdown_owner_only() {
    // price 10000, royalty 250 (2.5%), donation 500, breakdown {alice: 10000}
    let mut c = fresh();
    list_standard(&mut c);
    let req = c.buy(&s("token-1"), s("bob"), 10000).unwrap();
    let outcome = CallOutcome::Succeeded(s("{\"payout\":{\"alice\":\"10000\"}}"));
    let st = c.resolve_purchase(req.buyer_id, req.listing, &outcome).unwrap();
    assert_eq!(
        transfer_pairs(&st),
        vec![(s("alice"), 9250), (s("market"), 250), (s("charity"), 500)],
    );
    assert_eq!(st.settled, 10000);
    let disbursed: u128 = st.transfers.iter().map(|t| t.amount).sum();
    assert_eq!(disbursed, 10000);
}

#[test]
fn trusted_breakdown_with_creator_within_tolerance() {
    // breakdown {alice: 9000, creator: 900}: sum 9900, within 100 of 10000
    let mut c = fresh();
    list_standard(&mut c);
    let req = c.buy(&s("token-1"), s("bob"), 10000).unwrap();
    let outcome = CallOutcome::Succeeded(s("{\"payout\":{\"alice\":\"9000\",\"creator\":\"900\"}}"));
    let st = c.resolve_purchase(req.buyer_id, req.listing, &outcome).unwrap();
    assert_eq!(
        transfer_pairs(&st),
        vec![(s("alice"), 8250), (s("market"), 250), (s("charity"), 500), (s("creator"), 900)],
    );
    assert_eq!(st.settled, 10000);
}

#[test]
fn untrusted_breakdown_refunds_buyer() {
    // breakdown sums to 9800: 200 below price, beyond the tolerance
    let mut c = fresh();
    list_standard(&mut c);
    let req = c.buy(&s("token-1"), s("bob"), 10000).unwrap();
    let outcome = CallOutcome::Succeeded(s("{\"payout\":{\"alice\":\"9000\",\"creator\":\"800\"}}"));
    let st = c.resolve_purchase(req.buyer_id, req.listing, &outcome).unwrap();
    assert_eq!(transfer_pairs(&st), vec![(s("bob"), 10000)]);
    assert_eq!(st.settled, 10000);
}

#[test]
fn overshooting_breakdown_refunds_buyer() {
    let mut c = fresh();
    list_standard(&mut c);
    let req = c.buy(&s("token-1"), s("bob"), 10000).unwrap();
    let outcome = CallOutcome::Succeeded(s("{\"payout\":{\"alice\":\"10001\"}}"));
    let st = c.resolve_purchase(req.buyer_id, req.listing, &outcome).unwrap();
    assert_eq!(transfer_pairs(&st), vec![(s("bob"), 10000)]);
}

#[test]
fn owner_entry_below_fee_plus_donation_is_fatal() {
    // sum 9900 is trusted, but alice's 600 cannot cover fee 250 + donation 500
    let mut c = fresh();
    list_standard(&mut c);
    let req = c.buy(&s("token-1"), s("bob"), 10000).unwrap();
    let outcome = CallOutcome::Succeeded(s("{\"payout\":{\"alice\":\"600\",\"creator\":\"9300\"}}"));
    let r = c.resolve_purchase(req.buyer_id, req.listing, &outcome);
    assert!(matches!(r, Err(MarketError::InternalInconsistency)));
}

#[test]
fn breakdown_without_owner_entry_pays_as_reported() {
    // no entry names alice: no fee or donation legs are carved out
    let mut c = fresh();
    list_standard(&mut c);
    let req = c.buy(&s("token-1"), s("bob"), 10000).unwrap();
    let outcome = CallOutcome::Succeeded(s("{\"payout\":{\"creator\":\"9950\"}}"));
    let st = c.resolve_purchase(req.buyer_id, req.listing, &outcome).unwrap();
    assert_eq!(transfer_pairs(&st), vec![(s("creator"), 9950)]);
    assert_eq!(st.settled, 10000);
}

#[test]
fn fee_rounds_down() {
    // price 9999, royalty 333 basis points: fee = floor(9999 * 333 / 10000) = 332
    let mut c = Contract::new(s("market"), 100, 333, s("nft"), s("charity"));
    let r = c.nft_on_approve(
        s("token-9"),
        s("alice"),
        1,
        "{\"price\":\"9999\",\"donation\":\"0\"}",
        &s("nft"),
        &s("alice"),
    );
    assert!(r.is_ok());
    let req = c.buy(&s("token-9"), s("bob"), 9999).unwrap();
    let outcome = CallOutcome::Succeeded(s("{\"payout\":{\"alice\":\"9999\"}}"));
    let st = c.resolve_purchase(req.buyer_id, req.listing, &outcome).unwrap();
    assert_eq!(transfer_pairs(&st), vec![(s("alice"), 9667), (s("market"), 332)]);
}

#[test]
fn empty_breakdown_within_tolerance_settles_nothing() {
    // a 60-unit sale: the empty breakdown sums to 0, within the 100-unit
    // tolerance, so it is trusted and nobody is paid
    let mut c = Contract::new(s("market"), 10, 0, s("nft"), s("charity"));
    let r = c.nft_on_approve(
        s("cheap"),
        s("alice"),
        1,
        "{\"price\":\"60\",\"donation\":\"0\"}",
        &s("nft"),
        &s("alice"),
    );
    assert!(r.is_ok());
    let req = c.buy(&s("cheap"), s("bob"), 60).unwrap();
    let outcome = CallOutcome::Succeeded(s("{\"payout\":{}}"));
    let st = c.resolve_purchase(req.buyer_id, req.listing, &outcome).unwrap();
    assert!(st.transfers.is_empty());
    assert_eq!(st.settled, 60);
}

#[test]
fn setters_reject_non_owner_and_change_nothing() {
    let mut c = fresh();
    let intruder = s("mallory");
    assert_eq!(c.set_owner(&intruder, s("mallory")), Err(MarketError::Unauthorized));
    assert_eq!(c.change_min_price(&intruder, 1), Err(MarketError::Unauthorized));
    assert_eq!(c.update_charity_account(&intruder, s("mallory")), Err(MarketError::Unauthorized));
    assert_eq!(c.update_royalty(&intruder, 0), Err(MarketError::Unauthorized));
    assert_eq!(c.owner_id, "market");
    assert_eq!(c.min_price, 100);
    assert_eq!(c.royalty, 250);
    assert_eq!(c.nft_collection, "nft");
    assert_eq!(c.charity_account, "charity");
}

#[test]
fn setters_apply_for_owner() {
    let mut c = fresh();
    let owner = s("market");
    assert_eq!(c.change_min_price(&owner, 5), Ok(()));
    assert_eq!(c.min_price, 5);
    assert_eq!(c.update_charity_account(&owner, s("red-cross")), Ok(()));
    assert_eq!(c.charity_account, "red-cross");
    assert_eq!(c.update_royalty(&owner, 1000), Ok(()));
    assert_eq!(c.royalty, 1000);
    assert_eq!(c.set_owner(&owner, s("new-market")), Ok(()));
    assert_eq!(c.owner_id, "new-market");
    // the old owner lost its powers with the handover
    assert_eq!(c.change_min_price(&owner, 7), Err(MarketError::Unauthorized));
    assert_eq!(c.min_price, 5);
}
