use record_store::error::Error;
use record_store::ids::IdAllocator;
use record_store::market::{
    ArtistPayload, ArtworkPayload, BuyPayload, Marketplace, NftPayload, NftStatus,
};

fn artist(name: &str, email: &str) -> ArtistPayload {
    ArtistPayload {
        name: name.to_string(),
        wallet_address: "wallet-1".to_string(),
        email: email.to_string(),
    }
}

fn artwork(artist_id: u64) -> ArtworkPayload {
    ArtworkPayload { artist_id, title: "Sunrise".to_string(), description: "oil".to_string() }
}

fn buy(nft_id: u64, buyer_id: u64, seller_id: u64, price: u64) -> BuyPayload {
    BuyPayload { nft_id, buyer_id, seller_id, price }
}

/// Artist 1, artwork 2, NFT 3 (priced 100, owned by 1) and artist 4.
fn scenario_market() -> Marketplace {
    let mut m = Marketplace::new();
    assert_eq!(m.create_artist_profile(artist("A", "a@x.com"), 10).unwrap().id, 1);
    assert_eq!(m.mint_artwork(artwork(1), 11).unwrap().id, 2);
    let n = m.mint_nft(NftPayload { artwork_id: 2, owner_ids: vec![1], price: 100 }, 12).unwrap();
    assert_eq!(n.id, 3);
    assert_eq!(n.status, NftStatus::Pending);
    assert_eq!(m.create_artist_profile(artist("B", "b@x.com"), 13).unwrap().id, 4);
    m
}

#[test]
fn purchase_scenario() {
    let mut m = scenario_market();
    let t = m.buy_nft(buy(3, 4, 1, 100), 20).unwrap();
    assert_eq!((t.id, t.nft_id, t.buyer_id, t.seller_id, t.price, t.created_at), (5, 3, 4, 1, 100, 20));
    let n = m.get_nft(3).unwrap();
    assert_eq!(n.owner_ids, vec![1, 4]);
    assert_eq!(n.status, NftStatus::Completed);
    assert_eq!(n.price, 100);
    assert_eq!(m.get_transaction(5), Ok(t.clone()));
    assert_eq!(m.get_all_transactions(), Ok(vec![t]));
}

#[test]
fn purchase_at_wrong_price_changes_nothing() {
    let mut m = scenario_market();
    let before = m.get_nft(3).unwrap();
    assert_eq!(m.buy_nft(buy(3, 4, 1, 99), 20), Err(Error::InvalidInput));
    assert_eq!(m.get_nft(3), Ok(before));
    assert_eq!(m.get_all_transactions(), Err(Error::NotFound));
    assert_eq!(m.create_artist_profile(artist("C", "c@x.com"), 21).unwrap().id, 5);
}

#[test]
fn second_purchase_is_refused() {
    let mut m = scenario_market();
    assert!(m.buy_nft(buy(3, 4, 1, 100), 20).is_ok());
    let after = m.get_nft(3).unwrap();
    assert_eq!(m.buy_nft(buy(3, 4, 1, 100), 21), Err(Error::InvalidInput));
    assert_eq!(m.buy_nft(buy(3, 1, 4, 100), 21), Err(Error::InvalidInput));
    assert_eq!(m.get_nft(3), Ok(after));
    assert_eq!(m.get_all_transactions().unwrap().len(), 1);
}

#[test]
fn purchase_checks_in_order() {
    let mut m = scenario_market();
    assert_eq!(m.buy_nft(buy(0, 4, 1, 100), 1), Err(Error::EmptyFields));
    assert_eq!(m.buy_nft(buy(3, 4, 1, 0), 1), Err(Error::EmptyFields));
    assert_eq!(m.buy_nft(buy(3, 4, 4, 100), 1), Err(Error::InvalidInput));
    assert_eq!(m.buy_nft(buy(9, 4, 1, 100), 1), Err(Error::NotFound));
    assert_eq!(m.buy_nft(buy(3, 9, 1, 100), 1), Err(Error::NotFound));
    assert_eq!(m.buy_nft(buy(3, 4, 9, 100), 1), Err(Error::NotFound));
    assert_eq!(m.get_nft(3).unwrap().status, NftStatus::Pending);
}

#[test]
fn artist_registration_checks() {
    let mut m = Marketplace::new();
    assert_eq!(m.create_artist_profile(artist("", "a@x.com"), 1), Err(Error::EmptyFields));
    assert_eq!(m.create_artist_profile(artist("A", "a@x"), 1), Err(Error::InvalidEmail));
    let a = m.create_artist_profile(artist("A", "a@x.com"), 1).unwrap();
    assert_eq!(m.create_artist_profile(artist("B", "a@x.com"), 2), Err(Error::AlreadyExists));
    assert_eq!(m.get_artist(a.id), Ok(a.clone()));
    assert_eq!(m.get_all_artists(), Ok(vec![a]));
    assert_eq!(m.get_artist(2), Err(Error::NotFound));
}

#[test]
fn minting_needs_existing_parents() {
    let mut m = Marketplace::new();
    assert_eq!(m.mint_artwork(artwork(1), 1), Err(Error::NotFound));
    assert_eq!(m.mint_artwork(artwork(0), 1), Err(Error::EmptyFields));
    let a = m.create_artist_profile(artist("A", "a@x.com"), 1).unwrap();
    let w = m.mint_artwork(artwork(a.id), 2).unwrap();
    assert_eq!(m.get_artwork(w.id), Ok(w.clone()));
    assert_eq!(
        m.mint_nft(NftPayload { artwork_id: w.id, owner_ids: vec![], price: 5 }, 3),
        Err(Error::EmptyFields)
    );
    assert_eq!(
        m.mint_nft(NftPayload { artwork_id: w.id, owner_ids: vec![a.id], price: 0 }, 3),
        Err(Error::EmptyFields)
    );
    assert_eq!(
        m.mint_nft(NftPayload { artwork_id: a.id, owner_ids: vec![a.id], price: 5 }, 3),
        Err(Error::NotFound)
    );
    assert_eq!(
        m.mint_nft(NftPayload { artwork_id: w.id, owner_ids: vec![a.id, 77], price: 5 }, 3),
        Err(Error::NotFound)
    );
    assert_eq!(m.get_all_nfts(), Err(Error::NotFound));
    let n = m.mint_nft(NftPayload { artwork_id: w.id, owner_ids: vec![a.id], price: 5 }, 3).unwrap();
    assert_eq!(n.id, 3);
    assert_eq!(m.get_all_nfts(), Ok(vec![n]));
    assert_eq!(m.get_all_artworks(), Ok(vec![w]));
}

#[test]
fn fresh_marketplace_lists_nothing() {
    let m = Marketplace::new();
    assert_eq!(m.get_all_artists(), Err(Error::NotFound));
    assert_eq!(m.get_all_artworks(), Err(Error::NotFound));
    assert_eq!(m.get_all_nfts(), Err(Error::NotFound));
    assert_eq!(m.get_all_transactions(), Err(Error::NotFound));
}

#[test]
fn allocator_counts_up_and_stops_at_the_top() {
    let mut ids = IdAllocator::new();
    assert_eq!(ids.next_id(), Some(1));
    assert_eq!(ids.next_id(), Some(2));
    assert_eq!(ids.last_issued(), 2);
    let mut top = IdAllocator::resume(u64::MAX - 1);
    assert_eq!(top.next_id(), Some(u64::MAX));
    assert_eq!(top.next_id(), None);
    assert_eq!(top.last_issued(), u64::MAX);
}

#[test]
fn marketplace_restore_of_export_gives_it_back() {
    let mut m = scenario_market();
    m.buy_nft(buy(3, 4, 1, 100), 20).unwrap();
    let (last, artists, artworks, nfts, transactions) = m.export();
    assert_eq!(last, 5);
    let mut r = Marketplace::restore(last, artists.clone(), artworks.clone(), nfts.clone(), transactions.clone()).unwrap();
    assert_eq!(r.get_all_artists(), Ok(artists));
    assert_eq!(r.get_all_artworks(), Ok(artworks));
    assert_eq!(r.get_all_nfts(), Ok(nfts));
    assert_eq!(r.get_all_transactions(), Ok(transactions));
    assert_eq!(r.buy_nft(buy(3, 1, 4, 100), 30), Err(Error::InvalidInput));
    assert_eq!(r.create_artist_profile(artist("C", "c@x.com"), 31).unwrap().id, 6);
}

#[test]
fn marketplace_restore_refuses_inconsistent_records() {
    let (last, artists, artworks, nfts, transactions) = scenario_market().export();
    assert!(Marketplace::restore(last - 1, artists.clone(), artworks.clone(), nfts.clone(), transactions.clone()).is_none());
    assert!(Marketplace::restore(last, vec![], artworks.clone(), vec![], vec![]).is_none());
    let mut unpriced = nfts.clone();
    unpriced[0].price = 0;
    assert!(Marketplace::restore(last, artists.clone(), artworks.clone(), unpriced, vec![]).is_none());
    let mut stray = nfts.clone();
    stray[0].owner_ids.push(99);
    assert!(Marketplace::restore(last, artists.clone(), artworks.clone(), stray, vec![]).is_none());
    assert!(Marketplace::restore(last, artists, artworks, nfts, transactions).is_some());
}
