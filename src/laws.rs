use crate::error::Error;
use crate::market::{
    buy_step, create_artist_step, market_state_wf, mint_artwork_step, mint_nft_step,
    restored_market_state, sold_to, Artist, ArtistPayload, Artwork, ArtworkPayload, BuyPayload,
    MarketState, Nft, NftPayload, NftStatus, NftView, Transaction,
};
use crate::swap::{
    create_book_step, create_feedback_step, create_swap_request_step, create_user_step,
    restored_swap_state, swap_state_wf, Book, BookPayload, Feedback, FeedbackPayload,
    SwapRequest, SwapRequestPayload, SwapState, User, UserPayload,
};
use crate::table::{
    has_key, lemma_keyed_values, lemma_push_fresh, lemma_set_value, listed, lookup, values,
};
use vstd::prelude::*;

verus! {

/// A step that hands out `id`: it lies above the last identifier handed out
/// before, and is the last one after.
pub open spec fn hands_out(last_before: u64, last_after: u64, id: u64) -> bool {
    last_before < id && id == last_after
}

/// Along any run of steps that each hand out an identifier, the identifiers
/// strictly increase, so no two are equal.
pub proof fn ids_increase_along_a_run(lasts: Seq<u64>, ids: Seq<u64>)
    requires
        lasts.len() == ids.len() + 1,
        forall|k: int| 0 <= k < ids.len() ==> hands_out(lasts[k], lasts[k + 1], #[trigger] ids[k]),
    ensures
        forall|i: int, j: int| 0 <= i < j < ids.len() ==> ids[i] < ids[j],
{
    assert forall|i: int, j: int| 0 <= i < j < ids.len() implies ids[i] < ids[j] by {
        lemma_lasts_grow(lasts, ids, i + 1, j);
        assert(hands_out(lasts[j], lasts[j + 1], ids[j]));
        assert(hands_out(lasts[i], lasts[i + 1], ids[i]));
    }
}

proof fn lemma_lasts_grow(lasts: Seq<u64>, ids: Seq<u64>, a: int, b: int)
    requires
        lasts.len() == ids.len() + 1,
        forall|k: int| 0 <= k < ids.len() ==> hands_out(lasts[k], lasts[k + 1], #[trigger] ids[k]),
        0 <= a <= b < lasts.len(),
    ensures
        lasts[a] <= lasts[b],
    decreases b - a,
{
    if a < b {
        lemma_lasts_grow(lasts, ids, a, b - 1);
        assert(hands_out(lasts[b - 1], lasts[b], ids[b - 1]));
    }
}

/// Every create of the book-swap store either hands out a fresh identifier,
/// stored under no key of any collection before, or changes nothing.
pub proof fn swap_creates_hand_out_fresh_ids(
    st: SwapState,
    now: u64,
    up: UserPayload,
    bp: BookPayload,
    qp: SwapRequestPayload,
    fp: FeedbackPayload,
)
    requires
        swap_state_wf(st),
    ensures
        match create_user_step(st, up, now) {
            (post, Ok(r)) => hands_out(st.last_id, post.last_id, r.id) && swap_id_unused(st, r.id),
            (post, Err(_)) => post == st,
        },
        match create_book_step(st, bp, now) {
            (post, Ok(r)) => hands_out(st.last_id, post.last_id, r.id) && swap_id_unused(st, r.id),
            (post, Err(_)) => post == st,
        },
        match create_swap_request_step(st, qp, now) {
            (post, Ok(r)) => hands_out(st.last_id, post.last_id, r.id) && swap_id_unused(st, r.id),
            (post, Err(_)) => post == st,
        },
        match create_feedback_step(st, fp, now) {
            (post, Ok(r)) => hands_out(st.last_id, post.last_id, r.id) && swap_id_unused(st, r.id),
            (post, Err(_)) => post == st,
        },
{
}

pub open spec fn swap_id_unused(st: SwapState, id: u64) -> bool {
    !has_key(st.users, id) && !has_key(st.books, id) && !has_key(st.swap_requests, id) && !has_key(
        st.feedbacks,
        id,
    )
}

pub open spec fn market_id_unused(st: MarketState, id: u64) -> bool {
    !has_key(st.artists, id) && !has_key(st.artworks, id) && !has_key(st.nfts, id) && !has_key(
        st.transactions,
        id,
    )
}

/// Every create of the marketplace, a purchase included, either hands out a
/// fresh identifier, stored under no key of any collection before, or
/// changes nothing.
pub proof fn market_creates_hand_out_fresh_ids(
    st: MarketState,
    now: u64,
    ap: ArtistPayload,
    wp: ArtworkPayload,
    np: NftPayload,
    pp: BuyPayload,
)
    requires
        market_state_wf(st),
    ensures
        match create_artist_step(st, ap, now) {
            (post, Ok(r)) => hands_out(st.last_id, post.last_id, r.id) && market_id_unused(st, r.id),
            (post, Err(_)) => post == st,
        },
        match mint_artwork_step(st, wp, now) {
            (post, Ok(r)) => hands_out(st.last_id, post.last_id, r.id) && market_id_unused(st, r.id),
            (post, Err(_)) => post == st,
        },
        match mint_nft_step(st, np, now) {
            (post, Ok(r)) => hands_out(st.last_id, post.last_id, r.id) && market_id_unused(st, r.id),
            (post, Err(_)) => post == st,
        },
        match buy_step(st, pp, now) {
            (post, Ok(r)) => hands_out(st.last_id, post.last_id, r.id) && market_id_unused(st, r.id),
            (post, Err(_)) => post == st,
        },
{
}

/// A dependent record that names an absent parent is refused with
/// `NotFound` once its own fields are filled in, and nothing is stored.
pub proof fn swap_missing_parent_is_not_found(
    st: SwapState,
    now: u64,
    bp: BookPayload,
    qp: SwapRequestPayload,
    fp: FeedbackPayload,
)
    ensures
        bp.user_id != 0 && bp.title@.len() > 0 && bp.author@.len() > 0 && !has_key(
            st.users,
            bp.user_id,
        ) ==> create_book_step(st, bp, now) == (st, Err::<Book, Error>(Error::NotFound)),
        qp.book_id != 0 && qp.requested_by_id != 0 && (!has_key(st.books, qp.book_id) || !has_key(
            st.users,
            qp.requested_by_id,
        )) ==> create_swap_request_step(st, qp, now) == (
            st,
            Err::<SwapRequest, Error>(Error::NotFound),
        ),
        fp.user_id != 0 && fp.swap_request_id != 0 && fp.rating != 0 && (!has_key(
            st.users,
            fp.user_id,
        ) || !has_key(st.swap_requests, fp.swap_request_id)) ==> create_feedback_step(st, fp, now)
            == (st, Err::<Feedback, Error>(Error::NotFound)),
{
}

/// A dependent record that names an absent parent is refused with
/// `NotFound` once its own fields are filled in, and nothing is stored.
pub proof fn market_missing_parent_is_not_found(
    st: MarketState,
    now: u64,
    wp: ArtworkPayload,
    np: NftPayload,
    pp: BuyPayload,
)
    ensures
        wp.artist_id != 0 && wp.title@.len() > 0 && !has_key(st.artists, wp.artist_id)
            ==> mint_artwork_step(st, wp, now) == (
            st,
            Err::<Artwork, Error>(Error::NotFound),
        ),
        np.artwork_id != 0 && np.owner_ids@.len() > 0 && np.price != 0 && (!has_key(
            st.artworks,
            np.artwork_id,
        ) || exists|j: int|
            0 <= j < np.owner_ids@.len() && !has_key(st.artists, #[trigger] np.owner_ids@[j]))
            ==> mint_nft_step(st, np, now) == (
            st,
            Err::<NftView, Error>(Error::NotFound),
        ),
        pp.nft_id != 0 && pp.buyer_id != 0 && pp.seller_id != 0 && pp.price != 0 && pp.buyer_id
            != pp.seller_id && (!has_key(st.nfts, pp.nft_id) || !has_key(st.artists, pp.buyer_id)
            || !has_key(st.artists, pp.seller_id)) ==> buy_step(st, pp, now) == (
            st,
            Err::<Transaction, Error>(Error::NotFound),
        ),
{
}

/// Of two registrations with the same email address, the second is refused
/// with `AlreadyExists` once the first has succeeded (its other fields
/// filled in).
pub proof fn user_email_registers_once(
    st: SwapState,
    p1: UserPayload,
    p2: UserPayload,
    now1: u64,
    now2: u64,
)
    requires
        create_user_step(st, p1, now1).1.is_ok(),
        p2.email@ == p1.email@,
        p2.name@.len() > 0,
        p2.phone_number@.len() > 0,
    ensures
        create_user_step(create_user_step(st, p1, now1).0, p2, now2) == (
            create_user_step(st, p1, now1).0,
            Err::<User, Error>(Error::AlreadyExists),
        ),
{
    let post = create_user_step(st, p1, now1).0;
    assert(post.users[st.users.len() as int].1.email@ == p2.email@);
}

/// Of two artist registrations with the same email address, the second is
/// refused with `AlreadyExists` once the first has succeeded (its other
/// fields filled in).
pub proof fn artist_email_registers_once(
    st: MarketState,
    p1: ArtistPayload,
    p2: ArtistPayload,
    now1: u64,
    now2: u64,
)
    requires
        create_artist_step(st, p1, now1).1.is_ok(),
        p2.email@ == p1.email@,
        p2.name@.len() > 0,
        p2.wallet_address@.len() > 0,
    ensures
        create_artist_step(create_artist_step(st, p1, now1).0, p2, now2) == (
            create_artist_step(st, p1, now1).0,
            Err::<Artist, Error>(Error::AlreadyExists),
        ),
{
    let post = create_artist_step(st, p1, now1).0;
    assert(post.artists[st.artists.len() as int].1.email@ == p2.email@);
}

/// After a successful create, a lookup of the new id answers the record
/// that the create returned (and reads change nothing, so every later read
/// answers it too, until the record is updated).
pub proof fn swap_read_after_create(
    st: SwapState,
    now: u64,
    up: UserPayload,
    bp: BookPayload,
    qp: SwapRequestPayload,
    fp: FeedbackPayload,
)
    requires
        swap_state_wf(st),
    ensures
        create_user_step(st, up, now).1 matches Ok(r) ==> lookup(
            create_user_step(st, up, now).0.users,
            r.id,
        ) == Some(r),
        create_book_step(st, bp, now).1 matches Ok(r) ==> lookup(
            create_book_step(st, bp, now).0.books,
            r.id,
        ) == Some(r),
        create_swap_request_step(st, qp, now).1 matches Ok(r) ==> lookup(
            create_swap_request_step(st, qp, now).0.swap_requests,
            r.id,
        ) == Some(r),
        create_feedback_step(st, fp, now).1 matches Ok(r) ==> lookup(
            create_feedback_step(st, fp, now).0.feedbacks,
            r.id,
        ) == Some(r),
{
    if let Ok(r) = create_user_step(st, up, now).1 {
        lemma_push_fresh(st.users, st.last_id, r.id, r);
    }
    if let Ok(r) = create_book_step(st, bp, now).1 {
        lemma_push_fresh(st.books, st.last_id, r.id, r);
    }
    if let Ok(r) = create_swap_request_step(st, qp, now).1 {
        lemma_push_fresh(st.swap_requests, st.last_id, r.id, r);
    }
    if let Ok(r) = create_feedback_step(st, fp, now).1 {
        lemma_push_fresh(st.feedbacks, st.last_id, r.id, r);
    }
}

/// After a successful create or purchase, a lookup of the new id answers
/// the record that it returned.
pub proof fn market_read_after_create(
    st: MarketState,
    now: u64,
    ap: ArtistPayload,
    wp: ArtworkPayload,
    np: NftPayload,
    pp: BuyPayload,
)
    requires
        market_state_wf(st),
    ensures
        create_artist_step(st, ap, now).1 matches Ok(r) ==> lookup(
            create_artist_step(st, ap, now).0.artists,
            r.id,
        ) == Some(r),
        mint_artwork_step(st, wp, now).1 matches Ok(r) ==> lookup(
            mint_artwork_step(st, wp, now).0.artworks,
            r.id,
        ) == Some(r),
        mint_nft_step(st, np, now).1 matches Ok(r) ==> lookup(
            mint_nft_step(st, np, now).0.nfts,
            r.id,
        ) == Some(r),
        buy_step(st, pp, now).1 matches Ok(r) ==> lookup(
            buy_step(st, pp, now).0.transactions,
            r.id,
        ) == Some(r),
{
    if let Ok(r) = create_artist_step(st, ap, now).1 {
        lemma_push_fresh(st.artists, st.last_id, r.id, r);
    }
    if let Ok(r) = mint_artwork_step(st, wp, now).1 {
        lemma_push_fresh(st.artworks, st.last_id, r.id, r);
    }
    if let Ok(r) = mint_nft_step(st, np, now).1 {
        lemma_push_fresh(st.nfts, st.last_id, r.id, r);
    }
    if let Ok(r) = buy_step(st, pp, now).1 {
        lemma_push_fresh(st.transactions, st.last_id, r.id, r);
    }
}

/// A purchase of a `Pending` NFT at its price, between two distinct stored
/// artists, succeeds: the buyer joins the owners and the sale is
/// `Completed`. Any later purchase of that NFT between two distinct stored
/// artists is then refused with `InvalidInput`.
pub proof fn purchase_completes_once(
    st: MarketState,
    p: BuyPayload,
    now: u64,
    again: BuyPayload,
    later: u64,
)
    requires
        market_state_wf(st),
        st.last_id < u64::MAX,
        p.nft_id != 0 && p.buyer_id != 0 && p.seller_id != 0,
        p.buyer_id != p.seller_id,
        has_key(st.artists, p.buyer_id) && has_key(st.artists, p.seller_id),
        lookup(st.nfts, p.nft_id) matches Some(n) && n.status == NftStatus::Pending && n.price
            == p.price,
        again.nft_id == p.nft_id,
        again.buyer_id != 0 && again.seller_id != 0 && again.price != 0,
        again.buyer_id != again.seller_id,
        has_key(buy_step(st, p, now).0.artists, again.buyer_id),
        has_key(buy_step(st, p, now).0.artists, again.seller_id),
    ensures
        buy_step(st, p, now).1.is_ok(),
        lookup(buy_step(st, p, now).0.nfts, p.nft_id) == Some(
            sold_to(lookup(st.nfts, p.nft_id).unwrap(), p.buyer_id),
        ),
        lookup(buy_step(st, p, now).0.nfts, p.nft_id).unwrap().owner_ids == lookup(
            st.nfts,
            p.nft_id,
        ).unwrap().owner_ids.push(p.buyer_id),
        lookup(buy_step(st, p, now).0.nfts, p.nft_id).unwrap().status == NftStatus::Completed,
        buy_step(buy_step(st, p, now).0, again, later).1 == Err::<
            Transaction,
            Error,
        >(Error::InvalidInput),
{
    let n = lookup(st.nfts, p.nft_id).unwrap();
    let sold = sold_to(n, p.buyer_id);
    lemma_set_value(st.nfts, p.nft_id, sold);
}

/// A listing over an empty collection, as on a fresh store, is `NotFound`
/// and never an empty sequence.
pub proof fn empty_listing_is_not_found<T: View>(r: Result<Vec<T>, Error>)
    requires
        listed(r, Seq::<T::V>::empty()),
    ensures
        r == Err::<Vec<T>, Error>(Error::NotFound),
{
}

/// Restoring the records that a store exports, with its last identifier,
/// gives the same store back.
pub proof fn swap_restore_of_export(st: SwapState)
    requires
        swap_state_wf(st),
    ensures
        restored_swap_state(
            st.last_id,
            values(st.users),
            values(st.books),
            values(st.swap_requests),
            values(st.feedbacks),
        ) == st,
{
    lemma_keyed_values::<User>(st.users, st.last_id);
    lemma_keyed_values::<Book>(st.books, st.last_id);
    lemma_keyed_values::<SwapRequest>(st.swap_requests, st.last_id);
    lemma_keyed_values::<Feedback>(st.feedbacks, st.last_id);
}

/// Restoring the records that a marketplace exports, with its last
/// identifier, gives the same marketplace back.
pub proof fn market_restore_of_export(st: MarketState)
    requires
        market_state_wf(st),
    ensures
        restored_market_state(
            st.last_id,
            values(st.artists),
            values(st.artworks),
            values(st.nfts),
            values(st.transactions),
        ) == st,
{
    lemma_keyed_values::<Artist>(st.artists, st.last_id);
    lemma_keyed_values::<Artwork>(st.artworks, st.last_id);
    lemma_keyed_values::<Nft>(st.nfts, st.last_id);
    lemma_keyed_values::<Transaction>(st.transactions, st.last_id);
}

} // verus!
