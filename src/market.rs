use crate::error::Error;
use crate::format::{email_shaped, is_email};
use crate::ids::IdAllocator;
use crate::table::{
    collection_wf, found, has_key, keyed, keys_at_most, lemma_push_fresh, lemma_set_value,
    lemma_stored_id, listed, lookup, set_value, values, views, Record, Table,
};
use vstd::prelude::*;

verus! {

/// Where an NFT stands in its sale.
#[derive(Clone, Copy, Debug, PartialEq, Eq, Structural)]
pub enum NftStatus {
    Pending,
    Completed,
    Cancelled,
}

/// A registered artist. Registration refuses an email address that a stored
/// artist already has.
#[derive(Clone, Debug, PartialEq, Eq)]
pub struct Artist {
    pub id: u64,
    pub name: String,
    pub wallet_address: String,
    pub email: String,
    pub created_at: u64,
}

/// An artwork by a stored artist.
#[derive(Clone, Debug, PartialEq, Eq)]
pub struct Artwork {
    pub id: u64,
    pub artist_id: u64,
    pub title: String,
    pub description: String,
    pub created_at: u64,
}

/// A token minted from an artwork, with its owners, price and sale status.
#[derive(Clone, Debug, PartialEq, Eq)]
pub struct Nft {
    pub id: u64,
    pub artwork_id: u64,
    pub owner_ids: Vec<u64>,
    pub price: u64,
    pub status: NftStatus,
    pub created_at: u64,
}

/// An [`Nft`] with its owners as a sequence.
pub struct NftView {
    pub id: u64,
    pub artwork_id: u64,
    pub owner_ids: Seq<u64>,
    pub price: u64,
    pub status: NftStatus,
    pub created_at: u64,
}

/// A completed purchase; never changed once written.
#[derive(Clone, Copy, Debug, PartialEq, Eq)]
pub struct Transaction {
    pub id: u64,
    pub nft_id: u64,
    pub buyer_id: u64,
    pub seller_id: u64,
    pub price: u64,
    pub created_at: u64,
}

/// The fields of an artist that a caller supplies.
#[derive(Clone, Debug)]
pub struct ArtistPayload {
    pub name: String,
    pub wallet_address: String,
    pub email: String,
}

/// The fields of an artwork that a caller supplies.
#[derive(Clone, Debug)]
pub struct ArtworkPayload {
    pub artist_id: u64,
    pub title: String,
    pub description: String,
}

/// The fields of an NFT that a caller supplies.
#[derive(Clone, Debug)]
pub struct NftPayload {
    pub artwork_id: u64,
    pub owner_ids: Vec<u64>,
    pub price: u64,
}

/// A purchase request: which NFT, between whom, at what price.
#[derive(Clone, Copy, Debug)]
pub struct BuyPayload {
    pub nft_id: u64,
    pub buyer_id: u64,
    pub seller_id: u64,
    pub price: u64,
}

fn copy_ids(v: &Vec<u64>) -> (r: Vec<u64>)
    ensures
        r@ == v@,
{
    let mut out: Vec<u64> = Vec::new();
    let mut i: usize = 0;
    while i < v.len()
        invariant
            i <= v@.len(),
            out@ == v@.subrange(0, i as int),
        decreases v@.len() - i,
    {
        out.push(v[i]);
        i = i + 1;
        assert(out@ =~= v@.subrange(0, i as int));
    }
    assert(v@.subrange(0, i as int) =~= v@);
    out
}

fn owners_exist(artists: &Table<Artist>, owners: &Vec<u64>) -> (r: bool)
    ensures
        r == owners_known(artists@, owners@),
{
    let mut i: usize = 0;
    while i < owners.len()
        invariant
            i <= owners@.len(),
            forall|j: int| 0 <= j < i ==> has_key(artists@, #[trigger] owners@[j]),
        decreases owners@.len() - i,
    {
        if !artists.contains(owners[i]) {
            return false;
        }
        i = i + 1;
    }
    true
}

impl View for Artist {
    type V = Artist;

    open spec fn view(&self) -> Artist {
        *self
    }
}

impl Record for Artist {
    open spec fn key_of(v: Artist) -> u64 {
        v.id
    }

    fn key(&self) -> (r: u64) {
        self.id
    }

    fn duplicate(&self) -> (r: Artist) {
        Artist {
            id: self.id,
            name: self.name.clone(),
            wallet_address: self.wallet_address.clone(),
            email: self.email.clone(),
            created_at: self.created_at,
        }
    }
}

impl View for Artwork {
    type V = Artwork;

    open spec fn view(&self) -> Artwork {
        *self
    }
}

impl Record for Artwork {
    open spec fn key_of(v: Artwork) -> u64 {
        v.id
    }

    fn key(&self) -> (r: u64) {
        self.id
    }

    fn duplicate(&self) -> (r: Artwork) {
        Artwork {
            id: self.id,
            artist_id: self.artist_id,
            title: self.title.clone(),
            description: self.description.clone(),
            created_at: self.created_at,
        }
    }
}

impl View for Nft {
    type V = NftView;

    open spec fn view(&self) -> NftView {
        NftView {
            id: self.id,
            artwork_id: self.artwork_id,
            owner_ids: self.owner_ids@,
            price: self.price,
            status: self.status,
            created_at: self.created_at,
        }
    }
}

impl Record for Nft {
    open spec fn key_of(v: NftView) -> u64 {
        v.id
    }

    fn key(&self) -> (r: u64) {
        self.id
    }

    fn duplicate(&self) -> (r: Nft) {
        Nft {
            id: self.id,
            artwork_id: self.artwork_id,
            owner_ids: copy_ids(&self.owner_ids),
            price: self.price,
            status: self.status,
            created_at: self.created_at,
        }
    }
}

impl View for Transaction {
    type V = Transaction;

    open spec fn view(&self) -> Transaction {
        *self
    }
}

impl Record for Transaction {
    open spec fn key_of(v: Transaction) -> u64 {
        v.id
    }

    fn key(&self) -> (r: u64) {
        self.id
    }

    fn duplicate(&self) -> (r: Transaction) {
        *self
    }
}

/// What a [`Marketplace`] holds: the last identifier handed out and the four
/// collections, each as `(id, record)` pairs in key order.
pub struct MarketState {
    pub last_id: u64,
    pub artists: Seq<(u64, Artist)>,
    pub artworks: Seq<(u64, Artwork)>,
    pub nfts: Seq<(u64, NftView)>,
    pub transactions: Seq<(u64, Transaction)>,
}

/// Every id in `owners` names a stored artist.
pub open spec fn owners_known(artists: Seq<(u64, Artist)>, owners: Seq<u64>) -> bool {
    forall|j: int| 0 <= j < owners.len() ==> has_key(artists, #[trigger] owners[j])
}

/// Every reference names a stored record, and every NFT has a price.
pub open spec fn market_refs_ok(st: MarketState) -> bool {
    &&& forall|i: int|
        0 <= i < st.artworks.len() ==> has_key(st.artists, #[trigger] st.artworks[i].1.artist_id)
    &&& forall|i: int|
        0 <= i < st.nfts.len() ==> has_key(st.artworks, #[trigger] st.nfts[i].1.artwork_id)
            && owners_known(st.artists, st.nfts[i].1.owner_ids) && st.nfts[i].1.price != 0
    &&& forall|i: int|
        0 <= i < st.transactions.len() ==> has_key(st.nfts, #[trigger] st.transactions[i].1.nft_id)
            && has_key(st.artists, st.transactions[i].1.buyer_id) && has_key(
            st.artists,
            st.transactions[i].1.seller_id,
        )
}

/// The marketplace's invariant: well-formed collections, every reference
/// names a stored record, and every NFT has a price.
pub open spec fn market_state_wf(st: MarketState) -> bool {
    &&& collection_wf::<Artist>(st.artists, st.last_id)
    &&& collection_wf::<Artwork>(st.artworks, st.last_id)
    &&& collection_wf::<Nft>(st.nfts, st.last_id)
    &&& collection_wf::<Transaction>(st.transactions, st.last_id)
    &&& market_refs_ok(st)
}

/// The state made of records listed in id order, each under its own id.
pub open spec fn restored_market_state(
    last_id: u64,
    artists: Seq<Artist>,
    artworks: Seq<Artwork>,
    nfts: Seq<NftView>,
    transactions: Seq<Transaction>,
) -> MarketState {
    MarketState {
        last_id,
        artists: keyed::<Artist>(artists),
        artworks: keyed::<Artwork>(artworks),
        nfts: keyed::<Nft>(nfts),
        transactions: keyed::<Transaction>(transactions),
    }
}

pub open spec fn artist_email_taken(artists: Seq<(u64, Artist)>, email: Seq<char>) -> bool {
    exists|i: int| 0 <= i < artists.len() && #[trigger] artists[i].1.email@ == email
}

/// The first check that an artist payload fails, in the order they run.
pub open spec fn artist_payload_error(st: MarketState, p: ArtistPayload) -> Option<Error> {
    if p.name@.len() == 0 || p.wallet_address@.len() == 0 || p.email@.len() == 0 {
        Some(Error::EmptyFields)
    } else if !email_shaped(p.email@) {
        Some(Error::InvalidEmail)
    } else if artist_email_taken(st.artists, p.email@) {
        Some(Error::AlreadyExists)
    } else {
        None
    }
}

pub open spec fn create_artist_step(st: MarketState, p: ArtistPayload, now: u64) -> (
    MarketState,
    Result<Artist, Error>,
) {
    match artist_payload_error(st, p) {
        Some(e) => (st, Err(e)),
        None => if st.last_id == u64::MAX {
            (st, Err(Error::IdsExhausted))
        } else {
            let id = (st.last_id + 1) as u64;
            let a = Artist {
                id,
                name: p.name,
                wallet_address: p.wallet_address,
                email: p.email,
                created_at: now,
            };
            (MarketState { last_id: id, artists: st.artists.push((id, a)), ..st }, Ok(a))
        },
    }
}

pub open spec fn artwork_payload_error(st: MarketState, p: ArtworkPayload) -> Option<Error> {
    if p.artist_id == 0 || p.title@.len() == 0 {
        Some(Error::EmptyFields)
    } else if !has_key(st.artists, p.artist_id) {
        Some(Error::NotFound)
    } else {
        None
    }
}

pub open spec fn mint_artwork_step(st: MarketState, p: ArtworkPayload, now: u64) -> (
    MarketState,
    Result<Artwork, Error>,
) {
    match artwork_payload_error(st, p) {
        Some(e) => (st, Err(e)),
        None => if st.last_id == u64::MAX {
            (st, Err(Error::IdsExhausted))
        } else {
            let id = (st.last_id + 1) as u64;
            let a = Artwork {
                id,
                artist_id: p.artist_id,
                title: p.title,
                description: p.description,
                created_at: now,
            };
            (MarketState { last_id: id, artworks: st.artworks.push((id, a)), ..st }, Ok(a))
        },
    }
}

pub open spec fn nft_payload_error(st: MarketState, p: NftPayload) -> Option<Error> {
    if p.artwork_id == 0 || p.owner_ids@.len() == 0 || p.price == 0 {
        Some(Error::EmptyFields)
    } else if !has_key(st.artworks, p.artwork_id) {
        Some(Error::NotFound)
    } else if !owners_known(st.artists, p.owner_ids@) {
        Some(Error::NotFound)
    } else {
        None
    }
}

pub open spec fn nft_result(r: Result<Nft, Error>) -> Result<NftView, Error> {
    match r {
        Ok(n) => Ok(n@),
        Err(e) => Err(e),
    }
}

/// A new NFT starts `Pending`.
pub open spec fn mint_nft_step(st: MarketState, p: NftPayload, now: u64) -> (MarketState, Result<
    NftView,
    Error,
>) {
    match nft_payload_error(st, p) {
        Some(e) => (st, Err(e)),
        None => if st.last_id == u64::MAX {
            (st, Err(Error::IdsExhausted))
        } else {
            let id = (st.last_id + 1) as u64;
            let n = NftView {
                id,
                artwork_id: p.artwork_id,
                owner_ids: p.owner_ids@,
                price: p.price,
                status: NftStatus::Pending,
                created_at: now,
            };
            (MarketState { last_id: id, nfts: st.nfts.push((id, n)), ..st }, Ok(n))
        },
    }
}

/// The first check that a purchase fails, in the order they run.
pub open spec fn buy_error(st: MarketState, p: BuyPayload) -> Option<Error> {
    if p.nft_id == 0 || p.buyer_id == 0 || p.seller_id == 0 || p.price == 0 {
        Some(Error::EmptyFields)
    } else if p.buyer_id == p.seller_id {
        Some(Error::InvalidInput)
    } else if !has_key(st.nfts, p.nft_id) {
        Some(Error::NotFound)
    } else if !has_key(st.artists, p.buyer_id) {
        Some(Error::NotFound)
    } else if !has_key(st.artists, p.seller_id) {
        Some(Error::NotFound)
    } else if lookup(st.nfts, p.nft_id).unwrap().price != p.price {
        Some(Error::InvalidInput)
    } else if lookup(st.nfts, p.nft_id).unwrap().status != NftStatus::Pending {
        Some(Error::InvalidInput)
    } else {
        None
    }
}

/// The NFT after a sale to `buyer_id`: the buyer joins the owners and the
/// sale is `Completed`, in one write.
pub open spec fn sold_to(n: NftView, buyer_id: u64) -> NftView {
    NftView { owner_ids: n.owner_ids.push(buyer_id), status: NftStatus::Completed, ..n }
}

/// A purchase appends a transaction and updates the NFT, or changes
/// nothing.
pub open spec fn buy_step(st: MarketState, p: BuyPayload, now: u64) -> (MarketState, Result<
    Transaction,
    Error,
>) {
    match buy_error(st, p) {
        Some(e) => (st, Err(e)),
        None => if st.last_id == u64::MAX {
            (st, Err(Error::IdsExhausted))
        } else {
            let id = (st.last_id + 1) as u64;
            let t = Transaction {
                id,
                nft_id: p.nft_id,
                buyer_id: p.buyer_id,
                seller_id: p.seller_id,
                price: p.price,
                created_at: now,
            };
            let n = sold_to(lookup(st.nfts, p.nft_id).unwrap(), p.buyer_id);
            (
                MarketState {
                    last_id: id,
                    nfts: set_value(st.nfts, p.nft_id, n),
                    transactions: st.transactions.push((id, t)),
                    ..st
                },
                Ok(t),
            )
        },
    }
}

proof fn lemma_owners_grow(a: Seq<(u64, Artist)>, b: Seq<(u64, Artist)>, owners: Seq<u64>)
    requires
        forall|k: u64| has_key(a, k) ==> #[trigger] has_key(b, k),
        owners_known(a, owners),
    ensures
        owners_known(b, owners),
{
    assert forall|j: int| 0 <= j < owners.len() implies has_key(b, #[trigger] owners[j]) by {
        assert(has_key(a, owners[j]));
    }
}

/// The NFT marketplace: artists, their artworks, NFTs minted from artworks
/// and the transactions that sold them, under one identifier allocator.
pub struct Marketplace {
    ids: IdAllocator,
    artists: Table<Artist>,
    artworks: Table<Artwork>,
    nfts: Table<Nft>,
    transactions: Table<Transaction>,
}

impl View for Marketplace {
    type V = MarketState;

    closed spec fn view(&self) -> MarketState {
        MarketState {
            last_id: self.ids.last(),
            artists: self.artists@,
            artworks: self.artworks@,
            nfts: self.nfts@,
            transactions: self.transactions@,
        }
    }
}

impl Marketplace {
    pub open spec fn wf(&self) -> bool {
        market_state_wf(self@)
    }

    /// An empty marketplace; the first identifier it hands out is `1`.
    pub fn new() -> (r: Marketplace)
        ensures
            r.wf(),
            r@.last_id == 0,
            r@.artists.len() == 0,
            r@.artworks.len() == 0,
            r@.nfts.len() == 0,
            r@.transactions.len() == 0,
    {
        Marketplace {
            ids: IdAllocator::new(),
            artists: Table::new(),
            artworks: Table::new(),
            nfts: Table::new(),
            transactions: Table::new(),
        }
    }
    /// A marketplace holding the given records, each under its own id, that
    /// goes on handing out identifiers after `last_id`; `None` when they
    /// break the invariant (ids out of order or above `last_id`, a reference
    /// to an absent record, or an NFT without a price).
    pub fn restore(
        last_id: u64,
        artists: Vec<Artist>,
        artworks: Vec<Artwork>,
        nfts: Vec<Nft>,
        transactions: Vec<Transaction>,
    ) -> (r: Option<Marketplace>)
        ensures
            match r {
                Some(m) => m.wf() && m@ == restored_market_state(
                    last_id,
                    views(artists@),
                    views(artworks@),
                    views(nfts@),
                    views(transactions@),
                ),
                None => !market_state_wf(
                    restored_market_state(
                        last_id,
                        views(artists@),
                        views(artworks@),
                        views(nfts@),
                        views(transactions@),
                    ),
                ),
            },
    {
        let ghost st = restored_market_state(
            last_id,
            views(artists@),
            views(artworks@),
            views(nfts@),
            views(transactions@),
        );
        let artist_table = match Table::from_records(&artists, last_id) {
            Some(t) => t,
            None => {
                return None;
            },
        };
        let artwork_table = match Table::from_records(&artworks, last_id) {
            Some(t) => t,
            None => {
                return None;
            },
        };
        let nft_table = match Table::from_records(&nfts, last_id) {
            Some(t) => t,
            None => {
                return None;
            },
        };
        let transaction_table = match Table::from_records(&transactions, last_id) {
            Some(t) => t,
            None => {
                return None;
            },
        };
        let mut i: usize = 0;
        while i < artwork_table.len()
            invariant
                st == restored_market_state(
                    last_id,
                    views(artists@),
                    views(artworks@),
                    views(nfts@),
                    views(transactions@),
                ),
                artwork_table@ == st.artworks,
                artist_table@ == st.artists,
                i <= st.artworks.len(),
                forall|j: int|
                    0 <= j < i ==> has_key(st.artists, #[trigger] st.artworks[j].1.artist_id),
            decreases st.artworks.len() - i,
        {
            if !artist_table.contains(artwork_table.value_at(i).artist_id) {
                assert(!has_key(st.artists, st.artworks[i as int].1.artist_id));
                assert(!market_refs_ok(st));
                return None;
            }
            i = i + 1;
        }
        let mut i: usize = 0;
        while i < nft_table.len()
            invariant
                st == restored_market_state(
                    last_id,
                    views(artists@),
                    views(artworks@),
                    views(nfts@),
                    views(transactions@),
                ),
                nft_table@ == st.nfts,
                artwork_table@ == st.artworks,
                artist_table@ == st.artists,
                i <= st.nfts.len(),
                forall|j: int|
                    0 <= j < i ==> has_key(st.artworks, #[trigger] st.nfts[j].1.artwork_id)
                        && owners_known(st.artists, st.nfts[j].1.owner_ids) && st.nfts[j].1.price
                        != 0,
            decreases st.nfts.len() - i,
        {
            let n = nft_table.value_at(i);
            if !artwork_table.contains(n.artwork_id) || !owners_exist(&artist_table, &n.owner_ids)
                || n.price == 0 {
                assert(!has_key(st.artworks, st.nfts[i as int].1.artwork_id) || !owners_known(
                    st.artists,
                    st.nfts[i as int].1.owner_ids,
                ) || st.nfts[i as int].1.price == 0);
                proof {
                    if market_refs_ok(st) {
                        assert(has_key(st.artworks, st.nfts[i as int].1.artwork_id));
                    }
                }
                return None;
            }
            i = i + 1;
        }
        let mut i: usize = 0;
        while i < transaction_table.len()
            invariant
                st == restored_market_state(
                    last_id,
                    views(artists@),
                    views(artworks@),
                    views(nfts@),
                    views(transactions@),
                ),
                transaction_table@ == st.transactions,
                nft_table@ == st.nfts,
                artist_table@ == st.artists,
                i <= st.transactions.len(),
                forall|j: int|
                    0 <= j < i ==> has_key(st.nfts, #[trigger] st.transactions[j].1.nft_id)
                        && has_key(st.artists, st.transactions[j].1.buyer_id) && has_key(
                        st.artists,
                        st.transactions[j].1.seller_id,
                    ),
            decreases st.transactions.len() - i,
        {
            let t = transaction_table.value_at(i);
            let sold = nft_table.contains(t.nft_id);
            let bought = artist_table.contains(t.buyer_id);
            let sells = artist_table.contains(t.seller_id);
            if !sold || !bought || !sells {
                assert(!has_key(st.nfts, st.transactions[i as int].1.nft_id) || !has_key(
                    st.artists,
                    st.transactions[i as int].1.buyer_id,
                ) || !has_key(st.artists, st.transactions[i as int].1.seller_id));
                assert(!market_refs_ok(st));
                return None;
            }
            assert forall|j: int| 0 <= j < i + 1 implies has_key(
                st.nfts,
                #[trigger] st.transactions[j].1.nft_id,
            ) && has_key(st.artists, st.transactions[j].1.buyer_id) && has_key(
                st.artists,
                st.transactions[j].1.seller_id,
            ) by {
                if j == i {
                    assert(st.transactions[j].1 == *t);
                }
            }
            i = i + 1;
        }
        Some(
            Marketplace {
                ids: IdAllocator::resume(last_id),
                artists: artist_table,
                artworks: artwork_table,
                nfts: nft_table,
                transactions: transaction_table,
            },
        )
    }

    /// The last identifier handed out and every record, each collection in
    /// id order: what [`Marketplace::restore`] takes back.
    pub fn export(&self) -> (r: (u64, Vec<Artist>, Vec<Artwork>, Vec<Nft>, Vec<Transaction>))
        ensures
            r.0 == self@.last_id,
            views(r.1@) == values(self@.artists),
            views(r.2@) == values(self@.artworks),
            views(r.3@) == values(self@.nfts),
            views(r.4@) == values(self@.transactions),
    {
        (
            self.ids.last_issued(),
            self.artists.all(),
            self.artworks.all(),
            self.nfts.all(),
            self.transactions.all(),
        )
    }

    fn email_in_use(&self, email: &String) -> (r: bool)
        ensures
            r == artist_email_taken(self@.artists, email@),
    {
        let mut i: usize = 0;
        while i < self.artists.len()
            invariant
                i <= self@.artists.len(),
                forall|j: int| 0 <= j < i ==> self@.artists[j].1.email@ != email@,
            decreases self@.artists.len() - i,
        {
            if self.artists.value_at(i).email == *email {
                assert(self@.artists[i as int].1.email@ == email@);
                return true;
            }
            i = i + 1;
        }
        false
    }


    /// Registers an artist; the email address must be well-formed and not
    /// yet taken.
    pub fn create_artist_profile(&mut self, payload: ArtistPayload, now: u64) -> (r: Result<
        Artist,
        Error,
    >)
        requires
            old(self).wf(),
        ensures
            final(self).wf(),
            (final(self)@, r) == create_artist_step(old(self)@, payload, now),
    {
        if payload.name.as_str().is_empty() || payload.wallet_address.as_str().is_empty()
            || payload.email.as_str().is_empty() {
            return Err(Error::EmptyFields);
        }
        if !is_email(payload.email.as_str()) {
            return Err(Error::InvalidEmail);
        }
        if self.email_in_use(&payload.email) {
            return Err(Error::AlreadyExists);
        }
        let id = match self.ids.next_id() {
            Some(id) => id,
            None => {
                return Err(Error::IdsExhausted);
            },
        };
        let artist = Artist {
            id,
            name: payload.name,
            wallet_address: payload.wallet_address,
            email: payload.email,
            created_at: now,
        };
        proof {
            let st = old(self)@;
            lemma_push_fresh(st.artists, st.last_id, id, artist);
        }
        self.artists.insert_new(id, artist.duplicate());
        proof {
            let st = old(self)@;
            let ns = self@;
            assert forall|k: u64| has_key(st.artists, k) implies #[trigger] has_key(ns.artists, k) by {}
            assert forall|i: int| 0 <= i < ns.artworks.len() implies has_key(
                ns.artists,
                #[trigger] ns.artworks[i].1.artist_id,
            ) by {
                assert(has_key(st.artists, st.artworks[i].1.artist_id));
            }
            assert forall|i: int| 0 <= i < ns.nfts.len() implies has_key(
                ns.artworks,
                #[trigger] ns.nfts[i].1.artwork_id,
            ) && owners_known(ns.artists, ns.nfts[i].1.owner_ids) by {
                assert(has_key(st.artworks, st.nfts[i].1.artwork_id));
                lemma_owners_grow(st.artists, ns.artists, st.nfts[i].1.owner_ids);
            }
            assert forall|i: int| 0 <= i < ns.transactions.len() implies has_key(
                ns.nfts,
                #[trigger] ns.transactions[i].1.nft_id,
            ) && has_key(ns.artists, ns.transactions[i].1.buyer_id) && has_key(
                ns.artists,
                ns.transactions[i].1.seller_id,
            ) by {
                assert(has_key(st.nfts, st.transactions[i].1.nft_id));
            }
            assert(ns == create_artist_step(st, payload, now).0);
        }
        Ok(artist)
    }

    /// Adds an artwork by a stored artist.
    pub fn mint_artwork(&mut self, payload: ArtworkPayload, now: u64) -> (r: Result<Artwork, Error>)
        requires
            old(self).wf(),
        ensures
            final(self).wf(),
            (final(self)@, r) == mint_artwork_step(old(self)@, payload, now),
    {
        if payload.artist_id == 0 || payload.title.as_str().is_empty() {
            return Err(Error::EmptyFields);
        }
        if !self.artists.contains(payload.artist_id) {
            return Err(Error::NotFound);
        }
        let id = match self.ids.next_id() {
            Some(id) => id,
            None => {
                return Err(Error::IdsExhausted);
            },
        };
        let artwork = Artwork {
            id,
            artist_id: payload.artist_id,
            title: payload.title,
            description: payload.description,
            created_at: now,
        };
        proof {
            let st = old(self)@;
            lemma_push_fresh(st.artworks, st.last_id, id, artwork);
        }
        self.artworks.insert_new(id, artwork.duplicate());
        proof {
            let st = old(self)@;
            let ns = self@;
            assert forall|i: int| 0 <= i < ns.artworks.len() implies has_key(
                ns.artists,
                #[trigger] ns.artworks[i].1.artist_id,
            ) by {
                if i < st.artworks.len() {
                    assert(ns.artworks[i] == st.artworks[i]);
                }
            }
            assert forall|i: int| 0 <= i < ns.nfts.len() implies has_key(
                ns.artworks,
                #[trigger] ns.nfts[i].1.artwork_id,
            ) && owners_known(ns.artists, ns.nfts[i].1.owner_ids) by {
                assert(has_key(st.artworks, st.nfts[i].1.artwork_id));
            }
            assert(ns == mint_artwork_step(st, payload, now).0);
        }
        Ok(artwork)
    }

    /// Mints a `Pending` NFT of a stored artwork, owned by stored artists.
    pub fn mint_nft(&mut self, payload: NftPayload, now: u64) -> (r: Result<Nft, Error>)
        requires
            old(self).wf(),
        ensures
            final(self).wf(),
            (final(self)@, nft_result(r)) == mint_nft_step(old(self)@, payload, now),
    {
        if payload.artwork_id == 0 || payload.owner_ids.len() == 0 || payload.price == 0 {
            return Err(Error::EmptyFields);
        }
        if !self.artworks.contains(payload.artwork_id) {
            return Err(Error::NotFound);
        }
        if !owners_exist(&self.artists, &payload.owner_ids) {
            return Err(Error::NotFound);
        }
        let id = match self.ids.next_id() {
            Some(id) => id,
            None => {
                return Err(Error::IdsExhausted);
            },
        };
        let nft = Nft {
            id,
            artwork_id: payload.artwork_id,
            owner_ids: payload.owner_ids,
            price: payload.price,
            status: NftStatus::Pending,
            created_at: now,
        };
        proof {
            let st = old(self)@;
            lemma_push_fresh(st.nfts, st.last_id, id, nft@);
        }
        self.nfts.insert_new(id, nft.duplicate());
        proof {
            let st = old(self)@;
            let ns = self@;
            assert forall|i: int| 0 <= i < ns.nfts.len() implies has_key(
                ns.artworks,
                #[trigger] ns.nfts[i].1.artwork_id,
            ) && owners_known(ns.artists, ns.nfts[i].1.owner_ids) by {
                if i < st.nfts.len() {
                    assert(ns.nfts[i] == st.nfts[i]);
                }
            }
            assert forall|i: int| 0 <= i < ns.transactions.len() implies has_key(
                ns.nfts,
                #[trigger] ns.transactions[i].1.nft_id,
            ) && has_key(ns.artists, ns.transactions[i].1.buyer_id) && has_key(
                ns.artists,
                ns.transactions[i].1.seller_id,
            ) by {
                assert(has_key(st.nfts, st.transactions[i].1.nft_id));
            }
            assert(ns == mint_nft_step(st, payload, now).0);
        }
        Ok(nft)
    }

    /// Sells a `Pending` NFT at its price from `seller_id` to another
    /// artist: appends the transaction, adds the buyer to the owners and
    /// marks the sale `Completed` in one write of the NFT. On any refusal
    /// nothing changes.
    pub fn buy_nft(&mut self, payload: BuyPayload, now: u64) -> (r: Result<Transaction, Error>)
        requires
            old(self).wf(),
        ensures
            final(self).wf(),
            (final(self)@, r) == buy_step(old(self)@, payload, now),
    {
        if payload.nft_id == 0 || payload.buyer_id == 0 || payload.seller_id == 0
            || payload.price == 0 {
            return Err(Error::EmptyFields);
        }
        if payload.buyer_id == payload.seller_id {
            return Err(Error::InvalidInput);
        }
        let nft = match self.nfts.get(payload.nft_id) {
            Some(n) => n,
            None => {
                return Err(Error::NotFound);
            },
        };
        if !self.artists.contains(payload.buyer_id) {
            return Err(Error::NotFound);
        }
        if !self.artists.contains(payload.seller_id) {
            return Err(Error::NotFound);
        }
        if nft.price != payload.price {
            return Err(Error::InvalidInput);
        }
        if nft.status != NftStatus::Pending {
            return Err(Error::InvalidInput);
        }
        let id = match self.ids.next_id() {
            Some(id) => id,
            None => {
                return Err(Error::IdsExhausted);
            },
        };
        let transaction = Transaction {
            id,
            nft_id: payload.nft_id,
            buyer_id: payload.buyer_id,
            seller_id: payload.seller_id,
            price: payload.price,
            created_at: now,
        };
        let ghost before = nft@;
        let mut sold = nft;
        sold.owner_ids.push(payload.buyer_id);
        sold.status = NftStatus::Completed;
        proof {
            let st = old(self)@;
            assert(sold@ == sold_to(before, payload.buyer_id));
            lemma_set_value(st.nfts, payload.nft_id, sold@);
            lemma_stored_id::<Nft>(st.nfts, st.last_id, payload.nft_id);
            lemma_push_fresh(st.transactions, st.last_id, id, transaction);
        }
        self.nfts.replace(payload.nft_id, sold);
        self.transactions.insert_new(id, transaction);
        proof {
            let st = old(self)@;
            let ns = self@;
            let t = ns.nfts;
            assert(keys_at_most(t, st.last_id));
            assert forall|i: int| 0 <= i < t.len() implies Nft::key_of(#[trigger] t[i].1) == t[i].0
                && has_key(ns.artworks, t[i].1.artwork_id) && owners_known(
                ns.artists,
                t[i].1.owner_ids,
            ) by {
                assert(Nft::key_of(st.nfts[i].1) == st.nfts[i].0);
                assert(has_key(st.artworks, st.nfts[i].1.artwork_id));
                if st.nfts[i].0 == payload.nft_id {
                    let o = t[i].1.owner_ids;
                    assert forall|j: int| 0 <= j < o.len() implies has_key(
                        ns.artists,
                        #[trigger] o[j],
                    ) by {
                        if j < before.owner_ids.len() {
                            assert(has_key(st.artists, before.owner_ids[j]));
                        }
                    }
                }
            }
            assert forall|i: int| 0 <= i < ns.transactions.len() implies has_key(
                ns.nfts,
                #[trigger] ns.transactions[i].1.nft_id,
            ) && has_key(ns.artists, ns.transactions[i].1.buyer_id) && has_key(
                ns.artists,
                ns.transactions[i].1.seller_id,
            ) by {
                if i < st.transactions.len() {
                    assert(ns.transactions[i] == st.transactions[i]);
                    assert(has_key(st.nfts, st.transactions[i].1.nft_id));
                }
            }
            assert(ns == buy_step(st, payload, now).0);
        }
        Ok(transaction)
    }

    /// The artist stored under `id`, or `NotFound`.
    pub fn get_artist(&self, id: u64) -> (r: Result<Artist, Error>)
        requires
            self.wf(),
        ensures
            found(r, lookup(self@.artists, id)),
    {
        match self.artists.get(id) {
            Some(a) => Ok(a),
            None => Err(Error::NotFound),
        }
    }

    /// The artwork stored under `id`, or `NotFound`.
    pub fn get_artwork(&self, id: u64) -> (r: Result<Artwork, Error>)
        requires
            self.wf(),
        ensures
            found(r, lookup(self@.artworks, id)),
    {
        match self.artworks.get(id) {
            Some(a) => Ok(a),
            None => Err(Error::NotFound),
        }
    }

    /// The NFT stored under `id`, or `NotFound`.
    pub fn get_nft(&self, id: u64) -> (r: Result<Nft, Error>)
        requires
            self.wf(),
        ensures
            found(r, lookup(self@.nfts, id)),
    {
        match self.nfts.get(id) {
            Some(n) => Ok(n),
            None => Err(Error::NotFound),
        }
    }

    /// The transaction stored under `id`, or `NotFound`.
    pub fn get_transaction(&self, id: u64) -> (r: Result<Transaction, Error>)
        requires
            self.wf(),
        ensures
            found(r, lookup(self@.transactions, id)),
    {
        match self.transactions.get(id) {
            Some(t) => Ok(t),
            None => Err(Error::NotFound),
        }
    }

    /// All artists in id order, or `NotFound` when there are none.
    pub fn get_all_artists(&self) -> (r: Result<Vec<Artist>, Error>)
        ensures
            listed(r, values(self@.artists)),
    {
        let v = self.artists.all();
        if v.len() == 0 {
            Err(Error::NotFound)
        } else {
            Ok(v)
        }
    }

    /// All artworks in id order, or `NotFound` when there are none.
    pub fn get_all_artworks(&self) -> (r: Result<Vec<Artwork>, Error>)
        ensures
            listed(r, values(self@.artworks)),
    {
        let v = self.artworks.all();
        if v.len() == 0 {
            Err(Error::NotFound)
        } else {
            Ok(v)
        }
    }

    /// All NFTs in id order, or `NotFound` when there are none.
    pub fn get_all_nfts(&self) -> (r: Result<Vec<Nft>, Error>)
        ensures
            listed(r, values(self@.nfts)),
    {
        let v = self.nfts.all();
        if v.len() == 0 {
            Err(Error::NotFound)
        } else {
            Ok(v)
        }
    }

    /// All transactions in id order, or `NotFound` when there are none.
    pub fn get_all_transactions(&self) -> (r: Result<Vec<Transaction>, Error>)
        ensures
            listed(r, values(self@.transactions)),
    {
        let v = self.transactions.all();
        if v.len() == 0 {
            Err(Error::NotFound)
        } else {
            Ok(v)
        }
    }
}

} // verus!
