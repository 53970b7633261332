use crate::error::Error;
use crate::format::{email_shaped, is_email, is_phone_number, phone_shaped};
use crate::ids::IdAllocator;
use crate::table::{
    collection_wf, found, has_key, keyed, keys_at_most, lemma_push_fresh, lemma_set_value,
    lemma_stored_id, listed, lookup, select, set_value, values, views, Record, Table,
};
use vstd::prelude::*;

verus! {

/// Where a swap request stands; every request starts `Pending`.
#[derive(Clone, Copy, Debug, PartialEq, Eq, Structural)]
pub enum SwapStatus {
    Pending,
    Accepted,
    Rejected,
}

/// A registered user. Registration and update refuse an email address that
/// a stored user already has.
#[derive(Clone, Debug, PartialEq, Eq)]
pub struct User {
    pub id: u64,
    pub name: String,
    pub phone_number: String,
    pub email: String,
    pub created_at: u64,
}

/// A book offered by a stored user.
#[derive(Clone, Debug, PartialEq, Eq)]
pub struct Book {
    pub id: u64,
    pub user_id: u64,
    pub title: String,
    pub author: String,
    pub description: String,
    pub created_at: u64,
}

/// A user's request for a stored book.
#[derive(Clone, Debug, PartialEq, Eq)]
pub struct SwapRequest {
    pub id: u64,
    pub book_id: u64,
    pub requested_by_id: u64,
    pub status: SwapStatus,
    pub created_at: u64,
}

/// A user's rating of a swap request; never changed once written.
#[derive(Clone, Debug, PartialEq, Eq)]
pub struct Feedback {
    pub id: u64,
    pub user_id: u64,
    pub swap_request_id: u64,
    pub rating: u8,
    pub comment: String,
    pub created_at: u64,
}

/// The fields of a user that a caller supplies.
#[derive(Clone, Debug)]
pub struct UserPayload {
    pub name: String,
    pub phone_number: String,
    pub email: String,
}

/// The fields of a book that a caller supplies.
#[derive(Clone, Debug)]
pub struct BookPayload {
    pub user_id: u64,
    pub title: String,
    pub author: String,
    pub description: String,
}

/// The fields of a swap request that a caller supplies.
#[derive(Clone, Copy, Debug)]
pub struct SwapRequestPayload {
    pub book_id: u64,
    pub requested_by_id: u64,
}

/// The fields of a feedback that a caller supplies.
#[derive(Clone, Debug)]
pub struct FeedbackPayload {
    pub user_id: u64,
    pub swap_request_id: u64,
    pub rating: u8,
    pub comment: String,
}

impl View for User {
    type V = User;

    open spec fn view(&self) -> User {
        *self
    }
}

impl Record for User {
    open spec fn key_of(v: User) -> u64 {
        v.id
    }

    fn key(&self) -> (r: u64) {
        self.id
    }

    fn duplicate(&self) -> (r: User) {
        User {
            id: self.id,
            name: self.name.clone(),
            phone_number: self.phone_number.clone(),
            email: self.email.clone(),
            created_at: self.created_at,
        }
    }
}

impl View for Book {
    type V = Book;

    open spec fn view(&self) -> Book {
        *self
    }
}

impl Record for Book {
    open spec fn key_of(v: Book) -> u64 {
        v.id
    }

    fn key(&self) -> (r: u64) {
        self.id
    }

    fn duplicate(&self) -> (r: Book) {
        Book {
            id: self.id,
            user_id: self.user_id,
            title: self.title.clone(),
            author: self.author.clone(),
            description: self.description.clone(),
            created_at: self.created_at,
        }
    }
}

impl View for SwapRequest {
    type V = SwapRequest;

    open spec fn view(&self) -> SwapRequest {
        *self
    }
}

impl Record for SwapRequest {
    open spec fn key_of(v: SwapRequest) -> u64 {
        v.id
    }

    fn key(&self) -> (r: u64) {
        self.id
    }

    fn duplicate(&self) -> (r: SwapRequest) {
        SwapRequest {
            id: self.id,
            book_id: self.book_id,
            requested_by_id: self.requested_by_id,
            status: self.status,
            created_at: self.created_at,
        }
    }
}

impl View for Feedback {
    type V = Feedback;

    open spec fn view(&self) -> Feedback {
        *self
    }
}

impl Record for Feedback {
    open spec fn key_of(v: Feedback) -> u64 {
        v.id
    }

    fn key(&self) -> (r: u64) {
        self.id
    }

    fn duplicate(&self) -> (r: Feedback) {
        Feedback {
            id: self.id,
            user_id: self.user_id,
            swap_request_id: self.swap_request_id,
            rating: self.rating,
            comment: self.comment.clone(),
            created_at: self.created_at,
        }
    }
}

/// What a [`SwapStore`] holds: the last identifier handed out and the four
/// collections, each as `(id, record)` pairs in key order.
pub struct SwapState {
    pub last_id: u64,
    pub users: Seq<(u64, User)>,
    pub books: Seq<(u64, Book)>,
    pub swap_requests: Seq<(u64, SwapRequest)>,
    pub feedbacks: Seq<(u64, Feedback)>,
}

/// Every reference names a stored record.
pub open spec fn swap_refs_ok(st: SwapState) -> bool {
    &&& forall|i: int|
        0 <= i < st.books.len() ==> has_key(st.users, #[trigger] st.books[i].1.user_id)
    &&& forall|i: int|
        0 <= i < st.swap_requests.len() ==> has_key(st.books, #[trigger] st.swap_requests[i].1.book_id)
            && has_key(st.users, st.swap_requests[i].1.requested_by_id)
    &&& forall|i: int|
        0 <= i < st.feedbacks.len() ==> has_key(st.users, #[trigger] st.feedbacks[i].1.user_id)
            && has_key(st.swap_requests, st.feedbacks[i].1.swap_request_id)
}

/// The store's invariant: well-formed collections, and every reference
/// names a stored record.
pub open spec fn swap_state_wf(st: SwapState) -> bool {
    &&& collection_wf::<User>(st.users, st.last_id)
    &&& collection_wf::<Book>(st.books, st.last_id)
    &&& collection_wf::<SwapRequest>(st.swap_requests, st.last_id)
    &&& collection_wf::<Feedback>(st.feedbacks, st.last_id)
    &&& swap_refs_ok(st)
}

/// The state made of records listed in id order, each under its own id.
pub open spec fn restored_swap_state(
    last_id: u64,
    users: Seq<User>,
    books: Seq<Book>,
    swap_requests: Seq<SwapRequest>,
    feedbacks: Seq<Feedback>,
) -> SwapState {
    SwapState {
        last_id,
        users: keyed::<User>(users),
        books: keyed::<Book>(books),
        swap_requests: keyed::<SwapRequest>(swap_requests),
        feedbacks: keyed::<Feedback>(feedbacks),
    }
}

pub open spec fn email_taken(users: Seq<(u64, User)>, email: Seq<char>) -> bool {
    exists|i: int| 0 <= i < users.len() && #[trigger] users[i].1.email@ == email
}

/// The first check that a profile payload fails, in the order they run.
pub open spec fn user_payload_error(st: SwapState, p: UserPayload) -> Option<Error> {
    if p.name@.len() == 0 || p.phone_number@.len() == 0 || p.email@.len() == 0 {
        Some(Error::EmptyFields)
    } else if !email_shaped(p.email@) {
        Some(Error::InvalidEmail)
    } else if email_taken(st.users, p.email@) {
        Some(Error::AlreadyExists)
    } else if !phone_shaped(p.phone_number@) {
        Some(Error::InvalidPhoneNumber)
    } else {
        None
    }
}

pub open spec fn create_user_step(st: SwapState, p: UserPayload, now: u64) -> (SwapState, Result<
    User,
    Error,
>) {
    match user_payload_error(st, p) {
        Some(e) => (st, Err(e)),
        None => if st.last_id == u64::MAX {
            (st, Err(Error::IdsExhausted))
        } else {
            let id = (st.last_id + 1) as u64;
            let u = User {
                id,
                name: p.name,
                phone_number: p.phone_number,
                email: p.email,
                created_at: now,
            };
            (SwapState { last_id: id, users: st.users.push((id, u)), ..st }, Ok(u))
        },
    }
}

pub open spec fn update_user_step(st: SwapState, user_id: u64, p: UserPayload) -> (SwapState, Result<
    User,
    Error,
>) {
    match lookup(st.users, user_id) {
        None => (st, Err(Error::NotFound)),
        Some(prev) => match user_payload_error(st, p) {
            Some(e) => (st, Err(e)),
            None => {
                let u = User {
                    id: prev.id,
                    name: p.name,
                    phone_number: p.phone_number,
                    email: p.email,
                    created_at: prev.created_at,
                };
                (SwapState { users: set_value(st.users, user_id, u), ..st }, Ok(u))
            },
        },
    }
}

pub open spec fn book_payload_error(st: SwapState, p: BookPayload) -> Option<Error> {
    if p.user_id == 0 || p.title@.len() == 0 || p.author@.len() == 0 {
        Some(Error::EmptyFields)
    } else if !has_key(st.users, p.user_id) {
        Some(Error::NotFound)
    } else {
        None
    }
}

pub open spec fn create_book_step(st: SwapState, p: BookPayload, now: u64) -> (SwapState, Result<
    Book,
    Error,
>) {
    match book_payload_error(st, p) {
        Some(e) => (st, Err(e)),
        None => if st.last_id == u64::MAX {
            (st, Err(Error::IdsExhausted))
        } else {
            let id = (st.last_id + 1) as u64;
            let b = Book {
                id,
                user_id: p.user_id,
                title: p.title,
                author: p.author,
                description: p.description,
                created_at: now,
            };
            (SwapState { last_id: id, books: st.books.push((id, b)), ..st }, Ok(b))
        },
    }
}

pub open spec fn swap_request_payload_error(st: SwapState, p: SwapRequestPayload) -> Option<Error> {
    if p.book_id == 0 || p.requested_by_id == 0 {
        Some(Error::EmptyFields)
    } else if !has_key(st.books, p.book_id) {
        Some(Error::NotFound)
    } else if !has_key(st.users, p.requested_by_id) {
        Some(Error::NotFound)
    } else {
        None
    }
}

/// A new swap request starts `Pending`.
pub open spec fn create_swap_request_step(st: SwapState, p: SwapRequestPayload, now: u64) -> (
    SwapState,
    Result<SwapRequest, Error>,
) {
    match swap_request_payload_error(st, p) {
        Some(e) => (st, Err(e)),
        None => if st.last_id == u64::MAX {
            (st, Err(Error::IdsExhausted))
        } else {
            let id = (st.last_id + 1) as u64;
            let q = SwapRequest {
                id,
                book_id: p.book_id,
                requested_by_id: p.requested_by_id,
                status: SwapStatus::Pending,
                created_at: now,
            };
            (SwapState { last_id: id, swap_requests: st.swap_requests.push((id, q)), ..st }, Ok(q))
        },
    }
}

pub open spec fn feedback_payload_error(st: SwapState, p: FeedbackPayload) -> Option<Error> {
    if p.user_id == 0 || p.swap_request_id == 0 || p.rating == 0 {
        Some(Error::EmptyFields)
    } else if !has_key(st.users, p.user_id) {
        Some(Error::NotFound)
    } else if !has_key(st.swap_requests, p.swap_request_id) {
        Some(Error::NotFound)
    } else {
        None
    }
}

pub open spec fn create_feedback_step(st: SwapState, p: FeedbackPayload, now: u64) -> (
    SwapState,
    Result<Feedback, Error>,
) {
    match feedback_payload_error(st, p) {
        Some(e) => (st, Err(e)),
        None => if st.last_id == u64::MAX {
            (st, Err(Error::IdsExhausted))
        } else {
            let id = (st.last_id + 1) as u64;
            let f = Feedback {
                id,
                user_id: p.user_id,
                swap_request_id: p.swap_request_id,
                rating: p.rating,
                comment: p.comment,
                created_at: now,
            };
            (SwapState { last_id: id, feedbacks: st.feedbacks.push((id, f)), ..st }, Ok(f))
        },
    }
}

pub open spec fn book_owned_by(user_id: u64) -> spec_fn(Book) -> bool {
    |b: Book| b.user_id == user_id
}

pub open spec fn book_titled(title: Seq<char>) -> spec_fn(Book) -> bool {
    |b: Book| b.title@ == title
}

/// A book whose owner is stored and has the given name.
pub open spec fn book_owner_named(users: Seq<(u64, User)>, name: Seq<char>) -> spec_fn(Book) -> bool {
    |b: Book|
        match lookup(users, b.user_id) {
            Some(u) => u.name@ == name,
            None => false,
        }
}

pub open spec fn requested_by(user_id: u64) -> spec_fn(SwapRequest) -> bool {
    |q: SwapRequest| q.requested_by_id == user_id
}

pub open spec fn feedback_by(user_id: u64) -> spec_fn(Feedback) -> bool {
    |f: Feedback| f.user_id == user_id
}

/// The book-swap service: users, their books, swap requests on books and
/// feedback on swap requests, under one identifier allocator.
pub struct SwapStore {
    ids: IdAllocator,
    users: Table<User>,
    books: Table<Book>,
    swap_requests: Table<SwapRequest>,
    feedbacks: Table<Feedback>,
}

impl View for SwapStore {
    type V = SwapState;

    closed spec fn view(&self) -> SwapState {
        SwapState {
            last_id: self.ids.last(),
            users: self.users@,
            books: self.books@,
            swap_requests: self.swap_requests@,
            feedbacks: self.feedbacks@,
        }
    }
}

impl SwapStore {
    pub open spec fn wf(&self) -> bool {
        swap_state_wf(self@)
    }

    /// An empty store; the first identifier it hands out is `1`.
    pub fn new() -> (r: SwapStore)
        ensures
            r.wf(),
            r@.last_id == 0,
            r@.users.len() == 0,
            r@.books.len() == 0,
            r@.swap_requests.len() == 0,
            r@.feedbacks.len() == 0,
    {
        SwapStore {
            ids: IdAllocator::new(),
            users: Table::new(),
            books: Table::new(),
            swap_requests: Table::new(),
            feedbacks: Table::new(),
        }
    }

    /// A store holding the given records, each under its own id, that goes
    /// on handing out identifiers after `last_id`; `None` when they break
    /// the store's invariant (ids out of order or above `last_id`, or a
    /// reference to an absent record).
    pub fn restore(
        last_id: u64,
        users: Vec<User>,
        books: Vec<Book>,
        swap_requests: Vec<SwapRequest>,
        feedbacks: Vec<Feedback>,
    ) -> (r: Option<SwapStore>)
        ensures
            match r {
                Some(s) => s.wf() && s@ == restored_swap_state(
                    last_id,
                    views(users@),
                    views(books@),
                    views(swap_requests@),
                    views(feedbacks@),
                ),
                None => !swap_state_wf(
                    restored_swap_state(
                        last_id,
                        views(users@),
                        views(books@),
                        views(swap_requests@),
                        views(feedbacks@),
                    ),
                ),
            },
    {
        let ghost st = restored_swap_state(
            last_id,
            views(users@),
            views(books@),
            views(swap_requests@),
            views(feedbacks@),
        );
        let user_table = match Table::from_records(&users, last_id) {
            Some(t) => t,
            None => {
                return None;
            },
        };
        let book_table = match Table::from_records(&books, last_id) {
            Some(t) => t,
            None => {
                return None;
            },
        };
        let request_table = match Table::from_records(&swap_requests, last_id) {
            Some(t) => t,
            None => {
                return None;
            },
        };
        let feedback_table = match Table::from_records(&feedbacks, last_id) {
            Some(t) => t,
            None => {
                return None;
            },
        };
        let mut i: usize = 0;
        while i < book_table.len()
            invariant
                st == restored_swap_state(
                    last_id,
                    views(users@),
                    views(books@),
                    views(swap_requests@),
                    views(feedbacks@),
                ),
                book_table@ == st.books,
                user_table@ == st.users,
                i <= st.books.len(),
                forall|j: int| 0 <= j < i ==> has_key(st.users, #[trigger] st.books[j].1.user_id),
            decreases st.books.len() - i,
        {
            if !user_table.contains(book_table.value_at(i).user_id) {
                assert(!has_key(st.users, st.books[i as int].1.user_id));
                assert(!swap_refs_ok(st));
                return None;
            }
            i = i + 1;
        }
        let mut i: usize = 0;
        while i < request_table.len()
            invariant
                st == restored_swap_state(
                    last_id,
                    views(users@),
                    views(books@),
                    views(swap_requests@),
                    views(feedbacks@),
                ),
                request_table@ == st.swap_requests,
                book_table@ == st.books,
                user_table@ == st.users,
                i <= st.swap_requests.len(),
                forall|j: int|
                    0 <= j < i ==> has_key(st.books, #[trigger] st.swap_requests[j].1.book_id)
                        && has_key(st.users, st.swap_requests[j].1.requested_by_id),
            decreases st.swap_requests.len() - i,
        {
            let q = request_table.value_at(i);
            if !book_table.contains(q.book_id) || !user_table.contains(q.requested_by_id) {
                assert(!has_key(st.books, st.swap_requests[i as int].1.book_id) || !has_key(
                    st.users,
                    st.swap_requests[i as int].1.requested_by_id,
                ));
                assert(!swap_refs_ok(st));
                return None;
            }
            i = i + 1;
        }
        let mut i: usize = 0;
        while i < feedback_table.len()
            invariant
                st == restored_swap_state(
                    last_id,
                    views(users@),
                    views(books@),
                    views(swap_requests@),
                    views(feedbacks@),
                ),
                feedback_table@ == st.feedbacks,
                request_table@ == st.swap_requests,
                user_table@ == st.users,
                i <= st.feedbacks.len(),
                forall|j: int|
                    0 <= j < i ==> has_key(st.users, #[trigger] st.feedbacks[j].1.user_id)
                        && has_key(st.swap_requests, st.feedbacks[j].1.swap_request_id),
            decreases st.feedbacks.len() - i,
        {
            let f = feedback_table.value_at(i);
            if !user_table.contains(f.user_id) || !request_table.contains(f.swap_request_id) {
                assert(!has_key(st.users, st.feedbacks[i as int].1.user_id) || !has_key(
                    st.swap_requests,
                    st.feedbacks[i as int].1.swap_request_id,
                ));
                assert(!swap_refs_ok(st));
                return None;
            }
            i = i + 1;
        }
        Some(
            SwapStore {
                ids: IdAllocator::resume(last_id),
                users: user_table,
                books: book_table,
                swap_requests: request_table,
                feedbacks: feedback_table,
            },
        )
    }

    /// The last identifier handed out and every record, each collection in
    /// id order: what [`SwapStore::restore`] takes back.
    pub fn export(&self) -> (r: (u64, Vec<User>, Vec<Book>, Vec<SwapRequest>, Vec<Feedback>))
        ensures
            r.0 == self@.last_id,
            views(r.1@) == values(self@.users),
            views(r.2@) == values(self@.books),
            views(r.3@) == values(self@.swap_requests),
            views(r.4@) == values(self@.feedbacks),
    {
        (
            self.ids.last_issued(),
            self.users.all(),
            self.books.all(),
            self.swap_requests.all(),
            self.feedbacks.all(),
        )
    }

    fn email_in_use(&self, email: &String) -> (r: bool)
        ensures
            r == email_taken(self@.users, email@),
    {
        let mut i: usize = 0;
        while i < self.users.len()
            invariant
                i <= self@.users.len(),
                forall|j: int| 0 <= j < i ==> self@.users[j].1.email@ != email@,
            decreases self@.users.len() - i,
        {
            if self.users.value_at(i).email == *email {
                assert(self@.users[i as int].1.email@ == email@);
                return true;
            }
            i = i + 1;
        }
        false
    }

    /// Checks a profile payload against the store, in the order of
    /// [`user_payload_error`].
    fn check_user_payload(&self, p: &UserPayload) -> (r: Option<Error>)
        ensures
            r == user_payload_error(self@, *p),
    {
        if p.name.as_str().is_empty() || p.phone_number.as_str().is_empty()
            || p.email.as_str().is_empty() {
            return Some(Error::EmptyFields);
        }
        if !is_email(p.email.as_str()) {
            return Some(Error::InvalidEmail);
        }
        if self.email_in_use(&p.email) {
            return Some(Error::AlreadyExists);
        }
        if !is_phone_number(p.phone_number.as_str()) {
            return Some(Error::InvalidPhoneNumber);
        }
        None
    }

    /// Registers a user; the email address must be well-formed and not yet
    /// taken, the phone number ten digits.
    pub fn create_user_profile(&mut self, payload: UserPayload, now: u64) -> (r: Result<User, Error>)
        requires
            old(self).wf(),
        ensures
            final(self).wf(),
            (final(self)@, r) == create_user_step(old(self)@, payload, now),
    {
        if let Some(e) = self.check_user_payload(&payload) {
            return Err(e);
        }
        let id = match self.ids.next_id() {
            Some(id) => id,
            None => {
                return Err(Error::IdsExhausted);
            },
        };
        let user = User {
            id,
            name: payload.name,
            phone_number: payload.phone_number,
            email: payload.email,
            created_at: now,
        };
        proof {
            let st = old(self)@;
            lemma_push_fresh(st.users, st.last_id, id, user);
        }
        self.users.insert_new(id, user.duplicate());
        proof {
            let st = old(self)@;
            let ns = self@;
            assert forall|i: int| 0 <= i < ns.books.len() implies has_key(
                ns.users,
                #[trigger] ns.books[i].1.user_id,
            ) by {
                assert(has_key(st.users, st.books[i].1.user_id));
            }
            assert forall|i: int| 0 <= i < ns.swap_requests.len() implies has_key(
                ns.books,
                #[trigger] ns.swap_requests[i].1.book_id,
            ) && has_key(ns.users, ns.swap_requests[i].1.requested_by_id) by {
                assert(has_key(st.books, st.swap_requests[i].1.book_id));
                assert(has_key(st.users, st.swap_requests[i].1.requested_by_id));
            }
            assert forall|i: int| 0 <= i < ns.feedbacks.len() implies has_key(
                ns.users,
                #[trigger] ns.feedbacks[i].1.user_id,
            ) && has_key(ns.swap_requests, ns.feedbacks[i].1.swap_request_id) by {
                assert(has_key(st.users, st.feedbacks[i].1.user_id));
            }
            assert(ns == create_user_step(st, payload, now).0);
        }
        Ok(user)
    }

    /// The user stored under `user_id`, or `NotFound`.
    pub fn get_user_profile(&self, user_id: u64) -> (r: Result<User, Error>)
        requires
            self.wf(),
        ensures
            found(r, lookup(self@.users, user_id)),
    {
        match self.users.get(user_id) {
            Some(u) => Ok(u),
            None => Err(Error::NotFound),
        }
    }
    /// Replaces a user's name, phone number and email address, keeping its
    /// id and creation time; the new fields pass the checks of registration,
    /// so an email address that any stored user has, this one included, is
    /// refused.
    pub fn update_user_profile(&mut self, user_id: u64, payload: UserPayload) -> (r: Result<
        User,
        Error,
    >)
        requires
            old(self).wf(),
        ensures
            final(self).wf(),
            (final(self)@, r) == update_user_step(old(self)@, user_id, payload),
    {
        let prev = match self.users.get(user_id) {
            Some(u) => u,
            None => {
                return Err(Error::NotFound);
            },
        };
        if let Some(e) = self.check_user_payload(&payload) {
            return Err(e);
        }
        let user = User {
            id: prev.id,
            name: payload.name,
            phone_number: payload.phone_number,
            email: payload.email,
            created_at: prev.created_at,
        };
        proof {
            let st = old(self)@;
            lemma_set_value(st.users, user_id, user);
            lemma_stored_id::<User>(st.users, st.last_id, user_id);
        }
        self.users.replace(user_id, user.duplicate());
        proof {
            let st = old(self)@;
            let ns = self@;
            let t = set_value(st.users, user_id, user);
            assert(keys_at_most(t, st.last_id));
            assert forall|i: int| 0 <= i < t.len() implies User::key_of(#[trigger] t[i].1)
                == t[i].0 by {
                assert(User::key_of(st.users[i].1) == st.users[i].0);
            }
            assert forall|i: int| 0 <= i < ns.books.len() implies has_key(
                ns.users,
                #[trigger] ns.books[i].1.user_id,
            ) by {
                assert(has_key(st.users, st.books[i].1.user_id));
            }
            assert forall|i: int| 0 <= i < ns.swap_requests.len() implies has_key(
                ns.books,
                #[trigger] ns.swap_requests[i].1.book_id,
            ) && has_key(ns.users, ns.swap_requests[i].1.requested_by_id) by {
                assert(has_key(st.books, st.swap_requests[i].1.book_id));
                assert(has_key(st.users, st.swap_requests[i].1.requested_by_id));
            }
            assert forall|i: int| 0 <= i < ns.feedbacks.len() implies has_key(
                ns.users,
                #[trigger] ns.feedbacks[i].1.user_id,
            ) && has_key(ns.swap_requests, ns.feedbacks[i].1.swap_request_id) by {
                assert(has_key(st.users, st.feedbacks[i].1.user_id));
            }
            assert(ns == update_user_step(st, user_id, payload).0);
        }
        Ok(user)
    }

    /// All users in id order, or `NotFound` when there are none.
    pub fn get_all_users(&self) -> (r: Result<Vec<User>, Error>)
        ensures
            listed(r, values(self@.users)),
    {
        let v = self.users.all();
        if v.len() == 0 {
            Err(Error::NotFound)
        } else {
            Ok(v)
        }
    }

    /// Adds a book owned by a stored user.
    pub fn create_book(&mut self, payload: BookPayload, now: u64) -> (r: Result<Book, Error>)
        requires
            old(self).wf(),
        ensures
            final(self).wf(),
            (final(self)@, r) == create_book_step(old(self)@, payload, now),
    {
        if payload.user_id == 0 || payload.title.as_str().is_empty()
            || payload.author.as_str().is_empty() {
            return Err(Error::EmptyFields);
        }
        if !self.users.contains(payload.user_id) {
            return Err(Error::NotFound);
        }
        let id = match self.ids.next_id() {
            Some(id) => id,
            None => {
                return Err(Error::IdsExhausted);
            },
        };
        let book = Book {
            id,
            user_id: payload.user_id,
            title: payload.title,
            author: payload.author,
            description: payload.description,
            created_at: now,
        };
        proof {
            let st = old(self)@;
            lemma_push_fresh(st.books, st.last_id, id, book);
        }
        self.books.insert_new(id, book.duplicate());
        proof {
            let st = old(self)@;
            let ns = self@;
            assert forall|i: int| 0 <= i < ns.books.len() implies has_key(
                ns.users,
                #[trigger] ns.books[i].1.user_id,
            ) by {
                if i < st.books.len() {
                    assert(ns.books[i] == st.books[i]);
                }
            }
            assert forall|i: int| 0 <= i < ns.swap_requests.len() implies has_key(
                ns.books,
                #[trigger] ns.swap_requests[i].1.book_id,
            ) && has_key(ns.users, ns.swap_requests[i].1.requested_by_id) by {
                assert(has_key(st.books, st.swap_requests[i].1.book_id));
            }
            assert(ns == create_book_step(st, payload, now).0);
        }
        Ok(book)
    }

    /// The book stored under `book_id`, or `NotFound`.
    pub fn get_book_id(&self, book_id: u64) -> (r: Result<Book, Error>)
        requires
            self.wf(),
        ensures
            found(r, lookup(self@.books, book_id)),
    {
        match self.books.get(book_id) {
            Some(b) => Ok(b),
            None => Err(Error::NotFound),
        }
    }

    /// The books of user `user_id`, or `NotFound` when there are none.
    pub fn get_books_by_user_id(&self, user_id: u64) -> (r: Result<Vec<Book>, Error>)
        ensures
            listed(r, select(self@.books, book_owned_by(user_id))),
    {
        let v = self.books.filter(
            (|b: &Book| -> (k: bool)
                ensures
                    k <==> b.user_id == user_id,
                { b.user_id == user_id }),
            Ghost(book_owned_by(user_id)),
        );
        if v.len() == 0 {
            Err(Error::NotFound)
        } else {
            Ok(v)
        }
    }

    /// The books whose owner is named `name`, or `NotFound` when there are
    /// none.
    pub fn get_books_by_user_name(&self, name: String) -> (r: Result<Vec<Book>, Error>)
        requires
            self.wf(),
        ensures
            listed(r, select(self@.books, book_owner_named(self@.users, name@))),
    {
        let users = &self.users;
        let wanted = &name;
        let v = self.books.filter(
            (|b: &Book| -> (k: bool)
                requires
                    users.wf(),
                ensures
                    k == book_owner_named(users@, wanted@)(*b),
                {
                    match users.get(b.user_id) {
                        Some(u) => u.name == *wanted,
                        None => false,
                    }
                }),
            Ghost(book_owner_named(self@.users, name@)),
        );
        if v.len() == 0 {
            Err(Error::NotFound)
        } else {
            Ok(v)
        }
    }

    /// The books titled exactly `title`, or `NotFound` when there are none.
    pub fn get_books_by_title(&self, title: String) -> (r: Result<Vec<Book>, Error>)
        ensures
            listed(r, select(self@.books, book_titled(title@))),
    {
        let wanted = &title;
        let v = self.books.filter(
            (|b: &Book| -> (k: bool)
                ensures
                    k <==> b.title@ == wanted@,
                { b.title == *wanted }),
            Ghost(book_titled(title@)),
        );
        if v.len() == 0 {
            Err(Error::NotFound)
        } else {
            Ok(v)
        }
    }

    /// All books in id order, or `NotFound` when there are none.
    pub fn get_all_books(&self) -> (r: Result<Vec<Book>, Error>)
        ensures
            listed(r, values(self@.books)),
    {
        let v = self.books.all();
        if v.len() == 0 {
            Err(Error::NotFound)
        } else {
            Ok(v)
        }
    }

    /// Asks for a stored book on behalf of a stored user; the request starts
    /// `Pending`.
    pub fn create_swap_request(&mut self, payload: SwapRequestPayload, now: u64) -> (r: Result<
        SwapRequest,
        Error,
    >)
        requires
            old(self).wf(),
        ensures
            final(self).wf(),
            (final(self)@, r) == create_swap_request_step(old(self)@, payload, now),
    {
        if payload.book_id == 0 || payload.requested_by_id == 0 {
            return Err(Error::EmptyFields);
        }
        if !self.books.contains(payload.book_id) {
            return Err(Error::NotFound);
        }
        if !self.users.contains(payload.requested_by_id) {
            return Err(Error::NotFound);
        }
        let id = match self.ids.next_id() {
            Some(id) => id,
            None => {
                return Err(Error::IdsExhausted);
            },
        };
        let request = SwapRequest {
            id,
            book_id: payload.book_id,
            requested_by_id: payload.requested_by_id,
            status: SwapStatus::Pending,
            created_at: now,
        };
        proof {
            let st = old(self)@;
            lemma_push_fresh(st.swap_requests, st.last_id, id, request);
        }
        self.swap_requests.insert_new(id, request.duplicate());
        proof {
            let st = old(self)@;
            let ns = self@;
            assert forall|i: int| 0 <= i < ns.swap_requests.len() implies has_key(
                ns.books,
                #[trigger] ns.swap_requests[i].1.book_id,
            ) && has_key(ns.users, ns.swap_requests[i].1.requested_by_id) by {
                if i < st.swap_requests.len() {
                    assert(ns.swap_requests[i] == st.swap_requests[i]);
                }
            }
            assert forall|i: int| 0 <= i < ns.feedbacks.len() implies has_key(
                ns.users,
                #[trigger] ns.feedbacks[i].1.user_id,
            ) && has_key(ns.swap_requests, ns.feedbacks[i].1.swap_request_id) by {
                assert(has_key(st.users, st.feedbacks[i].1.user_id));
                assert(has_key(st.swap_requests, st.feedbacks[i].1.swap_request_id));
            }
            assert(ns == create_swap_request_step(st, payload, now).0);
        }
        Ok(request)
    }

    /// The swap request stored under `swap_request_id`, or `NotFound`.
    pub fn get_swap_requests(&self, swap_request_id: u64) -> (r: Result<SwapRequest, Error>)
        requires
            self.wf(),
        ensures
            found(r, lookup(self@.swap_requests, swap_request_id)),
    {
        match self.swap_requests.get(swap_request_id) {
            Some(q) => Ok(q),
            None => Err(Error::NotFound),
        }
    }

    /// The swap requests made by user `user_id`, or `NotFound` when there
    /// are none.
    pub fn get_swap_requests_by_user_id(&self, user_id: u64) -> (r: Result<Vec<SwapRequest>, Error>)
        ensures
            listed(r, select(self@.swap_requests, requested_by(user_id))),
    {
        let v = self.swap_requests.filter(
            (|q: &SwapRequest| -> (k: bool)
                ensures
                    k <==> q.requested_by_id == user_id,
                { q.requested_by_id == user_id }),
            Ghost(requested_by(user_id)),
        );
        if v.len() == 0 {
            Err(Error::NotFound)
        } else {
            Ok(v)
        }
    }

    /// Records a stored user's rating of a stored swap request.
    pub fn create_feedback(&mut self, payload: FeedbackPayload, now: u64) -> (r: Result<
        Feedback,
        Error,
    >)
        requires
            old(self).wf(),
        ensures
            final(self).wf(),
            (final(self)@, r) == create_feedback_step(old(self)@, payload, now),
    {
        if payload.user_id == 0 || payload.swap_request_id == 0 || payload.rating == 0 {
            return Err(Error::EmptyFields);
        }
        if !self.users.contains(payload.user_id) {
            return Err(Error::NotFound);
        }
        if !self.swap_requests.contains(payload.swap_request_id) {
            return Err(Error::NotFound);
        }
        let id = match self.ids.next_id() {
            Some(id) => id,
            None => {
                return Err(Error::IdsExhausted);
            },
        };
        let feedback = Feedback {
            id,
            user_id: payload.user_id,
            swap_request_id: payload.swap_request_id,
            rating: payload.rating,
            comment: payload.comment,
            created_at: now,
        };
        proof {
            let st = old(self)@;
            lemma_push_fresh(st.feedbacks, st.last_id, id, feedback);
        }
        self.feedbacks.insert_new(id, feedback.duplicate());
        proof {
            let st = old(self)@;
            let ns = self@;
            assert forall|i: int| 0 <= i < ns.feedbacks.len() implies has_key(
                ns.users,
                #[trigger] ns.feedbacks[i].1.user_id,
            ) && has_key(ns.swap_requests, ns.feedbacks[i].1.swap_request_id) by {
                if i < st.feedbacks.len() {
                    assert(ns.feedbacks[i] == st.feedbacks[i]);
                }
            }
            assert(ns == create_feedback_step(st, payload, now).0);
        }
        Ok(feedback)
    }

    /// The feedback given by user `user_id`, or `NotFound` when there is
    /// none.
    pub fn get_feedbacks_by_user_id(&self, user_id: u64) -> (r: Result<Vec<Feedback>, Error>)
        ensures
            listed(r, select(self@.feedbacks, feedback_by(user_id))),
    {
        let v = self.feedbacks.filter(
            (|f: &Feedback| -> (k: bool)
                ensures
                    k <==> f.user_id == user_id,
                { f.user_id == user_id }),
            Ghost(feedback_by(user_id)),
        );
        if v.len() == 0 {
            Err(Error::NotFound)
        } else {
            Ok(v)
        }
    }
}

} // verus!
