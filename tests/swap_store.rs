use record_store::error::Error;
use record_store::swap::{
    BookPayload, FeedbackPayload, SwapRequestPayload, SwapStatus, SwapStore, UserPayload,
};

fn user(name: &str, phone: &str, email: &str) -> UserPayload {
    UserPayload {
        name: name.to_string(),
        phone_number: phone.to_string(),
        email: email.to_string(),
    }
}

fn book(user_id: u64, title: &str, author: &str) -> BookPayload {
    BookPayload {
        user_id,
        title: title.to_string(),
        author: author.to_string(),
        description: "a novel".to_string(),
    }
}

#[test]
fn create_user_profile_stores_and_returns_the_record() {
    let mut s = SwapStore::new();
    let u = s.create_user_profile(user("Ann", "0123456789", "ann@mail.com"), 42).unwrap();
    assert_eq!(u.id, 1);
    assert_eq!(u.name, "Ann");
    assert_eq!(u.phone_number, "0123456789");
    assert_eq!(u.email, "ann@mail.com");
    assert_eq!(u.created_at, 42);
    assert_eq!(s.get_user_profile(1), Ok(u.clone()));
    assert_eq!(s.get_user_profile(1), Ok(u));
}

#[test]
fn create_user_profile_rejects_empty_fields() {
    let mut s = SwapStore::new();
    assert_eq!(s.create_user_profile(user("", "0123456789", "a@b.com"), 1), Err(Error::EmptyFields));
    assert_eq!(s.create_user_profile(user("A", "", "a@b.com"), 1), Err(Error::EmptyFields));
    assert_eq!(s.create_user_profile(user("A", "0123456789", ""), 1), Err(Error::EmptyFields));
    assert_eq!(s.get_all_users(), Err(Error::NotFound));
}

#[test]
fn create_user_profile_rejects_malformed_email() {
    let mut s = SwapStore::new();
    for bad in ["ann", "ann@mail", "ann@mail.c", "@mail.com", "ann@.com", "ann@mail.com ", "a b@mail.com", "ann@mail.c0m"] {
        assert_eq!(
            s.create_user_profile(user("Ann", "0123456789", bad), 1),
            Err(Error::InvalidEmail),
            "{}",
            bad
        );
    }
    for good in ["a@b.co", "first.last+tag@sub.example.org", "x_y%z-1@a-b.IO"] {
        assert!(s.create_user_profile(user("Ann", "0123456789", good), 1).is_ok(), "{}", good);
    }
}

#[test]
fn create_user_profile_rejects_malformed_phone_number() {
    let mut s = SwapStore::new();
    for bad in ["012345678", "01234567890", "01234a6789", "+123456789", "012345678\n"] {
        assert_eq!(
            s.create_user_profile(user("Ann", bad, "ann@mail.com"), 1),
            Err(Error::InvalidPhoneNumber)
        );
    }
    assert_eq!(s.get_all_users(), Err(Error::NotFound));
}

#[test]
fn duplicate_email_is_refused_and_checked_before_phone() {
    let mut s = SwapStore::new();
    assert!(s.create_user_profile(user("Ann", "0123456789", "ann@mail.com"), 1).is_ok());
    assert_eq!(
        s.create_user_profile(user("Bob", "9876543210", "ann@mail.com"), 2),
        Err(Error::AlreadyExists)
    );
    assert_eq!(
        s.create_user_profile(user("Bob", "bad", "ann@mail.com"), 2),
        Err(Error::AlreadyExists)
    );
    assert_eq!(s.get_all_users().unwrap().len(), 1);
}

#[test]
fn ids_are_shared_and_increasing() {
    let mut s = SwapStore::new();
    let a = s.create_user_profile(user("Ann", "0123456789", "ann@mail.com"), 1).unwrap();
    let b = s.create_book(book(a.id, "Dune", "Herbert"), 2).unwrap();
    let c = s.create_user_profile(user("Bob", "0123456788", "bob@mail.com"), 3).unwrap();
    let q = s.create_swap_request(SwapRequestPayload { book_id: b.id, requested_by_id: c.id }, 4).unwrap();
    assert_eq!((a.id, b.id, c.id, q.id), (1, 2, 3, 4));
}

#[test]
fn update_user_profile_keeps_id_and_creation_time() {
    let mut s = SwapStore::new();
    let u = s.create_user_profile(user("Ann", "0123456789", "ann@mail.com"), 7).unwrap();
    let v = s.update_user_profile(u.id, user("Annie", "1111111111", "annie@mail.com")).unwrap();
    assert_eq!(v.id, u.id);
    assert_eq!(v.created_at, 7);
    assert_eq!(v.name, "Annie");
    assert_eq!(s.get_user_profile(u.id), Ok(v));
}

#[test]
fn update_user_profile_errors() {
    let mut s = SwapStore::new();
    assert_eq!(
        s.update_user_profile(1, user("A", "0123456789", "a@b.com")),
        Err(Error::NotFound)
    );
    let u = s.create_user_profile(user("Ann", "0123456789", "ann@mail.com"), 7).unwrap();
    assert_eq!(s.update_user_profile(u.id, user("", "0123456789", "x@b.com")), Err(Error::EmptyFields));
    assert_eq!(s.update_user_profile(u.id, user("A", "0123456789", "xb.com")), Err(Error::InvalidEmail));
    assert_eq!(s.update_user_profile(u.id, user("A", "0123456789", "ann@mail.com")), Err(Error::AlreadyExists));
    assert_eq!(s.update_user_profile(u.id, user("A", "12", "x@b.com")), Err(Error::InvalidPhoneNumber));
    assert_eq!(s.get_user_profile(u.id), Ok(u));
}

#[test]
fn create_book_checks_fields_and_owner() {
    let mut s = SwapStore::new();
    assert_eq!(s.create_book(book(0, "Dune", "Herbert"), 1), Err(Error::EmptyFields));
    assert_eq!(s.create_book(book(5, "", "Herbert"), 1), Err(Error::EmptyFields));
    assert_eq!(s.create_book(book(5, "Dune", ""), 1), Err(Error::EmptyFields));
    assert_eq!(s.create_book(book(5, "Dune", "Herbert"), 1), Err(Error::NotFound));
    assert_eq!(s.get_all_books(), Err(Error::NotFound));
    let u = s.create_user_profile(user("Ann", "0123456789", "ann@mail.com"), 1).unwrap();
    let b = s.create_book(book(u.id, "Dune", "Herbert"), 9).unwrap();
    assert_eq!(b.id, 2);
    assert_eq!(b.created_at, 9);
    assert_eq!(b.description, "a novel");
    assert_eq!(s.get_book_id(b.id), Ok(b.clone()));
    assert_eq!(s.get_book_id(99), Err(Error::NotFound));
    assert_eq!(s.get_all_books(), Ok(vec![b]));
}

#[test]
fn book_queries_filter_in_id_order() {
    let mut s = SwapStore::new();
    let ann = s.create_user_profile(user("Ann", "0123456789", "ann@mail.com"), 1).unwrap();
    let bob = s.create_user_profile(user("Bob", "0123456788", "bob@mail.com"), 1).unwrap();
    let b1 = s.create_book(book(ann.id, "Dune", "Herbert"), 1).unwrap();
    let b2 = s.create_book(book(bob.id, "Emma", "Austen"), 1).unwrap();
    let b3 = s.create_book(book(ann.id, "Emma", "Austen"), 1).unwrap();
    assert_eq!(s.get_books_by_user_id(ann.id), Ok(vec![b1.clone(), b3.clone()]));
    assert_eq!(s.get_books_by_user_id(bob.id), Ok(vec![b2.clone()]));
    assert_eq!(s.get_books_by_user_id(77), Err(Error::NotFound));
    assert_eq!(s.get_books_by_user_name("Ann".to_string()), Ok(vec![b1.clone(), b3.clone()]));
    assert_eq!(s.get_books_by_user_name("ann".to_string()), Err(Error::NotFound));
    assert_eq!(s.get_books_by_title("Emma".to_string()), Ok(vec![b2.clone(), b3.clone()]));
    assert_eq!(s.get_books_by_title("Em".to_string()), Err(Error::NotFound));
    assert_eq!(s.get_all_books(), Ok(vec![b1, b2, b3]));
}

#[test]
fn swap_requests_start_pending_and_need_book_and_user() {
    let mut s = SwapStore::new();
    assert_eq!(
        s.create_swap_request(SwapRequestPayload { book_id: 0, requested_by_id: 1 }, 1),
        Err(Error::EmptyFields)
    );
    let ann = s.create_user_profile(user("Ann", "0123456789", "ann@mail.com"), 1).unwrap();
    let b = s.create_book(book(ann.id, "Dune", "Herbert"), 1).unwrap();
    assert_eq!(
        s.create_swap_request(SwapRequestPayload { book_id: 50, requested_by_id: ann.id }, 1),
        Err(Error::NotFound)
    );
    assert_eq!(
        s.create_swap_request(SwapRequestPayload { book_id: b.id, requested_by_id: 50 }, 1),
        Err(Error::NotFound)
    );
    let q = s
        .create_swap_request(SwapRequestPayload { book_id: b.id, requested_by_id: ann.id }, 5)
        .unwrap();
    assert_eq!(q.id, 3);
    assert_eq!(q.status, SwapStatus::Pending);
    assert_eq!(s.get_swap_requests(q.id), Ok(q.clone()));
    assert_eq!(s.get_swap_requests(b.id), Err(Error::NotFound));
    assert_eq!(s.get_swap_requests_by_user_id(ann.id), Ok(vec![q]));
    assert_eq!(s.get_swap_requests_by_user_id(b.id), Err(Error::NotFound));
}

#[test]
fn feedback_needs_rating_user_and_swap_request() {
    let mut s = SwapStore::new();
    let ann = s.create_user_profile(user("Ann", "0123456789", "ann@mail.com"), 1).unwrap();
    let b = s.create_book(book(ann.id, "Dune", "Herbert"), 1).unwrap();
    let q = s
        .create_swap_request(SwapRequestPayload { book_id: b.id, requested_by_id: ann.id }, 1)
        .unwrap();
    let fb = |user_id, swap_request_id, rating| FeedbackPayload {
        user_id,
        swap_request_id,
        rating,
        comment: "fine".to_string(),
    };
    assert_eq!(s.create_feedback(fb(ann.id, q.id, 0), 1), Err(Error::EmptyFields));
    assert_eq!(s.create_feedback(fb(40, q.id, 4), 1), Err(Error::NotFound));
    assert_eq!(s.create_feedback(fb(ann.id, b.id, 4), 1), Err(Error::NotFound));
    assert_eq!(s.get_feedbacks_by_user_id(ann.id), Err(Error::NotFound));
    let f = s.create_feedback(fb(ann.id, q.id, 4), 8).unwrap();
    assert_eq!((f.id, f.rating, f.created_at), (4, 4, 8));
    assert_eq!(f.comment, "fine");
    assert_eq!(s.get_feedbacks_by_user_id(ann.id), Ok(vec![f]));
}

#[test]
fn fresh_swap_store_lists_nothing() {
    let s = SwapStore::new();
    assert_eq!(s.get_all_users(), Err(Error::NotFound));
    assert_eq!(s.get_all_books(), Err(Error::NotFound));
    assert_eq!(s.get_user_profile(1), Err(Error::NotFound));
}

fn sample_store() -> SwapStore {
    let mut s = SwapStore::new();
    let ann = s.create_user_profile(user("Ann", "0123456789", "ann@mail.com"), 1).unwrap();
    let b = s.create_book(book(ann.id, "Dune", "Herbert"), 2).unwrap();
    let q = s
        .create_swap_request(SwapRequestPayload { book_id: b.id, requested_by_id: ann.id }, 3)
        .unwrap();
    s.create_feedback(
        FeedbackPayload { user_id: ann.id, swap_request_id: q.id, rating: 5, comment: String::new() },
        4,
    )
    .unwrap();
    s
}

#[test]
fn restore_of_export_gives_the_store_back() {
    let s = sample_store();
    let (last, users, books, requests, feedbacks) = s.export();
    assert_eq!(last, 4);
    let mut r = SwapStore::restore(last, users.clone(), books.clone(), requests.clone(), feedbacks.clone()).unwrap();
    assert_eq!(r.get_all_users(), Ok(users));
    assert_eq!(r.get_all_books(), Ok(books));
    assert_eq!(r.get_swap_requests(3), Ok(requests[0].clone()));
    assert_eq!(r.get_feedbacks_by_user_id(1), Ok(feedbacks));
    let next = r.create_user_profile(user("Bob", "0123456788", "bob@mail.com"), 9).unwrap();
    assert_eq!(next.id, 5);
}

#[test]
fn restore_refuses_inconsistent_records() {
    let (last, users, books, requests, feedbacks) = sample_store().export();
    assert!(SwapStore::restore(last - 1, users.clone(), books.clone(), requests.clone(), feedbacks.clone()).is_none());
    assert!(SwapStore::restore(last, vec![], books.clone(), vec![], vec![]).is_none());
    assert!(SwapStore::restore(last, users.clone(), vec![], requests.clone(), vec![]).is_none());
    assert!(SwapStore::restore(last, users.clone(), books.clone(), vec![], feedbacks.clone()).is_none());
    let twice = vec![users[0].clone(), users[0].clone()];
    assert!(SwapStore::restore(last, twice, vec![], vec![], vec![]).is_none());
    let empty = SwapStore::restore(0, vec![], vec![], vec![], vec![]).unwrap();
    assert_eq!(empty.get_all_users(), Err(Error::NotFound));
}
