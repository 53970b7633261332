use vstd::prelude::*;

verus! {

/// Why an operation refused to write or could not answer.
#[derive(Clone, Copy, Debug, PartialEq, Eq, Structural)]
pub enum Error {
    /// A referenced record, or every record of a scan, is absent.
    NotFound,
    /// Reserved for access control; no operation returns it.
    Unauthorized,
    /// An email address is not of the form `local@domain.tld`.
    InvalidEmail,
    /// A unique field (the email address) is already taken.
    AlreadyExists,
    /// A phone number is not exactly ten digits.
    InvalidPhoneNumber,
    /// A mandatory text field is empty, a mandatory number is zero, or a
    /// mandatory list is empty.
    EmptyFields,
    /// A purchase that does not fit the item: wrong price, wrong status, or a
    /// buyer who is also the seller.
    InvalidInput,
    /// Every identifier has been handed out.
    IdsExhausted,
}

} // verus!
