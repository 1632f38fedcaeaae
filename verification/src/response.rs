//! The records of the book store and the envelope in which every store
//! operation answers.

use vstd::prelude::*;

verus! {

/// A book as the store keeps it.
#[derive(Debug, PartialEq, Eq)]
pub struct Book {
    pub id: i64,
    pub title: String,
    pub author: String,
    pub description: String,
    pub toc: String,
    pub create_time: String,
    pub update_time: String,
}

/// One chapter of a book.
#[derive(Debug, PartialEq, Eq)]
pub struct Chapter {
    pub id: i64,
    pub book_id: i64,
    pub label: String,
    pub href: String,
    pub content: String,
}

/// The answer to a store operation: either the data it produced or the
/// reason it failed, never both and never neither.
#[derive(Debug, PartialEq, Eq)]
pub struct DbResponse<T> {
    success: bool,
    data: Option<T>,
    error: Option<String>,
}

impl<T> DbResponse<T> {
    /// Whether the operation succeeded.
    pub closed spec fn succeeded(&self) -> bool {
        self.success
    }

    /// The data of a successful operation.
    pub closed spec fn payload(&self) -> Option<T> {
        self.data
    }

    /// The message of a failed operation.
    pub closed spec fn failure(&self) -> Option<Seq<char>> {
        match self.error {
            Some(e) => Some(e@),
            None => None,
        }
    }

    /// A response carries data exactly when it reports success, and a
    /// message exactly when it does not.
    pub open spec fn well_formed(&self) -> bool {
        &&& self.succeeded() <==> self.payload() is Some
        &&& self.succeeded() <==> self.failure() is None
    }

    /// The response of an operation that produced `data`.
    pub fn success(data: T) -> (r: Self)
        ensures
            r.succeeded(),
            r.payload() == Some(data),
            r.failure() is None,
            r.well_formed(),
    {
        Self { success: true, data: Some(data), error: None }
    }

    /// The response of an operation that failed with the message `error`.
    pub fn error(error: String) -> (r: Self)
        ensures
            !r.succeeded(),
            r.payload() is None,
            r.failure() == Some(error@),
            r.well_formed(),
    {
        Self { success: false, data: None, error: Some(error) }
    }

    /// Whether the operation succeeded.
    pub fn is_success(&self) -> (b: bool)
        ensures
            b == self.succeeded(),
    {
        self.success
    }

    /// The data of a successful operation, if this is one.
    pub fn data(&self) -> (d: Option<&T>)
        ensures
            d is Some <==> self.payload() is Some,
            d matches Some(x) ==> Some(*x) == self.payload(),
    {
        self.data.as_ref()
    }

    /// The message of a failed operation, if this is one.
    pub fn error_message(&self) -> (m: Option<&String>)
        ensures
            m is Some <==> self.failure() is Some,
            m matches Some(e) ==> Some(e@) == self.failure(),
    {
        self.error.as_ref()
    }

    /// Takes the response apart into its success flag, data and message.
    pub fn into_parts(self) -> (parts: (bool, Option<T>, Option<String>))
        ensures
            parts.0 == self.succeeded(),
            parts.1 == self.payload(),
            parts.2 is Some <==> self.failure() is Some,
            parts.2 matches Some(e) ==> Some(e@) == self.failure(),
    {
        (self.success, self.data, self.error)
    }
}

} // verus!
