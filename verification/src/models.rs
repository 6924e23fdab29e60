//! The shape of a book record and of the payload that asks for a new one.

use vstd::prelude::*;

verus! {

/// A single book of the library.
#[derive(Debug)]
pub struct Book {
    /// Unique identifier of the book, a UUID rendered as text.
    pub id: String,
    /// Title of the book.
    pub title: String,
    /// Author of the book.
    pub author: String,
    /// Year of publication, where it is known.
    pub year: Option<u16>,
}

/// What a [`Book`] is to the contracts: its four fields as mathematical values.
pub struct BookView {
    pub id: Seq<char>,
    pub title: Seq<char>,
    pub author: Seq<char>,
    pub year: Option<u16>,
}

impl View for Book {
    type V = BookView;

    open spec fn view(&self) -> BookView {
        BookView { id: self.id@, title: self.title@, author: self.author@, year: self.year }
    }
}

impl Clone for Book {
    fn clone(&self) -> (res: Self)
        ensures
            res == *self,
    {
        Book {
            id: self.id.clone(),
            title: self.title.clone(),
            author: self.author.clone(),
            year: self.year,
        }
    }
}

/// The payload that asks for a new book. It carries no identifier: the
/// library assigns one when the book is created.
#[derive(Debug)]
pub struct CreateBook {
    pub title: String,
    pub author: String,
    pub year: Option<u16>,
}

/// What a [`CreateBook`] is to the contracts.
pub struct CreateBookView {
    pub title: Seq<char>,
    pub author: Seq<char>,
    pub year: Option<u16>,
}

impl CreateBookView {
    /// The book that this payload describes once it has been given `id`.
    pub open spec fn with_id(self, id: Seq<char>) -> BookView {
        BookView { id, title: self.title, author: self.author, year: self.year }
    }
}

impl View for CreateBook {
    type V = CreateBookView;

    open spec fn view(&self) -> CreateBookView {
        CreateBookView { title: self.title@, author: self.author@, year: self.year }
    }
}

impl Clone for CreateBook {
    fn clone(&self) -> (res: Self)
        ensures
            res == *self,
    {
        CreateBook { title: self.title.clone(), author: self.author.clone(), year: self.year }
    }
}

} // verus!
