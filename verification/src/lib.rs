//! An in-memory catalogue of books behind a small request/response interface.
//!
//! The crate holds the data model, the store that maps identifiers to books,
//! and the four request handlers. Each handler is a plain function from the
//! shared state and its input to a reply, a status and a body, so the serving
//! layer only has to decode requests, hold the lock around the state, and
//! encode replies.
//!
//! - [`models`]: a book, and the payload that asks for a new one.
//! - [`ident`]: the form of an identifier, and the source of new ones.
//! - [`state`]: the store and the state that the handlers share.
//! - [`routes`]: the handlers and their replies.
//! - [`history`]: what holds of the store over a whole run of requests.

pub mod history;
pub mod ident;
pub mod models;
pub mod routes;
pub mod state;

pub use crate::models::{Book, BookView, CreateBook, CreateBookView};
pub use crate::routes::{
    create_book, create_book_with_id, delete_book, get_book_by_id, get_books, store_unavailable,
    Body, BodyView, Response, ResponseView, StatusCode,
};
pub use crate::state::{AppState, Store};
