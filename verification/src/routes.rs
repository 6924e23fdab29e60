//! The four request handlers, and the replies they give.
//!
//! A handler takes the shared state and what the request carried, and gives
//! back the reply as a value: a status and a body. Decoding the request and
//! encoding the reply are left to whoever serves them.

use vstd::prelude::*;

use crate::ident::{fresh_id, is_random_uuid_text};
use crate::models::{Book, BookView, CreateBook, CreateBookView};
use crate::state::{book_views, lists, AppState};

verus! {

/// The statuses that the handlers answer with.
#[derive(Clone, Copy, Debug, PartialEq, Eq, Structural)]
pub enum StatusCode {
    /// 200: the reply carries what was asked for.
    Okay,
    /// 201: a book was created; the reply carries it.
    Created,
    /// 204: a book was deleted; the reply carries nothing.
    NoContent,
    /// 404: no book has the identifier that was asked for.
    NotFound,
    /// 500: the store could not be reached.
    InternalServerError,
}

impl StatusCode {
    /// The number of the status.
    pub open spec fn spec_as_u16(self) -> u16 {
        match self {
            StatusCode::Okay => 200,
            StatusCode::Created => 201,
            StatusCode::NoContent => 204,
            StatusCode::NotFound => 404,
            StatusCode::InternalServerError => 500,
        }
    }

    /// The number of the status.
    #[verifier::when_used_as_spec(spec_as_u16)]
    pub fn as_u16(self) -> (code: u16)
        ensures
            code == self.spec_as_u16(),
    {
        match self {
            StatusCode::Okay => 200,
            StatusCode::Created => 201,
            StatusCode::NoContent => 204,
            StatusCode::NotFound => 404,
            StatusCode::InternalServerError => 500,
        }
    }
}

/// What a reply carries besides its status.
#[derive(Debug)]
pub enum Body {
    /// Nothing.
    Empty,
    /// One book.
    Book(Book),
    /// A list of books.
    Books(Vec<Book>),
}

/// What a [`Body`] is to the contracts.
pub enum BodyView {
    Empty,
    Book(BookView),
    Books(Seq<BookView>),
}

impl View for Body {
    type V = BodyView;

    open spec fn view(&self) -> BodyView {
        match self {
            Body::Empty => BodyView::Empty,
            Body::Book(book) => BodyView::Book(book@),
            Body::Books(books) => BodyView::Books(book_views(books@)),
        }
    }
}

/// A handler's reply.
#[derive(Debug)]
pub struct Response {
    pub status: StatusCode,
    pub body: Body,
}

/// What a [`Response`] is to the contracts.
pub struct ResponseView {
    pub status: StatusCode,
    pub body: BodyView,
}

impl View for Response {
    type V = ResponseView;

    open spec fn view(&self) -> ResponseView {
        ResponseView { status: self.status, body: self.body@ }
    }
}

/// The store after a book was created from `payload` under `id`.
pub open spec fn after_create(
    shelf: Map<Seq<char>, BookView>,
    id: Seq<char>,
    payload: CreateBookView,
) -> Map<Seq<char>, BookView> {
    shelf.insert(id, payload.with_id(id))
}

/// The store after the book with identifier `id` was asked to be deleted.
pub open spec fn after_delete(shelf: Map<Seq<char>, BookView>, id: Seq<char>) -> Map<
    Seq<char>,
    BookView,
> {
    shelf.remove(id)
}

/// Whether `reply` answers a request for all books of `shelf`: status 200
/// and a listing of the store, in whatever order.
pub open spec fn is_list_reply(shelf: Map<Seq<char>, BookView>, reply: ResponseView) -> bool {
    &&& reply.status == StatusCode::Okay
    &&& reply.body matches BodyView::Books(books)
    &&& lists(books, shelf)
}

/// The reply to the creation of a book from `payload` under `id`: status 201
/// and the whole new book.
pub open spec fn create_reply(id: Seq<char>, payload: CreateBookView) -> ResponseView {
    ResponseView { status: StatusCode::Created, body: BodyView::Book(payload.with_id(id)) }
}

/// The reply to a request for the book with identifier `id`: status 200 and
/// the book where the store has it, status 404 and nothing where it has not.
pub open spec fn get_reply(shelf: Map<Seq<char>, BookView>, id: Seq<char>) -> ResponseView {
    if shelf.contains_key(id) {
        ResponseView { status: StatusCode::Okay, body: BodyView::Book(shelf[id]) }
    } else {
        ResponseView { status: StatusCode::NotFound, body: BodyView::Empty }
    }
}

/// The reply to a request to delete the book with identifier `id`: status
/// 204 where the store has it, status 404 where it has not, and nothing else
/// either way.
pub open spec fn delete_reply(shelf: Map<Seq<char>, BookView>, id: Seq<char>) -> ResponseView {
    if shelf.contains_key(id) {
        ResponseView { status: StatusCode::NoContent, body: BodyView::Empty }
    } else {
        ResponseView { status: StatusCode::NotFound, body: BodyView::Empty }
    }
}

/// The reply of a handler that could not reach the store: status 500 and
/// nothing else.
pub open spec fn unavailable_reply() -> ResponseView {
    ResponseView { status: StatusCode::InternalServerError, body: BodyView::Empty }
}

/// Lists all books of the store.
pub fn get_books(state: &AppState) -> (reply: Response)
    ensures
        is_list_reply(state@, reply@),
{
    let books = state.books.list();
    Response { status: StatusCode::Okay, body: Body::Books(books) }
}

/// Creates a book from `payload` under the identifier `id`, puts it into the
/// store in place of whatever was there under `id`, and replies with it.
pub fn create_book_with_id(state: &mut AppState, id: String, payload: CreateBook) -> (reply:
    Response)
    ensures
        reply@ == create_reply(id@, payload@),
        final(state)@ == after_create(old(state)@, id@, payload@),
{
    let new_book = Book { id, title: payload.title, author: payload.author, year: payload.year };
    state.books.insert(new_book.clone());
    Response { status: StatusCode::Created, body: Body::Book(new_book) }
}

/// Creates a book from `payload` under a new random identifier, puts it into
/// the store, and replies with it.
///
/// Which identifier the book gets is not known beforehand. Whichever it is,
/// it has the form of a random UUID, and reply and store are those of
/// [`create_book_with_id`] for it.
pub fn create_book(state: &mut AppState, payload: CreateBook) -> (reply: Response)
    ensures
        reply.status == StatusCode::Created,
        reply.body matches Body::Book(book) && {
            &&& is_random_uuid_text(book@.id)
            &&& book@.id.len() > 0
            &&& book@.title == payload@.title
            &&& book@.author == payload@.author
            &&& book@.year == payload@.year
            &&& reply@ == create_reply(book@.id, payload@)
            &&& final(state)@ == after_create(old(state)@, book@.id, payload@)
        },
{
    let id = fresh_id();
    create_book_with_id(state, id, payload)
}

/// Looks up the book with identifier `book_id`.
pub fn get_book_by_id(state: &AppState, book_id: String) -> (reply: Response)
    ensures
        reply@ == get_reply(state@, book_id@),
{
    match state.books.get(&book_id) {
        Some(book) => Response { status: StatusCode::Okay, body: Body::Book(book.clone()) },
        None => Response { status: StatusCode::NotFound, body: Body::Empty },
    }
}

/// Deletes the book with identifier `book_id`, if the store has it.
pub fn delete_book(state: &mut AppState, book_id: String) -> (reply: Response)
    ensures
        reply@ == delete_reply(old(state)@, book_id@),
        final(state)@ == after_delete(old(state)@, book_id@),
        !old(state)@.contains_key(book_id@) ==> final(state)@ == old(state)@,
{
    if state.books.remove(&book_id) {
        Response { status: StatusCode::NoContent, body: Body::Empty }
    } else {
        Response { status: StatusCode::NotFound, body: Body::Empty }
    }
}

/// The reply of a handler that could not acquire the lock around the store:
/// the failure costs this one request, and nothing else.
pub fn store_unavailable() -> (reply: Response)
    ensures
        reply@ == unavailable_reply(),
{
    Response { status: StatusCode::InternalServerError, body: Body::Empty }
}

} // verus!
