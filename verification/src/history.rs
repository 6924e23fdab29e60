//! What holds of a store over a whole run of requests.
//!
//! A run is a sequence of requests, each with the identifier it concerns;
//! for a creation that is the identifier the new book was given. The store
//! after a run is the empty store taken through the requests one by one, by
//! the same steps that the handlers' contracts name.

use vstd::prelude::*;

use crate::models::{BookView, CreateBookView};
use crate::routes::{
    after_create, after_delete, create_reply, delete_reply, get_reply, is_list_reply, BodyView,
    ResponseView, StatusCode,
};

verus! {

/// One request that reached a handler.
pub enum Request {
    /// All books were asked for.
    ListBooks,
    /// A book was created from `payload` and given the identifier `id`.
    CreateBook { id: Seq<char>, payload: CreateBookView },
    /// The book with identifier `id` was asked for.
    GetBookById { id: Seq<char> },
    /// The book with identifier `id` was asked to be deleted.
    DeleteBook { id: Seq<char> },
}

/// The store after one more request.
pub open spec fn step(shelf: Map<Seq<char>, BookView>, request: Request) -> Map<
    Seq<char>,
    BookView,
> {
    match request {
        Request::ListBooks => shelf,
        Request::CreateBook { id, payload } => after_create(shelf, id, payload),
        Request::GetBookById { id } => shelf,
        Request::DeleteBook { id } => after_delete(shelf, id),
    }
}

/// The store after a run of requests on a store that started out empty.
pub open spec fn replay(run: Seq<Request>) -> Map<Seq<char>, BookView>
    decreases run.len(),
{
    if run.len() == 0 {
        Map::empty()
    } else {
        step(replay(run.drop_last()), run.last())
    }
}

/// No creation of the run gave its book an identifier that the store held
/// at that moment.
pub open spec fn ids_were_new(run: Seq<Request>) -> bool
    decreases run.len(),
{
    if run.len() == 0 {
        true
    } else {
        &&& ids_were_new(run.drop_last())
        &&& run.last() matches Request::CreateBook { id, .. } ==> !replay(
            run.drop_last(),
        ).contains_key(id)
    }
}

/// The number of creations in the run.
pub open spec fn creations(run: Seq<Request>) -> nat
    decreases run.len(),
{
    if run.len() == 0 {
        0
    } else if run.last() is CreateBook {
        creations(run.drop_last()) + 1
    } else {
        creations(run.drop_last())
    }
}

/// The number of deletions in the run that found their book.
pub open spec fn deletions(run: Seq<Request>) -> nat
    decreases run.len(),
{
    if run.len() == 0 {
        0
    } else if run.last() matches Request::DeleteBook { id } && replay(
        run.drop_last(),
    ).contains_key(id) {
        deletions(run.drop_last()) + 1
    } else {
        deletions(run.drop_last())
    }
}

/// A book that was just created is found under its identifier, with exactly
/// the fields it was created with.
pub proof fn lemma_created_book_is_found(
    shelf: Map<Seq<char>, BookView>,
    id: Seq<char>,
    payload: CreateBookView,
)
    ensures
        get_reply(after_create(shelf, id, payload), id) == (ResponseView {
            status: StatusCode::Okay,
            body: BodyView::Book(payload.with_id(id)),
        }),
        get_reply(after_create(shelf, id, payload), id).body == create_reply(id, payload).body,
{
}

/// Creating a book leaves every other book as it was.
pub proof fn lemma_create_keeps_others(
    shelf: Map<Seq<char>, BookView>,
    id: Seq<char>,
    payload: CreateBookView,
    other: Seq<char>,
)
    requires
        other != id,
    ensures
        get_reply(after_create(shelf, id, payload), other) == get_reply(shelf, other),
{
}

/// Creating a book under an identifier that the store does not hold makes
/// the store one book larger; under one that it holds, the new book takes
/// the place of the old one and the store keeps its size.
pub proof fn lemma_create_counts(
    shelf: Map<Seq<char>, BookView>,
    id: Seq<char>,
    payload: CreateBookView,
)
    requires
        shelf.dom().finite(),
    ensures
        after_create(shelf, id, payload).dom().finite(),
        after_create(shelf, id, payload).len() == shelf.len() + (if shelf.contains_key(id) {
            0int
        } else {
            1int
        }),
{
}

/// Deleting a book that the store holds makes the store one book smaller
/// and leaves every other book as it was.
pub proof fn lemma_delete_counts(shelf: Map<Seq<char>, BookView>, id: Seq<char>, other: Seq<char>)
    requires
        shelf.dom().finite(),
        shelf.contains_key(id),
        other != id,
    ensures
        delete_reply(shelf, id) == (ResponseView {
            status: StatusCode::NoContent,
            body: BodyView::Empty,
        }),
        after_delete(shelf, id).dom().finite(),
        after_delete(shelf, id).len() == shelf.len() - 1,
        get_reply(after_delete(shelf, id), other) == get_reply(shelf, other),
{
}

/// A book that was just deleted is no longer found.
pub proof fn lemma_deleted_book_is_not_found(shelf: Map<Seq<char>, BookView>, id: Seq<char>)
    ensures
        get_reply(after_delete(shelf, id), id) == (ResponseView {
            status: StatusCode::NotFound,
            body: BodyView::Empty,
        }),
{
}

/// Deleting under an identifier that the store does not hold is answered
/// with status 404 and changes nothing: the store holds the same books, and
/// as many, as before.
pub proof fn lemma_delete_unknown_changes_nothing(shelf: Map<Seq<char>, BookView>, id: Seq<char>)
    requires
        !shelf.contains_key(id),
    ensures
        delete_reply(shelf, id) == (ResponseView {
            status: StatusCode::NotFound,
            body: BodyView::Empty,
        }),
        after_delete(shelf, id) == shelf,
        after_delete(shelf, id).len() == shelf.len(),
{
    assert(after_delete(shelf, id) =~= shelf);
}

/// Whether `request` is a creation that gave its book the identifier `id`.
pub open spec fn gives_out(request: Request, id: Seq<char>) -> bool {
    match request {
        Request::CreateBook { id: given, .. } => given == id,
        _ => false,
    }
}

/// Whether some creation of the run gave its book the identifier `id`.
pub open spec fn was_given_out(run: Seq<Request>, id: Seq<char>) -> bool {
    exists|i: int| 0 <= i < run.len() && gives_out(#[trigger] run[i], id)
}

/// After any run, the store holds finitely many books, each under its own
/// identifier, and every identifier it holds was given out by a creation of
/// the run.
pub proof fn lemma_replay_keys(run: Seq<Request>)
    ensures
        replay(run).dom().finite(),
        forall|id: Seq<char>| #[trigger] replay(run).contains_key(id) ==> replay(run)[id].id == id,
        forall|id: Seq<char>| #[trigger] replay(run).contains_key(id) ==> was_given_out(run, id),
    decreases run.len(),
{
    if run.len() > 0 {
        let front = run.drop_last();
        lemma_replay_keys(front);
        assert forall|id: Seq<char>| #[trigger] replay(run).contains_key(id) implies was_given_out(
            run,
            id,
        ) by {
            if replay(front).contains_key(id) {
                let i = choose|i: int| 0 <= i < front.len() && gives_out(#[trigger] front[i], id);
                assert(gives_out(run[i], id));
            } else {
                assert(gives_out(run[run.len() - 1], id));
            }
        }
    }
}

/// A request for a book under an identifier that no creation of the run
/// ever gave out is answered with status 404 and nothing else.
pub proof fn lemma_never_created_is_not_found(run: Seq<Request>, id: Seq<char>)
    requires
        !was_given_out(run, id),
    ensures
        get_reply(replay(run), id) == (ResponseView {
            status: StatusCode::NotFound,
            body: BodyView::Empty,
        }),
{
    lemma_replay_keys(run);
}

/// After a run in which every creation got a new identifier, the store
/// holds as many books as there were creations, less the deletions that
/// found their book.
pub proof fn lemma_count(run: Seq<Request>)
    requires
        ids_were_new(run),
    ensures
        replay(run).dom().finite(),
        replay(run).len() == creations(run) - deletions(run),
    decreases run.len(),
{
    if run.len() > 0 {
        lemma_count(run.drop_last());
    }
}

/// After such a run, a request for all books is answered with a list of
/// that length.
pub proof fn lemma_list_length(run: Seq<Request>, reply: ResponseView)
    requires
        ids_were_new(run),
        is_list_reply(replay(run), reply),
    ensures
        reply.body matches BodyView::Books(books) && books.len() == creations(run) - deletions(
            run,
        ),
{
    lemma_count(run);
}

} // verus!
