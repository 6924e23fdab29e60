//! The store: every book of the library under its identifier.

use vstd::prelude::*;

use crate::models::{Book, BookView};

verus! {

/// The mapping that a sequence of books stands for: each book under its own
/// identifier, a later book replacing an earlier one with the same identifier.
spec fn catalogue(books: Seq<BookView>) -> Map<Seq<char>, BookView>
    decreases books.len(),
{
    if books.len() == 0 {
        Map::empty()
    } else {
        catalogue(books.drop_last()).insert(books.last().id, books.last())
    }
}

/// No two books of the sequence share an identifier.
pub open spec fn distinct_ids(books: Seq<BookView>) -> bool {
    forall|i: int, j: int| 0 <= i < j < books.len() ==> books[i].id != books[j].id
}

/// Some book of the sequence carries the identifier `id`.
spec fn has_id(books: Seq<BookView>, id: Seq<char>) -> bool {
    exists|i: int| 0 <= i < books.len() && (#[trigger] books[i]).id == id
}

/// `books` is a listing of `shelf`: it holds every entry of the mapping
/// exactly once, in some order.
pub open spec fn lists(books: Seq<BookView>, shelf: Map<Seq<char>, BookView>) -> bool {
    &&& distinct_ids(books)
    &&& shelf.dom().finite()
    &&& books.len() == shelf.len()
    &&& forall|i: int|
        0 <= i < books.len() ==> shelf.contains_key((#[trigger] books[i]).id) && shelf[books[i].id]
            == books[i]
}

/// The views of a sequence of books, in the same order.
pub open spec fn book_views(books: Seq<Book>) -> Seq<BookView> {
    books.map_values(|b: Book| b@)
}

/// The keys of a catalogue are the identifiers of its books, there are
/// finitely many of them, and each key leads to a book with that identifier.
proof fn lemma_catalogue_keys(books: Seq<BookView>)
    ensures
        catalogue(books).dom().finite(),
        forall|id: Seq<char>| #[trigger] catalogue(books).contains_key(id) <==> has_id(books, id),
        forall|id: Seq<char>| #[trigger]
            catalogue(books).contains_key(id) ==> catalogue(books)[id].id == id,
    decreases books.len(),
{
    if books.len() > 0 {
        let front = books.drop_last();
        lemma_catalogue_keys(front);
        assert forall|id: Seq<char>| #[trigger]
            catalogue(books).contains_key(id) <==> has_id(books, id) by {
            if has_id(books, id) {
                let i = choose|i: int| 0 <= i < books.len() && (#[trigger] books[i]).id == id;
                if i < front.len() {
                    assert(front[i].id == id);
                    assert(has_id(front, id));
                }
            }
            if catalogue(books).contains_key(id) {
                if id == books.last().id {
                    assert(books[books.len() - 1].id == id);
                } else {
                    assert(has_id(front, id));
                    let i = choose|i: int| 0 <= i < front.len() && (#[trigger] front[i]).id == id;
                    assert(books[i].id == id);
                }
            }
        }
    }
}

/// In a sequence without a repeated identifier, every book is the one that
/// the catalogue holds under its identifier.
proof fn lemma_catalogue_entry(books: Seq<BookView>, i: int)
    requires
        distinct_ids(books),
        0 <= i < books.len(),
    ensures
        catalogue(books).contains_key(books[i].id),
        catalogue(books)[books[i].id] == books[i],
    decreases books.len(),
{
    let front = books.drop_last();
    if i < front.len() {
        assert(front[i] == books[i]);
        lemma_catalogue_entry(front, i);
    }
}

/// A sequence without a repeated identifier has as many books as its
/// catalogue has entries.
proof fn lemma_catalogue_len(books: Seq<BookView>)
    requires
        distinct_ids(books),
    ensures
        catalogue(books).dom().finite(),
        catalogue(books).len() == books.len(),
    decreases books.len(),
{
    lemma_catalogue_keys(books);
    if books.len() > 0 {
        let front = books.drop_last();
        lemma_catalogue_keys(front);
        lemma_catalogue_len(front);
        if has_id(front, books.last().id) {
            let i = choose|i: int| 0 <= i < front.len() && (#[trigger] front[i]).id == books.last().id;
            assert(books[i].id == books[books.len() - 1].id);
        }
    }
}

/// Putting a book with a new identifier at the end of a sequence inserts it
/// into the catalogue and keeps the identifiers distinct.
proof fn lemma_push(books: Seq<BookView>, book: BookView)
    requires
        distinct_ids(books),
        !has_id(books, book.id),
    ensures
        distinct_ids(books.push(book)),
        catalogue(books.push(book)) == catalogue(books).insert(book.id, book),
{
    let longer = books.push(book);
    assert(longer.drop_last() == books);
    assert forall|i: int, j: int| 0 <= i < j < longer.len() implies longer[i].id
        != longer[j].id by {
        if j == books.len() {
            assert(books[i].id != book.id);
        }
    }
}

/// Replacing a book by one with the same identifier replaces the entry of
/// the catalogue and keeps the identifiers distinct.
proof fn lemma_replace(books: Seq<BookView>, at: int, book: BookView)
    requires
        distinct_ids(books),
        0 <= at < books.len(),
        books[at].id == book.id,
    ensures
        distinct_ids(books.update(at, book)),
        catalogue(books.update(at, book)) == catalogue(books).insert(book.id, book),
{
    let changed = books.update(at, book);
    let target = catalogue(books).insert(book.id, book);
    assert(distinct_ids(changed)) by {
        assert forall|i: int, j: int| 0 <= i < j < changed.len() implies changed[i].id
            != changed[j].id by {
            assert(changed[i].id == books[i].id);
            assert(changed[j].id == books[j].id);
        }
    }
    lemma_catalogue_keys(books);
    lemma_catalogue_keys(changed);
    assert forall|id: Seq<char>| catalogue(changed).contains_key(id) <==> target.contains_key(
        id,
    ) by {
        if has_id(changed, id) {
            let i = choose|i: int| 0 <= i < changed.len() && (#[trigger] changed[i]).id == id;
            assert(books[i].id == id);
        }
        if has_id(books, id) {
            let i = choose|i: int| 0 <= i < books.len() && (#[trigger] books[i]).id == id;
            assert(changed[i].id == id);
        }
        if id == book.id {
            assert(changed[at].id == id);
        }
    }
    assert forall|id: Seq<char>| catalogue(changed).contains_key(id) implies catalogue(
        changed,
    )[id] == target[id] by {
        let i = choose|i: int| 0 <= i < changed.len() && (#[trigger] changed[i]).id == id;
        lemma_catalogue_entry(changed, i);
        if i != at {
            assert(books[i].id == id);
            lemma_catalogue_entry(books, i);
        }
    }
    assert(catalogue(changed) =~= target);
}

/// Taking a book out of a sequence without a repeated identifier removes
/// its entry from the catalogue and keeps the identifiers distinct.
proof fn lemma_remove_at(books: Seq<BookView>, at: int)
    requires
        distinct_ids(books),
        0 <= at < books.len(),
    ensures
        distinct_ids(books.remove(at)),
        catalogue(books.remove(at)) == catalogue(books).remove(books[at].id),
{
    let rest = books.remove(at);
    let target = catalogue(books).remove(books[at].id);
    assert(distinct_ids(rest)) by {
        assert forall|i: int, j: int| 0 <= i < j < rest.len() implies rest[i].id
            != rest[j].id by {
            let from_i = if i < at { i } else { i + 1 };
            let from_j = if j < at { j } else { j + 1 };
            assert(rest[i] == books[from_i]);
            assert(rest[j] == books[from_j]);
        }
    }
    lemma_catalogue_keys(books);
    lemma_catalogue_keys(rest);
    assert forall|id: Seq<char>| catalogue(rest).contains_key(id) <==> target.contains_key(
        id,
    ) by {
        if has_id(rest, id) {
            let i = choose|i: int| 0 <= i < rest.len() && (#[trigger] rest[i]).id == id;
            let from = if i < at { i } else { i + 1 };
            assert(rest[i] == books[from]);
            assert(books[from].id == id);
        }
        if has_id(books, id) && id != books[at].id {
            let i = choose|i: int| 0 <= i < books.len() && (#[trigger] books[i]).id == id;
            let to = if i < at { i } else { i - 1 };
            assert(rest[to] == books[i]);
            assert(rest[to].id == id);
        }
    }
    assert forall|id: Seq<char>| catalogue(rest).contains_key(id) implies catalogue(rest)[id]
        == target[id] by {
        let i = choose|i: int| 0 <= i < rest.len() && (#[trigger] rest[i]).id == id;
        let from = if i < at { i } else { i + 1 };
        assert(rest[i] == books[from]);
        lemma_catalogue_entry(rest, i);
        lemma_catalogue_entry(books, from);
    }
    assert(catalogue(rest) =~= target);
}

/// A sequence without a repeated identifier is a listing of its catalogue.
proof fn lemma_lists_own_catalogue(books: Seq<BookView>)
    requires
        distinct_ids(books),
    ensures
        lists(books, catalogue(books)),
{
    lemma_catalogue_len(books);
    assert forall|i: int| 0 <= i < books.len() implies catalogue(books).contains_key(
        (#[trigger] books[i]).id,
    ) && catalogue(books)[books[i].id] == books[i] by {
        lemma_catalogue_entry(books, i);
    }
}

/// The store: a mapping from identifier to book. It starts out empty, is
/// changed only by [`Store::insert`] and [`Store::remove`], and is gone when
/// it is dropped.
///
/// The books are kept one after the other; no two of them share an
/// identifier.
pub struct Store {
    entries: Vec<Book>,
}

impl View for Store {
    type V = Map<Seq<char>, BookView>;

    closed spec fn view(&self) -> Map<Seq<char>, BookView> {
        catalogue(book_views(self.entries@))
    }
}

impl Store {
    #[verifier::type_invariant]
    spec fn ids_are_distinct(&self) -> bool {
        distinct_ids(book_views(self.entries@))
    }

    /// Whatever a store holds, it holds finitely many books, each under its
    /// own identifier.
    pub proof fn lemma_keyed_by_id(self)
        ensures
            self@.dom().finite(),
            forall|id: Seq<char>| #[trigger] self@.contains_key(id) ==> self@[id].id == id,
    {
        lemma_catalogue_keys(book_views(self.entries@));
    }

    /// An empty store.
    pub fn new() -> (store: Self)
        ensures
            store@ == Map::<Seq<char>, BookView>::empty(),
    {
        Store { entries: Vec::new() }
    }

    /// Where the book with identifier `id` is kept, if there is one.
    fn position(&self, id: &String) -> (at: Option<usize>)
        ensures
            match at {
                Some(i) => i < self.entries@.len() && self.entries@[i as int]@.id == id@,
                None => !has_id(book_views(self.entries@), id@),
            },
    {
        let mut i: usize = 0;
        while i < self.entries.len()
            invariant
                i <= self.entries@.len(),
                forall|j: int| 0 <= j < i ==> self.entries@[j]@.id != id@,
            decreases self.entries@.len() - i,
        {
            if self.entries[i].id == *id {
                return Some(i);
            }
            i += 1;
        }
        None
    }

    /// The number of books in the store.
    pub fn len(&self) -> (n: usize)
        ensures
            self@.dom().finite(),
            n == self@.len(),
    {
        proof {
            use_type_invariant(self);
            lemma_catalogue_len(book_views(self.entries@));
        }
        self.entries.len()
    }

    /// Whether the store holds no book.
    pub fn is_empty(&self) -> (empty: bool)
        ensures
            empty == (self@ == Map::<Seq<char>, BookView>::empty()),
    {
        proof {
            use_type_invariant(self);
            lemma_catalogue_len(book_views(self.entries@));
            if self.entries@.len() == 0 {
                assert(self@ =~= Map::<Seq<char>, BookView>::empty());
            }
        }
        self.entries.len() == 0
    }

    /// All the books of the store, each once. The order in which they come
    /// is not part of the contract.
    pub fn list(&self) -> (books: Vec<Book>)
        ensures
            lists(book_views(books@), self@),
    {
        let books = self.entries.clone();
        proof {
            use_type_invariant(self);
            assert(book_views(books@) =~= book_views(self.entries@));
            lemma_lists_own_catalogue(book_views(self.entries@));
        }
        books
    }

    /// Hands the books out for a change; the store is empty until
    /// [`Store::put_back`] returns them.
    fn take_out(&mut self) -> (entries: Vec<Book>)
        ensures
            entries == old(self).entries,
            final(self).entries@.len() == 0,
    {
        let mut entries: Vec<Book> = Vec::new();
        assert(book_views(entries@) =~= Seq::<BookView>::empty());
        std::mem::swap(&mut self.entries, &mut entries);
        entries
    }

    /// Takes the books back after a change.
    fn put_back(&mut self, entries: Vec<Book>)
        requires
            distinct_ids(book_views(entries@)),
        ensures
            final(self).entries == entries,
    {
        let mut entries = entries;
        std::mem::swap(&mut self.entries, &mut entries);
    }

    /// Adds `book` under its identifier, in place of the book that was there
    /// under the same identifier, if there was one. It never fails.
    pub fn insert(&mut self, book: Book)
        ensures
            final(self)@ == old(self)@.insert(book@.id, book@),
    {
        proof {
            use_type_invariant(&*self);
        }
        let ghost before = book_views(self.entries@);
        let at = self.position(&book.id);
        let mut entries = self.take_out();
        match at {
            Some(i) => {
                proof {
                    lemma_replace(before, i as int, book@);
                    assert(book_views(entries@.update(i as int, book)) =~= before.update(
                        i as int,
                        book@,
                    ));
                }
                entries[i] = book;
            },
            None => {
                proof {
                    lemma_push(before, book@);
                    assert(book_views(entries@.push(book)) =~= before.push(book@));
                }
                entries.push(book);
            },
        }
        self.put_back(entries);
    }

    /// The book with identifier `id`, if the store holds one.
    pub fn get(&self, id: &String) -> (found: Option<&Book>)
        ensures
            match found {
                Some(book) => self@.contains_key(id@) && book@ == self@[id@],
                None => !self@.contains_key(id@),
            },
    {
        proof {
            use_type_invariant(self);
            lemma_catalogue_keys(book_views(self.entries@));
        }
        match self.position(id) {
            Some(i) => {
                proof {
                    lemma_catalogue_entry(book_views(self.entries@), i as int);
                }
                Some(&self.entries[i])
            },
            None => None,
        }
    }

    /// Takes the book with identifier `id` out of the store, and says
    /// whether there was one to take out.
    pub fn remove(&mut self, id: &String) -> (removed: bool)
        ensures
            removed == old(self)@.contains_key(id@),
            final(self)@ == old(self)@.remove(id@),
            !removed ==> final(self)@ == old(self)@,
    {
        proof {
            use_type_invariant(&*self);
            lemma_catalogue_keys(book_views(self.entries@));
        }
        let ghost before = book_views(self.entries@);
        match self.position(id) {
            Some(i) => {
                let mut entries = self.take_out();
                proof {
                    lemma_remove_at(before, i as int);
                    assert(book_views(entries@.remove(i as int)) =~= before.remove(i as int));
                }
                entries.remove(i);
                self.put_back(entries);
                true
            },
            None => {
                proof {
                    assert(old(self)@.remove(id@) =~= old(self)@);
                }
                false
            },
        }
    }
}

/// The state that the handlers share: the store of books. It is built once,
/// empty, and handed to every handler; whoever serves requests concurrently
/// keeps it behind one lock and holds that lock for one handler call at a
/// time.
pub struct AppState {
    /// The books, by identifier.
    pub books: Store,
}

impl View for AppState {
    type V = Map<Seq<char>, BookView>;

    open spec fn view(&self) -> Map<Seq<char>, BookView> {
        self.books@
    }
}

impl AppState {
    /// A state with an empty store.
    pub fn new() -> (state: Self)
        ensures
            state@ == Map::<Seq<char>, BookView>::empty(),
    {
        AppState { books: Store::new() }
    }
}

impl Default for AppState {
    fn default() -> (state: Self)
        ensures
            state@ == Map::<Seq<char>, BookView>::empty(),
    {
        AppState::new()
    }
}

} // verus!
