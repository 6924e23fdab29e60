use book_library::{
    create_book, create_book_with_id, delete_book, get_book_by_id, get_books, store_unavailable,
    AppState, Body, Book, CreateBook, Response, StatusCode,
};

fn payload(title: &str, author: &str, year: Option<u16>) -> CreateBook {
    CreateBook { title: title.to_string(), author: author.to_string(), year }
}

fn book_of(reply: Response) -> Book {
    match reply.body {
        Body::Book(book) => book,
        other => panic!("expected one book, got {:?}", other),
    }
}

fn books_of(reply: Response) -> Vec<Book> {
    match reply.body {
        Body::Books(books) => books,
        other => panic!("expected a list of books, got {:?}", other),
    }
}

fn is_empty_body(reply: &Response) -> bool {
    matches!(reply.body, Body::Empty)
}

#[test]
fn create_replies_created_with_the_submitted_fields() {
    let mut state = AppState::new();
    let reply = create_book(&mut state, payload("Dune", "Herbert", Some(1965)));
    assert_eq!(reply.status, StatusCode::Created);
    assert_eq!(reply.status.as_u16(), 201);
    let book = book_of(reply);
    assert_eq!(book.title, "Dune");
    assert_eq!(book.author, "Herbert");
    assert_eq!(book.year, Some(1965));
    assert!(!book.id.is_empty());
}

#[test]
fn create_keeps_an_absent_year_absent() {
    let mut state = AppState::new();
    let book = book_of(create_book(&mut state, payload("Emma", "Austen", None)));
    assert_eq!(book.year, None);
    let found = book_of(get_book_by_id(&state, book.id.clone()));
    assert_eq!(found.year, None);
}

#[test]
fn create_accepts_empty_title_and_author() {
    let mut state = AppState::new();
    let reply = create_book(&mut state, payload("", "", Some(0)));
    assert_eq!(reply.status, StatusCode::Created);
    let book = book_of(reply);
    assert_eq!(book.title, "");
    assert_eq!(book.author, "");
    assert_eq!(book.year, Some(0));
    assert_eq!(state.books.len(), 1);
}

#[test]
fn repeated_creates_give_different_identifiers() {
    let mut state = AppState::new();
    let first = book_of(create_book(&mut state, payload("Dune", "Herbert", Some(1965))));
    let second = book_of(create_book(&mut state, payload("Dune", "Herbert", Some(1965))));
    let third = book_of(create_book(&mut state, payload("Emma", "Austen", Some(1815))));
    assert_ne!(first.id, second.id);
    assert_ne!(first.id, third.id);
    assert_ne!(second.id, third.id);
    assert_eq!(state.books.len(), 3);
}

#[test]
fn created_book_is_found_under_its_identifier() {
    let mut state = AppState::new();
    let created = book_of(create_book(&mut state, payload("Dune", "Herbert", Some(1965))));
    let reply = get_book_by_id(&state, created.id.clone());
    assert_eq!(reply.status, StatusCode::Okay);
    assert_eq!(reply.status.as_u16(), 200);
    let found = book_of(reply);
    assert_eq!(found.id, created.id);
    assert_eq!(found.title, "Dune");
    assert_eq!(found.author, "Herbert");
    assert_eq!(found.year, Some(1965));
}

#[test]
fn created_book_is_found_among_others() {
    let mut state = AppState::new();
    let first = book_of(create_book(&mut state, payload("Dune", "Herbert", Some(1965))));
    let second = book_of(create_book(&mut state, payload("Emma", "Austen", Some(1815))));
    let found_first = book_of(get_book_by_id(&state, first.id.clone()));
    let found_second = book_of(get_book_by_id(&state, second.id.clone()));
    assert_eq!(found_first.title, "Dune");
    assert_eq!(found_second.title, "Emma");
    assert_eq!(found_second.author, "Austen");
    assert_eq!(found_second.year, Some(1815));
}

#[test]
fn unknown_identifier_is_not_found() {
    let mut state = AppState::new();
    let reply = get_book_by_id(&state, "no-such-book".to_string());
    assert_eq!(reply.status, StatusCode::NotFound);
    assert_eq!(reply.status.as_u16(), 404);
    assert!(is_empty_body(&reply));

    create_book(&mut state, payload("Dune", "Herbert", Some(1965)));
    let reply = get_book_by_id(&state, "00000000-0000-0000-0000-000000000000".to_string());
    assert_eq!(reply.status, StatusCode::NotFound);
    assert!(is_empty_body(&reply));
    let reply = get_book_by_id(&state, String::new());
    assert_eq!(reply.status, StatusCode::NotFound);
    assert!(is_empty_body(&reply));
}

#[test]
fn identifier_is_matched_letter_for_letter() {
    let mut state = AppState::new();
    let created = book_of(create_book(&mut state, payload("Dune", "Herbert", Some(1965))));
    let upper = created.id.to_uppercase();
    if upper != created.id {
        assert_eq!(get_book_by_id(&state, upper).status, StatusCode::NotFound);
    }
    let braced = format!("{{{}}}", created.id);
    assert_eq!(get_book_by_id(&state, braced).status, StatusCode::NotFound);
    let bare: String = created.id.chars().filter(|c| *c != '-').collect();
    assert_eq!(delete_book(&mut state, bare).status, StatusCode::NotFound);
    assert_eq!(state.books.len(), 1);
}

#[test]
fn deleted_book_is_no_longer_found() {
    let mut state = AppState::new();
    let created = book_of(create_book(&mut state, payload("Dune", "Herbert", Some(1965))));
    let reply = delete_book(&mut state, created.id.clone());
    assert_eq!(reply.status, StatusCode::NoContent);
    assert_eq!(reply.status.as_u16(), 204);
    assert!(is_empty_body(&reply));
    let reply = get_book_by_id(&state, created.id.clone());
    assert_eq!(reply.status, StatusCode::NotFound);
    assert!(is_empty_body(&reply));
}

#[test]
fn deleting_twice_finds_nothing_the_second_time() {
    let mut state = AppState::new();
    let created = book_of(create_book(&mut state, payload("Dune", "Herbert", Some(1965))));
    assert_eq!(delete_book(&mut state, created.id.clone()).status, StatusCode::NoContent);
    let again = delete_book(&mut state, created.id.clone());
    assert_eq!(again.status, StatusCode::NotFound);
    assert!(is_empty_body(&again));
}

#[test]
fn deleting_an_unknown_identifier_changes_nothing() {
    let mut state = AppState::new();
    let first = book_of(create_book(&mut state, payload("Dune", "Herbert", Some(1965))));
    let second = book_of(create_book(&mut state, payload("Emma", "Austen", Some(1815))));
    assert_eq!(state.books.len(), 2);
    let reply = delete_book(&mut state, "no-such-book".to_string());
    assert_eq!(reply.status, StatusCode::NotFound);
    assert!(is_empty_body(&reply));
    assert_eq!(state.books.len(), 2);
    assert_eq!(books_of(get_books(&state)).len(), 2);
    assert_eq!(book_of(get_book_by_id(&state, first.id)).title, "Dune");
    assert_eq!(book_of(get_book_by_id(&state, second.id)).title, "Emma");
}

#[test]
fn deleting_from_an_empty_store_is_not_found() {
    let mut state = AppState::new();
    let reply = delete_book(&mut state, "anything".to_string());
    assert_eq!(reply.status, StatusCode::NotFound);
    assert!(is_empty_body(&reply));
    assert!(state.books.is_empty());
}

#[test]
fn deleting_one_book_keeps_the_others() {
    let mut state = AppState::new();
    let first = book_of(create_book(&mut state, payload("Dune", "Herbert", Some(1965))));
    let second = book_of(create_book(&mut state, payload("Emma", "Austen", Some(1815))));
    let third = book_of(create_book(&mut state, payload("Ulysses", "Joyce", Some(1922))));
    assert_eq!(delete_book(&mut state, second.id.clone()).status, StatusCode::NoContent);
    assert_eq!(book_of(get_book_by_id(&state, first.id)).title, "Dune");
    assert_eq!(book_of(get_book_by_id(&state, third.id)).title, "Ulysses");
    assert_eq!(get_book_by_id(&state, second.id).status, StatusCode::NotFound);
    let mut titles: Vec<String> = books_of(get_books(&state)).into_iter().map(|b| b.title).collect();
    titles.sort();
    assert_eq!(titles, vec!["Dune".to_string(), "Ulysses".to_string()]);
}

#[test]
fn list_of_an_empty_store_is_empty() {
    let state = AppState::new();
    let reply = get_books(&state);
    assert_eq!(reply.status, StatusCode::Okay);
    assert!(books_of(reply).is_empty());
}

#[test]
fn list_holds_every_book_once() {
    let mut state = AppState::new();
    let first = book_of(create_book(&mut state, payload("Dune", "Herbert", Some(1965))));
    let second = book_of(create_book(&mut state, payload("Emma", "Austen", None)));
    let reply = get_books(&state);
    assert_eq!(reply.status, StatusCode::Okay);
    let mut listed = books_of(reply);
    assert_eq!(listed.len(), 2);
    listed.sort_by(|a, b| a.title.cmp(&b.title));
    assert_eq!(listed[0].id, first.id);
    assert_eq!(listed[0].title, "Dune");
    assert_eq!(listed[0].author, "Herbert");
    assert_eq!(listed[0].year, Some(1965));
    assert_eq!(listed[1].id, second.id);
    assert_eq!(listed[1].title, "Emma");
    assert_eq!(listed[1].author, "Austen");
    assert_eq!(listed[1].year, None);
}

#[test]
fn list_length_is_creates_less_deletes_that_found_their_book() {
    let mut state = AppState::new();
    let mut created: Vec<String> = Vec::new();
    let mut creates = 0usize;
    let mut deletes = 0usize;
    for round in 0..6u16 {
        let book = book_of(create_book(&mut state, payload("Title", "Author", Some(round))));
        created.push(book.id);
        creates += 1;
        assert_eq!(books_of(get_books(&state)).len(), creates - deletes);
        if round % 2 == 1 {
            let id = created[(round / 2) as usize].clone();
            if delete_book(&mut state, id.clone()).status == StatusCode::NoContent {
                deletes += 1;
            }
            assert_eq!(delete_book(&mut state, id).status, StatusCode::NotFound);
            assert_eq!(delete_book(&mut state, "unknown".to_string()).status, StatusCode::NotFound);
        }
        assert_eq!(get_book_by_id(&state, "unknown".to_string()).status, StatusCode::NotFound);
        assert_eq!(books_of(get_books(&state)).len(), creates - deletes);
    }
    assert_eq!(creates, 6);
    assert_eq!(deletes, 3);
    assert_eq!(books_of(get_books(&state)).len(), 3);
    assert_eq!(state.books.len(), 3);
}

#[test]
fn dune_is_created_listed_deleted_and_gone() {
    let mut state = AppState::new();
    let reply = create_book(&mut state, payload("Dune", "Herbert", Some(1965)));
    assert_eq!(reply.status.as_u16(), 201);
    let created = book_of(reply);
    assert!(!created.id.is_empty());
    assert_eq!(created.title, "Dune");
    assert_eq!(created.author, "Herbert");
    assert_eq!(created.year, Some(1965));

    let listed = books_of(get_books(&state));
    assert_eq!(listed.len(), 1);
    assert_eq!(listed[0].id, created.id);
    assert_eq!(listed[0].title, "Dune");
    assert_eq!(listed[0].author, "Herbert");
    assert_eq!(listed[0].year, Some(1965));

    let reply = delete_book(&mut state, created.id.clone());
    assert_eq!(reply.status.as_u16(), 204);
    assert!(is_empty_body(&reply));

    let reply = get_books(&state);
    assert_eq!(reply.status.as_u16(), 200);
    assert!(books_of(reply).is_empty());
}

#[test]
fn create_with_id_uses_the_identifier_it_is_given() {
    let mut state = AppState::new();
    let reply =
        create_book_with_id(&mut state, "book-1".to_string(), payload("Dune", "Herbert", Some(1965)));
    assert_eq!(reply.status, StatusCode::Created);
    let book = book_of(reply);
    assert_eq!(book.id, "book-1");
    assert_eq!(book.title, "Dune");
    assert_eq!(book.author, "Herbert");
    assert_eq!(book.year, Some(1965));
    assert_eq!(book_of(get_book_by_id(&state, "book-1".to_string())).title, "Dune");
}

#[test]
fn create_with_a_used_identifier_replaces_the_book() {
    let mut state = AppState::new();
    create_book_with_id(&mut state, "book-1".to_string(), payload("Dune", "Herbert", Some(1965)));
    create_book_with_id(&mut state, "book-2".to_string(), payload("Emma", "Austen", Some(1815)));
    let reply =
        create_book_with_id(&mut state, "book-1".to_string(), payload("Ulysses", "Joyce", None));
    assert_eq!(reply.status, StatusCode::Created);
    assert_eq!(book_of(reply).title, "Ulysses");
    assert_eq!(books_of(get_books(&state)).len(), 2);
    let found = book_of(get_book_by_id(&state, "book-1".to_string()));
    assert_eq!(found.title, "Ulysses");
    assert_eq!(found.author, "Joyce");
    assert_eq!(found.year, None);
    assert_eq!(book_of(get_book_by_id(&state, "book-2".to_string())).title, "Emma");
}

#[test]
fn unreachable_store_costs_one_request() {
    let reply = store_unavailable();
    assert_eq!(reply.status, StatusCode::InternalServerError);
    assert_eq!(reply.status.as_u16(), 500);
    assert!(is_empty_body(&reply));
}

#[test]
fn statuses_have_their_numbers() {
    assert_eq!(StatusCode::Okay.as_u16(), 200);
    assert_eq!(StatusCode::Created.as_u16(), 201);
    assert_eq!(StatusCode::NoContent.as_u16(), 204);
    assert_eq!(StatusCode::NotFound.as_u16(), 404);
    assert_eq!(StatusCode::InternalServerError.as_u16(), 500);
}

#[test]
fn default_state_is_empty() {
    let state = AppState::default();
    assert!(state.books.is_empty());
    assert_eq!(state.books.len(), 0);
    assert!(books_of(get_books(&state)).is_empty());
}
