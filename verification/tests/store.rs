use crud_books::book::Book;
use crud_books::error::{deleted_message, StoreError};
use crud_books::store::BookStore;

fn input(title: &str, author: &str, year: i32) -> Book {
    Book { id: None, title: title.to_string(), author: author.to_string(), published_year: year }
}

fn book(id: usize, title: &str, author: &str, year: i32) -> Book {
    Book { id: Some(id), title: title.to_string(), author: author.to_string(), published_year: year }
}

fn ids(store: &BookStore) -> Vec<Option<usize>> {
    store.read_books().iter().map(|b| b.id).collect()
}

fn titles(store: &BookStore) -> Vec<String> {
    store.read_books().iter().map(|b| b.title.clone()).collect()
}

#[test]
fn new_store_is_empty() {
    let store = BookStore::new();
    assert_eq!(store.len(), 0);
    assert_eq!(store.read_books(), Vec::<Book>::new());
}

#[test]
fn create_assigns_ids_one_and_two() {
    let mut store = BookStore::new();
    let first = store.create_book(input("A", "x", 1999));
    let second = store.create_book(input("B", "y", 2001));
    assert_eq!(first, book(1, "A", "x", 1999));
    assert_eq!(second, book(2, "B", "y", 2001));
    assert_eq!(store.len(), 2);
}

#[test]
fn create_many_numbers_them_in_order() {
    let mut store = BookStore::new();
    for n in 1..=50usize {
        let created = store.create_book(input(&format!("t{}", n), "a", n as i32));
        assert_eq!(created.id, Some(n));
        assert_eq!(store.len(), n);
    }
    assert_eq!(ids(&store), (1..=50usize).map(Some).collect::<Vec<_>>());
}

#[test]
fn create_ignores_the_id_of_the_input() {
    let mut store = BookStore::new();
    let created = store.create_book(book(77, "A", "x", 1999));
    assert_eq!(created, book(1, "A", "x", 1999));
    assert_eq!(store.read_books(), vec![book(1, "A", "x", 1999)]);
    assert_eq!(store.read_book(77), Err(StoreError::NotFound));
}

#[test]
fn create_accepts_empty_texts_and_any_year() {
    let mut store = BookStore::new();
    let a = store.create_book(input("", "", -44));
    let b = store.create_book(input("far", "future", i32::MAX));
    let c = store.create_book(input("long", "ago", i32::MIN));
    assert_eq!(a, book(1, "", "", -44));
    assert_eq!(b, book(2, "far", "future", i32::MAX));
    assert_eq!(c, book(3, "long", "ago", i32::MIN));
}

#[test]
fn list_reflects_creates_in_order() {
    let mut store = BookStore::new();
    store.create_book(input("A", "x", 1));
    store.create_book(input("B", "y", 2));
    store.create_book(input("C", "z", 3));
    assert_eq!(titles(&store), vec!["A".to_string(), "B".to_string(), "C".to_string()]);
    assert_eq!(
        store.read_books(),
        vec![book(1, "A", "x", 1), book(2, "B", "y", 2), book(3, "C", "z", 3)]
    );
}

#[test]
fn list_is_a_snapshot() {
    let mut store = BookStore::new();
    store.create_book(input("A", "x", 1));
    let mut listed = store.read_books();
    listed[0].title = "changed".to_string();
    listed.push(book(9, "Z", "z", 9));
    assert_eq!(store.read_books(), vec![book(1, "A", "x", 1)]);
}

#[test]
fn get_on_empty_store_is_not_found() {
    let store = BookStore::new();
    assert_eq!(store.read_book(999), Err(StoreError::NotFound));
    assert_eq!(store.read_book(0), Err(StoreError::NotFound));
    assert_eq!(store.read_book(1), Err(StoreError::NotFound));
}

#[test]
fn get_on_non_matching_store_is_not_found() {
    let mut store = BookStore::new();
    store.create_book(input("A", "x", 1));
    store.create_book(input("B", "y", 2));
    assert_eq!(store.read_book(999), Err(StoreError::NotFound));
    assert_eq!(store.read_book(0), Err(StoreError::NotFound));
    assert_eq!(store.read_book(3), Err(StoreError::NotFound));
    assert_eq!(store.read_book(usize::MAX), Err(StoreError::NotFound));
}

#[test]
fn get_returns_the_record() {
    let mut store = BookStore::new();
    store.create_book(input("A", "x", 1));
    store.create_book(input("B", "y", 2));
    assert_eq!(store.read_book(1), Ok(book(1, "A", "x", 1)));
    assert_eq!(store.read_book(2), Ok(book(2, "B", "y", 2)));
}

#[test]
fn round_trip_create_then_get() {
    let mut store = BookStore::new();
    store.create_book(input("A", "x", 1));
    let created = store.create_book(input("Dune", "Herbert", 1965));
    let id = created.id.unwrap();
    assert_eq!(store.read_book(id), Ok(created));
}

#[test]
fn update_changes_fields_and_keeps_id() {
    let mut store = BookStore::new();
    store.create_book(input("A", "x", 1));
    let created = store.create_book(input("Old", "Y", 1990));
    let id = created.id.unwrap();
    let updated = store.update_book(id, input("New", "X", 2020));
    assert_eq!(updated, Ok(book(2, "New", "X", 2020)));
    assert_eq!(store.read_book(id), Ok(book(2, "New", "X", 2020)));
    assert_eq!(store.read_books(), vec![book(1, "A", "x", 1), book(2, "New", "X", 2020)]);
}

#[test]
fn update_ignores_the_id_of_the_input() {
    let mut store = BookStore::new();
    store.create_book(input("A", "x", 1));
    let updated = store.update_book(1, book(42, "New", "X", 2020));
    assert_eq!(updated, Ok(book(1, "New", "X", 2020)));
    assert_eq!(store.read_book(42), Err(StoreError::NotFound));
    assert_eq!(store.read_book(1), Ok(book(1, "New", "X", 2020)));
}

#[test]
fn update_of_absent_id_is_not_found_and_creates_nothing() {
    let mut store = BookStore::new();
    assert_eq!(store.update_book(1, input("New", "X", 2020)), Err(StoreError::NotFound));
    assert_eq!(store.len(), 0);
    store.create_book(input("A", "x", 1));
    assert_eq!(store.update_book(2, input("New", "X", 2020)), Err(StoreError::NotFound));
    assert_eq!(store.read_books(), vec![book(1, "A", "x", 1)]);
}

#[test]
fn delete_succeeds_once_then_not_found() {
    let mut store = BookStore::new();
    store.create_book(input("A", "x", 1));
    store.create_book(input("B", "y", 2));
    assert_eq!(store.delete_book(1), Ok(()));
    assert_eq!(store.read_books(), vec![book(2, "B", "y", 2)]);
    assert_eq!(store.delete_book(1), Err(StoreError::NotFound));
    assert_eq!(store.read_books(), vec![book(2, "B", "y", 2)]);
    assert_eq!(store.read_book(1), Err(StoreError::NotFound));
}

#[test]
fn delete_on_empty_store_is_not_found() {
    let mut store = BookStore::new();
    assert_eq!(store.delete_book(1), Err(StoreError::NotFound));
    assert_eq!(store.len(), 0);
}

#[test]
fn delete_keeps_the_order_of_the_rest() {
    let mut store = BookStore::new();
    for t in ["A", "B", "C", "D", "E"] {
        store.create_book(input(t, "x", 0));
    }
    assert_eq!(store.delete_book(3), Ok(()));
    assert_eq!(titles(&store), vec!["A", "B", "D", "E"]);
    assert_eq!(ids(&store), vec![Some(1), Some(2), Some(4), Some(5)]);
}

#[test]
fn ids_collide_after_a_removal() {
    let mut store = BookStore::new();
    store.create_book(input("A", "x", 1));
    store.create_book(input("B", "y", 2));
    store.create_book(input("C", "z", 3));
    assert_eq!(store.delete_book(2), Ok(()));
    let again = store.create_book(input("D", "w", 4));
    assert_eq!(again, book(3, "D", "w", 4));
    assert_eq!(ids(&store), vec![Some(1), Some(3), Some(3)]);
    // A lookup takes the first record that carries the identifier.
    assert_eq!(store.read_book(3), Ok(book(3, "C", "z", 3)));
}

#[test]
fn update_takes_the_first_of_colliding_ids() {
    let mut store = BookStore::new();
    store.create_book(input("A", "x", 1));
    store.create_book(input("B", "y", 2));
    store.create_book(input("C", "z", 3));
    store.delete_book(2).unwrap();
    store.create_book(input("D", "w", 4));
    assert_eq!(store.update_book(3, input("New", "X", 2020)), Ok(book(3, "New", "X", 2020)));
    assert_eq!(
        store.read_books(),
        vec![book(1, "A", "x", 1), book(3, "New", "X", 2020), book(3, "D", "w", 4)]
    );
}

#[test]
fn delete_removes_every_record_with_the_id() {
    let mut store = BookStore::new();
    store.create_book(input("A", "x", 1));
    store.create_book(input("B", "y", 2));
    store.create_book(input("C", "z", 3));
    store.delete_book(2).unwrap();
    store.create_book(input("D", "w", 4));
    assert_eq!(store.delete_book(3), Ok(()));
    assert_eq!(store.read_books(), vec![book(1, "A", "x", 1)]);
    assert_eq!(store.delete_book(3), Err(StoreError::NotFound));
    let next = store.create_book(input("E", "v", 5));
    assert_eq!(next.id, Some(2));
}

#[test]
fn book_clone_is_equal() {
    let b = book(5, "A", "x", 1999);
    assert_eq!(b.clone(), b);
    let c = input("", "", -1);
    assert_eq!(c.clone(), c);
}

#[test]
fn not_found_is_reported_as_404_with_its_text() {
    assert_eq!(StoreError::NotFound.status_code(), 404);
    assert_eq!(StoreError::NotFound.message(), "Book not found");
}

#[test]
fn removal_is_confirmed_with_its_text() {
    assert_eq!(deleted_message(), "Book deleted successfully");
}

#[test]
fn creates_in_any_order_lose_nothing() {
    let names = ["A", "B", "C", "D"];
    let orders: [[usize; 4]; 4] = [[0, 1, 2, 3], [3, 2, 1, 0], [2, 0, 3, 1], [1, 3, 0, 2]];
    for order in orders {
        let mut store = BookStore::new();
        for k in order {
            store.create_book(input(names[k], "x", k as i32));
        }
        assert_eq!(store.len(), 4);
        assert_eq!(ids(&store), vec![Some(1), Some(2), Some(3), Some(4)]);
        let expected: Vec<String> = order.iter().map(|k| names[*k].to_string()).collect();
        assert_eq!(titles(&store), expected);
        let mut sorted = titles(&store);
        sorted.sort();
        assert_eq!(sorted, vec!["A", "B", "C", "D"]);
    }
}

#[test]
fn creates_behind_a_lock_lose_nothing() {
    let shared = std::sync::Mutex::new(BookStore::new());
    for n in 1..=20usize {
        let mut store = shared.lock().unwrap();
        let created = store.create_book(input(&format!("t{}", n), "a", 2000));
        assert_eq!(created.id, Some(n));
    }
    let store = shared.lock().unwrap();
    assert_eq!(store.len(), 20);
    assert_eq!(ids(&store), (1..=20usize).map(Some).collect::<Vec<_>>());
}
