//! The store: an ordered collection of book records and its five operations.

use vstd::prelude::*;
use crate::book::{Book, BookView};
use crate::error::StoreError;
use crate::model::{
    after_create, after_delete, after_update, all_identified, found, has_id, is_first_match,
    lemma_delete_outcome, lemma_delete_push, lemma_first_match_is, lemma_first_match_none, stored,
};

verus! {

/// The values of a sequence of books, in order.
pub open spec fn views(books: Seq<Book>) -> Seq<BookView> {
    books.map_values(|b: Book| b@)
}

/// A record as the store keeps it: a book whose identifier is always there.
struct Record {
    id: usize,
    title: String,
    author: String,
    published_year: i32,
}

impl Record {
    /// The value of the record: that of a book with this identifier.
    spec fn value(self) -> BookView {
        BookView {
            id: Some(self.id as nat),
            title: self.title@,
            author: self.author@,
            published_year: self.published_year as int,
        }
    }

    /// A book with the record's identifier and a copy of its fields.
    fn to_book(&self) -> (book: Book)
        ensures
            book@ == self.value(),
    {
        Book {
            id: Some(self.id),
            title: self.title.clone(),
            author: self.author.clone(),
            published_year: self.published_year,
        }
    }
}

/// The values of a sequence of records, in order.
spec fn values(records: Seq<Record>) -> Seq<BookView> {
    records.map_values(|r: Record| r.value())
}

/// An ordered collection of book records.
///
/// Every record in it carries an identifier. The store hands identifiers out
/// itself and never takes one from a client.
pub struct BookStore {
    records: Vec<Record>,
}

impl View for BookStore {
    type V = Seq<BookView>;

    closed spec fn view(&self) -> Seq<BookView> {
        values(self.records@)
    }
}

impl BookStore {
    /// An empty store.
    pub fn new() -> (store: BookStore)
        ensures
            store@ == Seq::<BookView>::empty(),
    {
        BookStore { records: Vec::new() }
    }

    /// The number of records.
    pub fn len(&self) -> (n: usize)
        ensures
            n == self@.len(),
    {
        self.records.len()
    }

    /// In every state of the store, each record carries an identifier.
    pub proof fn lemma_all_identified(&self)
        ensures
            all_identified(self@),
    {
    }

    /// Stores `book` under the next identifier, at the end of the collection,
    /// and returns the stored record. An identifier that `book` carries is
    /// ignored.
    pub fn create_book(&mut self, book: Book) -> (created: Book)
        requires
            old(self)@.len() < usize::MAX,
        ensures
            final(self)@ == after_create(old(self)@, book@),
            created@ == stored(old(self)@, book@),
    {
        let record = Record {
            id: self.records.len() + 1,
            title: book.title,
            author: book.author,
            published_year: book.published_year,
        };
        let created = record.to_book();
        self.records.push(record);
        created
    }

    /// A copy of every record, in the order of the collection.
    pub fn read_books(&self) -> (listed: Vec<Book>)
        ensures
            views(listed@) == self@,
    {
        let mut listed: Vec<Book> = Vec::new();
        let mut i: usize = 0;
        while i < self.records.len()
            invariant
                i <= self.records@.len(),
                views(listed@) == self@.take(i as int),
            decreases self.records@.len() - i,
        {
            let book = self.records[i].to_book();
            let ghost before = listed@;
            listed.push(book);
            proof {
                assert(views(listed@) =~= views(before).push(book@));
                assert(self@.take(i + 1) =~= self@.take(i as int).push(self@[i as int]));
            }
            i += 1;
        }
        listed
    }

    /// The position of the first record that carries `id`.
    fn position(&self, id: usize) -> (at: Option<usize>)
        ensures
            at matches Some(i) ==> is_first_match(self@, id as nat, i as int),
            at is None ==> !has_id(self@, id as nat),
    {
        let mut i: usize = 0;
        while i < self.records.len()
            invariant
                i <= self.records@.len(),
                forall|j: int| 0 <= j < i ==> (#[trigger] self@[j]).id != Some(id as nat),
            decreases self.records@.len() - i,
        {
            if self.records[i].id == id {
                return Some(i);
            }
            i += 1;
        }
        None
    }

    /// A copy of the first record that carries `id`.
    ///
    /// Fails with `NotFound` exactly when no record carries `id`.
    pub fn read_book(&self, id: usize) -> (outcome: Result<Book, StoreError>)
        ensures
            outcome is Ok <==> has_id(self@, id as nat),
            match outcome {
                Ok(book) => found(self@, id as nat) == Some(book@),
                Err(e) => e == StoreError::NotFound,
            },
    {
        match self.position(id) {
            Some(i) => {
                proof {
                    lemma_first_match_is(self@, id as nat, i as int);
                }
                Ok(self.records[i].to_book())
            },
            None => Err(StoreError::NotFound),
        }
    }

    /// Overwrites title, author and year of the first record that carries
    /// `id` with those of `book`, and returns a copy of the record as it then
    /// stands. The record keeps its identifier, whatever `book` carries.
    ///
    /// Fails with `NotFound` exactly when no record carries `id`; the
    /// collection is then unchanged.
    pub fn update_book(&mut self, id: usize, book: Book) -> (outcome: Result<Book, StoreError>)
        ensures
            outcome is Ok <==> has_id(old(self)@, id as nat),
            final(self)@ == after_update(old(self)@, id as nat, book@),
            match outcome {
                Ok(updated) => updated@ == (BookView { id: Some(id as nat), ..book@ }) && found(
                    final(self)@,
                    id as nat,
                ) == Some(updated@),
                Err(e) => e == StoreError::NotFound && final(self)@ == old(self)@,
            },
    {
        match self.position(id) {
            Some(i) => {
                proof {
                    lemma_first_match_is(self@, id as nat, i as int);
                }
                let record = Record {
                    id: self.records[i].id,
                    title: book.title,
                    author: book.author,
                    published_year: book.published_year,
                };
                let updated = record.to_book();
                self.records.set(i, record);
                proof {
                    assert(self@ == old(self)@.update(i as int, updated@));
                    lemma_first_match_is(self@, id as nat, i as int);
                }
                Ok(updated)
            },
            None => {
                proof {
                    lemma_first_match_none(self@, id as nat);
                }
                Err(StoreError::NotFound)
            },
        }
    }

    /// Removes every record that carries `id`; the others keep their order.
    ///
    /// Fails with `NotFound` exactly when no record carries `id`, which is
    /// when the collection has not become shorter; it is then unchanged.
    pub fn delete_book(&mut self, id: usize) -> (outcome: Result<(), StoreError>)
        ensures
            final(self)@ == after_delete(old(self)@, id as nat),
            outcome is Ok <==> has_id(old(self)@, id as nat),
            outcome is Ok <==> final(self)@.len() < old(self)@.len(),
            outcome is Err ==> outcome == Err::<(), StoreError>(StoreError::NotFound) && final(self)@
                == old(self)@,
            !has_id(final(self)@, id as nat),
    {
        let initial_len = self.records.len();
        let ghost before = self@;
        let mut all: Vec<Record> = Vec::new();
        core::mem::swap(&mut self.records, &mut all);
        for record in it: all.into_iter()
            invariant
                values(it.seq()) == before,
                self@ == after_delete(before.take(it.index() as int), id as nat),
        {
            let ghost i = it.index() as int;
            let ghost kept = self.records@;
            proof {
                assert(before.take(i + 1) =~= before.take(i).push(before[i]));
                lemma_delete_push(before.take(i), before[i], id as nat);
            }
            if record.id != id {
                self.records.push(record);
                proof {
                    assert(values(self.records@) =~= values(kept).push(record.value()));
                }
            }
        }
        proof {
            assert(before.take(before.len() as int) =~= before);
            lemma_delete_outcome(before, id as nat);
        }
        if self.records.len() < initial_len {
            Ok(())
        } else {
            Err(StoreError::NotFound)
        }
    }
}

} // verus!
