//! The book record and its mathematical value.

use vstd::prelude::*;

verus! {

/// The mathematical value of a [`Book`]: the identifier as a natural number,
/// the two texts as sequences of characters, the year as an integer.
pub struct BookView {
    pub id: Option<nat>,
    pub title: Seq<char>,
    pub author: Seq<char>,
    pub published_year: int,
}

/// A book record.
///
/// `id` is absent on a record that a client hands in and present on every
/// record that a store hands out.
#[derive(Debug, PartialEq, Eq)]
pub struct Book {
    pub id: Option<usize>,
    pub title: String,
    pub author: String,
    pub published_year: i32,
}

impl View for Book {
    type V = BookView;

    open spec fn view(&self) -> BookView {
        BookView {
            id: match self.id {
                Some(id) => Some(id as nat),
                None => None,
            },
            title: self.title@,
            author: self.author@,
            published_year: self.published_year as int,
        }
    }
}

impl Clone for Book {
    /// A copy with the same identifier, texts and year.
    fn clone(&self) -> (copy: Book)
        ensures
            copy@ == self@,
            copy.id == self.id,
    {
        Book {
            id: self.id,
            title: self.title.clone(),
            author: self.author.clone(),
            published_year: self.published_year,
        }
    }
}

} // verus!
