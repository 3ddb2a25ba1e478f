//! Query parameters and answers shared by the endpoints.
use vstd::prelude::*;
use crate::aion::response::{ListAllItemsResponse, SimpleDisplay};
use crate::clock::UtcTime;

verus! {

/// Paging parameters of a listing: the page number and the page size.
pub struct ListAllItemsQuery {
    page: i64,
    per_page: i64,
}

impl ListAllItemsQuery {
    /// The page number.
    pub closed spec fn page_spec(&self) -> i64 {
        self.page
    }

    /// The page size.
    pub closed spec fn per_page_spec(&self) -> i64 {
        self.per_page
    }

    /// The parameters for a page number and page size.
    pub fn new(page: i64, per_page: i64) -> (r: ListAllItemsQuery)
        ensures
            r.page_spec() == page,
            r.per_page_spec() == per_page,
    {
        ListAllItemsQuery { page, per_page }
    }

    /// The page number.
    pub fn page(&self) -> (r: i64)
        ensures
            r == self.page_spec(),
    {
        self.page
    }

    /// The page size.
    pub fn per_page(&self) -> (r: i64)
        ensures
            r == self.per_page_spec(),
    {
        self.per_page
    }

    /// The row offset and row limit of the page: `page * per_page` rows
    /// are skipped and `per_page` rows are taken. The product must fit in
    /// an `i64` (the listing computes it with plain multiplication).
    pub fn offset_limit(&self) -> (r: (i64, i64))
        requires
            i64::MIN <= self.page_spec() * self.per_page_spec() <= i64::MAX,
        ensures
            r.0 == self.page_spec() * self.per_page_spec(),
            r.0 == page_offset(self.page_spec() as int, self.per_page_spec() as int),
            r.1 == self.per_page_spec(),
    {
        (self.page * self.per_page, self.per_page)
    }
}

/// The number of rows before page `page` of pages of `per_page` rows.
pub open spec fn page_offset(page: int, per_page: int) -> int {
    page * per_page
}

/// Pages follow one another without gap or overlap: page 0 starts at the
/// first row, and each page starts where the one before it ends.
pub proof fn lemma_pages_follow(page: int, per_page: int)
    ensures
        page_offset(0, per_page) == 0,
        page_offset(page + 1, per_page) == page_offset(page, per_page) + per_page,
{
    assert((page + 1) * per_page == page * per_page + per_page) by (nonlinear_arith);
}

/// Selects the item with an id.
pub struct IdQuery {
    pub id: i32,
}

/// Selects the items that carry a tag.
pub struct TagsQuery {
    pub tag: String,
}

/// Selects the items of an instant.
pub struct TimeQuery {
    pub time: UtcTime,
}

/// The distinct authors of the stored items.
pub struct AuthorsResponse {
    pub author: Vec<String>,
}

/// The ids of served items, in order.
pub fn item_ids(items: &Vec<ListAllItemsResponse>) -> (r: Vec<i32>)
    ensures
        r@ == items@.map_values(|e: ListAllItemsResponse| e.id),
{
    let mut r: Vec<i32> = Vec::new();
    let mut i: usize = 0;
    while i < items.len()
        invariant
            i <= items.len(),
            r@ == items@.take(i as int).map_values(|e: ListAllItemsResponse| e.id),
        decreases items.len() - i,
    {
        r.push(items[i].id);
        assert(items@.take(i + 1) == items@.take(i as int).push(items@[i as int]));
        i = i + 1;
    }
    assert(items@.take(items.len() as int) == items@);
    r
}

/// The short forms of served items, in order.
pub fn simple_displays(items: Vec<ListAllItemsResponse>) -> (r: Vec<SimpleDisplay>)
    ensures
        r.len() == items.len(),
        forall|i: int|
            0 <= i < r.len() ==> (#[trigger] r@[i]).title@ == items@[i].title@ && r@[i].introduce@
                == items@[i].introduce@ && r@[i].url@ == items@[i].url@,
{
    let ghost orig = items@;
    let mut rest = items;
    let mut r: Vec<SimpleDisplay> = Vec::new();
    while rest.len() > 0
        invariant
            r.len() + rest.len() == orig.len(),
            rest@ == orig.skip(r.len() as int),
            forall|i: int|
                0 <= i < r.len() ==> (#[trigger] r@[i]).title@ == orig[i].title@ && r@[i].introduce@
                    == orig[i].introduce@ && r@[i].url@ == orig[i].url@,
        decreases rest.len(),
    {
        let item = rest.remove(0);
        assert(orig[r.len() as int] == item);
        assert(orig.skip(r.len() + 1) == orig.skip(r.len() as int).drop_first());
        r.push(SimpleDisplay::from(item));
    }
    r
}

} // verus!
