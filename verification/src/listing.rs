use vstd::prelude::*;

use crate::text::{chars_eq, chars_of};

verus! {

/// The page size used when a listing query names none that can be read.
pub const DEFAULT_PAGE_SIZE: u32 = 10;

/// Order of a listing.
#[derive(Debug, Clone, Copy, PartialEq, Eq, Structural)]
pub enum SortDirection {
    Asc,
    Desc,
}

/// How many items one page of a listing holds.
#[derive(Debug, Clone, Copy, PartialEq, Eq, Structural)]
pub enum PageSize {
    Limited(u32),
    All,
}

/// The page size for a requested number of items: a page holds at least one.
pub open spec fn limited_size(size: u32) -> PageSize {
    PageSize::Limited(if size == 0 { 1 } else { size })
}

impl PageSize {
    pub fn limited(size: u32) -> (res: Self)
        ensures
            res == limited_size(size),
    {
        PageSize::Limited(if size == 0 { 1 } else { size })
    }
}

/// A key that a listing can be sorted by, read from the `sort` query
/// parameter.
pub trait SortKey: Sized + Copy {
    /// The key that a query text names, if any.
    spec fn parsed_from(q: Seq<char>) -> Option<Self>;

    /// The key used when the query names none.
    spec fn standard() -> Self;

    /// The direction used with this key when the query names none.
    spec fn standard_direction(self) -> SortDirection;

    fn from_query(q: &str) -> (res: Option<Self>)
        ensures
            res == Self::parsed_from(q@),
    ;

    fn default_key() -> (res: Self)
        ensures
            res == Self::standard(),
    ;

    fn default_direction(&self) -> (res: SortDirection)
        ensures
            res == self.standard_direction(),
    ;
}

/// Sort keys of the timeline.
#[derive(Debug, Clone, Copy, PartialEq, Eq, Structural)]
pub enum TimelineSortKey {
    OccurredAt,
}

impl SortKey for TimelineSortKey {
    open spec fn parsed_from(q: Seq<char>) -> Option<Self> {
        if q == "occurred_at"@ {
            Some(TimelineSortKey::OccurredAt)
        } else {
            None
        }
    }

    open spec fn standard() -> Self {
        TimelineSortKey::OccurredAt
    }

    open spec fn standard_direction(self) -> SortDirection {
        SortDirection::Desc
    }

    fn from_query(q: &str) -> (res: Option<Self>) {
        let text = chars_of(q);
        let key = chars_of("occurred_at");
        if chars_eq(text.as_slice(), key.as_slice()) {
            Some(TimelineSortKey::OccurredAt)
        } else {
            None
        }
    }

    fn default_key() -> (res: Self) {
        TimelineSortKey::OccurredAt
    }

    fn default_direction(&self) -> (res: SortDirection) {
        SortDirection::Desc
    }
}

/// A request for one page of a sorted listing.
#[derive(Debug, Clone, Copy, PartialEq, Eq)]
pub struct ListRequest<K> {
    pub page: u32,
    pub page_size: PageSize,
    pub sort_key: K,
    pub sort_direction: SortDirection,
}

impl<K: SortKey> ListRequest<K> {
    pub fn new(page: u32, page_size: PageSize, sort_key: K, sort_direction: SortDirection) -> (res:
        Self)
        ensures
            res == (ListRequest { page, page_size, sort_key, sort_direction }),
    {
        ListRequest { page, page_size, sort_key, sort_direction }
    }

    /// The first page of a listing that shows every item.
    pub fn show_all(sort_key: K, sort_direction: SortDirection) -> (res: Self)
        ensures
            res == (ListRequest { page: 1, page_size: PageSize::All, sort_key, sort_direction }),
    {
        ListRequest { page: 1, page_size: PageSize::All, sort_key, sort_direction }
    }

    pub fn sort_key(&self) -> (res: K)
        ensures
            res == self.sort_key,
    {
        self.sort_key
    }

    pub fn sort_direction(&self) -> (res: SortDirection)
        ensures
            res == self.sort_direction,
    {
        self.sort_direction
    }
}

/// One page of a listing, as a repository returns it.
pub struct Page<T> {
    pub items: Vec<T>,
    pub page: u32,
    pub page_size: u32,
    pub total: u64,
    pub showing_all: bool,
}

/// The request that one page of a listing answered, whatever was asked for:
/// the page number and size are taken from the page itself.
pub open spec fn normalized<K>(request: ListRequest<K>, page: u32, page_size: u32, showing_all: bool) -> ListRequest<K> {
    ListRequest {
        page,
        page_size: if showing_all { PageSize::All } else { limited_size(page_size) },
        sort_key: request.sort_key,
        sort_direction: request.sort_direction,
    }
}

/// The request that `page` answered, keeping the sort order of `request`.
pub fn normalize_request<K: SortKey, T>(request: ListRequest<K>, page: &Page<T>) -> (res: ListRequest<K>)
    ensures
        res == normalized(request, page.page, page.page_size, page.showing_all),
{
    let page_size = if page.showing_all {
        PageSize::All
    } else {
        PageSize::limited(page.page_size)
    };
    ListRequest::new(page.page, page_size, request.sort_key(), request.sort_direction())
}

/// A request for page 1 holding a single item, in the key's default order: its
/// answer carries the total count of a listing.
pub fn count_request<K: SortKey>() -> (res: ListRequest<K>)
    ensures
        res == (ListRequest {
            page: 1,
            page_size: PageSize::Limited(1),
            sort_key: K::standard(),
            sort_direction: K::standard().standard_direction(),
        }),
{
    let key = K::default_key();
    ListRequest::new(1, PageSize::limited(1), key, key.default_direction())
}

/// A request for every item, in the key's default order.
pub fn show_all_request<K: SortKey>() -> (res: ListRequest<K>)
    ensures
        res == (ListRequest {
            page: 1,
            page_size: PageSize::All,
            sort_key: K::standard(),
            sort_direction: K::standard().standard_direction(),
        }),
{
    let key = K::default_key();
    ListRequest::show_all(key, key.default_direction())
}

/// Normalising a request a second time against the same page changes
/// nothing, and normalising never changes the sort order.
pub proof fn law_normalize_idempotent<K>(
    request: ListRequest<K>,
    page: u32,
    page_size: u32,
    showing_all: bool,
)
    ensures
        normalized(normalized(request, page, page_size, showing_all), page, page_size, showing_all)
            == normalized(request, page, page_size, showing_all),
        normalized(request, page, page_size, showing_all).sort_key == request.sort_key,
        normalized(request, page, page_size, showing_all).sort_direction
            == request.sort_direction,
        normalized(request, page, page_size, showing_all).page_size != PageSize::Limited(0),
{
}

} // verus!
