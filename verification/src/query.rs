use vstd::prelude::*;

use crate::errors::{is_validation, AppError};
use crate::listing::{
    limited_size, normalize_request, normalized, ListRequest, Page, PageSize, SortDirection,
    SortKey, TimelineSortKey, DEFAULT_PAGE_SIZE,
};
use crate::text::{
    chars_eq, chars_of, eq_ignore_ascii_case, lower_chars, lower_seq, parse_u32, parse_u32_spec,
};

verus! {

/// The page size the timeline uses when the query names none that can be read.
pub const TIMELINE_DEFAULT_PAGE_SIZE: u32 = 20;

/// The `page_size` query parameter: a number, or a text such as "all".
#[derive(Debug, PartialEq, Eq)]
pub enum PageSizeParam {
    Number(u32),
    Text(String),
}

/// The query parameters of a listing page: `page`, `page_size`, `sort` and
/// `dir`.
#[derive(Debug, Default, PartialEq, Eq)]
pub struct ListQuery {
    pub page: Option<u32>,
    pub page_size: Option<PageSizeParam>,
    pub sort_key: Option<String>,
    pub sort_dir: Option<String>,
}

/// The query parameters of the timeline page.
#[derive(Debug, Default, PartialEq, Eq)]
pub struct TimelineQuery {
    pub page: Option<u32>,
    pub page_size: Option<PageSizeParam>,
    pub sort_key: Option<String>,
    pub sort_dir: Option<String>,
}

/// The page size a `page_size` text asks for: "all" in any letter case shows
/// everything, a number is that many items, anything else falls back to the
/// default.
pub open spec fn text_page_size(t: Seq<char>) -> PageSize {
    if lower_seq(t) == "all"@ {
        PageSize::All
    } else {
        match parse_u32_spec(t) {
            Some(v) => limited_size(v),
            None => limited_size(DEFAULT_PAGE_SIZE),
        }
    }
}

/// The direction a `dir` text names, in any letter case.
pub open spec fn text_direction(t: Seq<char>) -> Option<SortDirection> {
    if lower_seq(t) == "asc"@ {
        Some(SortDirection::Asc)
    } else if lower_seq(t) == "desc"@ {
        Some(SortDirection::Desc)
    } else {
        None
    }
}

pub open spec fn requested_page(page: Option<u32>) -> u32 {
    match page {
        Some(p) => p,
        None => 1,
    }
}

pub open spec fn requested_page_size(p: Option<PageSizeParam>, default_page_size: u32) -> PageSize {
    match p {
        Some(PageSizeParam::Number(v)) => limited_size(v),
        Some(PageSizeParam::Text(t)) => text_page_size(t@),
        None => limited_size(if default_page_size == 0 { 1 } else { default_page_size }),
    }
}

pub open spec fn requested_key<K: SortKey>(sort_key: Option<String>) -> K {
    match sort_key {
        Some(s) => match K::parsed_from(s@) {
            Some(k) => k,
            None => K::standard(),
        },
        None => K::standard(),
    }
}

pub open spec fn requested_direction<K: SortKey>(sort_dir: Option<String>, key: K) -> SortDirection {
    match sort_dir {
        Some(d) => match text_direction(d@) {
            Some(dir) => dir,
            None => key.standard_direction(),
        },
        None => key.standard_direction(),
    }
}

/// The listing request that a query asks for.
pub open spec fn list_request_of<K: SortKey>(q: ListQuery, default_page_size: u32) -> ListRequest<K> {
    let key = requested_key::<K>(q.sort_key);
    ListRequest {
        page: requested_page(q.page),
        page_size: requested_page_size(q.page_size, default_page_size),
        sort_key: key,
        sort_direction: requested_direction(q.sort_dir, key),
    }
}

/// The page size the timeline asks for. Unlike other listings, a text that is
/// neither "all" nor a number falls back to the timeline's own default.
pub open spec fn timeline_page_size(p: Option<PageSizeParam>) -> PageSize {
    match p {
        Some(PageSizeParam::Number(v)) => limited_size(v),
        Some(PageSizeParam::Text(t)) => if lower_seq(t@) == "all"@ {
            PageSize::All
        } else {
            match parse_u32_spec(t@) {
                Some(v) => limited_size(v),
                None => limited_size(TIMELINE_DEFAULT_PAGE_SIZE),
            }
        },
        None => limited_size(TIMELINE_DEFAULT_PAGE_SIZE),
    }
}

/// The timeline request that a query asks for.
pub open spec fn timeline_request_of(q: TimelineQuery) -> ListRequest<TimelineSortKey> {
    let key = requested_key::<TimelineSortKey>(q.sort_key);
    ListRequest {
        page: requested_page(q.page),
        page_size: timeline_page_size(q.page_size),
        sort_key: key,
        sort_direction: requested_direction(q.sort_dir, key),
    }
}

/// Reads a `page_size` text.
pub fn page_size_from_text(value: &str) -> (res: PageSize)
    ensures
        res == text_page_size(value@),
{
    let cs = chars_of(value);
    let all = chars_of("all");
    if eq_ignore_ascii_case(cs.as_slice(), all.as_slice()) {
        proof {
            reveal_strlit("all");
            assert(lower_seq("all"@) =~= "all"@);
        }
        PageSize::All
    } else {
        proof {
            reveal_strlit("all");
            assert(lower_seq("all"@) =~= "all"@);
        }
        match parse_u32(cs.as_slice()) {
            Some(parsed) => PageSize::limited(parsed),
            None => PageSize::limited(DEFAULT_PAGE_SIZE),
        }
    }
}

/// Reads a `dir` text.
pub fn parse_direction(value: &str) -> (res: Option<SortDirection>)
    ensures
        res == text_direction(value@),
{
    let lowered = lower_chars(chars_of(value).as_slice());
    let asc = chars_of("asc");
    let desc = chars_of("desc");
    if chars_eq(lowered.as_slice(), asc.as_slice()) {
        Some(SortDirection::Asc)
    } else if chars_eq(lowered.as_slice(), desc.as_slice()) {
        Some(SortDirection::Desc)
    } else {
        None
    }
}

fn sort_key_of<K: SortKey>(sort_key: &Option<String>) -> (res: K)
    ensures
        res == requested_key::<K>(*sort_key),
{
    match sort_key {
        Some(s) => match K::from_query(s.as_str()) {
            Some(k) => k,
            None => K::default_key(),
        },
        None => K::default_key(),
    }
}

fn direction_of<K: SortKey>(sort_dir: &Option<String>, key: &K) -> (res: SortDirection)
    ensures
        res == requested_direction(*sort_dir, *key),
{
    match sort_dir {
        Some(d) => match parse_direction(d.as_str()) {
            Some(dir) => dir,
            None => key.default_direction(),
        },
        None => key.default_direction(),
    }
}

impl ListQuery {
    pub fn into_request<K: SortKey>(self) -> (res: ListRequest<K>)
        ensures
            res == list_request_of::<K>(self, DEFAULT_PAGE_SIZE),
    {
        self.into_request_with_default::<K>(DEFAULT_PAGE_SIZE)
    }

    pub fn into_request_with_default<K: SortKey>(self, default_page_size: u32) -> (res: ListRequest<K>)
        ensures
            res == list_request_of::<K>(self, default_page_size),
    {
        let page = match self.page {
            Some(p) => p,
            None => 1,
        };
        let page_size = match &self.page_size {
            Some(PageSizeParam::Number(value)) => PageSize::limited(*value),
            Some(PageSizeParam::Text(text)) => page_size_from_text(text.as_str()),
            None => PageSize::limited(if default_page_size == 0 { 1 } else { default_page_size }),
        };
        let sort_key: K = sort_key_of(&self.sort_key);
        let sort_direction = direction_of(&self.sort_dir, &sort_key);
        ListRequest::new(page, page_size, sort_key, sort_direction)
    }
}

impl TimelineQuery {
    pub fn to_request(&self) -> (res: ListRequest<TimelineSortKey>)
        ensures
            res == timeline_request_of(*self),
    {
        let page = match self.page {
            Some(p) => p,
            None => 1,
        };
        let page_size = match &self.page_size {
            Some(PageSizeParam::Number(value)) => PageSize::limited(*value),
            Some(PageSizeParam::Text(text)) => {
                let cs = chars_of(text.as_str());
                let all = chars_of("all");
                proof {
                    reveal_strlit("all");
                    assert(lower_seq("all"@) =~= "all"@);
                }
                if eq_ignore_ascii_case(cs.as_slice(), all.as_slice()) {
                    PageSize::All
                } else {
                    match parse_u32(cs.as_slice()) {
                        Some(parsed) => PageSize::limited(parsed),
                        None => PageSize::limited(TIMELINE_DEFAULT_PAGE_SIZE),
                    }
                }
            },
            None => PageSize::limited(TIMELINE_DEFAULT_PAGE_SIZE),
        };
        let sort_key: TimelineSortKey = sort_key_of(&self.sort_key);
        let sort_direction = direction_of(&self.sort_dir, &sort_key);
        ListRequest::new(page, page_size, sort_key, sort_direction)
    }
}

/// The timeline reads its query as any listing does with a default of 20,
/// except for a page size text that is neither "all" nor a number: there the
/// timeline shows 20 items and other listings show the general default.
pub proof fn law_timeline_query_matches_listing(q: TimelineQuery)
    ensures
        ({
            let l = ListQuery {
                page: q.page,
                page_size: q.page_size,
                sort_key: q.sort_key,
                sort_dir: q.sort_dir,
            };
            let unreadable_text = match q.page_size {
                Some(PageSizeParam::Text(t)) => lower_seq(t@) != "all"@ && parse_u32_spec(t@) is None,
                _ => false,
            };
            &&& !unreadable_text ==> timeline_request_of(q) == list_request_of::<TimelineSortKey>(
                l,
                TIMELINE_DEFAULT_PAGE_SIZE,
            )
            &&& unreadable_text ==> timeline_request_of(q).page_size == limited_size(
                TIMELINE_DEFAULT_PAGE_SIZE,
            ) && list_request_of::<TimelineSortKey>(l, TIMELINE_DEFAULT_PAGE_SIZE).page_size
                == limited_size(DEFAULT_PAGE_SIZE)
        }),
{
}

/// Reading the sort direction ignores letter case.
pub proof fn law_direction_ignores_case(t: Seq<char>)
    ensures
        text_direction(t) == text_direction(lower_seq(t)),
        text_page_size(t) is All <==> text_page_size(lower_seq(t)) is All,
{
    assert(lower_seq(lower_seq(t)) =~= lower_seq(t));
}

/// Where a request body came from.
#[derive(Debug, Clone, Copy, PartialEq, Eq, Structural)]
pub enum PayloadSource {
    Json,
    Form,
}

pub open spec fn starts_with(s: Seq<char>, prefix: Seq<char>) -> bool {
    prefix.len() <= s.len() && s.take(prefix.len() as int) == prefix
}

/// How a request body of the given content type is read: JSON for
/// `application/json...`, a form when the type is missing or
/// `application/x-www-form-urlencoded...`, letter case ignored.
pub open spec fn source_for_content_type(content_type: Seq<char>) -> Option<PayloadSource> {
    let ct = lower_seq(content_type);
    if starts_with(ct, "application/json"@) {
        Some(PayloadSource::Json)
    } else if ct.len() == 0 || starts_with(ct, "application/x-www-form-urlencoded"@) {
        Some(PayloadSource::Form)
    } else {
        None
    }
}

fn chars_start_with(s: &[char], prefix: &[char]) -> (res: bool)
    ensures
        res == starts_with(s@, prefix@),
{
    if prefix.len() > s.len() {
        return false;
    }
    let mut i: usize = 0;
    while i < prefix.len()
        invariant
            i <= prefix.len() <= s.len(),
            forall|j: int| 0 <= j < i ==> s@[j] == prefix@[j],
        decreases prefix.len() - i,
    {
        if s[i] != prefix[i] {
            assert(s@.take(prefix.len() as int)[i as int] != prefix@[i as int]);
            return false;
        }
        i = i + 1;
    }
    assert(s@.take(prefix.len() as int) =~= prefix@);
    true
}

impl PayloadSource {
    /// The reader for a request body, from its `Content-Type` header (`None`
    /// when the header is missing or not text).
    pub fn from_content_type(content_type: Option<&str>) -> (res: Result<PayloadSource, AppError>)
        ensures
            ({
                let ct = match content_type {
                    Some(c) => c@,
                    None => Seq::<char>::empty(),
                };
                match source_for_content_type(ct) {
                    Some(s) => res == Ok::<PayloadSource, AppError>(s),
                    None => res matches Err(e) && is_validation(e, "unsupported content type"@),
                }
            }),
    {
        let raw: Vec<char> = match content_type {
            Some(c) => chars_of(c),
            None => Vec::new(),
        };
        let ct = lower_chars(raw.as_slice());
        let json = chars_of("application/json");
        let form = chars_of("application/x-www-form-urlencoded");
        if chars_start_with(ct.as_slice(), json.as_slice()) {
            Ok(PayloadSource::Json)
        } else if ct.len() == 0 || chars_start_with(ct.as_slice(), form.as_slice()) {
            Ok(PayloadSource::Form)
        } else {
            Err(AppError::validation("unsupported content type"))
        }
    }
}

/// A request body read as JSON or as a form, remembering which.
pub struct FlexiblePayload<T> {
    inner: T,
    source: PayloadSource,
}

impl<T> FlexiblePayload<T> {
    /// The body that was read.
    pub closed spec fn content(self) -> T {
        self.inner
    }

    /// How the body was read.
    pub closed spec fn origin(self) -> PayloadSource {
        self.source
    }

    pub fn new(inner: T, source: PayloadSource) -> (res: Self)
        ensures
            res.content() == inner,
            res.origin() == source,
    {
        FlexiblePayload { inner, source }
    }

    pub fn into_parts(self) -> (res: (T, PayloadSource))
        ensures
            res == (self.content(), self.origin()),
    {
        (self.inner, self.source)
    }
}

/// A page of views ready for a template.
pub struct Paginated<V> {
    pub items: Vec<V>,
    pub page: u32,
    pub page_size: u32,
    pub total: u64,
    pub showing_all: bool,
}

/// What a listing template needs to link to other pages of the same listing.
pub struct ListNavigator<K> {
    pub base_path: &'static str,
    pub fragment_path: &'static str,
    pub request: ListRequest<K>,
}

/// Maps the items of a page to views, and pairs them with a navigator for the
/// request that the page answered.
pub fn build_page_view<K: SortKey, T, V, F: Fn(T) -> V>(
    page: Page<T>,
    request: ListRequest<K>,
    view_mapper: F,
    base_path: &'static str,
    fragment_path: &'static str,
) -> (res: (Paginated<V>, ListNavigator<K>))
    requires
        forall|t: T| #[trigger] view_mapper.requires((t,)),
    ensures
        res.0.items@.len() == page.items@.len(),
        forall|i: int|
            0 <= i < page.items@.len() ==> view_mapper.ensures(
                (page.items@[i],),
                #[trigger] res.0.items@[i],
            ),
        res.0.page == page.page,
        res.0.page_size == page.page_size,
        res.0.total == page.total,
        res.0.showing_all == page.showing_all,
        res.1.base_path == base_path,
        res.1.fragment_path == fragment_path,
        res.1.request == normalized(request, page.page, page.page_size, page.showing_all),
{
    let normalized_request = normalize_request(request, &page);
    let Page { items, page: number, page_size, total, showing_all } = page;
    let ghost source = items@;
    let mut views: Vec<V> = Vec::new();
    for item in it: items.into_iter()
        invariant
            it.seq() == source,
            views@.len() == it.index(),
            forall|t: T| #[trigger] view_mapper.requires((t,)),
            forall|j: int|
                0 <= j < it.index() ==> view_mapper.ensures((source[j],), #[trigger] views@[j]),
    {
        views.push(view_mapper(item));
    }
    let view_page = Paginated { items: views, page: number, page_size, total, showing_all };
    let navigator = ListNavigator { base_path, fragment_path, request: normalized_request };
    (view_page, navigator)
}

} // verus!
