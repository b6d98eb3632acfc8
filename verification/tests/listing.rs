use brewlog::listing::{
    count_request, normalize_request, show_all_request, ListRequest, Page, PageSize,
    SortDirection, SortKey, TimelineSortKey,
};
use brewlog::query::build_page_view;

fn page_of(items: Vec<u32>, page: u32, page_size: u32, showing_all: bool) -> Page<u32> {
    let total = items.len() as u64;
    Page {
        items,
        page,
        page_size,
        total,
        showing_all,
    }
}

#[test]
fn normalize_takes_page_numbers_from_the_page() {
    let request = ListRequest::new(
        9,
        PageSize::All,
        TimelineSortKey::OccurredAt,
        SortDirection::Asc,
    );
    let page = page_of(vec![1, 2], 2, 5, false);
    let normalized = normalize_request(request, &page);
    assert_eq!(normalized.page, 2);
    assert_eq!(normalized.page_size, PageSize::Limited(5));
    assert_eq!(normalized.sort_direction, SortDirection::Asc);
    assert_eq!(normalized.sort_key, TimelineSortKey::OccurredAt);
}

#[test]
fn normalize_showing_all_and_empty_pages() {
    let request = ListRequest::new(
        1,
        PageSize::Limited(3),
        TimelineSortKey::OccurredAt,
        SortDirection::Desc,
    );
    let page = page_of(vec![1, 2, 3, 4], 1, 4, true);
    assert_eq!(normalize_request(request, &page).page_size, PageSize::All);
    let page = page_of(vec![], 1, 0, false);
    assert_eq!(normalize_request(request, &page).page_size, PageSize::Limited(1));
}

#[test]
fn normalize_is_idempotent() {
    let request = ListRequest::new(
        4,
        PageSize::All,
        TimelineSortKey::OccurredAt,
        SortDirection::Asc,
    );
    let page = page_of(vec![5], 3, 7, false);
    let once = normalize_request(request, &page);
    let twice = normalize_request(once, &page);
    assert_eq!(once, twice);
}

#[test]
fn count_and_show_all_requests_use_key_defaults() {
    let count: ListRequest<TimelineSortKey> = count_request();
    assert_eq!(count.page, 1);
    assert_eq!(count.page_size, PageSize::Limited(1));
    assert_eq!(count.sort_key, TimelineSortKey::default_key());
    assert_eq!(count.sort_direction, SortDirection::Desc);
    let all: ListRequest<TimelineSortKey> = show_all_request();
    assert_eq!(all.page, 1);
    assert_eq!(all.page_size, PageSize::All);
    assert_eq!(all.sort_direction, SortDirection::Desc);
}

#[test]
fn sort_key_reads_its_query_name() {
    assert_eq!(
        TimelineSortKey::from_query("occurred_at"),
        Some(TimelineSortKey::OccurredAt)
    );
    assert_eq!(TimelineSortKey::from_query("Occurred_At"), None);
    assert_eq!(TimelineSortKey::from_query(""), None);
}

#[test]
fn page_size_limited_keeps_at_least_one() {
    assert_eq!(PageSize::limited(0), PageSize::Limited(1));
    assert_eq!(PageSize::limited(30), PageSize::Limited(30));
}

#[test]
fn build_page_view_maps_items_in_order() {
    let request = ListRequest::new(
        1,
        PageSize::Limited(2),
        TimelineSortKey::OccurredAt,
        SortDirection::Desc,
    );
    let page = Page {
        items: vec![3u32, 1, 2],
        page: 2,
        page_size: 3,
        total: 9,
        showing_all: false,
    };
    let (views, navigator) = build_page_view(
        page,
        request,
        |n: u32| format!("item {n}"),
        "/roasts",
        "/roasts#roast-list",
    );
    assert_eq!(views.items, vec!["item 3", "item 1", "item 2"]);
    assert_eq!(views.page, 2);
    assert_eq!(views.page_size, 3);
    assert_eq!(views.total, 9);
    assert!(!views.showing_all);
    assert_eq!(navigator.base_path, "/roasts");
    assert_eq!(navigator.fragment_path, "/roasts#roast-list");
    assert_eq!(navigator.request.page, 2);
    assert_eq!(navigator.request.page_size, PageSize::Limited(3));
}
