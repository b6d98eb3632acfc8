use axum::http::{HeaderMap, HeaderValue};
use brewlog::listing::{PageSize, SortDirection, TimelineSortKey};
use brewlog::query::{
    page_size_from_text, parse_direction, FlexiblePayload, ListQuery, PageSizeParam, PayloadSource,
    TimelineQuery,
};
use brewlog::web::{is_datastar_request, set_datastar_patch_headers};

#[test]
fn is_datastar_request_detects_correctly() {
    let mut headers = HeaderMap::new();
    headers.insert("datastar-request", HeaderValue::from_static("true"));

    assert!(is_datastar_request(&headers));
}

#[test]
fn is_datastar_request_detects_true_flag_case_insensitively() {
    let mut headers = HeaderMap::new();
    headers.insert("datastar-request", HeaderValue::from_static("TrUe"));

    assert!(is_datastar_request(&headers));
}

#[test]
fn is_datastar_request_defaults_to_false() {
    let mut headers = HeaderMap::new();
    headers.insert("datastar-request", HeaderValue::from_static("nope"));

    assert!(!is_datastar_request(&headers));
    assert!(!is_datastar_request(&HeaderMap::new()));
}

#[test]
fn set_datastar_patch_headers_sets_expected_values() {
    let mut headers = HeaderMap::new();

    set_datastar_patch_headers(&mut headers, "body > div");

    assert_eq!(
        headers.get("datastar-selector"),
        Some(&HeaderValue::from_static("body > div"))
    );
    assert_eq!(
        headers.get("datastar-mode"),
        Some(&HeaderValue::from_static("replace"))
    );
}

#[test]
fn datastar_header_with_non_ascii_value_is_not_a_datastar_request() {
    let mut headers = HeaderMap::new();
    headers.insert(
        "datastar-request",
        HeaderValue::from_bytes(b"tr\xffue").unwrap(),
    );
    assert!(!is_datastar_request(&headers));
}

#[test]
fn set_datastar_patch_headers_replaces_previous_values() {
    let mut headers = HeaderMap::new();
    headers.append("datastar-mode", HeaderValue::from_static("inner"));
    headers.append("datastar-mode", HeaderValue::from_static("outer"));
    set_datastar_patch_headers(&mut headers, "#list");
    let modes: Vec<_> = headers.get_all("datastar-mode").iter().collect();
    assert_eq!(modes, vec![&HeaderValue::from_static("replace")]);
    assert_eq!(headers.get("datastar-selector").unwrap(), "#list");
}

#[test]
fn page_size_text_all_is_case_insensitive() {
    assert_eq!(page_size_from_text("all"), PageSize::All);
    assert_eq!(page_size_from_text("ALL"), PageSize::All);
    assert_eq!(page_size_from_text("aLl"), PageSize::All);
}

#[test]
fn page_size_text_number_is_limited() {
    assert_eq!(page_size_from_text("25"), PageSize::Limited(25));
    assert_eq!(page_size_from_text("+7"), PageSize::Limited(7));
    assert_eq!(page_size_from_text("0"), PageSize::Limited(1));
    assert_eq!(page_size_from_text("4294967295"), PageSize::Limited(4294967295));
}

#[test]
fn page_size_text_unreadable_falls_back_to_default() {
    assert_eq!(page_size_from_text("lots"), PageSize::Limited(10));
    assert_eq!(page_size_from_text(""), PageSize::Limited(10));
    assert_eq!(page_size_from_text("-3"), PageSize::Limited(10));
    assert_eq!(page_size_from_text(" 5"), PageSize::Limited(10));
    assert_eq!(page_size_from_text("4294967296"), PageSize::Limited(10));
    assert_eq!(page_size_from_text("+"), PageSize::Limited(10));
}

#[test]
fn parse_direction_reads_both_directions_in_any_case() {
    assert_eq!(parse_direction("asc"), Some(SortDirection::Asc));
    assert_eq!(parse_direction("DESC"), Some(SortDirection::Desc));
    assert_eq!(parse_direction("Desc"), Some(SortDirection::Desc));
    assert_eq!(parse_direction("descending"), None);
    assert_eq!(parse_direction(""), None);
}

#[test]
fn empty_list_query_uses_defaults() {
    let request = ListQuery::default().into_request::<TimelineSortKey>();
    assert_eq!(request.page, 1);
    assert_eq!(request.page_size, PageSize::Limited(10));
    assert_eq!(request.sort_key, TimelineSortKey::OccurredAt);
    assert_eq!(request.sort_direction, SortDirection::Desc);
}

#[test]
fn list_query_reads_every_parameter() {
    let query = ListQuery {
        page: Some(3),
        page_size: Some(PageSizeParam::Text("all".to_string())),
        sort_key: Some("occurred_at".to_string()),
        sort_dir: Some("ASC".to_string()),
    };
    let request = query.into_request::<TimelineSortKey>();
    assert_eq!(request.page, 3);
    assert_eq!(request.page_size, PageSize::All);
    assert_eq!(request.sort_key, TimelineSortKey::OccurredAt);
    assert_eq!(request.sort_direction, SortDirection::Asc);
}

#[test]
fn list_query_default_page_size_is_at_least_one() {
    let request = ListQuery::default().into_request_with_default::<TimelineSortKey>(0);
    assert_eq!(request.page_size, PageSize::Limited(1));
    let request = ListQuery::default().into_request_with_default::<TimelineSortKey>(20);
    assert_eq!(request.page_size, PageSize::Limited(20));
}

#[test]
fn list_query_unknown_sort_and_direction_fall_back() {
    let query = ListQuery {
        page: None,
        page_size: Some(PageSizeParam::Number(0)),
        sort_key: Some("nonsense".to_string()),
        sort_dir: Some("sideways".to_string()),
    };
    let request = query.into_request::<TimelineSortKey>();
    assert_eq!(request.page_size, PageSize::Limited(1));
    assert_eq!(request.sort_key, TimelineSortKey::OccurredAt);
    assert_eq!(request.sort_direction, SortDirection::Desc);
}

#[test]
fn list_query_unreadable_text_ignores_given_default() {
    let query = ListQuery {
        page_size: Some(PageSizeParam::Text("many".to_string())),
        ..ListQuery::default()
    };
    let request = query.into_request_with_default::<TimelineSortKey>(20);
    assert_eq!(request.page_size, PageSize::Limited(10));
}

#[test]
fn timeline_query_defaults_to_twenty() {
    let request = TimelineQuery::default().to_request();
    assert_eq!(request.page, 1);
    assert_eq!(request.page_size, PageSize::Limited(20));
    let query = TimelineQuery {
        page_size: Some(PageSizeParam::Text("many".to_string())),
        ..TimelineQuery::default()
    };
    assert_eq!(query.to_request().page_size, PageSize::Limited(20));
    let query = TimelineQuery {
        page: Some(2),
        page_size: Some(PageSizeParam::Text("All".to_string())),
        sort_dir: Some("asc".to_string()),
        ..TimelineQuery::default()
    };
    let request = query.to_request();
    assert_eq!(request.page, 2);
    assert_eq!(request.page_size, PageSize::All);
    assert_eq!(request.sort_direction, SortDirection::Asc);
}

#[test]
fn content_type_selects_payload_reader() {
    assert_eq!(
        PayloadSource::from_content_type(Some("application/json; charset=utf-8")).unwrap(),
        PayloadSource::Json
    );
    assert_eq!(
        PayloadSource::from_content_type(Some("Application/JSON")).unwrap(),
        PayloadSource::Json
    );
    assert_eq!(
        PayloadSource::from_content_type(Some("application/x-www-form-urlencoded")).unwrap(),
        PayloadSource::Form
    );
    assert_eq!(PayloadSource::from_content_type(None).unwrap(), PayloadSource::Form);
    assert_eq!(PayloadSource::from_content_type(Some("")).unwrap(), PayloadSource::Form);
    let err = PayloadSource::from_content_type(Some("text/plain")).unwrap_err();
    assert_eq!(
        err,
        brewlog::errors::AppError::Validation("unsupported content type".to_string())
    );
}

#[test]
fn flexible_payload_returns_its_parts() {
    let payload = FlexiblePayload::new(7u8, PayloadSource::Form);
    assert_eq!(payload.into_parts(), (7u8, PayloadSource::Form));
}
