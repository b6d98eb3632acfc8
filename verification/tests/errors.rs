use brewlog::errors::{map_app_error, ApiError, AppError, ErrorResponse, RepositoryError};

#[test]
fn error_response_keeps_message() {
    assert_eq!(ErrorResponse::new("boom").message, "boom");
}

#[test]
fn constructors_build_expected_variants() {
    assert_eq!(
        AppError::validation("bad"),
        AppError::Validation("bad".to_string())
    );
    assert_eq!(
        AppError::unexpected("oops"),
        AppError::Unexpected("oops".to_string())
    );
}

#[test]
fn status_codes_follow_error_kind() {
    assert_eq!(map_app_error(AppError::validation("x")), 400);
    assert_eq!(map_app_error(AppError::Conflict("x".to_string())), 409);
    assert_eq!(map_app_error(AppError::NotFound), 404);
    assert_eq!(map_app_error(AppError::unexpected("x")), 500);
}

#[test]
fn response_parts_hide_unexpected_details() {
    let (status, body) = ApiError::from(AppError::unexpected("db exploded")).into_response_parts();
    assert_eq!(status, 500);
    assert_eq!(body.message, "unexpected error");
}

#[test]
fn response_parts_keep_client_messages() {
    let (status, body) = ApiError::from(AppError::validation("name is required")).into_response_parts();
    assert_eq!(status, 400);
    assert_eq!(body.message, "name is required");
    let (status, body) = ApiError::from(AppError::Conflict("exists".to_string())).into_response_parts();
    assert_eq!(status, 409);
    assert_eq!(body.message, "exists");
    let (status, body) = ApiError::from(AppError::NotFound).into_response_parts();
    assert_eq!(status, 404);
    assert_eq!(body.message, "entity not found");
}

#[test]
fn response_status_agrees_with_map_app_error() {
    for err in [
        AppError::validation("a"),
        AppError::Conflict("b".to_string()),
        AppError::NotFound,
        AppError::unexpected("c"),
    ] {
        let expected = map_app_error(err.clone_for_test());
        assert_eq!(ApiError::from(err).into_response_parts().0, expected);
    }
}

trait CloneForTest {
    fn clone_for_test(&self) -> Self;
}

impl CloneForTest for AppError {
    fn clone_for_test(&self) -> Self {
        match self {
            AppError::Validation(m) => AppError::Validation(m.clone()),
            AppError::Conflict(m) => AppError::Conflict(m.clone()),
            AppError::NotFound => AppError::NotFound,
            AppError::Unexpected(m) => AppError::Unexpected(m.clone()),
        }
    }
}

#[test]
fn repository_errors_convert_by_kind() {
    assert_eq!(AppError::from(RepositoryError::NotFound), AppError::NotFound);
    assert_eq!(
        AppError::from(RepositoryError::Conflict("dup".to_string())),
        AppError::Conflict("dup".to_string())
    );
    assert_eq!(
        AppError::from(RepositoryError::Unexpected("io".to_string())),
        AppError::Unexpected("io".to_string())
    );
}

#[test]
fn errors_display_their_kind_and_message() {
    assert_eq!(AppError::validation("name is required").display_text(), "validation failed: name is required");
    assert_eq!(AppError::unexpected("db down").display_text(), "unexpected error: db down");
    assert_eq!(AppError::Conflict("duplicate".to_string()).display_text(), "conflict: duplicate");
    assert_eq!(AppError::NotFound.display_text(), "entity not found");
}
