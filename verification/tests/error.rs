use quote_server::error::AppError;

#[test]
fn not_found_names_the_id() {
    assert_eq!(
        AppError::not_found("deadbeef"),
        AppError::NotFound("Quote with id deadbeef not found".to_string())
    );
    assert_eq!(AppError::not_found(""), AppError::NotFound("Quote with id  not found".to_string()));
}

#[test]
fn each_failure_has_its_status() {
    assert_eq!(AppError::NotFound("m".to_string()).status_code(), 404);
    assert_eq!(AppError::InternalError("m".to_string()).status_code(), 500);
    assert_eq!(AppError::Database("m".to_string()).status_code(), 500);
    assert_eq!(AppError::InvalidInput("m".to_string()).status_code(), 400);
    assert_eq!(AppError::Unauthorized.status_code(), 401);
}

#[test]
fn response_carries_status_and_message() {
    assert_eq!(AppError::NotFound("gone".to_string()).into_response(), (404, "gone".to_string()));
    assert_eq!(
        AppError::InternalError("broken".to_string()).into_response(),
        (500, "broken".to_string())
    );
    assert_eq!(
        AppError::Database("no such table".to_string()).into_response(),
        (500, "no such table".to_string())
    );
    assert_eq!(AppError::InvalidInput("bad".to_string()).into_response(), (400, "bad".to_string()));
    assert_eq!(AppError::Unauthorized.into_response(), (401, "Unauthorized".to_string()));
}

#[test]
fn failure_is_written_with_its_category() {
    assert_eq!(AppError::NotFound("gone".to_string()).to_string(), "Not Found: gone");
    assert_eq!(AppError::InternalError("broken".to_string()).to_string(), "Internal Error: broken");
    assert_eq!(AppError::Database("locked".to_string()).to_string(), "Database Error: locked");
    assert_eq!(AppError::InvalidInput("bad".to_string()).to_string(), "Invalid Input: bad");
    assert_eq!(AppError::Unauthorized.to_string(), "Unauthorized");
}
