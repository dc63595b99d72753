use personal_website::errors::{
    Reply, STATUS_BAD_REQUEST, STATUS_INTERNAL_SERVER_ERROR, STATUS_NOT_FOUND, STATUS_OK,
};
use personal_website::AppError;

fn reply(error: AppError) -> (u16, String) {
    let Reply { status, body } = error.into_response();
    (status, body)
}

#[test]
fn status_codes() {
    assert_eq!(STATUS_OK, 200);
    assert_eq!(STATUS_BAD_REQUEST, 400);
    assert_eq!(STATUS_NOT_FOUND, 404);
    assert_eq!(STATUS_INTERNAL_SERVER_ERROR, 500);
}

#[test]
fn faults_are_answered_without_their_detail() {
    let detail = "connection refused at 10.0.0.7".to_string();
    assert_eq!(
        reply(AppError::Database(detail.clone())),
        (500, "Internal server error".to_string())
    );
    assert_eq!(
        reply(AppError::Migration(detail.clone())),
        (500, "Internal server error".to_string())
    );
    assert_eq!(
        reply(AppError::Template(detail.clone())),
        (500, "Internal server error".to_string())
    );
    assert_eq!(reply(AppError::Config(detail)), (500, "Configuration error".to_string()));
    assert_eq!(reply(AppError::Internal), (500, "Internal server error".to_string()));
}

#[test]
fn caller_errors_echo_their_message() {
    assert_eq!(
        reply(AppError::NotFound("Project 'x' not found".to_string())),
        (404, "Project 'x' not found".to_string())
    );
    assert_eq!(
        reply(AppError::Validation("limit must not be negative".to_string())),
        (400, "limit must not be negative".to_string())
    );
}

#[test]
fn messages_name_the_kind_and_the_detail() {
    assert_eq!(AppError::Database("d".to_string()).message(), "Database error: d");
    assert_eq!(AppError::Migration("m".to_string()).message(), "Migration error: m");
    assert_eq!(AppError::Template("t".to_string()).message(), "Template error: t");
    assert_eq!(AppError::Config("c".to_string()).message(), "Configuration error: c");
    assert_eq!(AppError::NotFound("n".to_string()).message(), "Not found: n");
    assert_eq!(AppError::Validation("v".to_string()).message(), "Validation error: v");
    assert_eq!(AppError::Internal.message(), "Internal server error");
    assert_eq!(AppError::Database(String::new()).message(), "Database error: ");
}
