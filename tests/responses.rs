use hall_of_fame::{generate_response, handle_errors, HallError, Status};

#[test]
fn status_codes() {
    assert_eq!(Status::Success.as_u16(), 200);
    assert_eq!(Status::Created.as_u16(), 201);
    assert_eq!(Status::NoContent.as_u16(), 204);
    assert_eq!(Status::BadRequest.as_u16(), 400);
    assert_eq!(Status::Forbidden.as_u16(), 403);
    assert_eq!(Status::InternalServerError.as_u16(), 500);
}

#[test]
fn hall_error_codes_and_messages() {
    assert_eq!(HallError::Failed.as_u16(), 500);
    assert_eq!(HallError::BadRequest.as_u16(), 400);
    assert_eq!(HallError::Failed.as_code(), Status::InternalServerError);
    assert_eq!(HallError::Failed.message(), "The requested operation failed, please try again.");
    assert_eq!(
        HallError::BadRequest.message(),
        "Your request was malformed, please modify it and try again."
    );
}

#[test]
fn generated_response_keeps_message_and_status() {
    let r = generate_response("Invalid key", Status::Forbidden);
    assert_eq!(r.status, Status::Forbidden);
    assert_eq!(r.code(), 403);
    assert_eq!(r.message, "Invalid key");
}

#[test]
fn rejections_become_generic_messages() {
    let r = handle_errors(Status::InternalServerError).unwrap();
    assert_eq!(r.code(), 500);
    assert_eq!(r.message, "The requested operation failed, please try again.");
    let r = handle_errors(Status::BadRequest).unwrap();
    assert_eq!(r.code(), 400);
    assert_eq!(r.message, "Your request was malformed, please modify it and try again.");
    assert!(handle_errors(Status::Forbidden).is_none());
    assert!(handle_errors(Status::Success).is_none());
}
