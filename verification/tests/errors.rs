use forum::error::AppError;

#[test]
fn error_statuses_and_messages() {
    let cases = [
        (AppError::NotFound, 404, "Not found."),
        (AppError::BadRequest("Bad title.".into()), 400, "Bad title."),
        (AppError::Unauthorized, 401, "Please log in."),
        (AppError::Forbidden, 403, "Forbidden."),
        (AppError::Internal("db down".into()), 500, "Internal server error."),
    ];
    for (e, status, message) in cases {
        assert_eq!(e.status(), status);
        assert_eq!(e.message(), message);
    }
}

#[test]
fn error_page_escapes_its_message() {
    let page = AppError::BadRequest("<b>\"x\" & y</b>".into()).page();
    assert_eq!(
        page,
        "<!DOCTYPE html><html><head><meta charset=\"utf-8\"><title>400</title></head><body><p>&lt;b&gt;&quot;x&quot; &amp; y&lt;/b&gt;</p></body></html>"
    );
    let page = AppError::Internal("secret detail".into()).page();
    assert!(!page.contains("secret"));
    assert!(page.contains("<title>500</title>"));
}
