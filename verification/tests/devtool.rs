use kestrelc::devtool::{content_type_header, reply_for, reply_status, reply_text, route, run_panic_message, Reply, RequestMethod, Route};

#[test]
fn routes() {
    assert_eq!(route(RequestMethod::Get, "/"), Route::Index);
    assert_eq!(route(RequestMethod::Post, "/run"), Route::Run);
    assert_eq!(route(RequestMethod::Get, "/run"), Route::NotFound);
    assert_eq!(route(RequestMethod::Post, "/"), Route::NotFound);
    assert_eq!(route(RequestMethod::Get, "/index.html"), Route::NotFound);
    assert_eq!(route(RequestMethod::Head, "/"), Route::NotFound);
    assert_eq!(route(RequestMethod::Post, "/runs"), Route::NotFound);
}

#[test]
fn replies() {
    assert_eq!(reply_for(Route::Index, false), Reply::Page);
    assert_eq!(reply_for(Route::Run, true), Reply::RunOutcome);
    assert_eq!(reply_for(Route::Run, false), Reply::BadRequest);
    assert_eq!(reply_for(Route::NotFound, true), Reply::NotFound);
    assert_eq!(reply_status(Reply::Page), 200);
    assert_eq!(reply_status(Reply::RunOutcome), 200);
    assert_eq!(reply_status(Reply::BadRequest), 400);
    assert_eq!(reply_status(Reply::NotFound), 404);
    assert_eq!(reply_text(Reply::BadRequest), Some("bad request body"));
    assert_eq!(reply_text(Reply::NotFound), Some("not found"));
    assert_eq!(reply_text(Reply::Page), None);
}

#[test]
fn content_type_headers() {
    let h = content_type_header(Reply::Page).unwrap();
    assert!(h.field.equiv("Content-Type"));
    assert_eq!(h.value.as_str(), "text/html; charset=utf-8");
    let h = content_type_header(Reply::RunOutcome).unwrap();
    assert_eq!(h.value.as_str(), "application/json");
    assert!(content_type_header(Reply::NotFound).is_none());
    assert!(content_type_header(Reply::BadRequest).is_none());
}

#[test]
fn run_panic_messages() {
    assert_eq!(run_panic_message(Some("oops".to_string()), Some("x".to_string())), "oops");
    assert_eq!(run_panic_message(None, None), "kestrelc-devtool: internal error (unknown panic)");
}
