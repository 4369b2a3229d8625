use photo_server::http::{content_type, html_content_type, jpeg_content_type, HttpError, STATUS_OK};
use photo_server::names::validate_name;

#[test]
fn http_error_new_keeps_the_detail() {
    assert!(matches!(HttpError::new("disk full".to_string()), HttpError::Error(ref d) if d == "disk full"));
}

#[test]
fn http_error_from_io() {
    assert!(matches!(HttpError::from_io(true, "no such file".to_string()), HttpError::NotFound));
    assert!(matches!(
        HttpError::from_io(false, "permission denied".to_string()),
        HttpError::Error(ref d) if d == "permission denied"
    ));
}

#[test]
fn http_error_status_codes() {
    assert_eq!(HttpError::Invalid.status_code(), 400);
    assert_eq!(HttpError::NotFound.status_code(), 404);
    assert_eq!(HttpError::new("x".to_string()).status_code(), 500);
    assert_eq!(STATUS_OK, 200);
}

#[test]
fn http_error_messages_hide_the_detail() {
    assert_eq!(HttpError::Invalid.message(), "Invalid request");
    assert_eq!(HttpError::NotFound.message(), "Not found");
    assert_eq!(HttpError::new("secret path /srv/photos".to_string()).message(), "Internal error");
}

#[test]
fn http_error_from_dubious_filename() {
    let e = validate_name(b"a b").unwrap_err();
    assert!(matches!(HttpError::from(e), HttpError::Invalid));
}

#[test]
fn missing_thumbnail_source_is_not_found() {
    let e = HttpError::from_io(true, "No such file or directory (os error 2)".to_string());
    assert_eq!(e.status_code(), 404);
    assert_eq!(e.message(), "Not found");
}

#[test]
fn content_type_goes_by_the_extension() {
    assert_eq!(content_type("a.jpg"), Some("image/jpeg"));
    assert_eq!(content_type("a.JPG"), Some("image/jpeg"));
    assert_eq!(content_type("index.html"), Some("text/html"));
    assert_eq!(content_type("README.txt"), Some("text/plain"));
    assert_eq!(content_type("movie.mp4"), None);
    assert_eq!(content_type("jpg"), None);
    assert_eq!(content_type(""), None);
}

#[test]
fn content_types_of_what_the_server_makes() {
    assert_eq!(html_content_type(), "text/html");
    assert_eq!(jpeg_content_type(), "image/jpeg");
}
