use zed_http::backend::{response_directory, response_file_name_for, uri_basename, uri_to_path};

#[test]
fn uri_to_path_of_file_url() {
    assert_eq!(uri_to_path("file:///work/api/requests.http"), Some("/work/api/requests.http".to_string()));
    assert_eq!(uri_to_path("file:///work/my%20api/a.http"), Some("/work/my api/a.http".to_string()));
    assert_eq!(uri_to_path("not a url"), None);
    assert_eq!(uri_to_path("https://example.com/a.http"), None);
}

#[test]
fn uri_basename_is_the_file_stem() {
    assert_eq!(uri_basename("file:///work/api/requests.http"), Some("requests".to_string()));
    assert_eq!(uri_basename("file:///work/api/archive.tar.gz"), Some("archive.tar".to_string()));
    assert_eq!(uri_basename("file:///work/.env"), Some(".env".to_string()));
    assert_eq!(uri_basename("file:///"), None);
    assert_eq!(uri_basename("nonsense"), None);
}

#[test]
fn response_directory_is_the_parent() {
    assert_eq!(response_directory("file:///work/api/requests.http"), Some("/work/api".to_string()));
    assert_eq!(response_directory("file:///"), None);
    assert_eq!(response_directory("nonsense"), None);
}

#[test]
fn response_file_name_for_a_document() {
    assert_eq!(
        response_file_name_for("file:///work/api/requests.http", 7, "20240102-030405", "resp"),
        "requests-line7-20240102-030405.resp"
    );
    assert_eq!(
        response_file_name_for("untitled:Untitled-1", 0, "t", "http-resp"),
        "response-line0-t.http-resp"
    );
    assert_eq!(response_file_name_for("%%", 3, "s", "resp"), "response-line3-s.resp");
}
