use reqkit::errors::RequestError;
use reqkit::fix_sep;
use reqkit::headers::parse_header;
use reqkit::multipart::file_name_of;
use reqkit::multipart::parse_multipart;
use reqkit::query::parse_param;

#[test]
fn api_parse_header_test() {
    let header = "Content-Type: application/json;charset=UTF-8\nAccept: application/json, text/plain, */*\n";
    let header_map = parse_header(header).unwrap();
    assert_eq!(header_map.len(), 2);
    assert_eq!(
        header_map.get("Content-Type").unwrap(),
        "application/json;charset=UTF-8"
    );
    assert_eq!(
        header_map.get("Accept").unwrap(),
        "application/json,text/plain,*/*"
    );
}

#[test]
fn http_parse_header_test() {
    let header = "Content-Type: application/json;charset=UTF-8\nAccept: application/json, text/plain, */*\n";
    let header_map = parse_header(header).unwrap();
    assert_eq!(header_map.len(), 2);
    assert_eq!(
        header_map.get("Content-Type").unwrap(),
        "application/json;charset=UTF-8"
    );
    assert_eq!(
        header_map.get("Accept").unwrap(),
        "application/json,text/plain,*/*"
    );
}

#[test]
fn parse_param_test() {
    let input = "name=John&age=30";
    let params = parse_param(input);
    println!("{:?}", params);
}

#[test]
fn header_block_of_three_lines() {
    let raw = "Host : example.test\r\nAccept: text/plain\nX-Token:abc\n";
    let m = parse_header(raw).unwrap();
    assert_eq!(m.len(), 3);
    assert_eq!(m.get("Host").unwrap(), "example.test");
    assert_eq!(m.get("Accept").unwrap(), "text/plain");
    assert_eq!(m.get("X-Token").unwrap(), "abc");
}

#[test]
fn header_later_line_overwrites_earlier() {
    let m = parse_header("A: 1\nB: 2\nA: 3\n").unwrap();
    assert_eq!(m.len(), 2);
    assert_eq!(m.get("A").unwrap(), "3");
    assert_eq!(m.get("B").unwrap(), "2");
    assert_eq!(m.entry(0), ("A".to_string(), "3".to_string()));
    assert_eq!(m.entry(1), ("B".to_string(), "2".to_string()));
}

#[test]
fn header_value_keeps_text_after_first_colon() {
    let m = parse_header("Referer: https://example.test/x\n").unwrap();
    assert_eq!(m.get("Referer").unwrap(), "https://example.test/x");
}

#[test]
fn header_line_without_colon_fails() {
    assert_eq!(
        parse_header("Accept text/plain\n").unwrap_err(),
        RequestError::BadHeaderLine
    );
}

#[test]
fn header_line_with_empty_name_fails() {
    assert_eq!(
        parse_header(": nameless\n").unwrap_err(),
        RequestError::BadHeaderLine
    );
}

#[test]
fn header_lookup_ignores_ascii_case_of_name() {
    let m = parse_header("content-type: text/plain\n").unwrap();
    assert_eq!(m.get_ci("Content-Type").unwrap(), "text/plain");
    assert!(m.get("Content-Type").is_none());
}

#[test]
fn params_keep_order_and_duplicates() {
    let ps = parse_param("foo=a&foo=b&bar=c").unwrap();
    assert_eq!(
        ps,
        vec![
            ("foo".to_string(), "a".to_string()),
            ("foo".to_string(), "b".to_string()),
            ("bar".to_string(), "c".to_string()),
        ]
    );
}

#[test]
fn param_splits_on_first_equals_only() {
    let ps = parse_param("a=b=c").unwrap();
    assert_eq!(ps, vec![("a".to_string(), "b=c".to_string())]);
}

#[test]
fn param_without_equals_fails() {
    assert_eq!(
        parse_param("name=John&oops").unwrap_err(),
        RequestError::BadQueryPair
    );
}

#[test]
fn multipart_input_is_cleaned_then_split() {
    let s = parse_multipart(" file = /tmp/a.txt \r").unwrap();
    assert_eq!(s.field, "file");
    assert_eq!(s.path, "/tmp/a.txt");
}

#[test]
fn multipart_input_needs_exactly_one_equals() {
    assert_eq!(
        parse_multipart("file").unwrap_err(),
        RequestError::MalformedMultipartSpec
    );
    assert_eq!(
        parse_multipart("=path").unwrap_err(),
        RequestError::MalformedMultipartSpec
    );
    assert_eq!(
        parse_multipart("file=").unwrap_err(),
        RequestError::MalformedMultipartSpec
    );
    assert_eq!(
        parse_multipart("a=b=c").unwrap_err(),
        RequestError::MalformedMultipartSpec
    );
}

#[test]
fn file_name_is_final_path_segment() {
    assert_eq!(file_name_of("/tmp/dir/report.txt"), "report.txt");
    assert_eq!(file_name_of("report.txt"), "report.txt");
}

#[test]
fn fix_sep_replaces_backslashes() {
    assert_eq!(fix_sep("C:\\dev\\proj"), "C:/dev/proj");
    assert_eq!(fix_sep("C:/dev"), "C:/dev");
}
