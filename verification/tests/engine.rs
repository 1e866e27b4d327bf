use reqkit::body::BodyPayload;
use reqkit::dispatch::attach_file;
use reqkit::dispatch::plan_request;
use reqkit::dispatch::Method;
use reqkit::dispatch::Plan;
use reqkit::dispatch::RequestIntent;
use reqkit::errors::RequestError;
use reqkit::multipart::load_attachment;
use reqkit::multipart::FileProbe;
use reqkit::multipart::MultipartSpec;
use reqkit::outcome::normalize;
use reqkit::outcome::FailureKind;
use reqkit::outcome::TransportOutcome;
use reqkit::storage::Setting;
use reqkit::storage::TreeNode;

fn intent(method: &str, url: &str, header: &str, input: &str) -> RequestIntent {
    RequestIntent {
        method: method.to_string(),
        url: url.to_string(),
        header: header.to_string(),
        input: input.to_string(),
    }
}

fn ready(r: Result<Plan, RequestError>) -> reqkit::dispatch::OutboundRequest {
    match r.unwrap() {
        Plan::Ready(req) => req,
        Plan::Upload(_) => panic!("expected a ready request"),
    }
}

#[test]
fn get_with_accept_header_and_no_query() {
    let i = intent(
        "GET",
        "https://example.test/items",
        "Accept: application/json\n",
        "",
    );
    let req = ready(plan_request(&i));
    assert_eq!(req.method, Method::Get);
    assert_eq!(req.url, "https://example.test/items");
    assert_eq!(req.headers.len(), 1);
    assert_eq!(req.headers.get("Accept").unwrap(), "application/json");
    assert!(req.query.is_empty());
    assert!(matches!(req.body, BodyPayload::NoBody));
    assert_eq!(req.timeout_secs, 30);
    let out = normalize(TransportOutcome::Success("the response text".to_string()));
    assert_eq!(out.unwrap(), "the response text");
}

#[test]
fn get_with_input_carries_query_parameters() {
    let i = intent("GET", "https://example.test", "", "name=John&age=30");
    let req = ready(plan_request(&i));
    assert_eq!(
        req.query,
        vec![
            ("name".to_string(), "John".to_string()),
            ("age".to_string(), "30".to_string()),
        ]
    );
    assert!(matches!(req.body, BodyPayload::NoBody));
}

#[test]
fn delete_routes_like_get() {
    let i = intent("DELETE", "https://example.test/items/1", "", "force=yes");
    let req = ready(plan_request(&i));
    assert_eq!(req.method, Method::Delete);
    assert_eq!(req.query, vec![("force".to_string(), "yes".to_string())]);
}

#[test]
fn post_json_body_round_trips() {
    let raw = "{ \"name\" : \"John\", \"tags\" : [1, 2, 3] }";
    let i = intent(
        "POST",
        "https://example.test",
        "Content-Type: application/json\n",
        raw,
    );
    let req = ready(plan_request(&i));
    let sent = match req.body {
        BodyPayload::Json(t) => t,
        _ => panic!("expected a JSON body"),
    };
    let original: serde_json::Value = serde_json::from_str(raw).unwrap();
    let decoded: serde_json::Value = serde_json::from_str(&sent).unwrap();
    assert_eq!(decoded, original);
}

#[test]
fn post_json_payload_is_canonical() {
    let i = intent(
        "POST",
        "https://example.test",
        "Content-Type: application/json\n",
        "{ \"a\" : 1 }",
    );
    let req = ready(plan_request(&i));
    match req.body {
        BodyPayload::Json(t) => assert_eq!(t, "{\"a\":1}"),
        _ => panic!("expected a JSON body"),
    }
}

#[test]
fn post_empty_json_body_builds_bodyless_request() {
    let i = intent(
        "POST",
        "https://example.test",
        "Content-Type: application/json\n",
        "",
    );
    let req = ready(plan_request(&i));
    assert!(matches!(req.body, BodyPayload::NoBody));
}

#[test]
fn post_empty_body_fails_for_other_content_types() {
    for ct in [
        "Content-Type: application/x-www-form-urlencoded\n",
        "Content-Type: multipart/form-data\n",
        "Content-Type: text/plain\n",
    ] {
        let i = intent("POST", "https://example.test", ct, "");
        assert_eq!(plan_request(&i).unwrap_err(), RequestError::EmptyBody);
    }
}

#[test]
fn post_bad_json_fails_before_any_transport() {
    let i = intent(
        "POST",
        "https://example.test",
        "Content-Type: application/json\n",
        "{bad json",
    );
    assert_eq!(plan_request(&i).unwrap_err(), RequestError::InvalidJson);
}

#[test]
fn post_form_body_carries_pairs() {
    let i = intent(
        "PUT",
        "https://example.test",
        "Content-Type: application/x-www-form-urlencoded\n",
        "a=1&b=2",
    );
    let req = ready(plan_request(&i));
    assert_eq!(req.method, Method::Put);
    match req.body {
        BodyPayload::Form(ps) => assert_eq!(
            ps,
            vec![
                ("a".to_string(), "1".to_string()),
                ("b".to_string(), "2".to_string()),
            ]
        ),
        _ => panic!("expected a form body"),
    }
}

#[test]
fn patch_unknown_content_type_sends_raw_body() {
    let i = intent(
        "PATCH",
        "https://example.test",
        "Content-Type: text/plain\n",
        "raw payload",
    );
    let req = ready(plan_request(&i));
    assert_eq!(req.method, Method::Patch);
    match req.body {
        BodyPayload::Raw(t) => assert_eq!(t, "raw payload"),
        _ => panic!("expected a raw body"),
    }
}

#[test]
fn content_type_name_is_found_whatever_its_case() {
    let i = intent(
        "POST",
        "https://example.test",
        "content-type: application/json\n",
        "{\"ok\":true}",
    );
    let req = ready(plan_request(&i));
    assert!(matches!(req.body, BodyPayload::Json(_)));
}

#[test]
fn content_type_parameters_are_ignored_for_routing() {
    let i = intent(
        "POST",
        "https://example.test",
        "Content-Type: application/json;charset=UTF-8\n",
        "{\"ok\":true}",
    );
    let req = ready(plan_request(&i));
    assert!(matches!(req.body, BodyPayload::Json(_)));
    assert_eq!(
        req.headers.get("Content-Type").unwrap(),
        "application/json;charset=UTF-8"
    );
}

#[test]
fn post_without_content_type_fails() {
    let i = intent("POST", "https://example.test", "Accept: a/b\n", "x");
    assert_eq!(
        plan_request(&i).unwrap_err(),
        RequestError::MissingContentType
    );
}

#[test]
fn multipart_missing_file_fails_with_file_not_found() {
    let i = intent(
        "POST",
        "https://example.test",
        "Content-Type: multipart/form-data\n",
        "file=/no/such/path",
    );
    let pending = match plan_request(&i).unwrap() {
        Plan::Upload(u) => u,
        Plan::Ready(_) => panic!("expected a pending upload"),
    };
    assert_eq!(pending.path, "/no/such/path");
    assert_eq!(pending.field, "file");
    assert!(pending.headers.get_ci("Content-Type").is_none());
    let probe = FileProbe {
        exists: false,
        is_file: false,
        content: None,
    };
    let err = attach_file(pending, probe).unwrap_err();
    assert_eq!(err, RequestError::FileNotFound("/no/such/path".to_string()));
    assert!(err.message().contains("/no/such/path"));
}

#[test]
fn multipart_directory_fails_with_not_a_file() {
    let spec = MultipartSpec {
        field: "file".to_string(),
        path: "/tmp/somedir".to_string(),
    };
    let probe = FileProbe {
        exists: true,
        is_file: false,
        content: None,
    };
    assert_eq!(
        load_attachment(spec, probe).unwrap_err(),
        RequestError::NotAFile("/tmp/somedir".to_string())
    );
}

#[test]
fn multipart_empty_file_fails_with_empty_file() {
    let spec = MultipartSpec {
        field: "file".to_string(),
        path: "/tmp/zero.bin".to_string(),
    };
    let probe = FileProbe {
        exists: true,
        is_file: true,
        content: Some(Vec::new()),
    };
    assert_eq!(
        load_attachment(spec, probe).unwrap_err(),
        RequestError::EmptyFile("/tmp/zero.bin".to_string())
    );
}

#[test]
fn multipart_unreadable_file_fails_with_unreadable() {
    let spec = MultipartSpec {
        field: "file".to_string(),
        path: "/tmp/locked".to_string(),
    };
    let probe = FileProbe {
        exists: true,
        is_file: true,
        content: None,
    };
    assert_eq!(
        load_attachment(spec, probe).unwrap_err(),
        RequestError::UnreadableFile("/tmp/locked".to_string())
    );
}

#[test]
fn multipart_loads_named_part() {
    let spec = MultipartSpec {
        field: "upload".to_string(),
        path: "/tmp/dir/report.txt".to_string(),
    };
    let probe = FileProbe {
        exists: true,
        is_file: true,
        content: Some(vec![1, 2, 3]),
    };
    let part = load_attachment(spec, probe).unwrap();
    assert_eq!(part.field, "upload");
    assert_eq!(part.file_name, "report.txt");
    assert_eq!(part.content, vec![1, 2, 3]);
}

#[test]
fn unreachable_host_is_classified_as_network_unreachable() {
    let err = normalize(TransportOutcome::Failure(FailureKind::Connect)).unwrap_err();
    assert_eq!(err, RequestError::NetworkUnreachable);
    assert_ne!(err, RequestError::OtherFailure);
    assert_eq!(err.message(), "network unreachable");
}

#[test]
fn timeout_and_other_failures_are_classified() {
    assert_eq!(
        normalize(TransportOutcome::Failure(FailureKind::Timeout)).unwrap_err(),
        RequestError::TimedOut
    );
    assert_eq!(
        normalize(TransportOutcome::Failure(FailureKind::Other))
            .unwrap_err()
            .message(),
        "other failure"
    );
}

#[test]
fn trace_method_is_unsupported_and_named() {
    let i = intent("TRACE", "https://example.test", "", "");
    let err = plan_request(&i).unwrap_err();
    assert_eq!(err, RequestError::UnsupportedMethod("TRACE".to_string()));
    assert!(err.message().contains("TRACE"));
}

#[test]
fn identical_intents_dispatch_identically() {
    let make = || {
        intent(
            "POST",
            "https://example.test",
            "Content-Type: application/json\n",
            "{\"n\": 7}",
        )
    };
    let r1 = plan_request(&make());
    let r2 = plan_request(&make());
    let b1 = ready(r1);
    let b2 = ready(r2);
    match (b1.body, b2.body) {
        (BodyPayload::Json(t1), BodyPayload::Json(t2)) => assert_eq!(t1, t2),
        _ => panic!("expected JSON bodies"),
    }
    let o1 = normalize(TransportOutcome::Success("same".to_string()));
    let o2 = normalize(TransportOutcome::Success("same".to_string()));
    assert_eq!(o1.unwrap(), o2.unwrap());
}

#[test]
fn bad_header_block_fails_whole_dispatch() {
    let i = intent("GET", "https://example.test", "no colon here\n", "");
    assert_eq!(plan_request(&i).unwrap_err(), RequestError::BadHeaderLine);
}

#[test]
fn tree_root_node_wraps_child() {
    let child = TreeNode::new(
        "/r/a".to_string(),
        "a".to_string(),
        "/r/a".to_string(),
        false,
    );
    let root = TreeNode::root_node("/r".to_string(), child);
    assert_eq!(root.label, "root");
    assert_eq!(root.id, "/r");
    assert_eq!(root.path, "/r");
    assert!(root.is_dir);
    assert_eq!(root.children.len(), 1);
    assert_eq!(root.children[0].label, "a");
}

#[test]
fn setting_default_has_empty_root() {
    let s = Setting::default();
    assert_eq!(s.root_path, "");
    let s2 = Setting::new("C:/dev".to_string());
    assert_eq!(s2.root_path, "C:/dev");
}
