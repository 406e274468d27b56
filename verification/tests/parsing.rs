use trellis::bytes::{bytes_eq, parse_usize, trim_bytes, trim_end_bytes};
use trellis::method::Method;
use trellis::request::{ParseError, Request};
use trellis::route::Route;
use trellis::segments::{join_segments, split_segments};

#[test]
fn split_drops_empty_segments() {
    let cases: Vec<(&[u8], Vec<&[u8]>)> = vec![
        (b"/a/b", vec![b"a", b"b"]),
        (b"/a/b/", vec![b"a", b"b"]),
        (b"//a//b", vec![b"a", b"b"]),
        (b"", vec![]),
        (b"/", vec![]),
        (b"abc", vec![b"abc"]),
    ];
    for (path, expected) in cases {
        let segs = split_segments(path);
        let expected: Vec<Vec<u8>> = expected.into_iter().map(|s| s.to_vec()).collect();
        assert_eq!(segs, expected, "segments of {:?}", String::from_utf8_lossy(path));
    }
}

#[test]
fn join_intersperses_slashes() {
    let segs = vec![b"a".to_vec(), b"b".to_vec(), b"c.txt".to_vec()];
    assert_eq!(join_segments(&segs), b"a/b/c.txt".to_vec());
    assert_eq!(join_segments(&vec![]), Vec::<u8>::new());
    assert_eq!(join_segments(&vec![b"one".to_vec()]), b"one".to_vec());
}

#[test]
fn route_parsing_splits_query() {
    let route = Route::parse_route(b"/test/get-user?name=test".to_vec());
    assert_eq!(route.init_route, b"/test/get-user?name=test".to_vec());
    assert_eq!(route.cleaned_route, b"/test/get-user".to_vec());
    assert_eq!(route.get_param(b"name"), Some(&b"test".to_vec()));
    assert_eq!(route.get_param(b"absent"), None);
}

#[test]
fn route_parsing_multiple_params() {
    let route = Route::parse_route(b"/items?a=1&b=2&broken".to_vec());
    assert_eq!(route.cleaned_route, b"/items".to_vec());
    assert_eq!(route.get_param(b"a"), Some(&b"1".to_vec()));
    assert_eq!(route.get_param(b"b"), Some(&b"2".to_vec()));
    assert_eq!(route.get_param(b"broken"), None);
    assert_eq!(route.get_params().len(), 2);
}

#[test]
fn route_parsing_mid_segment_query() {
    // A query suffix inside a middle segment contributes its pairs while the
    // cleaned path keeps only the part before the question mark.
    let route = Route::parse_route(b"/a?x=1/b".to_vec());
    assert_eq!(route.cleaned_route, b"/a/b".to_vec());
    assert_eq!(route.get_param(b"x"), Some(&b"1".to_vec()));
}

#[test]
fn route_parsing_later_value_wins() {
    let route = Route::parse_route(b"/p?k=1&k=2".to_vec());
    assert_eq!(route.get_param(b"k"), Some(&b"2".to_vec()));
    assert_eq!(route.get_params().len(), 1);
}

#[test]
fn parse_full_request() {
    let data = b"POST /api/users?id=7 HTTP/1.1\r\nHost: example.test\r\nContent-Length: 5\r\n\r\nhello";
    let req = Request::parse_request(data).expect("request must parse");
    assert_eq!(req.method, Method::POST);
    assert_eq!(req.route.cleaned_route, b"/api/users".to_vec());
    assert_eq!(req.route.get_param(b"id"), Some(&b"7".to_vec()));
    assert_eq!(req.headers, vec![
        (b"Host".to_vec(), b"example.test".to_vec()),
        (b"Content-Length".to_vec(), b"5".to_vec()),
    ]);
    assert_eq!(req.body, Some(b"hello".to_vec()));
    assert!(req.variables.is_empty());
}

#[test]
fn parse_request_without_body() {
    let req = Request::parse_request(b"GET / HTTP/1.1\r\nHost: h\r\n\r\n").unwrap();
    assert_eq!(req.method, Method::GET);
    // Absent Content-Length leaves the body absent, not empty.
    assert_eq!(req.body, None);

    let req = Request::parse_request(b"GET / HTTP/1.1\r\nContent-Length: 0\r\n\r\n").unwrap();
    assert_eq!(req.body, None);
}

#[test]
fn parse_request_tolerates_bare_newlines() {
    let req = Request::parse_request(b"GET /x HTTP/1.1\nA: b\n\n").unwrap();
    assert_eq!(req.route.cleaned_route, b"/x".to_vec());
    assert_eq!(req.headers, vec![(b"A".to_vec(), b"b".to_vec())]);
}

#[test]
fn parse_request_unknown_method() {
    let req = Request::parse_request(b"BREW /pot HTTP/1.1\r\n\r\n").unwrap();
    assert_eq!(req.method, Method::Other(b"BREW".to_vec()));
    assert_ne!(req.method, Method::GET);
    // Structural equality: a token spelling GET under Other is not GET.
    assert_ne!(Method::Other(b"GET".to_vec()), Method::GET);
}

#[test]
fn parse_request_errors() {
    assert_eq!(Request::parse_request(b"").unwrap_err(), ParseError::NoData);
    assert_eq!(Request::parse_request(b"\r\n").unwrap_err(), ParseError::NoData);
    assert_eq!(
        Request::parse_request(b"GET\r\n\r\n").unwrap_err(),
        ParseError::MissingRoute
    );
    assert_eq!(
        Request::parse_request(b"POST /x HTTP/1.1\r\nContent-Length: 10\r\n\r\nshort").unwrap_err(),
        ParseError::BodyTooShort
    );
}

#[test]
fn header_lines_without_colon_are_skipped() {
    let req = Request::parse_request(b"GET /x HTTP/1.1\r\nnot a header\r\nGood:  value  \r\n\r\n")
        .unwrap();
    assert_eq!(req.headers, vec![(b"Good".to_vec(), b"value".to_vec())]);
}

#[test]
fn parse_usize_accepts_digits() {
    assert_eq!(parse_usize(b"123"), Some(123));
    assert_eq!(parse_usize(b"+7"), Some(7));
    assert_eq!(parse_usize(b"0"), Some(0));
    assert_eq!(parse_usize(b""), None);
    assert_eq!(parse_usize(b"+"), None);
    assert_eq!(parse_usize(b"12a"), None);
    assert_eq!(parse_usize(b"-3"), None);
    assert_eq!(parse_usize(b"99999999999999999999999999"), None);
}

#[test]
fn byte_helpers() {
    assert!(bytes_eq(b"abc", b"abc"));
    assert!(!bytes_eq(b"abc", b"abd"));
    assert!(!bytes_eq(b"abc", b"ab"));
    assert_eq!(trim_bytes(b"  x y\t\r\n"), b"x y".to_vec());
    assert_eq!(trim_end_bytes(b"  x\r\n"), b"  x".to_vec());
}
