use trellis::emitter::{compose_head, encode_chunk, encode_chunks};
use trellis::empty_resolution::EmptyResolution;
use trellis::error_resolution::{Configured, ErrorResolution};
use trellis::file_bytes::FileBytes;
use trellis::file_resolution::FileResolution;
use trellis::json_resolution::JsonResolution;
use trellis::redirect::{Redirect, RedirectType};
use trellis::resolution::{get_status_header, merge_headers, Resolution};

#[test]
fn chunk_encoding_exact_bytes() {
    assert_eq!(encode_chunk(&b"hello".to_vec()), b"5\r\nhello\r\n".to_vec());
    assert_eq!(encode_chunk(&Vec::new()), Vec::<u8>::new());
    let long = vec![120u8; 255];
    let mut expected = b"ff\r\n".to_vec();
    expected.extend_from_slice(&long);
    expected.extend_from_slice(b"\r\n");
    assert_eq!(encode_chunk(&long), expected);
}

#[test]
fn chunked_body_round_trip() {
    // The resolution's chunks, emitted then decoded as a client would,
    // give back exactly the original body; empty chunks are skipped.
    let chunks = vec![b"hello".to_vec(), Vec::new(), b" world!".to_vec()];
    let body = encode_chunks(&chunks);
    assert_eq!(
        body,
        b"5\r\nhello\r\n7\r\n world!\r\n0\r\n\r\n".to_vec()
    );
    let decoded = decode_chunked(&body).expect("emitted body must decode");
    assert_eq!(decoded, b"hello world!".to_vec());

    assert_eq!(encode_chunks(&vec![]), b"0\r\n\r\n".to_vec());
    assert_eq!(decode_chunked(b"0\r\n\r\n"), Some(Vec::new()));
}

/// A plain chunked-transfer decoder, playing the client's part.
fn decode_chunked(mut s: &[u8]) -> Option<Vec<u8>> {
    let mut out = Vec::new();
    loop {
        let cr = s.iter().position(|&b| b == b'\r')?;
        let size = std::str::from_utf8(&s[..cr]).ok()?;
        let n = usize::from_str_radix(size, 16).ok()?;
        if s.get(cr + 1) != Some(&b'\n') {
            return None;
        }
        s = &s[cr + 2..];
        if n == 0 {
            return if s == b"\r\n" { Some(out) } else { None };
        }
        if s.len() < n + 2 || &s[n..n + 2] != b"\r\n" {
            return None;
        }
        out.extend_from_slice(&s[..n]);
        s = &s[n + 2..];
    }
}

#[test]
fn head_block_status_line() {
    let headers = EmptyResolution::new(200).get_headers();
    let head = compose_head(&headers);
    assert_eq!(
        head,
        b"HTTP/1.1 200 OK\r\nTransfer-Encoding: chunked\r\n\r\n".to_vec()
    );

    let headers = EmptyResolution::new(401).get_headers();
    let head = compose_head(&headers);
    assert!(head.starts_with(b"HTTP/1.1 401 Unauthorized\r\n"));

    // A code without a registered reason phrase is written bare.
    let headers = EmptyResolution::new(218).get_headers();
    assert!(compose_head(&headers).starts_with(b"HTTP/1.1 218\r\n"));

    // Without a reserved header, the default status line appears.
    let head = compose_head(&vec![(b"X".to_vec(), Some(b"y".to_vec()))]);
    assert_eq!(
        head,
        b"HTTP/1.1 200 OK\r\nX: y\r\nTransfer-Encoding: chunked\r\n\r\n".to_vec()
    );

    // A header without a value emits just its name.
    let head = compose_head(&vec![(b"Bare".to_vec(), None)]);
    assert_eq!(
        head,
        b"HTTP/1.1 200 OK\r\nBare\r\nTransfer-Encoding: chunked\r\n\r\n".to_vec()
    );
}

#[test]
fn status_header_texts() {
    let (name, value) = get_status_header(404);
    assert_eq!(name, b"HTTP/1.1".to_vec());
    assert_eq!(value, Some(b"404 Not Found".to_vec()));
    assert_eq!(get_status_header(500).1, Some(b"500 Internal Server Error".to_vec()));
    assert_eq!(get_status_header(-1).1, Some(b"-1".to_vec()));
}

#[test]
fn json_resolution_headers_and_body() {
    let mut r = JsonResolution::new(String::from("{\"age\":30}"));
    r.set_status(201);
    let r = r.into_resolution();
    let headers = r.get_headers();
    assert_eq!(headers[0].1, Some(b"201".to_vec()));
    assert_eq!(headers[1], (b"Content-Type".to_vec(), Some(b"application/json".to_vec())));
    assert_eq!(r.get_content(), vec![b"{\"age\":30}".to_vec()]);
}

#[test]
fn error_resolution_bodies() {
    let plain = ErrorResolution::from_error(String::from("boom"));
    assert_eq!(plain.get_content(), vec![b"boom".to_vec()]);
    let headers = plain.get_headers();
    assert_eq!(headers[0].1, Some(b"500 Internal Server Error".to_vec()));

    let json = ErrorResolution::from_error_with_config(
        String::from("bad \"input\""),
        Configured::Json,
    );
    assert_eq!(
        json.get_content(),
        vec![b"{\"code\":500,\"message\":\"bad \\\"input\\\"\"}".to_vec()]
    );

    let custom = ErrorResolution::from_boxed_error_with_config(
        String::from("ignored"),
        Configured::Custom(String::from("this failed because...")),
    );
    assert_eq!(custom.get_content(), vec![b"this failed because...".to_vec()]);

    let boxed = ErrorResolution::from_boxed_error(String::from("lost"));
    assert_eq!(boxed.get_content(), vec![b"lost".to_vec()]);
}

#[test]
fn redirect_headers() {
    let r = Redirect::new(RedirectType::MovedPermanently("/new"));
    assert_eq!(r.redirect_header_type.status(), 301);
    assert_eq!(r.redirect_header_type.size(), 1);
    let headers = r.get_headers();
    assert_eq!(headers.len(), 2);
    assert_eq!(headers[0].1, Some(b"301 Moved Permanently".to_vec()));
    assert_eq!(headers[1], (b"Location".to_vec(), Some(b"/new".to_vec())));
    assert!(r.get_content().is_empty());

    let nm = Redirect::new(RedirectType::NotModified);
    assert_eq!(nm.redirect_header_type.status(), 304);
    assert_eq!(nm.redirect_header_type.size(), 0);
    assert_eq!(nm.get_headers().len(), 1);

    assert_eq!(RedirectType::Found("/f").status(), 302);
    assert_eq!(RedirectType::SeeOther("/s").status(), 303);
    assert_eq!(RedirectType::TemporaryRedirect("/t").status(), 307);
    assert_eq!(RedirectType::PermanentRedirect("/p").status(), 308);
    assert_eq!(RedirectType::MultipleChoices.status(), 300);
}

#[test]
fn file_bytes_content_types() {
    let cases: Vec<(&str, &[u8])> = vec![
        ("index.html", b"text/html"),
        ("a/b/style.CSS", b"text/css"),
        ("photo.JPEG", b"image/jpeg"),
        ("font.woff2", b"font/woff2"),
        ("archive.tar", b"application/x-tar"),
        ("noextension", b"application/octet-stream"),
        (".gitignore", b"application/octet-stream"),
        ("dir.d/noext", b"application/octet-stream"),
        ("song.mp3", b"audio/mpeg"),
        ("movie.webm", b"video/webm"),
    ];
    for (path, expected) in cases {
        let fb = FileBytes::new(String::from(path));
        assert_eq!(
            fb.get_file_type_header(),
            expected.to_vec(),
            "content type of {path}"
        );
    }
}

#[test]
fn file_resolution_status() {
    let missing = FileResolution::new(Some("no-such-file-anywhere.bin"));
    assert_eq!(missing.status_code, 404);
    assert_eq!(missing.get_headers()[0].1, Some(b"404 Not Found".to_vec()));

    let none = FileResolution::new(None);
    assert_eq!(none.status_code, 404);
    assert!(none.file.is_none());

    // A directory exists but is no regular file, so it is not served.
    let directory = FileResolution::new(Some("/"));
    assert_eq!(directory.status_code, 404);

    let fb = FileBytes::new(String::from("no-such-file-anywhere.bin"));
    assert_eq!(fb.get_status(), 404);
    // The presence probe alone answers 200 for any existing path.
    let fb = FileBytes::new(String::from("/"));
    assert_eq!(fb.get_status(), 200);
}

#[test]
fn header_merge_precedence() {
    // The base entries keep their order; a same-named extra entry replaces
    // the value in place; new names are appended.
    let base = vec![
        (b"HTTP/1.1".to_vec(), Some(b"200 OK".to_vec())),
        (b"Content-Type".to_vec(), Some(b"text/plain".to_vec())),
    ];
    let extra = vec![
        (b"Content-Type".to_vec(), Some(b"text/html".to_vec())),
        (b"Location".to_vec(), Some(b"/there".to_vec())),
    ];
    let merged = merge_headers(base, extra);
    assert_eq!(merged, vec![
        (b"HTTP/1.1".to_vec(), Some(b"200 OK".to_vec())),
        (b"Content-Type".to_vec(), Some(b"text/html".to_vec())),
        (b"Location".to_vec(), Some(b"/there".to_vec())),
    ]);
}
