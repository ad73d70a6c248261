use single_page_web_server_rs::server::{
    build_response, negotiate, respond, AppState, Representation, Request, Response,
};

const DOCUMENT: &str = "<html><body>Test Content</body></html>";

fn header<'r>(response: &'r Response<'_>, name: &str) -> Option<&'r str> {
    response
        .headers
        .iter()
        .find(|h| h.name == name)
        .map(|h| h.value.as_str())
}

fn request<'a>(if_none_match: Option<&'a [u8]>, accept_encoding: Option<&'a [u8]>) -> Request<'a> {
    Request { method: "GET", if_none_match, accept_encoding }
}

#[test]
fn without_validator_the_document_comes_with_status_200() {
    let state = AppState::new(DOCUMENT.to_string());
    for method in ["GET", "POST", "HEAD", "PUT", "anything"] {
        let req = Request { method, if_none_match: None, accept_encoding: None };
        let response = respond(&req, &state);
        assert_eq!(response.status, 200);
        assert_eq!(response.representation, Representation::Identity);
        assert_eq!(response.body, DOCUMENT.as_bytes());
        assert_eq!(header(&response, "Content-Length"), Some("38"));
        assert_eq!(response.document().unwrap(), DOCUMENT.as_bytes());
    }
}

#[test]
fn headers_come_in_their_order() {
    let state = AppState::new(DOCUMENT.to_string());
    let response = respond(&request(None, None), &state);
    let names: Vec<&str> = response.headers.iter().map(|h| h.name).collect();
    assert_eq!(
        names,
        vec!["Content-Type", "Cache-Control", "ETag", "Content-Length", "Content-Encoding"]
    );
    let values: Vec<&str> = response.headers.iter().map(|h| h.value.as_str()).collect();
    assert_eq!(
        values,
        vec![
            "text/html",
            "public, max-age=3600, must-revalidate",
            "\"579826b6cb2a3909f84377db666a1e65\"",
            "38",
            "identity"
        ]
    );
}

#[test]
fn gzip_is_chosen_where_the_token_stands_in_the_header() {
    let state = AppState::new(DOCUMENT.to_string());
    for value in ["gzip", "gzip, deflate, br", "deflate, gzip;q=0.5", "x-gzip", "notgzipped", "br\tgzip"] {
        let req = request(None, Some(value.as_bytes()));
        assert_eq!(negotiate(&req, &state), Representation::Gzip, "{value}");
        let response = respond(&req, &state);
        assert_eq!(response.status, 200);
        assert_eq!(header(&response, "Content-Encoding"), Some("gzip"));
        assert_eq!(response.body, &state.compressed_content[..]);
        assert_eq!(
            header(&response, "Content-Length").unwrap(),
            state.compressed_content.len().to_string()
        );
        assert_eq!(response.document().unwrap(), DOCUMENT.as_bytes());
    }
}

#[test]
fn the_document_comes_as_it_is_where_gzip_is_not_asked_for() {
    let state = AppState::new(DOCUMENT.to_string());
    for value in ["", "identity", "deflate, br", "GZIP", "Gzip", "gzi", "g zip", "gz ip", "*"] {
        let req = request(None, Some(value.as_bytes()));
        assert_eq!(negotiate(&req, &state), Representation::Identity, "{value}");
        let response = respond(&req, &state);
        assert_eq!(header(&response, "Content-Encoding"), Some("identity"));
        assert_eq!(response.body, DOCUMENT.as_bytes());
    }
}

#[test]
fn a_header_that_is_not_text_counts_as_absent() {
    let state = AppState::new(DOCUMENT.to_string());
    let values: [&[u8]; 5] = [
        b"gzip\x80",
        b"\xffgzip",
        b"gzip\x7f",
        b"gzip\x00",
        b"gz\x1fip, gzip",
    ];
    for value in values {
        let req = request(None, Some(value));
        assert_eq!(negotiate(&req, &state), Representation::Identity);
        let response = respond(&req, &state);
        assert_eq!(response.status, 200);
        assert_eq!(response.body, DOCUMENT.as_bytes());
    }
}

#[test]
fn the_matching_validator_gives_304_whatever_is_accepted() {
    let state = AppState::new(DOCUMENT.to_string());
    let etag = state.etag.clone();
    let accepted: [Option<&[u8]>; 4] = [None, Some(b"gzip"), Some(b"identity"), Some(b"\xff")];
    for accept_encoding in accepted {
        let req = request(Some(etag.as_bytes()), accept_encoding);
        assert_eq!(negotiate(&req, &state), Representation::NotModified);
        let response = respond(&req, &state);
        assert_eq!(response.status, 304);
        assert!(response.body.is_empty());
        assert!(response.headers.is_empty());
        assert_eq!(response.document(), None);
    }
}

#[test]
fn any_other_validator_gives_the_full_document() {
    let state = AppState::new(DOCUMENT.to_string());
    let etag = state.etag.clone();
    let truncated = &etag[..etag.len() - 1];
    let unquoted = &etag[1..etag.len() - 1];
    let upper = etag.to_uppercase();
    let weak = format!("W/{etag}");
    let padded = format!(" {etag}");
    let list = format!("{etag}, \"other\"");
    let others: [&[u8]; 9] = [
        truncated.as_bytes(),
        unquoted.as_bytes(),
        upper.as_bytes(),
        weak.as_bytes(),
        padded.as_bytes(),
        list.as_bytes(),
        b"\"different-etag\"",
        b"*",
        b"",
    ];
    for validator in others {
        let req = request(Some(validator), None);
        let response = respond(&req, &state);
        assert_eq!(response.status, 200);
        assert_eq!(response.body, DOCUMENT.as_bytes());
        assert_eq!(header(&response, "ETag"), Some(etag.as_str()));

        let req = request(Some(validator), Some(b"gzip"));
        let response = respond(&req, &state);
        assert_eq!(response.status, 200);
        assert_eq!(response.representation, Representation::Gzip);
        assert_eq!(response.document().unwrap(), DOCUMENT.as_bytes());
    }
}

#[test]
fn the_empty_document_is_served() {
    let state = AppState::new(String::new());
    let plain = respond(&request(None, None), &state);
    assert_eq!(plain.status, 200);
    assert!(plain.body.is_empty());
    assert_eq!(header(&plain, "Content-Length"), Some("0"));
    assert_eq!(plain.document(), Some(Vec::new()));

    let zipped = respond(&request(None, Some(b"gzip")), &state);
    assert_eq!(zipped.status, 200);
    assert!(!zipped.body.is_empty());
    assert_eq!(
        header(&zipped, "Content-Length").unwrap(),
        zipped.body.len().to_string()
    );
    assert_eq!(zipped.document(), Some(Vec::new()));
}

#[test]
fn responses_are_built_for_each_representation() {
    let state = AppState::new(DOCUMENT.to_string());
    let not_modified = build_response(&state, Representation::NotModified);
    assert_eq!(not_modified.status, 304);
    let identity = build_response(&state, Representation::Identity);
    assert_eq!((identity.status, identity.body), (200, DOCUMENT.as_bytes()));
    let gzip = build_response(&state, Representation::Gzip);
    assert_eq!((gzip.status, gzip.body), (200, &state.compressed_content[..]));
}

#[test]
fn a_body_that_is_no_gzip_stream_carries_no_document() {
    let state = AppState::new(DOCUMENT.to_string());
    let mut response = build_response(&state, Representation::Gzip);
    response.body = DOCUMENT.as_bytes();
    assert_eq!(response.document(), None);
}

#[test]
fn length_header_follows_the_stored_length() {
    let mut state = AppState::new(DOCUMENT.to_string());
    state.uncompressed_content_length = 1234567;
    let response = respond(&request(None, None), &state);
    assert_eq!(header(&response, "Content-Length"), Some("1234567"));
}
