use std::io::Read;

use single_page_web_server_rs::server::AppState;

fn gunzip(stream: &[u8]) -> Vec<u8> {
    let mut out = Vec::new();
    flate2::read::GzDecoder::new(stream).read_to_end(&mut out).unwrap();
    out
}

#[test]
fn etag_is_the_quoted_md5_of_the_document() {
    let state = AppState::new("<html><body>Test Content</body></html>".to_string());
    assert_eq!(state.etag, "\"579826b6cb2a3909f84377db666a1e65\"");

    let state = AppState::new("<html><body>ETag Test Content</body></html>".to_string());
    assert_eq!(state.etag, "\"9f5defbed173536d46d43bc9fe9e6f73\"");
}

#[test]
fn etag_is_the_same_for_the_same_document() {
    let content = "<html><body>Different Port Test</body></html>";
    let first = AppState::new(content.to_string());
    let second = AppState::new(content.to_string());
    assert_eq!(first.etag, second.etag);
    assert_eq!(first.etag, "\"ca73cad7a256e8c3cf67801278641e78\"");
    assert_eq!(first.compressed_content, second.compressed_content);

    let other = AppState::new("<html><body>different port test</body></html>".to_string());
    assert_ne!(first.etag, other.etag);
}

#[test]
fn etag_has_thirty_two_lowercase_hex_digits_between_quotes() {
    let state = AppState::new("anything at all".to_string());
    let etag = state.etag.as_bytes();
    assert_eq!(etag.len(), 34);
    assert_eq!(etag[0], b'"');
    assert_eq!(etag[33], b'"');
    assert!(etag[1..33]
        .iter()
        .all(|b| b.is_ascii_digit() || (b'a'..=b'f').contains(b)));
}

#[test]
fn both_representations_give_the_document_back() {
    let content = "<html><body>Test Content</body></html>";
    let state = AppState::new(content.to_string());
    assert_eq!(state.uncompressed_content, content.as_bytes());
    assert_eq!(gunzip(&state.compressed_content), content.as_bytes());
    assert_eq!(&state.compressed_content[..2], &[0x1f, 0x8b]);
    assert_ne!(state.compressed_content, state.uncompressed_content);
}

#[test]
fn lengths_are_those_of_the_representations() {
    let content = "x".repeat(10_000);
    let state = AppState::new(content);
    assert_eq!(state.uncompressed_content_length, 10_000);
    assert_eq!(state.uncompressed_content_length, state.uncompressed_content.len());
    assert_eq!(state.compressed_content_length, state.compressed_content.len());
    assert!(state.compressed_content_length < state.uncompressed_content_length);
}

#[test]
fn the_empty_document_has_a_store() {
    let state = AppState::new(String::new());
    assert_eq!(state.etag, "\"d41d8cd98f00b204e9800998ecf8427e\"");
    assert!(state.uncompressed_content.is_empty());
    assert_eq!(state.uncompressed_content_length, 0);
    assert!(!state.compressed_content.is_empty());
    assert_eq!(state.compressed_content_length, state.compressed_content.len());
    assert!(gunzip(&state.compressed_content).is_empty());
}

#[test]
fn a_document_beyond_ascii_is_stored_as_its_utf8_bytes() {
    let state = AppState::new("héllo".to_string());
    assert_eq!(state.uncompressed_content, vec![b'h', 0xc3, 0xa9, b'l', b'l', b'o']);
    assert_eq!(state.uncompressed_content_length, 6);
    assert_eq!(state.etag, "\"be50e8478cf24ff3595bc7307fb91b50\"");
    assert_eq!(gunzip(&state.compressed_content), "héllo".as_bytes());
}
