use ollama_pro::wire::{decode_progress_line, PullModelResponse, StreamDecoder};

fn event(status: &str, digest: Option<&str>, total: Option<i64>, completed: Option<i64>) -> PullModelResponse {
    PullModelResponse {
        status: status.to_string(),
        digest: digest.map(|d| d.to_string()),
        total,
        completed,
    }
}

const STREAM: &str = "{\"status\":\"pulling manifest\"}\n{\"status\":\"downloading\",\"digest\":\"sha256:ab\",\"total\":1000,\"completed\":100}\nnot json\n{\"status\":\"success\"}\n{\"status\":\"tail";

fn feed(chunks: &[&[u8]]) -> Vec<PullModelResponse> {
    let mut decoder = StreamDecoder::new();
    let mut out = Vec::new();
    for c in chunks {
        out.extend(decoder.push_chunk(c));
    }
    out
}

fn expected() -> Vec<PullModelResponse> {
    vec![
        event("pulling manifest", None, None, None),
        event("downloading", Some("sha256:ab"), Some(1000), Some(100)),
        event("success", None, None, None),
    ]
}

#[test]
fn decodes_lines_in_one_chunk() {
    assert_eq!(feed(&[STREAM.as_bytes()]), expected());
}

#[test]
fn chunk_boundaries_do_not_matter() {
    let bytes = STREAM.as_bytes();
    // One byte at a time.
    let singles: Vec<&[u8]> = bytes.chunks(1).collect();
    assert_eq!(feed(&singles), expected());
    // Every cut into two pieces.
    for cut in 0..=bytes.len() {
        assert_eq!(feed(&[&bytes[..cut], &bytes[cut..]]), expected());
    }
    // Chunks of seven bytes.
    let sevens: Vec<&[u8]> = bytes.chunks(7).collect();
    assert_eq!(feed(&sevens), expected());
}

#[test]
fn multibyte_character_split_across_chunks() {
    let text = "{\"status\":\"téléchargement\",\"completed\":5}\n";
    let bytes = text.as_bytes();
    let cut = text.find('é').unwrap() + 1; // inside the two bytes of 'é'
    let events = feed(&[&bytes[..cut], &bytes[cut..]]);
    assert_eq!(events, vec![event("téléchargement", None, None, Some(5))]);
}

#[test]
fn malformed_lines_are_skipped() {
    let text = "garbage\n{\"status\":\"a\"}\n{broken\n\n{\"status\":\"b\",\"completed\":7}\n";
    assert_eq!(
        feed(&[text.as_bytes()]),
        vec![event("a", None, None, None), event("b", None, None, Some(7))]
    );
}

#[test]
fn trailing_partial_line_is_not_decoded() {
    let mut decoder = StreamDecoder::new();
    assert!(decoder.push_chunk(b"{\"status\":\"a\"}").is_empty());
    assert_eq!(decoder.push_chunk(b"\n"), vec![event("a", None, None, None)]);
}

#[test]
fn missing_status_reads_unknown() {
    assert_eq!(decode_progress_line(b"{\"completed\":3}"), Some(event("unknown", None, None, Some(3))));
    assert_eq!(decode_progress_line(b"{\"status\":5}"), Some(event("unknown", None, None, None)));
}

#[test]
fn field_types_are_checked() {
    assert_eq!(
        decode_progress_line(b"{\"status\":\"s\",\"digest\":1,\"total\":\"9\",\"completed\":2.5}"),
        Some(event("s", None, None, None))
    );
    assert_eq!(decode_progress_line(b"{\"status\":\"s\"} x"), None);
    assert_eq!(decode_progress_line(b""), None);
    assert_eq!(decode_progress_line(b"\xff\xfe"), None);
}

#[test]
fn carriage_return_is_white_space() {
    assert_eq!(decode_progress_line(b"{\"status\":\"ok\"}\r"), Some(event("ok", None, None, None)));
}

#[test]
fn is_success_matches_status_exactly() {
    assert!(event("success", None, None, None).is_success());
    assert!(!event("Success", None, None, None).is_success());
    assert!(!event("success ", None, None, None).is_success());
}
