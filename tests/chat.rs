use ollama_pro::chat::{ChatAccumulator, StreamResponse};
use ollama_pro::wire::LineFramer;

fn piece(content: &str, done: bool) -> StreamResponse {
    StreamResponse { content: content.to_string(), done }
}

#[test]
fn accumulates_content_until_done() {
    let mut chat = ChatAccumulator::new();
    assert_eq!(chat.on_message("Hel".to_string(), false), vec![piece("Hel", false)]);
    assert_eq!(chat.on_message(String::new(), false), vec![]);
    assert_eq!(chat.on_message("lo".to_string(), true), vec![piece("lo", false), piece("", true)]);
    assert!(chat.is_finished());
    assert_eq!(chat.response(), "Hello");
    assert_eq!(chat.on_message("more".to_string(), false), vec![]);
    assert_eq!(chat.response(), "Hello");
}

#[test]
fn framer_returns_complete_lines() {
    let mut framer = LineFramer::new();
    assert_eq!(framer.push_chunk(b"ab"), Vec::<Vec<u8>>::new());
    assert_eq!(framer.push_chunk(b"c\n\nde\nf"), vec![b"abc".to_vec(), Vec::new(), b"de".to_vec()]);
    assert_eq!(framer.push_chunk(b"\n"), vec![b"f".to_vec()]);
}
