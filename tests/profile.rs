use ollama_pro::profile::{join_file_text, remove_export, split_text_lines, upsert_export};

#[test]
fn upsert_replaces_existing_line() {
    let content = "alias ll='ls -l'\n  export OLLAMA_MODELS=\"/old\"\nexport PATH=$PATH:/bin\n";
    assert_eq!(
        upsert_export(content, "OLLAMA_MODELS", "/new/models"),
        "alias ll='ls -l'\nexport OLLAMA_MODELS=\"/new/models\"\nexport PATH=$PATH:/bin\n"
    );
}

#[test]
fn upsert_appends_when_missing() {
    assert_eq!(
        upsert_export("export PATH=/bin", "OLLAMA_MODELS", "/m"),
        "export PATH=/bin\nexport OLLAMA_MODELS=\"/m\"\n"
    );
}

#[test]
fn upsert_on_missing_file_writes_single_line() {
    assert_eq!(upsert_export("", "OLLAMA_MODELS", "/m"), "export OLLAMA_MODELS=\"/m\"\n");
}

#[test]
fn upsert_does_not_touch_similar_keys() {
    assert_eq!(
        upsert_export("export OLLAMA_MODELS_X=1\n", "OLLAMA_MODELS", "/m"),
        "export OLLAMA_MODELS_X=1\nexport OLLAMA_MODELS=\"/m\"\n"
    );
}

#[test]
fn remove_drops_every_setting_line() {
    let content = "a\nexport K=1\n\texport K=2\r\nb\n";
    assert_eq!(remove_export(content, "K"), "a\nb\n");
    assert_eq!(remove_export("", "K"), "\n");
}

#[test]
fn lines_are_split_like_str_lines() {
    for text in ["", "a", "a\n", "a\r\nb", "\n\nx\n", "one\r\ntwo\r\n", "x\ry\n"] {
        let expected: Vec<String> = text.lines().map(|l| l.to_string()).collect();
        assert_eq!(split_text_lines(text), expected, "text {:?}", text);
    }
}

#[test]
fn join_ends_with_newline() {
    assert_eq!(join_file_text(&vec!["a".to_string(), "b".to_string()]), "a\nb\n");
    assert_eq!(join_file_text(&Vec::new()), "\n");
}
