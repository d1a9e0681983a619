use ollama_pro::config::{default_models_path, host_check_url};
use ollama_pro::service::{
    contains_text, request_admin_restart_windows, request_sudo_restart_unix, stop_found_nothing,
    stop_needs_privileges,
};

#[test]
fn privilege_errors_are_recognised() {
    assert!(stop_needs_privileges("pkill: kill failed: Operation not permitted"));
    assert!(stop_needs_privileges("Permission denied"));
    assert!(!stop_needs_privileges("no process found"));
    assert!(stop_found_nothing("ERROR: The process \"ollama.exe\" not found."));
    assert!(stop_found_nothing("service not running"));
    assert!(!stop_found_nothing("Access is denied."));
}

#[test]
fn text_search() {
    assert!(contains_text("abc", ""));
    assert!(contains_text("abc", "bc"));
    assert!(!contains_text("abc", "abcd"));
    assert!(!contains_text("", "a"));
}

#[test]
fn sudo_message_names_the_system() {
    let msg = request_sudo_restart_unix("Linux").unwrap_err();
    assert!(msg.starts_with("Administrator privileges are required to restart Ollama service on Linux.\n\n"));
    assert!(msg.contains("1. sudo pkill -f ollama\n2. ollama serve"));
    assert!(request_admin_restart_windows().unwrap_err().contains("Run as administrator"));
}

#[test]
fn host_check_url_forms() {
    assert_eq!(host_check_url("192.168.1.2"), "http://192.168.1.2:11434/api/version");
    assert_eq!(host_check_url("192.168.1.2:8080"), "http://192.168.1.2:8080/api/version");
    assert_eq!(host_check_url("http://h"), "http://h:11434/api/version");
    assert_eq!(host_check_url("https://h"), "https://h/api/version");
    assert_eq!(host_check_url("https://h:1"), "https://h:1/api/version");
}

#[test]
fn default_models_path_forms() {
    assert_eq!(default_models_path("/home/me", false), "/home/me/.ollama");
    assert_eq!(default_models_path("C:\\Users\\me", true), "C:/Users/me/.ollama");
    assert_eq!(default_models_path("a\\b", false), "a\\b/.ollama");
}
