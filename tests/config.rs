use ollama_pro::config::{AppConfig, ConfigError, ConfigManager};

fn manager() -> ConfigManager {
    ConfigManager::with_config(String::new(), AppConfig::default())
}

#[test]
fn test_normalize_host() {
    let manager = manager();

    // Complete URL
    assert_eq!(manager.normalize_host("http://192.168.1.100:11434"), "http://192.168.1.100:11434");
    assert_eq!(manager.normalize_host("https://api.example.com:8080"), "https://api.example.com:8080");

    // IP:port
    assert_eq!(manager.normalize_host("192.168.1.100:11434"), "http://192.168.1.100:11434");
    assert_eq!(manager.normalize_host("10.10.99.33:11434"), "http://10.10.99.33:11434");

    // IP only
    assert_eq!(manager.normalize_host("192.168.1.100"), "http://192.168.1.100:11434");
    assert_eq!(manager.normalize_host("localhost"), "http://localhost:11434");
}

#[test]
fn test_host_priority() {
    let mut manager = manager();
    // Nothing configured, nothing in the environment: the default.
    assert_eq!(manager.get_ollama_host(None), "http://127.0.0.1:11434");
    assert_eq!(manager.get_ollama_host(Some(String::new())), "http://127.0.0.1:11434");
    // The environment comes before the default.
    assert_eq!(manager.get_ollama_host(Some("10.0.0.5".to_string())), "http://10.0.0.5:11434");
    // The user's setting comes before the environment.
    manager.set_ollama_host("192.168.1.7:9000".to_string());
    assert_eq!(manager.get_ollama_host(Some("10.0.0.5".to_string())), "http://192.168.1.7:9000");
    // Clearing falls back to the environment.
    manager.clear_ollama_host();
    assert_eq!(manager.get_ollama_host(Some("10.0.0.5".to_string())), "http://10.0.0.5:11434");
}

#[test]
fn normalize_host_trims_white_space() {
    let manager = manager();
    assert_eq!(manager.normalize_host("  localhost \n"), "http://localhost:11434");
    assert_eq!(manager.normalize_host("\thttps://h:1 "), "https://h:1");
}

#[test]
fn set_empty_host_clears_it() {
    let mut manager = manager();
    manager.set_ollama_host("example.org".to_string());
    assert_eq!(manager.current().ollama_host, Some("http://example.org:11434".to_string()));
    manager.set_ollama_host(String::new());
    assert_eq!(manager.current().ollama_host, None);
}

#[test]
fn normalize_models_path_forms() {
    let manager = manager();
    assert_eq!(manager.normalize_models_path("  C:\\Users\\me\\.ollama\\ "), Ok("C:/Users/me/.ollama".to_string()));
    assert_eq!(manager.normalize_models_path("/data/models///"), Ok("/data/models".to_string()));
    assert_eq!(manager.normalize_models_path("/"), Ok(String::new()));
    assert_eq!(manager.normalize_models_path("   "), Err(ConfigError::EmptyPath));
}

#[test]
fn models_path_priority_and_errors() {
    let mut manager = manager();
    let default = "/home/me/.ollama".to_string();
    assert_eq!(manager.get_ollama_models_path(None, default.clone()), "/home/me/.ollama");
    assert_eq!(manager.get_ollama_models_path(Some("/env/models".to_string()), default.clone()), "/env/models");
    assert_eq!(manager.set_ollama_models_path("/mnt/m\\x/".to_string()), Ok(()));
    assert_eq!(manager.get_ollama_models_path(Some("/env/models".to_string()), default.clone()), "/mnt/m/x");
    assert_eq!(manager.set_ollama_models_path("  ".to_string()), Err(ConfigError::EmptyPath));
    assert_eq!(manager.current().ollama_models_path, Some("/mnt/m/x".to_string()));
    assert_eq!(manager.set_ollama_models_path(String::new()), Ok(()));
    assert_eq!(manager.current().ollama_models_path, None);
    manager.set_ollama_models_path("/a".to_string()).unwrap();
    manager.clear_ollama_models_path();
    assert_eq!(manager.get_ollama_models_path(None, default), "/home/me/.ollama");
}

#[test]
fn config_info_reports_sources() {
    let mut manager = ConfigManager::with_config("/cfg/config.toml".to_string(), AppConfig::default());
    manager.set_ollama_host("h:1".to_string());
    let info = manager.get_config_info(Some("e:2".to_string()), None, "/d".to_string());
    assert_eq!(info.config_path, "/cfg/config.toml");
    assert_eq!(info.user_configured_host, Some("http://h:1".to_string()));
    assert_eq!(info.env_host, Some("e:2".to_string()));
    assert_eq!(info.effective_host, "http://h:1");
    assert_eq!(info.user_configured_models_path, None);
    assert_eq!(info.env_models_path, None);
    assert_eq!(info.effective_models_path, "/d");
}
