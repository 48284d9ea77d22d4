use ai_assist::cache::Cache;
use ai_assist::config::{config_file_path, Config};
use ai_assist::json::Json;
use ai_assist::memory::{memory_settings, MemoryConfig};

#[test]
fn cache_directory_under_user_cache() {
    let c = Cache::new(Some("/home/u/.cache".to_string()));
    assert_eq!(c.dir(), "/home/u/.cache/ai-assist");
    let d = Cache::new(None);
    assert_eq!(d.dir(), "./ai-assist");
}

#[test]
fn cache_entry_name_is_blake3_hex() {
    assert_eq!(
        Cache::entry_name(""),
        "af1349b9f5f9a1a6a0404dea36dcc9499bcb25c9adc112b7cc9a93cae41f3262"
    );
    let name = Cache::entry_name("what time is it");
    assert_eq!(name, blake3::hash(b"what time is it").to_hex().to_string());
    assert_eq!(name.len(), 64);
    assert!(name.chars().all(|ch| ch.is_ascii_hexdigit() && !ch.is_ascii_uppercase()));
    assert_ne!(name, "what time is it");
}

#[test]
fn cache_entry_path_is_inside_directory() {
    let c = Cache::new(Some("/var/cache".to_string()));
    let p = c.entry_path("key");
    assert_eq!(p, format!("/var/cache/ai-assist/{}", Cache::entry_name("key")));
    assert_eq!(c.entry_path("key"), c.entry_path("key"));
    assert_ne!(c.entry_path("key"), c.entry_path("other key"));
}

#[test]
fn default_configuration() {
    let c = Config::default_config();
    assert_eq!(
        c.default_prompt.as_deref(),
        Some("Ты — полезный ассистент. Отвечай кратко и по делу.")
    );
    assert_eq!(c.explain_language.as_deref(), Some("ru"));
    assert_eq!(c.stop_list, Some(vec!["rm -rf /".to_string(), "mkfs".to_string()]));
    assert_eq!(c.backends.len(), 1);
    let b = &c.backends[0];
    assert_eq!(b.api_url, "http://localhost:11434/v1/chat/completions");
    assert_eq!(b.api_key, None);
    assert_eq!(b.model, "qwen3.5:0.8b");
    assert_eq!(b.timeout_secs, Some(30));
    assert_eq!(b.options, Some(Json::Object(vec![("nothink".to_string(), Json::Bool(true))])));
    assert_eq!(c.tools.map(|t| t.len()), Some(0));
}

#[test]
fn configuration_file_location() {
    assert_eq!(
        config_file_path(Some("/home/u/.config".to_string())),
        "/home/u/.config/ai-assist/config.toml"
    );
    assert_eq!(config_file_path(None), "./ai-assist/config.toml");
}

#[test]
fn memory_settings_defaults() {
    assert!(memory_settings(None, Some("/c".to_string())).is_none());
    let cfg = MemoryConfig { db_path: None, embedding_dim: None };
    let s = memory_settings(Some(&cfg), Some("/home/u/.config".to_string())).unwrap();
    assert_eq!(s.db_path, "/home/u/.config/ai-assist/memory.db");
    assert_eq!(s.embedding_dim, 384);
    let cfg2 = MemoryConfig { db_path: Some("/data/m.db".to_string()), embedding_dim: Some(768) };
    let s2 = memory_settings(Some(&cfg2), None).unwrap();
    assert_eq!(s2.db_path, "/data/m.db");
    assert_eq!(s2.embedding_dim, 768);
}
