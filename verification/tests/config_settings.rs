use image_style_studio::config::{Config, Paths};
use image_style_studio::json::Json;
use image_style_studio::misc::{legacy_candidates, legacy_sources, settings_info};

fn obj(entries: Vec<(&str, Json)>) -> Json {
    Json::Object(entries.into_iter().map(|(k, v)| (k.to_string(), v)).collect())
}

fn pairs(v: &[(&str, &str)]) -> Vec<(String, String)> {
    v.iter().map(|(a, b)| (a.to_string(), b.to_string())).collect()
}

#[test]
fn environment_overrides_config_file() {
    let file = obj(vec![
        ("OPENROUTER_API_KEY", Json::String("from-file".to_string())),
        ("IMAGE_DIR", Json::String("/img".to_string())),
        ("NUMBER", Json::Number("1".to_string())),
    ]);
    let config = Config::from_sources(
        Some(&file),
        &pairs(&[("OPENROUTER_API_KEY", "from-env"), ("IMAGE_DIR", "  ")]),
    );
    assert_eq!(config.get("OPENROUTER_API_KEY"), Some("from-env"));
    assert_eq!(config.get("IMAGE_DIR"), Some("/img"));
    assert_eq!(config.get("NUMBER"), None);
}

#[test]
fn only_known_environment_keys_are_read() {
    let config = Config::from_sources(None, &pairs(&[("HOME", "/root"), ("GEMINI_API_KEY", "g")]));
    assert_eq!(config.get("HOME"), None);
    assert_eq!(config.get("GEMINI_API_KEY"), Some("g"));
}

#[test]
fn model_settings_have_defaults() {
    let config = Config::empty();
    assert_eq!(config.analysis_model(), "google/gemini-2.5-flash");
    assert_eq!(config.brief_model(), "google/gemini-2.5-flash");
    assert_eq!(config.openrouter_api_key(), None);
    let mut config = Config::empty();
    config.set("OPENROUTER_BRIEF_MODEL".to_string(), "x/y".to_string());
    config.set("OPENROUTER_API_KEY".to_string(), " ".to_string());
    assert_eq!(config.brief_model(), "x/y");
    assert_eq!(config.openrouter_api_key(), None);
}

#[test]
fn paths_follow_configuration() {
    let mut config = Config::empty();
    config.set("DATABASE_URL".to_string(), "file:./dev.db".to_string());
    config.set("IMAGE_DIR".to_string(), "/pics".to_string());
    let paths = Paths::resolve("/app".to_string(), &config);
    assert_eq!(paths.db_path, "./dev.db");
    assert_eq!(paths.image_dir, "/pics");
    assert_eq!(paths.app_data_dir, "/app");
}

#[test]
fn default_paths_lie_under_app_data() {
    let paths = Paths::resolve("/app".to_string(), &Config::empty());
    assert_eq!(paths.db_path, "/app/data/app.db");
    assert_eq!(paths.image_dir, "/app/data/images");
}

#[test]
fn settings_show_masked_key_and_source() {
    let mut config = Config::empty();
    config.set("OPENROUTER_API_KEY".to_string(), "sk-or-123456".to_string());
    let paths = Paths::resolve("/app".to_string(), &config);
    let info = settings_info(&config, Some("sk-or-123456"), &paths);
    assert!(info.has_open_router_key);
    assert_eq!(info.open_router_key_masked.as_deref(), Some("sk-o…3456 (12 Zeichen)"));
    assert_eq!(info.open_router_key_source.as_deref(), Some("env"));
    assert_eq!(info.config_path, "/app/config.json");
    assert_eq!(info.image_dir, "/app/data/images");
    assert_eq!(info.database_url, "/app/data/app.db");
    let info = settings_info(&config, None, &paths);
    assert_eq!(info.open_router_key_source.as_deref(), Some("config"));
    let info = settings_info(&Config::empty(), None, &paths);
    assert!(!info.has_open_router_key);
    assert!(info.open_router_key_masked.is_none());
    assert!(info.open_router_key_source.is_none());
}

#[test]
fn legacy_locations_are_tried_in_order() {
    let mut config = Config::empty();
    assert_eq!(legacy_candidates(&config), vec![".", ".."]);
    config.set("LEGACY_DATA_DIR".to_string(), "/old".to_string());
    assert_eq!(legacy_candidates(&config), vec!["/old", ".", ".."]);
    let (db, images) = legacy_sources("/old");
    assert_eq!(db, "/old/prisma/data/dev.db");
    assert_eq!(images, "/old/data/images");
}

#[test]
fn joining_puts_one_separator_unless_the_base_ends_in_one() {
    let paths = Paths::resolve("/app/".to_string(), &Config::empty());
    assert_eq!(paths.db_path, "/app/data/app.db");
    let paths = Paths::resolve(String::new(), &Config::empty());
    assert_eq!(paths.image_dir, "data/images");
}
