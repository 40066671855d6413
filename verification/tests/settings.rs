use ale_gui::settings::{
    apply_config_to_app, config_from_app, ensure_api_key, AppConfig, CloudApiConfig, SettingsForm,
    UiConfig,
};

fn config(api_url: &str, max_tokens: usize) -> AppConfig {
    AppConfig {
        cloud_api: CloudApiConfig {
            provider: "openai".to_string(),
            api_key: "key".to_string(),
            api_url: api_url.to_string(),
            model: "gpt-4o".to_string(),
            max_tokens,
        },
        ui: UiConfig { auto_speak: false },
    }
}

fn form(api_url: &str, max_tokens_str: &str) -> SettingsForm {
    SettingsForm {
        provider: "other".to_string(),
        api_key: "secret".to_string(),
        api_url: api_url.to_string(),
        model: "m".to_string(),
        max_tokens_str: max_tokens_str.to_string(),
        auto_speak: true,
    }
}

#[test]
fn settings_are_shown() {
    let shown = apply_config_to_app(&config("https://api/", 4096));
    assert_eq!(shown.provider, "openai");
    assert_eq!(shown.api_key, "key");
    assert_eq!(shown.api_url, "https://api/");
    assert_eq!(shown.model, "gpt-4o");
    assert_eq!(shown.max_tokens_str, "4096");
    assert!(!shown.auto_speak);
}

#[test]
fn settings_are_read() {
    let read = config_from_app(&form("https://x/v1//", "77"), &config("u", 5));
    assert_eq!(read.cloud_api.provider, "other");
    assert_eq!(read.cloud_api.api_key, "secret");
    assert_eq!(read.cloud_api.api_url, "https://x/v1");
    assert_eq!(read.cloud_api.model, "m");
    assert_eq!(read.cloud_api.max_tokens, 77);
    assert!(read.ui.auto_speak);
}

#[test]
fn a_limit_that_is_no_number_is_left_alone() {
    for text in ["", "many", "-1", "12 "] {
        let read = config_from_app(&form("u", text), &config("u", 512));
        assert_eq!(read.cloud_api.max_tokens, 512);
    }
}

#[test]
fn settings_survive_being_shown() {
    let base = config("elsewhere", 1);
    let saved = config("https://api", 2048);
    let read = config_from_app(&apply_config_to_app(&saved), &base);
    assert_eq!(read.cloud_api.provider, saved.cloud_api.provider);
    assert_eq!(read.cloud_api.api_key, saved.cloud_api.api_key);
    assert_eq!(read.cloud_api.api_url, saved.cloud_api.api_url);
    assert_eq!(read.cloud_api.model, saved.cloud_api.model);
    assert_eq!(read.cloud_api.max_tokens, saved.cloud_api.max_tokens);
    assert_eq!(read.ui.auto_speak, saved.ui.auto_speak);
}

#[test]
fn read_settings_do_not_change_any_more() {
    let base = config("u", 9);
    let once = config_from_app(&form("a///", "x"), &base);
    let twice = config_from_app(&apply_config_to_app(&once), &config("v", 10));
    assert_eq!(twice.cloud_api.api_url, "a");
    assert_eq!(twice.cloud_api.max_tokens, 9);
    assert_eq!(twice.cloud_api.provider, once.cloud_api.provider);
}

#[test]
fn a_key_is_required() {
    let mut settings = config("u", 1);
    assert_eq!(ensure_api_key(&settings), Ok(()));
    for key in ["", "  ", "\t\u{3000}\n"] {
        settings.cloud_api.api_key = key.to_string();
        assert_eq!(ensure_api_key(&settings), Err("API key 未配置".to_string()));
    }
}
