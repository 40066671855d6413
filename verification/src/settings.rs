//! Settings and the window that edits them.

use vstd::prelude::*;

use crate::text::{
    blank, decimal, decimal_round_trip, is_blank, parse_number, parsed, to_decimal, trim_end,
    trimmed_end, trimming_takes_the_end, without_trailing,
};

verus! {

/// Access to the cloud service.
#[derive(Debug)]
pub struct CloudApiConfig {
    pub provider: String,
    pub api_key: String,
    pub api_url: String,
    pub model: String,
    pub max_tokens: usize,
}

/// Behaviour of the user interface.
#[derive(Debug)]
pub struct UiConfig {
    pub auto_speak: bool,
}

/// The settings that can be edited.
#[derive(Debug)]
pub struct AppConfig {
    pub cloud_api: CloudApiConfig,
    pub ui: UiConfig,
}

/// What settings say.
#[verifier::ext_equal]
pub struct ConfigView {
    pub provider: Seq<char>,
    pub api_key: Seq<char>,
    pub api_url: Seq<char>,
    pub model: Seq<char>,
    pub max_tokens: usize,
    pub auto_speak: bool,
}

impl View for AppConfig {
    type V = ConfigView;

    open spec fn view(&self) -> ConfigView {
        ConfigView {
            provider: self.cloud_api.provider@,
            api_key: self.cloud_api.api_key@,
            api_url: self.cloud_api.api_url@,
            model: self.cloud_api.model@,
            max_tokens: self.cloud_api.max_tokens,
            auto_speak: self.ui.auto_speak,
        }
    }
}

/// The fields of the settings window.
#[derive(Debug)]
pub struct SettingsForm {
    pub provider: String,
    pub api_key: String,
    pub api_url: String,
    pub model: String,
    pub max_tokens_str: String,
    pub auto_speak: bool,
}

/// What the settings window shows.
#[verifier::ext_equal]
pub struct FormView {
    pub provider: Seq<char>,
    pub api_key: Seq<char>,
    pub api_url: Seq<char>,
    pub model: Seq<char>,
    pub max_tokens_str: Seq<char>,
    pub auto_speak: bool,
}

impl View for SettingsForm {
    type V = FormView;

    open spec fn view(&self) -> FormView {
        FormView {
            provider: self.provider@,
            api_key: self.api_key@,
            api_url: self.api_url@,
            model: self.model@,
            max_tokens_str: self.max_tokens_str@,
            auto_speak: self.auto_speak,
        }
    }
}

/// What the window shows for given settings.
pub open spec fn shown(config: ConfigView) -> FormView {
    FormView {
        provider: config.provider,
        api_key: config.api_key,
        api_url: config.api_url,
        model: config.model,
        max_tokens_str: decimal(config.max_tokens as nat),
        auto_speak: config.auto_speak,
    }
}

/// The settings that a filled-in window stands for.  The address is taken without slashes at its
/// end, and a token limit that is no number leaves the one in `base` as it is.
pub open spec fn entered(form: FormView, base: ConfigView) -> ConfigView {
    ConfigView {
        provider: form.provider,
        api_key: form.api_key,
        api_url: without_trailing(form.api_url, '/'),
        model: form.model,
        max_tokens: match parsed(form.max_tokens_str) {
            Some(budget) => budget,
            None => base.max_tokens,
        },
        auto_speak: form.auto_speak,
    }
}

/// Fills in the settings window.
pub fn apply_config_to_app(config: &AppConfig) -> (r: SettingsForm)
    ensures
        r@ == shown(config@),
{
    SettingsForm {
        provider: config.cloud_api.provider.clone(),
        api_key: config.cloud_api.api_key.clone(),
        api_url: config.cloud_api.api_url.clone(),
        model: config.cloud_api.model.clone(),
        max_tokens_str: to_decimal(config.cloud_api.max_tokens),
        auto_speak: config.ui.auto_speak,
    }
}

/// Reads the settings window.
pub fn config_from_app(form: &SettingsForm, base: &AppConfig) -> (r: AppConfig)
    ensures
        r@ == entered(form@, base@),
{
    let max_tokens: usize = match parse_number(form.max_tokens_str.as_str()) {
        Some(budget) => budget,
        None => base.cloud_api.max_tokens,
    };
    AppConfig {
        cloud_api: CloudApiConfig {
            provider: form.provider.clone(),
            api_key: form.api_key.clone(),
            api_url: trim_end(form.api_url.as_str(), '/'),
            model: form.model.clone(),
            max_tokens,
        },
        ui: UiConfig { auto_speak: form.auto_speak },
    }
}

/// Insists on an access key that is more than white space.
pub fn ensure_api_key(config: &AppConfig) -> (r: Result<(), String>)
    ensures
        r is Err <==> is_blank(config@.api_key),
        r is Err ==> r->Err_0@ == "API key 未配置"@,
{
    if blank(config.cloud_api.api_key.as_str()) {
        return Err("API key 未配置".to_owned());
    }
    Ok(())
}

/// Settings that are shown and read back are the same, but for slashes at the end of the address.
pub proof fn shown_settings_are_read_back(config: ConfigView, base: ConfigView)
    ensures
        entered(shown(config), base) == (ConfigView {
            api_url: without_trailing(config.api_url, '/'),
            ..config
        }),
        (config.api_url.len() > 0 ==> config.api_url.last() != '/') ==> entered(
            shown(config),
            base,
        ) == config,
{
    decimal_round_trip(config.max_tokens);
}

/// Settings that came out of the window stay as they are when they are shown and read again.
pub proof fn read_settings_are_stable(form: FormView, base: ConfigView, later: ConfigView)
    ensures
        entered(shown(entered(form, base)), later) == entered(form, base),
{
    trimmed_end(form.api_url, '/');
    shown_settings_are_read_back(entered(form, base), later);
}

/// The window shows every setting in its own field, and the token limit in decimal.
pub proof fn every_setting_has_its_field(config: AppConfig)
    ensures
        ({
            let form = shown(config@);
            &&& form.provider == config.cloud_api.provider@
            &&& form.api_key == config.cloud_api.api_key@
            &&& form.api_url == config.cloud_api.api_url@
            &&& form.model == config.cloud_api.model@
            &&& parsed(form.max_tokens_str) == Some(config.cloud_api.max_tokens)
            &&& form.max_tokens_str == decimal(config.cloud_api.max_tokens as nat)
            &&& form.auto_speak == config.ui.auto_speak
        }),
{
    decimal_round_trip(config.cloud_api.max_tokens);
}

/// Every field is read into its own setting, whatever the settings were before: only a token limit
/// that is no number is taken from them.
pub proof fn every_field_has_its_setting(form: SettingsForm, base: AppConfig, url: Seq<char>)
    requires
        url.len() <= form.api_url@.len(),
        url == form.api_url@.take(url.len() as int),
        url.len() > 0 ==> url.last() != '/',
        forall|i: int| url.len() <= i < form.api_url@.len() ==> #[trigger] form.api_url@[i] == '/',
    ensures
        ({
            let read = entered(form@, base@);
            &&& read.provider == form.provider@
            &&& read.api_key == form.api_key@
            &&& read.api_url == url
            &&& read.model == form.model@
            &&& read.auto_speak == form.auto_speak
            &&& match parsed(form.max_tokens_str@) {
                Some(budget) => read.max_tokens == budget,
                None => read.max_tokens == base.cloud_api.max_tokens,
            }
        }),
{
    let whole = form.api_url@;
    let rest = without_trailing(whole, '/');
    trimming_takes_the_end(whole, '/', url.len() as int);
    if rest.len() > 0 {
        trimming_takes_the_end(whole, '/', rest.len() - 1);
    }
    if url.len() > 0 {
        trimming_takes_the_end(whole, '/', url.len() - 1);
        assert(whole[url.len() - 1] == url.last());
    }
    if rest.len() > url.len() {
        assert(rest.last() == whole[rest.len() - 1]);
    }
    assert(rest.len() == url.len());
}

/// Views leave nothing out.
pub proof fn views_show_every_field(config: AppConfig, form: SettingsForm)
    ensures
        config@.provider == config.cloud_api.provider@,
        config@.api_key == config.cloud_api.api_key@,
        config@.api_url == config.cloud_api.api_url@,
        config@.model == config.cloud_api.model@,
        config@.max_tokens == config.cloud_api.max_tokens,
        config@.auto_speak == config.ui.auto_speak,
        form@.provider == form.provider@,
        form@.api_key == form.api_key@,
        form@.api_url == form.api_url@,
        form@.model == form.model@,
        form@.max_tokens_str == form.max_tokens_str@,
        form@.auto_speak == form.auto_speak,
{
}

} // verus!
