//! Application settings, their defaults and how a partial update is applied.
use vstd::prelude::*;
use crate::errors::{is_error, AppError, ErrorKind};

verus! {

#[derive(Debug, Clone, Copy, PartialEq, Eq, Structural)]
pub enum Theme {
    Dark,
    Light,
    System,
}

#[derive(Debug, Clone, Copy, PartialEq, Eq, Structural)]
pub enum PerformanceProfile {
    Maximum,
    Balanced,
    LowPower,
    Quiet,
    Manual,
}

/// The user's settings.
#[derive(Debug, Clone, Copy, PartialEq, Eq, Structural)]
pub struct AppSettings {
    pub theme: Theme,
    pub performance_profile: PerformanceProfile,
    pub keep_models_loaded: bool,
    pub idle_unload_minutes: u16,
    pub internet_access: bool,
    pub web_search: bool,
    pub api_enabled: bool,
    pub api_port: u16,
    pub lan_access: bool,
}

/// The settings of a first run: dark, balanced, nothing kept loaded, unload after 15 idle
/// minutes, no internet, no web search, no API (port 11434) and no LAN access.
pub open spec fn default_settings() -> AppSettings {
    AppSettings {
        theme: Theme::Dark,
        performance_profile: PerformanceProfile::Balanced,
        keep_models_loaded: false,
        idle_unload_minutes: 15,
        internet_access: false,
        web_search: false,
        api_enabled: false,
        api_port: 11434,
        lan_access: false,
    }
}

impl Default for AppSettings {
    fn default() -> (settings: AppSettings)
        ensures
            settings == default_settings(),
    {
        AppSettings {
            theme: Theme::Dark,
            performance_profile: PerformanceProfile::Balanced,
            keep_models_loaded: false,
            idle_unload_minutes: 15,
            internet_access: false,
            web_search: false,
            api_enabled: false,
            api_port: 11434,
            lan_access: false,
        }
    }
}

/// A partial update: only the fields that are set change.
#[derive(Debug, Clone, Copy, PartialEq, Eq, Structural)]
pub struct SettingsPatch {
    pub theme: Option<Theme>,
    pub performance_profile: Option<PerformanceProfile>,
    pub keep_models_loaded: Option<bool>,
    pub idle_unload_minutes: Option<u16>,
    pub internet_access: Option<bool>,
    pub web_search: Option<bool>,
    pub api_enabled: Option<bool>,
    pub api_port: Option<u16>,
    pub lan_access: Option<bool>,
}

impl Default for SettingsPatch {
    fn default() -> (patch: SettingsPatch)
        ensures
            patch == (SettingsPatch {
                theme: None,
                performance_profile: None,
                keep_models_loaded: None,
                idle_unload_minutes: None,
                internet_access: None,
                web_search: None,
                api_enabled: None,
                api_port: None,
                lan_access: None,
            }),
    {
        SettingsPatch {
            theme: None,
            performance_profile: None,
            keep_models_loaded: None,
            idle_unload_minutes: None,
            internet_access: None,
            web_search: None,
            api_enabled: None,
            api_port: None,
            lan_access: None,
        }
    }
}

pub open spec fn pick<T>(patch: Option<T>, current: T) -> T {
    match patch {
        Some(v) => v,
        None => current,
    }
}

/// The settings after a patch: each set field replaces the current one, then web search
/// needs internet access and LAN access needs the API.
pub open spec fn patched(current: AppSettings, patch: SettingsPatch) -> AppSettings {
    let internet = pick(patch.internet_access, current.internet_access);
    let api = pick(patch.api_enabled, current.api_enabled);
    AppSettings {
        theme: pick(patch.theme, current.theme),
        performance_profile: pick(patch.performance_profile, current.performance_profile),
        keep_models_loaded: pick(patch.keep_models_loaded, current.keep_models_loaded),
        idle_unload_minutes: pick(patch.idle_unload_minutes, current.idle_unload_minutes),
        internet_access: internet,
        web_search: internet && pick(patch.web_search, current.web_search),
        api_enabled: api,
        api_port: pick(patch.api_port, current.api_port),
        lan_access: api && pick(patch.lan_access, current.lan_access),
    }
}

/// Applies a patch to the current settings. An idle unload outside 1 to 240 minutes or an API
/// port below 1024 is refused (the idle check first).
pub fn apply_patch(current: AppSettings, patch: SettingsPatch) -> (result: Result<AppSettings, AppError>)
    ensures
        (patch.idle_unload_minutes matches Some(m) && !(1 <= m <= 240)) ==> (result matches Err(e)
            && is_error(e, ErrorKind::InvalidSetting, "idle unload must be between 1 and 240 minutes"@)),
        !(patch.idle_unload_minutes matches Some(m) && !(1 <= m <= 240)) && (patch.api_port matches Some(p) && p < 1024)
            ==> (result matches Err(e) && is_error(e, ErrorKind::InvalidSetting, "API port must be 1024 or higher"@)),
        !(patch.idle_unload_minutes matches Some(m) && !(1 <= m <= 240)) && !(patch.api_port matches Some(p) && p < 1024)
            ==> result == Ok::<AppSettings, AppError>(patched(current, patch)),
{
    match patch.idle_unload_minutes {
        Some(v) => if !(1 <= v && v <= 240) {
            return Err(AppError::InvalidSetting("idle unload must be between 1 and 240 minutes".to_owned()));
        },
        None => {},
    }
    match patch.api_port {
        Some(v) => if v < 1024 {
            return Err(AppError::InvalidSetting("API port must be 1024 or higher".to_owned()));
        },
        None => {},
    }
    let internet = take_or(patch.internet_access, current.internet_access);
    let api = take_or(patch.api_enabled, current.api_enabled);
    Ok(AppSettings {
        theme: take_or(patch.theme, current.theme),
        performance_profile: take_or(patch.performance_profile, current.performance_profile),
        keep_models_loaded: take_or(patch.keep_models_loaded, current.keep_models_loaded),
        idle_unload_minutes: take_or(patch.idle_unload_minutes, current.idle_unload_minutes),
        internet_access: internet,
        web_search: internet && take_or(patch.web_search, current.web_search),
        api_enabled: api,
        api_port: take_or(patch.api_port, current.api_port),
        lan_access: api && take_or(patch.lan_access, current.lan_access),
    })
}

fn take_or<T: Copy>(patch: Option<T>, current: T) -> (value: T)
    ensures
        value == pick(patch, current),
{
    match patch {
        Some(v) => v,
        None => current,
    }
}

/// Settings that any accepted update leaves behind: web search only with internet access, LAN
/// access only with the API, an idle unload of 1 to 240 minutes and an API port of 1024 or
/// higher.
pub open spec fn settings_consistent(s: AppSettings) -> bool {
    &&& (s.web_search ==> s.internet_access)
    &&& (s.lan_access ==> s.api_enabled)
    &&& 1 <= s.idle_unload_minutes <= 240
    &&& s.api_port >= 1024
}

/// The defaults are consistent, and every accepted update keeps consistent settings
/// consistent, whatever the patch.
pub proof fn law_updates_keep_settings_consistent(current: AppSettings, patch: SettingsPatch)
    ensures
        settings_consistent(default_settings()),
        settings_consistent(current) && !(patch.idle_unload_minutes matches Some(m) && !(1 <= m <= 240))
            && !(patch.api_port matches Some(p) && p < 1024) ==> settings_consistent(patched(current, patch)),
{
}

/// An empty patch changes nothing in consistent settings, and applying the same patch twice is
/// the same as applying it once.
pub proof fn law_patches_are_idempotent(current: AppSettings, patch: SettingsPatch)
    ensures
        settings_consistent(current) ==> patched(current, SettingsPatch {
            theme: None,
            performance_profile: None,
            keep_models_loaded: None,
            idle_unload_minutes: None,
            internet_access: None,
            web_search: None,
            api_enabled: None,
            api_port: None,
            lan_access: None,
        }) == current,
        patched(patched(current, patch), patch) == patched(current, patch),
{
}

} // verus!
