use neuraloc_core::errors::AppError;
use neuraloc_core::settings::{apply_patch, AppSettings, SettingsPatch, Theme};

#[test]
fn defaults_are_private_and_local() {
    let settings = AppSettings::default();
    assert_eq!(settings.theme, Theme::Dark);
    assert_eq!(settings.idle_unload_minutes, 15);
    assert_eq!(settings.api_port, 11434);
    assert!(!settings.internet_access && !settings.web_search && !settings.api_enabled && !settings.lan_access);
}

#[test]
fn patches_are_validated_and_dependent_switches_follow() {
    let current = AppSettings::default();
    let patch = SettingsPatch { idle_unload_minutes: Some(0), ..SettingsPatch::default() };
    assert_eq!(
        apply_patch(current, patch),
        Err(AppError::InvalidSetting("idle unload must be between 1 and 240 minutes".into()))
    );
    let patch = SettingsPatch { api_port: Some(80), ..SettingsPatch::default() };
    assert_eq!(apply_patch(current, patch), Err(AppError::InvalidSetting("API port must be 1024 or higher".into())));
    let patch = SettingsPatch { web_search: Some(true), lan_access: Some(true), ..SettingsPatch::default() };
    let updated = apply_patch(current, patch).unwrap();
    assert!(!updated.web_search);
    assert!(!updated.lan_access);
    let patch = SettingsPatch { internet_access: Some(true), web_search: Some(true), theme: Some(Theme::Light), ..SettingsPatch::default() };
    let updated = apply_patch(current, patch).unwrap();
    assert!(updated.internet_access && updated.web_search);
    assert_eq!(updated.theme, Theme::Light);
    assert_eq!(apply_patch(updated, patch).unwrap(), updated);
}
