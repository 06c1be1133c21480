use cowatcher::ai::{system_prompt, ConfigView, SUREY_BRIEF};
use cowatcher::actions::DeviceStatus;
use cowatcher::cloud::{ClassroomSnapshot, DeviceFacts, SyncClient};
use cowatcher::provider::{parse_kind, ProviderConfig, ProviderKind};
use cowatcher::settings::{Settings, Theme};
use cowatcher::subscription::view_of;

#[test]
fn the_brief_names_surey_and_forbids_a_shell() {
    assert!(SUREY_BRIEF.contains("Surey"));
    assert!(SUREY_BRIEF.contains("no shell"));
}

#[test]
fn base_url_trims_trailing_slash_and_space() {
    let cfg = ProviderConfig {
        base_url: "  https://omniroute.example/v1/  ".to_string(),
        ..ProviderConfig::default()
    };
    assert_eq!(cfg.trimmed_base(), "https://omniroute.example/v1");
}

#[test]
fn not_configured_without_endpoint_or_licence() {
    assert!(!SyncClient::new(String::new(), None).is_configured());
    assert!(!SyncClient::new("https://d.example".into(), None).is_configured());
    assert!(!SyncClient::new("https://d.example".into(), Some(String::new())).is_configured());
    assert!(SyncClient::new("https://d.example".into(), Some("LIC".into())).is_configured());
}

#[test]
fn defaults_have_ai_on_and_dark_theme() {
    let s = Settings::default();
    assert!(s.ai_enabled);
    assert_eq!(s.theme, Theme::Dark);
}

#[test]
fn only_anthropic_speaks_the_messages_api() {
    assert!(ProviderKind::Anthropic.is_anthropic());
    assert!(!ProviderKind::OpenAi.is_anthropic());
    assert!(!ProviderKind::Local.is_anthropic());
    assert_eq!(parse_kind("anthropic"), ProviderKind::Anthropic);
    assert_eq!(parse_kind("whatever"), ProviderKind::Custom);
}

#[test]
fn the_default_provider_is_openai() {
    let c = ProviderConfig::default();
    assert_eq!(c.kind, ProviderKind::OpenAi);
    assert_eq!(c.base_url, "https://api.openai.com/v1");
    assert_eq!(c.model, "gpt-4o-mini");
}

#[test]
fn the_sync_card_says_what_is_missing() {
    let none = SyncClient::new(" https://d.example/// ".into(), None);
    assert_eq!(none.endpoint(), "https://d.example");
    let status = none.status();
    assert!(!status.configured);
    assert_eq!(status.detail, "add a licence key to enable cloud sync");
    assert_eq!(none.require(), Err("cloud sync needs a licence key (add one in the subscription card)".to_string()));
    let empty = SyncClient::new(String::new(), Some("LIC".into()));
    assert!(empty.status().detail.starts_with("cloud sync is not configured yet"));
    assert_eq!(empty.require(), Err("cloud sync is not configured yet (no dashboard URL)".to_string()));
    let ready = SyncClient::new("https://d.example/".into(), Some("LIC".into()));
    assert_eq!(ready.status().detail, "ready to sync");
    assert_eq!(ready.require(), Ok(&"LIC".to_string()));
    assert_eq!(ready.snapshot_url("lab-7"), "https://d.example/api/classrooms/lab-7/snapshot");
}

#[test]
fn a_snapshot_carries_metadata_and_no_secrets() {
    let devices = vec![DeviceFacts {
        device_id: "K7M2Q9".into(),
        name: Some("Front left".into()),
        status: DeviceStatus::Live,
    }];
    let snap = ClassroomSnapshot::build("lab-7", "Lab 7", "Classroom", &devices, vec!["game.exe".into()], 42);
    assert_eq!(snap.version, ClassroomSnapshot::VERSION);
    assert_eq!(snap.devices[0].status, "live");
    assert_eq!(snap.devices[0].name.as_deref(), Some("Front left"));
    assert_eq!(snap.taken_at_ms, 42);
}

#[test]
fn the_plan_follows_the_licence() {
    assert_eq!(view_of(String::new(), false).plan, "free");
    assert_eq!(view_of("https://dash.example/team".into(), true).plan, "custom");
}

#[test]
fn the_prompt_lists_every_paired_pc() {
    let none = system_prompt(&[]);
    assert!(none.starts_with(SUREY_BRIEF));
    assert!(none.ends_with("\n(none paired yet)"));
    let devices = vec![
        DeviceFacts { device_id: "A1".into(), name: None, status: DeviceStatus::Offline },
        DeviceFacts { device_id: "B2".into(), name: Some("PC 4".into()), status: DeviceStatus::Live },
    ];
    let p = system_prompt(&devices);
    assert!(p.ends_with("\n- A1 \u{2014} (unnamed) \u{2014} offline\n- B2 \u{2014} PC 4 \u{2014} live"));
}

#[test]
fn the_settings_view_of_a_fresh_config_shows_no_key() {
    let view = ConfigView::of(&ProviderConfig::default(), false);
    assert!(!view.has_key);
    assert_eq!(view.kind, ProviderKind::OpenAi);
    assert_eq!(view.base_url, "https://api.openai.com/v1");
    assert_eq!(view.model, "gpt-4o-mini");
}
