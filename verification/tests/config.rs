use focuslock::config::{
    default_overlay_style, default_rest_message, Config, OverlayStyle, RestReminderMode, Stage,
    StageType,
};
use focuslock::startup::{resolve_stored_config, StoredConfig};

#[test]
fn default_config_is_valid() {
    assert!(Config::default().validate().is_ok());
}

#[test]
fn empty_stages_invalid() {
    let mut cfg = Config::default();
    cfg.stages.clear();
    assert!(cfg.validate().is_err());
}

#[test]
fn no_work_stage_invalid() {
    let cfg = Config {
        stages: vec![Stage {
            stage_type: StageType::Rest,
            minutes: 5,
        }],
        ..Config::default()
    };
    assert!(cfg.validate().is_err());
}

#[test]
fn zero_minutes_invalid() {
    let mut cfg = Config::default();
    cfg.stages[0].minutes = 0;
    assert!(cfg.validate().is_err());
}

#[test]
fn default_config_values() {
    let c = Config::default();
    assert_eq!(c.stages.len(), 2);
    assert_eq!(c.stages[0], Stage { stage_type: StageType::Work, minutes: 45 });
    assert_eq!(c.stages[1], Stage { stage_type: StageType::Rest, minutes: 15 });
    assert_eq!(c.rest_reminder_mode, RestReminderMode::Fullscreen);
    assert_eq!(c.overlay_style, OverlayStyle::SemiTransparent);
    assert_eq!(c.rest_message, "现在休息");
    assert_eq!(c.reset_threshold_minutes, 30);
    assert_eq!(c.notify_before_work_end_minutes, 1);
    assert_eq!(c.skip_shortcut, "CmdOrCtrl+Shift+F2");
    assert!(!c.run_as_admin_autostart);
    assert_eq!(default_overlay_style(), OverlayStyle::SemiTransparent);
    assert_eq!(default_rest_message(), "现在休息");
}

#[test]
fn validate_reports_each_rule() {
    let mut c = Config::default();
    c.stages.clear();
    assert_eq!(c.validate(), Err("stages 不能为空".to_string()));

    let c = Config {
        stages: vec![Stage { stage_type: StageType::Rest, minutes: 5 }],
        ..Config::default()
    };
    assert_eq!(c.validate(), Err("stages 至少需要包含一个 work 阶段".to_string()));

    let mut c = Config::default();
    c.stages[1].minutes = 0;
    assert_eq!(c.validate(), Err("每个阶段 minutes 必须 > 0".to_string()));

    let mut c = Config::default();
    c.reset_threshold_minutes = 0;
    assert_eq!(c.validate(), Err("reset_threshold_minutes 必须 > 0".to_string()));

    let mut c = Config::default();
    c.skip_shortcut = " \t\u{3000}\n".to_string();
    assert_eq!(c.validate(), Err("skip_shortcut 不能为空".to_string()));

    let mut c = Config::default();
    c.skip_shortcut = String::new();
    assert_eq!(c.validate(), Err("skip_shortcut 不能为空".to_string()));

    let mut c = Config::default();
    c.skip_shortcut = "  F2 ".to_string();
    assert_eq!(c.validate(), Ok(()));
}

#[test]
fn validate_checks_rules_in_order() {
    // No work stage and a zero-minute stage: the work rule is reported first.
    let c = Config {
        stages: vec![Stage { stage_type: StageType::Rest, minutes: 0 }],
        reset_threshold_minutes: 0,
        ..Config::default()
    };
    assert_eq!(c.validate(), Err("stages 至少需要包含一个 work 阶段".to_string()));
}

#[test]
fn config_path_joins_data_dir() {
    assert_eq!(Config::config_path("/home/u/.config/FocusLock"), "/home/u/.config/FocusLock/config.json");
}

#[test]
fn stored_config_resolution() {
    let r = resolve_stored_config(StoredConfig::Missing);
    assert!(!r.fell_back);
    assert!(r.write_default);
    assert_eq!(r.config.stages.len(), 2);

    let r = resolve_stored_config(StoredConfig::Malformed);
    assert!(r.fell_back);
    assert!(r.write_default);

    let mut bad = Config::default();
    bad.stages.clear();
    let r = resolve_stored_config(StoredConfig::Parsed(bad));
    assert!(r.fell_back);
    assert!(r.write_default);
    assert_eq!(r.config.stages.len(), 2);

    let mut good = Config::default();
    good.stages[0].minutes = 25;
    let r = resolve_stored_config(StoredConfig::Parsed(good));
    assert!(!r.fell_back);
    assert!(!r.write_default);
    assert_eq!(r.config.stages[0].minutes, 25);
}
