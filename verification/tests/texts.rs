use focuslock::commands::{
    list_sound_files, sound_source_error, DirEntryInfo,
    encode_sound_data, fmt_display, is_audio_extension_lower, is_supported_sound_extension,
    stage_type_str, status_str, strip_version_prefix, SoundFileInfo, StatusResponse,
    UpdateCheckResponse,
};
use focuslock::config::{RestReminderMode, StageType};
use focuslock::engine::timer::{EngineEvent, SoundCue};
use focuslock::notify::{fmt_remaining, notification_for};
use focuslock::overlay::{overlay_action_for, OverlayAction};
use focuslock::overlay::{
    clamp_opacity, fullscreen_url, hotplug_url, overlay_label, popup_position, popup_rect,
    popup_url, url_encode,
};
use focuslock::platform::{MacosMonitorApi, MonitorApi, MonitorRect};
use focuslock::state::Status;
use focuslock::tray::{icon_for_status, status_label, tooltip, TrayIcon};
use focuslock::version::{is_newer_version, parse_version};
use focuslock::overlay::overlays_to_open;

#[test]
fn clock_display() {
    assert_eq!(fmt_display(0), "00:00");
    assert_eq!(fmt_display(2672), "44:32");
    assert_eq!(fmt_display(59), "00:59");
    assert_eq!(fmt_display(6000), "100:00");
    assert_eq!(focuslock::tray::fmt_remaining(905), "15:05");
}

#[test]
fn protocol_names() {
    assert_eq!(status_str(Status::Running), "running");
    assert_eq!(status_str(Status::Paused), "paused");
    assert_eq!(status_str(Status::Resting), "resting");
    assert_eq!(stage_type_str(StageType::Work), "work");
    assert_eq!(stage_type_str(StageType::Rest), "rest");
}

#[test]
fn status_snapshot() {
    let r = StatusResponse::from_snapshot(Status::Resting, 3, StageType::Rest, 61);
    assert_eq!(r.status, "resting");
    assert_eq!(r.stage_index, 3);
    assert_eq!(r.stage_type, "rest");
    assert_eq!(r.remaining_seconds, 61);
    assert_eq!(r.remaining_display, "01:01");
}

#[test]
fn update_check_answer() {
    let r = UpdateCheckResponse::from_release(Some("1.2.0".to_string()), "v1.3.0", "https://x/r".to_string());
    assert_eq!(r.current, "1.2.0");
    assert_eq!(r.latest, "1.3.0");
    assert_eq!(r.url, "https://x/r");
    assert!(r.has_update);
    let r = UpdateCheckResponse::from_release(Some("v1.3.0".to_string()), "vv1.3.0", String::new());
    assert_eq!(r.latest, "1.3.0");
    assert!(!r.has_update);
    // An installed build newer than the release is no update.
    let r = UpdateCheckResponse::from_release(Some("1.1.0".to_string()), "v1.0.0", String::new());
    assert!(!r.has_update);
    let r = UpdateCheckResponse::from_release(Some("1.9.0".to_string()), "v1.10.0", String::new());
    assert!(r.has_update);
    let r = UpdateCheckResponse::from_release(None, "0.0.0", String::new());
    assert_eq!(r.current, "0.0.0");
    assert!(!r.has_update);
    assert_eq!(strip_version_prefix("vvv"), "");
    assert_eq!(strip_version_prefix("1.v"), "1.v");
}

#[test]
fn sound_extensions() {
    assert!(is_supported_sound_extension("MP3"));
    assert!(is_supported_sound_extension("Flac"));
    assert!(is_supported_sound_extension("m4a"));
    assert!(!is_supported_sound_extension("txt"));
    assert!(!is_supported_sound_extension(""));
    assert!(!is_audio_extension_lower("MP3"));
    assert!(is_audio_extension_lower("ogg"));
}

#[test]
fn sound_file_entry() {
    let s = SoundFileInfo::from_parts(Some("bell".to_string()), "bell.mp3".to_string(), "/d/bell.mp3".to_string());
    assert_eq!(s.name, "bell");
    assert_eq!(s.file, "bell.mp3");
    assert_eq!(s.path, "/d/bell.mp3");
    let s = SoundFileInfo::from_parts(None, ".mp3".to_string(), "/d/.mp3".to_string());
    assert_eq!(s.name, ".mp3");
}

#[test]
fn base64_of_sound_data() {
    assert_eq!(encode_sound_data(b""), "");
    assert_eq!(encode_sound_data(b"f"), "Zg==");
    assert_eq!(encode_sound_data(b"fo"), "Zm8=");
    assert_eq!(encode_sound_data(b"foo"), "Zm9v");
    assert_eq!(encode_sound_data(b"hello"), "aGVsbG8=");
    assert_eq!(encode_sound_data(&[0xfb, 0xff]), "+/8=");
}

#[test]
fn notify_durations() {
    assert_eq!(fmt_remaining(59), "59 秒");
    assert_eq!(fmt_remaining(60), "1 分 0 秒");
    assert_eq!(fmt_remaining(2672), "44 分 32 秒");
}

#[test]
fn notifications_per_event() {
    let n = notification_for(&EngineEvent::WorkStarted { remaining: 2700 }).unwrap();
    assert_eq!(n.0, "FocusLock · 开始工作");
    assert_eq!(n.1, "进入工作阶段，剩余 45 分 0 秒");
    let n = notification_for(&EngineEvent::PrepareRest { remaining: 30 }).unwrap();
    assert_eq!(n.0, "FocusLock · 即将休息");
    assert_eq!(n.1, "剩余 30 秒，请保存工作。如需暂停循环，请右键托盘选「暂停 / 恢复」。");
    let n = notification_for(&EngineEvent::RestStarted { remaining: 900, mode: RestReminderMode::Popup }).unwrap();
    assert_eq!(n.1, "弹窗模式，剩余 15 分 0 秒。按快捷键可跳过休息。");
    let n = notification_for(&EngineEvent::RestStarted { remaining: 5, mode: RestReminderMode::Fullscreen }).unwrap();
    assert_eq!(n.1, "全屏遮罩模式，剩余 5 秒。按快捷键可跳过休息。");
    assert!(notification_for(&EngineEvent::RestEnded).is_none());
    assert!(notification_for(&EngineEvent::PlaySound { cue: SoundCue::RestEnd }).is_none());
    let n = notification_for(&EngineEvent::RestSkipped).unwrap();
    assert_eq!(n, ("FocusLock · 已跳过休息".to_string(), "进入下一个工作阶段。".to_string()));
    let n = notification_for(&EngineEvent::StatusChanged { status: Status::Paused, remaining: 3 }).unwrap();
    assert_eq!(n.0, "FocusLock · 已暂停");
    let n = notification_for(&EngineEvent::StatusChanged { status: Status::Running, remaining: 61 }).unwrap();
    assert_eq!(n.1, "继续倒计时，剩余 1 分 1 秒");
    assert!(notification_for(&EngineEvent::StatusChanged { status: Status::Resting, remaining: 1 }).is_none());
    let n = notification_for(&EngineEvent::ResetDueToInactivity).unwrap();
    assert_eq!(n.0, "FocusLock · 检测到长时间离开");
}

#[test]
fn tray_texts() {
    assert_eq!(status_label(Status::Running), "工作中");
    assert_eq!(status_label(Status::Resting), "休息中");
    assert_eq!(status_label(Status::Paused), "已暂停");
    assert_eq!(tooltip(Status::Running, 2672), "FocusLock · 工作中，剩余 44:32");
    assert_eq!(icon_for_status(Status::Running), TrayIcon::Working);
    assert_eq!(icon_for_status(Status::Resting), TrayIcon::Resting);
    assert_eq!(icon_for_status(Status::Paused), TrayIcon::Paused);
}

#[test]
fn url_encoding() {
    assert_eq!(url_encode("Az09-_.~"), "Az09-_.~");
    assert_eq!(url_encode("a b&c"), "a%20b%26c");
    assert_eq!(url_encode("休息"), "%E4%BC%91%E6%81%AF");
    assert_eq!(url_encode(""), "");
}

#[test]
fn overlay_addresses() {
    assert_eq!(overlay_label(0), "overlay-0");
    assert_eq!(overlay_label(12), "overlay-12");
    assert_eq!(
        fullscreen_url(true, 900, 95, "休息 一下"),
        "/#/overlay?primary=1&remaining=900&opacity=95&msg=%E4%BC%91%E6%81%AF%20%E4%B8%80%E4%B8%8B"
    );
    assert_eq!(popup_url(30, 100, "ok"), "/#/overlay?popup=1&remaining=30&opacity=100&msg=ok");
    assert_eq!(hotplug_url(false), "/#/overlay?primary=0&remaining=0");
    assert_eq!(clamp_opacity(250), 100);
    assert_eq!(clamp_opacity(40), 40);
}

#[test]
fn popup_sits_bottom_right_of_primary() {
    let primary = MonitorRect { x: 0, y: 0, width: 1920, height: 1080, is_primary: true };
    let popup = popup_rect();
    assert_eq!((popup.width, popup.height), (340, 220));
    assert_eq!(popup_position(&primary, &popup), (1920 - 340 - 40, 1080 - 220 - 60));
}

#[test]
fn macos_monitor_list_is_empty() {
    assert!(MacosMonitorApi.list_monitors().is_empty());
}

#[test]
fn overlay_follows_events() {
    assert_eq!(
        overlay_action_for(&EngineEvent::RestStarted { remaining: 900, mode: RestReminderMode::Fullscreen }),
        OverlayAction::Show { remaining: 900 }
    );
    assert_eq!(overlay_action_for(&EngineEvent::RestEnded), OverlayAction::CloseAll);
    assert_eq!(
        overlay_action_for(&EngineEvent::PlaySound { cue: SoundCue::WorkEnd }),
        OverlayAction::Keep
    );
    assert_eq!(overlay_action_for(&EngineEvent::RestSkipped), OverlayAction::CloseAll);
    assert_eq!(
        overlay_action_for(&EngineEvent::StatusChanged { status: Status::Paused, remaining: 9 }),
        OverlayAction::CloseAll
    );
    assert_eq!(
        overlay_action_for(&EngineEvent::StatusChanged { status: Status::Resting, remaining: 9 }),
        OverlayAction::Keep
    );
    assert_eq!(overlay_action_for(&EngineEvent::WorkStarted { remaining: 1 }), OverlayAction::Keep);
}

#[test]
fn version_ordering() {
    assert_eq!(parse_version("1.10.2"), Some(vec![1, 10, 2]));
    assert_eq!(parse_version("1..2"), None);
    assert_eq!(parse_version("1.2."), None);
    assert_eq!(parse_version(""), None);
    assert_eq!(parse_version("1.0-beta"), None);
    assert_eq!(parse_version("99999999999999999999"), None);
    assert!(is_newer_version("1.0.1", "1.0.0"));
    assert!(!is_newer_version("1.0", "1.0.0"));
    assert!(!is_newer_version("1.0.0", "1.0"));
    assert!(is_newer_version("2", "1.9.9"));
    assert!(!is_newer_version("0.9", "1.0"));
    // A pre-release comes before its release; build parts do not count.
    assert!(!is_newer_version("1.0.0-beta", "1.0.0"));
    assert!(is_newer_version("1.0.0", "1.0.0-beta"));
    assert!(!is_newer_version("1.2.3+b", "1.2.3"));
    assert!(!is_newer_version("1.2.3", "1.2.3+b"));
    assert!(is_newer_version("1.2.4-rc1", "1.2.3"));
    // Texts that are not versions are never newer.
    assert!(!is_newer_version("nightly", "nightly"));
    assert!(!is_newer_version("nightly", "1.0.0"));
    assert!(!is_newer_version("1.0.0", "nightly"));
    assert!(!is_newer_version("1.0.0-", "0.9"));
    assert!(!is_newer_version("1.0.0-a..b", "0.9"));
}

#[test]
fn prerelease_precedence_chain() {
    let chain = [
        "1.0.0-alpha",
        "1.0.0-alpha.1",
        "1.0.0-alpha.beta",
        "1.0.0-beta",
        "1.0.0-beta.2",
        "1.0.0-beta.11",
        "1.0.0-rc.1",
        "1.0.0",
    ];
    for i in 0..chain.len() {
        for j in 0..chain.len() {
            assert_eq!(is_newer_version(chain[j], chain[i]), j > i, "{} vs {}", chain[j], chain[i]);
        }
    }
}

#[test]
fn update_answer_for_prerelease_tag() {
    let r = UpdateCheckResponse::from_release(
        Some("1.2.3".to_string()),
        "v1.2.3-rc1",
        "https://example.invalid/r".to_string(),
    );
    assert_eq!(r.current, "1.2.3");
    assert_eq!(r.latest, "1.2.3-rc1");
    assert!(!r.has_update);
    let r = UpdateCheckResponse::from_release(Some("1.2.3".to_string()), "v1.2.3+b", String::new());
    assert!(!r.has_update);
    let r = UpdateCheckResponse::from_release(Some("1.2.3-rc1".to_string()), "v1.2.3", String::new());
    assert!(r.has_update);
}

fn entry(file: &str, stem: Option<&str>, ext: &str, is_file: bool) -> DirEntryInfo {
    DirEntryInfo {
        file_name: file.to_string(),
        stem: stem.map(|s| s.to_string()),
        extension: ext.to_string(),
        path: format!("/s/{}", file),
        is_file,
    }
}

#[test]
fn sound_folder_listing() {
    let entries = vec![
        entry("bell.MP3", Some("bell"), "MP3", true),
        entry("notes.txt", Some("notes"), "txt", true),
        entry("dir.wav", Some("dir"), "wav", false),
        entry(".ogg", None, "ogg", true),
        entry("chime.flac", Some("chime"), "flac", true),
    ];
    let list = list_sound_files(&entries);
    let got: Vec<(String, String, String)> =
        list.into_iter().map(|i| (i.name, i.file, i.path)).collect();
    assert_eq!(
        got,
        vec![
            ("bell".to_string(), "bell.MP3".to_string(), "/s/bell.MP3".to_string()),
            (".ogg".to_string(), ".ogg".to_string(), "/s/.ogg".to_string()),
            ("chime".to_string(), "chime.flac".to_string(), "/s/chime.flac".to_string()),
        ]
    );
}

#[test]
fn sound_import_errors() {
    assert_eq!(sound_source_error(false, "mp3"), Some("源文件不存在"));
    assert_eq!(sound_source_error(false, "txt"), Some("源文件不存在"));
    assert_eq!(
        sound_source_error(true, "txt"),
        Some("不支持的音频格式，请选择 mp3/wav/aac/ogg/flac/m4a 文件")
    );
    assert_eq!(sound_source_error(true, "M4A"), None);
}

#[test]
fn overlays_open_once_per_monitor() {
    assert_eq!(overlays_to_open(3, &vec![]), vec![0, 1, 2]);
    let open = vec![overlay_label(1), "overlay-popup".to_string()];
    assert_eq!(overlays_to_open(3, &open), vec![0, 2]);
    let all = vec![overlay_label(0), overlay_label(1), overlay_label(2)];
    assert_eq!(overlays_to_open(3, &all), Vec::<usize>::new());
    assert_eq!(overlays_to_open(0, &open), Vec::<usize>::new());
}
