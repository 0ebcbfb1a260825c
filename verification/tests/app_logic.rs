use songrec::csv_song_history::{IsSong, SongHistoryRecord};
use songrec::preferences::{Preferences, PreferencesInterface};
use songrec::preferences_interface as simple_prefs;
use songrec::pulseaudio_loopback::{PactlItemInfo, PulseaudioLoopback};

fn source(index: u64, is_monitor: bool) -> PactlItemInfo {
    PactlItemInfo {
        is_monitor,
        name: format!("source-{}", index),
        source_index: None,
        index,
    }
}

fn output(index: u64, name: &str, source_index: Option<u64>) -> PactlItemInfo {
    PactlItemInfo {
        is_monitor: false,
        name: name.to_string(),
        source_index,
        index,
    }
}

#[test]
fn preferences_update_keeps_unset_fields() {
    let mut interface = PreferencesInterface::new(Some("prefs.toml".to_string()), None);
    assert_eq!(interface.preferences.enable_notifications, Some(true));
    assert_eq!(interface.preferences.enable_mpris, Some(false));

    let mut chosen = Preferences::new();
    chosen.enable_mpris = Some(true);
    chosen.current_device_name = Some("front-mic".to_string());
    interface.update(chosen);

    assert_eq!(interface.preferences.enable_notifications, Some(true));
    assert_eq!(interface.preferences.enable_mpris, Some(true));
    assert_eq!(
        interface.preferences.current_device_name,
        Some("front-mic".to_string())
    );

    // A second update with nothing chosen changes nothing.
    interface.update(Preferences::new());
    assert_eq!(interface.preferences.enable_notifications, Some(true));
    assert_eq!(interface.preferences.enable_mpris, Some(true));
    assert_eq!(
        interface.preferences.current_device_name,
        Some("front-mic".to_string())
    );
}

#[test]
fn loaded_preferences_are_kept_as_parsed() {
    let parsed = Preferences {
        enable_notifications: Some(false),
        enable_mpris: None,
        current_device_name: None,
    };
    let interface = PreferencesInterface::new(None, Some(parsed));
    assert_eq!(interface.preferences.enable_notifications, Some(false));
    assert_eq!(interface.preferences.enable_mpris, None);
}

#[test]
fn simple_preferences_fall_back_to_defaults() {
    let interface = simple_prefs::PreferencesInterface::new("prefs.toml".to_string(), None);
    assert!(interface.preferences.enable_notifications);
    assert_eq!(interface.preferences.device_name, "");

    let loaded = simple_prefs::Preferences {
        enable_notifications: false,
        device_name: "usb-mic".to_string(),
    };
    let interface = simple_prefs::PreferencesInterface::new("prefs.toml".to_string(), Some(loaded));
    assert!(!interface.preferences.enable_notifications);
    assert_eq!(interface.preferences.device_name, "usb-mic");
}

#[test]
fn monitor_and_plain_sources_are_found_in_order() {
    let sources = vec![source(5, false), source(7, true), source(9, true)];
    assert_eq!(
        PulseaudioLoopback::get_audio_monitor_source_index(&sources),
        Some(7)
    );
    assert_eq!(
        PulseaudioLoopback::get_audio_non_monitor_source_index(&sources),
        Some(5)
    );
    assert_eq!(
        PulseaudioLoopback::get_audio_monitor_source_index(&vec![source(1, false)]),
        None
    );
}

#[test]
fn own_source_output_is_found_by_name() {
    let outputs = vec![
        output(11, "browser", Some(5)),
        output(26, "songrec", Some(7)),
        output(30, "songrec", Some(5)),
    ];
    assert_eq!(
        PulseaudioLoopback::get_songrec_source_output_index(&outputs),
        Some(26)
    );
    assert_eq!(
        PulseaudioLoopback::get_songrec_source_output_index(&vec![]),
        None
    );
}

#[test]
fn source_verdicts_follow_the_first_own_output() {
    let sources = vec![source(5, false), source(7, true)];
    let recording_from_monitor = vec![output(26, "songrec", Some(7))];
    let recording_from_mic = vec![output(26, "songrec", Some(5))];
    let recording_elsewhere = vec![output(26, "songrec", Some(40))];
    let no_own_output = vec![output(11, "browser", Some(7))];

    assert_eq!(
        PulseaudioLoopback::get_whether_audio_source_is_monitor(&recording_from_monitor, &sources),
        Some(true)
    );
    assert_eq!(
        PulseaudioLoopback::get_whether_audio_source_is_monitor(&recording_from_mic, &sources),
        Some(false)
    );
    assert_eq!(
        PulseaudioLoopback::get_whether_audio_source_is_known(&recording_from_monitor, &sources),
        Some(true)
    );
    assert_eq!(
        PulseaudioLoopback::get_whether_audio_source_is_known(&recording_elsewhere, &sources),
        Some(false)
    );
    assert_eq!(
        PulseaudioLoopback::get_whether_audio_source_is_known(&no_own_output, &sources),
        None
    );
}

#[test]
fn a_history_record_projects_to_its_song() {
    let record = SongHistoryRecord {
        song_name: "Title".to_string(),
        album: Some("Album".to_string()),
        track_key: Some("key".to_string()),
        release_year: Some("1999".to_string()),
        genre: None,
        recognition_date: "today".to_string(),
    };
    let song = record.clone().get_song();
    assert_eq!(song.song_name, "Title");
    assert_eq!(song.album, Some("Album".to_string()));
    assert_eq!(song.track_key, Some("key".to_string()));
    assert_eq!(song.release_year, Some("1999".to_string()));
    assert_eq!(song.genre, None);
}
