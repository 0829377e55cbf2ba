use breakbar::account::AccountId;
use breakbar::config::{
    AfterStart, Config, FpsLimit, LanguageChoice, OverlaySettings, ThemeChoice, CURRENT_VERSION,
};
use breakbar::profile::{
    StoreError, build_record, is_leftover, local_dat_path, parse_build_record, profile_dir,
    prune_targets, shared_profile_dir, sweep_targets, trash_name, verified_build_path,
};
use breakbar::profile::{TrashMove, prune_temp, sweep_leftovers, trash_profile};
use breakbar::writer::{Job, Queue};
use breakbar::profile::default_config_path;

#[test]
fn overlay_opacity_stays_in_range() {
    let opacity = |idle_opacity| OverlaySettings {
        idle_opacity,
        ..OverlaySettings::default()
    };
    assert_eq!(opacity(0).opacity_percent(), 30);
    assert_eq!(opacity(58).opacity_percent(), 58);
    assert_eq!(opacity(250).opacity_percent(), 100);
}

#[test]
fn defaults_match_a_fresh_config() {
    let config = Config::default();
    assert_eq!(config.version, CURRENT_VERSION);
    assert_eq!(config.gw2_path, None);
    assert!(config.accounts.is_empty() && config.companions.is_empty());
    assert_eq!(config.after_start, AfterStart::MinimizeToTray);
    assert_eq!(config.fps_limit, FpsLimit::Fps60);
    assert_eq!(config.theme, ThemeChoice::System);
    assert_eq!(config.language, LanguageChoice::System);
    assert_eq!(config.overlay, OverlaySettings::default());
    assert_eq!(config.overlay.idle_opacity, 58);
    assert!(config.overlay.enabled && config.overlay.only_when_running);
    assert!(!config.overlay.lock_position);
    assert_eq!(config.overlay_position, None);
}

#[test]
fn frame_rate_limits() {
    assert_eq!(FpsLimit::Fps60.frames_per_second(), Some(60));
    assert_eq!(FpsLimit::Fps30.frames_per_second(), Some(30));
    assert_eq!(FpsLimit::Unlimited.frames_per_second(), None);
}

#[test]
fn profile_dir_is_under_local_app_data() {
    let dir = profile_dir(Some(r"C:\Users\me\AppData\Local"), AccountId(42)).unwrap();
    assert!(dir.starts_with(r"C:\Users\me\AppData\Local"));
    assert!(dir.ends_with(r"Breakbar\profiles\42"));
    assert_eq!(dir, r"C:\Users\me\AppData\Local\Breakbar\profiles\42");
}

#[test]
fn profile_paths() {
    let local = Some(r"C:\L\");
    assert_eq!(shared_profile_dir(local).unwrap(), r"C:\L\Breakbar\profiles\shared");
    assert_eq!(
        local_dat_path(local, AccountId(3)).unwrap(),
        r"C:\L\Breakbar\profiles\3\Guild Wars 2\Local.dat"
    );
    assert_eq!(
        verified_build_path(local, AccountId(3)).unwrap(),
        r"C:\L\Breakbar\profiles\3\build-verified.txt"
    );
}

#[test]
fn missing_local_app_data_is_reported() {
    assert_eq!(profile_dir(None, AccountId(1)), Err(StoreError::NoLocalAppData));
    assert_eq!(shared_profile_dir(None), Err(StoreError::NoLocalAppData));
    assert_eq!(local_dat_path(None, AccountId(1)), Err(StoreError::NoLocalAppData));
}

#[test]
fn build_records_read_back() {
    assert_eq!(build_record(171_234), "171234");
    assert_eq!(parse_build_record(&build_record(171_234)), Some(171_234));
    assert_eq!(parse_build_record(" 42\r\n"), Some(42));
    assert_eq!(parse_build_record("+7"), Some(7));
    assert_eq!(parse_build_record("x42"), None);
    assert_eq!(parse_build_record(""), None);
    assert_eq!(parse_build_record("18446744073709551616"), None);
}

#[test]
fn a_trashed_folder_gets_a_recognizable_name() {
    let trash = trash_name("7", 1234, 0);
    assert_eq!(trash, "7.deleting-1234-0");
    assert!(trash.starts_with("7.deleting-"));
    assert!(is_leftover(&trash));
    assert!(!is_leftover("7"));
    assert!(!is_leftover("shared"));
}

#[test]
fn leftovers_of_a_deletion_are_swept_but_profiles_are_not() {
    let names: Vec<String> = ["1", "shared", "2.deleting-99-0", "3.deleting-99-1"]
        .iter()
        .map(|n| n.to_string())
        .collect();
    assert_eq!(
        sweep_targets(&names),
        ["2.deleting-99-0", "3.deleting-99-1"]
    );
}

#[test]
fn only_old_entries_of_the_temp_folder_are_pruned() {
    let day = 24 * 60 * 60;
    let now = 100 * day;
    let entries = vec![
        ("old-file".to_string(), now - 30 * day),
        ("new-file".to_string(), now),
        ("old-dir".to_string(), now - 30 * day),
    ];
    assert_eq!(
        prune_targets(&entries, now, 14 * day),
        ["old-file", "old-dir"]
    );
    assert!(prune_targets(&entries, 5, 14 * day).is_empty());
    assert!(prune_targets(&Vec::new(), now, 0).is_empty());
}

#[test]
fn profiles_are_trashed_swept_and_pruned_by_path() {
    let local = Some(r"C:\L");
    assert_eq!(
        trash_profile(local, AccountId(7), true, 99, 3),
        Ok(Some(TrashMove {
            from: r"C:\L\Breakbar\profiles\7".to_string(),
            to: r"C:\L\Breakbar\profiles\7.deleting-99-3".to_string(),
        }))
    );
    assert_eq!(trash_profile(local, AccountId(7), false, 99, 3), Ok(None));
    assert_eq!(trash_profile(None, AccountId(7), true, 99, 3), Err(StoreError::NoLocalAppData));
    let names = vec!["1".to_string(), "2.deleting-1-0".to_string()];
    assert_eq!(
        sweep_leftovers(local, &names),
        [r"C:\L\Breakbar\profiles\2.deleting-1-0"]
    );
    assert!(sweep_leftovers(None, &names).is_empty());
    let entries = vec![("cache".to_string(), 1), ("new".to_string(), 100)];
    assert_eq!(
        prune_temp(local, AccountId(7), &entries, 100, 50),
        [r"C:\L\Breakbar\profiles\7\Temp\cache"]
    );
    assert!(prune_temp(None, AccountId(7), &entries, 100, 50).is_empty());
}

#[test]
fn the_newest_config_is_what_gets_written() {
    let mut queue = Queue::new();
    assert_eq!(queue.next_job(), Job::Wait);
    for n in 0..50 {
        queue.submit("config.toml".to_string(), format!("n = {n}"));
    }
    queue.shut_down();
    assert_eq!(
        queue.next_job(),
        Job::Write {
            path: "config.toml".to_string(),
            text: "n = 49".to_string()
        }
    );
    assert_eq!(queue.next_job(), Job::Stop);
}

#[test]
fn the_newest_submission_is_written_last_however_the_writer_runs() {
    let mut queue = Queue::new();
    let mut written = Vec::new();
    for n in 0..50 {
        queue.submit("config.toml".to_string(), format!("n = {n}"));
        if n % 7 == 0 {
            if let Job::Write { text, .. } = queue.next_job() {
                written.push(text);
            }
        }
    }
    queue.shut_down();
    loop {
        match queue.next_job() {
            Job::Write { text, .. } => written.push(text),
            Job::Stop => break,
            Job::Wait => panic!("a writer that was shut down does not wait"),
        }
    }
    assert_eq!(written.last().map(String::as_str), Some("n = 49"));
}

#[test]
fn the_config_lies_in_the_breakbar_folder_of_app_data() {
    assert_eq!(
        default_config_path(Some(r"C:\Users\me\AppData\Roaming"), Some(r"C:\Users\me\AppData\Local")),
        Ok(r"C:\Users\me\AppData\Roaming\Breakbar\config.toml".to_string())
    );
    assert_eq!(default_config_path(None, Some(r"C:\L")), Err(StoreError::NoAppData));
    assert_eq!(
        default_config_path(Some(r"C:\R"), None),
        Err(StoreError::NoLocalAppData)
    );
}
