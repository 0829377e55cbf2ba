use breakbar::launch_sequence::{LaunchAction as A, LaunchEvent as E, LaunchPhase, launch_step};
use breakbar::account::{Account, AccountId, Provider};
use breakbar::accounts::{
    LoginState, account_index, companion_toggles, file_name_safe, insert_position, login_state,
    move_account, next_account_id, toggle_companion,
};
use breakbar::cli::{step, CliArg, CliError, Command, Step, launch_names, parse};
use breakbar::companion::{CompanionApp, CompanionId, Scope, Trigger};
use breakbar::companions::{SharedUsers, apps_for, companions_of, start_failure, waits_for};
use breakbar::config::{OverlayPosition, OverlaySettings};
use breakbar::game::{
    Gw2PathError, check_client, exe_path, steam_candidates_in, steam_install_script,
    strip_icon_index,
};
use breakbar::launcher::{
    LaunchError, LaunchMode, LockWatch, client_for, exe_name, exit_during_startup, options_for,
    provider_env, setup_for, successor_candidates, working_dir,
};
use breakbar::list::{
    AccountRow, AccountState, Counts, ToastData, ToastKind, Toggle, account_row, clear_selection,
    dismiss_toast, idle_state, is_active, is_startable, launch_all_targets, move_in, push_toast,
    refresh_in, steam_busy, toggle_action, update_in,
};
use breakbar::overlay::{PositionSaver, on_screen, overlay_wanted, switcher_entries};
use breakbar::paths::{file_name, join, parent, with_file_name};
use breakbar::profile_link::{LinkState, LinkStep, ProfileLinkError, account_gw2_dir, point_to};
use breakbar::steam_setup::{Link, Plan, SteamFolderState, plan};
use breakbar::win::{clock_text, colorref, mount_point_buffer, run_command, timestamp_text};
use breakbar::accounts::resolve;
use breakbar::config::LanguageChoice;
use breakbar::game::{detect, steam_client};
use breakbar::launcher::{LaunchFailure, exit_status, launch_failure};
use breakbar::list::{ExitResult, exit_failure, rest_after_exit};
use breakbar::list::{login_check_state, login_saved, refresh_names, setup_finished};
use breakbar::locale::{language_tag, language_tag_for};
use breakbar::menu::{MenuItem, chosen_entry};
use breakbar::profile::StoreError;
use breakbar::profile_link::{point_to_account, point_to_shared, restore_shared_if_stranded};
use breakbar::win::{MAX_LOG_BYTES, log_line, needs_rotation};
use breakbar::list::TrayEntry as T;
use breakbar::overlay::{ChipAction, chip_action};
use breakbar::steam_setup::{SetupStep, SteamReady, steam_ready};
use breakbar::accounts::{duplicate_account, editor_account};

#[test]
fn strips_icon_index_and_quotes() {
    assert_eq!(
        strip_icon_index(r#""C:\Games\Gw2-64.exe",0"#),
        r"C:\Games\Gw2-64.exe"
    );
    assert_eq!(
        strip_icon_index(r"C:\Games\Gw2-64.exe"),
        r"C:\Games\Gw2-64.exe"
    );
    assert_eq!(
        strip_icon_index(r"C:\Games,Stuff\Gw2-64.exe"),
        r"C:\Games,Stuff\Gw2-64.exe"
    );
}

#[test]
fn icon_references_with_spaces_and_signs() {
    assert_eq!(strip_icon_index(r#"  "C:\G\Gw2-64.exe" , -1 "#), r"C:\G\Gw2-64.exe");
    assert_eq!(strip_icon_index("C:\\G\\a.exe,"), "C:\\G\\a.exe,");
    assert_eq!(strip_icon_index("\"\"\""), "");
}

fn image(machine: u16) -> Vec<u8> {
    let mut data = vec![0u8; 0x100];
    data[..2].copy_from_slice(b"MZ");
    data[0x3C..0x40].copy_from_slice(&0x80u32.to_le_bytes());
    data[0x80..0x84].copy_from_slice(b"PE\0\0");
    data[0x84..0x86].copy_from_slice(&machine.to_le_bytes());
    data
}

#[test]
fn clients_are_checked_by_header_and_name() {
    let x64 = image(0x8664);
    assert_eq!(check_client(b"text", None, r"C:\a\Gw2-64.exe"), Err(Gw2PathError::NotExecutable));
    assert_eq!(
        check_client(&image(0x014C), None, r"C:\a\Gw2-64.exe"),
        Err(Gw2PathError::Not64Bit)
    );
    assert_eq!(check_client(&x64, Some("Guild Wars 2"), r"C:\a\x.exe"), Ok(()));
    assert_eq!(
        check_client(&x64, Some("Notepad"), r"C:\a\Gw2-64.exe"),
        Err(Gw2PathError::NotGw2)
    );
    assert_eq!(check_client(&x64, None, r"C:\a\GW2-64.EXE"), Ok(()));
    assert_eq!(check_client(&x64, None, r"C:\a\notepad.exe"), Err(Gw2PathError::NotGw2));
}

#[test]
fn steam_candidates_follow_the_library_list() {
    let vdf = r#""libraryfolders" { "0" { "path" "D:\\Lib" } }"#;
    assert_eq!(
        steam_candidates_in(r"C:\Steam", Some(vdf)),
        [r"D:\Lib\steamapps\common\Guild Wars 2\Gw2-64.exe"]
    );
    assert_eq!(
        steam_candidates_in(r"C:\Steam", None),
        [r"C:\Steam\steamapps\common\Guild Wars 2\Gw2-64.exe"]
    );
    assert_eq!(exe_path(r"C:\G", true), r"C:\G\Gw2-64.exe");
    assert_eq!(exe_path(r"C:\G\Gw2-64.exe", false), r"C:\G\Gw2-64.exe");
    assert_eq!(steam_install_script(r"C:\G\Gw2-64.exe"), r"C:\G\install_script.vdf");
}

#[test]
fn paths_are_taken_apart_like_windows_does() {
    assert_eq!(join(r"C:\a", "b"), r"C:\a\b");
    assert_eq!(join(r"C:\a\", "b"), r"C:\a\b");
    assert_eq!(join("C:", "b"), "C:b");
    assert_eq!(join("", "b"), "b");
    assert_eq!(file_name(r"C:\a\b.exe"), Some("b.exe".to_string()));
    assert_eq!(file_name(r"C:\a\"), None);
    assert_eq!(file_name(r"C:\a\.."), None);
    assert_eq!(parent(r"C:\a\b.exe"), Some(r"C:\a".to_string()));
    assert_eq!(parent(r"C:\b.exe"), Some(r"C:\".to_string()));
    assert_eq!(parent("b.exe"), Some(String::new()));
    assert_eq!(with_file_name(r"C:\a\b.exe", "Gw2.dat"), r"C:\a\Gw2.dat");
}

#[test]
fn only_steam_accounts_get_the_steam_app_id() {
    let arenanet = Account::new(AccountId(1), "Main");
    assert!(provider_env(&arenanet).is_empty());

    let mut steam_account = Account::new(AccountId(2), "Steam");
    steam_account.provider = Provider::Steam;
    assert_eq!(
        provider_env(&steam_account),
        [("SteamAppId", "1284210".to_owned())]
    );
}

#[test]
fn missing_game_path_is_rejected_before_anything_else() {
    let account = Account::new(AccountId(1), "Main");
    assert_eq!(
        client_for(false, &account, r"C:\does\not\exist\Gw2-64.exe", None, true),
        Err(LaunchError::NoGamePath)
    );
    assert_eq!(
        client_for(true, &account, r"C:\G\Gw2-64.exe", None, false),
        Ok(r"C:\G\Gw2-64.exe".to_string())
    );
    let mut steam = Account::new(AccountId(2), "Alt");
    steam.provider = Provider::Steam;
    assert_eq!(
        client_for(true, &steam, r"C:\G\Gw2-64.exe", None, true),
        Err(LaunchError::SteamInstallMissing("Alt".to_string()))
    );
    assert_eq!(
        client_for(true, &steam, r"C:\G\Gw2-64.exe", Some(r"D:\S\Gw2-64.exe"), false),
        Err(LaunchError::SteamNotRunning("Alt".to_string()))
    );
    assert_eq!(
        client_for(true, &steam, r"C:\G\Gw2-64.exe", Some(r"D:\S\Gw2-64.exe"), true),
        Ok(r"D:\S\Gw2-64.exe".to_string())
    );
}

#[test]
fn setup_starts_need_the_other_clients_closed() {
    let account = Account::new(AccountId(1), "Main");
    assert_eq!(
        setup_for(&account, LaunchMode::Play, true, true, false, false),
        Err(LaunchError::AlreadyRunning("Main".to_string()))
    );
    assert_eq!(setup_for(&account, LaunchMode::Play, false, true, true, false), Ok(false));
    assert_eq!(
        setup_for(&account, LaunchMode::Play, false, false, true, false),
        Err(LaunchError::SetupNeedsExclusive("Main".to_string()))
    );
    assert_eq!(
        setup_for(&account, LaunchMode::Play, false, true, false, true),
        Err(LaunchError::SetupClientRunning)
    );
    assert_eq!(setup_for(&account, LaunchMode::SetUpLogin, false, true, false, true), Ok(true));
    let options = options_for(true);
    assert!(!options.share_archive && !options.autologin);
    let options = options_for(false);
    assert!(options.share_archive && options.autologin);
}

#[test]
fn the_lock_must_hold_for_three_seconds() {
    let mut watch = LockWatch::new(1000);
    assert_eq!(watch.poll(1100, true), None);
    assert_eq!(watch.poll(3000, false), None);
    assert_eq!(watch.poll(3100, true), None);
    assert_eq!(watch.poll(6099, true), None);
    assert_eq!(watch.poll(6100, true), Some(true));
    let mut slow = LockWatch::new(0);
    assert_eq!(slow.poll(119_999, false), None);
    assert_eq!(slow.poll(120_000, false), Some(false));
    slow.restart();
    assert_eq!(slow.locked_since, None);
}

#[test]
fn a_restarted_client_is_looked_for_among_new_processes() {
    assert_eq!(
        successor_candidates(10, &[11], &[10, 12, 13, 14], &[13]),
        [11, 12, 14]
    );
    assert!(exit_during_startup(0).is_ok());
    assert_eq!(exit_during_startup(5), Err(LaunchError::ExitedDuringStartup(5)));
    assert_eq!(exe_name(r"C:\G\Gw2-64.exe"), "Gw2-64.exe");
    assert_eq!(exe_name(r"C:\G\"), "Gw2-64.exe");
    assert_eq!(working_dir(r"C:\G\Gw2-64.exe"), r"C:\G");
}

fn row(id: i32, steam: bool, state: AccountState) -> AccountRow {
    AccountRow {
        id,
        name: format!("Account {id}"),
        steam,
        state,
        ..AccountRow::default()
    }
}

fn ids(list: &[AccountRow]) -> Vec<i32> {
    list.iter().map(|row| row.id).collect()
}

#[test]
fn updating_a_row_changes_only_that_row() {
    let mut list = vec![
        row(1, false, AccountState::Idle),
        row(2, false, AccountState::Idle),
    ];

    let changed = update_in(&mut list, AccountId(2), |row| AccountRow {
        state: AccountState::Running,
        ..row.clone()
    });

    assert!(changed);
    assert_eq!(list[0].state, AccountState::Idle);
    assert_eq!(list[1].state, AccountState::Running);
}

#[test]
fn an_update_that_changes_nothing_is_reported_as_such() {
    let mut list = vec![row(1, false, AccountState::Idle)];

    assert!(!update_in(&mut list, AccountId(1), |row| AccountRow {
        state: AccountState::Idle,
        ..row.clone()
    }));
    assert!(!update_in(&mut list, AccountId(9), |row| AccountRow {
        selected: true,
        ..row.clone()
    }));
}

#[test]
fn moving_a_row_shifts_the_ones_in_between() {
    let mut list: Vec<AccountRow> = (1..=4).map(|id| row(id, false, AccountState::Idle)).collect();

    move_in(&mut list, AccountId(1), 2);
    assert_eq!(ids(&list), [2, 3, 1, 4]);
    move_in(&mut list, AccountId(4), 0);
    assert_eq!(ids(&list), [4, 2, 3, 1]);
    // Past the end counts as the end; staying where it is changes nothing.
    move_in(&mut list, AccountId(4), 99);
    assert_eq!(ids(&list), [2, 3, 1, 4]);
    move_in(&mut list, AccountId(3), 1);
    assert_eq!(ids(&list), [2, 3, 1, 4]);
}

#[test]
fn a_running_steam_account_locks_the_other_steam_accounts() {
    let mut list = vec![
        row(1, true, AccountState::Running),
        row(2, true, AccountState::Idle),
        row(3, false, AccountState::Idle),
        AccountRow {
            selected: true,
            ..row(4, true, AccountState::NeedsLogin)
        },
    ];

    let counts = refresh_in(&mut list);

    assert_eq!(list[1].state, AccountState::Locked);
    assert_eq!(list[2].state, AccountState::Idle);
    assert_eq!(list[3].state, AccountState::Locked);
    assert_eq!(
        counts,
        Counts {
            running: 1,
            starting: 0,
            selected: 1
        }
    );
}

#[test]
fn a_stopped_steam_account_releases_the_lock() {
    let mut list = vec![
        row(1, true, AccountState::Idle),
        row(2, true, AccountState::Locked),
        row(3, false, AccountState::Stopping),
    ];
    let counts = refresh_in(&mut list);
    assert_eq!(list[1].state, AccountState::Idle);
    assert_eq!(counts.running, 1);
}

#[test]
fn states_and_buttons() {
    assert!(is_startable(AccountState::Error) && !is_active(AccountState::Error));
    assert!(is_active(AccountState::Stopping) && !is_startable(AccountState::Stopping));
    assert_eq!(idle_state(true, false), AccountState::Idle);
    assert_eq!(idle_state(false, false), AccountState::NeedsLogin);
    let running = AccountRow {
        handle: 7,
        ..row(1, false, AccountState::Running)
    };
    assert_eq!(toggle_action(&running), Toggle::Stop);
    assert_eq!(toggle_action(&row(1, false, AccountState::Running)), Toggle::Nothing);
    assert_eq!(toggle_action(&row(1, false, AccountState::NeedsLogin)), Toggle::Start);
    assert_eq!(toggle_action(&row(1, false, AccountState::Starting)), Toggle::Nothing);
}

#[test]
fn launch_all_starts_the_selection_or_everything() {
    let mut list = vec![
        row(1, false, AccountState::Idle),
        row(2, false, AccountState::Running),
        row(3, false, AccountState::Error),
    ];
    assert_eq!(launch_all_targets(&list), [0, 2]);
    list[2].selected = true;
    list[1].selected = true;
    assert_eq!(launch_all_targets(&list), [2]);
    clear_selection(&mut list);
    assert!(list.iter().all(|row| !row.selected));
    assert_eq!(steam_busy(&list, AccountId(1)), None);
    let steam = vec![row(5, true, AccountState::Starting), row(6, true, AccountState::Idle)];
    assert_eq!(steam_busy(&steam, AccountId(6)), Some(0));
    assert_eq!(steam_busy(&steam, AccountId(5)), None);
}

#[test]
fn account_rows_show_the_account() {
    let mut account = Account::new(AccountId(3), "Main");
    account.companions.push(CompanionId(1));
    let apps = vec![CompanionApp::blish_hud(CompanionId(1), r"C:\B\Blish HUD.exe")];
    let r = account_row(&account, &apps, false);
    assert_eq!(r.id, 3);
    assert_eq!(r.name, "Main");
    assert_eq!(r.provider, "ArenaNet");
    assert!(r.has_companions && !r.steam);
    assert_eq!(r.state, AccountState::NeedsLogin);
    assert_eq!(account_row(&account, &[], true).state, AccountState::Idle);
    assert!(!account_row(&account, &[], true).has_companions);
}

fn toast(id: i32, title: &str) -> ToastData {
    ToastData {
        id,
        kind: ToastKind::Error,
        title: title.to_string(),
        message: String::new(),
    }
}

#[test]
fn toasts_show_once_and_at_most_three() {
    let mut toasts = Vec::new();
    push_toast(&mut toasts, toast(1, "a"));
    push_toast(&mut toasts, toast(2, "b"));
    push_toast(&mut toasts, toast(3, "a"));
    assert_eq!(toasts.iter().map(|t| t.id).collect::<Vec<_>>(), [2, 3]);
    push_toast(&mut toasts, toast(4, "c"));
    push_toast(&mut toasts, toast(5, "d"));
    assert_eq!(toasts.iter().map(|t| t.id).collect::<Vec<_>>(), [3, 4, 5]);
    dismiss_toast(&mut toasts, 4);
    assert_eq!(toasts.iter().map(|t| t.id).collect::<Vec<_>>(), [3, 5]);
}

#[allow(clippy::unnecessary_wraps)]
fn at(x: i32, y: i32) -> Option<OverlayPosition> {
    Some(OverlayPosition { x, y })
}

#[test]
fn saves_only_once_the_position_has_settled() {
    let mut saver = PositionSaver::new(at(10, 10));
    // Unchanged: nothing to save.
    assert_eq!(saver.observe(at(10, 10)), None);
    // Being dragged: every update is somewhere else.
    assert_eq!(saver.observe(at(20, 10)), None);
    assert_eq!(saver.observe(at(30, 10)), None);
    assert_eq!(saver.observe(at(40, 10)), None);
    // Let go: the same place twice in a row.
    assert_eq!(saver.observe(at(40, 10)), at(40, 10));
    // And not again while it stays there.
    assert_eq!(saver.observe(at(40, 10)), None);
}

#[test]
fn a_hidden_or_off_screen_window_resets_the_wait() {
    let mut saver = PositionSaver::new(None);
    assert_eq!(saver.observe(at(5, 5)), None);
    assert_eq!(saver.observe(None), None);
    // The first sighting after the gap only starts the wait again.
    assert_eq!(saver.observe(at(5, 5)), None);
    assert_eq!(saver.observe(at(5, 5)), at(5, 5));
}

#[test]
fn moving_back_to_the_saved_position_saves_nothing() {
    let mut saver = PositionSaver::new(at(1, 1));
    assert_eq!(saver.observe(at(9, 9)), None);
    assert_eq!(saver.observe(at(1, 1)), None);
    assert_eq!(saver.observe(at(1, 1)), None);
}

#[test]
fn the_bar_is_shown_on_screen_with_chips() {
    assert!(on_screen(0, 0, 0, 0, 1920, 1080));
    assert!(!on_screen(-32000, -32000, 0, 0, 1920, 1080));
    assert!(on_screen(-20, 1060, 0, 0, 1920, 1080));
    assert!(!on_screen(1901, 0, 0, 0, 1920, 1080));
    assert!(on_screen(i32::MAX, 0, i32::MAX - 40, 0, 100, 100));
    let rows: Vec<AccountRow> = (1..=5).map(|id| row(id, false, AccountState::Running)).collect();
    let entries = switcher_entries(&rows, Some(2));
    assert_eq!(entries.len(), 4);
    assert!(entries[1].active && !entries[0].active && entries[0].running);
    let settings = OverlaySettings::default();
    assert!(overlay_wanted(settings, true, true));
    assert!(!overlay_wanted(settings, true, false));
    assert!(overlay_wanted(
        OverlaySettings {
            only_when_running: false,
            ..settings
        },
        true,
        false
    ));
}

#[test]
fn gui_shortcut_file_names_drop_forbidden_characters() {
    assert_eq!(file_name_safe("Main"), "Main");
    assert_eq!(
        file_name_safe(r#"a<b>c:d"e/f\g|h?i*j"#),
        "a_b_c_d_e_f_g_h_i_j"
    );
    // Windows drops trailing dots and spaces from file names.
    assert_eq!(file_name_safe("Alt. "), "Alt");
}

#[test]
fn tests_shortcut_file_names_drop_forbidden_characters() {
    assert_eq!(file_name_safe("Main"), "Main");
    assert_eq!(
        file_name_safe(r#"a<b>c:d"e/f\g|h?i*j"#),
        "a_b_c_d_e_f_g_h_i_j"
    );
    // Windows drops trailing dots and spaces from file names.
    assert_eq!(file_name_safe("Alt. "), "Alt");
}

#[test]
fn control_characters_are_replaced_too() {
    assert_eq!(file_name_safe("a\tb\u{7f}c\u{85}"), "a_b_c_");
    assert_eq!(file_name_safe(". ."), "");
}

#[test]
fn new_accounts_get_the_next_id() {
    let accounts = vec![
        Account::new(AccountId(4), "a"),
        Account::new(AccountId(9), "b"),
        Account::new(AccountId(2), "c"),
    ];
    assert_eq!(next_account_id(&accounts), AccountId(10));
    assert_eq!(next_account_id(&[]), AccountId(1));
    assert_eq!(account_index(&accounts, AccountId(2)), Some(2));
    assert_eq!(account_index(&accounts, AccountId(3)), None);
    assert_eq!(insert_position(None, 3), 3);
    assert_eq!(insert_position(Some(1), 3), 1);
    assert_eq!(insert_position(Some(7), 3), 3);
}

#[test]
fn accounts_move_within_the_list() {
    let mut accounts: Vec<Account> = (1..=4).map(|id| Account::new(AccountId(id), "x")).collect();
    assert_eq!(move_account(&mut accounts, AccountId(1), 9), Some(3));
    assert_eq!(
        accounts.iter().map(|a| a.id.0).collect::<Vec<_>>(),
        [2, 3, 4, 1]
    );
    assert_eq!(move_account(&mut accounts, AccountId(1), -5), Some(0));
    assert_eq!(move_account(&mut accounts, AccountId(1), 0), None);
    assert_eq!(move_account(&mut accounts, AccountId(8), 0), None);
}

#[test]
fn companions_are_switched_on_and_off() {
    let mut ids = vec![CompanionId(1), CompanionId(2)];
    assert!(!toggle_companion(&mut ids, CompanionId(1)));
    assert_eq!(ids, [CompanionId(2)]);
    assert!(toggle_companion(&mut ids, CompanionId(1)));
    assert_eq!(ids, [CompanionId(2), CompanionId(1)]);
    let apps = vec![CompanionApp::blish_hud(CompanionId(1), "b.exe")];
    let toggles = companion_toggles(&apps, &ids);
    assert_eq!(toggles.len(), 1);
    assert!(toggles[0].enabled && toggles[0].per_client && toggles[0].after_game_start);
    assert_eq!(login_state(true, true, false), LoginState::Steam);
    assert_eq!(login_state(true, false, true), LoginState::SetUp);
    assert_eq!(login_state(false, true, true), LoginState::Missing);
}

fn parse_args(args: &[&str]) -> Result<Command, CliError> {
    parse(
        std::iter::once("breakbar")
            .chain(args.iter().copied())
            .map(String::from)
            .collect(),
    )
}

#[test]
fn no_arguments_opens_gui() {
    assert_eq!(parse_args(&[]).unwrap(), Command::Gui);
}

#[test]
fn launch_splits_and_trims_names() {
    assert_eq!(
        parse_args(&["--launch", "Main, Alt 1,,"]).unwrap(),
        Command::Launch(vec!["Main".into(), "Alt 1".into()])
    );
}

#[test]
fn empty_launch_list_is_rejected() {
    assert!(parse_args(&["-l", " , "]).is_err());
}

#[test]
fn unknown_option_is_rejected() {
    assert!(parse_args(&["--nope"]).is_err());
}

#[test]
fn command_line_answers() {
    assert_eq!(parse_args(&["-h"]).unwrap(), Command::Help);
    assert_eq!(parse_args(&["--version", "--nope"]).unwrap(), Command::Version);
    assert_eq!(
        parse_args(&["--launch=A", "-l", "B"]).unwrap(),
        Command::Launch(vec!["B".into()])
    );
    assert_eq!(
        parse_args(&["--nope"]).unwrap_err().message(),
        "invalid option '--nope'"
    );
    assert_eq!(parse_args(&["-l", ","]).unwrap_err(), CliError::NoAccountNames);
    assert!(parse_args(&["-l"]).is_err());
    assert!(parse_args(&["stray"]).is_err());
    assert_eq!(launch_names(" a ,b"), ["a", "b"]);
}

#[test]
fn shared_companion_runs_until_its_last_client_exits() {
    let mut users = SharedUsers::new();
    let id = CompanionId(2);
    assert!(users.needs_spawn(id, false));
    users.join(id);
    assert!(!users.needs_spawn(id, true));
    assert!(users.needs_spawn(id, false));
    users.join(id);
    assert_eq!(users.users_of(id), Some(2));
    assert!(!users.leave(id, true));
    assert_eq!(users.users_of(id), Some(1));
    assert!(users.leave(id, true));
    assert_eq!(users.users_of(id), None);
    assert!(!users.leave(id, true));
    users.join(id);
    assert!(!users.leave(id, false));
    assert_eq!(users.users_of(id), Some(0));
}

#[test]
fn companions_start_on_their_trigger() {
    let mut early = CompanionApp::blish_hud(CompanionId(1), "a.exe");
    early.start_when = Trigger::ProcessStarted;
    early.scope = Scope::Shared;
    let late = CompanionApp::blish_hud(CompanionId(2), "b.exe");
    let apps = vec![early, late];
    assert!(waits_for(&apps, Trigger::WindowShown));
    assert!(!waits_for(&apps[..1], Trigger::WindowShown));
    assert_eq!(apps_for(&apps, Trigger::ProcessStarted), [0]);
    let mut account = Account::new(AccountId(1), "Main");
    account.companions.push(CompanionId(2));
    assert_eq!(companions_of(&account, &apps), [1]);
    assert_eq!(
        start_failure("ping 3", "not found"),
        "ping 3 could not be started: not found"
    );
}

#[test]
fn junction_steps_follow_the_folders() {
    let state = |real_is_junction, real_is_dir, shared_exists, resolves| LinkState {
        real_is_junction,
        real_is_dir,
        shared_exists,
        real_resolves_to_target: resolves,
    };
    let s = |t: &str| t.to_string();
    // Fresh install: the shared profile is created and linked.
    assert_eq!(
        point_to("R", "S", Some("P"), "S", state(false, false, false, false)).unwrap(),
        [
            LinkStep::CreateDir(s("S")),
            LinkStep::CreateDir(s("R")),
            LinkStep::Junction { link: s("R"), target: s("S") },
        ]
    );
    // An existing installation becomes the shared profile, then points at the account.
    assert_eq!(
        point_to("R", "S", Some("P"), "A", state(false, true, false, false)).unwrap(),
        [
            LinkStep::CreateDir(s("P")),
            LinkStep::Move { from: s("R"), to: s("S") },
            LinkStep::CreateDir(s("R")),
            LinkStep::Junction { link: s("R"), target: s("S") },
            LinkStep::CreateDir(s("A")),
            LinkStep::Junction { link: s("R"), target: s("A") },
        ]
    );
    // Already linked where it should be: only the shared profile is ensured.
    assert_eq!(
        point_to("R", "S", None, "A", state(true, true, true, true)).unwrap(),
        [LinkStep::CreateDir(s("S"))]
    );
    // Two ordinary folders are never overwritten.
    assert_eq!(
        point_to("R", "S", None, "S", state(false, true, true, false)),
        Err(ProfileLinkError::Conflict { real_dir: s("R"), shared: s("S") })
    );
    assert_eq!(
        account_gw2_dir(Some(r"C:\L"), AccountId(1)).unwrap(),
        r"C:\L\Breakbar\profiles\1\Guild Wars 2"
    );
}

#[test]
fn plans_follow_the_state_of_the_steam_folder() {
    let exe = r"C:\Games\Guild Wars 2\Gw2-64.exe";
    let state = |steamapps_is_dir, link_exists, points_to_target| SteamFolderState {
        steamapps_is_dir,
        link_exists,
        points_to_target,
    };
    let link = Link {
        link: r"C:\Steam\steamapps\common\Guild Wars 2".to_string(),
        target: r"C:\Games\Guild Wars 2".to_string(),
    };
    assert_eq!(plan(true, Some(r"C:\Steam"), exe, state(true, false, false)), None);
    assert_eq!(plan(false, None, exe, state(true, false, false)), Some(Plan::NoSteam));
    assert_eq!(
        plan(false, Some(r"C:\Steam"), exe, state(false, false, false)),
        Some(Plan::NoSteam)
    );
    assert_eq!(
        plan(false, Some(r"C:\Steam"), exe, state(true, false, false)),
        Some(Plan::CreateLink(link.clone()))
    );
    assert_eq!(
        plan(false, Some(r"C:\Steam"), exe, state(true, true, true)),
        Some(Plan::AwaitInstall(link.clone()))
    );
    assert_eq!(
        plan(false, Some(r"C:\Steam"), exe, state(true, true, false)),
        Some(Plan::Blocked(link.link.clone()))
    );
}

#[test]
fn colorref_swaps_red_and_blue() {
    assert_eq!(colorref(0x0d0f12), 0x120f0d);
}

#[test]
fn small_windows_texts() {
    assert_eq!(run_command(r"C:\Program Files\Breakbar\breakbar.exe"), "\"C:\\Program Files\\Breakbar\\breakbar.exe\"");
    assert_eq!(clock_text(9, 5), "09:05");
    assert_eq!(timestamp_text(2024, 3, 7, 14, 2, 9), "2024-03-07 14:02:09");
}

#[test]
fn junction_buffers_follow_the_documented_layout() {
    let buffer = mount_point_buffer(r"C:\T");
    // "\??\C:\T\" is 9 UTF-16 units, 18 bytes.
    assert_eq!(buffer.len(), 16 + 18 + 4);
    assert_eq!(&buffer[0..4], &0xA000_0003u32.to_le_bytes());
    assert_eq!(&buffer[4..6], &30u16.to_le_bytes());
    assert_eq!(&buffer[10..12], &18u16.to_le_bytes());
    assert_eq!(&buffer[12..14], &20u16.to_le_bytes());
    assert_eq!(&buffer[16..18], &u16::from(b'\\').to_le_bytes());
    assert_eq!(&buffer[buffer.len() - 4..], &[0, 0, 0, 0]);
    let wide = mount_point_buffer("\u{1F600}");
    assert_eq!(wide.len(), 16 + 2 * 7 + 4);
    assert_eq!(&wide[24..28], &[0x3D, 0xD8, 0x00, 0xDE]);
}

#[test]
fn detection_takes_the_first_valid_client() {
    let candidates = vec!["a".to_string(), "b".to_string(), "c".to_string()];
    assert_eq!(detect(&candidates, &[false, true, true]), Some("b".to_string()));
    assert_eq!(detect(&candidates, &[false, false, false]), None);
    assert_eq!(detect(&[], &[]), None);
    assert_eq!(
        steam_client("p", true, &candidates, &[true, true, true], &[true, true, true]),
        Some("p".to_string())
    );
    assert_eq!(
        steam_client("p", false, &candidates, &[true, false, true], &[false, true, true]),
        Some("c".to_string())
    );
    assert_eq!(steam_client("p", false, &candidates, &[false; 3], &[true; 3]), None);
}

#[test]
fn launch_windows_switch_to_the_account_and_back() {
    let s = |t: &str| t.to_string();
    let linked = LinkState {
        real_is_junction: true,
        real_is_dir: true,
        shared_exists: true,
        real_resolves_to_target: false,
    };
    let shared = r"C:\L\Breakbar\profiles\shared\Guild Wars 2";
    let real = r"C:\R\Guild Wars 2";
    assert_eq!(
        point_to_account(Some(r"C:\R"), Some(r"C:\L"), AccountId(1), linked).unwrap(),
        [
            LinkStep::CreateDir(s(shared)),
            LinkStep::CreateDir(s(r"C:\L\Breakbar\profiles\1\Guild Wars 2")),
            LinkStep::Junction { link: s(real), target: s(r"C:\L\Breakbar\profiles\1\Guild Wars 2") },
        ]
    );
    assert_eq!(
        point_to_shared(Some(r"C:\R"), Some(r"C:\L"), linked).unwrap(),
        [
            LinkStep::CreateDir(s(shared)),
            LinkStep::CreateDir(s(shared)),
            LinkStep::Junction { link: s(real), target: s(shared) },
        ]
    );
    assert_eq!(point_to_shared(None, Some(r"C:\L"), linked), Err(ProfileLinkError::NoAppData));
    assert_eq!(
        point_to_shared(Some(r"C:\R"), None, linked),
        Err(ProfileLinkError::Profile(breakbar::profile::StoreError::NoLocalAppData))
    );
    // A launch that never finished is undone; an ordinary folder is left alone.
    assert!(restore_shared_if_stranded(Some(r"C:\R"), Some(r"C:\L"), linked)
        .unwrap()
        .is_some());
    let plain = LinkState { real_is_junction: false, ..linked };
    assert_eq!(restore_shared_if_stranded(Some(r"C:\R"), Some(r"C:\L"), plain), Ok(None));
    let home = LinkState { real_resolves_to_target: true, ..linked };
    assert_eq!(restore_shared_if_stranded(Some(r"C:\R"), Some(r"C:\L"), home), Ok(None));
}

#[test]
fn menu_commands_choose_entries() {
    let items = vec![
        MenuItem::entry("Main", false, 1),
        MenuItem::separator(),
        MenuItem::entry("Start", true, 2),
    ];
    assert_eq!(chosen_entry(&items, 0), None);
    assert_eq!(chosen_entry(&items, 1), Some(0));
    assert_eq!(chosen_entry(&items, 2), None);
    assert_eq!(chosen_entry(&items, 3), Some(2));
    assert_eq!(chosen_entry(&items, 4), None);
    assert!(matches!(&items[2], MenuItem::Entry { text, enabled: true, action: 2 } if text == "Start"));
}

#[test]
fn the_language_follows_the_system() {
    assert_eq!(language_tag_for(LanguageChoice::English, Some("de-DE")), "en");
    assert_eq!(language_tag_for(LanguageChoice::German, None), "de");
    assert_eq!(language_tag_for(LanguageChoice::System, Some("DE-at")), "de");
    assert_eq!(language_tag_for(LanguageChoice::System, Some("en-US")), "en");
    assert_eq!(language_tag_for(LanguageChoice::System, Some("d")), "en");
    assert_eq!(language_tag_for(LanguageChoice::System, None), "en");
    assert!(["en", "de"].contains(&language_tag(LanguageChoice::System)));
}

#[test]
fn logins_are_checked_and_reported() {
    assert_eq!(login_check_state(AccountState::Idle, true, true, true), AccountState::NeedsLogin);
    assert_eq!(login_check_state(AccountState::NeedsLogin, false, true, false), AccountState::Idle);
    assert_eq!(login_check_state(AccountState::Idle, false, false, false), AccountState::NeedsLogin);
    assert_eq!(login_check_state(AccountState::Running, true, false, false), AccountState::Running);
    assert!(login_saved(None, Some((1, 2))));
    assert!(login_saved(Some((1, 2)), Some((1, 3))));
    assert!(!login_saved(Some((1, 2)), Some((1, 2))));
    assert!(!login_saved(Some((1, 2)), None));
    assert!(setup_finished(true, false, false));
    assert!(!setup_finished(true, true, false));
    assert_eq!(refresh_names(&vec!["A".to_string(), "B".to_string()]), "A, B");
    assert_eq!(refresh_names(&Vec::new()), "");
}

#[test]
fn exits_are_reported() {
    assert_eq!(exit_failure(true, &ExitResult::Exited(Some(3))), None);
    assert_eq!(exit_failure(false, &ExitResult::Exited(Some(0))), None);
    assert_eq!(exit_failure(false, &ExitResult::Exited(Some(-5))), Some("-5".to_string()));
    assert_eq!(exit_failure(false, &ExitResult::Exited(None)), Some("?".to_string()));
    assert_eq!(
        exit_failure(false, &ExitResult::WaitFailed("gone".to_string())),
        Some("gone".to_string())
    );
    let mut r = AccountRow {
        handle: 9,
        since: "10:00".to_string(),
        addon_active: true,
        ..row(1, false, AccountState::Running)
    };
    rest_after_exit(&mut r, false, false, "");
    assert_eq!(r.state, AccountState::NeedsLogin);
    assert_eq!(r.handle, 0);
    assert!(r.since.is_empty() && !r.addon_active);
    rest_after_exit(&mut r, true, true, "Exit code 3");
    assert_eq!(r.state, AccountState::Error);
    assert_eq!(r.detail, "Exit code 3");
}

#[test]
fn errors_read_as_written() {
    assert_eq!(
        LaunchError::SteamNotRunning("Alt".into()).message(),
        "Alt is a Steam account: start Steam and sign in with the Steam user it is linked to first."
    );
    assert_eq!(
        LaunchError::ExitedDuringStartup(1).message(),
        "Guild Wars 2 closed during startup (exit code: 1)."
    );
    assert_eq!(exit_status(0xC000_0005), "exit code: 0xc0000005");
    assert_eq!(
        LaunchError::Profile(StoreError::NoLocalAppData).message(),
        "could not prepare the account's profile folder: the LOCALAPPDATA environment variable is not set"
    );
    assert_eq!(
        ProfileLinkError::Conflict { real_dir: "R".into(), shared: "S".into() }.message(),
        "both R and S exist as ordinary folders; move one of them away so Breakbar doesn't overwrite either"
    );
    assert_eq!(
        StoreError::Io { path: "p".into(), message: "denied".into() }.message(),
        "I/O error on p: denied"
    );
    assert_eq!(Gw2PathError::Not64Bit.message(), "Only the 64-bit client (Gw2-64.exe) is supported.");
    assert_eq!(
        launch_failure(&LaunchError::ExitedDuringStartup(0xC000_0005)),
        (LaunchFailure::ExitedDuringStartup, "-1073741819".to_string())
    );
    assert_eq!(
        launch_failure(&LaunchError::AlreadyRunning("Main".into())),
        (LaunchFailure::AlreadyRunning, String::new())
    );
    assert_eq!(
        breakbar::game::path_problem(&Gw2PathError::Unreadable("locked".into())),
        (breakbar::game::PathProblem::Unreadable, "locked".to_string())
    );
    assert_eq!(CliError::NoAccountNames.message(), "--launch requires at least one account name");
}

#[test]
fn shortcuts_name_accounts_in_any_case() {
    let accounts = vec![Account::new(AccountId(1), "Main"), Account::new(AccountId(2), "Alt 1")];
    assert_eq!(resolve(&accounts, "alt 1"), Some(1));
    assert_eq!(resolve(&accounts, "MAIN"), Some(0));
    assert_eq!(resolve(&accounts, "Other"), None);
}

#[test]
fn log_lines_carry_time_and_process() {
    assert_eq!(
        log_line("2026-09-26 14:02:11", 42, "first"),
        "2026-09-26 14:02:11 [42] first\n"
    );
    assert!(needs_rotation(MAX_LOG_BYTES + 1, MAX_LOG_BYTES));
    assert!(!needs_rotation(MAX_LOG_BYTES, MAX_LOG_BYTES));
}

#[test]
fn the_blish_hud_path_is_set_on_its_preset() {
    let mut apps = vec![CompanionApp::blish_hud(CompanionId(4), r"C:\Old\Blish HUD.exe")];
    breakbar::config::set_blish_path(&mut apps, r"C:\New\Blish HUD.exe");
    assert_eq!(apps.len(), 1);
    assert_eq!(apps[0].exe, r"C:\New\Blish HUD.exe");
    assert_eq!(apps[0].id, CompanionId(4));
    let mut none: Vec<CompanionApp> = Vec::new();
    breakbar::config::set_blish_path(&mut none, r"C:\B\Blish HUD.exe");
    assert_eq!(none.len(), 1);
    assert_eq!(none[0].id, CompanionId(1));
    assert_eq!(none[0].name, "Blish HUD");
    assert_eq!(breakbar::config::opacity_from_slider(-3), 30);
    assert_eq!(breakbar::config::opacity_from_slider(77), 77);
    assert_eq!(breakbar::config::opacity_from_slider(1000), 100);
}

#[test]
fn the_first_start_asks_for_the_client() {
    let startup = breakbar::config::startup;
    assert_eq!(startup(false, true), breakbar::config::Startup::Setup);
    assert_eq!(startup(false, false), breakbar::config::Startup::Detect);
    assert_eq!(startup(true, true), breakbar::config::Startup::CheckPath);
}

#[test]
fn the_tray_menu_lists_the_accounts() {
    let rows = vec![
        row(1, true, AccountState::Idle),
        row(2, true, AccountState::Locked),
        row(3, false, AccountState::Running),
    ];
    assert_eq!(
        breakbar::list::tray_entries(&rows),
        [
            T::LaunchAll { count: 1, enabled: true },
            T::Separator,
            T::Account { index: 0, enabled: true },
            T::Account { index: 1, enabled: false },
            T::Account { index: 2, enabled: true },
            T::Separator,
            T::OpenWindow,
            T::Quit,
        ]
    );
    assert_eq!(
        breakbar::list::tray_entries(&[]),
        [
            T::LaunchAll { count: 0, enabled: false },
            T::Separator,
            T::OpenWindow,
            T::Quit,
        ]
    );
}

#[test]
fn chips_switch_start_or_stop() {
    assert_eq!(chip_action(AccountState::Running, false), ChipAction::Activate);
    assert_eq!(chip_action(AccountState::Running, true), ChipAction::OfferStop);
    assert_eq!(chip_action(AccountState::Starting, true), ChipAction::Nothing);
    assert_eq!(chip_action(AccountState::Locked, false), ChipAction::OfferStart { enabled: false });
    assert_eq!(chip_action(AccountState::Idle, true), ChipAction::OfferStart { enabled: true });
}

#[test]
fn steam_starts_wait_for_the_setup() {
    let link = Link { link: "L".to_string(), target: "T".to_string() };
    assert_eq!(steam_ready(None), SteamReady::Go);
    assert_eq!(steam_ready(Some(Plan::NoSteam)), SteamReady::Go);
    assert_eq!(steam_ready(Some(Plan::Blocked("L".to_string()))), SteamReady::Blocked("L".to_string()));
    assert_eq!(
        steam_ready(Some(Plan::CreateLink(link.clone()))),
        SteamReady::Dialog(SetupStep::Link, link.clone())
    );
    assert_eq!(
        steam_ready(Some(Plan::AwaitInstall(link.clone()))),
        SteamReady::Dialog(SetupStep::Install, link)
    );
}

#[test]
fn the_editor_saves_named_accounts() {
    assert_eq!(editor_account(None, AccountId(5), "", false, "", &[]), None);
    let created = editor_account(None, AccountId(5), "Alt", true, "-dx11", &[CompanionId(1)]).unwrap();
    assert_eq!(created.id, AccountId(5));
    assert_eq!(created.provider, Provider::Steam);
    assert_eq!(created.extra_args, "-dx11");
    assert_eq!(created.companions, [CompanionId(1)]);
    let edited = editor_account(Some(&created), AccountId(9), "Main", false, "", &[]).unwrap();
    assert_eq!(edited.id, AccountId(5));
    assert_eq!(edited.name, "Main");
    let copy = duplicate_account(&created, AccountId(6), "Alt (copy)");
    assert_eq!(copy.id, AccountId(6));
    assert_eq!(copy.provider, Provider::Steam);
    assert_eq!(copy.companions, created.companions);
}

#[test]
fn mutexes_are_found_by_their_last_name_component() {
    assert!(breakbar::win::names_object(
        r"\Sessions\1\BaseNamedObjects\AN-Mutex-Window-Guild Wars 2",
        "AN-Mutex-Window-Guild Wars 2"
    ));
    assert!(breakbar::win::names_object("Plain", "Plain"));
    assert!(!breakbar::win::names_object(r"\A\B", "A"));
}

#[test]
fn joined_paths_split_again() {
    let joined = join(r"C:\Users\me", "Local.dat");
    assert_eq!(file_name(&joined), Some("Local.dat".to_string()));
    assert_eq!(parent(&joined), Some(r"C:\Users\me".to_string()));
}

#[test]
fn each_item_of_the_command_line_leads_to_its_step() {
    assert_eq!(step(CliArg::Short('h'), None), Step::Done(Ok(Command::Help)));
    assert_eq!(step(CliArg::Long("version".into()), None), Step::Done(Ok(Command::Version)));
    assert_eq!(
        step(CliArg::Long("launch".into()), Some(Ok(" Main , Alt ".into()))),
        Step::Next(Command::Launch(vec!["Main".to_string(), "Alt".to_string()]))
    );
    assert_eq!(
        step(CliArg::Short('l'), Some(Ok(" , ".into()))),
        Step::Done(Err(CliError::NoAccountNames))
    );
    assert_eq!(
        step(CliArg::Short('l'), Some(Err("missing argument".into()))),
        Step::Done(Err(CliError::Usage("missing argument".into())))
    );
    assert_eq!(
        step(CliArg::Short('x'), None),
        Step::Done(Err(CliError::Usage("invalid option '-x'".into())))
    );
    assert_eq!(
        step(CliArg::Long("nope".into()), None),
        Step::Done(Err(CliError::Usage("invalid option '--nope'".into())))
    );
    assert!(matches!(
        step(CliArg::Value("stray".into()), None),
        Step::Done(Err(CliError::Usage(_)))
    ));
}

#[test]
fn a_later_launch_replaces_an_earlier_one_and_takes_any_value() {
    assert_eq!(
        parse_args(&["-l", "Main", "--launch", "-Alt"]).unwrap(),
        Command::Launch(vec!["-Alt".into()])
    );
    assert_eq!(
        parse_args(&["-x"]).unwrap_err(),
        CliError::Usage("invalid option '-x'".into())
    );
}

#[test]
fn two_ordinary_folders_name_both_in_the_conflict() {
    let both = LinkState {
        real_is_junction: false,
        real_is_dir: true,
        shared_exists: true,
        real_resolves_to_target: false,
    };
    let conflict = Err(ProfileLinkError::Conflict {
        real_dir: r"C:\R\Guild Wars 2".to_string(),
        shared: r"C:\L\Breakbar\profiles\shared\Guild Wars 2".to_string(),
    });
    assert_eq!(point_to_shared(Some(r"C:\R"), Some(r"C:\L"), both), conflict);
    assert_eq!(point_to_account(Some(r"C:\R"), Some(r"C:\L"), AccountId(3), both), conflict);
}

#[test]
fn a_shared_instance_counts_the_open_sessions() {
    let mut users = SharedUsers::new();
    let id = CompanionId(7);
    users.join(id);
    users.join(id);
    assert!(!users.leave(id, true));
    users.join(id);
    assert_eq!(users.users_of(id), Some(2));
    assert!(!users.leave(id, true));
    assert_eq!(users.users_of(id), Some(1));
    assert!(users.leave(id, true));
    assert_eq!(users.users_of(id), None);
}

#[test]
fn the_saver_saves_what_was_seen_twice_and_differs_from_the_last_save() {
    let mut saver = PositionSaver::new(at(0, 0));
    let seen = [at(5, 5), at(5, 5), at(5, 5), None, at(0, 0), at(0, 0), at(0, 0), at(0, 0)];
    let saves: Vec<_> = seen.iter().map(|c| saver.observe(*c)).collect();
    assert_eq!(saves, [None, at(5, 5), None, None, None, at(0, 0), None, None]);
}

#[test]
fn options_with_their_value_written_in() {
    let main = Command::Launch(vec!["Main".into()]);
    assert_eq!(parse_args(&["--launch=Main"]).unwrap(), main);
    assert_eq!(parse_args(&["-lMain"]).unwrap(), main);
    assert_eq!(parse_args(&["-l=Main"]).unwrap(), main);
    assert_eq!(parse_args(&["-hV"]).unwrap(), Command::Help);
    assert_eq!(parse_args(&["--"]).unwrap(), Command::Gui);
    assert!(parse_args(&["--", "-h"]).is_err());
    assert_eq!(parse_args(&["--launch=,"]).unwrap_err(), CliError::NoAccountNames);
    assert_eq!(
        parse_args(&["--nope=1"]).unwrap_err(),
        CliError::Usage("invalid option '--nope'".into())
    );
    assert_eq!(
        parse_args(&["-xh"]).unwrap_err(),
        CliError::Usage("invalid option '-x'".into())
    );
}

fn run_launch(events: Vec<(E, u64)>) -> (Vec<A>, LaunchPhase) {
    let mut phase = LaunchPhase::Start;
    let mut actions = Vec::new();
    for (event, now) in events {
        let (next, action) = launch_step(phase, event, now);
        phase = next;
        actions.push(action);
    }
    (actions, phase)
}

#[test]
fn a_restarted_client_is_adopted_and_the_folder_pointed_back() {
    let (actions, phase) = run_launch(vec![
        (E::Begin, 0),
        (E::PointedToAccount(Ok(())), 0),
        (E::Spawned(Ok(10)), 0),
        (E::Exited(0), 100),
        (E::Successor(None), 100),
        (E::Successor(Some(11)), 200),
        (E::Running { locked: true }, 300),
        (E::Running { locked: true }, 3300),
        (E::PointedToShared(Ok(())), 3300),
    ]);
    assert_eq!(
        actions,
        [
            A::PointToAccount,
            A::Spawn,
            A::Check { wait: false },
            A::FindSuccessor { pid: 10, wait: false },
            A::FindSuccessor { pid: 10, wait: true },
            A::Check { wait: false },
            A::Check { wait: true },
            A::PointToShared,
            A::Finish,
        ]
    );
    assert_eq!(phase, LaunchPhase::Done { pid: 11, warning: None });
}

#[test]
fn a_failed_start_points_the_folder_back_before_failing() {
    let (actions, phase) = run_launch(vec![
        (E::Begin, 0),
        (E::PointedToAccount(Ok(())), 0),
        (E::Spawned(Err("denied".into())), 0),
        (E::PointedToShared(Ok(())), 0),
    ]);
    assert_eq!(actions, [A::PointToAccount, A::Spawn, A::PointToShared, A::Finish]);
    assert_eq!(phase, LaunchPhase::Failed(LaunchError::Spawn("denied".into())));
    let (actions, phase) = run_launch(vec![
        (E::Begin, 0),
        (E::PointedToAccount(Ok(())), 0),
        (E::Spawned(Ok(10)), 0),
        (E::Exited(3), 50),
        (E::PointedToShared(Ok(())), 50),
    ]);
    assert_eq!(actions[3], A::PointToShared);
    assert_eq!(phase, LaunchPhase::Failed(LaunchError::ExitedDuringStartup(3)));
}

#[test]
fn a_successor_that_never_comes_fails_the_launch_after_the_grace_time() {
    let (actions, phase) = run_launch(vec![
        (E::Begin, 0),
        (E::PointedToAccount(Ok(())), 0),
        (E::Spawned(Ok(10)), 0),
        (E::Exited(0), 1000),
        (E::Successor(None), 15_999),
        (E::Successor(None), 16_000),
        (E::PointedToShared(Err(ProfileLinkError::NoAppData)), 16_000),
    ]);
    assert_eq!(actions[4], A::FindSuccessor { pid: 10, wait: true });
    assert_eq!(actions[5], A::PointToShared);
    assert_eq!(phase, LaunchPhase::Failed(LaunchError::ExitedDuringStartup(0)));
}
