use breakbar::account::{Account, AccountId, Provider};
use breakbar::companion::{ArgContext, CompanionApp, CompanionId};
use breakbar::launch::{LaunchOptions, game_args, split_args};
use breakbar::pe::{MACHINE_AMD64, machine};
use breakbar::steam::library_folders;

#[test]
fn blish_hud_args_are_expanded() {
    let blish = CompanionApp::blish_hud(CompanionId(1), r"C:\Blish HUD\Blish HUD.exe");
    let ctx = ArgContext {
        pid: 4242,
        mumble: "Breakbar_3",
        account: "Main",
    };
    assert_eq!(
        blish.expand_args(&ctx),
        ["--pid", "4242", "--mumble", "Breakbar_3"]
    );
}

#[test]
fn substituted_values_stay_single_arguments() {
    let mut app = CompanionApp::blish_hud(CompanionId(1), "x.exe");
    app.args = r#"--settings "C:\Blish\{account}" --pid {pid}"#.to_owned();
    let ctx = ArgContext {
        pid: 7,
        mumble: "Breakbar_1",
        account: "My Alt",
    };
    assert_eq!(
        app.expand_args(&ctx),
        ["--settings", r"C:\Blish\My Alt", "--pid", "7"]
    );
}

#[test]
fn arenanet_account_uses_autologin() {
    let account = Account::new(AccountId(1), "Main");
    assert_eq!(
        game_args(&account, LaunchOptions::default()),
        ["-shareArchive", "-autologin", "-mumble", "Breakbar_1"]
    );
}

#[test]
fn steam_account_uses_provider_instead_of_autologin() {
    let mut account = Account::new(AccountId(2), "Steam");
    account.provider = Provider::Steam;
    account.extra_args = " -dx11 ".to_owned();
    assert_eq!(
        game_args(&account, LaunchOptions::default()),
        [
            "-shareArchive",
            "-provider",
            "Steam",
            "-mumble",
            "Breakbar_2",
            "-dx11"
        ]
    );
}

#[test]
fn first_launch_can_skip_share_archive() {
    let account = Account::new(AccountId(3), "Alt");
    let options = LaunchOptions {
        share_archive: false,
        autologin: false,
    };
    assert_eq!(game_args(&account, options), ["-mumble", "Breakbar_3"]);
}

#[test]
fn split_args_handles_quoted_tokens() {
    assert_eq!(
        split_args(r#"  -windowed  -customText "hello world"  "#),
        ["-windowed", "-customText", "hello world"]
    );
}

#[test]
fn split_args_of_empty_string_is_empty() {
    assert!(split_args("   ").is_empty());
}

#[test]
fn split_args_tolerates_unterminated_quote() {
    assert_eq!(split_args(r#"-a "open end"#), ["-a", "open end"]);
}

fn image(machine: u16) -> Vec<u8> {
    let mut data = vec![0u8; 0x100];
    data[..2].copy_from_slice(b"MZ");
    data[0x3C..0x40].copy_from_slice(&0x80u32.to_le_bytes());
    data[0x80..0x84].copy_from_slice(b"PE\0\0");
    data[0x84..0x86].copy_from_slice(&machine.to_le_bytes());
    data
}

#[test]
fn detects_x64_image() {
    assert_eq!(machine(&image(MACHINE_AMD64)), Some(MACHINE_AMD64));
}

#[test]
fn detects_x86_image() {
    assert_eq!(machine(&image(0x014C)), Some(0x014C));
}

#[test]
fn rejects_non_pe_data() {
    assert_eq!(machine(b"not an executable"), None);
    assert_eq!(machine(b""), None);
}

#[test]
fn rejects_truncated_header() {
    assert_eq!(machine(&image(MACHINE_AMD64)[..0x82]), None);
}

#[test]
fn rejects_out_of_range_offset() {
    let mut data = image(MACHINE_AMD64);
    data[0x3C..0x40].copy_from_slice(&u32::MAX.to_le_bytes());
    assert_eq!(machine(&data), None);
}

const SAMPLE: &str = r#""libraryfolders"
{
	"0"
	{
		"path"		"C:\\Program Files (x86)\\Steam"
		"label"		""
		"apps"
		{
			"228980"		"128606066"
		}
	}
	"1"
	{
		"path"		"D:\\SteamLibrary"
		"apps"
		{
			"1284210"		"70000000000"
		}
	}
}"#;

#[test]
fn extracts_all_library_paths() {
    assert_eq!(
        library_folders(SAMPLE),
        vec![
            String::from(r"C:\Program Files (x86)\Steam"),
            String::from(r"D:\SteamLibrary"),
        ]
    );
}

#[test]
fn empty_input_yields_no_paths() {
    assert!(library_folders("").is_empty());
}

#[test]
fn mumble_names_differ_per_account() {
    assert_eq!(Account::new(AccountId(7), "A").mumble_link_name(), "Breakbar_7");
    assert_ne!(
        Account::new(AccountId(1), "A").mumble_link_name(),
        Account::new(AccountId(11), "A").mumble_link_name()
    );
}

#[test]
fn provider_names_are_shown_as_written() {
    assert_eq!(Provider::ArenaNet.display_name(), "ArenaNet");
    assert_eq!(Provider::Steam.display_name(), "Steam");
    assert_eq!(Provider::default(), Provider::ArenaNet);
}

#[test]
fn escaped_quotes_stay_inside_a_library_path() {
    assert_eq!(
        library_folders(r#""PATH" "E:\\Games \"x\"" "path" "unterminated"#),
        vec![String::from(r#"E:\Games "x""#), String::from("unterminated")]
    );
}

#[test]
fn unquoted_text_splits_like_split_whitespace() {
    for text in ["", "   ", " a\tb  c ", "--pid 42\n--mumble x", "\u{3000}x\u{A0}y"] {
        let expected: Vec<String> = text.split_whitespace().map(str::to_owned).collect();
        assert_eq!(split_args(text), expected);
    }
}

#[test]
fn quoted_tokens_split_back_into_themselves() {
    let tokens = vec!["a b".to_string(), String::new(), "c\td".to_string(), "e".to_string()];
    let joined = tokens.iter().map(|t| format!("\"{t}\"")).collect::<Vec<_>>().join(" ");
    assert_eq!(split_args(&joined), tokens);
}
