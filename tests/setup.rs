use sync_remote::args::{check_arguments, Args, LogLevel};
use sync_remote::config::{
    check_if_remote_is_unique, encodify_name, get_config_location, get_program_folder, new_sync_location, underscore_entities,
    NewRemoteDetails, NewRemoteError, SyncLocation,
};
use sync_remote::config_file::{get_config, ConfigError, ConfigField, ConfigIssue};
use sync_remote::listing::{keep_parsed, parse_listing};
use sync_remote::walk::ListingEntry;
use sync_remote::menu::{
    accepts_empty, after_choice, choice_count, logic_main_menu, move_selection, process_input_raw_mode, render_main_menu,
    store_text, trim, AddRemoteStep, Key, TuiState, UserInput,
};
use sync_remote::walk::EntryKind;

fn details(name: &str, url: &str, remote_path: &str, local_path: &str) -> NewRemoteDetails {
    NewRemoteDetails {
        name: Some(name.to_string()),
        remote_url: Some(url.to_string()),
        remote_path: Some(remote_path.to_string()),
        local_path: Some(local_path.to_string()),
        remote_username: None,
        remote_password: None,
        advanced_backups: None,
    }
}

fn saved(name: &str, encoded: &str) -> SyncLocation {
    SyncLocation {
        remote: "h:21".to_string(),
        name: name.to_string(),
        name_encoded: encoded.to_string(),
        remote_path: "/".to_string(),
        local_path: "/l".to_string(),
        remote_username: "u".to_string(),
        remote_password: "p".to_string(),
        advanced_backups: true,
    }
}

fn error_of(r: Result<SyncLocation, NewRemoteError>) -> NewRemoteError {
    match r {
        Ok(_) => panic!("expected a refusal"),
        Err(e) => e,
    }
}

#[test]
fn new_location_is_normalized_with_defaults() {
    let loc = match new_sync_location(details("My docs", "ftp.x:21", "pub/docs/", "/home/u/docs/"), &vec![], false) {
        Ok(l) => l,
        Err(e) => panic!("refused: {:?}", e),
    };
    assert_eq!(loc.name, "My docs");
    assert_eq!(loc.name_encoded, "My&#x20;docs");
    assert_eq!(loc.remote, "ftp.x:21");
    assert_eq!(loc.remote_path, "/pub/docs");
    assert_eq!(loc.local_path, "/home/u/docs");
    assert_eq!(loc.remote_username, "anonymous");
    assert_eq!(loc.remote_password, "anon@localhost");
    assert!(loc.advanced_backups);
}

#[test]
fn new_location_keeps_given_credentials() {
    let mut d = details("a", "h", "", "C:\\data\\");
    d.remote_username = Some("bob".to_string());
    d.remote_password = Some("SECRET-REDACTED".to_string());
    d.advanced_backups = Some(false);
    let loc = match new_sync_location(d, &vec![], true) {
        Ok(l) => l,
        Err(e) => panic!("refused: {:?}", e),
    };
    assert_eq!(loc.remote_path, "");
    assert_eq!(loc.local_path, "C:\\data");
    assert_eq!(loc.remote_username, "bob");
    assert_eq!(loc.remote_password, "SECRET-REDACTED");
    assert!(!loc.advanced_backups);
}

#[test]
fn new_location_refusals() {
    let mut d = details("a", "h", "/", "/l");
    d.name = None;
    assert_eq!(error_of(new_sync_location(d, &vec![], false)), NewRemoteError::MissingName);
    let mut d = details("a", "h", "/", "/l");
    d.remote_url = None;
    assert_eq!(error_of(new_sync_location(d, &vec![], false)), NewRemoteError::MissingRemoteUrl);
    let mut d = details("a", "h", "/", "/l");
    d.remote_path = None;
    assert_eq!(error_of(new_sync_location(d, &vec![], false)), NewRemoteError::MissingRemotePath);
    let mut d = details("a", "h", "/", "/l");
    d.local_path = None;
    assert_eq!(error_of(new_sync_location(d, &vec![], false)), NewRemoteError::MissingLocalPath);
    assert_eq!(
        error_of(new_sync_location(details("a", "h", "/", "relative/dir"), &vec![], false)),
        NewRemoteError::LocalPathNotAbsolute
    );
    assert_eq!(
        error_of(new_sync_location(details("a", "h", "/", "/unix/on/windows"), &vec![], true)),
        NewRemoteError::LocalPathNotAbsolute
    );
    assert_eq!(
        error_of(new_sync_location(details("a", "h", "/", "/l"), &vec![saved("a", "zzz")], false)),
        NewRemoteError::NameTaken
    );
    assert_eq!(
        error_of(new_sync_location(details("b c", "h", "/", "/l"), &vec![saved("other", "b&#x20;c")], false)),
        NewRemoteError::NameTaken
    );
}

#[test]
fn uniqueness_looks_at_both_names() {
    let existing = vec![saved("one", "one"), saved("two words", "two&#x20;words")];
    assert!(check_if_remote_is_unique(&saved("three", "three"), &existing));
    assert!(!check_if_remote_is_unique(&saved("one", "x"), &existing));
    assert!(!check_if_remote_is_unique(&saved("y", "two&#x20;words"), &existing));
    assert!(check_if_remote_is_unique(&saved("one", "one"), &vec![]));
}

#[test]
fn encoded_names() {
    assert_eq!(encodify_name(&"abc123".to_string()), "abc123");
    assert_eq!(encodify_name(&"a_b".to_string()), "a&#x5F;b");
    assert_eq!(encodify_name(&"".to_string()), "");
    assert_eq!(encodify_name(&"a&b<c>d\"e".to_string()), "a&amp;b&lt;c&gt;d&quot;e");
    assert_eq!(encodify_name(&"caf\u{e9}/x".to_string()), "caf\u{e9}&#x2F;x");
    assert_eq!(underscore_entities("a&#32;b&#95;c"), "a_b_c");
    assert_eq!(underscore_entities("&#3&#32;"), "&#3_");
    assert_eq!(underscore_entities("plain"), "plain");
}

#[test]
fn config_file_path() {
    assert_eq!(get_config_location(&"/home/u/.local/share/x".to_string()), "/home/u/.local/share/x/config.json");
}

#[test]
fn config_reads_well_formed_entries_and_reports_the_rest() {
    let text = r#"[
        {"name": "docs", "remote": "h:21", "name_encoded": "docs", "remote_path": "/pub",
         "local_path": "/home/u/docs", "remote_username": "u", "remote_password": "p", "advanced_backups": true},
        {"name": "broken", "remote": 5},
        {"remote": "h"},
        {"name": "nb", "remote": "h", "name_encoded": "nb", "remote_path": "/", "local_path": "/l",
         "remote_username": "u", "remote_password": "p", "advanced_backups": "yes"},
        7
    ]"#;
    let contents = match get_config(text) {
        Ok(c) => c,
        Err(e) => panic!("unreadable: {:?}", e),
    };
    assert_eq!(contents.locations.len(), 1);
    let loc = &contents.locations[0];
    assert_eq!(loc.name, "docs");
    assert_eq!(loc.remote_path, "/pub");
    assert_eq!(loc.local_path, "/home/u/docs");
    assert!(loc.advanced_backups);
    assert_eq!(
        contents.issues,
        vec![
            ConfigIssue::WrongType(ConfigField::Remote),
            ConfigIssue::Missing(ConfigField::Name),
            ConfigIssue::WrongType(ConfigField::AdvancedBackups),
            ConfigIssue::NotObject,
        ]
    );
}

#[test]
fn config_errors() {
    assert!(matches!(get_config("{not json"), Err(ConfigError::NotJson)));
    assert!(matches!(get_config("{\"a\": 1}"), Err(ConfigError::NotArray)));
    match get_config("[]") {
        Ok(c) => assert!(c.locations.is_empty() && c.issues.is_empty()),
        Err(e) => panic!("unreadable: {:?}", e),
    }
}

#[test]
fn arguments() {
    let none = check_arguments(&vec!["prog".to_string()]);
    assert_eq!(none, Args { wait_to_exit: false, log_level: LogLevel::Default, continue_on_error: false });
    let all = check_arguments(&vec![
        "prog".to_string(),
        "--verbose".to_string(),
        "--wait-to-exit".to_string(),
        "--other".to_string(),
        "--continue-on-error".to_string(),
    ]);
    assert_eq!(all, Args { wait_to_exit: true, log_level: LogLevel::Verbose, continue_on_error: true });
}

#[test]
fn main_menu_moves_and_selects() {
    assert_eq!(move_selection(0, 3, UserInput::MoveUp), 0);
    assert_eq!(move_selection(2, 3, UserInput::MoveDown), 2);
    assert_eq!(move_selection(1, 3, UserInput::MoveDown), 2);
    assert_eq!(logic_main_menu(0, 3, UserInput::MoveDown), TuiState::MainMenu(1));
    assert_eq!(logic_main_menu(1, 3, UserInput::Select), TuiState::RemoteSelected(1));
    assert_eq!(logic_main_menu(2, 3, UserInput::Select), TuiState::AddRemote(AddRemoteStep::SettingName));
    assert_eq!(logic_main_menu(2, 3, UserInput::Exit), TuiState::Quit);
    assert_eq!(logic_main_menu(1, 3, UserInput::Char('x')), TuiState::MainMenu(1));
}

#[test]
fn add_remote_dialogue_steps() {
    let mut d = NewRemoteDetails::new();
    assert!(d.name.is_none() && d.advanced_backups.is_none());
    assert_eq!(store_text(AddRemoteStep::SettingName, "   ", &mut d), None);
    assert!(d.name.is_none());
    assert_eq!(store_text(AddRemoteStep::SettingName, "  n \t", &mut d), Some(TuiState::AddRemote(AddRemoteStep::SettingRemoteUrl)));
    assert_eq!(store_text(AddRemoteStep::SettingRemoteUrl, "h", &mut d), Some(TuiState::AddRemote(AddRemoteStep::SettingRemotePath)));
    assert_eq!(store_text(AddRemoteStep::SettingRemotePath, " ", &mut d), Some(TuiState::AddRemote(AddRemoteStep::SettingLocalPath)));
    assert_eq!(store_text(AddRemoteStep::SettingLocalPath, "/l", &mut d), Some(TuiState::AddRemote(AddRemoteStep::AskingIfNeedsLogin)));
    assert_eq!(d.name.as_deref(), Some("n"));
    assert_eq!(d.remote_path.as_deref(), Some(""));
    assert!(accepts_empty(AddRemoteStep::SettingRemotePath));
    assert!(!accepts_empty(AddRemoteStep::SettingName));
    assert_eq!(choice_count(AddRemoteStep::AskingIfNeedsLogin), 2);
    assert_eq!(choice_count(AddRemoteStep::BasicSummary), 3);
    assert_eq!(after_choice(AddRemoteStep::AskingIfNeedsLogin, 0), TuiState::AddRemote(AddRemoteStep::SettingRemoteUsername));
    assert_eq!(after_choice(AddRemoteStep::AskingIfNeedsLogin, 1), TuiState::AddRemote(AddRemoteStep::BasicSummary));
    assert_eq!(store_text(AddRemoteStep::SettingRemoteUsername, "u", &mut d), Some(TuiState::AddRemote(AddRemoteStep::SettingRemotePassword)));
    assert_eq!(store_text(AddRemoteStep::SettingRemotePassword, "p", &mut d), Some(TuiState::AddRemote(AddRemoteStep::BasicSummary)));
    assert_eq!(after_choice(AddRemoteStep::BasicSummary, 0), TuiState::AddRemoteDone);
    assert_eq!(after_choice(AddRemoteStep::BasicSummary, 2), TuiState::Quit);
    assert_eq!(d.remote_username.as_deref(), Some("u"));
}

#[test]
fn main_menu_layout() {
    let options = vec!["docs".to_string(), "(Add new remote)".to_string()];
    let layout = render_main_menu(TuiState::MainMenu(1), &options);
    assert_eq!(layout.selected, 1);
    assert_eq!(layout.options, options);
    assert_eq!(layout.box_title, " Select a remote to sync ");
}

#[test]
fn remote_listing_lines() {
    let lines = vec![
        "drwxr-xr-x 2 user group 4096 Nov 5 2019 docs".to_string(),
        "-rw-r--r-- 1 user group 1234 Nov 5 2019 a.txt".to_string(),
        "type=file;size=notanumber;modify=20181105163248; bad.txt".to_string(),
    ];
    let entries = parse_listing(&lines);
    assert_eq!(entries.len(), 2);
    assert_eq!(entries[0].name, "docs");
    assert_eq!(entries[0].kind, EntryKind::Directory);
    assert_eq!(entries[1].name, "a.txt");
    assert_eq!(entries[1].kind, EntryKind::File);
    assert_eq!(entries[1].modified_at, Some(1_572_912_000));
}

#[test]
fn program_folder_by_platform_and_user() {
    assert_eq!(
        get_program_folder(true, Some("ana".to_string()), false),
        "/home/ana/.local/share/idko2004.github.io/sync-remote"
    );
    assert_eq!(
        get_program_folder(true, Some("ana".to_string()), true),
        "/home/ana/.local/share/idko2004.github.io/sync-remote-debug"
    );
    assert_eq!(get_program_folder(true, Some("".to_string()), false), "sync-remote");
    assert_eq!(get_program_folder(true, None, false), "sync-remote");
    assert_eq!(get_program_folder(false, Some("ana".to_string()), true), "sync-remote-debug");
}

#[test]
fn keys_become_menu_inputs() {
    assert_eq!(process_input_raw_mode(Key::Down, false, false), UserInput::MoveDown);
    assert_eq!(process_input_raw_mode(Key::Up, false, true), UserInput::MoveUp);
    assert_eq!(process_input_raw_mode(Key::Enter, false, false), UserInput::Select);
    assert_eq!(process_input_raw_mode(Key::Backspace, false, true), UserInput::Backspace);
    assert_eq!(process_input_raw_mode(Key::Esc, false, false), UserInput::Exit);
    assert_eq!(process_input_raw_mode(Key::Char('c'), true, true), UserInput::Exit);
    assert_eq!(process_input_raw_mode(Key::Char('q'), true, false), UserInput::Exit);
    assert_eq!(process_input_raw_mode(Key::Char('c'), false, true), UserInput::Char('c'));
    assert_eq!(process_input_raw_mode(Key::Char('x'), true, true), UserInput::Char('x'));
    assert_eq!(process_input_raw_mode(Key::Char('x'), false, false), UserInput::Ignore);
    assert_eq!(process_input_raw_mode(Key::Other, false, true), UserInput::Ignore);
}

#[test]
fn trimming_uses_unicode_white_space() {
    assert_eq!(trim("  a b\t\n"), "a b");
    assert_eq!(trim("\u{3000}x\u{2009}"), "x");
    assert_eq!(trim("   "), "");
    assert_eq!(trim(""), "");
    assert_eq!(trim("x"), "x");
}

#[test]
fn parsed_lines_are_kept_in_order() {
    let e = |n: &str| ListingEntry { name: n.to_string(), kind: EntryKind::File, modified_at: Some(1) };
    let kept = keep_parsed(vec![None, Some(e("a")), None, Some(e("b")), Some(e("c"))]);
    let names: Vec<&str> = kept.iter().map(|x| x.name.as_str()).collect();
    assert_eq!(names, vec!["a", "b", "c"]);
    assert!(keep_parsed(vec![None, None]).is_empty());
}
