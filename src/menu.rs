use vstd::prelude::*;
use crate::config::NewRemoteDetails;

verus! {

/// A key press, as the menus see it.
#[derive(Clone, Copy, PartialEq, Eq, Structural, Debug)]
pub enum UserInput {
    Exit,
    Select,
    MoveDown,
    MoveUp,
    Char(char),
    Backspace,
    Ignore,
}

/// A key as the terminal reports it, reduced to what the menus tell apart.
#[derive(Clone, Copy, PartialEq, Eq, Structural, Debug)]
pub enum Key {
    Down,
    Up,
    Enter,
    Backspace,
    Esc,
    Char(char),
    /// Any other key, or an event that is no key press.
    Other,
}

/// The meaning of a key: arrows move, Enter selects, Escape and Ctrl-C or
/// Ctrl-Q (with no other modifier) leave; characters count only where text is typed.
pub open spec fn input_spec(key: Key, control_only: bool, return_chars: bool) -> UserInput {
    match key {
        Key::Down => UserInput::MoveDown,
        Key::Up => UserInput::MoveUp,
        Key::Enter => UserInput::Select,
        Key::Backspace => UserInput::Backspace,
        Key::Esc => UserInput::Exit,
        Key::Char(c) => if control_only && (c == 'c' || c == 'q') {
            UserInput::Exit
        } else if return_chars {
            UserInput::Char(c)
        } else {
            UserInput::Ignore
        },
        Key::Other => UserInput::Ignore,
    }
}

/// The menu input for a key; `control_only` tells whether Control was the only modifier held.
pub fn process_input_raw_mode(key: Key, control_only: bool, return_chars: bool) -> (r: UserInput)
    ensures
        r == input_spec(key, control_only, return_chars),
{
    match key {
        Key::Down => UserInput::MoveDown,
        Key::Up => UserInput::MoveUp,
        Key::Enter => UserInput::Select,
        Key::Backspace => UserInput::Backspace,
        Key::Esc => UserInput::Exit,
        Key::Char(c) => if control_only && (c == 'c' || c == 'q') {
            UserInput::Exit
        } else if return_chars {
            UserInput::Char(c)
        } else {
            UserInput::Ignore
        },
        Key::Other => UserInput::Ignore,
    }
}

/// The screens of the new-location dialogue, in the order they are shown.
#[derive(Clone, Copy, PartialEq, Eq, Structural, Debug)]
pub enum AddRemoteStep {
    SettingName,
    SettingRemoteUrl,
    SettingRemotePath,
    SettingLocalPath,
    AskingIfNeedsLogin,
    SettingRemoteUsername,
    SettingRemotePassword,
    BasicSummary,
}

/// Where the interactive front end stands.
#[derive(Clone, Copy, PartialEq, Eq, Structural, Debug)]
pub enum TuiState {
    /// The list of locations, with the selected index.
    MainMenu(usize),
    AddRemote(AddRemoteStep),
    /// A location was chosen for synchronization.
    RemoteSelected(usize),
    /// The new-location dialogue is complete.
    AddRemoteDone,
    /// The user asked to leave.
    Quit,
}

/// What the front end hands back to the program.
pub enum TuiResult {
    SyncRemote(usize),
    CreateRemote(NewRemoteDetails),
}

/// The selection after `input` in a list of `count` options.
pub open spec fn moved_selection(selected: usize, count: usize, input: UserInput) -> usize {
    match input {
        UserInput::MoveDown => if selected + 1 >= count { (count - 1) as usize } else { (selected + 1) as usize },
        UserInput::MoveUp => if selected > 0 { (selected - 1) as usize } else { selected },
        _ => selected,
    }
}

/// Moves the selection of a list of `count` options: down stops at the last
/// option, up stops at the first.
pub fn move_selection(selected: usize, count: usize, input: UserInput) -> (r: usize)
    requires
        selected < count,
    ensures
        r == moved_selection(selected, count, input),
        r < count,
{
    match input {
        UserInput::MoveDown => if selected + 1 >= count { count - 1 } else { selected + 1 },
        UserInput::MoveUp => if selected > 0 { selected - 1 } else { selected },
        _ => selected,
    }
}

/// The main menu's answer to `input`, when option `selected` of `count` is
/// highlighted; the last option is always "add a new location".
pub open spec fn main_menu_spec(selected: usize, count: usize, input: UserInput) -> TuiState {
    match input {
        UserInput::Select => if selected == count - 1 {
            TuiState::AddRemote(AddRemoteStep::SettingName)
        } else {
            TuiState::RemoteSelected(selected)
        },
        UserInput::Exit => TuiState::Quit,
        _ => TuiState::MainMenu(moved_selection(selected, count, input)),
    }
}

/// The state after `input` in the main menu.
pub fn logic_main_menu(selected: usize, count: usize, input: UserInput) -> (r: TuiState)
    requires
        selected < count,
    ensures
        r == main_menu_spec(selected, count, input),
{
    match input {
        UserInput::Select => if selected == count - 1 {
            TuiState::AddRemote(AddRemoteStep::SettingName)
        } else {
            TuiState::RemoteSelected(selected)
        },
        UserInput::Exit => TuiState::Quit,
        _ => TuiState::MainMenu(move_selection(selected, count, input)),
    }
}

/// The screen after a text field of `step` was filled in.
pub open spec fn after_text_spec(step: AddRemoteStep) -> TuiState {
    match step {
        AddRemoteStep::SettingName => TuiState::AddRemote(AddRemoteStep::SettingRemoteUrl),
        AddRemoteStep::SettingRemoteUrl => TuiState::AddRemote(AddRemoteStep::SettingRemotePath),
        AddRemoteStep::SettingRemotePath => TuiState::AddRemote(AddRemoteStep::SettingLocalPath),
        AddRemoteStep::SettingLocalPath => TuiState::AddRemote(AddRemoteStep::AskingIfNeedsLogin),
        AddRemoteStep::SettingRemoteUsername => TuiState::AddRemote(AddRemoteStep::SettingRemotePassword),
        AddRemoteStep::SettingRemotePassword => TuiState::AddRemote(AddRemoteStep::BasicSummary),
        _ => TuiState::AddRemote(step),
    }
}

/// Whether `step` asks for a line of text.
pub open spec fn is_text_step(step: AddRemoteStep) -> bool {
    !(step == AddRemoteStep::AskingIfNeedsLogin || step == AddRemoteStep::BasicSummary)
}

/// Whether an entry may be left empty at `step`: only the remote root, whose
/// leading separator is implied.
pub fn accepts_empty(step: AddRemoteStep) -> (r: bool)
    ensures
        r == (step == AddRemoteStep::SettingRemotePath),
{
    match step {
        AddRemoteStep::SettingRemotePath => true,
        _ => false,
    }
}

/// Whether `c` has the Unicode White_Space property.
pub open spec fn is_white_space(c: char) -> bool {
    let u = c as u32;
    (0x9 <= u <= 0xD) || u == 0x20 || u == 0x85 || u == 0xA0 || u == 0x1680 || (0x2000 <= u <= 0x200A)
        || u == 0x2028 || u == 0x2029 || u == 0x202F || u == 0x205F || u == 0x3000
}

/// `s` without its leading white space.
pub open spec fn trim_start_spec(s: Seq<char>) -> Seq<char>
    decreases s.len(),
{
    if s.len() > 0 && is_white_space(s[0]) {
        trim_start_spec(s.subrange(1, s.len() as int))
    } else {
        s
    }
}

/// `s` without its trailing white space.
pub open spec fn trim_end_spec(s: Seq<char>) -> Seq<char>
    decreases s.len(),
{
    if s.len() > 0 && is_white_space(s.last()) {
        trim_end_spec(s.drop_last())
    } else {
        s
    }
}

/// `s` without leading and trailing white space.
pub open spec fn trim_spec(s: Seq<char>) -> Seq<char> {
    trim_end_spec(trim_start_spec(s))
}

fn white_space(c: char) -> (r: bool)
    ensures
        r == is_white_space(c),
{
    let u = c as u32;
    (0x9 <= u && u <= 0xD) || u == 0x20 || u == 0x85 || u == 0xA0 || u == 0x1680 || (0x2000 <= u && u <= 0x200A)
        || u == 0x2028 || u == 0x2029 || u == 0x202F || u == 0x205F || u == 0x3000
}

/// `s` without leading and trailing white space.
pub fn trim(s: &str) -> (r: String)
    ensures
        r@ == trim_spec(s@),
{
    let n = s.unicode_len();
    let mut i: usize = 0;
    assert(s@.subrange(0, n as int) =~= s@);
    loop
        invariant
            n == s@.len(),
            i <= n,
            trim_start_spec(s@) == trim_start_spec(s@.subrange(i as int, n as int)),
        ensures
            i <= n,
            trim_start_spec(s@) == trim_start_spec(s@.subrange(i as int, n as int)),
            i == n || !is_white_space(s@[i as int]),
        decreases n - i,
    {
        if i == n || !white_space(s.get_char(i)) {
            break;
        }
        assert(s@.subrange(i as int, n as int).subrange(1, (n - i) as int) =~= s@.subrange(i + 1, n as int));
        i = i + 1;
    }
    assert(i < n ==> s@.subrange(i as int, n as int)[0] == s@[i as int]);
    assert(trim_start_spec(s@) == s@.subrange(i as int, n as int));
    assert(trim_end_spec(s@.subrange(i as int, n as int)) == trim_spec(s@));
    let mut j: usize = n;
    loop
        invariant
            n == s@.len(),
            i <= j <= n,
            trim_spec(s@) == trim_end_spec(s@.subrange(i as int, j as int)),
        ensures
            i <= j <= n,
            trim_spec(s@) == trim_end_spec(s@.subrange(i as int, j as int)),
            j == i || !is_white_space(s@[j - 1]),
        decreases j - i,
    {
        if j == i || !white_space(s.get_char(j - 1)) {
            break;
        }
        assert(s@.subrange(i as int, j as int).drop_last() =~= s@.subrange(i as int, j - 1));
        j = j - 1;
    }
    assert(j > i ==> s@.subrange(i as int, j as int).last() == s@[j - 1]);
    String::from_str(s.substring_char(i, j))
}

/// The text kept from an entry at `step`: trimmed, and refused (`None`) when
/// nothing is left, except at the remote root, whose leading separator is implied.
pub open spec fn accepted_text(step: AddRemoteStep, text: Seq<char>) -> Option<Seq<char>> {
    if trim_spec(text).len() > 0 || step == AddRemoteStep::SettingRemotePath {
        Some(trim_spec(text))
    } else {
        None
    }
}

/// Whether `new` is `old` with `text` stored in the field that `step` asks for.
pub open spec fn stored(old: NewRemoteDetails, new: NewRemoteDetails, step: AddRemoteStep, text: Seq<char>) -> bool {
    let put = |f: Option<String>, s: AddRemoteStep, o: Option<String>|
        if step == s { f is Some && f.unwrap()@ == text } else { f == o };
    &&& put(new.name, AddRemoteStep::SettingName, old.name)
    &&& put(new.remote_url, AddRemoteStep::SettingRemoteUrl, old.remote_url)
    &&& put(new.remote_path, AddRemoteStep::SettingRemotePath, old.remote_path)
    &&& put(new.local_path, AddRemoteStep::SettingLocalPath, old.local_path)
    &&& put(new.remote_username, AddRemoteStep::SettingRemoteUsername, old.remote_username)
    &&& put(new.remote_password, AddRemoteStep::SettingRemotePassword, old.remote_password)
    &&& new.advanced_backups == old.advanced_backups
}

/// Takes the text confirmed at text screen `step`: once trimmed it is stored
/// in its field of `details` and the next screen is returned; an empty entry
/// is refused (`None`, nothing changed) except at the remote root.
pub fn store_text(step: AddRemoteStep, text: &str, details: &mut NewRemoteDetails) -> (r: Option<TuiState>)
    requires
        is_text_step(step),
    ensures
        match accepted_text(step, text@) {
            None => r is None && *final(details) == *old(details),
            Some(t) => r == Some(after_text_spec(step)) && stored(*old(details), *final(details), step, t),
        },
{
    let t = trim(text);
    if t.as_str().unicode_len() == 0 && !accepts_empty(step) {
        return None;
    }
    let next = match step {
        AddRemoteStep::SettingName => {
            details.name = Some(t);
            TuiState::AddRemote(AddRemoteStep::SettingRemoteUrl)
        },
        AddRemoteStep::SettingRemoteUrl => {
            details.remote_url = Some(t);
            TuiState::AddRemote(AddRemoteStep::SettingRemotePath)
        },
        AddRemoteStep::SettingRemotePath => {
            details.remote_path = Some(t);
            TuiState::AddRemote(AddRemoteStep::SettingLocalPath)
        },
        AddRemoteStep::SettingLocalPath => {
            details.local_path = Some(t);
            TuiState::AddRemote(AddRemoteStep::AskingIfNeedsLogin)
        },
        AddRemoteStep::SettingRemoteUsername => {
            details.remote_username = Some(t);
            TuiState::AddRemote(AddRemoteStep::SettingRemotePassword)
        },
        _ => {
            details.remote_password = Some(t);
            TuiState::AddRemote(AddRemoteStep::BasicSummary)
        },
    };
    Some(next)
}

/// The number of options a choice screen offers.
pub fn choice_count(step: AddRemoteStep) -> (r: usize)
    ensures
        r == (if step == AddRemoteStep::BasicSummary { 3usize } else { 2usize }),
{
    match step {
        AddRemoteStep::BasicSummary => 3,
        _ => 2,
    }
}

/// The screen after option `choice` was picked on choice screen `step`: asked
/// about a login, 0 leads to the credentials and 1 skips them; on the summary,
/// 0 saves the location and 2 leaves. Option 1 of the summary (advanced
/// settings) has no screen, and is left out.
pub fn after_choice(step: AddRemoteStep, choice: usize) -> (r: TuiState)
    requires
        !is_text_step(step),
        step == AddRemoteStep::BasicSummary ==> choice != 1,
    ensures
        step == AddRemoteStep::AskingIfNeedsLogin ==> r == (if choice == 0 {
            TuiState::AddRemote(AddRemoteStep::SettingRemoteUsername)
        } else {
            TuiState::AddRemote(AddRemoteStep::BasicSummary)
        }),
        step == AddRemoteStep::BasicSummary ==> r == (if choice == 0 { TuiState::AddRemoteDone } else { TuiState::Quit }),
{
    match step {
        AddRemoteStep::AskingIfNeedsLogin => if choice == 0 {
            TuiState::AddRemote(AddRemoteStep::SettingRemoteUsername)
        } else {
            TuiState::AddRemote(AddRemoteStep::BasicSummary)
        },
        _ => if choice == 0 {
            TuiState::AddRemoteDone
        } else {
            TuiState::Quit
        },
    }
}

/// What the main menu shows: its title, the options and the highlighted one.
pub struct MenuLayout {
    pub box_title: String,
    pub options: Vec<String>,
    pub selected: usize,
}

/// The layout of the main menu in state `state`.
pub fn render_main_menu(state: TuiState, options: &Vec<String>) -> (r: MenuLayout)
    requires
        state is MainMenu,
    ensures
        r.selected == state->MainMenu_0,
        r.options@ == options@,
        r.box_title@ == " Select a remote to sync "@,
{
    let selected = match state {
        TuiState::MainMenu(s) => s,
        _ => 0,
    };
    MenuLayout { box_title: String::from_str(" Select a remote to sync "), options: options.clone(), selected }
}

} // verus!
