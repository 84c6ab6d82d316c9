use vstd::prelude::*;
use crate::paths::{starts_with, with_leading_separator, has_prefix};

verus! {

/// One configured synchronization target.
pub struct SyncLocation {
    /// Address of the file-transfer server, `host:port`.
    pub remote: String,
    /// Display name.
    pub name: String,
    /// The name in a form fit for a directory name (the backup folder).
    pub name_encoded: String,
    /// Root on the server: starts with a separator, never ends with one.
    pub remote_path: String,
    /// Absolute local root, without a trailing separator.
    pub local_path: String,
    pub remote_username: String,
    pub remote_password: String,
    /// Whether the local tree is copied aside before each run.
    pub advanced_backups: bool,
}

pub struct SyncLocationView {
    pub remote: Seq<char>,
    pub name: Seq<char>,
    pub name_encoded: Seq<char>,
    pub remote_path: Seq<char>,
    pub local_path: Seq<char>,
    pub remote_username: Seq<char>,
    pub remote_password: Seq<char>,
    pub advanced_backups: bool,
}

impl View for SyncLocation {
    type V = SyncLocationView;

    open spec fn view(&self) -> SyncLocationView {
        SyncLocationView {
            remote: self.remote@,
            name: self.name@,
            name_encoded: self.name_encoded@,
            remote_path: self.remote_path@,
            local_path: self.local_path@,
            remote_username: self.remote_username@,
            remote_password: self.remote_password@,
            advanced_backups: self.advanced_backups,
        }
    }
}

/// What the user typed while defining a new location; `None` for what was not asked.
pub struct NewRemoteDetails {
    pub name: Option<String>,
    pub remote_url: Option<String>,
    pub remote_path: Option<String>,
    pub local_path: Option<String>,
    pub remote_username: Option<String>,
    pub remote_password: Option<String>,
    pub advanced_backups: Option<bool>,
}

impl NewRemoteDetails {
    /// Details with nothing filled in.
    pub fn new() -> (r: NewRemoteDetails)
        ensures
            r.name is None,
            r.remote_url is None,
            r.remote_path is None,
            r.local_path is None,
            r.remote_username is None,
            r.remote_password is None,
            r.advanced_backups is None,
    {
        NewRemoteDetails {
            name: None,
            remote_url: None,
            remote_path: None,
            local_path: None,
            remote_username: None,
            remote_password: None,
            advanced_backups: None,
        }
    }
}

/// Why a new location was refused.
#[derive(Clone, Copy, PartialEq, Eq, Structural, Debug)]
pub enum NewRemoteError {
    MissingName,
    MissingRemoteUrl,
    MissingRemotePath,
    MissingLocalPath,
    LocalPathNotAbsolute,
    /// Another location has the same name or the same encoded name.
    NameTaken,
}

/// Whether `c` is an ASCII letter or digit.
pub open spec fn is_ascii_alphanumeric(c: char) -> bool {
    ('0' <= c <= '9') || ('A' <= c <= 'Z') || ('a' <= c <= 'z')
}

/// The upper-case hexadecimal digit of `d` (below 16).
pub open spec fn hex_digit(d: u32) -> char {
    seq!['0', '1', '2', '3', '4', '5', '6', '7', '8', '9', 'A', 'B', 'C', 'D', 'E', 'F'][d as int]
}

/// How an unquoted HTML attribute writes `c`: an ASCII character that is not a
/// letter or digit becomes an entity, anything else stays.
pub open spec fn escape_char(c: char) -> Seq<char> {
    if (c as u32) < 128 && !is_ascii_alphanumeric(c) {
        if c == '&' {
            seq!['&', 'a', 'm', 'p', ';']
        } else if c == '<' {
            seq!['&', 'l', 't', ';']
        } else if c == '>' {
            seq!['&', 'g', 't', ';']
        } else if c == '"' {
            seq!['&', 'q', 'u', 'o', 't', ';']
        } else {
            seq!['&', '#', 'x', hex_digit((c as u32) / 16), hex_digit((c as u32) % 16), ';']
        }
    } else {
        seq![c]
    }
}

/// `s` written as an unquoted HTML attribute, character by character.
pub open spec fn unquoted_attribute_escape(s: Seq<char>) -> Seq<char>
    decreases s.len(),
{
    if s.len() == 0 {
        Seq::empty()
    } else {
        unquoted_attribute_escape(s.drop_last()) + escape_char(s.last())
    }
}

/// Relies on html-escape's `encode_unquoted_attribute_to_string`: appended to
/// an empty string, every ASCII character of `s` that is not alphanumeric
/// becomes `&amp;`, `&lt;`, `&gt;`, `&quot;` or `&#xHH;` (upper-case hex), and
/// every other character is kept.
#[verifier::external_body]
fn escape_unquoted_attribute(s: &str) -> (r: String)
    ensures
        r@ == unquoted_attribute_escape(s@),
{
    let mut r = String::new();
    html_escape::encode_unquoted_attribute_to_string(s, &mut r);
    r
}

pub open spec fn space_entity() -> Seq<char> {
    seq!['&', '#', '3', '2', ';']
}

pub open spec fn underscore_entity() -> Seq<char> {
    seq!['&', '#', '9', '5', ';']
}

/// `s` with every `&#32;` and every `&#95;` replaced by `_`, scanning left to right.
pub open spec fn underscore_entities_spec(s: Seq<char>) -> Seq<char>
    decreases s.len(),
{
    if s.len() == 0 {
        s
    } else if has_prefix(s, space_entity()) || has_prefix(s, underscore_entity()) {
        seq!['_'] + underscore_entities_spec(s.subrange(5, s.len() as int))
    } else {
        seq![s[0]] + underscore_entities_spec(s.subrange(1, s.len() as int))
    }
}

/// The encoded form of a location's name.
pub open spec fn encoded_name_spec(name: Seq<char>) -> Seq<char> {
    underscore_entities_spec(unquoted_attribute_escape(name))
}

/// Replaces every `&#32;` and `&#95;` in `s` by `_`.
pub fn underscore_entities(s: &str) -> (r: String)
    ensures
        r@ == underscore_entities_spec(s@),
{
    proof {
        reveal_strlit("&#32;");
        reveal_strlit("&#95;");
        reveal_strlit("_");
    }
    assert("&#32;"@ =~= space_entity());
    assert("&#95;"@ =~= underscore_entity());
    assert("_"@ =~= seq!['_']);
    let n = s.unicode_len();
    let mut out = String::new();
    let mut i: usize = 0;
    assert(s@.subrange(0, n as int) =~= s@);
    assert(out@ + s@ =~= s@);
    while i < n
        invariant
            n == s@.len(),
            i <= n,
            "&#32;"@ == space_entity(),
            "&#95;"@ == underscore_entity(),
            "_"@ == seq!['_'],
            underscore_entities_spec(s@) == out@ + underscore_entities_spec(s@.subrange(i as int, n as int)),
        decreases n - i,
    {
        let rest = s.substring_char(i, n);
        let ghost r = s@.subrange(i as int, n as int);
        assert(rest@ == r);
        if starts_with(rest, "&#32;") || starts_with(rest, "&#95;") {
            assert(has_prefix(r, space_entity()) || has_prefix(r, underscore_entity()));
            assert(r.subrange(5, r.len() as int) =~= s@.subrange(i + 5, n as int));
            out.append("_");
            i = i + 5;
        } else {
            assert(r.subrange(1, r.len() as int) =~= s@.subrange(i + 1, n as int));
            let c = s.substring_char(i, i + 1);
            assert(c@ =~= seq![r[0]]);
            out.append(c);
            i = i + 1;
        }
    }
    assert(s@.subrange(n as int, n as int) =~= Seq::<char>::empty());
    assert(out@ + Seq::<char>::empty() =~= out@);
    out
}

/// The encoded form of `name`: its unquoted-attribute encoding, with the
/// entities of space and underscore turned into `_`.
pub fn encodify_name(name: &String) -> (r: String)
    ensures
        r@ == encoded_name_spec(name@),
{
    let escaped = escape_unquoted_attribute(name.as_str());
    underscore_entities(escaped.as_str())
}

/// Whether `s` ends with a separator of either platform.
pub open spec fn ends_with_separator(s: Seq<char>) -> bool {
    s.len() > 0 && (s.last() == '/' || s.last() == '\\')
}

/// `s` without one trailing separator.
pub open spec fn without_trailing_separator(s: Seq<char>) -> Seq<char> {
    if ends_with_separator(s) {
        s.drop_last()
    } else {
        s
    }
}

/// A remote root as stored: one leading separator, no trailing one.
pub open spec fn normalized_remote_path(s: Seq<char>) -> Seq<char> {
    without_trailing_separator(with_leading_separator(s))
}

/// Whether a local root is absolute: a drive letter and `:\` on Windows, a leading `/` elsewhere.
pub open spec fn local_path_is_absolute(s: Seq<char>, windows: bool) -> bool {
    if windows {
        s.len() >= 3 && 'A' <= s[0] <= 'Z' && s[1] == ':' && s[2] == '\\'
    } else {
        s.len() > 0 && s[0] == '/'
    }
}

/// Whether no location of `existing` has name `name` or encoded name `encoded`.
pub open spec fn is_unique(name: Seq<char>, encoded: Seq<char>, existing: Seq<SyncLocation>) -> bool {
    forall|i: int| 0 <= i < existing.len() ==> existing[i].name@ != name && existing[i].name_encoded@ != encoded
}

/// The first reason, in the order the details are checked, to refuse them.
pub open spec fn new_remote_error(d: NewRemoteDetails, existing: Seq<SyncLocation>, windows: bool) -> Option<NewRemoteError> {
    if d.name is None {
        Some(NewRemoteError::MissingName)
    } else if d.remote_url is None {
        Some(NewRemoteError::MissingRemoteUrl)
    } else if d.remote_path is None {
        Some(NewRemoteError::MissingRemotePath)
    } else if d.local_path is None {
        Some(NewRemoteError::MissingLocalPath)
    } else if !local_path_is_absolute(without_trailing_separator(d.local_path.unwrap()@), windows) {
        Some(NewRemoteError::LocalPathNotAbsolute)
    } else if !is_unique(d.name.unwrap()@, encoded_name_spec(d.name.unwrap()@), existing) {
        Some(NewRemoteError::NameTaken)
    } else {
        None
    }
}

/// Whether `loc` is the location built from accepted details `d`.
pub open spec fn built_from(loc: SyncLocation, d: NewRemoteDetails) -> bool {
    &&& loc.name@ == d.name.unwrap()@
    &&& loc.name_encoded@ == encoded_name_spec(d.name.unwrap()@)
    &&& loc.remote@ == d.remote_url.unwrap()@
    &&& loc.remote_path@ == normalized_remote_path(d.remote_path.unwrap()@)
    &&& loc.local_path@ == without_trailing_separator(d.local_path.unwrap()@)
    &&& loc.remote_username@ == (match d.remote_username {
        Some(u) => u@,
        None => "anonymous"@,
    })
    &&& loc.remote_password@ == (match d.remote_password {
        Some(p) => p@,
        None => "anon@localhost"@,
    })
    &&& loc.advanced_backups == (match d.advanced_backups {
        Some(b) => b,
        None => true,
    })
}

fn drop_trailing_separator(s: String) -> (r: String)
    ensures
        r@ == without_trailing_separator(s@),
{
    let n = s.as_str().unicode_len();
    if n > 0 {
        let last = s.as_str().get_char(n - 1);
        if last == '/' || last == '\\' {
            return String::from_str(s.as_str().substring_char(0, n - 1));
        }
    }
    s
}

fn is_absolute_local(s: &String, windows: bool) -> (r: bool)
    ensures
        r == local_path_is_absolute(s@, windows),
{
    let n = s.as_str().unicode_len();
    if windows {
        if n < 3 {
            return false;
        }
        let c = s.as_str().get_char(0);
        'A' <= c && c <= 'Z' && s.as_str().get_char(1) == ':' && s.as_str().get_char(2) == '\\'
    } else {
        n > 0 && s.as_str().get_char(0) == '/'
    }
}

fn normalize_remote_path(s: String) -> (r: String)
    ensures
        r@ == normalized_remote_path(s@),
{
    proof {
        reveal_strlit("/");
    }
    let n = s.as_str().unicode_len();
    let led = if n > 0 && s.as_str().get_char(0) == '/' {
        s
    } else {
        let mut x = String::from_str("/");
        x.append(s.as_str());
        x
    };
    drop_trailing_separator(led)
}

/// Whether `new_location` differs from every location of `existing` both in
/// name and in encoded name.
pub fn check_if_remote_is_unique(new_location: &SyncLocation, existing: &Vec<SyncLocation>) -> (r: bool)
    ensures
        r == is_unique(new_location.name@, new_location.name_encoded@, existing@),
{
    let mut i: usize = 0;
    while i < existing.len()
        invariant
            i <= existing@.len(),
            forall|k: int| 0 <= k < i ==> existing@[k].name@ != new_location.name@
                && existing@[k].name_encoded@ != new_location.name_encoded@,
        decreases existing@.len() - i,
    {
        if existing[i].name == new_location.name {
            return false;
        }
        if existing[i].name_encoded == new_location.name_encoded {
            return false;
        }
        i = i + 1;
    }
    true
}

/// Builds a new location from the details typed in: the remote root gets one
/// leading and no trailing separator, the local root loses a trailing
/// separator and must be absolute, missing credentials fall back to an
/// anonymous login, backups default to on, and the name must be new.
pub fn new_sync_location(details: NewRemoteDetails, existing: &Vec<SyncLocation>, windows: bool) -> (r: Result<SyncLocation, NewRemoteError>)
    ensures
        match r {
            Ok(loc) => new_remote_error(details, existing@, windows) is None && built_from(loc, details),
            Err(e) => new_remote_error(details, existing@, windows) == Some(e),
        },
{
    proof {
        reveal_strlit("anonymous");
        reveal_strlit("anon@localhost");
    }
    let ghost d = details;
    let NewRemoteDetails { name, remote_url, remote_path, local_path, remote_username, remote_password, advanced_backups } = details;
    let name = match name {
        Some(v) => v,
        None => return Err(NewRemoteError::MissingName),
    };
    let remote = match remote_url {
        Some(v) => v,
        None => return Err(NewRemoteError::MissingRemoteUrl),
    };
    let remote_path = match remote_path {
        Some(v) => normalize_remote_path(v),
        None => return Err(NewRemoteError::MissingRemotePath),
    };
    let local_path = match local_path {
        Some(v) => drop_trailing_separator(v),
        None => return Err(NewRemoteError::MissingLocalPath),
    };
    if !is_absolute_local(&local_path, windows) {
        return Err(NewRemoteError::LocalPathNotAbsolute);
    }
    let remote_username = match remote_username {
        Some(v) => v,
        None => String::from_str("anonymous"),
    };
    let remote_password = match remote_password {
        Some(v) => v,
        None => String::from_str("anon@localhost"),
    };
    let advanced_backups = match advanced_backups {
        Some(v) => v,
        None => true,
    };
    let name_encoded = encodify_name(&name);
    let location = SyncLocation {
        remote,
        name,
        name_encoded,
        remote_path,
        local_path,
        remote_username,
        remote_password,
        advanced_backups,
    };
    if !check_if_remote_is_unique(&location, existing) {
        return Err(NewRemoteError::NameTaken);
    }
    Ok(location)
}

/// The name of the program's data folder for a debug or a release build.
pub open spec fn folder_name(debug_build: bool) -> Seq<char> {
    if debug_build { "sync-remote-debug"@ } else { "sync-remote"@ }
}

/// Where the program keeps its data: under the user's home on Linux when the
/// user name is known and not empty, else a folder of the working directory.
pub fn get_program_folder(linux: bool, user: Option<String>, debug_build: bool) -> (r: String)
    ensures
        r@ == (match user {
            Some(u) if linux && u@.len() > 0 => "/home/"@ + u@ + "/.local/share/idko2004.github.io/"@
                + folder_name(debug_build),
            _ => folder_name(debug_build),
        }),
{
    let name = if debug_build { String::from_str("sync-remote-debug") } else { String::from_str("sync-remote") };
    match user {
        Some(u) => {
            if linux && u.as_str().unicode_len() > 0 {
                let mut r = String::from_str("/home/");
                r.append(u.as_str());
                r.append("/.local/share/idko2004.github.io/");
                r.append(name.as_str());
                r
            } else {
                name
            }
        },
        None => name,
    }
}

/// The path of the configuration file inside the program's data folder.
pub fn get_config_location(program_folder: &String) -> (r: String)
    ensures
        r@ == program_folder@ + "/config.json"@,
{
    let mut r = program_folder.clone();
    r.append("/config.json");
    r
}

} // verus!
