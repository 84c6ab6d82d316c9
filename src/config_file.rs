use vstd::prelude::*;
use crate::config::{SyncLocation, SyncLocationView};
use serde_json::Value;

verus! {

/// A value of a configuration entry, as far as entries are read.
pub enum JsonField {
    Str(String),
    Bool(bool),
    /// Numbers, nulls, arrays and objects.
    Other,
}

/// An element of the configuration array.
pub enum ConfigItem {
    /// An object, with its fields in the order the parser gives them.
    Object(Vec<(String, JsonField)>),
    NotObject,
}

/// The configuration file's text, read as JSON.
pub enum ConfigDocument {
    Invalid,
    NotArray,
    Items(Vec<ConfigItem>),
}

pub enum JsonFieldView {
    Str(Seq<char>),
    Bool(bool),
    Other,
}

pub enum ConfigItemView {
    Object(Seq<(Seq<char>, JsonFieldView)>),
    NotObject,
}

pub enum ConfigDocumentView {
    Invalid,
    NotArray,
    Items(Seq<ConfigItemView>),
}

impl View for JsonField {
    type V = JsonFieldView;

    open spec fn view(&self) -> JsonFieldView {
        match self {
            JsonField::Str(s) => JsonFieldView::Str(s@),
            JsonField::Bool(b) => JsonFieldView::Bool(*b),
            JsonField::Other => JsonFieldView::Other,
        }
    }
}

pub open spec fn fields_view(s: Seq<(String, JsonField)>) -> Seq<(Seq<char>, JsonFieldView)> {
    s.map_values(|p: (String, JsonField)| (p.0@, p.1@))
}

impl View for ConfigItem {
    type V = ConfigItemView;

    open spec fn view(&self) -> ConfigItemView {
        match self {
            ConfigItem::Object(v) => ConfigItemView::Object(fields_view(v@)),
            ConfigItem::NotObject => ConfigItemView::NotObject,
        }
    }
}

pub open spec fn items_view(s: Seq<ConfigItem>) -> Seq<ConfigItemView> {
    s.map_values(|i: ConfigItem| i@)
}

impl View for ConfigDocument {
    type V = ConfigDocumentView;

    open spec fn view(&self) -> ConfigDocumentView {
        match self {
            ConfigDocument::Invalid => ConfigDocumentView::Invalid,
            ConfigDocument::NotArray => ConfigDocumentView::NotArray,
            ConfigDocument::Items(v) => ConfigDocumentView::Items(items_view(v@)),
        }
    }
}

/// The name given to serde_json's reading of a text, kept to the parts entries use.
pub uninterp spec fn config_document_of(text: Seq<char>) -> ConfigDocumentView;

/// Relies on serde_json's `from_str` into a `Value`, which depends on the text
/// alone; the value's array elements, object fields, strings and booleans are
/// copied out one for one.
#[verifier::external_body]
fn parse_config_document(text: &str) -> (r: ConfigDocument)
    ensures
        r@ == config_document_of(text@),
{
    match serde_json::from_str::<Value>(text) {
        Err(_) => ConfigDocument::Invalid,
        Ok(Value::Array(items)) => ConfigDocument::Items(items.iter().map(|item| match item {
            Value::Object(obj) => ConfigItem::Object(obj.iter().map(|(k, x)| (k.clone(), match x {
                Value::String(s) => JsonField::Str(s.clone()),
                Value::Bool(b) => JsonField::Bool(*b),
                _ => JsonField::Other,
            })).collect()),
            _ => ConfigItem::NotObject,
        }).collect()),
        Ok(_) => ConfigDocument::NotArray,
    }
}

/// The fields a configuration entry must have.
#[derive(Clone, Copy, PartialEq, Eq, Structural, Debug)]
pub enum ConfigField {
    Name,
    Remote,
    NameEncoded,
    RemotePath,
    LocalPath,
    RemoteUsername,
    RemotePassword,
    AdvancedBackups,
}

/// Why a configuration entry was skipped.
#[derive(Clone, Copy, PartialEq, Eq, Structural, Debug)]
pub enum ConfigIssue {
    NotObject,
    Missing(ConfigField),
    WrongType(ConfigField),
}

/// Why the configuration as a whole could not be read.
#[derive(Clone, Copy, PartialEq, Eq, Structural, Debug)]
pub enum ConfigError {
    NotJson,
    NotArray,
}

pub open spec fn key_of(f: ConfigField) -> Seq<char> {
    match f {
        ConfigField::Name => "name"@,
        ConfigField::Remote => "remote"@,
        ConfigField::NameEncoded => "name_encoded"@,
        ConfigField::RemotePath => "remote_path"@,
        ConfigField::LocalPath => "local_path"@,
        ConfigField::RemoteUsername => "remote_username"@,
        ConfigField::RemotePassword => "remote_password"@,
        ConfigField::AdvancedBackups => "advanced_backups"@,
    }
}

/// The key under which `f` is stored.
pub fn field_key(f: ConfigField) -> (r: String)
    ensures
        r@ == key_of(f),
{
    match f {
        ConfigField::Name => String::from_str("name"),
        ConfigField::Remote => String::from_str("remote"),
        ConfigField::NameEncoded => String::from_str("name_encoded"),
        ConfigField::RemotePath => String::from_str("remote_path"),
        ConfigField::LocalPath => String::from_str("local_path"),
        ConfigField::RemoteUsername => String::from_str("remote_username"),
        ConfigField::RemotePassword => String::from_str("remote_password"),
        ConfigField::AdvancedBackups => String::from_str("advanced_backups"),
    }
}

/// The value of the first field named `key`.
pub open spec fn lookup(fields: Seq<(Seq<char>, JsonFieldView)>, key: Seq<char>) -> Option<JsonFieldView>
    decreases fields.len(),
{
    if fields.len() == 0 {
        None
    } else if fields[0].0 == key {
        Some(fields[0].1)
    } else {
        lookup(fields.subrange(1, fields.len() as int), key)
    }
}

/// Field `f` as a string, or why it is not one.
pub open spec fn str_field(fields: Seq<(Seq<char>, JsonFieldView)>, f: ConfigField) -> Result<Seq<char>, ConfigIssue> {
    match lookup(fields, key_of(f)) {
        None => Err(ConfigIssue::Missing(f)),
        Some(JsonFieldView::Str(s)) => Ok(s),
        Some(_) => Err(ConfigIssue::WrongType(f)),
    }
}

/// Field `f` as a boolean, or why it is not one.
pub open spec fn bool_field(fields: Seq<(Seq<char>, JsonFieldView)>, f: ConfigField) -> Result<bool, ConfigIssue> {
    match lookup(fields, key_of(f)) {
        None => Err(ConfigIssue::Missing(f)),
        Some(JsonFieldView::Bool(b)) => Ok(b),
        Some(_) => Err(ConfigIssue::WrongType(f)),
    }
}

/// The location an entry describes, or the first problem found, checking the
/// fields in the order of `ConfigField`.
pub open spec fn location_spec(item: ConfigItemView) -> Result<SyncLocationView, ConfigIssue> {
    match item {
        ConfigItemView::NotObject => Err(ConfigIssue::NotObject),
        ConfigItemView::Object(fs) => {
            if str_field(fs, ConfigField::Name) is Err {
                Err(str_field(fs, ConfigField::Name)->Err_0)
            } else if str_field(fs, ConfigField::Remote) is Err {
                Err(str_field(fs, ConfigField::Remote)->Err_0)
            } else if str_field(fs, ConfigField::NameEncoded) is Err {
                Err(str_field(fs, ConfigField::NameEncoded)->Err_0)
            } else if str_field(fs, ConfigField::RemotePath) is Err {
                Err(str_field(fs, ConfigField::RemotePath)->Err_0)
            } else if str_field(fs, ConfigField::LocalPath) is Err {
                Err(str_field(fs, ConfigField::LocalPath)->Err_0)
            } else if str_field(fs, ConfigField::RemoteUsername) is Err {
                Err(str_field(fs, ConfigField::RemoteUsername)->Err_0)
            } else if str_field(fs, ConfigField::RemotePassword) is Err {
                Err(str_field(fs, ConfigField::RemotePassword)->Err_0)
            } else if bool_field(fs, ConfigField::AdvancedBackups) is Err {
                Err(bool_field(fs, ConfigField::AdvancedBackups)->Err_0)
            } else {
                Ok(SyncLocationView {
                    remote: str_field(fs, ConfigField::Remote)->Ok_0,
                    name: str_field(fs, ConfigField::Name)->Ok_0,
                    name_encoded: str_field(fs, ConfigField::NameEncoded)->Ok_0,
                    remote_path: str_field(fs, ConfigField::RemotePath)->Ok_0,
                    local_path: str_field(fs, ConfigField::LocalPath)->Ok_0,
                    remote_username: str_field(fs, ConfigField::RemoteUsername)->Ok_0,
                    remote_password: str_field(fs, ConfigField::RemotePassword)->Ok_0,
                    advanced_backups: bool_field(fs, ConfigField::AdvancedBackups)->Ok_0,
                })
            }
        },
    }
}

fn find_field<'a>(fields: &'a Vec<(String, JsonField)>, f: ConfigField) -> (r: Option<&'a JsonField>)
    ensures
        match r {
            Some(v) => lookup(fields_view(fields@), key_of(f)) == Some(v@),
            None => lookup(fields_view(fields@), key_of(f)) is None,
        },
{
    let key = field_key(f);
    let ghost fv = fields_view(fields@);
    let mut i: usize = 0;
    assert(fv.subrange(0, fv.len() as int) =~= fv);
    while i < fields.len()
        invariant
            i <= fields@.len(),
            fv == fields_view(fields@),
            key@ == key_of(f),
            lookup(fv, key_of(f)) == lookup(fv.subrange(i as int, fv.len() as int), key_of(f)),
        decreases fields@.len() - i,
    {
        let ghost rest = fv.subrange(i as int, fv.len() as int);
        assert(rest[0] == fv[i as int]);
        assert(rest.subrange(1, rest.len() as int) =~= fv.subrange(i as int + 1, fv.len() as int));
        if fields[i].0 == key {
            return Some(&fields[i].1);
        }
        i = i + 1;
    }
    None
}

fn string_field(fields: &Vec<(String, JsonField)>, f: ConfigField) -> (r: Result<String, ConfigIssue>)
    ensures
        match r {
            Ok(s) => str_field(fields_view(fields@), f) == Ok::<Seq<char>, ConfigIssue>(s@),
            Err(e) => str_field(fields_view(fields@), f) == Err::<Seq<char>, ConfigIssue>(e),
        },
{
    match find_field(fields, f) {
        None => Err(ConfigIssue::Missing(f)),
        Some(JsonField::Str(s)) => Ok(s.clone()),
        Some(_) => Err(ConfigIssue::WrongType(f)),
    }
}

fn boolean_field(fields: &Vec<(String, JsonField)>, f: ConfigField) -> (r: Result<bool, ConfigIssue>)
    ensures
        r == bool_field(fields_view(fields@), f),
{
    match find_field(fields, f) {
        None => Err(ConfigIssue::Missing(f)),
        Some(JsonField::Bool(b)) => Ok(*b),
        Some(_) => Err(ConfigIssue::WrongType(f)),
    }
}

/// The location that a configuration entry describes, or why it is skipped.
pub fn location_from_item(item: &ConfigItem) -> (r: Result<SyncLocation, ConfigIssue>)
    ensures
        match r {
            Ok(l) => location_spec(item@) == Ok::<SyncLocationView, ConfigIssue>(l@),
            Err(e) => location_spec(item@) == Err::<SyncLocationView, ConfigIssue>(e),
        },
{
    let fs = match item {
        ConfigItem::NotObject => return Err(ConfigIssue::NotObject),
        ConfigItem::Object(fs) => fs,
    };
    let name = match string_field(fs, ConfigField::Name) {
        Ok(v) => v,
        Err(e) => return Err(e),
    };
    let remote = match string_field(fs, ConfigField::Remote) {
        Ok(v) => v,
        Err(e) => return Err(e),
    };
    let name_encoded = match string_field(fs, ConfigField::NameEncoded) {
        Ok(v) => v,
        Err(e) => return Err(e),
    };
    let remote_path = match string_field(fs, ConfigField::RemotePath) {
        Ok(v) => v,
        Err(e) => return Err(e),
    };
    let local_path = match string_field(fs, ConfigField::LocalPath) {
        Ok(v) => v,
        Err(e) => return Err(e),
    };
    let remote_username = match string_field(fs, ConfigField::RemoteUsername) {
        Ok(v) => v,
        Err(e) => return Err(e),
    };
    let remote_password = match string_field(fs, ConfigField::RemotePassword) {
        Ok(v) => v,
        Err(e) => return Err(e),
    };
    let advanced_backups = match boolean_field(fs, ConfigField::AdvancedBackups) {
        Ok(v) => v,
        Err(e) => return Err(e),
    };
    Ok(SyncLocation {
        remote,
        name,
        name_encoded,
        remote_path,
        local_path,
        remote_username,
        remote_password,
        advanced_backups,
    })
}

/// The locations of the well-formed entries, in order.
pub open spec fn accepted_locations(items: Seq<ConfigItemView>) -> Seq<SyncLocationView>
    decreases items.len(),
{
    if items.len() == 0 {
        Seq::empty()
    } else {
        let prev = accepted_locations(items.drop_last());
        match location_spec(items.last()) {
            Ok(l) => prev.push(l),
            Err(_) => prev,
        }
    }
}

/// The problems of the skipped entries, in order.
pub open spec fn rejected_items(items: Seq<ConfigItemView>) -> Seq<ConfigIssue>
    decreases items.len(),
{
    if items.len() == 0 {
        Seq::empty()
    } else {
        let prev = rejected_items(items.drop_last());
        match location_spec(items.last()) {
            Ok(_) => prev,
            Err(e) => prev.push(e),
        }
    }
}

pub open spec fn locations_view(s: Seq<SyncLocation>) -> Seq<SyncLocationView> {
    s.map_values(|l: SyncLocation| l@)
}

/// What a readable configuration holds: the locations, and the problems of
/// the entries that were skipped.
pub struct ConfigContents {
    pub locations: Vec<SyncLocation>,
    pub issues: Vec<ConfigIssue>,
}

/// The locations a parsed configuration describes.
pub fn locations_from_document(doc: &ConfigDocument) -> (r: Result<ConfigContents, ConfigError>)
    ensures
        match doc@ {
            ConfigDocumentView::Invalid => r == Err::<ConfigContents, ConfigError>(ConfigError::NotJson),
            ConfigDocumentView::NotArray => r == Err::<ConfigContents, ConfigError>(ConfigError::NotArray),
            ConfigDocumentView::Items(items) => r is Ok && locations_view(r->Ok_0.locations@)
                == accepted_locations(items) && r->Ok_0.issues@ == rejected_items(items),
        },
{
    let items = match doc {
        ConfigDocument::Invalid => return Err(ConfigError::NotJson),
        ConfigDocument::NotArray => return Err(ConfigError::NotArray),
        ConfigDocument::Items(items) => items,
    };
    let ghost iv = items_view(items@);
    let mut locations: Vec<SyncLocation> = Vec::new();
    let mut issues: Vec<ConfigIssue> = Vec::new();
    let mut i: usize = 0;
    while i < items.len()
        invariant
            i <= items@.len(),
            iv == items_view(items@),
            locations_view(locations@) == accepted_locations(iv.subrange(0, i as int)),
            issues@ == rejected_items(iv.subrange(0, i as int)),
        decreases items@.len() - i,
    {
        let ghost pre = iv.subrange(0, i as int + 1);
        assert(pre.drop_last() =~= iv.subrange(0, i as int));
        assert(pre.last() == items@[i as int]@);
        match location_from_item(&items[i]) {
            Ok(l) => {
                let ghost before = locations@;
                let ghost lv = l@;
                locations.push(l);
                assert(locations_view(locations@) =~= locations_view(before).push(lv));
            },
            Err(e) => issues.push(e),
        }
        i = i + 1;
    }
    assert(iv.subrange(0, items@.len() as int) =~= iv);
    Ok(ConfigContents { locations, issues })
}

/// Reads the configuration text: a JSON array with one object per location.
pub fn get_config(text: &str) -> (r: Result<ConfigContents, ConfigError>)
    ensures
        match config_document_of(text@) {
            ConfigDocumentView::Invalid => r == Err::<ConfigContents, ConfigError>(ConfigError::NotJson),
            ConfigDocumentView::NotArray => r == Err::<ConfigContents, ConfigError>(ConfigError::NotArray),
            ConfigDocumentView::Items(items) => r is Ok && locations_view(r->Ok_0.locations@)
                == accepted_locations(items) && r->Ok_0.issues@ == rejected_items(items),
        },
{
    let doc = parse_config_document(text);
    locations_from_document(&doc)
}

} // verus!
