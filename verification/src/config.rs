//! Daemon configuration: `~/.config/omarkey/omarkeyd.toml`.

use vstd::prelude::*;
use vstd::utf8::encode_utf8;

use crate::duration::Duration;
use crate::json::{member, values, Json, JsonValue};
use crate::paths::{
    file_stem, file_stem_of, is_absolute, is_absolute_path, join, joined_path, optional_path,
    optional_path_ref, shown, UnixPath,
};
use crate::reader::{read_toml, toml_document};
use crate::text::{
    after_prefix, borrowed, is_blank, join2, join3, join_texts, joined, optional_str,
    optional_string, same_text, strip_prefix, texts, trim, trimmed,
};

verus! {

// ---------------------------------------------------------------- settings

/// One configured KeePass database.
#[derive(Debug, Clone)]
pub struct VaultConfig {
    /// Short name used on the wire. Unique.
    pub name: String,
    /// Absolute path to the `.kdbx` file.
    pub path: UnixPath,
    /// Optional key file that pairs with the master password.
    pub keyfile: Option<UnixPath>,
}

/// What the settings of a database say.
pub struct VaultConfigModel {
    pub name: Seq<char>,
    pub path: Seq<u8>,
    pub keyfile: Option<Seq<u8>>,
}

impl View for VaultConfig {
    type V = VaultConfigModel;

    open spec fn view(&self) -> VaultConfigModel {
        VaultConfigModel {
            name: self.name@,
            path: self.path@,
            keyfile: optional_path(self.keyfile),
        }
    }
}

/// The settings of a list of databases.
pub open spec fn vault_models(vaults: Seq<VaultConfig>) -> Seq<VaultConfigModel> {
    vaults.map_values(|vault: VaultConfig| vault@)
}

/// The settings of the daemon.
#[derive(Debug, Clone)]
pub struct Config {
    /// Configured databases. Non-empty; `vaults[0]` is the active one.
    pub vaults: Vec<VaultConfig>,
    /// Lock the vault after this long with no requests. `None` disables it.
    pub idle_lock: Option<Duration>,
    /// How long a copied secret stays on the clipboard before it is wiped.
    pub clipboard_clear: Duration,
    /// Permit `unlock` with a password sent over the socket.
    pub allow_inline_unlock: bool,
    /// `pinentry` program to run. None, or an empty one, means `pinentry` on the
    /// search path.
    pub pinentry_program: Option<String>,
    /// Override the socket path. Defaults to `$XDG_RUNTIME_DIR/omarkey.sock`.
    pub socket_path: Option<UnixPath>,
}

/// What the settings of the daemon say; spans are in milliseconds.
pub struct ConfigModel {
    pub vaults: Seq<VaultConfigModel>,
    pub idle_lock: Option<nat>,
    pub clipboard_clear: nat,
    pub allow_inline_unlock: bool,
    pub pinentry_program: Option<Seq<char>>,
    pub socket_path: Option<Seq<u8>>,
}

impl View for Config {
    type V = ConfigModel;

    open spec fn view(&self) -> ConfigModel {
        ConfigModel {
            vaults: vault_models(self.vaults@),
            idle_lock: match self.idle_lock {
                Some(limit) => Some(limit@),
                None => None,
            },
            clipboard_clear: self.clipboard_clear@,
            allow_inline_unlock: self.allow_inline_unlock,
            pinentry_program: optional_string(self.pinentry_program),
            socket_path: optional_path(self.socket_path),
        }
    }
}

/// The names of a list of databases.
pub open spec fn vault_names(vaults: Seq<VaultConfigModel>) -> Seq<Seq<char>> {
    vaults.map_values(|vault: VaultConfigModel| vault.name)
}

impl ConfigModel {
    /// There is a database, each has an absolute path, and no two have one name.
    pub open spec fn valid(self) -> bool {
        &&& self.vaults.len() > 0
        &&& vault_names(self.vaults).no_duplicates()
        &&& forall|i: int|
            0 <= i < self.vaults.len() ==> is_absolute_path((#[trigger] self.vaults[i]).path)
    }
}

// ---------------------------------------------------------------- errors

/// Why a configuration text cannot be used.
#[derive(Debug)]
pub enum ConfigError {
    /// The text is not TOML.
    Syntax(String),
    /// A setting has the wrong type, or a `[[vault]]` table the wrong keys; what the
    /// parser says of it.
    Shape(String),
    NoVault,
    SameName(String),
    RelativePath(String),
}

/// What a configuration error says.
pub enum ConfigErrorModel {
    Syntax(Seq<char>),
    Shape(Seq<char>),
    NoVault,
    SameName(Seq<char>),
    RelativePath(Seq<char>),
}

impl View for ConfigError {
    type V = ConfigErrorModel;

    open spec fn view(&self) -> ConfigErrorModel {
        match self {
            ConfigError::Syntax(why) => ConfigErrorModel::Syntax(why@),
            ConfigError::Shape(why) => ConfigErrorModel::Shape(why@),
            ConfigError::NoVault => ConfigErrorModel::NoVault,
            ConfigError::SameName(name) => ConfigErrorModel::SameName(name@),
            ConfigError::RelativePath(path) => ConfigErrorModel::RelativePath(path@),
        }
    }
}

impl ConfigErrorModel {
    /// The error in words.
    pub open spec fn message(self) -> Seq<char> {
        match self {
            ConfigErrorModel::Syntax(why) => why,
            ConfigErrorModel::Shape(why) => why,
            ConfigErrorModel::NoVault =>
                "no vault configured. Add `vault = \"/path/to.kdbx\"` or one or more [[vault]] tables"@,
            ConfigErrorModel::SameName(name) => "two vaults are both named `"@ + name + "`"@,
            ConfigErrorModel::RelativePath(path) => "vault path `"@ + path
                + "` must be absolute (or start with ~/)"@,
        }
    }
}

impl ConfigError {
    /// The error in words.
    pub fn to_string(&self) -> (message: String)
        ensures
            message@ == self@.message(),
    {
        match self {
            ConfigError::Syntax(why) => why.clone(),
            ConfigError::Shape(why) => why.clone(),
            ConfigError::NoVault =>
                "no vault configured. Add `vault = \"/path/to.kdbx\"` or one or more [[vault]] tables".to_owned(),
            ConfigError::SameName(name) => join3("two vaults are both named `", name.as_str(), "`"),
            ConfigError::RelativePath(path) => join3(
                "vault path `",
                path.as_str(),
                "` must be absolute (or start with ~/)",
            ),
        }
    }
}

/// What the outcome of reading settings says.
pub open spec fn settings<T: View>(result: Result<T, ConfigError>) -> Result<
    T::V,
    ConfigErrorModel,
> {
    match result {
        Ok(value) => Ok(value@),
        Err(err) => Err(err@),
    }
}

// ---------------------------------------------------------------- paths

/// The path that a text means: a leading `~/` is taken from the home directory, if
/// there is one.
pub open spec fn expanded(input: Seq<char>, home: Option<Seq<u8>>) -> Seq<u8> {
    match (after_prefix(input, "~/"@), home) {
        (Some(rest), Some(home)) => joined_path(home, encode_utf8(rest)),
        _ => encode_utf8(input),
    }
}

/// Takes a leading `~/` of `input` from the home directory, if there is one.
pub fn expand_tilde(input: &str, home: Option<&UnixPath>) -> (path: UnixPath)
    ensures
        path@ == expanded(input@, optional_path_ref(home)),
{
    match strip_prefix(input, "~/") {
        Some(rest) => match home {
            Some(home) => join(home, &UnixPath::from_text(rest.as_str())),
            None => UnixPath::from_text(input),
        },
        None => UnixPath::from_text(input),
    }
}

/// The name of a database: the one it was given, without the white space round
/// it, or else the stem of its file name, or else `vault`.
pub open spec fn chosen_name(name: Option<Seq<char>>, path: Seq<u8>) -> Seq<char> {
    match name {
        Some(name) if trimmed(name).len() > 0 => trimmed(name),
        _ => match file_stem_of(path) {
            Some(stem) if shown(stem).len() > 0 => shown(stem),
            _ => "vault"@,
        },
    }
}

/// The settings of a database from what was written of it.
pub open spec fn built_vault(
    name: Option<Seq<char>>,
    path: Seq<char>,
    keyfile: Option<Seq<char>>,
    home: Option<Seq<u8>>,
) -> Result<VaultConfigModel, ConfigErrorModel> {
    let path = expanded(path, home);
    if is_absolute_path(path) {
        Ok(
            VaultConfigModel {
                name: chosen_name(name, path),
                path,
                keyfile: match keyfile {
                    Some(keyfile) => Some(expanded(keyfile, home)),
                    None => None,
                },
            },
        )
    } else {
        Err(ConfigErrorModel::RelativePath(shown(path)))
    }
}

/// The settings of a database from what was written of it.
pub fn build_vault(
    name: Option<&str>,
    path: &str,
    keyfile: Option<&str>,
    home: Option<&UnixPath>,
) -> (vault: Result<VaultConfig, ConfigError>)
    ensures
        settings(vault) == built_vault(
            optional_str(name),
            path@,
            optional_str(keyfile),
            optional_path_ref(home),
        ),
{
    let path: UnixPath = expand_tilde(path, home);
    if !is_absolute(&path) {
        return Err(ConfigError::RelativePath(path.display()));
    }
    let given: Option<String> = match name {
        Some(name) => if is_blank(name) {
            None
        } else {
            Some(trim(name))
        },
        None => None,
    };
    let name: String = match given {
        Some(name) => name,
        None => match file_stem(&path) {
            Some(stem) => {
                let stem: String = stem.display();
                if stem.as_str().is_empty() {
                    "vault".to_owned()
                } else {
                    stem
                }
            },
            None => "vault".to_owned(),
        },
    };
    let keyfile: Option<UnixPath> = match keyfile {
        Some(keyfile) => Some(expand_tilde(keyfile, home)),
        None => None,
    };
    Ok(VaultConfig { name, path, keyfile })
}

// ---------------------------------------------------------------- what the file says

/// One database as it is written in the file.
struct RawVault {
    name: Option<String>,
    path: String,
    keyfile: Option<String>,
}

/// One database as it is written in the file.
pub struct RawVaultModel {
    pub name: Option<Seq<char>>,
    pub path: Seq<char>,
    pub keyfile: Option<Seq<char>>,
}

impl View for RawVault {
    type V = RawVaultModel;

    closed spec fn view(&self) -> RawVaultModel {
        RawVaultModel {
            name: optional_string(self.name),
            path: self.path@,
            keyfile: optional_string(self.keyfile),
        }
    }
}

/// Options that stand beside the databases.
struct RawCommon {
    idle_lock_seconds: Option<u64>,
    clipboard_clear_seconds: Option<u64>,
    allow_inline_unlock: Option<bool>,
    pinentry_program: Option<String>,
    socket_path: Option<String>,
}

/// Options that stand beside the databases.
pub struct RawCommonModel {
    pub idle_lock_seconds: Option<u64>,
    pub clipboard_clear_seconds: Option<u64>,
    pub allow_inline_unlock: Option<bool>,
    pub pinentry_program: Option<Seq<char>>,
    pub socket_path: Option<Seq<char>>,
}

impl View for RawCommon {
    type V = RawCommonModel;

    closed spec fn view(&self) -> RawCommonModel {
        RawCommonModel {
            idle_lock_seconds: self.idle_lock_seconds,
            clipboard_clear_seconds: self.clipboard_clear_seconds,
            allow_inline_unlock: self.allow_inline_unlock,
            pinentry_program: optional_string(self.pinentry_program),
            socket_path: optional_string(self.socket_path),
        }
    }
}

/// The text under a key that may be missing; nothing if something else is there.
pub open spec fn text_at(tree: JsonValue, key: Seq<char>) -> Option<Option<Seq<char>>> {
    match member(tree, key) {
        None => Some(None),
        Some(JsonValue::Text(text)) => Some(Some(text)),
        Some(_) => None,
    }
}

/// The number under a key that may be missing; nothing if something else is
/// there. A number of seconds is not negative.
pub open spec fn number_at(tree: JsonValue, key: Seq<char>) -> Option<Option<u64>> {
    match member(tree, key) {
        None => Some(None),
        Some(JsonValue::Uint(n)) => Some(Some(n)),
        Some(_) => None,
    }
}

/// The truth under a key that may be missing; nothing if something else is there.
pub open spec fn truth_at(tree: JsonValue, key: Seq<char>) -> Option<Option<bool>> {
    match member(tree, key) {
        None => Some(None),
        Some(JsonValue::Bool(truth)) => Some(Some(truth)),
        Some(_) => None,
    }
}

/// The options that a document sets. Keys that are not known are passed over.
pub open spec fn common_of(tree: JsonValue) -> Option<RawCommonModel> {
    match (
        number_at(tree, "idle_lock_seconds"@),
        number_at(tree, "clipboard_clear_seconds"@),
        truth_at(tree, "allow_inline_unlock"@),
        text_at(tree, "pinentry_program"@),
        text_at(tree, "socket_path"@),
    ) {
        (
            Some(idle_lock_seconds),
            Some(clipboard_clear_seconds),
            Some(allow_inline_unlock),
            Some(pinentry_program),
            Some(socket_path),
        ) => Some(
            RawCommonModel {
                idle_lock_seconds,
                clipboard_clear_seconds,
                allow_inline_unlock,
                pinentry_program,
                socket_path,
            },
        ),
        _ => None,
    }
}

/// A key that a `[[vault]]` table may have.
pub open spec fn is_vault_key(key: Seq<char>) -> bool {
    key == "name"@ || key == "path"@ || key == "keyfile"@
}

/// The database that an item of the `vault` array describes: a table with a path
/// and no other keys than a database has, or a list that starts with the name,
/// the path and the key file.
pub open spec fn vault_of(tree: JsonValue) -> Option<RawVaultModel> {
    match tree {
        JsonValue::Object(table) => if forall|key: Seq<char>| #[trigger]
            table.contains_key(key) ==> is_vault_key(key) {
            match (text_at(tree, "name"@), text_at(tree, "path"@), text_at(tree, "keyfile"@)) {
                (Some(name), Some(Some(path)), Some(keyfile)) => Some(
                    RawVaultModel { name, path, keyfile },
                ),
                _ => None,
            }
        } else {
            None
        },
        JsonValue::Array(items) => if items.len() >= 3 {
            match (items[0], items[1], items[2]) {
                (JsonValue::Text(name), JsonValue::Text(path), JsonValue::Text(keyfile)) => Some(
                    RawVaultModel { name: Some(name), path, keyfile: Some(keyfile) },
                ),
                _ => None,
            }
        } else {
            None
        },
        _ => None,
    }
}

/// The databases that the items of an array describe, if each describes one.
pub open spec fn vaults_of(items: Seq<JsonValue>) -> Option<Seq<RawVaultModel>>
    decreases items.len(),
{
    if items.len() == 0 {
        Some(Seq::empty())
    } else {
        match (vaults_of(items.drop_last()), vault_of(items.last())) {
            (Some(before), Some(vault)) => Some(before.push(vault)),
            _ => None,
        }
    }
}

/// The databases that a document names: those of its `[[vault]]` tables, or the
/// one whose path is the text `vault`.
pub open spec fn written_vaults(tree: JsonValue) -> Option<Seq<RawVaultModel>> {
    match member(tree, "vault"@) {
        None => Some(Seq::empty()),
        Some(JsonValue::Array(items)) => vaults_of(items),
        Some(JsonValue::Text(path)) => match text_at(tree, "keyfile"@) {
            Some(keyfile) => Some(seq![RawVaultModel { name: None, path, keyfile }]),
            None => None,
        },
        Some(_) => None,
    }
}

/// Reads the text under a key.
fn read_text(document: &Json, key: &str) -> (text: Option<Option<String>>)
    ensures
        match text {
            Some(text) => text_at(document@, key@) == Some(optional_string(text)),
            None => text_at(document@, key@) is None,
        },
{
    match document.get(key) {
        Some(value) => match value.as_text() {
            Some(text) => Some(Some(text.to_owned())),
            None => None,
        },
        None => Some(None),
    }
}

/// Reads the number under a key.
fn read_number(document: &Json, key: &str) -> (n: Option<Option<u64>>)
    ensures
        n == number_at(document@, key@),
{
    match document.get(key) {
        Some(value) => match value.as_uint() {
            Some(n) => Some(Some(n)),
            None => None,
        },
        None => Some(None),
    }
}

/// Reads the truth under a key.
fn read_truth(document: &Json, key: &str) -> (truth: Option<Option<bool>>)
    ensures
        truth == truth_at(document@, key@),
{
    match document.get(key) {
        Some(value) => match value.as_truth() {
            Some(truth) => Some(Some(truth)),
            None => None,
        },
        None => Some(None),
    }
}

/// Reads the options that a document sets.
fn read_common(document: &Json) -> (common: Option<RawCommon>)
    ensures
        match common {
            Some(common) => common_of(document@) == Some(common@),
            None => common_of(document@) is None,
        },
{
    let idle_lock_seconds: Option<u64> = match read_number(document, "idle_lock_seconds") {
        Some(n) => n,
        None => return None,
    };
    let clipboard_clear_seconds: Option<u64> = match read_number(
        document,
        "clipboard_clear_seconds",
    ) {
        Some(n) => n,
        None => return None,
    };
    let allow_inline_unlock: Option<bool> = match read_truth(document, "allow_inline_unlock") {
        Some(truth) => truth,
        None => return None,
    };
    let pinentry_program: Option<String> = match read_text(document, "pinentry_program") {
        Some(text) => text,
        None => return None,
    };
    let socket_path: Option<String> = match read_text(document, "socket_path") {
        Some(text) => text,
        None => return None,
    };
    Some(
        RawCommon {
            idle_lock_seconds,
            clipboard_clear_seconds,
            allow_inline_unlock,
            pinentry_program,
            socket_path,
        },
    )
}

/// Whether a table with these keys has no other keys than a database has.
fn are_vault_keys(keys: &Vec<String>) -> (all: bool)
    ensures
        all == (forall|key: Seq<char>| #[trigger]
            texts(keys@).contains(key) ==> is_vault_key(key)),
{
    let mut i: usize = 0;
    while i < keys.len()
        invariant
            i <= keys.len(),
            forall|k: int| 0 <= k < i ==> is_vault_key((#[trigger] keys@[k])@),
        decreases keys.len() - i,
    {
        let key: &str = keys[i].as_str();
        if !same_text(key, "name") && !same_text(key, "path") && !same_text(key, "keyfile") {
            assert(texts(keys@)[i as int] == key@);
            assert(texts(keys@).contains(key@));
            return false;
        }
        i = i + 1;
    }
    assert forall|key: Seq<char>| #[trigger] texts(keys@).contains(key) implies is_vault_key(
        key,
    ) by {
        let k = choose|k: int| 0 <= k < texts(keys@).len() && texts(keys@)[k] == key;
        assert(keys@[k]@ == key);
    }
    true
}

/// Reads the database that an item of the `vault` array describes.
fn read_vault(value: &Json) -> (vault: Option<RawVault>)
    ensures
        match vault {
            Some(vault) => vault_of(value@) == Some(vault@),
            None => vault_of(value@) is None,
        },
{
    if let Some(keys) = value.names() {
        if !are_vault_keys(&keys) {
            proof {
                let table = value@->Object_0;
                let key = choose|key: Seq<char>| #[trigger]
                    texts(keys@).contains(key) && !is_vault_key(key);
                assert(table.contains_key(key));
            }
            return None;
        }
        let name: Option<String> = match read_text(value, "name") {
            Some(name) => name,
            None => return None,
        };
        let path: String = match read_text(value, "path") {
            Some(Some(path)) => path,
            _ => return None,
        };
        return match read_text(value, "keyfile") {
            Some(keyfile) => Some(RawVault { name, path, keyfile }),
            None => None,
        };
    }
    match value.as_array() {
        Some(items) => {
            if items.len() < 3 {
                return None;
            }
            match (items[0].as_text(), items[1].as_text(), items[2].as_text()) {
                (Some(name), Some(path), Some(keyfile)) => Some(
                    RawVault {
                        name: Some(name.to_owned()),
                        path: path.to_owned(),
                        keyfile: Some(keyfile.to_owned()),
                    },
                ),
                _ => None,
            }
        },
        None => None,
    }
}

/// The databases of a list, as they are written.
spec fn raw_models(vaults: Seq<RawVault>) -> Seq<RawVaultModel> {
    vaults.map_values(|vault: RawVault| vault@)
}

/// One item that describes no database spoils the array.
proof fn lemma_all_describe(items: Seq<JsonValue>, count: int)
    requires
        0 <= count <= items.len(),
        vaults_of(items.take(count)) is None,
    ensures
        vaults_of(items) is None,
    decreases items.len() - count,
{
    if count < items.len() {
        assert(items.take(count + 1).drop_last() =~= items.take(count));
        lemma_all_describe(items, count + 1);
    } else {
        assert(items.take(count) =~= items);
    }
}

/// Reads the databases that the items of an array describe.
fn read_vaults(items: &Vec<Json>) -> (vaults: Option<Vec<RawVault>>)
    ensures
        match vaults {
            Some(vaults) => vaults_of(values(items@)) == Some(raw_models(vaults@)),
            None => vaults_of(values(items@)) is None,
        },
{
    let ghost trees = values(items@);
    let mut vaults: Vec<RawVault> = Vec::new();
    let mut i: usize = 0;
    assert(trees.take(0) =~= Seq::<JsonValue>::empty());
    assert(raw_models(vaults@) =~= Seq::<RawVaultModel>::empty());
    while i < items.len()
        invariant
            i <= items.len(),
            trees == values(items@),
            vaults_of(trees.take(i as int)) == Some(raw_models(vaults@)),
        decreases items.len() - i,
    {
        assert(trees.take(i + 1).drop_last() =~= trees.take(i as int));
        assert(trees.take(i + 1).last() == items@[i as int]@);
        match read_vault(&items[i]) {
            Some(vault) => {
                let ghost before = raw_models(vaults@);
                let ghost model = vault@;
                vaults.push(vault);
                assert(raw_models(vaults@) =~= before.push(model));
            },
            None => {
                proof {
                    lemma_all_describe(trees, i + 1);
                }
                return None;
            },
        }
        i = i + 1;
    }
    assert(trees.take(i as int) =~= trees);
    Some(vaults)
}

/// Reads the databases that a document names.
fn read_written_vaults(document: &Json) -> (vaults: Option<Vec<RawVault>>)
    ensures
        match vaults {
            Some(vaults) => written_vaults(document@) == Some(raw_models(vaults@)),
            None => written_vaults(document@) is None,
        },
{
    let value: &Json = match document.get("vault") {
        Some(value) => value,
        None => {
            let none: Vec<RawVault> = Vec::new();
            assert(raw_models(none@) =~= Seq::<RawVaultModel>::empty());
            return Some(none);
        },
    };
    if let Some(items) = value.as_array() {
        return read_vaults(items);
    }
    match value.as_text() {
        Some(path) => match read_text(document, "keyfile") {
            Some(keyfile) => {
                let mut one: Vec<RawVault> = Vec::new();
                let vault = RawVault { name: None, path: path.to_owned(), keyfile };
                let ghost model = vault@;
                one.push(vault);
                assert(raw_models(one@) =~= seq![model]);
                Some(one)
            },
            None => None,
        },
        None => None,
    }
}

// ---------------------------------------------------------------- from the file to the settings

/// The settings of the databases that were written, or the error of the first
/// that has none.
pub open spec fn built_vaults(
    written: Seq<RawVaultModel>,
    home: Option<Seq<u8>>,
) -> Result<Seq<VaultConfigModel>, ConfigErrorModel>
    decreases written.len(),
{
    if written.len() == 0 {
        Ok(Seq::empty())
    } else {
        match built_vaults(written.drop_last(), home) {
            Ok(before) => {
                let last = written.last();
                match built_vault(last.name, last.path, last.keyfile, home) {
                    Ok(vault) => Ok(before.push(vault)),
                    Err(err) => Err(err),
                }
            },
            Err(err) => Err(err),
        }
    }
}

/// The first name that comes again behind itself.
pub open spec fn repeated_name(names: Seq<Seq<char>>) -> Option<Seq<char>>
    decreases names.len(),
{
    if names.len() == 0 {
        None
    } else if names.skip(1).contains(names[0]) {
        Some(names[0])
    } else {
        repeated_name(names.skip(1))
    }
}

/// The settings that a document stands for, for a user whose home directory is
/// `home`. If they have the wrong shape, `complaint` is what is said of it.
pub open spec fn config_of(
    document: JsonValue,
    complaint: Seq<char>,
    home: Option<Seq<u8>>,
) -> Result<ConfigModel, ConfigErrorModel> {
    match (written_vaults(document), common_of(document)) {
        (Some(written), Some(common)) => match built_vaults(written, home) {
            Ok(vaults) => if vaults.len() == 0 {
                Err(ConfigErrorModel::NoVault)
            } else {
                match repeated_name(vault_names(vaults)) {
                    Some(name) => Err(ConfigErrorModel::SameName(name)),
                    None => Ok(
                        ConfigModel {
                            vaults,
                            idle_lock: match common.idle_lock_seconds {
                                Some(secs) => if secs == 0 {
                                    None
                                } else {
                                    Some((secs * 1000) as nat)
                                },
                                None => Some(300_000),
                            },
                            clipboard_clear: match common.clipboard_clear_seconds {
                                Some(secs) => (secs * 1000) as nat,
                                None => 20_000,
                            },
                            allow_inline_unlock: common.allow_inline_unlock == Some(true),
                            pinentry_program: common.pinentry_program,
                            socket_path: match common.socket_path {
                                Some(path) => Some(expanded(path, home)),
                                None => None,
                            },
                        },
                    ),
                }
            },
            Err(err) => Err(err),
        },
        _ => Err(ConfigErrorModel::Shape(complaint)),
    }
}

/// What is said of settings with the wrong shape by one who cannot tell the place.
pub open spec fn plain_complaint() -> Seq<char> {
    "a setting has the wrong type, or a [[vault]] table the wrong keys"@
}

/// The settings that a configuration text stands for, for a user whose home
/// directory is `home`. If they have the wrong shape, `complaint` is what is said
/// of it.
pub open spec fn config_in_text(
    text: Seq<char>,
    complaint: Seq<char>,
    home: Option<Seq<u8>>,
) -> Result<ConfigModel, ConfigErrorModel> {
    match toml_document(text) {
        Ok(document) => config_of(document, complaint, home),
        Err(why) => Err(ConfigErrorModel::Syntax(why)),
    }
}

/// An error among the first databases is the error of the list.
proof fn lemma_first_failure_counts(
    written: Seq<RawVaultModel>,
    home: Option<Seq<u8>>,
    count: int,
)
    requires
        0 <= count <= written.len(),
        built_vaults(written.take(count), home) is Err,
    ensures
        built_vaults(written, home) == built_vaults(written.take(count), home),
    decreases written.len() - count,
{
    if count < written.len() {
        assert(written.take(count + 1).drop_last() =~= written.take(count));
        lemma_first_failure_counts(written, home, count + 1);
    } else {
        assert(written.take(count) =~= written);
    }
}

/// The settings of the databases that were written.
fn build_vaults(written: &Vec<RawVault>, home: Option<&UnixPath>) -> (vaults: Result<
    Vec<VaultConfig>,
    ConfigError,
>)
    ensures
        match vaults {
            Ok(vaults) => built_vaults(raw_models(written@), optional_path_ref(home)) == Ok::<
                Seq<VaultConfigModel>,
                ConfigErrorModel,
            >(vault_models(vaults@)),
            Err(err) => built_vaults(raw_models(written@), optional_path_ref(home)) == Err::<
                Seq<VaultConfigModel>,
                ConfigErrorModel,
            >(err@),
        },
{
    let ghost raws = raw_models(written@);
    let mut vaults: Vec<VaultConfig> = Vec::new();
    let mut i: usize = 0;
    assert(raws.take(0) =~= Seq::<RawVaultModel>::empty());
    assert(vault_models(vaults@) =~= Seq::<VaultConfigModel>::empty());
    while i < written.len()
        invariant
            i <= written.len(),
            raws == raw_models(written@),
            built_vaults(raws.take(i as int), optional_path_ref(home)) == Ok::<
                Seq<VaultConfigModel>,
                ConfigErrorModel,
            >(vault_models(vaults@)),
        decreases written.len() - i,
    {
        assert(raws.take(i + 1).drop_last() =~= raws.take(i as int));
        assert(raws.take(i + 1).last() == written@[i as int]@);
        let raw: &RawVault = &written[i];
        match build_vault(borrowed(&raw.name), raw.path.as_str(), borrowed(&raw.keyfile), home) {
            Ok(vault) => {
                let ghost before = vault_models(vaults@);
                let ghost model = vault@;
                vaults.push(vault);
                assert(vault_models(vaults@) =~= before.push(model));
            },
            Err(err) => {
                proof {
                    lemma_first_failure_counts(raws, optional_path_ref(home), i + 1);
                }
                return Err(err);
            },
        }
        i = i + 1;
    }
    assert(raws.take(i as int) =~= raws);
    Ok(vaults)
}

/// Whether the name of a database comes again behind it.
fn comes_again(vaults: &Vec<VaultConfig>, i: usize) -> (again: bool)
    requires
        i < vaults.len(),
    ensures
        again == vault_names(vault_models(vaults@)).skip(i + 1).contains(vaults@[i as int]@.name),
{
    let ghost names = vault_names(vault_models(vaults@));
    let ghost behind = names.skip(i + 1);
    let mut j: usize = i + 1;
    while j < vaults.len()
        invariant
            i < j <= vaults.len(),
            names == vault_names(vault_models(vaults@)),
            behind == names.skip(i + 1),
            forall|k: int| i < k < j ==> (#[trigger] vaults@[k])@.name != vaults@[i as int]@.name,
        decreases vaults.len() - j,
    {
        if same_text(vaults[j].name.as_str(), vaults[i].name.as_str()) {
            assert(behind[j - i - 1] == vaults@[i as int]@.name);
            return true;
        }
        j = j + 1;
    }
    assert forall|k: int| 0 <= k < behind.len() implies #[trigger] behind[k]
        != vaults@[i as int]@.name by {
        assert(behind[k] == vaults@[i + 1 + k]@.name);
    }
    false
}

/// The first name that comes again behind itself.
fn find_repeated_name(vaults: &Vec<VaultConfig>) -> (name: Option<String>)
    ensures
        optional_string(name) == repeated_name(vault_names(vault_models(vaults@))),
{
    let ghost names = vault_names(vault_models(vaults@));
    let mut i: usize = 0;
    assert(names.skip(0) =~= names);
    while i < vaults.len()
        invariant
            i <= vaults.len(),
            names == vault_names(vault_models(vaults@)),
            repeated_name(names) == repeated_name(names.skip(i as int)),
        decreases vaults.len() - i,
    {
        assert(names.skip(i as int).skip(1) =~= names.skip(i + 1));
        assert(names.skip(i as int)[0] == vaults@[i as int]@.name);
        if comes_again(vaults, i) {
            return Some(vaults[i].name.clone());
        }
        i = i + 1;
    }
    None
}

/// The settings that a document stands for, for a user whose home directory is
/// `home`. If they have the wrong shape, `complaint` is what is said of it.
pub fn build_config(
    document: &Json,
    complaint: &str,
    home: Option<&UnixPath>,
) -> (config: Result<Config, ConfigError>)
    ensures
        settings(config) == config_of(document@, complaint@, optional_path_ref(home)),
{
    let written: Vec<RawVault> = match read_written_vaults(document) {
        Some(written) => written,
        None => return Err(ConfigError::Shape(complaint.to_owned())),
    };
    let common: RawCommon = match read_common(document) {
        Some(common) => common,
        None => return Err(ConfigError::Shape(complaint.to_owned())),
    };
    let vaults: Vec<VaultConfig> = match build_vaults(&written, home) {
        Ok(vaults) => vaults,
        Err(err) => return Err(err),
    };
    if vaults.len() == 0 {
        return Err(ConfigError::NoVault);
    }
    if let Some(name) = find_repeated_name(&vaults) {
        return Err(ConfigError::SameName(name));
    }
    let idle_lock: Option<Duration> = match common.idle_lock_seconds {
        Some(secs) => if secs == 0 {
            None
        } else {
            Some(Duration::from_secs(secs))
        },
        None => Some(Duration::from_secs(300)),
    };
    let clipboard_clear: Duration = match common.clipboard_clear_seconds {
        Some(secs) => Duration::from_secs(secs),
        None => Duration::from_secs(20),
    };
    let allow_inline_unlock: bool = match common.allow_inline_unlock {
        Some(allow) => allow,
        None => false,
    };
    let socket_path: Option<UnixPath> = match borrowed(&common.socket_path) {
        Some(path) => Some(expand_tilde(path, home)),
        None => None,
    };
    Ok(
        Config {
            vaults,
            idle_lock,
            clipboard_clear,
            allow_inline_unlock,
            pinentry_program: common.pinentry_program,
            socket_path,
        },
    )
}

/// `directories::BaseDirs::new` and `BaseDirs::home_dir`: the bytes of the home
/// directory of the user, if the system names one. It depends on the environment,
/// so nothing is claimed of it.
#[verifier::external_body]
fn home_dir() -> (home: Option<Vec<u8>>) {
    directories::BaseDirs::new().map(
        |dirs| dirs.home_dir().as_os_str().as_encoded_bytes().to_vec(),
    )
}

/// `directories::ProjectDirs::from` and `ProjectDirs::config_dir`: the bytes of the
/// path at which the configuration of this application is kept, if the system names
/// a home directory. It depends on the environment, so nothing is claimed of it but
/// that this application is asked for.
#[verifier::external_body]
fn config_dir(qualifier: &str, organization: &str, application: &str) -> (dir: Option<Vec<u8>>)
    requires
        qualifier@ == "com"@,
        organization@ == "xavidiaz"@,
        application@ == "omarkey"@,
{
    directories::ProjectDirs::from(qualifier, organization, application).map(
        |dirs| dirs.config_dir().as_os_str().as_encoded_bytes().to_vec(),
    )
}

/// The path of bytes that may be missing.
fn as_path(bytes: Option<Vec<u8>>) -> (path: Option<UnixPath>)
    ensures
        optional_path(path) == match bytes {
            Some(bytes) => Some(bytes@),
            None => None,
        },
{
    match bytes {
        Some(bytes) => Some(UnixPath::from_bytes(bytes)),
        None => None,
    }
}

/// The borrowed path of a path that may be missing.
fn lent(path: &Option<UnixPath>) -> (lent: Option<&UnixPath>)
    ensures
        optional_path_ref(lent) == optional_path(*path),
{
    match path {
        Some(path) => Some(path),
        None => None,
    }
}

/// The names under which the system keeps the files of this application: its
/// qualifier, its organization and its own name.
pub fn project() -> (names: (&'static str, &'static str, &'static str))
    ensures
        names.0@ == "com"@,
        names.1@ == "xavidiaz"@,
        names.2@ == "omarkey"@,
{
    ("com", "xavidiaz", "omarkey")
}

/// Where a name is first found in a list.
pub open spec fn first_position(names: Seq<Seq<char>>, name: Seq<char>) -> Option<nat>
    decreases names.len(),
{
    if names.len() == 0 {
        None
    } else {
        match first_position(names.drop_last(), name) {
            Some(i) => Some(i),
            None => if names.last() == name {
                Some((names.len() - 1) as nat)
            } else {
                None
            },
        }
    }
}

/// Why a name cannot be found.
pub open spec fn no_such_vault(names: Seq<Seq<char>>, name: Seq<char>) -> Seq<char> {
    "no vault named `"@ + name + "` (have: "@ + joined(names, ", "@) + ")"@
}

/// Where a name stands among the first names, it stands in the list.
proof fn lemma_position_stays(names: Seq<Seq<char>>, name: Seq<char>, count: int)
    requires
        0 <= count <= names.len(),
        first_position(names.take(count), name) is Some,
    ensures
        first_position(names, name) == first_position(names.take(count), name),
    decreases names.len() - count,
{
    if count < names.len() {
        assert(names.take(count + 1).drop_last() =~= names.take(count));
        lemma_position_stays(names, name, count + 1);
    } else {
        assert(names.take(count) =~= names);
    }
}

impl Config {
    /// Index of the vault named `name`, or an error listing the valid names.
    pub fn vault_index(&self, name: &str) -> (index: Result<usize, String>)
        ensures
            match first_position(vault_names(self@.vaults), name@) {
                Some(i) => index == Ok::<usize, String>(i as usize) && i < self.vaults.len(),
                None => index matches Err(message) && message@ == no_such_vault(
                    vault_names(self@.vaults),
                    name@,
                ),
            },
    {
        let ghost names = vault_names(self@.vaults);
        let mut i: usize = 0;
        assert(names.take(0) =~= Seq::<Seq<char>>::empty());
        let mut list: Vec<String> = Vec::new();
        while i < self.vaults.len()
            invariant
                i <= self.vaults.len(),
                names == vault_names(self@.vaults),
                list.len() == i,
                forall|k: int| 0 <= k < i ==> (#[trigger] list@[k])@ == names[k],
                first_position(names.take(i as int), name@) is None,
            decreases self.vaults.len() - i,
        {
            assert(names.take(i + 1).drop_last() =~= names.take(i as int));
            assert(names.take(i + 1).last() == self.vaults@[i as int]@.name);
            if same_text(self.vaults[i].name.as_str(), name) {
                proof {
                    lemma_position_stays(names, name@, i + 1);
                }
                return Ok(i);
            }
            list.push(self.vaults[i].name.clone());
            i = i + 1;
        }
        assert(names.take(i as int) =~= names);
        assert(texts(list@) =~= names);
        let have: String = join_texts(&list, ", ");
        let head: String = join3("no vault named `", name, "` (have: ");
        Err(join3(head.as_str(), have.as_str(), ")"))
    }

    /// The settings that `text` stands for, for a user whose home directory is
    /// `home`. If they have the wrong shape, `complaint` is what is said of it.
    pub fn from_toml_str_told(text: &str, complaint: &str, home: Option<&UnixPath>) -> (config:
        Result<Config, ConfigError>)
        ensures
            settings(config) == config_in_text(text@, complaint@, optional_path_ref(home)),
            config matches Ok(config) ==> config@.valid(),
    {
        match read_toml(text) {
            Ok(document) => {
                let config: Result<Config, ConfigError> = build_config(&document, complaint, home);
                proof {
                    law_settings_are_valid(document@, complaint@, optional_path_ref(home));
                }
                config
            },
            Err(why) => Err(ConfigError::Syntax(why)),
        }
    }

    /// The settings that `text` stands for, for a user whose home directory is
    /// `home`.
    pub fn from_toml_str_at_home(text: &str, home: Option<&UnixPath>) -> (config: Result<
        Config,
        ConfigError,
    >)
        ensures
            settings(config) == config_in_text(text@, plain_complaint(), optional_path_ref(home)),
            config matches Ok(config) ==> config@.valid(),
    {
        Config::from_toml_str_told(
            text,
            "a setting has the wrong type, or a [[vault]] table the wrong keys",
            home,
        )
    }

    /// The settings that `text` stands for. The home directory of the user, which
    /// a leading `~/` means, comes from the system.
    pub fn from_toml_str(text: &str) -> (config: Result<Config, ConfigError>)
        ensures
            exists|home: Option<Seq<u8>>| settings(config) == #[trigger] config_in_text(
                text@,
                plain_complaint(),
                home,
            ),
            config matches Ok(config) ==> config@.valid(),
    {
        let home: Option<UnixPath> = as_path(home_dir());
        Config::from_toml_str_at_home(text, lent(&home))
    }
}

// ---------------------------------------------------------------- the file

/// Why the configuration file cannot be read.
#[derive(Debug)]
pub enum ReadFailure {
    NotFound,
    Other(String),
}

/// Why there is no configuration.
#[derive(Debug)]
pub enum LoadError {
    NoConfigDir,
    /// There is no file at this path.
    Missing(String),
    /// The file at this path cannot be read, and why.
    Unreadable(String, String),
    /// The file at this path cannot be used, and why.
    Invalid(String, ConfigError),
}

/// What a failure to read the file says.
pub enum ReadFailureModel {
    NotFound,
    Other(Seq<char>),
}

/// What the lack of a configuration says.
pub enum LoadErrorModel {
    NoConfigDir,
    Missing(Seq<char>),
    Unreadable(Seq<char>, Seq<char>),
    Invalid(Seq<char>, ConfigErrorModel),
}

impl View for ReadFailure {
    type V = ReadFailureModel;

    open spec fn view(&self) -> ReadFailureModel {
        match self {
            ReadFailure::NotFound => ReadFailureModel::NotFound,
            ReadFailure::Other(why) => ReadFailureModel::Other(why@),
        }
    }
}

impl View for LoadError {
    type V = LoadErrorModel;

    open spec fn view(&self) -> LoadErrorModel {
        match self {
            LoadError::NoConfigDir => LoadErrorModel::NoConfigDir,
            LoadError::Missing(path) => LoadErrorModel::Missing(path@),
            LoadError::Unreadable(path, why) => LoadErrorModel::Unreadable(path@, why@),
            LoadError::Invalid(path, err) => LoadErrorModel::Invalid(path@, err@),
        }
    }
}

impl LoadErrorModel {
    /// What went wrong.
    pub open spec fn message(self) -> Seq<char> {
        match self {
            LoadErrorModel::NoConfigDir => "cannot determine config directory"@,
            LoadErrorModel::Missing(path) => "no config at "@ + path
                + ". Create it with at least:\n\n  vault = \"/home/you/secrets.kdbx\"\n"@,
            LoadErrorModel::Unreadable(path, _) => "reading "@ + path,
            LoadErrorModel::Invalid(path, _) => "parsing "@ + path,
        }
    }

    /// What made it go wrong.
    pub open spec fn cause(self) -> Option<Seq<char>> {
        match self {
            LoadErrorModel::Unreadable(_, why) => Some(why),
            LoadErrorModel::Invalid(_, err) => Some(err.message()),
            _ => None,
        }
    }
}

impl LoadError {
    /// What went wrong.
    pub fn to_string(&self) -> (message: String)
        ensures
            message@ == self@.message(),
    {
        match self {
            LoadError::NoConfigDir => "cannot determine config directory".to_owned(),
            LoadError::Missing(path) => join3(
                "no config at ",
                path.as_str(),
                ". Create it with at least:\n\n  vault = \"/home/you/secrets.kdbx\"\n",
            ),
            LoadError::Unreadable(path, _) => join2("reading ", path.as_str()),
            LoadError::Invalid(path, _) => join2("parsing ", path.as_str()),
        }
    }

    /// What made it go wrong.
    pub fn cause(&self) -> (cause: Option<String>)
        ensures
            optional_string(cause) == self@.cause(),
    {
        match self {
            LoadError::Unreadable(_, why) => Some(why.clone()),
            LoadError::Invalid(_, err) => Some(err.to_string()),
            _ => None,
        }
    }
}

/// The outcome of a search for the configuration.
pub open spec fn load_outcome<T: View>(result: Result<T, LoadError>) -> Result<
    T::V,
    LoadErrorModel,
> {
    match result {
        Ok(value) => Ok(value@),
        Err(err) => Err(err@),
    }
}

/// The text of the configuration file.
#[derive(Debug)]
pub struct ConfigText {
    pub text: String,
    /// What the parser says of the shape of the settings, if it was asked.
    pub complaint: Option<String>,
}

/// The text of the configuration file.
pub struct ConfigTextModel {
    pub text: Seq<char>,
    pub complaint: Option<Seq<char>>,
}

impl View for ConfigText {
    type V = ConfigTextModel;

    open spec fn view(&self) -> ConfigTextModel {
        ConfigTextModel { text: self.text@, complaint: optional_string(self.complaint) }
    }
}

impl ConfigTextModel {
    /// What is said of settings with the wrong shape.
    pub open spec fn said(self) -> Seq<char> {
        match self.complaint {
            Some(complaint) => complaint,
            None => plain_complaint(),
        }
    }
}

/// The outcome of reading the file.
pub open spec fn read_outcome(read: Result<ConfigText, ReadFailure>) -> Result<
    ConfigTextModel,
    ReadFailureModel,
> {
    match read {
        Ok(text) => Ok(text@),
        Err(err) => Err(err@),
    }
}

/// The configuration file in the directory for it, if there is one.
pub open spec fn config_file(dir: Option<Seq<u8>>) -> Result<Seq<u8>, LoadErrorModel> {
    match dir {
        Some(dir) => Ok(joined_path(dir, encode_utf8("omarkeyd.toml"@))),
        None => Err(LoadErrorModel::NoConfigDir),
    }
}

/// The settings in the file at `path`, from what reading it gave.
pub open spec fn loaded(
    path: Seq<u8>,
    read: Result<ConfigTextModel, ReadFailureModel>,
    home: Option<Seq<u8>>,
) -> Result<ConfigModel, LoadErrorModel> {
    match read {
        Ok(text) => match config_in_text(text.text, text.said(), home) {
            Ok(config) => Ok(config),
            Err(err) => Err(LoadErrorModel::Invalid(shown(path), err)),
        },
        Err(ReadFailureModel::NotFound) => Err(LoadErrorModel::Missing(shown(path))),
        Err(ReadFailureModel::Other(why)) => Err(LoadErrorModel::Unreadable(shown(path), why)),
    }
}

impl Config {
    /// The configuration file in the directory `dir`.
    pub fn config_path_in(dir: Option<&UnixPath>) -> (path: Result<UnixPath, LoadError>)
        ensures
            load_outcome(path) == config_file(optional_path_ref(dir)),
    {
        match dir {
            Some(dir) => Ok(join(dir, &UnixPath::from_text("omarkeyd.toml"))),
            None => Err(LoadError::NoConfigDir),
        }
    }

    /// The configuration file of the user. The directory that holds it is the one
    /// that the system keeps for [`project`].
    pub fn config_path() -> (path: Result<UnixPath, LoadError>)
        ensures
            exists|dir: Option<Seq<u8>>| load_outcome(path) == #[trigger] config_file(dir),
    {
        let (qualifier, organization, application) = project();
        let dir: Option<UnixPath> = as_path(config_dir(qualifier, organization, application));
        Config::config_path_in(lent(&dir))
    }

    /// The settings in the file at `path`, from what reading it gave, for a user
    /// whose home directory is `home`.
    pub fn load_at_home(
        path: &UnixPath,
        read: Result<ConfigText, ReadFailure>,
        home: Option<&UnixPath>,
    ) -> (config: Result<Config, LoadError>)
        ensures
            load_outcome(config) == loaded(path@, read_outcome(read), optional_path_ref(home)),
            config matches Ok(config) ==> config@.valid(),
    {
        match read {
            Ok(read) => {
                let config: Result<Config, ConfigError> = match &read.complaint {
                    Some(complaint) => Config::from_toml_str_told(
                        read.text.as_str(),
                        complaint.as_str(),
                        home,
                    ),
                    None => Config::from_toml_str_at_home(read.text.as_str(), home),
                };
                match config {
                    Ok(config) => Ok(config),
                    Err(err) => Err(LoadError::Invalid(path.display(), err)),
                }
            },
            Err(ReadFailure::NotFound) => Err(LoadError::Missing(path.display())),
            Err(ReadFailure::Other(why)) => Err(LoadError::Unreadable(path.display(), why)),
        }
    }

    /// The settings in the file at `path`, from what reading it gave. The home
    /// directory of the user comes from the system.
    pub fn load(path: &UnixPath, read: Result<ConfigText, ReadFailure>) -> (config: Result<
        Config,
        LoadError,
    >)
        ensures
            exists|home: Option<Seq<u8>>| load_outcome(config) == #[trigger] loaded(
                path@,
                read_outcome(read),
                home,
            ),
            config matches Ok(config) ==> config@.valid(),
    {
        let home: Option<UnixPath> = as_path(home_dir());
        Config::load_at_home(path, read, lent(&home))
    }
}

// ---------------------------------------------------------------- laws

/// Without a repeated name all names differ.
proof fn lemma_names_differ(names: Seq<Seq<char>>)
    ensures
        repeated_name(names) is None <==> names.no_duplicates(),
    decreases names.len(),
{
    if names.len() > 0 {
        let rest = names.skip(1);
        lemma_names_differ(rest);
        assert(forall|k: int| 0 <= k < rest.len() ==> #[trigger] rest[k] == names[k + 1]);
        if repeated_name(names) is None {
            assert forall|i: int, j: int|
                0 <= i < names.len() && 0 <= j < names.len() && i != j implies names[i]
                != names[j] by {
                if i == 0 {
                    assert(rest[j - 1] == names[j]);
                    assert(!rest.contains(names[0]));
                } else if j == 0 {
                    assert(rest[i - 1] == names[i]);
                    assert(!rest.contains(names[0]));
                } else {
                    assert(rest[i - 1] != rest[j - 1]);
                }
            }
        }
        if names.no_duplicates() {
            assert forall|i: int, j: int|
                0 <= i < rest.len() && 0 <= j < rest.len() && i != j implies rest[i]
                != rest[j] by {
                assert(names[i + 1] != names[j + 1]);
            }
            if rest.contains(names[0]) {
                let k = choose|k: int| 0 <= k < rest.len() && rest[k] == names[0];
                assert(names[k + 1] == names[0]);
            }
        }
    }
}

/// Every database that is built has an absolute path.
proof fn lemma_built_paths_absolute(written: Seq<RawVaultModel>, home: Option<Seq<u8>>)
    ensures
        built_vaults(written, home) matches Ok(vaults) ==> vaults.len() == written.len() && forall|
            i: int,
        |
            0 <= i < vaults.len() ==> is_absolute_path((#[trigger] vaults[i]).path),
    decreases written.len(),
{
    if written.len() > 0 {
        lemma_built_paths_absolute(written.drop_last(), home);
    }
}

/// Settings that are accepted name at least one database, give each an absolute
/// path and no two the same name.
pub proof fn law_settings_are_valid(
    document: JsonValue,
    complaint: Seq<char>,
    home: Option<Seq<u8>>,
)
    ensures
        config_of(document, complaint, home) matches Ok(config) ==> config.valid(),
{
    if let Some(written) = written_vaults(document) {
        lemma_built_paths_absolute(written, home);
        if let Ok(vaults) = built_vaults(written, home) {
            lemma_names_differ(vault_names(vaults));
        }
    }
}

/// The name of a database is not empty.
pub proof fn law_names_are_not_empty(name: Option<Seq<char>>, path: Seq<u8>)
    ensures
        chosen_name(name, path).len() > 0,
{
    reveal_strlit("vault");
}

/// A name is found at the first place where it stands, and only there.
proof fn lemma_first_position(names: Seq<Seq<char>>, name: Seq<char>)
    ensures
        match first_position(names, name) {
            Some(i) => i < names.len() && names[i as int] == name,
            None => !names.contains(name),
        },
    decreases names.len(),
{
    if names.len() > 0 {
        lemma_first_position(names.drop_last(), name);
        if first_position(names, name) is None && names.contains(name) {
            let k = choose|k: int| 0 <= k < names.len() && names[k] == name;
            assert(names.drop_last()[k] == name);
        }
    }
}

/// Names are unambiguous: of valid settings, the name of a database leads to that
/// database, and a name that leads to none is not that of any.
pub proof fn law_names_lead_to_vaults(config: ConfigModel, name: Seq<char>)
    requires
        config.valid(),
    ensures
        forall|i: int|
            0 <= i < config.vaults.len() && (#[trigger] config.vaults[i]).name == name
                ==> first_position(vault_names(config.vaults), name) == Some(i as nat),
        first_position(vault_names(config.vaults), name) is None ==> forall|i: int|
            0 <= i < config.vaults.len() ==> (#[trigger] config.vaults[i]).name != name,
{
    let names = vault_names(config.vaults);
    lemma_first_position(names, name);
    assert forall|i: int|
        0 <= i < config.vaults.len() && (#[trigger] config.vaults[i]).name
            == name implies first_position(names, name) == Some(i as nat) by {
        assert(names[i] == name);
        assert(names.contains(name));
    }
    if first_position(names, name) is None {
        assert forall|i: int| 0 <= i < config.vaults.len() implies (
        #[trigger] config.vaults[i]).name != name by {
            assert(names[i] == config.vaults[i].name);
        }
    }
}

/// The path that was written, if one was, does not start with `~/`.
pub open spec fn stands_alone(path: Option<Seq<char>>) -> bool {
    path matches Some(path) ==> after_prefix(path, "~/"@) is None
}

/// No path in a document starts with `~/`.
pub open spec fn paths_stand_alone(document: JsonValue) -> bool {
    &&& written_vaults(document) matches Some(written) ==> forall|i: int|
        0 <= i < written.len() ==> stands_alone(Some((#[trigger] written[i]).path))
            && stands_alone(written[i].keyfile)
    &&& common_of(document) matches Some(common) ==> stands_alone(common.socket_path)
}

/// Databases whose paths do not start with `~/` do not depend on the home
/// directory.
proof fn lemma_vaults_need_no_home(
    written: Seq<RawVaultModel>,
    a: Option<Seq<u8>>,
    b: Option<Seq<u8>>,
)
    requires
        forall|i: int|
            0 <= i < written.len() ==> stands_alone(Some((#[trigger] written[i]).path))
                && stands_alone(written[i].keyfile),
    ensures
        built_vaults(written, a) == built_vaults(written, b),
    decreases written.len(),
{
    if written.len() > 0 {
        let before = written.drop_last();
        assert forall|i: int| 0 <= i < before.len() implies stands_alone(
            Some((#[trigger] before[i]).path),
        ) && stands_alone(before[i].keyfile) by {
            assert(before[i] == written[i]);
        }
        lemma_vaults_need_no_home(before, a, b);
        assert(written.last() == written[written.len() - 1]);
    }
}

/// The home directory counts only behind `~/`: a document without such a path
/// means the same for every user.
pub proof fn law_home_counts_behind_tilde_only(
    document: JsonValue,
    complaint: Seq<char>,
    a: Option<Seq<u8>>,
    b: Option<Seq<u8>>,
)
    requires
        paths_stand_alone(document),
    ensures
        config_of(document, complaint, a) == config_of(document, complaint, b),
{
    if let Some(written) = written_vaults(document) {
        lemma_vaults_need_no_home(written, a, b);
    }
}

} // verus!
