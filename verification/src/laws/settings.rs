//! What the settings in a document mean, and which documents are refused.

use vstd::prelude::*;
use vstd::utf8::encode_utf8;

use crate::config::{
    built_vaults, chosen_name, config_file, config_in_text, config_of, expanded,
    first_position, loaded, no_such_vault, repeated_name, vault_names, vault_of, vaults_of,
    written_vaults, ConfigErrorModel, ConfigModel, ConfigTextModel, LoadErrorModel, RawVaultModel,
    ReadFailureModel, VaultConfigModel,
};
use crate::json::JsonValue;
use crate::paths::{file_stem_of, is_absolute_path, joined_path, shown};
use crate::reader::toml_document;
use crate::text::{after_prefix, joined, trimmed};

verus! {

// ---------------------------------------------------------------- what a document says

/// A table holds a text under a key, or nothing.
pub open spec fn tells(
    table: Map<Seq<char>, JsonValue>,
    key: Seq<char>,
    text: Option<Seq<char>>,
) -> bool {
    match text {
        Some(text) => table.contains_key(key) && table[key] == JsonValue::Text(text),
        None => !table.contains_key(key),
    }
}

/// What is under a key, if there is anything, is a text.
pub open spec fn only_text(table: Map<Seq<char>, JsonValue>, key: Seq<char>) -> bool {
    table.contains_key(key) ==> table[key] is Text
}

/// What is under a key, if there is anything, is a whole number that is not
/// negative.
pub open spec fn only_number(table: Map<Seq<char>, JsonValue>, key: Seq<char>) -> bool {
    table.contains_key(key) ==> table[key] is Uint
}

/// What is under a key, if there is anything, is true or false.
pub open spec fn only_truth(table: Map<Seq<char>, JsonValue>, key: Seq<char>) -> bool {
    table.contains_key(key) ==> table[key] is Bool
}

/// The settings that are not about vaults have the types that they must have.
pub open spec fn well_typed(document: Map<Seq<char>, JsonValue>) -> bool {
    &&& only_number(document, "idle_lock_seconds"@)
    &&& only_number(document, "clipboard_clear_seconds"@)
    &&& only_truth(document, "allow_inline_unlock"@)
    &&& only_text(document, "pinentry_program"@)
    &&& only_text(document, "socket_path"@)
}

/// An item of the list of vaults describes a vault: a table with a path and, if at
/// all, a name and a key file, or a list that begins with the three.
pub open spec fn describes(item: JsonValue, vault: RawVaultModel) -> bool {
    match item {
        JsonValue::Object(table) => {
            &&& forall|key: Seq<char>| #[trigger]
                table.contains_key(key) ==> key == "name"@ || key == "path"@ || key == "keyfile"@
            &&& tells(table, "name"@, vault.name)
            &&& tells(table, "path"@, Some(vault.path))
            &&& tells(table, "keyfile"@, vault.keyfile)
        },
        JsonValue::Array(parts) => {
            &&& parts.len() >= 3
            &&& vault.name matches Some(name) && parts[0] == JsonValue::Text(name)
            &&& parts[1] == JsonValue::Text(vault.path)
            &&& vault.keyfile matches Some(keyfile) && parts[2] == JsonValue::Text(keyfile)
        },
        _ => false,
    }
}

/// The vaults that a document lists: none; the one at a path, with the key file
/// beside it; or one for each item of a list.
pub open spec fn lists(document: Map<Seq<char>, JsonValue>, vaults: Seq<RawVaultModel>) -> bool {
    if document.contains_key("vault"@) {
        match document["vault"@] {
            JsonValue::Text(path) => vaults.len() == 1 && vaults[0].name is None && vaults[0].path
                == path && tells(document, "keyfile"@, vaults[0].keyfile),
            JsonValue::Array(items) => vaults.len() == items.len() && forall|i: int|
                0 <= i < items.len() ==> describes(#[trigger] items[i], vaults[i]),
            _ => false,
        }
    } else {
        vaults.len() == 0
    }
}

/// A vault table says what it describes, and nothing if it describes nothing.
proof fn lemma_vault_table(item: JsonValue, vault: RawVaultModel)
    ensures
        vault_of(item) == Some(vault) <==> describes(item, vault),
{
    if let JsonValue::Object(table) = item {
        assert((forall|key: Seq<char>| #[trigger]
            table.contains_key(key) ==> crate::config::is_vault_key(key)) <==> (forall|
            key: Seq<char>,
        | #[trigger]
            table.contains_key(key) ==> key == "name"@ || key == "path"@ || key == "keyfile"@));
    }
    if let JsonValue::Array(parts) = item {
        if describes(item, vault) {
            assert(vault_of(item) == Some(vault));
        }
    }
}

/// The list of vaults says what its items describe.
proof fn lemma_vault_tables(items: Seq<JsonValue>, vaults: Seq<RawVaultModel>)
    ensures
        vaults_of(items) == Some(vaults) <==> (vaults.len() == items.len() && forall|i: int|
            0 <= i < items.len() ==> describes(#[trigger] items[i], vaults[i])),
    decreases items.len(),
{
    if items.len() == 0 {
        if vaults.len() == 0 {
            assert(vaults =~= Seq::<RawVaultModel>::empty());
        }
    } else if vaults.len() == items.len() {
        let (before, last) = (items.drop_last(), vaults.last());
        lemma_vault_tables(before, vaults.drop_last());
        lemma_vault_table(items.last(), last);
        assert(vaults.drop_last().push(last) =~= vaults);
        assert(forall|i: int| 0 <= i < before.len() ==> #[trigger] before[i] == items[i]);
        assert(items[items.len() - 1] == items.last());
        if vaults_of(items) == Some(vaults) {
            let parsed = vaults_of(before).unwrap();
            let read = vault_of(items.last()).unwrap();
            assert(parsed.push(read) == vaults);
            assert(parsed =~= parsed.push(read).drop_last());
            assert(read == parsed.push(read).last());
            assert forall|i: int| 0 <= i < items.len() implies describes(
                #[trigger] items[i],
                vaults[i],
            ) by {
                if i < before.len() {
                    assert(before[i] == items[i]);
                    assert(vaults.drop_last()[i] == vaults[i]);
                }
            }
        }
        if forall|i: int| 0 <= i < items.len() ==> describes(#[trigger] items[i], vaults[i]) {
            assert forall|i: int| 0 <= i < before.len() implies describes(
                #[trigger] before[i],
                vaults.drop_last()[i],
            ) by {
                assert(before[i] == items[i]);
            }
        }
    } else if vaults_of(items) == Some(vaults) {
        lemma_as_many_vaults(items);
    }
}

/// Every item of a list of vaults that can be read gives one vault.
proof fn lemma_as_many_vaults(items: Seq<JsonValue>)
    ensures
        vaults_of(items) matches Some(vaults) ==> vaults.len() == items.len(),
    decreases items.len(),
{
    if items.len() > 0 {
        lemma_as_many_vaults(items.drop_last());
    }
}

/// What is read from a document is what it lists.
proof fn lemma_listed_vaults(document: Map<Seq<char>, JsonValue>, vaults: Seq<RawVaultModel>)
    ensures
        written_vaults(JsonValue::Object(document)) == Some(vaults) <==> lists(document, vaults),
{
    if document.contains_key("vault"@) {
        match document["vault"@] {
            JsonValue::Array(items) => lemma_vault_tables(items, vaults),
            JsonValue::Text(path) => {
                if lists(document, vaults) {
                    assert(vaults =~= seq![vaults[0]]);
                }
            },
            _ => {},
        }
    } else if vaults.len() == 0 {
        assert(vaults =~= Seq::<RawVaultModel>::empty());
    }
}

// ---------------------------------------------------------------- times and switches

/// A copied secret is cleared after as many seconds as the document says, in
/// milliseconds, and after 20 seconds if it does not say. The vault locks after as
/// many idle seconds as it says, after 300 if it does not say, and never if it says
/// zero.
pub proof fn law_seconds_are_seconds(
    document: Map<Seq<char>, JsonValue>,
    complaint: Seq<char>,
    home: Option<Seq<u8>>,
    n: u64,
)
    ensures
        config_of(JsonValue::Object(document), complaint, home) matches Ok(config) ==> {
            &&& document.contains_key("clipboard_clear_seconds"@)
                && document["clipboard_clear_seconds"@] == JsonValue::Uint(n)
                ==> config.clipboard_clear == 1000 * n
            &&& !document.contains_key("clipboard_clear_seconds"@) ==> config.clipboard_clear
                == 20_000
            &&& document.contains_key("idle_lock_seconds"@) && document["idle_lock_seconds"@]
                == JsonValue::Uint(n) ==> match config.idle_lock {
                Some(limit) => n > 0 && limit == 1000 * n,
                None => n == 0,
            }
            &&& !document.contains_key("idle_lock_seconds"@) ==> config.idle_lock == Some(
                300_000nat,
            )
        },
{
}

/// A password may come with a request only if the document says so. The prompt and
/// the socket are those that it names, if it names them.
pub proof fn law_switches(
    document: Map<Seq<char>, JsonValue>,
    complaint: Seq<char>,
    home: Option<Seq<u8>>,
    text: Seq<char>,
)
    ensures
        config_of(JsonValue::Object(document), complaint, home) matches Ok(config) ==> {
            &&& config.allow_inline_unlock <==> document.contains_key("allow_inline_unlock"@)
                && document["allow_inline_unlock"@] == JsonValue::Bool(true)
            &&& tells(document, "pinentry_program"@, Some(text)) ==> config.pinentry_program
                == Some(text)
            &&& tells(document, "pinentry_program"@, None) ==> config.pinentry_program is None
            &&& tells(document, "socket_path"@, Some(text)) ==> config.socket_path == Some(
                expanded(text, home),
            )
            &&& tells(document, "socket_path"@, None) ==> config.socket_path is None
        },
{
}

// ---------------------------------------------------------------- vaults

/// A path that begins with `~/` is one in the home directory; any other is itself.
pub proof fn law_home_paths(path: Seq<char>, rest: Seq<char>, home: Option<Seq<u8>>)
    ensures
        path == seq!['~', '/'] + rest && home is Some ==> expanded(path, home) == joined_path(
            home.unwrap(),
            encode_utf8(rest),
        ),
        home is None ==> expanded(path, home) == encode_utf8(path),
        path.len() < 2 || path[0] != '~' || path[1] != '/' ==> expanded(path, home) == encode_utf8(
            path,
        ),
{
    reveal_strlit("~/");
    assert("~/"@ =~= seq!['~', '/']);
    if path == seq!['~', '/'] + rest {
        crate::laws::text::law_prefix_and_rest("~/"@, rest, path);
    }
    if after_prefix(path, "~/"@) is Some {
        assert(path.take(2)[0] == path[0] && path.take(2)[1] == path[1]);
    }
}

/// A vault is called what the document calls it, without the white space around, or
/// else after the file without its extension, or else `vault`.
pub proof fn law_vault_names(name: Option<Seq<char>>, path: Seq<u8>)
    ensures
        match name {
            Some(name) => trimmed(name).len() > 0 ==> chosen_name(Some(name), path) == trimmed(
                name,
            ),
            None => true,
        },
        name is None || trimmed(name.unwrap()).len() == 0 ==> match file_stem_of(path) {
            Some(stem) => chosen_name(name, path) == if shown(stem).len() > 0 {
                shown(stem)
            } else {
                "vault"@
            },
            None => chosen_name(name, path) == "vault"@,
        },
{
}

/// What the vaults of a list come to: the vaults, or the error of the first whose
/// path is not absolute.
proof fn lemma_built(written: Seq<RawVaultModel>, home: Option<Seq<u8>>)
    ensures
        match built_vaults(written, home) {
            Ok(vaults) => vaults.len() == written.len() && forall|i: int|
                0 <= i < written.len() ==> is_absolute_path(
                    expanded((#[trigger] written[i]).path, home),
                ) && stands_for(vaults[i], written[i], home),
            Err(err) => exists|i: int|
                0 <= i < written.len() && !is_absolute_path(
                    expanded((#[trigger] written[i]).path, home),
                ) && err == ConfigErrorModel::RelativePath(shown(expanded(written[i].path, home)))
                    && forall|j: int|
                    0 <= j < i ==> is_absolute_path(expanded((#[trigger] written[j]).path, home)),
        },
    decreases written.len(),
{
    if written.len() > 0 {
        let before = written.drop_last();
        lemma_built(before, home);
        assert(forall|i: int| 0 <= i < before.len() ==> #[trigger] before[i] == written[i]);
        assert(written[written.len() - 1] == written.last());
        match built_vaults(before, home) {
            Ok(vaults) => {
                assert forall|i: int| 0 <= i < before.len() implies is_absolute_path(
                    expanded((#[trigger] written[i]).path, home),
                ) && stands_for(vaults[i], written[i], home) by {
                    assert(before[i] == written[i]);
                }
            },
            Err(err) => {
                let i = choose|i: int|
                    0 <= i < before.len() && !is_absolute_path(
                        expanded((#[trigger] before[i]).path, home),
                    ) && err == ConfigErrorModel::RelativePath(
                        shown(expanded(before[i].path, home)),
                    ) && forall|j: int|
                        0 <= j < i ==> is_absolute_path(expanded((#[trigger] before[j]).path, home));
                assert(written[i] == before[i]);
                assert forall|j: int| 0 <= j < i implies is_absolute_path(
                    expanded((#[trigger] written[j]).path, home),
                ) by {
                    assert(before[j] == written[j]);
                }
            },
        }
    }
}

/// A vault is the one that the document describes.
pub open spec fn stands_for(
    vault: VaultConfigModel,
    written: RawVaultModel,
    home: Option<Seq<u8>>,
) -> bool {
    &&& vault.path == expanded(written.path, home)
    &&& vault.name == chosen_name(written.name, expanded(written.path, home))
    &&& match written.keyfile {
        Some(keyfile) => vault.keyfile == Some(expanded(keyfile, home)),
        None => vault.keyfile is None,
    }
}

/// A name stands twice in a list, first at `i`, and none before it does.
pub open spec fn first_repeated(names: Seq<Seq<char>>, name: Seq<char>) -> bool {
    exists|i: int|
        0 <= i < names.len() && #[trigger] names[i] == name && repeated_at(names, i) && forall|
            j: int,
        | 0 <= j < i ==> !#[trigger] repeated_at(names, j)
}

/// The name at `i` comes again.
pub open spec fn repeated_at(names: Seq<Seq<char>>, i: int) -> bool {
    exists|k: int| i < k < names.len() && #[trigger] names[k] == names[i]
}

/// The name that is told to stand twice is the first that does; if none is told,
/// none does.
pub proof fn law_repeated_name(names: Seq<Seq<char>>)
    ensures
        match repeated_name(names) {
            Some(name) => first_repeated(names, name),
            None => names.no_duplicates(),
        },
    decreases names.len(),
{
    if names.len() > 0 {
        let rest = names.skip(1);
        assert(forall|i: int| 0 <= i < rest.len() ==> #[trigger] rest[i] == names[i + 1]);
        if rest.contains(names[0]) {
            let k = choose|k: int| 0 <= k < rest.len() && rest[k] == names[0];
            assert(names[k + 1] == names[0]);
            assert(repeated_at(names, 0));
        } else {
            law_repeated_name(rest);
            assert(!repeated_at(names, 0)) by {
                if repeated_at(names, 0) {
                    let k = choose|k: int| 0 < k < names.len() && #[trigger] names[k] == names[0];
                    assert(rest[k - 1] == names[0]);
                }
            }
            match repeated_name(rest) {
                Some(name) => {
                    let i = choose|i: int|
                        0 <= i < rest.len() && #[trigger] rest[i] == name && repeated_at(rest, i)
                            && forall|j: int| 0 <= j < i ==> !#[trigger] repeated_at(rest, j);
                    assert(names[i + 1] == name);
                    let k = choose|k: int| i < k < rest.len() && #[trigger] rest[k] == rest[i];
                    assert(names[k + 1] == names[i + 1]);
                    assert(repeated_at(names, i + 1));
                    assert forall|j: int| 0 <= j < i + 1 implies !#[trigger] repeated_at(
                        names,
                        j,
                    ) by {
                        if j > 0 && repeated_at(names, j) {
                            let m = choose|m: int|
                                j < m < names.len() && #[trigger] names[m] == names[j];
                            assert(rest[m - 1] == rest[j - 1]);
                            assert(repeated_at(rest, j - 1));
                        }
                    }
                },
                None => {
                    assert forall|i: int, j: int|
                        0 <= i < names.len() && 0 <= j < names.len() && i != j implies names[i]
                        != names[j] by {
                        if i > 0 && j > 0 {
                            assert(rest[i - 1] != rest[j - 1]);
                        } else if i == 0 {
                            assert(rest[j - 1] == names[j]);
                        } else {
                            assert(rest[i - 1] == names[i]);
                        }
                    }
                },
            }
        }
    }
}

/// What a document whose settings have the right types comes to. It is accepted if
/// it lists a vault, all their paths are absolute and all their names differ, and
/// the vaults are then those that it lists, in its order. Otherwise it is refused
/// for the first path that is not absolute, for having no vault, or for the first
/// name that comes twice.
pub proof fn law_vaults_are_those_listed(
    document: Map<Seq<char>, JsonValue>,
    complaint: Seq<char>,
    home: Option<Seq<u8>>,
    written: Seq<RawVaultModel>,
)
    requires
        well_typed(document),
        lists(document, written),
    ensures
        match config_of(JsonValue::Object(document), complaint, home) {
            Ok(config) => {
                &&& written.len() > 0
                &&& config.vaults.len() == written.len()
                &&& forall|i: int|
                    0 <= i < written.len() ==> is_absolute_path(
                        expanded((#[trigger] written[i]).path, home),
                    ) && stands_for(config.vaults[i], written[i], home)
                &&& forall|i: int, j: int|
                    0 <= i < j < written.len() ==> (#[trigger] config.vaults[i]).name != (
                    #[trigger] config.vaults[j]).name
            },
            Err(ConfigErrorModel::RelativePath(path)) => exists|i: int|
                0 <= i < written.len() && !is_absolute_path(
                    expanded((#[trigger] written[i]).path, home),
                ) && path == shown(expanded(written[i].path, home)) && forall|j: int|
                    0 <= j < i ==> is_absolute_path(expanded((#[trigger] written[j]).path, home)),
            Err(ConfigErrorModel::NoVault) => written.len() == 0,
            Err(ConfigErrorModel::SameName(name)) => {
                &&& forall|i: int|
                    0 <= i < written.len() ==> is_absolute_path(
                        expanded((#[trigger] written[i]).path, home),
                    )
                &&& first_repeated(
                    Seq::new(
                        written.len(),
                        |i: int| chosen_name(written[i].name, expanded(written[i].path, home)),
                    ),
                    name,
                )
            },
            Err(_) => false,
        },
{
    lemma_listed_vaults(document, written);
    lemma_built(written, home);
    if let Ok(vaults) = built_vaults(written, home) {
        let names = vault_names(vaults);
        law_repeated_name(names);
        assert(names =~= Seq::new(
            written.len(),
            |i: int| chosen_name(written[i].name, expanded(written[i].path, home)),
        )) by {
            assert forall|i: int| 0 <= i < written.len() implies #[trigger] names[i]
                == chosen_name(written[i].name, expanded(written[i].path, home)) by {
                assert(stands_for(vaults[i], written[i], home));
            }
        }
        if repeated_name(names) is None {
            assert forall|i: int, j: int| 0 <= i < j < written.len() implies (
            #[trigger] vaults[i]).name != (#[trigger] vaults[j]).name by {
                assert(names[i] != names[j]);
            }
        }
    }
}

/// A document is refused for its shape, with the complaint that the parser has, if a
/// setting has another type than it must have, or if what should list the vaults
/// does not.
pub proof fn law_shape_must_be_right(
    document: Map<Seq<char>, JsonValue>,
    complaint: Seq<char>,
    home: Option<Seq<u8>>,
)
    ensures
        !well_typed(document) || !(exists|written: Seq<RawVaultModel>| #[trigger]
            lists(document, written)) <==> config_of(JsonValue::Object(document), complaint, home)
            == Err::<ConfigModel, ConfigErrorModel>(ConfigErrorModel::Shape(complaint)),
{
    match written_vaults(JsonValue::Object(document)) {
        Some(written) => {
            lemma_listed_vaults(document, written);
            lemma_built(written, home);
        },
        None => {
            assert forall|written: Seq<RawVaultModel>| !#[trigger] lists(document, written) by {
                lemma_listed_vaults(document, written);
            }
        },
    }
}

/// Keys that mean nothing change nothing, and neither does a key file that stands
/// beside a list of vaults.
pub proof fn law_other_keys_are_ignored(
    document: Map<Seq<char>, JsonValue>,
    complaint: Seq<char>,
    home: Option<Seq<u8>>,
    key: Seq<char>,
    value: JsonValue,
)
    requires
        key != "vault"@,
        key != "keyfile"@ || !document.contains_key("vault"@) || !(document["vault"@] is Text),
        key != "idle_lock_seconds"@,
        key != "clipboard_clear_seconds"@,
        key != "allow_inline_unlock"@,
        key != "pinentry_program"@,
        key != "socket_path"@,
    ensures
        config_of(JsonValue::Object(document.insert(key, value)), complaint, home) == config_of(
            JsonValue::Object(document),
            complaint,
            home,
        ),
{
}

// ---------------------------------------------------------------- files

/// A text that is TOML means what its document means; another is refused with what
/// the parser says.
pub proof fn law_text_means_its_document(
    text: Seq<char>,
    complaint: Seq<char>,
    home: Option<Seq<u8>>,
    document: JsonValue,
    why: Seq<char>,
)
    ensures
        toml_document(text) == Ok::<JsonValue, Seq<char>>(document) ==> config_in_text(
            text,
            complaint,
            home,
        ) == config_of(document, complaint, home),
        toml_document(text) == Err::<JsonValue, Seq<char>>(why) ==> config_in_text(
            text,
            complaint,
            home,
        ) == Err::<ConfigModel, ConfigErrorModel>(ConfigErrorModel::Syntax(why)),
{
}

/// The file is `omarkeyd.toml` in the configuration directory.
pub proof fn law_file_is_in_its_directory(dir: Seq<u8>)
    ensures
        config_file(Some(dir)) == Ok::<Seq<u8>, LoadErrorModel>(
            joined_path(dir, encode_utf8("omarkeyd.toml"@)),
        ),
        config_file(None) == Err::<Seq<u8>, LoadErrorModel>(LoadErrorModel::NoConfigDir),
{
}

/// What loading a file comes to, and what is said of what went wrong.
pub proof fn law_loading(
    path: Seq<u8>,
    text: ConfigTextModel,
    why: Seq<char>,
    home: Option<Seq<u8>>,
)
    ensures
        loaded(path, Err(ReadFailureModel::NotFound), home) matches Err(err) && err.cause() is None
            && err.message() == "no config at "@ + shown(path)
            + ". Create it with at least:\n\n  vault = \"/home/you/secrets.kdbx\"\n"@,
        loaded(path, Err(ReadFailureModel::Other(why)), home) matches Err(err) && err.cause()
            == Some(why) && err.message() == "reading "@ + shown(path),
        match config_in_text(
            text.text,
            match text.complaint {
                Some(complaint) => complaint,
                None => "a setting has the wrong type, or a [[vault]] table the wrong keys"@,
            },
            home,
        ) {
            Ok(config) => loaded(path, Ok(text), home) == Ok::<ConfigModel, LoadErrorModel>(
                config,
            ),
            Err(fault) => loaded(path, Ok(text), home) matches Err(err) && err.cause() == Some(
                fault.message(),
            ) && err.message() == "parsing "@ + shown(path),
        },
        LoadErrorModel::NoConfigDir.message() == "cannot determine config directory"@,
        LoadErrorModel::NoConfigDir.cause() is None,
{
}

/// What is said of a document that is refused.
pub proof fn law_what_is_said_of_a_document(text: Seq<char>)
    ensures
        ConfigErrorModel::Syntax(text).message() == text,
        ConfigErrorModel::Shape(text).message() == text,
        ConfigErrorModel::NoVault.message()
            == "no vault configured. Add `vault = \"/path/to.kdbx\"` or one or more [[vault]] tables"@,
        ConfigErrorModel::SameName(text).message() == "two vaults are both named `"@ + text + "`"@,
        ConfigErrorModel::RelativePath(text).message() == "vault path `"@ + text
            + "` must be absolute (or start with ~/)"@,
{
}

// ---------------------------------------------------------------- choosing a vault

/// A vault is found by its whole name, the first that has it.
pub proof fn law_vault_is_found_by_name(names: Seq<Seq<char>>, name: Seq<char>)
    ensures
        match first_position(names, name) {
            Some(at) => at < names.len() && names[at as int] == name && forall|j: int|
                0 <= j < at ==> #[trigger] names[j] != name,
            None => forall|j: int| 0 <= j < names.len() ==> #[trigger] names[j] != name,
        },
        no_such_vault(names, name) == "no vault named `"@ + name + "` (have: "@ + joined(
            names,
            ", "@,
        ) + ")"@,
    decreases names.len(),
{
    if names.len() > 0 {
        let before = names.drop_last();
        law_vault_is_found_by_name(before, name);
        assert forall|j: int| 0 <= j < before.len() && before[j] != name implies #[trigger] names[j]
            != name by {
            assert(before[j] == names[j]);
        }
        assert(names[names.len() - 1] == names.last());
        match first_position(before, name) {
            Some(at) => {
                assert(before[at as int] == names[at as int]);
                assert forall|j: int| 0 <= j < at implies #[trigger] names[j] != name by {
                    assert(before[j] == names[j]);
                }
            },
            None => {
                assert forall|j: int| 0 <= j < before.len() implies #[trigger] names[j] != name by {
                    assert(before[j] == names[j]);
                }
            },
        }
    }
}

} // verus!
