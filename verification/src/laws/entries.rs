//! What is asked of entries, and what is told.

use vstd::prelude::*;

use crate::entry::{
    field_named, meta_value, secret_of, step_for_word, steps_for_words, CopyFieldModel,
    EntryMetaModel, EntryModel, TypeTokenModel,
};
use crate::ipc::IpcErrorModel;
use crate::json::JsonValue;
use crate::kdbx::{entries_among, entries_under, entry_from, KdbxEntry, KdbxNode};
use crate::text::{ascii_lower, spelled_u64, texts, trimmed};
use crate::totp::{
    is_totp_uri, period_start, settings_of, totp_code, totp_timing, totp_url, TotpModel,
};
use crate::vault::{entry_with, public_field, public_fields, remaining_seconds, totp_value};

verus! {

// ---------------------------------------------------------------- finding an entry

/// The entry that is found has the identifier that was asked for, whole, and is the
/// first that has it. None is found only if none has it.
pub proof fn law_entry_is_the_one_asked_for(entries: Seq<EntryModel>, uuid: Seq<char>)
    ensures
        match entry_with(entries, uuid) {
            Some(entry) => exists|i: int|
                0 <= i < entries.len() && #[trigger] entries[i] == entry && entry.uuid == uuid
                    && forall|j: int| 0 <= j < i ==> (#[trigger] entries[j]).uuid != uuid,
            None => forall|i: int|
                0 <= i < entries.len() ==> (#[trigger] entries[i]).uuid != uuid,
        },
    decreases entries.len(),
{
    if entries.len() > 0 {
        let before = entries.drop_last();
        law_entry_is_the_one_asked_for(before, uuid);
        assert(forall|i: int| 0 <= i < before.len() ==> #[trigger] before[i] == entries[i]);
        match entry_with(before, uuid) {
            Some(entry) => {
                let i = choose|i: int|
                    0 <= i < before.len() && #[trigger] before[i] == entry && entry.uuid == uuid
                        && forall|j: int| 0 <= j < i ==> (#[trigger] before[j]).uuid != uuid;
                assert(entries[i] == entry);
                assert forall|j: int| 0 <= j < i implies (#[trigger] entries[j]).uuid != uuid by {
                    assert(before[j] == entries[j]);
                }
            },
            None => {
                assert forall|i: int| 0 <= i < before.len() implies (#[trigger] entries[i]).uuid
                    != uuid by {
                    assert(before[i] == entries[i]);
                }
                assert(entries[entries.len() - 1] == entries.last());
            },
        }
    }
}

// ---------------------------------------------------------------- fields

/// What a field name means, in any letter case; a name that is no standard one
/// means the custom field that is called so, letter for letter.
pub proof fn law_field_names(name: Seq<char>)
    ensures
        match field_named(name) {
            Ok(CopyFieldModel::Password) => ascii_lower(name) == "password"@ || ascii_lower(name)
                == "pass"@,
            Ok(CopyFieldModel::Username) => ascii_lower(name) == "username"@ || ascii_lower(name)
                == "user"@,
            Ok(CopyFieldModel::Url) => ascii_lower(name) == "url"@,
            Ok(CopyFieldModel::Notes) => ascii_lower(name) == "notes"@ || ascii_lower(name)
                == "note"@,
            Ok(CopyFieldModel::Totp) => ascii_lower(name) == "totp"@ || ascii_lower(name)
                == "otp"@,
            Ok(CopyFieldModel::OtpUri) => ascii_lower(name) == "otp-uri"@ || ascii_lower(name)
                == "otpauth"@,
            Ok(CopyFieldModel::Custom(own)) => {
                let low = ascii_lower(name);
                &&& own == name
                &&& name.len() > 0
                &&& low != "password"@ && low != "pass"@
                &&& low != "username"@ && low != "user"@
                &&& low != "url"@
                &&& low != "notes"@ && low != "note"@
                &&& low != "totp"@ && low != "otp"@
                &&& low != "otp-uri"@ && low != "otpauth"@
            },
            Err(err) => name.len() == 0 && err == IpcErrorModel::BadRequest("empty field name"@),
        },
        CopyFieldModel::Password.name() == "password"@,
        CopyFieldModel::Username.name() == "username"@,
        CopyFieldModel::Url.name() == "url"@,
        CopyFieldModel::Notes.name() == "notes"@,
        CopyFieldModel::Totp.name() == "totp"@,
        CopyFieldModel::OtpUri.name() == "otp-uri"@,
        CopyFieldModel::Custom(name).name() == name,
{
}

/// The code of an entry is that of the time that the clock shows.
pub proof fn law_code_is_that_of_the_time(entry: EntryModel, totp: TotpModel, secs: u64)
    requires
        entry.totp == Some(totp),
    ensures
        secret_of(entry, CopyFieldModel::Totp, Ok(secs)) == Ok::<Seq<char>, IpcErrorModel>(
            totp_code(totp.uri, secs),
        ),
{
}

/// The text of a field is what the entry has there, and a field that it does not
/// have is not found. Without a clock there is no code.
pub proof fn law_fields_give_their_text(
    entry: EntryModel,
    name: Seq<char>,
    now: Result<u64, Seq<char>>,
)
    ensures
        secret_of(entry, CopyFieldModel::Username, now) == Ok::<Seq<char>, IpcErrorModel>(
            entry.username,
        ),
        secret_of(entry, CopyFieldModel::Url, now) == Ok::<Seq<char>, IpcErrorModel>(entry.url),
        match secret_of(entry, CopyFieldModel::Password, now) {
            Ok(text) => entry.password == Some(text),
            Err(err) => entry.password is None && err == IpcErrorModel::NotFound("password"@),
        },
        match secret_of(entry, CopyFieldModel::Notes, now) {
            Ok(text) => entry.notes == Some(text),
            Err(err) => entry.notes is None && err == IpcErrorModel::NotFound("notes"@),
        },
        match secret_of(entry, CopyFieldModel::Totp, now) {
            Ok(text) => now matches Ok(secs) && entry.totp is Some && text == totp_code(
                entry.totp.unwrap().uri,
                secs,
            ),
            Err(err) => match entry.totp {
                Some(_) => now matches Err(why) && err == IpcErrorModel::VaultError(why),
                None => err == IpcErrorModel::NotFound("totp"@),
            },
        },
        match secret_of(entry, CopyFieldModel::OtpUri, now) {
            Ok(text) => entry.totp is Some && text == totp_url(entry.totp.unwrap().uri),
            Err(err) => entry.totp is None && err == IpcErrorModel::NotFound("totp"@),
        },
        match secret_of(entry, CopyFieldModel::Custom(name), now) {
            Ok(text) => entry.string_fields.contains_key(name) && text
                == entry.string_fields[name],
            Err(err) => !entry.string_fields.contains_key(name) && err == IpcErrorModel::NotFound(
                name,
            ),
        },
{
}

/// What `get` shows of one field: the four public fields as they are, null for what
/// the entry does not have, and no secret.
pub proof fn law_public_fields_are_shown(entry: EntryModel, name: Seq<char>)
    ensures
        public_field(entry, "username"@) == Ok::<JsonValue, IpcErrorModel>(
            JsonValue::Text(entry.username),
        ),
        public_field(entry, "url"@) == Ok::<JsonValue, IpcErrorModel>(JsonValue::Text(entry.url)),
        public_field(entry, "title"@) == Ok::<JsonValue, IpcErrorModel>(
            JsonValue::Text(entry.title),
        ),
        public_field(entry, "group"@) == Ok::<JsonValue, IpcErrorModel>(
            JsonValue::Text(entry.group),
        ),
        name != "username"@ && name != "url"@ && name != "title"@ && name != "group"@ ==> (
        public_field(entry, name) == if name == "password"@ || name == "notes"@
            || entry.string_fields.contains_key(name) {
            Err::<JsonValue, IpcErrorModel>(
                IpcErrorModel::Unsupported("`"@ + name + "` is a secret; use copy or type"@),
            )
        } else {
            Ok::<JsonValue, IpcErrorModel>(JsonValue::Null)
        }),
{
    reveal_strlit("username");
    reveal_strlit("url");
    reveal_strlit("title");
    reveal_strlit("group");
    reveal_strlit("password");
    reveal_strlit("notes");
    assert("username"@[0] != "password"@[0]);
    assert("title"@[0] != "group"@[0]);
    assert("title"@[0] != "notes"@[0]);
    assert("group"@[0] != "notes"@[0]);
    assert("username"@.len() == 8 && "url"@.len() == 3 && "title"@.len() == 5);
    assert("group"@.len() == 5 && "password"@.len() == 8 && "notes"@.len() == 5);
}

/// What `get` shows are the fields that were asked for, each as it is shown alone;
/// the first that is a secret spoils it.
pub proof fn law_get_shows_what_was_asked_for(entry: EntryModel, names: Seq<Seq<char>>)
    ensures
        match public_fields(entry, names) {
            Ok(members) => {
                &&& forall|name: Seq<char>| #[trigger]
                    members.contains_key(name) <==> names.contains(name)
                &&& forall|name: Seq<char>| #[trigger]
                    members.contains_key(name) ==> public_field(entry, name) == Ok::<
                        JsonValue,
                        IpcErrorModel,
                    >(members[name])
            },
            Err(err) => exists|i: int|
                0 <= i < names.len() && public_field(entry, #[trigger] names[i]) == Err::<
                    JsonValue,
                    IpcErrorModel,
                >(err) && forall|j: int|
                    0 <= j < i ==> public_field(entry, #[trigger] names[j]) is Ok,
        },
    decreases names.len(),
{
    if names.len() > 0 {
        let before = names.drop_last();
        let last = names.last();
        law_get_shows_what_was_asked_for(entry, before);
        assert(forall|i: int| 0 <= i < before.len() ==> #[trigger] before[i] == names[i]);
        assert(names[names.len() - 1] == last);
        match public_fields(entry, before) {
            Ok(members) => {
                assert forall|j: int| 0 <= j < before.len() implies public_field(
                    entry,
                    #[trigger] names[j],
                ) is Ok by {
                    assert(before.contains(before[j]));
                    assert(members.contains_key(before[j]));
                }
                if let Ok(value) = public_field(entry, last) {
                    let grown = members.insert(last, value);
                    assert forall|name: Seq<char>| #[trigger]
                        grown.contains_key(name) <==> names.contains(name) by {
                        if members.contains_key(name) {
                            let k = choose|k: int| 0 <= k < before.len() && before[k] == name;
                            assert(names[k] == name);
                        }
                        if names.contains(name) && name != last {
                            let k = choose|k: int| 0 <= k < names.len() && names[k] == name;
                            assert(before[k] == name);
                            assert(before.contains(name));
                        }
                    }
                }
            },
            Err(err) => {
                let i = choose|i: int|
                    0 <= i < before.len() && public_field(entry, #[trigger] before[i]) == Err::<
                        JsonValue,
                        IpcErrorModel,
                    >(err) && forall|j: int|
                        0 <= j < i ==> public_field(entry, #[trigger] before[j]) is Ok;
                assert(names[i] == before[i]);
                assert forall|j: int| 0 <= j < i implies public_field(
                    entry,
                    #[trigger] names[j],
                ) is Ok by {
                    assert(before[j] == names[j]);
                }
            },
        }
    }
}

/// Metadata on the wire has these members and no other.
pub proof fn law_metadata_on_the_wire(meta: EntryMetaModel, i: int)
    ensures
        meta_value(meta) matches JsonValue::Object(members) && {
            &&& members.dom() == set![
                "uuid"@, "title"@, "username"@, "group"@, "url"@, "hasPassword"@, "hasTotp"@,
                "tags"@,
            ]
            &&& members["uuid"@] == JsonValue::Text(meta.uuid)
            &&& members["title"@] == JsonValue::Text(meta.title)
            &&& members["username"@] == JsonValue::Text(meta.username)
            &&& members["group"@] == JsonValue::Text(meta.group)
            &&& members["url"@] == JsonValue::Text(meta.url)
            &&& members["hasPassword"@] == JsonValue::Bool(meta.has_password)
            &&& members["hasTotp"@] == JsonValue::Bool(meta.has_totp)
            &&& members["tags"@] matches JsonValue::Array(tags) && tags.len() == meta.tags.len()
                && (0 <= i < tags.len() ==> tags[i] == JsonValue::Text(meta.tags[i]))
        },
{
    reveal_strlit("uuid");
    reveal_strlit("title");
    reveal_strlit("username");
    reveal_strlit("group");
    reveal_strlit("url");
    reveal_strlit("hasPassword");
    reveal_strlit("hasTotp");
    reveal_strlit("tags");
    assert("uuid"@[0] != "tags"@[0]);
    assert("title"@[0] != "group"@[0]);
    assert("uuid"@.len() == 4 && "title"@.len() == 5 && "username"@.len() == 8);
    assert("group"@.len() == 5 && "url"@.len() == 3 && "hasPassword"@.len() == 11);
    assert("hasTotp"@.len() == 7 && "tags"@.len() == 4);
    let members = meta_value(meta)->Object_0;
    assert(members.dom() =~= set![
        "uuid"@, "title"@, "username"@, "group"@, "url"@, "hasPassword"@, "hasTotp"@, "tags"@,
    ]);
}

// ---------------------------------------------------------------- one-time passwords

/// The settings of an enrolment URI are those that are read from it, if they can be
/// used at all.
pub proof fn law_totp_settings(uri: Seq<char>)
    ensures
        match settings_of(uri) {
            Some(totp) => {
                &&& totp.uri == uri
                &&& totp_timing(uri) == Some((totp.step, totp.digits))
                &&& totp.step > 0
                &&& is_totp_uri(uri)
            },
            None => !is_totp_uri(uri) || totp_timing(uri) is None || totp_timing(uri).unwrap().0
                == 0,
        },
{
}

/// An enrolment URI for time-based codes begins with the scheme and the host for
/// them, in any letter case and behind any white space.
pub proof fn law_totp_uris(uri: Seq<char>, rest: Seq<char>)
    ensures
        ascii_lower(trimmed(uri)) == "otpauth://totp/"@ + rest ==> is_totp_uri(uri),
        ascii_lower(trimmed(uri)) == "otpauth://totp?"@ + rest ==> is_totp_uri(uri),
        is_totp_uri(uri) ==> {
            let low = ascii_lower(trimmed(uri));
            low == "otpauth://totp/"@ + low.skip(15) || low == "otpauth://totp?"@ + low.skip(15)
        },
{
    let low = ascii_lower(trimmed(uri));
    reveal_strlit("otpauth://totp/");
    reveal_strlit("otpauth://totp?");
    assert("otpauth://totp/"@.len() == 15 && "otpauth://totp?"@.len() == 15);
    crate::laws::text::law_prefix_and_rest("otpauth://totp/"@, rest, low);
    crate::laws::text::law_prefix_and_rest("otpauth://totp?"@, rest, low);
}

/// A period begins at a multiple of its length, at or before the time in it and
/// less than one length before.
pub proof fn law_period(time: u64, step: u64)
    requires
        step > 0,
    ensures
        period_start(time, step) <= time < period_start(time, step) + step,
        period_start(time, step) % step == 0,
{
    let (t, s) = (time as int, step as int);
    assert(0 <= t % s < s && (t - t % s) % s == 0) by (nonlinear_arith)
        requires
            s > 0,
            t >= 0,
    ;
    assert(0 <= t - t % s) by (nonlinear_arith)
        requires
            s > 0,
            t >= 0,
    ;
}

/// What is told of one-time passwords: the period and the number of digits of the
/// settings, and so many seconds that the period ends when they have passed.
pub proof fn law_totp_is_described(entry: EntryModel, totp: TotpModel, secs: u64)
    requires
        entry.totp == Some(totp),
        totp.step > 0,
    ensures
        totp_value(entry, Ok(secs)) matches JsonValue::Object(members) && {
            &&& members.dom() == set!["hasTotp"@, "period"@, "remainingSec"@, "digits"@]
            &&& members["hasTotp"@] == JsonValue::Bool(true)
            &&& members["period"@] == JsonValue::Uint(totp.step)
            &&& members["digits"@] == JsonValue::Uint(totp.digits as u64)
            &&& members["remainingSec"@] matches JsonValue::Uint(left) && 1 <= left <= totp.step
                && (secs + left) % (totp.step as int) == 0
        },
{
    reveal_strlit("hasTotp");
    reveal_strlit("period");
    reveal_strlit("remainingSec");
    reveal_strlit("digits");
    assert("hasTotp"@.len() == 7 && "period"@.len() == 6 && "remainingSec"@.len() == 12
        && "digits"@.len() == 6);
    assert("period"@[0] != "digits"@[0]);
    let members = totp_value(entry, Ok(secs))->Object_0;
    assert(members.dom() =~= set!["hasTotp"@, "period"@, "remainingSec"@, "digits"@]);
    let (t, s) = (secs as int, totp.step as int);
    let left = remaining_seconds(totp.step, Ok(secs)) as int;
    assert(0 <= t % s < s) by (nonlinear_arith)
        requires
            s > 0,
    ;
    assert(left == s - t % s);
    assert((t + (s - t % s)) % s == 0) by (nonlinear_arith)
        requires
            s > 0,
    ;
}

/// A clock that cannot be read counts as the Unix epoch, and an entry without
/// one-time passwords is told to have none.
pub proof fn law_totp_without_clock_or_settings(entry: EntryModel, now: Result<u64, Seq<char>>)
    ensures
        entry.totp is None ==> totp_value(entry, now) == JsonValue::Object(
            map!["hasTotp"@ => JsonValue::Bool(false)],
        ),
        now is Err ==> totp_value(entry, now) == totp_value(entry, Ok(0)),
{
}

// ---------------------------------------------------------------- typing

/// A word that names a key is that key, in any letter case.
pub proof fn law_key_words(entry: EntryModel, word: Seq<char>, now: Result<u64, Seq<char>>)
    ensures
        ascii_lower(word) == "tab"@ ==> step_for_word(entry, word, now) == Ok::<
            TypeTokenModel,
            IpcErrorModel,
        >(TypeTokenModel::Key("Tab"@)),
        ascii_lower(word) == "enter"@ || ascii_lower(word) == "return"@ ==> step_for_word(
            entry,
            word,
            now,
        ) == Ok::<TypeTokenModel, IpcErrorModel>(TypeTokenModel::Key("Return"@)),
        ascii_lower(word) == "escape"@ || ascii_lower(word) == "esc"@ ==> step_for_word(
            entry,
            word,
            now,
        ) == Ok::<TypeTokenModel, IpcErrorModel>(TypeTokenModel::Key("Escape"@)),
{
    lemma_key_names_differ();
}

/// The names of the keys differ.
proof fn lemma_key_names_differ()
    ensures
        "tab"@ != "enter"@,
        "tab"@ != "return"@,
        "tab"@ != "escape"@,
        "tab"@ != "esc"@,
        "enter"@ != "escape"@,
        "enter"@ != "esc"@,
        "return"@ != "escape"@,
        "return"@ != "esc"@,
{
    reveal_strlit("tab");
    reveal_strlit("enter");
    reveal_strlit("return");
    reveal_strlit("escape");
    reveal_strlit("esc");
    assert("tab"@[0] != "esc"@[0]);
    assert("return"@[0] != "escape"@[0]);
    assert("tab"@.len() == 3 && "enter"@.len() == 5 && "return"@.len() == 6 && "escape"@.len() == 6
        && "esc"@.len() == 3);
}

/// A number behind a tilde is a delay of so many milliseconds, and a tilde before
/// anything else is refused.
pub proof fn law_delay_words(entry: EntryModel, number: Seq<char>, now: Result<u64, Seq<char>>)
    ensures
        step_for_word(entry, seq!['~'] + number, now) == match spelled_u64(number) {
            Some(millis) => Ok::<TypeTokenModel, IpcErrorModel>(
                TypeTokenModel::Delay(millis as nat),
            ),
            None => Err::<TypeTokenModel, IpcErrorModel>(
                IpcErrorModel::BadRequest(
                    "bad delay token `"@ + (seq!['~'] + number) + "`"@,
                ),
            ),
        },
{
    let word = seq!['~'] + number;
    reveal_strlit("~");
    reveal_strlit("tab");
    reveal_strlit("enter");
    reveal_strlit("return");
    reveal_strlit("escape");
    reveal_strlit("esc");
    assert("~"@ =~= seq!['~']);
    crate::laws::text::law_prefix_and_rest("~"@, number, word);
    assert(ascii_lower(word)[0] == '~');
    assert("tab"@[0] == 't' && "enter"@[0] == 'e' && "return"@[0] == 'r' && "escape"@[0] == 'e'
        && "esc"@[0] == 'e');
}

/// Any other word is a field, and its text is typed, or its error counts.
pub proof fn law_field_words(entry: EntryModel, word: Seq<char>, now: Result<u64, Seq<char>>)
    requires
        word.len() == 0 || word[0] != '~',
        ascii_lower(word) != "tab"@,
        ascii_lower(word) != "enter"@,
        ascii_lower(word) != "return"@,
        ascii_lower(word) != "escape"@,
        ascii_lower(word) != "esc"@,
    ensures
        match field_named(word) {
            Err(err) => step_for_word(entry, word, now) == Err::<TypeTokenModel, IpcErrorModel>(
                err,
            ),
            Ok(field) => match secret_of(entry, field, now) {
                Err(err) => step_for_word(entry, word, now) == Err::<
                    TypeTokenModel,
                    IpcErrorModel,
                >(err),
                Ok(text) => step_for_word(entry, word, now) == Ok::<TypeTokenModel, IpcErrorModel>(
                    TypeTokenModel::Text(text),
                ),
            },
        },
{
    reveal_strlit("~");
    if word.len() > 0 {
        assert(word.take(1)[0] == word[0]);
        assert("~"@[0] == '~');
    }
}

/// A sequence fails with the error of the first word that fails, and only then.
pub proof fn law_first_bad_word_counts(
    entry: EntryModel,
    words: Seq<Seq<char>>,
    now: Result<u64, Seq<char>>,
)
    ensures
        match steps_for_words(entry, words, now) {
            Ok(steps) => steps.len() == words.len() && forall|i: int|
                0 <= i < words.len() ==> step_for_word(entry, #[trigger] words[i], now) == Ok::<
                    TypeTokenModel,
                    IpcErrorModel,
                >(steps[i]),
            Err(err) => exists|i: int|
                0 <= i < words.len() && step_for_word(entry, #[trigger] words[i], now) == Err::<
                    TypeTokenModel,
                    IpcErrorModel,
                >(err) && forall|j: int|
                    0 <= j < i ==> step_for_word(entry, #[trigger] words[j], now) is Ok,
        },
    decreases words.len(),
{
    if words.len() > 0 {
        let before = words.drop_last();
        law_first_bad_word_counts(entry, before, now);
        assert(forall|i: int| 0 <= i < before.len() ==> #[trigger] before[i] == words[i]);
        assert(words[words.len() - 1] == words.last());
        match steps_for_words(entry, before, now) {
            Ok(steps) => {
                assert forall|j: int| 0 <= j < before.len() implies step_for_word(
                    entry,
                    #[trigger] words[j],
                    now,
                ) == Ok::<TypeTokenModel, IpcErrorModel>(steps[j]) by {
                    assert(before[j] == words[j]);
                }
            },
            Err(err) => {
                let i = choose|i: int|
                    0 <= i < before.len() && step_for_word(entry, #[trigger] before[i], now)
                        == Err::<TypeTokenModel, IpcErrorModel>(err) && forall|j: int|
                        0 <= j < i ==> step_for_word(entry, #[trigger] before[j], now) is Ok;
                assert(words[i] == before[i]);
                assert forall|j: int| 0 <= j < i implies step_for_word(
                    entry,
                    #[trigger] words[j],
                    now,
                ) is Ok by {
                    assert(before[j] == words[j]);
                }
            },
        }
    }
}

// ---------------------------------------------------------------- databases

/// Two maps agree on one name.
pub open spec fn same_at(
    a: Option<Seq<char>>,
    fields: Map<Seq<char>, Seq<char>>,
    name: Seq<char>,
) -> bool {
    match a {
        Some(text) => fields.contains_key(name) && fields[name] == text,
        None => !fields.contains_key(name),
    }
}

/// An entry takes over what the database holds: each standard field from the field
/// of that name, all other fields as custom ones, and the one-time passwords from
/// the enrolment URI.
pub proof fn law_entries_are_taken_over(entry: KdbxEntry, group: Seq<char>, name: Seq<char>)
    ensures
        ({
            let fields = entry.fields@;
            let taken = entry_from(entry, group);
            &&& taken.uuid == entry.uuid@
            &&& taken.group == group
            &&& taken.tags == texts(entry.tags@)
            &&& taken.title == if fields.contains_key("Title"@) {
                fields["Title"@]
            } else {
                Seq::<char>::empty()
            }
            &&& taken.username == if fields.contains_key("UserName"@) {
                fields["UserName"@]
            } else {
                Seq::<char>::empty()
            }
            &&& taken.url == if fields.contains_key("URL"@) {
                fields["URL"@]
            } else {
                Seq::<char>::empty()
            }
            &&& same_at(taken.password, fields, "Password"@)
            &&& same_at(taken.notes, fields, "Notes"@)
            &&& taken.totp == if fields.contains_key("otp"@) {
                settings_of(fields["otp"@])
            } else {
                None::<TotpModel>
            }
            &&& taken.string_fields.contains_key(name) <==> (fields.contains_key(name) && name
                != "Title"@ && name != "UserName"@ && name != "URL"@ && name != "Password"@ && name
                != "Notes"@ && name != "otp"@)
            &&& taken.string_fields.contains_key(name) ==> taken.string_fields[name]
                == fields[name]
        }),
{
    let names = crate::kdbx::standard_names();
    assert(names[0] == "Title"@ && names[1] == "UserName"@ && names[2] == "URL"@);
    assert(names[3] == "Password"@ && names[4] == "Notes"@ && names[5] == "otp"@);
    if names.to_set().contains(name) {
        let k = choose|k: int| 0 <= k < names.len() && names[k] == name;
    }
}

/// The tree is walked in its order: the entries under two lists of nodes are those
/// under the one and those under the other.
pub proof fn law_tree_is_walked_in_order(a: Seq<KdbxNode>, b: Seq<KdbxNode>, path: Seq<char>)
    ensures
        entries_among(a + b, path) == entries_among(a, path) + entries_among(b, path),
    decreases b.len(),
{
    if b.len() == 0 {
        assert(a + b =~= a);
        assert(entries_among(a, path) + entries_among(b, path) =~= entries_among(a, path));
    } else {
        assert((a + b).drop_last() =~= a + b.drop_last());
        law_tree_is_walked_in_order(a, b.drop_last(), path);
        assert(entries_among(a + b, path) =~= entries_among(a, path) + entries_among(b, path));
    }
}

/// An entry stands for itself in its group. A group stands for what is in it, and
/// its name is put behind the path of the group that it is in.
pub proof fn law_nodes(node: KdbxNode, path: Seq<char>)
    ensures
        entries_among(seq![node], path) == entries_under(node, path),
        match node {
            KdbxNode::Entry(entry) => entries_under(node, path) == seq![entry_from(entry, path)],
            KdbxNode::Group(group) => entries_under(node, path) == entries_among(
                group.children@,
                if path.len() == 0 {
                    group.name@
                } else {
                    path + "/"@ + group.name@
                },
            ),
        },
{
    assert(seq![node].drop_last() =~= Seq::<KdbxNode>::empty());
    assert(entries_among(Seq::<KdbxNode>::empty(), path) =~= Seq::<EntryModel>::empty());
    assert(entries_among(seq![node], path) =~= entries_under(node, path));
}

} // verus!
