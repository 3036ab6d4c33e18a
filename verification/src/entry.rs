//! Entries of the decrypted vault, and the fields that can be asked of them.

use vstd::prelude::*;

use crate::duration::Duration;
use crate::ipc::{outcome, IpcError, IpcErrorModel};
use crate::json::{values, Json, JsonObject, JsonValue};
use crate::secret::{duplicate_optional, optional_text, Secret, SecretFields};
use crate::text::{
    after_prefix, ascii_lower, join3, parse_u64, same_text, spelled_u64, strip_prefix, texts,
    to_ascii_lower,
};
use crate::totp::{totp_code, totp_url, Totp, TotpModel};

verus! {

// ---------------------------------------------------------------- copy fields

/// A field of an entry that can be copied or typed.
#[derive(Debug, Clone)]
pub enum CopyField {
    Password,
    Username,
    Url,
    Notes,
    Totp,
    OtpUri,
    Custom(String),
}

/// What a field name stands for.
pub enum CopyFieldModel {
    Password,
    Username,
    Url,
    Notes,
    Totp,
    OtpUri,
    Custom(Seq<char>),
}

impl View for CopyField {
    type V = CopyFieldModel;

    open spec fn view(&self) -> CopyFieldModel {
        match self {
            CopyField::Password => CopyFieldModel::Password,
            CopyField::Username => CopyFieldModel::Username,
            CopyField::Url => CopyFieldModel::Url,
            CopyField::Notes => CopyFieldModel::Notes,
            CopyField::Totp => CopyFieldModel::Totp,
            CopyField::OtpUri => CopyFieldModel::OtpUri,
            CopyField::Custom(name) => CopyFieldModel::Custom(name@),
        }
    }
}

impl CopyFieldModel {
    /// The name of the field.
    pub open spec fn name(self) -> Seq<char> {
        match self {
            CopyFieldModel::Password => "password"@,
            CopyFieldModel::Username => "username"@,
            CopyFieldModel::Url => "url"@,
            CopyFieldModel::Notes => "notes"@,
            CopyFieldModel::Totp => "totp"@,
            CopyFieldModel::OtpUri => "otp-uri"@,
            CopyFieldModel::Custom(name) => name,
        }
    }
}

/// The field with a name of its own that `name` means, in any letter case.
pub open spec fn standard_field(name: Seq<char>) -> Option<CopyFieldModel> {
    let low = ascii_lower(name);
    if low == "password"@ || low == "pass"@ {
        Some(CopyFieldModel::Password)
    } else if low == "username"@ || low == "user"@ {
        Some(CopyFieldModel::Username)
    } else if low == "url"@ {
        Some(CopyFieldModel::Url)
    } else if low == "notes"@ || low == "note"@ {
        Some(CopyFieldModel::Notes)
    } else if low == "totp"@ || low == "otp"@ {
        Some(CopyFieldModel::Totp)
    } else if low == "otp-uri"@ || low == "otpauth"@ {
        Some(CopyFieldModel::OtpUri)
    } else {
        None
    }
}

/// The field that `name` means. Any name but the empty one means a field: if no
/// standard one, then the custom field that is called so, letter for letter.
pub open spec fn field_named(name: Seq<char>) -> Result<CopyFieldModel, IpcErrorModel> {
    match standard_field(name) {
        Some(field) => Ok(field),
        None => if name.len() == 0 {
            Err(IpcErrorModel::BadRequest("empty field name"@))
        } else {
            Ok(CopyFieldModel::Custom(name))
        },
    }
}

impl CopyField {
    /// The name of the field.
    pub fn as_str(&self) -> (name: String)
        ensures
            name@ == self@.name(),
    {
        match self {
            CopyField::Password => "password".to_owned(),
            CopyField::Username => "username".to_owned(),
            CopyField::Url => "url".to_owned(),
            CopyField::Notes => "notes".to_owned(),
            CopyField::Totp => "totp".to_owned(),
            CopyField::OtpUri => "otp-uri".to_owned(),
            CopyField::Custom(name) => name.clone(),
        }
    }

    /// The field that `name` means.
    pub fn from_str(name: &str) -> (field: Result<CopyField, IpcError>)
        ensures
            outcome(field) == field_named(name@),
    {
        let low: String = to_ascii_lower(name);
        let low: &str = low.as_str();
        if same_text(low, "password") || same_text(low, "pass") {
            Ok(CopyField::Password)
        } else if same_text(low, "username") || same_text(low, "user") {
            Ok(CopyField::Username)
        } else if same_text(low, "url") {
            Ok(CopyField::Url)
        } else if same_text(low, "notes") || same_text(low, "note") {
            Ok(CopyField::Notes)
        } else if same_text(low, "totp") || same_text(low, "otp") {
            Ok(CopyField::Totp)
        } else if same_text(low, "otp-uri") || same_text(low, "otpauth") {
            Ok(CopyField::OtpUri)
        } else if name.is_empty() {
            Err(IpcError::BadRequest("empty field name".to_owned()))
        } else {
            Ok(CopyField::Custom(name.to_owned()))
        }
    }
}

/// The name of a field means that field. A custom field that is called like a
/// standard one, or has no name, cannot be reached by its name and is left out.
pub proof fn law_field_names_round_trip(field: CopyFieldModel)
    requires
        field matches CopyFieldModel::Custom(name) ==> name.len() > 0 && standard_field(
            name,
        ) is None,
    ensures
        field_named(field.name()) == Ok::<CopyFieldModel, IpcErrorModel>(field),
{
    reveal_strlit("password");
    reveal_strlit("pass");
    reveal_strlit("username");
    reveal_strlit("user");
    reveal_strlit("url");
    reveal_strlit("notes");
    reveal_strlit("note");
    reveal_strlit("totp");
    reveal_strlit("otp");
    reveal_strlit("otp-uri");
    reveal_strlit("otpauth");
    let name = field.name();
    if !(field is Custom) {
        assert(ascii_lower(name) =~= name);
        assert("username"@[0] != "password"@[0]);
        assert("totp"@[0] != "pass"@[0]);
        assert("totp"@[0] != "user"@[0]);
        assert("totp"@[0] != "note"@[0]);
    }
}

// ---------------------------------------------------------------- entries

/// One entry of the vault.
#[derive(Debug)]
pub struct Entry {
    pub uuid: String,
    pub title: String,
    pub username: String,
    pub url: String,
    pub group: String,
    pub tags: Vec<String>,
    pub password: Option<Secret>,
    pub notes: Option<Secret>,
    pub string_fields: SecretFields,
    pub totp: Option<Totp>,
}

/// What an entry holds.
pub struct EntryModel {
    pub uuid: Seq<char>,
    pub title: Seq<char>,
    pub username: Seq<char>,
    pub url: Seq<char>,
    pub group: Seq<char>,
    pub tags: Seq<Seq<char>>,
    pub password: Option<Seq<char>>,
    pub notes: Option<Seq<char>>,
    pub string_fields: Map<Seq<char>, Seq<char>>,
    pub totp: Option<TotpModel>,
}

impl View for Entry {
    type V = EntryModel;

    open spec fn view(&self) -> EntryModel {
        EntryModel {
            uuid: self.uuid@,
            title: self.title@,
            username: self.username@,
            url: self.url@,
            group: self.group@,
            tags: texts(self.tags@),
            password: optional_text(self.password),
            notes: optional_text(self.notes),
            string_fields: self.string_fields@,
            totp: match self.totp {
                Some(totp) => Some(totp@),
                None => None,
            },
        }
    }
}

/// The entries of a list.
pub open spec fn entry_models(entries: Seq<Entry>) -> Seq<EntryModel> {
    entries.map_values(|entry: Entry| entry@)
}

/// What a reading of the wall clock says: the seconds since the Unix epoch, or
/// why there are none.
pub open spec fn clock_model(now: Result<u64, String>) -> Result<u64, Seq<char>> {
    match now {
        Ok(secs) => Ok(secs),
        Err(why) => Err(why@),
    }
}

/// The text of a field of an entry at a given time.
pub open spec fn secret_of(
    entry: EntryModel,
    field: CopyFieldModel,
    now: Result<u64, Seq<char>>,
) -> Result<Seq<char>, IpcErrorModel> {
    match field {
        CopyFieldModel::Password => match entry.password {
            Some(text) => Ok(text),
            None => Err(IpcErrorModel::NotFound("password"@)),
        },
        CopyFieldModel::Username => Ok(entry.username),
        CopyFieldModel::Url => Ok(entry.url),
        CopyFieldModel::Notes => match entry.notes {
            Some(text) => Ok(text),
            None => Err(IpcErrorModel::NotFound("notes"@)),
        },
        CopyFieldModel::Totp => match entry.totp {
            Some(totp) => match now {
                Ok(secs) => Ok(totp_code(totp.uri, secs)),
                Err(why) => Err(IpcErrorModel::VaultError(why)),
            },
            None => Err(IpcErrorModel::NotFound("totp"@)),
        },
        CopyFieldModel::OtpUri => match entry.totp {
            Some(totp) => Ok(totp_url(totp.uri)),
            None => Err(IpcErrorModel::NotFound("totp"@)),
        },
        CopyFieldModel::Custom(name) => if entry.string_fields.contains_key(name) {
            Ok(entry.string_fields[name])
        } else {
            Err(IpcErrorModel::NotFound(name))
        },
    }
}

// ---------------------------------------------------------------- metadata

/// The metadata of an entry, which carries no secret.
#[derive(Debug)]
pub struct EntryMeta {
    pub uuid: String,
    pub title: String,
    pub username: String,
    pub group: String,
    pub url: String,
    pub has_password: bool,
    pub has_totp: bool,
    pub tags: Vec<String>,
}

/// What metadata says.
pub struct EntryMetaModel {
    pub uuid: Seq<char>,
    pub title: Seq<char>,
    pub username: Seq<char>,
    pub group: Seq<char>,
    pub url: Seq<char>,
    pub has_password: bool,
    pub has_totp: bool,
    pub tags: Seq<Seq<char>>,
}

impl View for EntryMeta {
    type V = EntryMetaModel;

    open spec fn view(&self) -> EntryMetaModel {
        EntryMetaModel {
            uuid: self.uuid@,
            title: self.title@,
            username: self.username@,
            group: self.group@,
            url: self.url@,
            has_password: self.has_password,
            has_totp: self.has_totp,
            tags: texts(self.tags@),
        }
    }
}

/// The metadata of an entry.
pub open spec fn meta_of(entry: EntryModel) -> EntryMetaModel {
    EntryMetaModel {
        uuid: entry.uuid,
        title: entry.title,
        username: entry.username,
        group: entry.group,
        url: entry.url,
        has_password: entry.password is Some,
        has_totp: entry.totp is Some,
        tags: entry.tags,
    }
}

/// Metadata as it stands on the wire.
pub open spec fn meta_value(meta: EntryMetaModel) -> JsonValue {
    JsonValue::Object(
        Map::<Seq<char>, JsonValue>::empty().insert("uuid"@, JsonValue::Text(meta.uuid)).insert(
            "title"@,
            JsonValue::Text(meta.title),
        ).insert("username"@, JsonValue::Text(meta.username)).insert(
            "group"@,
            JsonValue::Text(meta.group),
        ).insert("url"@, JsonValue::Text(meta.url)).insert(
            "hasPassword"@,
            JsonValue::Bool(meta.has_password),
        ).insert("hasTotp"@, JsonValue::Bool(meta.has_totp)).insert(
            "tags"@,
            JsonValue::Array(meta.tags.map_values(|tag: Seq<char>| JsonValue::Text(tag))),
        ),
    )
}

/// A copy of a list of strings.
pub fn copy_strings(list: &Vec<String>) -> (copy: Vec<String>)
    ensures
        texts(copy@) == texts(list@),
{
    let mut copy: Vec<String> = Vec::new();
    let mut i: usize = 0;
    while i < list.len()
        invariant
            i <= list.len(),
            copy.len() == i,
            forall|k: int| 0 <= k < i ==> copy@[k]@ == list@[k]@,
        decreases list.len() - i,
    {
        copy.push(list[i].clone());
        i = i + 1;
    }
    assert(texts(copy@) =~= texts(list@));
    copy
}

impl EntryMeta {
    /// The metadata as it stands on the wire.
    pub fn to_json(&self) -> (json: Json)
        ensures
            json@ == meta_value(self@),
    {
        let mut tags: Vec<Json> = Vec::new();
        let mut i: usize = 0;
        while i < self.tags.len()
            invariant
                i <= self.tags.len(),
                tags.len() == i,
                forall|k: int| 0 <= k < i ==> tags@[k]@ == JsonValue::Text(self.tags@[k]@),
            decreases self.tags.len() - i,
        {
            tags.push(Json::text(self.tags[i].as_str()));
            i = i + 1;
        }
        assert(values(tags@) =~= self@.tags.map_values(|tag: Seq<char>| JsonValue::Text(tag)));
        let mut object: JsonObject = JsonObject::new();
        object.insert("uuid", Json::text(self.uuid.as_str()));
        object.insert("title", Json::text(self.title.as_str()));
        object.insert("username", Json::text(self.username.as_str()));
        object.insert("group", Json::text(self.group.as_str()));
        object.insert("url", Json::text(self.url.as_str()));
        object.insert("hasPassword", Json::truth(self.has_password));
        object.insert("hasTotp", Json::truth(self.has_totp));
        object.insert("tags", Json::array(tags));
        Json::object(object)
    }
}

// ---------------------------------------------------------------- typing

/// One step of a typing sequence.
#[derive(Debug)]
pub enum TypeToken {
    Text(Secret),
    Key(String),
    Delay(Duration),
}

/// What a typing step does.
pub enum TypeTokenModel {
    Text(Seq<char>),
    Key(Seq<char>),
    Delay(nat),
}

impl View for TypeToken {
    type V = TypeTokenModel;

    open spec fn view(&self) -> TypeTokenModel {
        match self {
            TypeToken::Text(text) => TypeTokenModel::Text(text@),
            TypeToken::Key(key) => TypeTokenModel::Key(key@),
            TypeToken::Delay(span) => TypeTokenModel::Delay(span@),
        }
    }
}

/// The steps of a list.
pub open spec fn token_models(tokens: Seq<TypeToken>) -> Seq<TypeTokenModel> {
    tokens.map_values(|token: TypeToken| token@)
}

/// A typing step with its text laid open.
pub enum TypeTokenRef<'a> {
    Text(&'a str),
    Key(&'a str),
    Delay(Duration),
}

impl<'a> View for TypeTokenRef<'a> {
    type V = TypeTokenModel;

    open spec fn view(&self) -> TypeTokenModel {
        match self {
            TypeTokenRef::Text(text) => TypeTokenModel::Text(text@),
            TypeTokenRef::Key(key) => TypeTokenModel::Key(key@),
            TypeTokenRef::Delay(span) => TypeTokenModel::Delay(span@),
        }
    }
}

impl TypeToken {
    /// Lays the text of the step open.
    pub fn expose(&self) -> (token: TypeTokenRef<'_>)
        ensures
            token@ == self@,
    {
        match self {
            TypeToken::Text(text) => TypeTokenRef::Text(text.expose_secret()),
            TypeToken::Key(key) => TypeTokenRef::Key(key.as_str()),
            TypeToken::Delay(span) => TypeTokenRef::Delay(*span),
        }
    }
}

/// The typing step that one word of a sequence asks for: a key, a delay in
/// milliseconds behind a tilde, or the text of a field. A custom field is meant by
/// the name that it has in the entry, letter for letter.
pub open spec fn step_for_word(
    entry: EntryModel,
    word: Seq<char>,
    now: Result<u64, Seq<char>>,
) -> Result<TypeTokenModel, IpcErrorModel> {
    let low = ascii_lower(word);
    if low == "tab"@ {
        Ok(TypeTokenModel::Key("Tab"@))
    } else if low == "enter"@ || low == "return"@ {
        Ok(TypeTokenModel::Key("Return"@))
    } else if low == "escape"@ || low == "esc"@ {
        Ok(TypeTokenModel::Key("Escape"@))
    } else {
        match after_prefix(word, "~"@) {
            Some(digits) => match spelled_u64(digits) {
                Some(millis) => Ok(TypeTokenModel::Delay(millis as nat)),
                None => Err(
                    IpcErrorModel::BadRequest("bad delay token `"@ + word + "`"@),
                ),
            },
            None => match field_named(word) {
                Ok(field) => match secret_of(entry, field, now) {
                    Ok(text) => Ok(TypeTokenModel::Text(text)),
                    Err(err) => Err(err),
                },
                Err(err) => Err(err),
            },
        }
    }
}

/// The typing steps that a list of words asks for, or the error of the first
/// word that asks for none.
pub open spec fn steps_for_words(
    entry: EntryModel,
    words: Seq<Seq<char>>,
    now: Result<u64, Seq<char>>,
) -> Result<Seq<TypeTokenModel>, IpcErrorModel>
    decreases words.len(),
{
    if words.len() == 0 {
        Ok(Seq::empty())
    } else {
        match steps_for_words(entry, words.drop_last(), now) {
            Ok(steps) => match step_for_word(entry, words.last(), now) {
                Ok(step) => Ok(steps.push(step)),
                Err(err) => Err(err),
            },
            Err(err) => Err(err),
        }
    }
}

/// An error among the first words is the error of the whole sequence.
proof fn lemma_first_error_counts(
    entry: EntryModel,
    words: Seq<Seq<char>>,
    now: Result<u64, Seq<char>>,
    count: int,
)
    requires
        0 <= count <= words.len(),
        steps_for_words(entry, words.take(count), now) is Err,
    ensures
        steps_for_words(entry, words, now) == steps_for_words(entry, words.take(count), now),
    decreases words.len() - count,
{
    if count < words.len() {
        assert(words.take(count + 1).drop_last() =~= words.take(count));
        lemma_first_error_counts(entry, words, now, count + 1);
    } else {
        assert(words.take(count) =~= words);
    }
}

/// A sequence resolves to as many steps as it has words.
pub proof fn law_one_step_per_word(
    entry: EntryModel,
    words: Seq<Seq<char>>,
    now: Result<u64, Seq<char>>,
)
    ensures
        steps_for_words(entry, words, now) matches Ok(steps) ==> steps.len() == words.len() && (
        forall|i: int|
            0 <= i < words.len() ==> step_for_word(entry, #[trigger] words[i], now) == Ok::<
                TypeTokenModel,
                IpcErrorModel,
            >(steps[i])),
    decreases words.len(),
{
    if words.len() > 0 {
        law_one_step_per_word(entry, words.drop_last(), now);
        if let Ok(steps) = steps_for_words(entry, words, now) {
            let before = words.drop_last();
            assert forall|i: int| 0 <= i < words.len() implies step_for_word(
                entry,
                #[trigger] words[i],
                now,
            ) == Ok::<TypeTokenModel, IpcErrorModel>(steps[i]) by {
                if i < before.len() {
                    assert(before[i] == words[i]);
                }
            }
        }
    }
}

impl Entry {
    /// The metadata of the entry.
    pub fn meta(&self) -> (meta: EntryMeta)
        ensures
            meta@ == meta_of(self@),
    {
        EntryMeta {
            uuid: self.uuid.clone(),
            title: self.title.clone(),
            username: self.username.clone(),
            group: self.group.clone(),
            url: self.url.clone(),
            has_password: self.password.is_some(),
            has_totp: self.totp.is_some(),
            tags: copy_strings(&self.tags),
        }
    }

    /// The text of a field at the time `now`.
    pub fn secret(&self, field: &CopyField, now: &Result<u64, String>) -> (text: Result<
        Secret,
        IpcError,
    >)
        ensures
            outcome(text) == secret_of(self@, field@, clock_model(*now)),
    {
        match field {
            CopyField::Password => match duplicate_optional(&self.password) {
                Some(text) => Ok(text),
                None => Err(IpcError::NotFound("password".to_owned())),
            },
            CopyField::Username => Ok(Secret::new(self.username.clone())),
            CopyField::Url => Ok(Secret::new(self.url.clone())),
            CopyField::Notes => match duplicate_optional(&self.notes) {
                Some(text) => Ok(text),
                None => Err(IpcError::NotFound("notes".to_owned())),
            },
            CopyField::Totp => match &self.totp {
                Some(totp) => match now {
                    Ok(secs) => Ok(totp.code_at(*secs)),
                    Err(why) => Err(IpcError::VaultError(why.clone())),
                },
                None => Err(IpcError::NotFound("totp".to_owned())),
            },
            CopyField::OtpUri => match &self.totp {
                Some(totp) => Ok(totp.url()),
                None => Err(IpcError::NotFound("totp".to_owned())),
            },
            CopyField::Custom(name) => match self.string_fields.get(name.as_str()) {
                Some(text) => Ok(text.duplicate()),
                None => Err(IpcError::NotFound(name.clone())),
            },
        }
    }

    /// The typing step that one word of a sequence asks for.
    pub fn type_step(&self, word: &str, now: &Result<u64, String>) -> (step: Result<
        TypeToken,
        IpcError,
    >)
        ensures
            outcome(step) == step_for_word(self@, word@, clock_model(*now)),
    {
        let low: String = to_ascii_lower(word);
        let low: &str = low.as_str();
        if same_text(low, "tab") {
            return Ok(TypeToken::Key("Tab".to_owned()));
        }
        if same_text(low, "enter") || same_text(low, "return") {
            return Ok(TypeToken::Key("Return".to_owned()));
        }
        if same_text(low, "escape") || same_text(low, "esc") {
            return Ok(TypeToken::Key("Escape".to_owned()));
        }
        match strip_prefix(word, "~") {
            Some(digits) => match parse_u64(digits.as_str()) {
                Some(millis) => Ok(TypeToken::Delay(Duration::from_millis(millis))),
                None => Err(IpcError::BadRequest(join3("bad delay token `", word, "`"))),
            },
            None => match CopyField::from_str(word) {
                Ok(field) => match self.secret(&field, now) {
                    Ok(text) => Ok(TypeToken::Text(text)),
                    Err(err) => Err(err),
                },
                Err(err) => Err(err),
            },
        }
    }

    /// The typing steps that a list of words asks for.
    pub fn type_steps(&self, words: &Vec<String>, now: &Result<u64, String>) -> (steps: Result<
        Vec<TypeToken>,
        IpcError,
    >)
        ensures
            match steps {
                Ok(steps) => steps_for_words(self@, texts(words@), clock_model(*now)) == Ok::<
                    Seq<TypeTokenModel>,
                    IpcErrorModel,
                >(token_models(steps@)),
                Err(err) => steps_for_words(self@, texts(words@), clock_model(*now)) == Err::<
                    Seq<TypeTokenModel>,
                    IpcErrorModel,
                >(err@),
            },
    {
        let ghost all = texts(words@);
        let ghost clock = clock_model(*now);
        let mut steps: Vec<TypeToken> = Vec::new();
        let mut i: usize = 0;
        assert(all.take(0) =~= Seq::<Seq<char>>::empty());
        assert(token_models(steps@) =~= Seq::<TypeTokenModel>::empty());
        while i < words.len()
            invariant
                i <= words.len(),
                all == texts(words@),
                clock == clock_model(*now),
                steps_for_words(self@, all.take(i as int), clock) == Ok::<
                    Seq<TypeTokenModel>,
                    IpcErrorModel,
                >(token_models(steps@)),
            decreases words.len() - i,
        {
            assert(all.take(i + 1).drop_last() =~= all.take(i as int));
            assert(all.take(i + 1).last() == words@[i as int]@);
            match self.type_step(words[i].as_str(), now) {
                Ok(step) => {
                    let ghost before = token_models(steps@);
                    let ghost model = step@;
                    steps.push(step);
                    assert(token_models(steps@) =~= before.push(model));
                },
                Err(err) => {
                    proof {
                        lemma_first_error_counts(self@, all, clock, i + 1);
                    }
                    return Err(err);
                },
            }
            i = i + 1;
        }
        assert(all.take(i as int) =~= all);
        Ok(steps)
    }
}

} // verus!
