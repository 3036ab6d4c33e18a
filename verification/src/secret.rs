//! Secret text that is wiped from memory when it is dropped.

use secrecy::{ExposeSecret, SecretString};
use vstd::prelude::*;

use crate::text::{same_text, texts};

verus! {

/// A secret text, held in a `secrecy::SecretString`, which zeroizes it on drop.
/// Nothing but `expose_secret` shows what is inside.
#[derive(Debug)]
#[verifier::external_body]
pub struct Secret {
    inner: SecretString,
}

/// The characters that a secret holds.
pub uninterp spec fn secret_text(secret: Secret) -> Seq<char>;

impl View for Secret {
    type V = Seq<char>;

    open spec fn view(&self) -> Seq<char> {
        secret_text(*self)
    }
}

/// `SecretString::from(String)` boxes the text as it is.
#[verifier::external_body]
fn seal(text: String) -> (secret: Secret)
    ensures
        secret_text(secret) == text@,
{
    Secret { inner: SecretString::from(text) }
}

/// `ExposeSecret::expose_secret` lends the text that the box holds.
#[verifier::external_body]
fn open_seal(secret: &Secret) -> (text: &str)
    ensures
        text@ == secret_text(*secret),
{
    secret.inner.expose_secret()
}

/// `SecretString::clone` boxes a second copy of the same text.
#[verifier::external_body]
fn copy_seal(secret: &Secret) -> (copy: Secret)
    ensures
        secret_text(copy) == secret_text(*secret),
{
    Secret { inner: secret.inner.clone() }
}

impl Secret {
    /// Takes `text` into custody.
    pub fn new(text: String) -> (secret: Secret)
        ensures
            secret@ == text@,
    {
        seal(text)
    }

    /// The text itself. This is the only way to it.
    pub fn expose_secret(&self) -> (text: &str)
        ensures
            text@ == self@,
    {
        open_seal(self)
    }

    /// Another secret with the same text.
    pub fn duplicate(&self) -> (copy: Secret)
        ensures
            copy@ == self@,
    {
        copy_seal(self)
    }

    /// Whether two secrets hold the same text.
    pub fn same_as(&self, other: &Secret) -> (same: bool)
        ensures
            same == (self@ == other@),
    {
        same_text(self.expose_secret(), other.expose_secret())
    }
}

/// The text of a secret that may be missing.
pub open spec fn optional_text(secret: Option<Secret>) -> Option<Seq<char>> {
    match secret {
        Some(secret) => Some(secret@),
        None => None,
    }
}

/// Another copy of a secret that may be missing.
pub fn duplicate_optional(secret: &Option<Secret>) -> (copy: Option<Secret>)
    ensures
        optional_text(copy) == optional_text(*secret),
{
    match secret {
        Some(secret) => Some(secret.duplicate()),
        None => None,
    }
}

// ---------------------------------------------------------------- named secrets

/// Secrets under names. Of two secrets put under one name the later counts.
#[derive(Debug)]
pub struct SecretFields {
    pairs: Vec<(String, Secret)>,
}

/// What a list of named secrets holds, the later of two equal names winning.
pub closed spec fn named_texts(pairs: Seq<(String, Secret)>) -> Map<Seq<char>, Seq<char>>
    decreases pairs.len(),
{
    if pairs.len() == 0 {
        Map::empty()
    } else {
        named_texts(pairs.drop_last()).insert(pairs.last().0@, pairs.last().1@)
    }
}

impl View for SecretFields {
    type V = Map<Seq<char>, Seq<char>>;

    closed spec fn view(&self) -> Map<Seq<char>, Seq<char>> {
        named_texts(self.pairs@)
    }
}

impl SecretFields {
    /// No secrets.
    pub fn new() -> (fields: SecretFields)
        ensures
            fields@ == Map::<Seq<char>, Seq<char>>::empty(),
    {
        SecretFields { pairs: Vec::new() }
    }

    /// Puts `secret` under `name`, in place of what was there.
    pub fn insert(&mut self, name: String, secret: Secret)
        ensures
            final(self)@ == old(self)@.insert(name@, secret@),
    {
        let ghost before = self.pairs@;
        self.pairs.push((name, secret));
        assert(self.pairs@.drop_last() =~= before);
    }

    /// The secret under `name`.
    pub fn get(&self, name: &str) -> (secret: Option<&Secret>)
        ensures
            match secret {
                Some(secret) => self@.contains_key(name@) && self@[name@] == secret@,
                None => !self@.contains_key(name@),
            },
    {
        let mut i: usize = self.pairs.len();
        assert(self.pairs@.take(i as int) =~= self.pairs@);
        while i > 0
            invariant
                i <= self.pairs.len(),
                self@.contains_key(name@) == named_texts(self.pairs@.take(i as int)).contains_key(
                    name@,
                ),
                self@.contains_key(name@) ==> self@[name@] == named_texts(
                    self.pairs@.take(i as int),
                )[name@],
            decreases i,
        {
            assert(self.pairs@.take(i as int).drop_last() =~= self.pairs@.take(i - 1));
            if same_text(self.pairs[i - 1].0.as_str(), name) {
                return Some(&self.pairs[i - 1].1);
            }
            i = i - 1;
        }
        None
    }

    /// The secrets that stand under none of `names`.
    pub fn without(&self, names: &Vec<String>) -> (rest: SecretFields)
        ensures
            rest@ == self@.remove_keys(texts(names@).to_set()),
    {
        let ghost listed = texts(names@).to_set();
        let mut rest: SecretFields = SecretFields::new();
        let mut i: usize = 0;
        assert(self.pairs@.take(0) =~= Seq::<(String, Secret)>::empty());
        assert(named_texts(self.pairs@.take(0)).remove_keys(listed) =~= Map::<
            Seq<char>,
            Seq<char>,
        >::empty());
        while i < self.pairs.len()
            invariant
                i <= self.pairs.len(),
                listed == texts(names@).to_set(),
                rest@ == named_texts(self.pairs@.take(i as int)).remove_keys(listed),
            decreases self.pairs.len() - i,
        {
            let ghost before = named_texts(self.pairs@.take(i as int));
            let ghost after = named_texts(self.pairs@.take(i + 1));
            let name: &String = &self.pairs[i].0;
            assert(self.pairs@.take(i + 1).drop_last() =~= self.pairs@.take(i as int));
            assert(after == before.insert(name@, self.pairs@[i as int].1@));
            if contains_name(names, name.as_str()) {
                assert(after.remove_keys(listed) =~= before.remove_keys(listed));
            } else {
                assert(after.remove_keys(listed) =~= before.remove_keys(listed).insert(
                    name@,
                    self.pairs@[i as int].1@,
                ));
                rest.insert(name.clone(), self.pairs[i].1.duplicate());
            }
            i = i + 1;
        }
        assert(self.pairs@.take(i as int) =~= self.pairs@);
        rest
    }
}

/// Whether `name` is one of `names`.
fn contains_name(names: &Vec<String>, name: &str) -> (found: bool)
    ensures
        found == texts(names@).to_set().contains(name@),
{
    let mut i: usize = 0;
    while i < names.len()
        invariant
            i <= names.len(),
            forall|k: int| 0 <= k < i ==> (#[trigger] names@[k])@ != name@,
        decreases names.len() - i,
    {
        if same_text(names[i].as_str(), name) {
            assert(texts(names@)[i as int] == name@);
            return true;
        }
        i = i + 1;
    }
    assert forall|k: int| 0 <= k < texts(names@).len() implies #[trigger] texts(names@)[k]
        != name@ by {
        assert(names@[k]@ != name@);
    }
    false
}

} // verus!
