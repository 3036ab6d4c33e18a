//! From the group tree of a KeePass database to a flat list of entries.

use vstd::prelude::*;

use crate::entry::{copy_strings, entry_models, Entry, EntryModel};
use crate::secret::{Secret, SecretFields};
use crate::text::{join3, texts};
use crate::totp::{settings_of, Totp};

verus! {

/// A group of a KeePass database.
#[derive(Debug)]
pub struct KdbxGroup {
    pub name: String,
    pub children: Vec<KdbxNode>,
}

/// What a group holds.
#[derive(Debug)]
pub enum KdbxNode {
    Group(KdbxGroup),
    Entry(KdbxEntry),
}

/// An entry as the database holds it.
#[derive(Debug)]
pub struct KdbxEntry {
    pub uuid: String,
    pub tags: Vec<String>,
    /// The text fields of the entry, by their names in the database.
    pub fields: SecretFields,
}

/// The text under a name, if there is one.
pub open spec fn field_of(fields: Map<Seq<char>, Seq<char>>, name: Seq<char>) -> Option<Seq<char>> {
    if fields.contains_key(name) {
        Some(fields[name])
    } else {
        None
    }
}

/// The text under a name, or nothing.
pub open spec fn plain_field(fields: Map<Seq<char>, Seq<char>>, name: Seq<char>) -> Seq<char> {
    if fields.contains_key(name) {
        fields[name]
    } else {
        Seq::empty()
    }
}

/// The names of the fields that every entry may have.
pub open spec fn standard_names() -> Seq<Seq<char>> {
    seq!["Title"@, "UserName"@, "URL"@, "Password"@, "Notes"@, "otp"@]
}

/// The entry that a database entry in the group `group` stands for.
pub open spec fn entry_from(entry: KdbxEntry, group: Seq<char>) -> EntryModel {
    let fields = entry.fields@;
    EntryModel {
        uuid: entry.uuid@,
        title: plain_field(fields, "Title"@),
        username: plain_field(fields, "UserName"@),
        url: plain_field(fields, "URL"@),
        group,
        tags: texts(entry.tags@),
        password: field_of(fields, "Password"@),
        notes: field_of(fields, "Notes"@),
        string_fields: fields.remove_keys(standard_names().to_set()),
        totp: match field_of(fields, "otp"@) {
            Some(uri) => settings_of(uri),
            None => None,
        },
    }
}

/// The path of the group `name` inside the group at `path`. The root has none.
pub open spec fn group_path(path: Seq<char>, name: Seq<char>) -> Seq<char> {
    if path.len() == 0 {
        name
    } else {
        path + "/"@ + name
    }
}

/// The entries under a node of the tree, in the order of the tree.
pub open spec fn entries_under(node: KdbxNode, path: Seq<char>) -> Seq<EntryModel>
    decreases node,
{
    match node {
        KdbxNode::Entry(entry) => seq![entry_from(entry, path)],
        KdbxNode::Group(group) => entries_among(group.children@, group_path(path, group.name@)),
    }
}

/// The entries under a list of nodes, in the order of the tree.
pub open spec fn entries_among(nodes: Seq<KdbxNode>, path: Seq<char>) -> Seq<EntryModel>
    decreases nodes,
{
    if nodes.len() == 0 {
        Seq::empty()
    } else {
        entries_among(nodes.drop_last(), path) + entries_under(nodes.last(), path)
    }
}

/// The text under a name, or nothing.
fn copy_plain(fields: &SecretFields, name: &str) -> (text: String)
    ensures
        text@ == plain_field(fields@, name@),
{
    match fields.get(name) {
        Some(text) => text.expose_secret().to_owned(),
        None => {
            let none: String = String::new();
            assert(none@ =~= Seq::<char>::empty());
            none
        },
    }
}

/// The secret under a name, if there is one.
fn copy_secret(fields: &SecretFields, name: &str) -> (secret: Option<Secret>)
    ensures
        crate::secret::optional_text(secret) == field_of(fields@, name@),
{
    match fields.get(name) {
        Some(secret) => Some(secret.duplicate()),
        None => None,
    }
}

/// The names of the fields that every entry may have.
fn list_standard_names() -> (names: Vec<String>)
    ensures
        texts(names@) == standard_names(),
{
    let mut names: Vec<String> = Vec::new();
    names.push("Title".to_owned());
    names.push("UserName".to_owned());
    names.push("URL".to_owned());
    names.push("Password".to_owned());
    names.push("Notes".to_owned());
    names.push("otp".to_owned());
    assert(texts(names@) =~= standard_names());
    names
}

impl KdbxEntry {
    /// The entry that this one stands for in the group `group`.
    pub fn to_entry(&self, group: &str) -> (entry: Entry)
        ensures
            entry@ == entry_from(*self, group@),
    {
        let fields: &SecretFields = &self.fields;
        let totp: Option<Totp> = match fields.get("otp") {
            Some(uri) => Totp::from_uri(uri.expose_secret().to_owned()),
            None => None,
        };
        Entry {
            uuid: self.uuid.clone(),
            title: copy_plain(fields, "Title"),
            username: copy_plain(fields, "UserName"),
            url: copy_plain(fields, "URL"),
            group: group.to_owned(),
            tags: copy_strings(&self.tags),
            password: copy_secret(fields, "Password"),
            notes: copy_secret(fields, "Notes"),
            string_fields: fields.without(&list_standard_names()),
            totp,
        }
    }
}

/// Appends the entries under a node to `out`.
fn walk_node(node: &KdbxNode, path: &str, out: &mut Vec<Entry>)
    ensures
        entry_models(final(out)@) == entry_models(old(out)@) + entries_under(*node, path@),
    decreases node,
{
    match node {
        KdbxNode::Entry(entry) => {
            let ghost before = entry_models(out@);
            let flat: Entry = entry.to_entry(path);
            let ghost model = flat@;
            out.push(flat);
            assert(entry_models(out@) =~= before + seq![model]);
        },
        KdbxNode::Group(group) => {
            if path.is_empty() {
                walk_nodes(&group.children, group.name.as_str(), out);
            } else {
                let inner: String = join3(path, "/", group.name.as_str());
                walk_nodes(&group.children, inner.as_str(), out);
            }
        },
    }
}

/// Appends the entries under a list of nodes to `out`.
fn walk_nodes(nodes: &Vec<KdbxNode>, path: &str, out: &mut Vec<Entry>)
    ensures
        entry_models(final(out)@) == entry_models(old(out)@) + entries_among(nodes@, path@),
    decreases nodes,
{
    let ghost before = entry_models(out@);
    let mut i: usize = 0;
    assert(nodes@.take(0) =~= Seq::<KdbxNode>::empty());
    assert(before + Seq::<EntryModel>::empty() =~= before);
    while i < nodes.len()
        invariant
            i <= nodes.len(),
            entry_models(out@) == before + entries_among(nodes@.take(i as int), path@),
        decreases nodes.len() - i,
    {
        assert(nodes@.take(i + 1).drop_last() =~= nodes@.take(i as int));
        walk_node(&nodes[i], path, out);
        assert(entry_models(out@) =~= before + entries_among(nodes@.take(i + 1), path@));
        i = i + 1;
    }
    assert(nodes@.take(i as int) =~= nodes@);
}

/// Flattens the group tree below `root`. Entries keep the order of the tree, and
/// each carries the path of its group.
pub fn walk_group(root: &KdbxGroup) -> (entries: Vec<Entry>)
    ensures
        entry_models(entries@) == entries_among(root.children@, Seq::empty()),
{
    let mut entries: Vec<Entry> = Vec::new();
    let top: String = String::new();
    assert(top@ =~= Seq::<char>::empty());
    assert(entry_models(entries@) =~= Seq::<EntryModel>::empty());
    walk_nodes(&root.children, top.as_str(), &mut entries);
    assert(entry_models(entries@) =~= entries_among(root.children@, Seq::empty()));
    entries
}

/// The number of entries under a node of the tree.
pub open spec fn count_under(node: KdbxNode) -> nat
    decreases node,
{
    match node {
        KdbxNode::Entry(_) => 1,
        KdbxNode::Group(group) => count_among(group.children@),
    }
}

/// The number of entries under a list of nodes.
pub open spec fn count_among(nodes: Seq<KdbxNode>) -> nat
    decreases nodes,
{
    if nodes.len() == 0 {
        0
    } else {
        count_among(nodes.drop_last()) + count_under(nodes.last())
    }
}

/// Every entry under a node comes out.
proof fn lemma_node_kept(node: KdbxNode, path: Seq<char>)
    ensures
        entries_under(node, path).len() == count_under(node),
    decreases node,
{
    if let KdbxNode::Group(group) = node {
        law_flattening_keeps_every_entry(group.children@, group_path(path, group.name@));
    }
}

/// Flattening keeps every entry of the tree, once.
pub proof fn law_flattening_keeps_every_entry(nodes: Seq<KdbxNode>, path: Seq<char>)
    ensures
        entries_among(nodes, path).len() == count_among(nodes),
    decreases nodes,
{
    if nodes.len() > 0 {
        law_flattening_keeps_every_entry(nodes.drop_last(), path);
        lemma_node_kept(nodes.last(), path);
    }
}

} // verus!
