//! Unix paths, which are bytes: all but the root and the dots is up to the user.

use vstd::prelude::*;
use vstd::utf8::{
    decode_utf8, encode_utf8, encode_utf8_decode_utf8, encode_utf8_valid_utf8, is_ascii_chars,
    is_ascii_chars_encode_utf8, valid_utf8,
};

verus! {

/// The byte `/`.
pub const SLASH: u8 = 47;

/// The byte `.`.
pub const DOT: u8 = 46;

/// A Unix path.
#[derive(Debug, Clone, PartialEq, Eq)]
pub struct UnixPath {
    bytes: Vec<u8>,
}

impl View for UnixPath {
    type V = Seq<u8>;

    closed spec fn view(&self) -> Seq<u8> {
        self.bytes@
    }
}

/// A path that may be missing.
pub open spec fn optional_path(path: Option<UnixPath>) -> Option<Seq<u8>> {
    match path {
        Some(path) => Some(path@),
        None => None,
    }
}

/// A borrowed path that may be missing.
pub open spec fn optional_path_ref(path: Option<&UnixPath>) -> Option<Seq<u8>> {
    match path {
        Some(path) => Some(path@),
        None => None,
    }
}

/// The text that stands for bytes that are not UTF-8, as `String::from_utf8_lossy`
/// gives it.
pub uninterp spec fn lossy_text(bytes: Seq<u8>) -> Seq<char>;

/// The text of bytes: what they encode, or something that stands for it.
pub open spec fn shown(bytes: Seq<u8>) -> Seq<char> {
    if valid_utf8(bytes) {
        decode_utf8(bytes)
    } else {
        lossy_text(bytes)
    }
}

/// `String::from_utf8_lossy`: the text that the bytes encode, or, if they encode
/// none, one that depends on the bytes alone.
#[verifier::external_body]
fn text_of_bytes(bytes: &Vec<u8>) -> (text: String)
    ensures
        valid_utf8(bytes@) ==> text@ == decode_utf8(bytes@),
        !valid_utf8(bytes@) ==> text@ == lossy_text(bytes@),
{
    String::from_utf8_lossy(bytes).into_owned()
}

/// A path that is written as text is shown as that text.
pub proof fn law_text_is_shown_as_it_is(text: Seq<char>)
    ensures
        shown(encode_utf8(text)) == text,
{
    encode_utf8_valid_utf8(text);
    encode_utf8_decode_utf8(text);
}

/// A path that is written in ASCII has one byte for each character.
pub proof fn law_ascii_path_is_its_characters(text: Seq<char>)
    requires
        is_ascii_chars(text),
    ensures
        encode_utf8(text) == Seq::new(text.len(), |i: int| text[i] as u8),
{
    is_ascii_chars_encode_utf8(text);
    assert(encode_utf8(text) =~= Seq::new(text.len(), |i: int| text[i] as u8));
}

/// The bytes `bytes[from..to]`.
fn slice_bytes(bytes: &Vec<u8>, from: usize, to: usize) -> (out: Vec<u8>)
    requires
        from <= to <= bytes.len(),
    ensures
        out@ == bytes@.subrange(from as int, to as int),
{
    let mut out: Vec<u8> = Vec::new();
    let mut i: usize = from;
    while i < to
        invariant
            from <= i <= to <= bytes.len(),
            out@ == bytes@.subrange(from as int, i as int),
        decreases to - i,
    {
        out.push(bytes[i]);
        assert(bytes@.subrange(from as int, i + 1) =~= bytes@.subrange(
            from as int,
            i as int,
        ).push(bytes@[i as int]));
        i = i + 1;
    }
    out
}

impl UnixPath {
    /// The path that is written as `text`.
    pub fn from_text(text: &str) -> (path: UnixPath)
        ensures
            path@ == encode_utf8(text@),
    {
        UnixPath { bytes: text.as_bytes_vec() }
    }

    /// The path of these bytes.
    pub fn from_bytes(bytes: Vec<u8>) -> (path: UnixPath)
        ensures
            path@ == bytes@,
    {
        UnixPath { bytes }
    }

    /// The bytes of the path.
    pub fn as_bytes(&self) -> (bytes: &Vec<u8>)
        ensures
            bytes@ == self@,
    {
        &self.bytes
    }

    /// The path as text.
    pub fn display(&self) -> (text: String)
        ensures
            text@ == shown(self@),
    {
        text_of_bytes(&self.bytes)
    }

    /// The same path again.
    pub fn duplicate(&self) -> (copy: UnixPath)
        ensures
            copy@ == self@,
    {
        let copy: Vec<u8> = slice_bytes(&self.bytes, 0, self.bytes.len());
        assert(copy@ =~= self.bytes@);
        UnixPath { bytes: copy }
    }
}

/// Another copy of a path that may be missing.
pub fn duplicate_path(path: &Option<UnixPath>) -> (copy: Option<UnixPath>)
    ensures
        optional_path(copy) == optional_path(*path),
{
    match path {
        Some(path) => Some(path.duplicate()),
        None => None,
    }
}

/// `path` starts at the root.
pub open spec fn is_absolute_path(path: Seq<u8>) -> bool {
    path.len() > 0 && path[0] == SLASH
}

/// Whether `path` starts at the root.
pub fn is_absolute(path: &UnixPath) -> (absolute: bool)
    ensures
        absolute == is_absolute_path(path@),
{
    let bytes: &Vec<u8> = &path.bytes;
    bytes.len() > 0 && bytes[0] == SLASH
}

/// `rest` taken from the directory `base` on. An absolute `rest` stands alone.
pub open spec fn joined_path(base: Seq<u8>, rest: Seq<u8>) -> Seq<u8> {
    if is_absolute_path(rest) {
        rest
    } else if base.len() == 0 || base.last() == SLASH {
        base + rest
    } else {
        base.push(SLASH) + rest
    }
}

/// Appends `rest` to the directory `base`.
pub fn join(base: &UnixPath, rest: &UnixPath) -> (path: UnixPath)
    ensures
        path@ == joined_path(base@, rest@),
{
    if is_absolute(rest) {
        return rest.duplicate();
    }
    let mut path: UnixPath = base.duplicate();
    if path.bytes.len() > 0 && path.bytes[path.bytes.len() - 1] != SLASH {
        path.bytes.push(SLASH);
    }
    let mut i: usize = 0;
    let ghost front = path.bytes@;
    assert(rest.bytes@.take(0) =~= Seq::<u8>::empty());
    assert(front + Seq::<u8>::empty() =~= front);
    while i < rest.bytes.len()
        invariant
            i <= rest.bytes.len(),
            path.bytes@ == front + rest.bytes@.take(i as int),
        decreases rest.bytes.len() - i,
    {
        path.bytes.push(rest.bytes[i]);
        assert(path.bytes@ =~= front + rest.bytes@.take(i + 1));
        i = i + 1;
    }
    assert(rest.bytes@.take(i as int) =~= rest.bytes@);
    path
}

/// The last position of `c` in `text`.
pub open spec fn last_position(text: Seq<u8>, c: u8) -> Option<nat>
    decreases text.len(),
{
    if text.len() == 0 {
        None
    } else if text.last() == c {
        Some((text.len() - 1) as nat)
    } else {
        last_position(text.drop_last(), c)
    }
}

/// The last position of `c` among the first `end` bytes.
fn find_last(bytes: &Vec<u8>, end: usize, c: u8) -> (at: Option<usize>)
    requires
        end <= bytes.len(),
    ensures
        match at {
            Some(at) => at < end && last_position(bytes@.take(end as int), c) == Some(at as nat),
            None => last_position(bytes@.take(end as int), c) is None,
        },
{
    let mut i: usize = end;
    while i > 0
        invariant
            i <= end <= bytes.len(),
            last_position(bytes@.take(end as int), c) == last_position(bytes@.take(i as int), c),
        decreases i,
    {
        assert(bytes@.take(i as int).drop_last() =~= bytes@.take(i - 1));
        if bytes[i - 1] == c {
            return Some(i - 1);
        }
        i = i - 1;
    }
    None
}

/// The last component of `path`. Empty components and `.` do not count.
pub open spec fn last_component(path: Seq<u8>) -> Option<Seq<u8>>
    decreases path.len(),
{
    match last_position(path, SLASH) {
        Some(at) if at < path.len() => {
            let name = path.skip(at as int + 1);
            if name.len() == 0 || name == seq![DOT] {
                last_component(path.take(at as int))
            } else {
                Some(name)
            }
        },
        _ => if path.len() == 0 || path == seq![DOT] {
            None
        } else {
            Some(path)
        },
    }
}

/// The file name of `path`: its last component, unless that is `..`.
pub open spec fn file_name_of(path: Seq<u8>) -> Option<Seq<u8>> {
    match last_component(path) {
        Some(name) if name != seq![DOT, DOT] => Some(name),
        _ => None,
    }
}

/// The file name of `path`, if it has one.
pub fn file_name(path: &UnixPath) -> (name: Option<UnixPath>)
    ensures
        match name {
            Some(name) => file_name_of(path@) == Some(name@),
            None => file_name_of(path@) is None,
        },
{
    let bytes: &Vec<u8> = &path.bytes;
    let mut end: usize = bytes.len();
    assert(bytes@.take(end as int) =~= bytes@);
    loop
        invariant
            end <= bytes.len(),
            bytes@ == path@,
            last_component(path@) == last_component(bytes@.take(end as int)),
        decreases end,
    {
        let ghost part = bytes@.take(end as int);
        let from: usize = match find_last(bytes, end, SLASH) {
            Some(at) => at + 1,
            None => 0,
        };
        let name: Vec<u8> = slice_bytes(bytes, from, end);
        assert(from > 0 ==> part.skip(from as int) =~= name@);
        assert(from == 0 ==> part =~= name@);
        if name.len() == 0 || (name.len() == 1 && name[0] == DOT) {
            assert(name@.len() == 1 ==> name@ =~= seq![DOT]);
            if from == 0 {
                return None;
            }
            assert(part.take(from - 1) =~= bytes@.take(from - 1));
            end = from - 1;
        } else if name.len() == 2 && name[0] == DOT && name[1] == DOT {
            assert(name@ =~= seq![DOT, DOT]);
            return None;
        } else {
            return Some(UnixPath { bytes: name });
        }
    }
}

/// The stem of a file name: what stands before its last dot, or all of it when
/// there is no dot but one in front.
pub open spec fn stem_of(name: Seq<u8>) -> Seq<u8> {
    match last_position(name, DOT) {
        Some(at) if at > 0 => name.take(at as int),
        _ => name,
    }
}

/// The stem of the file name of `path`.
pub open spec fn file_stem_of(path: Seq<u8>) -> Option<Seq<u8>> {
    match file_name_of(path) {
        Some(name) => Some(stem_of(name)),
        None => None,
    }
}

/// The stem of the file name of `path`, if it has one.
pub fn file_stem(path: &UnixPath) -> (stem: Option<UnixPath>)
    ensures
        match stem {
            Some(stem) => file_stem_of(path@) == Some(stem@),
            None => file_stem_of(path@) is None,
        },
{
    match file_name(path) {
        Some(name) => {
            let bytes: &Vec<u8> = &name.bytes;
            assert(bytes@.take(bytes@.len() as int) =~= bytes@);
            match find_last(bytes, bytes.len(), DOT) {
                Some(at) => if at > 0 {
                    assert(bytes@.subrange(0, at as int) =~= bytes@.take(at as int));
                    Some(UnixPath { bytes: slice_bytes(bytes, 0, at) })
                } else {
                    Some(name)
                },
                None => Some(name),
            }
        },
        None => None,
    }
}

/// How many bytes of `path` stand before its components: the root, or the
/// dot that makes it relative to the current directory.
pub open spec fn body_start(path: Seq<u8>) -> nat {
    if is_absolute_path(path) {
        1
    } else if path.len() > 0 && path[0] == DOT && (path.len() == 1 || path[1] == SLASH) {
        1
    } else {
        0
    }
}

/// Where the last component of `path` starts, if components start at `start`.
pub open spec fn last_start(path: Seq<u8>, start: nat) -> nat {
    match last_position(path, SLASH) {
        Some(at) if start <= at < path.len() => at + 1,
        _ => start,
    }
}

/// `path` without its last component.
pub open spec fn without_last(path: Seq<u8>, start: nat) -> Seq<u8> {
    let cut = last_start(path, start);
    if cut > start {
        path.take(cut - 1)
    } else {
        path.take(start as int)
    }
}

/// `path` without empty components and `.` at its end.
pub open spec fn tidy_end(path: Seq<u8>, start: nat) -> Seq<u8>
    decreases path.len(),
{
    if path.len() <= start {
        path
    } else {
        let name = path.skip(last_start(path, start) as int);
        if name.len() == 0 || name == seq![DOT] {
            tidy_end(without_last(path, start), start)
        } else {
            path
        }
    }
}

/// The directory that holds what `path` leads to. The root is in none, and
/// neither is the empty path.
pub open spec fn parent_of(path: Seq<u8>) -> Option<Seq<u8>> {
    let start = body_start(path);
    let tidy = tidy_end(path, start);
    if tidy.len() > start {
        Some(tidy_end(without_last(tidy, start), start))
    } else if start > 0 && !is_absolute_path(path) {
        Some(Seq::empty())
    } else {
        None
    }
}

/// The last position of a byte, if there is one, is inside.
proof fn lemma_last_position(text: Seq<u8>, c: u8)
    ensures
        last_position(text, c) matches Some(at) ==> at < text.len(),
    decreases text.len(),
{
    if text.len() > 0 {
        lemma_last_position(text.drop_last(), c);
    }
}

/// Where `path` ends without its last component.
fn end_without_last(bytes: &Vec<u8>, start: usize, end: usize) -> (cut: usize)
    requires
        start < end <= bytes.len(),
    ensures
        start <= cut < end,
        bytes@.take(cut as int) == without_last(bytes@.take(end as int), start as nat),
{
    proof {
        lemma_last_position(bytes@.take(end as int), SLASH);
    }
    let cut: usize = match find_last(bytes, end, SLASH) {
        Some(at) => if at >= start {
            at
        } else {
            start
        },
        None => start,
    };
    assert(bytes@.take(end as int).take(cut as int) =~= bytes@.take(cut as int));
    cut
}

/// Whether the last component counts for nothing.
fn ends_in_nothing(bytes: &Vec<u8>, start: usize, end: usize) -> (nothing: bool)
    requires
        start < end <= bytes.len(),
    ensures
        nothing == ({
            let path = bytes@.take(end as int);
            let name = path.skip(last_start(path, start as nat) as int);
            name.len() == 0 || name == seq![DOT]
        }),
{
    let ghost path = bytes@.take(end as int);
    let from: usize = match find_last(bytes, end, SLASH) {
        Some(at) => if at >= start {
            at + 1
        } else {
            start
        },
        None => start,
    };
    let ghost name = path.skip(from as int);
    assert(name == path.skip(last_start(path, start as nat) as int));
    if from == end {
        true
    } else if from + 1 == end && bytes[from] == DOT {
        assert(name =~= seq![DOT]);
        true
    } else {
        proof {
            if name == seq![DOT] {
                assert(name[0] == bytes@[from as int]);
            }
        }
        false
    }
}

/// Where `path` ends without empty components and `.` at its end.
fn tidy(bytes: &Vec<u8>, start: usize, end: usize) -> (tidy: usize)
    requires
        start <= end <= bytes.len(),
    ensures
        start <= tidy <= end,
        bytes@.take(tidy as int) == tidy_end(bytes@.take(end as int), start as nat),
{
    let mut at: usize = end;
    while at > start && ends_in_nothing(bytes, start, at)
        invariant
            start <= at <= end <= bytes.len(),
            tidy_end(bytes@.take(end as int), start as nat) == tidy_end(
                bytes@.take(at as int),
                start as nat,
            ),
        decreases at,
    {
        at = end_without_last(bytes, start, at);
    }
    at
}

/// The directory that holds what `path` leads to, if there is one.
pub fn parent(path: &UnixPath) -> (parent: Option<UnixPath>)
    ensures
        match parent {
            Some(parent) => parent_of(path@) == Some(parent@),
            None => parent_of(path@) is None,
        },
{
    let bytes: &Vec<u8> = &path.bytes;
    let absolute: bool = bytes.len() > 0 && bytes[0] == SLASH;
    let start: usize = if absolute {
        1
    } else if bytes.len() > 0 && bytes[0] == DOT && (bytes.len() == 1 || bytes[1] == SLASH) {
        1
    } else {
        0
    };
    assert(bytes@.take(bytes@.len() as int) =~= bytes@);
    let end: usize = tidy(bytes, start, bytes.len());
    if end > start {
        let cut: usize = end_without_last(bytes, start, end);
        let end: usize = tidy(bytes, start, cut);
        assert(bytes@.subrange(0, end as int) =~= bytes@.take(end as int));
        Some(UnixPath { bytes: slice_bytes(bytes, 0, end) })
    } else if start > 0 && !absolute {
        Some(UnixPath { bytes: Vec::new() })
    } else {
        None
    }
}

} // verus!
