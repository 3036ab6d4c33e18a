//! What the parts of a path are. A slash is the byte 47 and a full stop the byte 46.

use vstd::prelude::*;
use vstd::utf8::{decode_utf8, valid_utf8};

use crate::paths::{
    body_start, file_name_of, file_stem_of, is_absolute_path, joined_path, last_component,
    last_position, last_start, lossy_text, parent_of, shown, stem_of, tidy_end, without_last,
};

verus! {

/// The byte does not occur.
pub open spec fn free_of(bytes: Seq<u8>, c: u8) -> bool {
    forall|i: int| 0 <= i < bytes.len() ==> #[trigger] bytes[i] != c
}

/// A component: something that is not empty, has no slash and is not a full stop
/// alone.
pub open spec fn is_component(name: Seq<u8>) -> bool {
    name.len() > 0 && free_of(name, 47) && name != seq![46u8]
}

/// A path that is text is shown as that text, and any other as far as it is.
pub proof fn law_paths_are_shown(path: Seq<u8>)
    ensures
        valid_utf8(path) ==> shown(path) == decode_utf8(path),
        !valid_utf8(path) ==> shown(path) == lossy_text(path),
{
}

/// A path is absolute if it begins with a slash.
pub proof fn law_absolute_paths(path: Seq<u8>)
    ensures
        is_absolute_path(seq![47u8] + path),
        is_absolute_path(path) ==> path == seq![47u8] + path.skip(1),
{
    if is_absolute_path(path) {
        assert(path =~= seq![47u8] + path.skip(1));
    }
}

/// An absolute path replaces what it is joined to. Any other goes behind it, with
/// one slash between them unless there is nothing before it or a slash already.
pub proof fn law_joining(base: Seq<u8>, rest: Seq<u8>, c: u8)
    ensures
        joined_path(base, seq![47u8] + rest) == seq![47u8] + rest,
        !is_absolute_path(rest) ==> {
            &&& joined_path(Seq::empty(), rest) == rest
            &&& joined_path(base.push(47), rest) == base.push(47) + rest
            &&& c != 47 ==> joined_path(base.push(c), rest) == base.push(c) + seq![47u8] + rest
        },
{
    assert(Seq::<u8>::empty() + rest =~= rest);
    assert(base.push(c).push(47) =~= base.push(c) + seq![47u8]);
    if c != 47 && !is_absolute_path(rest) {
        assert(base.push(c).push(47) + rest == base.push(c) + seq![47u8] + rest);
    }
}

/// The last position of a byte is where it occurs and after which it does not.
pub proof fn law_last_position(bytes: Seq<u8>, c: u8)
    ensures
        match last_position(bytes, c) {
            Some(at) => at < bytes.len() && bytes[at as int] == c && forall|i: int|
                at < i < bytes.len() ==> #[trigger] bytes[i] != c,
            None => free_of(bytes, c),
        },
    decreases bytes.len(),
{
    if bytes.len() > 0 && bytes.last() != c {
        let before = bytes.drop_last();
        law_last_position(before, c);
        assert forall|i: int| 0 <= i < before.len() && before[i] != c implies #[trigger] bytes[i]
            != c by {
            assert(before[i] == bytes[i]);
        }
        assert(bytes[bytes.len() - 1] == bytes.last());
        match last_position(before, c) {
            Some(at) => {
                assert(before[at as int] == bytes[at as int]);
                assert forall|i: int| at < i < bytes.len() implies #[trigger] bytes[i] != c by {
                    if i < before.len() {
                        assert(before[i] == bytes[i]);
                    }
                }
            },
            None => {
                assert forall|i: int| 0 <= i < bytes.len() implies #[trigger] bytes[i] != c by {
                    if i < before.len() {
                        assert(before[i] == bytes[i]);
                    }
                }
            },
        }
    }
}

/// The last position of a byte that stands before what is free of it.
proof fn lemma_last_before(front: Seq<u8>, c: u8, name: Seq<u8>)
    requires
        free_of(name, c),
    ensures
        last_position(front + seq![c] + name, c) == Some(front.len()),
        last_position(name, c) is None,
        (front + seq![c] + name).skip(front.len() as int + 1) == name,
        (front + seq![c] + name).take(front.len() as int) == front,
{
    let whole = front + seq![c] + name;
    law_last_position(whole, c);
    law_last_position(name, c);
    assert(whole[front.len() as int] == c);
    assert forall|i: int| front.len() < i < whole.len() implies #[trigger] whole[i] != c by {
        assert(whole[i] == name[i - front.len() - 1]);
    }
    assert(whole.skip(front.len() as int + 1) =~= name);
    assert(whole.take(front.len() as int) =~= front);
}

/// A slash at the end, and a full stop behind a slash at the end, mean nothing.
proof fn lemma_end_means_nothing(path: Seq<u8>)
    ensures
        last_component(path + seq![47u8]) == last_component(path),
        last_component(path + seq![47u8, 46u8]) == last_component(path),
{
    let none = Seq::<u8>::empty();
    lemma_last_before(path, 47, none);
    assert(path + seq![47u8] + none =~= path + seq![47u8]);
    lemma_last_before(path, 47, seq![46u8]);
    assert(path + seq![47u8] + seq![46u8] =~= path + seq![47u8, 46u8]);
}

/// The name of a file is the last component of its path, unless that leads upwards.
/// A slash at the end changes nothing, and neither does a full stop behind it.
pub proof fn law_file_names(dir: Seq<u8>, name: Seq<u8>)
    ensures
        is_component(name) && name != seq![46u8, 46u8] ==> {
            &&& file_name_of(dir + seq![47u8] + name) == Some(name)
            &&& file_name_of(name) == Some(name)
        },
        file_name_of(dir + seq![47u8, 46u8, 46u8]) is None,
        file_name_of(seq![46u8, 46u8]) is None,
        file_name_of(seq![46u8]) is None,
        file_name_of(Seq::empty()) is None,
        file_name_of(dir + seq![47u8]) == file_name_of(dir),
        file_name_of(dir + seq![47u8, 46u8]) == file_name_of(dir),
{
    lemma_end_means_nothing(dir);
    if is_component(name) {
        lemma_last_before(dir, 47, name);
    }
    let (up, here) = (seq![46u8, 46u8], seq![46u8]);
    assert(up.len() == 2 && here.len() == 1);
    lemma_last_before(dir, 47, up);
    lemma_last_before(dir, 47, here);
    assert(dir + seq![47u8] + up =~= dir + seq![47u8, 46u8, 46u8]);
    assert(last_position(Seq::<u8>::empty(), 47) is None);
}

/// The stem of a file name is what stands before its last full stop, unless that is
/// its first byte, and the whole name if it has none.
pub proof fn law_stems(front: Seq<u8>, end: Seq<u8>, path: Seq<u8>)
    requires
        free_of(end, 46),
    ensures
        stem_of(end) == end,
        stem_of(front + seq![46u8] + end) == if front.len() > 0 {
            front
        } else {
            seq![46u8] + end
        },
        match file_name_of(path) {
            Some(name) => file_stem_of(path) == Some(stem_of(name)),
            None => file_stem_of(path) is None,
        },
{
    lemma_last_before(front, 46, end);
    if front.len() == 0 {
        assert(front + seq![46u8] + end =~= seq![46u8] + end);
    }
}

/// A slash at the end, and a full stop behind a slash at the end, are tidied away.
proof fn lemma_tidied(path: Seq<u8>, start: nat)
    requires
        path.len() >= start,
    ensures
        tidy_end(path + seq![47u8], start) == tidy_end(path, start),
        tidy_end(path + seq![47u8, 46u8], start) == tidy_end(path, start),
{
    let none = Seq::<u8>::empty();
    let slash = path + seq![47u8];
    lemma_last_before(path, 47, none);
    assert(path + seq![47u8] + none =~= slash);
    assert(last_start(slash, start) == path.len() + 1);
    assert(slash.skip(path.len() as int + 1) =~= none);
    assert(slash.take(path.len() as int) =~= path);
    assert(without_last(slash, start) == path);
    let stop = path + seq![47u8, 46u8];
    lemma_last_before(path, 47, seq![46u8]);
    assert(path + seq![47u8] + seq![46u8] =~= stop);
    assert(last_start(stop, start) == path.len() + 1);
    assert(stop.skip(path.len() as int + 1) =~= seq![46u8]);
    assert(stop.take(path.len() as int) =~= path);
    assert(without_last(stop, start) == path);
}

/// What goes behind a slash leaves the beginning of a path as it is.
proof fn lemma_same_start(path: Seq<u8>, rest: Seq<u8>)
    requires
        path.len() > 0,
    ensures
        body_start(path + seq![47u8] + rest) == body_start(path),
        body_start(path) <= 1,
{
    let longer = path + seq![47u8] + rest;
    assert(longer[0] == path[0]);
    if path.len() > 1 {
        assert(longer[1] == path[1]);
    } else {
        assert(longer[1] == 47);
    }
}

/// The directory of a path is what stands before its last component; slashes and
/// full stops between the two, or at the end, mean nothing.
pub proof fn law_parents(dir: Seq<u8>, name: Seq<u8>)
    requires
        dir.len() > 0,
        is_component(name),
    ensures
        dir.last() != 47 && !(dir.len() > 1 && dir.last() == 46 && dir[dir.len() - 2] == 47)
            ==> parent_of(dir + seq![47u8] + name) == Some(dir),
        parent_of(dir + seq![47u8] + seq![47u8] + name) == parent_of(dir + seq![47u8] + name),
        parent_of(dir + seq![47u8, 46u8] + seq![47u8] + name) == parent_of(
            dir + seq![47u8] + name,
        ),
        parent_of(dir + seq![47u8]) == parent_of(dir),
        parent_of(dir + seq![47u8, 46u8]) == parent_of(dir),
{
    let start = body_start(dir);
    let none = Seq::<u8>::empty();
    lemma_same_start(dir, none);
    assert(dir + seq![47u8] + none =~= dir + seq![47u8]);
    lemma_same_start(dir, seq![46u8]);
    assert(dir + seq![47u8] + seq![46u8] =~= dir + seq![47u8, 46u8]);
    lemma_tidied(dir, start);
    assert(is_absolute_path(dir + seq![47u8]) == is_absolute_path(dir));
    assert(is_absolute_path(dir + seq![47u8, 46u8]) == is_absolute_path(dir));
    lemma_named(dir, name);
    let (slash, stop) = (dir + seq![47u8], dir + seq![47u8, 46u8]);
    lemma_named(slash, name);
    lemma_named(stop, name);
    if dir.last() != 47 && !(dir.len() > 1 && dir.last() == 46 && dir[dir.len() - 2] == 47) {
        lemma_tidy(dir);
    }
}

/// The directory of a path that ends in a component, before it is tidied.
proof fn lemma_named(dir: Seq<u8>, name: Seq<u8>)
    requires
        dir.len() > 0,
        is_component(name),
    ensures
        parent_of(dir + seq![47u8] + name) == Some(tidy_end(dir, body_start(dir))),
{
    let path = dir + seq![47u8] + name;
    let start = body_start(dir);
    lemma_same_start(dir, name);
    lemma_last_before(dir, 47, name);
    assert(last_start(path, start) == dir.len() + 1);
    assert(tidy_end(path, start) == path);
    assert(without_last(path, start) == dir);
}

/// A path that ends in a component is tidy.
proof fn lemma_tidy(dir: Seq<u8>)
    requires
        dir.len() > 0,
        dir.last() != 47,
        !(dir.len() > 1 && dir.last() == 46 && dir[dir.len() - 2] == 47),
    ensures
        tidy_end(dir, body_start(dir)) == dir,
{
    let start = body_start(dir);
    law_last_position(dir, 47);
    if dir.len() > start {
        let cut = last_start(dir, start);
        let name = dir.skip(cut as int);
        assert(cut <= dir.len());
        if cut == dir.len() {
            assert(dir[dir.len() - 1] == 47);
        }
        assert(name.len() > 0);
        if name == seq![46u8] {
            assert(name.last() == dir.last());
            assert(name.len() == 1);
            assert(cut == dir.len() - 1);
        }
    }
}

/// The directory of what stands at the root is the root, and that of a name alone
/// is nothing. The root and the empty path have none.
pub proof fn law_parents_of_names(name: Seq<u8>)
    ensures
        is_component(name) ==> {
            &&& parent_of(seq![47u8] + name) == Some(seq![47u8])
            &&& parent_of(name) == Some(Seq::<u8>::empty())
        },
        parent_of(seq![46u8]) == Some(Seq::<u8>::empty()),
        parent_of(seq![47u8]) is None,
        parent_of(Seq::empty()) is None,
{
    let none = Seq::<u8>::empty();
    assert(last_position(none, 47) is None);
    assert(tidy_end(none, 0) == none);
    assert(tidy_end(seq![46u8], 1) == seq![46u8]);
    assert(tidy_end(seq![47u8], 1) == seq![47u8]);
    if is_component(name) {
        lemma_last_before(none, 47, name);
        let path = seq![47u8] + name;
        assert(none + seq![47u8] + name =~= path);
        assert(last_start(path, 1) == 1);
        assert(path.skip(1) =~= name);
        assert(path.take(1) =~= seq![47u8]);
        assert(tidy_end(path, 1) == path);
        assert(without_last(path, 1) == seq![47u8]);
        assert(name.len() == 1 ==> name =~= seq![name[0]]);
        assert(body_start(name) == 0);
        assert(last_start(name, 0) == 0);
        assert(name.skip(0) =~= name);
        assert(name.take(0) =~= none);
        assert(tidy_end(name, 0) == name);
        assert(without_last(name, 0) == none);
    }
}

} // verus!
