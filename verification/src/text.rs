//! Text as sequences of characters: the string operations that the rest of the
//! library is built from, each with its exact meaning.

use core::str::Chars;

use vstd::prelude::*;
use vstd::std_specs::iter::IteratorSpec;

verus! {

// ---------------------------------------------------------------- building strings

/// `String::push` puts one character behind the text it already holds.
pub assume_specification[ String::push ](text: &mut String, c: char)
    ensures
        final(text)@ == old(text)@.push(c),
;

/// The characters of `text`, in order.
pub fn chars_of(text: &str) -> (out: Vec<char>)
    ensures
        out@ == text@,
{
    let mut out: Vec<char> = Vec::new();
    for c in it: text.chars()
        invariant
            it.seq() == text@,
            out@ == text@.take(it.index()),
    {
        out.push(c);
    }
    assert(out@ =~= text@);
    out
}

/// The characters `chars[from..to]` as a string.
pub fn slice_text(chars: &Vec<char>, from: usize, to: usize) -> (out: String)
    requires
        from <= to <= chars.len(),
    ensures
        out@ == chars@.subrange(from as int, to as int),
{
    let mut out: String = String::new();
    let mut i: usize = from;
    while i < to
        invariant
            from <= i <= to <= chars.len(),
            out@ == chars@.subrange(from as int, i as int),
        decreases to - i,
    {
        out.push(chars[i]);
        assert(chars@.subrange(from as int, i + 1) =~= chars@.subrange(from as int, i as int).push(
            chars@[i as int],
        ));
        i = i + 1;
    }
    out
}

/// `a` followed by `b`.
pub fn join2(a: &str, b: &str) -> (out: String)
    ensures
        out@ == a@ + b@,
{
    let mut out: String = a.to_owned();
    out.append(b);
    out
}

/// `a`, `b` and `c`, one behind the other.
pub fn join3(a: &str, b: &str, c: &str) -> (out: String)
    ensures
        out@ == a@ + b@ + c@,
{
    let mut out: String = a.to_owned();
    out.append(b);
    out.append(c);
    out
}

/// Whether two texts hold the same characters. Neither is copied, as either may
/// be secret.
pub fn same_text(a: &str, b: &str) -> (same: bool)
    ensures
        same == (a@ == b@),
{
    let mut right: Chars<'_> = b.chars();
    assert(b@.skip(0) =~= b@);
    for c in it: a.chars()
        invariant
            it.seq() == a@,
            it.index() <= b@.len(),
            right.remaining() == b@.skip(it.index()),
            a@.take(it.index()) == b@.take(it.index()),
    {
        let ghost i = it.index();
        match right.next() {
            Some(d) => {
                assert(b@.skip(i).drop_first() =~= b@.skip(i + 1));
                if c != d {
                    assert(a@[i] != b@[i]);
                    return false;
                }
                assert(a@.take(i + 1) =~= a@.take(i).push(c));
                assert(b@.take(i + 1) =~= b@.take(i).push(d));
            },
            None => {
                return false;
            },
        }
    }
    assert(a@.take(a@.len() as int) =~= a@);
    match right.next() {
        Some(_) => false,
        None => {
            assert(b@.take(a@.len() as int) =~= b@);
            true
        },
    }
}

// ---------------------------------------------------------------- prefixes

/// `text` begins with `prefix`.
pub open spec fn has_prefix(text: Seq<char>, prefix: Seq<char>) -> bool {
    prefix.len() <= text.len() && text.take(prefix.len() as int) == prefix
}

/// What follows `prefix` in `text`, if `text` begins with it.
pub open spec fn after_prefix(text: Seq<char>, prefix: Seq<char>) -> Option<Seq<char>> {
    if has_prefix(text, prefix) {
        Some(text.skip(prefix.len() as int))
    } else {
        None
    }
}

/// Splits `prefix` off the front of `text`.
pub fn strip_prefix(text: &str, prefix: &str) -> (rest: Option<String>)
    ensures
        match rest {
            Some(rest) => after_prefix(text@, prefix@) == Some(rest@),
            None => after_prefix(text@, prefix@) is None,
        },
{
    let chars: Vec<char> = chars_of(text);
    let head: Vec<char> = chars_of(prefix);
    if head.len() > chars.len() {
        return None;
    }
    let mut i: usize = 0;
    while i < head.len()
        invariant
            i <= head.len() <= chars.len(),
            chars@ == text@,
            head@ == prefix@,
            forall|k: int| 0 <= k < i ==> chars@[k] == head@[k],
        decreases head.len() - i,
    {
        if chars[i] != head[i] {
            assert(text@.take(prefix@.len() as int)[i as int] != prefix@[i as int]);
            return None;
        }
        i = i + 1;
    }
    assert(chars@.take(head@.len() as int) =~= head@);
    assert(chars@.subrange(head@.len() as int, chars@.len() as int) =~= chars@.skip(
        head@.len() as int,
    ));
    Some(slice_text(&chars, head.len(), chars.len()))
}

// ---------------------------------------------------------------- white space

/// The characters with Unicode's `White_Space` property.
pub open spec fn is_space(c: char) -> bool {
    let n = c as u32;
    ||| 0x9 <= n <= 0xd
    ||| n == 0x20
    ||| n == 0x85
    ||| n == 0xa0
    ||| n == 0x1680
    ||| 0x2000 <= n <= 0x200a
    ||| n == 0x2028
    ||| n == 0x2029
    ||| n == 0x202f
    ||| n == 0x205f
    ||| n == 0x3000
}

/// Whether `c` is white space.
pub fn is_space_char(c: char) -> (space: bool)
    ensures
        space == is_space(c),
{
    let n: u32 = c as u32;
    (0x9 <= n && n <= 0xd) || n == 0x20 || n == 0x85 || n == 0xa0 || n == 0x1680 || (0x2000 <= n
        && n <= 0x200a) || n == 0x2028 || n == 0x2029 || n == 0x202f || n == 0x205f || n == 0x3000
}

/// `text` without the white space in front.
pub open spec fn trim_front(text: Seq<char>) -> Seq<char>
    decreases text.len(),
{
    if text.len() > 0 && is_space(text[0]) {
        trim_front(text.drop_first())
    } else {
        text
    }
}

/// `text` without the white space behind.
pub open spec fn trim_back(text: Seq<char>) -> Seq<char>
    decreases text.len(),
{
    if text.len() > 0 && is_space(text.last()) {
        trim_back(text.drop_last())
    } else {
        text
    }
}

/// `text` without the white space at either end.
pub open spec fn trimmed(text: Seq<char>) -> Seq<char> {
    trim_back(trim_front(text))
}

/// Cuts the white space off both ends of `text`.
pub fn trim(text: &str) -> (out: String)
    ensures
        out@ == trimmed(text@),
{
    let chars: Vec<char> = chars_of(text);
    let mut from: usize = 0;
    assert(chars@.skip(0) =~= chars@);
    while from < chars.len() && is_space_char(chars[from])
        invariant
            from <= chars.len(),
            trim_front(chars@) == trim_front(chars@.skip(from as int)),
        decreases chars.len() - from,
    {
        assert(chars@.skip(from as int).drop_first() =~= chars@.skip(from + 1));
        from = from + 1;
    }
    let ghost front = chars@.skip(from as int);
    assert(trim_front(chars@) == front);
    let mut to: usize = chars.len();
    assert(chars@.subrange(from as int, to as int) =~= front);
    while to > from && is_space_char(chars[to - 1])
        invariant
            from <= to <= chars.len(),
            trim_back(front) == trim_back(chars@.subrange(from as int, to as int)),
        decreases to,
    {
        assert(chars@.subrange(from as int, to as int).drop_last() =~= chars@.subrange(
            from as int,
            to - 1,
        ));
        to = to - 1;
    }
    slice_text(&chars, from, to)
}

/// Whether nothing but white space is in `text`.
pub fn is_blank(text: &str) -> (blank: bool)
    ensures
        blank == (trimmed(text@).len() == 0),
{
    trim(text).as_str().is_empty()
}

/// The words of `text`: its longest runs of characters that are not white space.
pub open spec fn words(text: Seq<char>) -> Seq<Seq<char>>
    decreases text.len(),
{
    if text.len() == 0 {
        Seq::empty()
    } else {
        let before = words(text.drop_last());
        let c = text.last();
        if is_space(c) {
            before
        } else if text.len() > 1 && !is_space(text[text.len() - 2]) {
            before.drop_last().push(before.last().push(c))
        } else {
            before.push(seq![c])
        }
    }
}

/// The views of a list of strings.
pub open spec fn texts(list: Seq<String>) -> Seq<Seq<char>> {
    list.map_values(|s: String| s@)
}

/// Splits `text` at its white space.
pub fn split_words(text: &str) -> (out: Vec<String>)
    ensures
        texts(out@) == words(text@),
{
    let chars: Vec<char> = chars_of(text);
    let mut out: Vec<String> = Vec::new();
    let mut current: String = String::new();
    let mut i: usize = 0;
    assert(chars@.take(0) =~= Seq::<char>::empty());
    while i < chars.len()
        invariant
            i <= chars.len(),
            (current@.len() > 0) == (i > 0 && !is_space(chars@[i - 1])),
            words(chars@.take(i as int)) == if current@.len() > 0 {
                texts(out@).push(current@)
            } else {
                texts(out@)
            },
        decreases chars.len() - i,
    {
        let c: char = chars[i];
        let ghost before = chars@.take(i as int);
        let ghost after = chars@.take(i + 1);
        let ghost done = texts(out@);
        assert(after.drop_last() =~= before);
        assert(after.last() == c);
        if is_space_char(c) {
            if !current.as_str().is_empty() {
                let ghost word = current@;
                out.push(current);
                assert(texts(out@) =~= done.push(word));
                current = String::new();
            }
        } else {
            proof {
                if current@.len() > 0 {
                    assert(done.push(current@).drop_last() =~= done);
                    assert(after[after.len() - 2] == chars@[i - 1]);
                } else {
                    assert(current@.push(c) =~= seq![c]);
                    if i > 0 {
                        assert(after[after.len() - 2] == chars@[i - 1]);
                    }
                }
            }
            current.push(c);
        }
        i = i + 1;
    }
    assert(chars@.take(i as int) =~= chars@);
    if !current.as_str().is_empty() {
        let ghost word = current@;
        let ghost done = texts(out@);
        out.push(current);
        assert(texts(out@) =~= done.push(word));
    }
    out
}

/// The texts of a list, with `separator` between neighbours.
pub open spec fn joined(list: Seq<Seq<char>>, separator: Seq<char>) -> Seq<char>
    decreases list.len(),
{
    if list.len() == 0 {
        Seq::empty()
    } else if list.len() == 1 {
        list[0]
    } else {
        joined(list.drop_last(), separator) + separator + list.last()
    }
}

/// Joins the texts of a list, with `separator` between neighbours.
pub fn join_texts(list: &Vec<String>, separator: &str) -> (out: String)
    ensures
        out@ == joined(texts(list@), separator@),
{
    let ghost all = texts(list@);
    let mut out: String = String::new();
    let mut i: usize = 0;
    assert(all.take(0) =~= Seq::<Seq<char>>::empty());
    while i < list.len()
        invariant
            i <= list.len(),
            all == texts(list@),
            out@ == joined(all.take(i as int), separator@),
        decreases list.len() - i,
    {
        assert(all.take(i + 1).drop_last() =~= all.take(i as int));
        assert(all.take(i + 1).last() == list@[i as int]@);
        if i > 0 {
            out.append(separator);
        } else {
            assert(out@ + list@[0]@ =~= list@[0]@);
        }
        out.append(list[i].as_str());
        i = i + 1;
    }
    assert(all.take(i as int) =~= all);
    out
}

/// The text of a string that may be missing.
pub open spec fn optional_string(text: Option<String>) -> Option<Seq<char>> {
    match text {
        Some(text) => Some(text@),
        None => None,
    }
}

/// The text of a borrowed string that may be missing.
pub open spec fn optional_str(text: Option<&str>) -> Option<Seq<char>> {
    match text {
        Some(text) => Some(text@),
        None => None,
    }
}

/// The borrowed text of a string that may be missing.
pub fn borrowed(text: &Option<String>) -> (borrowed: Option<&str>)
    ensures
        optional_str(borrowed) == optional_string(*text),
{
    match text {
        Some(text) => Some(text.as_str()),
        None => None,
    }
}

// ---------------------------------------------------------------- letter case

/// The full Unicode lower-case form of a text, as `str::to_lowercase` gives it.
pub uninterp spec fn lowercase(text: Seq<char>) -> Seq<char>;

/// `str::to_lowercase`. Its result depends on the text alone; what the Unicode
/// tables make of each character is left to the name `lowercase`.
#[verifier::external_body]
pub(crate) fn to_lower(text: &str) -> (out: String)
    ensures
        out@ == lowercase(text@),
{
    text.to_lowercase()
}

/// `c` in lower case if it is one of the letters `A` to `Z`, else `c` itself.
pub open spec fn ascii_lower_char(c: char) -> char {
    if 'A' <= c && c <= 'Z' {
        ((c as u8) + 32) as u8 as char
    } else {
        c
    }
}

/// `text` with the letters `A` to `Z` in lower case and all else as it was.
pub open spec fn ascii_lower(text: Seq<char>) -> Seq<char> {
    text.map_values(|c: char| ascii_lower_char(c))
}

/// Puts the letters `A` to `Z` of `text` in lower case.
pub fn to_ascii_lower(text: &str) -> (out: String)
    ensures
        out@ == ascii_lower(text@),
{
    let mut out: String = String::new();
    for c in it: text.chars()
        invariant
            it.seq() == text@,
            out@ == ascii_lower(text@.take(it.index())),
    {
        let low: char = if 'A' <= c && c <= 'Z' {
            ((c as u8) + 32) as char
        } else {
            c
        };
        out.push(low);
        assert(out@ =~= ascii_lower(text@.take(it.index() + 1)));
    }
    assert(text@.take(text@.len() as int) =~= text@);
    out
}

// ---------------------------------------------------------------- searching

/// `pattern` stands in `text` from position `at` on.
pub open spec fn occurs_at(text: Seq<char>, pattern: Seq<char>, at: int) -> bool {
    &&& 0 <= at
    &&& at + pattern.len() <= text.len()
    &&& text.subrange(at, at + pattern.len()) == pattern
}

/// The first position, from `from` on, at which `pattern` stands in `text`.
pub open spec fn find_from(text: Seq<char>, pattern: Seq<char>, from: nat) -> Option<nat>
    decreases text.len() + 1 - from,
{
    if from + pattern.len() > text.len() {
        None
    } else if occurs_at(text, pattern, from as int) {
        Some(from)
    } else {
        find_from(text, pattern, from + 1)
    }
}

/// The first position at which `pattern` stands in `text`.
pub fn find_chars(text: &Vec<char>, pattern: &Vec<char>) -> (at: Option<usize>)
    ensures
        match at {
            Some(at) => find_from(text@, pattern@, 0) == Some(at as nat),
            None => find_from(text@, pattern@, 0) is None,
        },
{
    if pattern.len() > text.len() {
        return None;
    }
    let last: usize = text.len() - pattern.len();
    let mut at: usize = 0;
    loop
        invariant
            pattern.len() <= text.len(),
            last == text.len() - pattern.len(),
            at <= last,
            find_from(text@, pattern@, 0) == find_from(text@, pattern@, at as nat),
        decreases last - at,
    {
        let mut k: usize = 0;
        while k < pattern.len() && text[at + k] == pattern[k]
            invariant
                pattern.len() <= text.len(),
                at + pattern.len() <= text.len(),
                k <= pattern.len(),
                forall|j: int| 0 <= j < k ==> text@[at + j] == pattern@[j],
            decreases pattern.len() - k,
        {
            k = k + 1;
        }
        if k == pattern.len() {
            assert(text@.subrange(at as int, at + pattern@.len()) =~= pattern@);
            return Some(at);
        }
        assert(text@.subrange(at as int, at + pattern@.len())[k as int] != pattern@[k as int]);
        if at == last {
            assert(find_from(text@, pattern@, (at + 1) as nat) is None);
            return None;
        }
        at = at + 1;
    }
}

/// Whether `pattern` stands somewhere in `text`.
pub fn contains_text(text: &str, pattern: &str) -> (found: bool)
    ensures
        found == (find_from(text@, pattern@, 0) is Some),
{
    let text_chars: Vec<char> = chars_of(text);
    let pattern_chars: Vec<char> = chars_of(pattern);
    match find_chars(&text_chars, &pattern_chars) {
        Some(_) => true,
        None => false,
    }
}

/// The number of bytes that UTF-8 spends on `c`.
pub open spec fn utf8_width(c: char) -> nat {
    let n = c as u32;
    if n < 0x80 {
        1
    } else if n < 0x800 {
        2
    } else if n < 0x10000 {
        3
    } else {
        4
    }
}

/// The number of bytes that UTF-8 spends on `text`.
pub open spec fn utf8_size(text: Seq<char>) -> nat
    decreases text.len(),
{
    if text.len() == 0 {
        0
    } else {
        utf8_size(text.drop_last()) + utf8_width(text.last())
    }
}

/// The number of bytes that the first `count` characters take up.
pub fn size_of_first(chars: &Vec<char>, count: usize) -> (size: u128)
    requires
        count <= chars.len(),
    ensures
        size == utf8_size(chars@.take(count as int)),
        size <= 4 * count,
{
    let mut size: u128 = 0;
    let mut i: usize = 0;
    assert(chars@.take(0) =~= Seq::<char>::empty());
    while i < count
        invariant
            i <= count <= chars.len(),
            size == utf8_size(chars@.take(i as int)),
            size <= 4 * i,
        decreases count - i,
    {
        let n: u32 = chars[i] as u32;
        let width: u128 = if n < 0x80 {
            1
        } else if n < 0x800 {
            2
        } else if n < 0x10000 {
            3
        } else {
            4
        };
        assert(chars@.take(i + 1).drop_last() =~= chars@.take(i as int));
        size = size + width;
        i = i + 1;
    }
    size
}

/// The characters of `needle` stand in `haystack` at the positions `at`, from
/// left to right.
pub open spec fn embedding(needle: Seq<char>, haystack: Seq<char>, at: Seq<int>) -> bool {
    &&& at.len() == needle.len()
    &&& forall|k: int| 0 <= k < at.len() ==> 0 <= #[trigger] at[k] < haystack.len()
    &&& forall|k: int| 0 <= k < at.len() ==> haystack[#[trigger] at[k]] == needle[k]
    &&& forall|j: int, k: int| 0 <= j < k < at.len() ==> at[j] < at[k]
}

/// `needle` is what is left of `haystack` when some characters are struck out.
pub open spec fn subsequence(needle: Seq<char>, haystack: Seq<char>) -> bool {
    exists|at: Seq<int>| embedding(needle, haystack, at)
}

/// A subsequence stays one when the haystack and the needle grow by the same
/// character.
pub proof fn lemma_subsequence_grows(needle: Seq<char>, haystack: Seq<char>, c: char)
    requires
        subsequence(needle, haystack),
    ensures
        subsequence(needle.push(c), haystack.push(c)),
{
    let at = choose|at: Seq<int>| embedding(needle, haystack, at);
    assert(embedding(needle.push(c), haystack.push(c), at.push(haystack.len() as int)));
}

/// If `needle` is a subsequence of `haystack`, then without its last character
/// it is one of `haystack` without its last character; and if the two last
/// characters differ, the last character of `haystack` is not needed.
pub proof fn lemma_subsequence_shrinks(needle: Seq<char>, haystack: Seq<char>)
    requires
        needle.len() > 0,
        subsequence(needle, haystack),
    ensures
        haystack.len() > 0,
        subsequence(needle.drop_last(), haystack.drop_last()),
        needle.last() != haystack.last() ==> subsequence(needle, haystack.drop_last()),
{
    let at = choose|at: Seq<int>| embedding(needle, haystack, at);
    assert(0 <= at[at.len() - 1] < haystack.len());
    let shorter = haystack.drop_last();
    assert forall|k: int| 0 <= k < at.len() - 1 implies #[trigger] at[k] < shorter.len() by {
        assert(at[k] < at[at.len() - 1]);
    }
    assert(embedding(needle.drop_last(), shorter, at.drop_last()));
    if needle.last() != haystack.last() {
        assert(haystack[at[at.len() - 1]] == needle.last());
        assert(at[at.len() - 1] < shorter.len());
        assert(embedding(needle, shorter, at));
    }
}

/// Whether the characters of `needle` occur in `haystack` in the same order,
/// with others between them or not.
pub fn is_subsequence(needle: &str, haystack: &str) -> (found: bool)
    ensures
        found == subsequence(needle@, haystack@),
{
    let wanted: Vec<char> = chars_of(needle);
    let given: Vec<char> = chars_of(haystack);
    let mut have: usize = 0;
    let mut i: usize = 0;
    proof {
        assert(embedding(wanted@.take(0), given@.take(0), Seq::<int>::empty()));
        if wanted@.len() > 0 {
            if subsequence(wanted@.take(1), given@.take(0)) {
                lemma_subsequence_shrinks(wanted@.take(1), given@.take(0));
            }
        }
    }
    while i < given.len() && have < wanted.len()
        invariant
            i <= given.len(),
            have <= wanted.len(),
            subsequence(wanted@.take(have as int), given@.take(i as int)),
            have < wanted.len() ==> !subsequence(wanted@.take(have + 1), given@.take(i as int)),
        decreases given.len() - i,
    {
        let ghost seen = given@.take(i as int);
        let ghost next = given@.take(i + 1);
        assert(next =~= seen.push(given@[i as int]));
        assert(next.drop_last() =~= seen);
        if given[i] == wanted[have] {
            proof {
                let matched = wanted@.take(have as int);
                lemma_subsequence_grows(matched, seen, given@[i as int]);
                assert(wanted@.take(have + 1) =~= matched.push(given@[i as int]));
                if have + 1 < wanted.len() && subsequence(wanted@.take(have + 2), next) {
                    lemma_subsequence_shrinks(wanted@.take(have + 2), next);
                    assert(wanted@.take(have + 2).drop_last() =~= wanted@.take(have + 1));
                }
            }
            have = have + 1;
        } else {
            proof {
                if subsequence(wanted@.take(have + 1), next) {
                    lemma_subsequence_shrinks(wanted@.take(have + 1), next);
                }
                let at = choose|at: Seq<int>| embedding(wanted@.take(have as int), seen, at);
                assert(embedding(wanted@.take(have as int), next, at));
            }
        }
        i = i + 1;
    }
    proof {
        let matched = wanted@.take(have as int);
        let seen = given@.take(i as int);
        if have == wanted.len() {
            assert(matched =~= wanted@);
            let at = choose|at: Seq<int>| embedding(matched, seen, at);
            assert(embedding(wanted@, given@, at));
        } else {
            assert(seen =~= given@);
            if subsequence(wanted@, given@) {
                let at = choose|at: Seq<int>| embedding(wanted@, given@, at);
                assert(embedding(wanted@.take(have + 1), given@, at.take(have + 1)));
            }
        }
    }
    have == wanted.len()
}

// ---------------------------------------------------------------- order

/// `a` comes before `b` in the dictionary order of their code points.
pub open spec fn precedes(a: Seq<char>, b: Seq<char>) -> bool
    decreases a.len(),
{
    if b.len() == 0 {
        false
    } else if a.len() == 0 {
        true
    } else if a[0] != b[0] {
        a[0] < b[0]
    } else {
        precedes(a.drop_first(), b.drop_first())
    }
}

/// Whether `a` comes before `b` in the dictionary order of their code points.
pub fn comes_before(a: &Vec<char>, b: &Vec<char>) -> (before: bool)
    ensures
        before == precedes(a@, b@),
{
    let mut i: usize = 0;
    assert(a@.skip(0) =~= a@);
    assert(b@.skip(0) =~= b@);
    while i < a.len() && i < b.len() && a[i] == b[i]
        invariant
            i <= a.len(),
            i <= b.len(),
            precedes(a@, b@) == precedes(a@.skip(i as int), b@.skip(i as int)),
        decreases a.len() - i,
    {
        assert(a@.skip(i as int).drop_first() =~= a@.skip(i + 1));
        assert(b@.skip(i as int).drop_first() =~= b@.skip(i + 1));
        i = i + 1;
    }
    if i >= b.len() {
        false
    } else if i >= a.len() {
        true
    } else {
        a[i] < b[i]
    }
}

/// Exactly one of two texts comes first, unless they are the same.
pub proof fn lemma_precedes_total(a: Seq<char>, b: Seq<char>)
    ensures
        a != b ==> precedes(a, b) || precedes(b, a),
        !(precedes(a, b) && precedes(b, a)),
        !precedes(a, a),
    decreases a.len(),
{
    if a.len() == 0 || b.len() == 0 {
        assert(a.len() == 0 && b.len() == 0 ==> a =~= b);
        if a.len() > 0 {
            lemma_precedes_total(a.drop_first(), a.drop_first());
        }
    } else {
        lemma_precedes_total(a.drop_first(), b.drop_first());
        lemma_precedes_total(a.drop_first(), a.drop_first());
        if a[0] == b[0] && a.drop_first() == b.drop_first() {
            assert(a =~= seq![a[0]] + a.drop_first());
            assert(b =~= seq![b[0]] + b.drop_first());
        }
    }
}

/// The dictionary order is transitive.
pub proof fn lemma_precedes_transitive(a: Seq<char>, b: Seq<char>, c: Seq<char>)
    requires
        precedes(a, b),
        precedes(b, c),
    ensures
        precedes(a, c),
    decreases a.len(),
{
    if a.len() > 0 && a[0] == b[0] && b[0] == c[0] {
        lemma_precedes_transitive(a.drop_first(), b.drop_first(), c.drop_first());
    }
}

// ---------------------------------------------------------------- numbers

/// The digit for `value`, which is below ten.
pub open spec fn digit(value: nat) -> char {
    ((value + 48) as u8) as char
}

/// `value` written in the given base, without leading zeros.
pub open spec fn numeral(value: nat, base: nat) -> Seq<char>
    decreases value,
{
    if base < 2 || value < base {
        seq![digit(value)]
    } else {
        proof {
            assert(value / base < value) by (nonlinear_arith)
                requires
                    value >= base,
                    base >= 2,
            ;
        }
        numeral(value / base, base).push(digit(value % base))
    }
}

/// Writes `value` in the given base.
pub fn write_number(value: u64, base: u64) -> (out: String)
    requires
        2 <= base <= 10,
    ensures
        out@ == numeral(value as nat, base as nat),
    decreases value,
{
    if value < base {
        let mut out: String = String::new();
        out.push(((value + 48) as u8) as char);
        assert(out@ =~= seq![digit(value as nat)]);
        out
    } else {
        assert(value / base < value) by (nonlinear_arith)
            requires
                value >= base,
                base >= 2,
        ;
        let mut out: String = write_number(value / base, base);
        out.push(((value % base + 48) as u8) as char);
        out
    }
}

/// `c` is one of the digits `0` to `9`.
pub open spec fn is_digit(c: char) -> bool {
    '0' <= c && c <= '9'
}

/// The number that a row of decimal digits stands for.
pub open spec fn decimal_value(digits: Seq<char>) -> nat
    decreases digits.len(),
{
    if digits.len() == 0 {
        0
    } else {
        decimal_value(digits.drop_last()) * 10 + ((digits.last() as u32) - 48) as nat
    }
}

/// `text` without a plus sign in front.
pub open spec fn unsigned(text: Seq<char>) -> Seq<char> {
    if text.len() > 0 && text[0] == '+' {
        text.drop_first()
    } else {
        text
    }
}

/// `digits` is a row of decimal digits, at least one.
pub open spec fn all_digits(digits: Seq<char>) -> bool {
    &&& digits.len() > 0
    &&& forall|i: int| 0 <= i < digits.len() ==> is_digit(#[trigger] digits[i])
}

/// The unsigned 64-bit number that `text` spells: decimal digits, at least one,
/// with a plus sign in front or not.
pub open spec fn spelled_u64(text: Seq<char>) -> Option<u64> {
    if all_digits(unsigned(text)) && decimal_value(unsigned(text)) <= u64::MAX {
        Some(decimal_value(unsigned(text)) as u64)
    } else {
        None
    }
}

/// The value of a row of digits grows with the row.
proof fn lemma_decimal_value_grows(digits: Seq<char>, i: int)
    requires
        0 <= i <= digits.len(),
    ensures
        decimal_value(digits.take(i)) <= decimal_value(digits),
    decreases digits.len() - i,
{
    if i < digits.len() {
        lemma_decimal_value_grows(digits, i + 1);
        assert(digits.take(i + 1).drop_last() =~= digits.take(i));
    } else {
        assert(digits.take(i) =~= digits);
    }
}

/// Reads an unsigned 64-bit number.
pub fn parse_u64(text: &str) -> (value: Option<u64>)
    ensures
        value == spelled_u64(text@),
{
    let chars: Vec<char> = chars_of(text);
    let from: usize = if chars.len() > 0 && chars[0] == '+' {
        1
    } else {
        0
    };
    let ghost digits = unsigned(text@);
    assert(digits =~= chars@.skip(from as int));
    if from == chars.len() {
        return None;
    }
    let mut value: u64 = 0;
    let mut i: usize = from;
    assert(digits.take(0) =~= Seq::<char>::empty());
    while i < chars.len()
        invariant
            from <= i <= chars.len(),
            from < chars.len(),
            digits == chars@.skip(from as int),
            digits == unsigned(text@),
            forall|k: int| 0 <= k < i - from ==> is_digit(#[trigger] digits[k]),
            value == decimal_value(digits.take(i - from)),
        decreases chars.len() - i,
    {
        let c: char = chars[i];
        assert(digits[i - from] == c);
        if !('0' <= c && c <= '9') {
            return None;
        }
        let d: u64 = ((c as u32) - 48) as u64;
        proof {
            assert(digits.take(i - from + 1).drop_last() =~= digits.take(i - from));
            lemma_decimal_value_grows(digits, i - from + 1);
        }
        if value > (u64::MAX - d) / 10 {
            return None;
        }
        value = value * 10 + d;
        i = i + 1;
    }
    assert(digits.take(i - from) =~= digits);
    Some(value)
}

} // verus!
