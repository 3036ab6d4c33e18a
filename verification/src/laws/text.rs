//! What the operations on text mean.

use vstd::prelude::*;
use vstd::utf8::{encode_scalar, encode_utf8};

use crate::text::{
    after_prefix, ascii_lower, decimal_value, embedding, find_from, has_prefix, is_space, joined,
    lemma_precedes_total, lemma_subsequence_grows, lemma_subsequence_shrinks, numeral, precedes,
    spelled_u64, subsequence, trim_back, trim_front, trimmed, utf8_size, words,
};

verus! {

/// What stands behind a prefix is the rest: a text begins with a prefix exactly if
/// it is the prefix and something behind it.
pub proof fn law_prefix_and_rest(prefix: Seq<char>, rest: Seq<char>, text: Seq<char>)
    ensures
        after_prefix(prefix + rest, prefix) == Some(rest),
        after_prefix(text, prefix) matches Some(found) ==> text == prefix + found,
        has_prefix(text, prefix) <==> after_prefix(text, prefix) is Some,
{
    assert((prefix + rest).take(prefix.len() as int) =~= prefix);
    assert((prefix + rest).skip(prefix.len() as int) =~= rest);
    if let Some(found) = after_prefix(text, prefix) {
        assert(text =~= text.take(prefix.len() as int) + text.skip(prefix.len() as int));
    }
}

/// The white space is that of Unicode.
pub proof fn law_white_space(c: char)
    ensures
        is_space(c) <==> (c == ' ' || ('\t' <= c && c <= '\r') || c == '\u{85}' || c == '\u{a0}'
            || c == '\u{1680}' || ('\u{2000}' <= c && c <= '\u{200a}') || c == '\u{2028}' || c
            == '\u{2029}' || c == '\u{202f}' || c == '\u{205f}' || c == '\u{3000}'),
{
}

/// Nothing but white space.
pub open spec fn all_space(text: Seq<char>) -> bool {
    forall|i: int| 0 <= i < text.len() ==> is_space(#[trigger] text[i])
}

/// No white space.
pub open spec fn no_space(text: Seq<char>) -> bool {
    forall|i: int| 0 <= i < text.len() ==> !is_space(#[trigger] text[i])
}

/// What is cut off in front.
proof fn lemma_front_cut(text: Seq<char>) -> (front: Seq<char>)
    ensures
        all_space(front),
        text == front + trim_front(text),
        trim_front(text).len() > 0 ==> !is_space(trim_front(text)[0]),
    decreases text.len(),
{
    if text.len() > 0 && is_space(text[0]) {
        let rest = lemma_front_cut(text.drop_first());
        let front = seq![text[0]] + rest;
        assert(text =~= seq![text[0]] + text.drop_first());
        assert(seq![text[0]] + (rest + trim_front(text)) =~= front + trim_front(text));
        front
    } else {
        assert(text =~= Seq::<char>::empty() + text);
        Seq::empty()
    }
}

/// What is cut off behind.
proof fn lemma_back_cut(text: Seq<char>) -> (back: Seq<char>)
    ensures
        all_space(back),
        text == trim_back(text) + back,
        trim_back(text).len() > 0 ==> !is_space(trim_back(text).last()),
        trim_back(text).len() > 0 ==> trim_back(text)[0] == text[0],
    decreases text.len(),
{
    if text.len() > 0 && is_space(text.last()) {
        let rest = lemma_back_cut(text.drop_last());
        let back = rest.push(text.last());
        assert(text =~= text.drop_last().push(text.last()));
        assert((trim_back(text) + rest).push(text.last()) =~= trim_back(text) + back);
        back
    } else {
        assert(text =~= text + Seq::<char>::empty());
        Seq::empty()
    }
}

/// Trimming cuts white space off both ends and nothing else, and leaves none there.
pub proof fn law_trimming_cuts_white_space(text: Seq<char>) -> (cut: (Seq<char>, Seq<char>))
    ensures
        all_space(cut.0),
        all_space(cut.1),
        text == cut.0 + trimmed(text) + cut.1,
        trimmed(text).len() > 0 ==> !is_space(trimmed(text)[0]) && !is_space(trimmed(text).last()),
{
    let front = lemma_front_cut(text);
    let back = lemma_back_cut(trim_front(text));
    assert(text =~= front + trimmed(text) + back);
    (front, back)
}

/// A text that ends in something else than white space has a word.
proof fn lemma_has_word(text: Seq<char>)
    requires
        text.len() > 0,
        !is_space(text.last()),
    ensures
        words(text).len() > 0,
    decreases text.len(),
{
    if text.len() > 1 && !is_space(text[text.len() - 2]) {
        lemma_has_word(text.drop_last());
    }
}

/// White space parts words: the words of two texts with white space between them
/// are those of the one and those of the other.
pub proof fn law_white_space_parts_words(a: Seq<char>, c: char, b: Seq<char>)
    requires
        is_space(c),
    ensures
        words(a.push(c) + b) == words(a) + words(b),
    decreases b.len(),
{
    let whole = a.push(c) + b;
    if b.len() == 0 {
        assert(whole =~= a.push(c));
        assert(whole.drop_last() =~= a);
        assert(words(a) + words(b) =~= words(a));
    } else {
        let rest = b.drop_last();
        let d = b.last();
        assert(whole.drop_last() =~= a.push(c) + rest);
        assert(whole.last() == d);
        law_white_space_parts_words(a, c, rest);
        if is_space(d) {
        } else if b.len() > 1 && !is_space(b[b.len() - 2]) {
            assert(whole[whole.len() - 2] == b[b.len() - 2]);
            assert(rest.last() == b[b.len() - 2]);
            lemma_has_word(rest);
            let before = words(a) + words(rest);
            assert(before.drop_last() =~= words(a) + words(rest).drop_last());
            assert(words(whole) =~= words(a) + words(b));
        } else {
            if b.len() == 1 {
                assert(whole[whole.len() - 2] == c);
            } else {
                assert(whole[whole.len() - 2] == b[b.len() - 2]);
            }
            assert(words(whole) =~= words(a) + words(b));
        }
    }
}

/// A text without white space is one word, and the empty text has none.
pub proof fn law_one_word(text: Seq<char>)
    requires
        no_space(text),
    ensures
        words(text) == if text.len() == 0 {
            Seq::<Seq<char>>::empty()
        } else {
            seq![text]
        },
    decreases text.len(),
{
    if text.len() > 1 {
        let rest = text.drop_last();
        assert(no_space(rest));
        law_one_word(rest);
        assert(!is_space(text[text.len() - 2]));
        assert(rest.push(text.last()) =~= text);
        let before = words(rest);
        assert(before == seq![rest]);
        assert(before.drop_last() =~= Seq::<Seq<char>>::empty());
        assert(before.last() == rest);
        assert(words(text) == before.drop_last().push(before.last().push(text.last())));
        assert(words(text) =~= seq![text]);
    } else if text.len() == 1 {
        assert(seq![text[0]] =~= text);
        assert(text.drop_last() =~= Seq::<char>::empty());
        assert(!is_space(text[0]));
        assert(words(Seq::<char>::empty()) =~= Seq::<Seq<char>>::empty());
        assert(words(text) == words(text.drop_last()).push(seq![text.last()]));
        assert(words(text) =~= seq![text]);
    }
}

/// Joining two lists is joining each, with the separator between them; a single
/// text is joined to itself.
pub proof fn law_joined_lists(a: Seq<Seq<char>>, b: Seq<Seq<char>>, separator: Seq<char>)
    requires
        a.len() > 0,
        b.len() > 0,
    ensures
        joined(a + b, separator) == joined(a, separator) + separator + joined(b, separator),
        a.len() == 1 ==> joined(a, separator) == a[0],
    decreases b.len(),
{
    let whole = a + b;
    assert(whole.drop_last() =~= a + b.drop_last());
    if b.len() == 1 {
        assert(a + b.drop_last() =~= a);
        assert(joined(whole, separator) =~= joined(a, separator) + separator + joined(
            b,
            separator,
        ));
    } else {
        law_joined_lists(a, b.drop_last(), separator);
        assert(joined(whole, separator) =~= joined(a, separator) + separator + joined(
            b,
            separator,
        ));
    }
}

/// Lower case in ASCII moves the letters `A` to `Z` and keeps all else, each where
/// it is.
pub proof fn law_ascii_lower_case(text: Seq<char>)
    ensures
        ascii_lower(text).len() == text.len(),
        forall|i: int|
            0 <= i < text.len() ==> #[trigger] ascii_lower(text)[i] as u32 == if 'A' <= text[i]
                && text[i] <= 'Z' {
                text[i] as u32 + 32
            } else {
                text[i] as int
            },
{
    assert forall|i: int| 0 <= i < text.len() implies #[trigger] ascii_lower(text)[i] as u32
        == if 'A' <= text[i] && text[i] <= 'Z' {
        text[i] as u32 + 32
    } else {
        text[i] as int
    } by {
    }
}

/// A search finds the first place at which the pattern stands, and finds none only
/// if it stands nowhere.
pub proof fn law_search_finds_the_first_place(text: Seq<char>, pattern: Seq<char>, from: nat)
    ensures
        match find_from(text, pattern, from) {
            Some(at) => {
                &&& from <= at
                &&& at + pattern.len() <= text.len()
                &&& text.subrange(at as int, at as int + pattern.len()) == pattern
                &&& forall|j: int|
                    from <= j < at ==> #[trigger] text.subrange(j, j + pattern.len()) != pattern
            },
            None => forall|j: int|
                from <= j && j + pattern.len() <= text.len() ==> #[trigger] text.subrange(
                    j,
                    j + pattern.len(),
                ) != pattern,
        },
    decreases text.len() + 1 - from,
{
    if from + pattern.len() <= text.len() && text.subrange(from as int, from as int + pattern.len())
        != pattern {
        law_search_finds_the_first_place(text, pattern, from + 1);
    }
}

/// The size of a text grows by what stands in front.
proof fn lemma_size_in_front(c: char, rest: Seq<char>)
    ensures
        utf8_size(seq![c] + rest) == utf8_size(seq![c]) + utf8_size(rest),
    decreases rest.len(),
{
    if rest.len() > 0 {
        lemma_size_in_front(c, rest.drop_last());
        assert((seq![c] + rest).drop_last() =~= seq![c] + rest.drop_last());
    } else {
        assert(seq![c] + rest =~= seq![c]);
    }
}

/// The size of a text is the number of bytes that encode it.
pub proof fn law_size_counts_bytes(text: Seq<char>)
    ensures
        utf8_size(text) == encode_utf8(text).len(),
    decreases text.len(),
{
    if text.len() > 0 {
        let rest = text.drop_first();
        law_size_counts_bytes(rest);
        lemma_size_in_front(text[0], rest);
        assert(text =~= seq![text[0]] + rest);
        vstd::utf8::char_is_scalar(text[0]);
        assert(seq![text[0]].drop_last() =~= Seq::<char>::empty());
        assert(utf8_size(Seq::<char>::empty()) == 0);
        assert(utf8_size(seq![text[0]]) == encode_scalar(text[0] as u32).len());
    }
}

/// Whether characters stand in a text in order is decided from its end: the last
/// character of the text is used for the last one that is wanted, or not at all.
pub proof fn law_subsequence(needle: Seq<char>, haystack: Seq<char>, c: char)
    ensures
        subsequence(needle, Seq::empty()) <==> needle.len() == 0,
        subsequence(needle, haystack.push(c)) <==> (subsequence(needle, haystack) || (needle.len()
            > 0 && needle.last() == c && subsequence(needle.drop_last(), haystack))),
{
    let none = Seq::<char>::empty();
    if needle.len() == 0 {
        assert(embedding(needle, none, Seq::empty()));
    } else if subsequence(needle, none) {
        lemma_subsequence_shrinks(needle, none);
    }
    let longer = haystack.push(c);
    assert(longer.drop_last() =~= haystack);
    if subsequence(needle, haystack) {
        let at = choose|at: Seq<int>| embedding(needle, haystack, at);
        assert(embedding(needle, longer, at));
    }
    if needle.len() > 0 {
        if needle.last() == c && subsequence(needle.drop_last(), haystack) {
            lemma_subsequence_grows(needle.drop_last(), haystack, c);
            assert(needle.drop_last().push(c) =~= needle);
        }
        if subsequence(needle, longer) {
            lemma_subsequence_shrinks(needle, longer);
        }
    } else if subsequence(needle, longer) {
        assert(embedding(needle, haystack, Seq::empty()));
    }
}

/// The order of texts is that of the dictionary: a text comes before its
/// continuations, and otherwise the first characters that differ decide.
pub proof fn law_dictionary_order(
    common: Seq<char>,
    a: char,
    x: Seq<char>,
    b: char,
    y: Seq<char>,
)
    ensures
        precedes(common, common + (seq![a] + x)),
        a < b ==> precedes(common + (seq![a] + x), common + (seq![b] + y)),
        !precedes(common, common),
        !(precedes(x, y) && precedes(y, x)),
        x != y ==> precedes(x, y) || precedes(y, x),
    decreases common.len(),
{
    lemma_precedes_total(x, y);
    lemma_precedes_total(common, common);
    let (p, q) = (common + (seq![a] + x), common + (seq![b] + y));
    if common.len() > 0 {
        law_dictionary_order(common.drop_first(), a, x, b, y);
        assert(p.drop_first() =~= common.drop_first() + (seq![a] + x));
        assert(q.drop_first() =~= common.drop_first() + (seq![b] + y));
    } else {
        assert(p =~= seq![a] + x);
        assert(q =~= seq![b] + y);
    }
}

/// A number is written digit by digit, the last digit being what its base leaves.
pub proof fn law_numbers_are_written(value: nat, digit: nat, base: nat)
    requires
        2 <= base <= 10,
        digit < base,
    ensures
        numeral(digit, base).len() == 1,
        numeral(digit, base)[0] as u32 == 48 + digit,
        value > 0 ==> numeral(value * base + digit, base) == numeral(value, base).push(
            numeral(digit, base)[0],
        ),
{
    if value > 0 {
        let whole = value * base + digit;
        assert(whole / base == value && whole % base == digit && whole >= base) by (nonlinear_arith)
            requires
                whole == value * base + digit,
                digit < base,
                base >= 2,
                value > 0,
        ;
    }
}

/// A number is read digit by digit: one more digit makes ten times as much and the
/// digit. What is not a digit, or makes too much, spoils it. A plus sign in front
/// changes nothing.
pub proof fn law_numbers_are_read(text: Seq<char>, c: char)
    requires
        text.len() > 0,
        text[0] != '+',
    ensures
        spelled_u64(Seq::empty()) is None,
        spelled_u64(seq!['+'] + text) == spelled_u64(text),
        text.len() == 1 ==> spelled_u64(text) == if '0' <= text[0] && text[0] <= '9' {
            Some((text[0] as u32 - 48) as u64)
        } else {
            None
        },
        match spelled_u64(text) {
            Some(value) if '0' <= c && c <= '9' && value * 10 + (c as u32 - 48) <= u64::MAX => {
                spelled_u64(text.push(c)) == Some((value * 10 + (c as u32 - 48)) as u64)
            },
            _ => spelled_u64(text.push(c)) is None,
        },
{
    let longer = text.push(c);
    assert((seq!['+'] + text).drop_first() =~= text);
    assert(longer.drop_last() =~= text);
    assert(longer[0] == text[0]);
    assert(decimal_value(longer) == decimal_value(text) * 10 + ((c as u32) - 48) as nat);
    if text.len() == 1 {
        assert(text.drop_last() =~= Seq::<char>::empty());
        assert(decimal_value(Seq::<char>::empty()) == 0);
        assert(decimal_value(text) == ((text[0] as u32) - 48) as nat);
    }
    assert(forall|i: int| 0 <= i < text.len() ==> longer[i] == #[trigger] text[i]);
    assert(longer[text.len() as int] == c);
    if crate::text::all_digits(longer) {
        assert forall|i: int| 0 <= i < text.len() implies crate::text::is_digit(
            #[trigger] text[i],
        ) by {
            assert(crate::text::is_digit(longer[i]));
        }
        assert(crate::text::is_digit(longer[text.len() as int]));
    }
    if crate::text::all_digits(text) && crate::text::is_digit(c) {
        assert forall|i: int| 0 <= i < longer.len() implies crate::text::is_digit(
            #[trigger] longer[i],
        ) by {
            if i < text.len() {
                assert(crate::text::is_digit(text[i]));
            }
        }
    }
}

} // verus!
