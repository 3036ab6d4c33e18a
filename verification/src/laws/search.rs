//! What a search finds, and in which order.

use vstd::prelude::*;
use vstd::utf8::encode_utf8;

use crate::entry::EntryModel;
use crate::laws::text::{law_search_finds_the_first_place, law_size_counts_bytes};
use crate::search::{
    law_ranking_is_unique, lemma_found_inside, lowered, ranking, score, tags_score, text_score,
};
use crate::text::{find_from, lowercase, precedes, subsequence};
use crate::vault::listed;

verus! {

/// A text of an entry that is searched, in lower case, and what a match in it is
/// worth.
pub open spec fn searched(entry: EntryModel, text: Seq<char>, weight: int) -> bool {
    ||| text == lowercase(entry.title) && weight == 100
    ||| text == lowercase(entry.username) && weight == 40
    ||| text == lowercase(entry.url) && weight == 30
    ||| text == lowercase(entry.group) && weight == 20
    ||| weight == 10 && exists|i: int|
        0 <= i < entry.tags.len() && text == lowercase(#[trigger] entry.tags[i])
}

/// `at` is the first place at which `wanted` stands in `text`.
pub open spec fn stands_first(text: Seq<char>, wanted: Seq<char>, at: int) -> bool {
    &&& 0 <= at
    &&& at + wanted.len() <= text.len()
    &&& text.subrange(at, at + wanted.len()) == wanted
    &&& forall|j: int| 0 <= j < at ==> #[trigger] text.subrange(j, j + wanted.len()) != wanted
}

/// What a match at `at` is worth: the less, the more bytes stand in front of it,
/// and more if nothing does.
pub open spec fn worth(text: Seq<char>, weight: int, at: int) -> int {
    weight - encode_utf8(text.take(at)).len() + if at == 0 {
        25int
    } else {
        0
    }
}

/// The score of a text is what its first match is worth.
proof fn lemma_text_score(wanted: Seq<char>, text: Seq<char>, weight: int)
    ensures
        match text_score(wanted, text, weight) {
            Some(value) => exists|at: int|
                #[trigger] stands_first(text, wanted, at) && value == worth(text, weight, at),
            None => forall|at: int| !#[trigger] stands_first(text, wanted, at),
        },
        forall|at: int| #[trigger]
            stands_first(text, wanted, at) ==> text_score(wanted, text, weight) == Some(
                worth(text, weight, at),
            ),
{
    law_search_finds_the_first_place(text, wanted, 0);
    lemma_found_inside(text, wanted, 0);
    match find_from(text, wanted, 0) {
        Some(first) => {
            law_size_counts_bytes(text.take(first as int));
            assert(stands_first(text, wanted, first as int));
            assert forall|at: int| #[trigger] stands_first(text, wanted, at) implies at
                == first by {
                assert(text.subrange(at, at + wanted.len()) == wanted);
                assert(text.subrange(first as int, first as int + wanted.len()) == wanted);
            }
        },
        None => {
            assert forall|at: int| !#[trigger] stands_first(text, wanted, at) by {
                if stands_first(text, wanted, at) {
                    assert(text.subrange(at, at + wanted.len()) == wanted);
                }
            }
        },
    }
}

/// The score of tags is that of the best of them.
proof fn lemma_tags_score(wanted: Seq<char>, tags: Seq<Seq<char>>)
    ensures
        forall|i: int|
            0 <= i < tags.len() ==> (text_score(wanted, #[trigger] tags[i], 10) matches Some(value)
                ==> tags_score(wanted, tags) matches Some(best) && best >= value),
        tags_score(wanted, tags) matches Some(best) ==> exists|i: int|
            0 <= i < tags.len() && text_score(wanted, #[trigger] tags[i], 10) == Some(best),
    decreases tags.len(),
{
    if tags.len() > 0 {
        let before = tags.drop_last();
        lemma_tags_score(wanted, before);
        assert forall|i: int| 0 <= i < tags.len() implies (text_score(
            wanted,
            #[trigger] tags[i],
            10,
        ) matches Some(value) ==> tags_score(wanted, tags) matches Some(best) && best >= value) by {
            if i < before.len() {
                assert(before[i] == tags[i]);
            }
        }
        if let Some(best) = tags_score(wanted, tags) {
            if text_score(wanted, tags.last(), 10) == Some(best) {
                assert(tags[tags.len() - 1] == tags.last());
            } else {
                let i = choose|i: int|
                    0 <= i < before.len() && text_score(wanted, #[trigger] before[i], 10) == Some(
                        best,
                    );
                assert(tags[i] == before[i]);
            }
        }
    }
}

/// An entry is found by what stands in its title, username, url, group or tags: its
/// score is at least what the match is worth.
pub proof fn law_match_counts(
    query: Seq<char>,
    entry: EntryModel,
    text: Seq<char>,
    weight: int,
    at: int,
)
    requires
        query.len() > 0,
        searched(entry, text, weight),
        stands_first(text, lowercase(query), at),
    ensures
        score(query, entry) matches Some(value) && value >= worth(text, weight, at),
{
    let wanted = lowercase(query);
    let low = lowered(entry);
    lemma_text_score(wanted, text, weight);
    lemma_tags_score(wanted, low.tags);
    if text == lowercase(entry.title) && weight == 100 {
    } else if text == lowercase(entry.username) && weight == 40 {
    } else if text == lowercase(entry.url) && weight == 30 {
    } else if text == lowercase(entry.group) && weight == 20 {
    } else {
        let i = choose|i: int|
            0 <= i < entry.tags.len() && text == lowercase(#[trigger] entry.tags[i]);
        assert(low.tags[i] == text);
    }
}

/// An entry is found wherever in one of its texts the query stands, be it ever so
/// far behind.
pub proof fn law_query_is_found_anywhere(
    query: Seq<char>,
    entry: EntryModel,
    text: Seq<char>,
    weight: int,
    at: int,
)
    requires
        query.len() > 0,
        searched(entry, text, weight),
        0 <= at,
        at + lowercase(query).len() <= text.len(),
        text.subrange(at, at + lowercase(query).len()) == lowercase(query),
    ensures
        exists|first: int|
            0 <= first <= at && #[trigger] stands_first(text, lowercase(query), first) && (score(
                query,
                entry,
            ) matches Some(value) && value >= weight - encode_utf8(text.take(first)).len()),
{
    let wanted = lowercase(query);
    law_search_finds_the_first_place(text, wanted, 0);
    match find_from(text, wanted, 0) {
        Some(first) => {
            assert(stands_first(text, wanted, first as int));
            law_match_counts(query, entry, text, weight, first as int);
        },
        None => {
            assert(text.subrange(at, at + wanted.len()) != wanted);
        },
    }
}

/// No text of an entry holds the query.
pub open spec fn nowhere(query: Seq<char>, entry: EntryModel) -> bool {
    forall|text: Seq<char>, weight: int, at: int|
        #[trigger] searched(entry, text, weight) ==> !#[trigger] stands_first(
            text,
            lowercase(query),
            at,
        )
}

/// A score has a reason: it is what some match is worth, or, if the query stands in
/// no text, five for a title that holds its characters in order. Without either
/// there is none. The empty query scores nothing for every entry.
pub proof fn law_score_has_a_reason(query: Seq<char>, entry: EntryModel)
    ensures
        query.len() == 0 ==> score(query, entry) == Some(0int),
        query.len() > 0 ==> match score(query, entry) {
            Some(value) => {
                ||| exists|text: Seq<char>, weight: int, at: int|
                    #[trigger] searched(entry, text, weight) && #[trigger] stands_first(
                        text,
                        lowercase(query),
                        at,
                    ) && value == worth(text, weight, at)
                ||| nowhere(query, entry) && value == 5 && subsequence(
                    lowercase(query),
                    lowercase(entry.title),
                )
            },
            None => nowhere(query, entry) && !subsequence(
                lowercase(query),
                lowercase(entry.title),
            ),
        },
{
    if query.len() > 0 {
        let wanted = lowercase(query);
        let low = lowered(entry);
        lemma_text_score(wanted, low.title, 100);
        lemma_text_score(wanted, low.username, 40);
        lemma_text_score(wanted, low.url, 30);
        lemma_text_score(wanted, low.group, 20);
        lemma_tags_score(wanted, low.tags);
        assert(searched(entry, low.title, 100));
        assert(searched(entry, low.username, 40));
        assert(searched(entry, low.url, 30));
        assert(searched(entry, low.group, 20));
        if let Some(best) = tags_score(wanted, low.tags) {
            let i = choose|i: int|
                0 <= i < low.tags.len() && text_score(wanted, #[trigger] low.tags[i], 10) == Some(
                    best,
                );
            assert(low.tags[i] == lowercase(entry.tags[i]));
            assert(searched(entry, low.tags[i], 10));
            lemma_text_score(wanted, low.tags[i], 10);
        }
        if crate::search::texts_score(wanted, low) is None {
            assert forall|text: Seq<char>, weight: int, at: int|
                searched(entry, text, weight) implies !(#[trigger] searched(entry, text, weight)
                && #[trigger] stands_first(text, wanted, at)) by {
                if stands_first(text, wanted, at) {
                    law_match_counts(query, entry, text, weight, at);
                    lemma_text_score(wanted, text, weight);
                    if weight == 10 && !(text == low.title || text == low.username || text
                        == low.url || text == low.group) {
                        let i = choose|i: int|
                            0 <= i < entry.tags.len() && text == lowercase(
                                #[trigger] entry.tags[i],
                            );
                        assert(low.tags[i] == text);
                    }
                }
            }
        }
    }
}

/// A list holds each entry that matches, once, and no other. The better score comes
/// first; of equal scores the title that comes first in the dictionary; of equal
/// titles the entry that comes first in the vault.
pub proof fn law_best_comes_first(entries: Seq<EntryModel>, query: Seq<char>)
    ensures
        forall|i: int| #[trigger]
            ranking(entries, query).contains(i) <==> 0 <= i < entries.len() && score(
                query,
                entries[i],
            ) is Some,
        forall|a: int, b: int|
            0 <= a < b < ranking(entries, query).len() ==> {
                let i = #[trigger] ranking(entries, query)[a];
                let j = #[trigger] ranking(entries, query)[b];
                let x = score(query, entries[i]).unwrap();
                let y = score(query, entries[j]).unwrap();
                &&& i != j
                &&& x >= y
                &&& x == y ==> {
                    ||| precedes(entries[i].title, entries[j].title)
                    ||| entries[i].title == entries[j].title && i < j
                }
            },
{
    law_ranking_is_unique(entries, query);
    let order = ranking(entries, query);
    assert forall|a: int, b: int| 0 <= a < b < order.len() implies {
        let i = #[trigger] order[a];
        let j = #[trigger] order[b];
        let x = score(query, entries[i]).unwrap();
        let y = score(query, entries[j]).unwrap();
        &&& i != j
        &&& x >= y
        &&& x == y ==> {
            ||| precedes(entries[i].title, entries[j].title)
            ||| entries[i].title == entries[j].title && i < j
        }
    } by {
        assert(order.contains(order[a]));
        assert(order.contains(order[b]));
        assert(crate::search::matches_query(entries, query, entries.len(), order[a]));
        assert(crate::search::matches_query(entries, query, entries.len(), order[b]));
        assert(crate::search::outranks(entries, query, order[a], order[b]));
    }
    assert forall|i: int| #[trigger] order.contains(i) <==> 0 <= i < entries.len() && score(
        query,
        entries[i],
    ) is Some by {
        assert(order.contains(i) <==> crate::search::matches_query(
            entries,
            query,
            entries.len(),
            i,
        ));
    }
}

/// A list shows the front part of the ranking, as long as the limit allows, and of
/// each entry its public side: whether it has a password and one-time passwords,
/// not what they are.
pub proof fn law_list_shows_the_public_side(
    entries: Seq<EntryModel>,
    query: Seq<char>,
    limit: nat,
)
    ensures
        listed(entries, query, limit).len() == if ranking(entries, query).len() <= limit {
            ranking(entries, query).len()
        } else {
            limit
        },
        forall|k: int|
            0 <= k < listed(entries, query, limit).len() ==> {
                let meta = #[trigger] listed(entries, query, limit)[k];
                let entry = entries[ranking(entries, query)[k]];
                &&& meta.uuid == entry.uuid
                &&& meta.title == entry.title
                &&& meta.username == entry.username
                &&& meta.group == entry.group
                &&& meta.url == entry.url
                &&& meta.tags == entry.tags
                &&& meta.has_password == (entry.password is Some)
                &&& meta.has_totp == (entry.totp is Some)
            },
{
}

} // verus!
