//! Fuzzy search over the metadata of entries.

use vstd::prelude::*;

use crate::entry::{entry_models, Entry, EntryModel};
use crate::text::{
    chars_of, comes_before, find_chars, find_from, is_subsequence, lemma_precedes_total,
    lemma_precedes_transitive, lowercase, precedes, size_of_first, subsequence, texts, to_lower,
    utf8_size,
};

verus! {

// ---------------------------------------------------------------- scores

/// The texts of an entry that are searched, in lower case.
#[derive(Debug)]
pub struct Lowered {
    pub title: String,
    pub username: String,
    pub url: String,
    pub group: String,
    pub tags: Vec<String>,
}

/// The texts of an entry that are searched, in lower case.
pub struct LoweredModel {
    pub title: Seq<char>,
    pub username: Seq<char>,
    pub url: Seq<char>,
    pub group: Seq<char>,
    pub tags: Seq<Seq<char>>,
}

impl View for Lowered {
    type V = LoweredModel;

    open spec fn view(&self) -> LoweredModel {
        LoweredModel {
            title: self.title@,
            username: self.username@,
            url: self.url@,
            group: self.group@,
            tags: texts(self.tags@),
        }
    }
}

/// The texts of an entry that are searched, in lower case.
pub open spec fn lowered(entry: EntryModel) -> LoweredModel {
    LoweredModel {
        title: lowercase(entry.title),
        username: lowercase(entry.username),
        url: lowercase(entry.url),
        group: lowercase(entry.group),
        tags: entry.tags.map_values(|tag: Seq<char>| lowercase(tag)),
    }
}

/// How well a text matches a query, both in lower case: the weight of the text,
/// less the number of bytes in front of the match, and more if the match is in
/// front.
pub open spec fn text_score(query: Seq<char>, text: Seq<char>, weight: int) -> Option<int> {
    match find_from(text, query, 0) {
        Some(at) => Some(
            weight - utf8_size(text.take(at as int)) + if at == 0 {
                25int
            } else {
                0
            },
        ),
        None => None,
    }
}

/// The better of two scores.
pub open spec fn better(a: Option<int>, b: Option<int>) -> Option<int> {
    match (a, b) {
        (Some(x), Some(y)) => Some(
            if x >= y {
                x
            } else {
                y
            },
        ),
        (Some(x), None) => Some(x),
        (None, _) => b,
    }
}

/// The best score of a list of tags.
pub open spec fn tags_score(query: Seq<char>, tags: Seq<Seq<char>>) -> Option<int>
    decreases tags.len(),
{
    if tags.len() == 0 {
        None
    } else {
        better(tags_score(query, tags.drop_last()), text_score(query, tags.last(), 10))
    }
}

/// The best score of the texts of an entry.
pub open spec fn texts_score(query: Seq<char>, entry: LoweredModel) -> Option<int> {
    better(
        better(
            better(
                better(text_score(query, entry.title, 100), text_score(query, entry.username, 40)),
                text_score(query, entry.url, 30),
            ),
            text_score(query, entry.group, 20),
        ),
        tags_score(query, entry.tags),
    )
}

/// How well an entry matches a query that is not empty, if it does, both in lower
/// case. An entry whose texts do not hold the query still matches if its title
/// holds the characters of the query in order.
pub open spec fn lowered_score(query: Seq<char>, entry: LoweredModel) -> Option<int> {
    match texts_score(query, entry) {
        Some(best) => Some(best),
        None => if subsequence(query, entry.title) {
            Some(5)
        } else {
            None
        },
    }
}

/// How well an entry matches a query, if it does. Letter case does not count. The
/// empty query matches every entry alike.
pub open spec fn score(query: Seq<char>, entry: EntryModel) -> Option<int> {
    if query.len() == 0 {
        Some(0)
    } else {
        lowered_score(lowercase(query), lowered(entry))
    }
}

/// The value of a score.
pub open spec fn score_value(score: Option<i128>) -> Option<int> {
    match score {
        Some(value) => Some(value as int),
        None => None,
    }
}

/// Scores one text.
fn score_text(query: &Vec<char>, text: &str, weight: i128) -> (score: Option<i128>)
    requires
        0 <= weight <= 100,
    ensures
        score_value(score) == text_score(query@, text@, weight as int),
{
    let chars: Vec<char> = chars_of(text);
    match find_chars(&chars, query) {
        Some(at) => {
            proof {
                lemma_found_inside(chars@, query@, 0);
            }
            let skipped: u128 = size_of_first(&chars, at);
            let bonus: i128 = if at == 0 {
                25
            } else {
                0
            };
            Some(weight - skipped as i128 + bonus)
        },
        None => None,
    }
}

/// A match lies inside the text.
pub proof fn lemma_found_inside(text: Seq<char>, pattern: Seq<char>, from: nat)
    ensures
        find_from(text, pattern, from) matches Some(at) ==> at <= text.len(),
    decreases text.len() + 1 - from,
{
    if from + pattern.len() <= text.len() {
        lemma_found_inside(text, pattern, from + 1);
    }
}

/// The better of two scores.
fn better_of(a: Option<i128>, b: Option<i128>) -> (best: Option<i128>)
    ensures
        score_value(best) == better(score_value(a), score_value(b)),
{
    match a {
        Some(x) => match b {
            Some(y) => if x >= y {
                Some(x)
            } else {
                Some(y)
            },
            None => Some(x),
        },
        None => b,
    }
}

/// How well the texts of an entry match `query`, if they do; all in lower case.
pub fn score_lowered(query: &str, entry: &Lowered) -> (result: Option<i128>)
    ensures
        score_value(result) == lowered_score(query@, entry@),
{
    let wanted: Vec<char> = chars_of(query);
    let mut best: Option<i128> = better_of(
        better_of(
            better_of(
                score_text(&wanted, entry.title.as_str(), 100),
                score_text(&wanted, entry.username.as_str(), 40),
            ),
            score_text(&wanted, entry.url.as_str(), 30),
        ),
        score_text(&wanted, entry.group.as_str(), 20),
    );
    let mut tagged: Option<i128> = None;
    let mut i: usize = 0;
    let ghost tags = entry@.tags;
    assert(tags.take(0) =~= Seq::<Seq<char>>::empty());
    while i < entry.tags.len()
        invariant
            i <= entry.tags.len(),
            tags == entry@.tags,
            score_value(tagged) == tags_score(wanted@, tags.take(i as int)),
        decreases entry.tags.len() - i,
    {
        assert(tags.take(i + 1).drop_last() =~= tags.take(i as int));
        tagged = better_of(tagged, score_text(&wanted, entry.tags[i].as_str(), 10));
        i = i + 1;
    }
    assert(tags.take(i as int) =~= tags);
    best = better_of(best, tagged);
    match best {
        Some(value) => Some(value),
        None => if is_subsequence(query, entry.title.as_str()) {
            Some(5)
        } else {
            None
        },
    }
}

/// Puts the texts of an entry that are searched in lower case.
pub fn lower(entry: &Entry) -> (texts: Lowered)
    ensures
        texts@ == lowered(entry@),
{
    let mut tags: Vec<String> = Vec::new();
    let mut i: usize = 0;
    while i < entry.tags.len()
        invariant
            i <= entry.tags.len(),
            tags.len() == i,
            forall|k: int| 0 <= k < i ==> (#[trigger] tags@[k])@ == lowercase(entry.tags@[k]@),
        decreases entry.tags.len() - i,
    {
        tags.push(to_lower(entry.tags[i].as_str()));
        i = i + 1;
    }
    assert(texts(tags@) =~= lowered(entry@).tags);
    Lowered {
        title: to_lower(entry.title.as_str()),
        username: to_lower(entry.username.as_str()),
        url: to_lower(entry.url.as_str()),
        group: to_lower(entry.group.as_str()),
        tags,
    }
}

/// How well `entry` matches `query`, if it does.
pub fn fuzzy_score(query: &str, entry: &Entry) -> (result: Option<i128>)
    ensures
        score_value(result) == score(query@, entry@),
{
    if query.is_empty() {
        return Some(0);
    }
    let wanted: String = to_lower(query);
    score_lowered(wanted.as_str(), &lower(entry))
}

/// A text scores at most its weight and the bonus for a match in front.
proof fn lemma_text_score_bound(query: Seq<char>, text: Seq<char>, weight: int)
    ensures
        text_score(query, text, weight) matches Some(value) ==> value <= weight + 25,
{
}

/// Tags score at most their weight and the bonus for a match in front.
proof fn lemma_tags_score_bound(query: Seq<char>, tags: Seq<Seq<char>>)
    ensures
        tags_score(query, tags) matches Some(value) ==> value <= 35,
    decreases tags.len(),
{
    if tags.len() > 0 {
        lemma_tags_score_bound(query, tags.drop_last());
        lemma_text_score_bound(query, tags.last(), 10);
    }
}

/// The title of an entry begins with the query, in lower case.
pub open spec fn title_begins_with(query: Seq<char>, entry: EntryModel) -> bool {
    find_from(lowercase(entry.title), lowercase(query), 0) == Some(0nat)
}

/// The best score is that of an entry whose title begins with the query, and no
/// other entry has it.
pub proof fn law_title_prefix_scores_best(query: Seq<char>, entry: EntryModel)
    requires
        query.len() > 0,
    ensures
        score(query, entry) matches Some(value) ==> value <= 125,
        score(query, entry) == Some(125int) <==> title_begins_with(query, entry),
{
    let low = lowercase(query);
    let entry_low = lowered(entry);
    lemma_text_score_bound(low, entry_low.username, 40);
    lemma_text_score_bound(low, entry_low.url, 30);
    lemma_text_score_bound(low, entry_low.group, 20);
    lemma_tags_score_bound(low, entry_low.tags);
    let title = lowercase(entry.title);
    if let Some(at) = find_from(title, low, 0) {
        lemma_found_inside(title, low, 0);
        if at == 0 {
            assert(title.take(0) =~= Seq::<char>::empty());
        }
    }
}

/// An entry whose title begins with the query is listed before every one whose
/// title does not.
pub proof fn law_title_prefix_ranks_first(
    entries: Seq<EntryModel>,
    query: Seq<char>,
    i: int,
    j: int,
)
    requires
        query.len() > 0,
        title_begins_with(query, entries[i]),
        !title_begins_with(query, entries[j]),
        score(query, entries[j]) is Some,
    ensures
        outranks(entries, query, i, j),
{
    law_title_prefix_scores_best(query, entries[i]);
    law_title_prefix_scores_best(query, entries[j]);
}

// ---------------------------------------------------------------- ranking

/// Entry `i` is listed before entry `j`: it scores higher, or alike and its
/// title comes first, or neither tells them apart and it stands first.
pub open spec fn outranks(entries: Seq<EntryModel>, query: Seq<char>, i: int, j: int) -> bool {
    let a = score(query, entries[i]).unwrap_or(0);
    let b = score(query, entries[j]).unwrap_or(0);
    if a != b {
        a > b
    } else if entries[i].title != entries[j].title {
        precedes(entries[i].title, entries[j].title)
    } else {
        i < j
    }
}

/// Each item of `order` outranks those behind it.
pub open spec fn in_rank_order(
    order: Seq<int>,
    entries: Seq<EntryModel>,
    query: Seq<char>,
) -> bool {
    forall|a: int, b: int|
        0 <= a < b < order.len() ==> outranks(entries, query, #[trigger] order[a], #[trigger] order[b])
}

/// `i` is one of the first `count` entries and matches the query.
pub open spec fn matches_query(
    entries: Seq<EntryModel>,
    query: Seq<char>,
    count: nat,
    i: int,
) -> bool {
    0 <= i < count && score(query, entries[i]) is Some
}

/// `order` lists the matches among the first `count` entries, best first.
pub open spec fn ranks_first(
    order: Seq<int>,
    entries: Seq<EntryModel>,
    query: Seq<char>,
    count: nat,
) -> bool {
    &&& in_rank_order(order, entries, query)
    &&& forall|i: int| #[trigger]
        order.contains(i) <==> matches_query(entries, query, count, i)
}

/// `order` lists the entries that match the query, best first.
pub open spec fn is_ranking(order: Seq<int>, entries: Seq<EntryModel>, query: Seq<char>) -> bool {
    ranks_first(order, entries, query, entries.len())
}

/// The entries that match a query, best first.
pub open spec fn ranking(entries: Seq<EntryModel>, query: Seq<char>) -> Seq<int> {
    choose|order: Seq<int>| is_ranking(order, entries, query)
}

/// Of two entries exactly one outranks the other.
proof fn lemma_outranks_total(entries: Seq<EntryModel>, query: Seq<char>, i: int, j: int)
    ensures
        i != j ==> outranks(entries, query, i, j) || outranks(entries, query, j, i),
        !(outranks(entries, query, i, j) && outranks(entries, query, j, i)),
{
    lemma_precedes_total(entries[i].title, entries[j].title);
}

/// Rank is transitive.
proof fn lemma_outranks_transitive(
    entries: Seq<EntryModel>,
    query: Seq<char>,
    i: int,
    j: int,
    k: int,
)
    requires
        outranks(entries, query, i, j),
        outranks(entries, query, j, k),
    ensures
        outranks(entries, query, i, k),
{
    let (a, b, c) = (entries[i].title, entries[j].title, entries[k].title);
    lemma_precedes_total(a, b);
    lemma_precedes_total(b, c);
    lemma_precedes_total(a, c);
    if precedes(a, b) && precedes(b, c) {
        lemma_precedes_transitive(a, b, c);
    }
}

/// Two orders of the same entries are the same order.
proof fn lemma_order_unique(
    a: Seq<int>,
    b: Seq<int>,
    entries: Seq<EntryModel>,
    query: Seq<char>,
)
    requires
        in_rank_order(a, entries, query),
        in_rank_order(b, entries, query),
        forall|i: int|
            #![trigger a.contains(i)]
            #![trigger b.contains(i)]
            a.contains(i) <==> b.contains(i),
    ensures
        a == b,
    decreases a.len(),
{
    if a.len() == 0 {
        if b.len() > 0 {
            assert(b.contains(b[0]));
        }
        assert(a =~= b);
    } else {
        assert(a.contains(a[0]));
        assert(b.contains(a[0]));
        let p = choose|p: int| 0 <= p < b.len() && b[p] == a[0];
        assert(b.contains(b[0]));
        let q = choose|q: int| 0 <= q < a.len() && a[q] == b[0];
        lemma_outranks_total(entries, query, a[0], b[0]);
        assert(a[0] == b[0]);
        let x = a[0];
        let (ra, rb) = (a.drop_first(), b.drop_first());
        assert(forall|k: int| 0 <= k < ra.len() ==> #[trigger] ra[k] == a[k + 1]);
        assert(forall|k: int| 0 <= k < rb.len() ==> #[trigger] rb[k] == b[k + 1]);
        assert forall|i: int|
            #![trigger ra.contains(i)]
            #![trigger rb.contains(i)]
            ra.contains(i) <==> rb.contains(i) by {
            if ra.contains(i) {
                let k = choose|k: int| 0 <= k < ra.len() && ra[k] == i;
                assert(a[k + 1] == i);
                lemma_outranks_total(entries, query, x, i);
                assert(a.contains(i));
                let m = choose|m: int| 0 <= m < b.len() && b[m] == i;
                assert(m != 0);
                assert(rb[m - 1] == i);
            }
            if rb.contains(i) {
                let k = choose|k: int| 0 <= k < rb.len() && rb[k] == i;
                assert(b[k + 1] == i);
                lemma_outranks_total(entries, query, x, i);
                assert(b.contains(i));
                let m = choose|m: int| 0 <= m < a.len() && a[m] == i;
                assert(m != 0);
                assert(ra[m - 1] == i);
            }
        }
        lemma_order_unique(ra, rb, entries, query);
        assert(a =~= seq![x] + ra);
        assert(b =~= seq![x] + rb);
    }
}

/// Where the next entry goes among those ranked so far.
pub open spec fn fits_at(
    order: Seq<int>,
    entries: Seq<EntryModel>,
    query: Seq<char>,
    item: int,
    at: int,
) -> bool {
    &&& 0 <= at <= order.len()
    &&& at > 0 ==> !outranks(entries, query, item, order[at - 1])
    &&& forall|k: int| at <= k < order.len() ==> outranks(entries, query, item, #[trigger] order[k])
}

/// Putting the next match where it fits keeps the ranking.
proof fn lemma_ranking_grows(
    order: Seq<int>,
    entries: Seq<EntryModel>,
    query: Seq<char>,
    count: nat,
    at: int,
)
    requires
        ranks_first(order, entries, query, count),
        count < entries.len(),
        score(query, entries[count as int]) is Some,
        fits_at(order, entries, query, count as int, at),
    ensures
        ranks_first(order.insert(at, count as int), entries, query, count + 1),
{
    let item = count as int;
    let grown = order.insert(at, item);
    assert forall|k: int| 0 <= k < at implies outranks(entries, query, #[trigger] order[k], item) by {
        assert(order.contains(order[at - 1]));
        lemma_outranks_total(entries, query, order[at - 1], item);
        if k < at - 1 {
            lemma_outranks_transitive(entries, query, order[k], order[at - 1], item);
        }
    }
    assert forall|a: int, b: int| 0 <= a < b < grown.len() implies outranks(
        entries,
        query,
        #[trigger] grown[a],
        #[trigger] grown[b],
    ) by {
        let oa = if a < at {
            a
        } else {
            a - 1
        };
        let ob = if b < at {
            b
        } else {
            b - 1
        };
        if a != at {
            assert(grown[a] == order[oa]);
        }
        if b != at {
            assert(grown[b] == order[ob]);
        }
    }
    assert forall|i: int| #[trigger]
        grown.contains(i) <==> matches_query(entries, query, count + 1, i) by {
        if grown.contains(i) {
            let k = choose|k: int| 0 <= k < grown.len() && grown[k] == i;
            if k < at {
                assert(order.contains(order[k]));
            } else if k > at {
                assert(order.contains(order[k - 1]));
            }
        }
        if matches_query(entries, query, count + 1, i) {
            if i == item {
                assert(grown[at] == i);
            } else {
                assert(order.contains(i));
                let k = choose|k: int| 0 <= k < order.len() && order[k] == i;
                assert(grown[if k < at { k } else { k + 1 }] == i);
            }
        }
    }
}

/// Passing over an entry that does not match keeps the ranking.
proof fn lemma_ranking_skips(
    order: Seq<int>,
    entries: Seq<EntryModel>,
    query: Seq<char>,
    count: nat,
)
    requires
        ranks_first(order, entries, query, count),
        count < entries.len(),
        score(query, entries[count as int]) is None,
    ensures
        ranks_first(order, entries, query, count + 1),
{
    assert forall|i: int| #[trigger]
        order.contains(i) <==> matches_query(entries, query, count + 1, i) by {
        if i == count {
            assert(!order.contains(i));
        }
    }
}

/// There is a place for every item.
proof fn lemma_place_exists(
    order: Seq<int>,
    entries: Seq<EntryModel>,
    query: Seq<char>,
    item: int,
    from: int,
) -> (at: int)
    requires
        0 <= from <= order.len(),
        forall|k: int|
            from <= k < order.len() ==> outranks(entries, query, item, #[trigger] order[k]),
    ensures
        fits_at(order, entries, query, item, at),
    decreases from,
{
    if from > 0 && outranks(entries, query, item, order[from - 1]) {
        lemma_place_exists(order, entries, query, item, from - 1)
    } else {
        from
    }
}

/// There is a ranking of the first `count` entries.
proof fn lemma_ranking_exists(
    entries: Seq<EntryModel>,
    query: Seq<char>,
    count: nat,
) -> (order: Seq<int>)
    requires
        count <= entries.len(),
    ensures
        ranks_first(order, entries, query, count),
    decreases count,
{
    if count == 0 {
        Seq::empty()
    } else {
        let before = lemma_ranking_exists(entries, query, (count - 1) as nat);
        let item = count - 1;
        if score(query, entries[item]) is Some {
            let at = lemma_place_exists(before, entries, query, item, before.len() as int);
            lemma_ranking_grows(before, entries, query, item as nat, at);
            before.insert(at, item)
        } else {
            lemma_ranking_skips(before, entries, query, item as nat);
            before
        }
    }
}

/// The ranking of a search exists and is the only one: it holds every entry
/// that matches and no other, none twice, each before those it outranks.
pub proof fn law_ranking_is_unique(entries: Seq<EntryModel>, query: Seq<char>)
    ensures
        is_ranking(ranking(entries, query), entries, query),
        ranking(entries, query).no_duplicates(),
        forall|order: Seq<int>| #[trigger]
            is_ranking(order, entries, query) ==> order == ranking(entries, query),
{
    let some = lemma_ranking_exists(entries, query, entries.len());
    assert(is_ranking(some, entries, query));
    let chosen = ranking(entries, query);
    assert forall|a: int, b: int|
        0 <= a < chosen.len() && 0 <= b < chosen.len() && a != b implies chosen[a] != chosen[b] by {
        let (low, high) = if a < b {
            (a, b)
        } else {
            (b, a)
        };
        assert(outranks(entries, query, chosen[low], chosen[high]));
        lemma_outranks_total(entries, query, chosen[low], chosen[high]);
    }
    assert forall|order: Seq<int>| #[trigger] is_ranking(order, entries, query) implies order
        == chosen by {
        assert forall|i: int|
            #![trigger order.contains(i)]
            #![trigger chosen.contains(i)]
            order.contains(i) <==> chosen.contains(i) by {
            assert(order.contains(i) <==> matches_query(entries, query, entries.len(), i));
            assert(chosen.contains(i) <==> matches_query(entries, query, entries.len(), i));
        }
        lemma_order_unique(order, chosen, entries, query);
    }
}

/// A match on its way into the ranking.
struct Ranked {
    index: usize,
    score: i128,
    title: Vec<char>,
}

impl Ranked {
    /// The match is that of the entry at its index.
    spec fn is_match(self, entries: Seq<EntryModel>, query: Seq<char>) -> bool {
        &&& self.index < entries.len()
        &&& score(query, entries[self.index as int]) == Some(self.score as int)
        &&& self.title@ == entries[self.index as int].title
    }
}

/// Whether match `a` is listed before match `b`.
fn goes_before(
    a: &Ranked,
    b: &Ranked,
    Ghost(entries): Ghost<Seq<EntryModel>>,
    Ghost(query): Ghost<Seq<char>>,
) -> (before: bool)
    requires
        a.is_match(entries, query),
        b.is_match(entries, query),
    ensures
        before == outranks(entries, query, a.index as int, b.index as int),
{
    if a.score != b.score {
        return a.score > b.score;
    }
    proof {
        lemma_precedes_total(a.title@, b.title@);
    }
    if comes_before(&a.title, &b.title) {
        true
    } else if comes_before(&b.title, &a.title) {
        false
    } else {
        a.index < b.index
    }
}

/// The indices of a list of matches.
spec fn indices(ranked: Seq<Ranked>) -> Seq<int> {
    ranked.map_values(|item: Ranked| item.index as int)
}

/// The entries that match `query`, best first, by their indices.
pub fn rank(entries: &Vec<Entry>, query: &str) -> (order: Vec<usize>)
    ensures
        order@.map_values(|i: usize| i as int) == ranking(entry_models(entries@), query@),
        forall|k: int| 0 <= k < order.len() ==> (#[trigger] order@[k]) < entries.len(),
{
    let ghost models = entry_models(entries@);
    let mut ranked: Vec<Ranked> = Vec::new();
    let mut i: usize = 0;
    while i < entries.len()
        invariant
            i <= entries.len(),
            models == entry_models(entries@),
            forall|k: int| 0 <= k < ranked.len() ==> (#[trigger] ranked@[k]).is_match(models, query@),
            ranks_first(indices(ranked@), models, query@, i as nat),
        decreases entries.len() - i,
    {
        assert(models[i as int] == entries@[i as int]@);
        match fuzzy_score(query, &entries[i]) {
            Some(value) => {
                let item = Ranked {
                    index: i,
                    score: value,
                    title: chars_of(entries[i].title.as_str()),
                };
                let ghost order = indices(ranked@);
                let mut at: usize = ranked.len();
                while at > 0 && goes_before(&item, &ranked[at - 1], Ghost(models), Ghost(query@))
                    invariant
                        at <= ranked.len(),
                        order == indices(ranked@),
                        item.index == i,
                        item.is_match(models, query@),
                        forall|k: int|
                            0 <= k < ranked.len() ==> (#[trigger] ranked@[k]).is_match(
                                models,
                                query@,
                            ),
                        forall|k: int|
                            at <= k < order.len() ==> outranks(
                                models,
                                query@,
                                i as int,
                                #[trigger] order[k],
                            ),
                    decreases at,
                {
                    at = at - 1;
                    assert(order[at as int] == ranked@[at as int].index);
                }
                proof {
                    if at > 0 {
                        assert(order[at - 1] == ranked@[at - 1].index);
                    }
                    lemma_ranking_grows(order, models, query@, i as nat, at as int);
                }
                let ghost before = ranked@;
                ranked.insert(at, item);
                assert(indices(ranked@) =~= order.insert(at as int, i as int));
                assert forall|k: int| 0 <= k < ranked.len() implies (
                #[trigger] ranked@[k]).is_match(models, query@) by {
                    if k < at {
                        assert(ranked@[k] == before[k]);
                    } else if k > at {
                        assert(ranked@[k] == before[k - 1]);
                    }
                }
            },
            None => {
                proof {
                    lemma_ranking_skips(indices(ranked@), models, query@, i as nat);
                }
            },
        }
        i = i + 1;
    }
    let mut order: Vec<usize> = Vec::new();
    let mut k: usize = 0;
    while k < ranked.len()
        invariant
            k <= ranked.len(),
            order.len() == k,
            models.len() == entries.len(),
            forall|j: int| 0 <= j < ranked.len() ==> (#[trigger] ranked@[j]).is_match(models, query@),
            forall|j: int| 0 <= j < k ==> (#[trigger] order@[j]) == ranked@[j].index,
        decreases ranked.len() - k,
    {
        order.push(ranked[k].index);
        k = k + 1;
    }
    proof {
        assert(order@.map_values(|i: usize| i as int) =~= indices(ranked@));
        assert(is_ranking(indices(ranked@), models, query@));
        law_ranking_is_unique(models, query@);
    }
    order
}

} // verus!
