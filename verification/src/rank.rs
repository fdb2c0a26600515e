//! Ranking memories against a query.
//!
//! Scoring is deliberately dumb — token containment, weighted by field — and
//! that is a decision, not a shortcut: a scoring function nobody can predict is
//! worse than a crude one everybody can. Ties break on `updated_at` descending,
//! then on the key, so the output does not depend on the order the store lists
//! its entries in.

use vstd::prelude::*;

use crate::lists;
use crate::order;
use crate::record::{Entry, Hit};
use crate::record;
use crate::text;

verus! {

// ---------------------------------------------------------------------------
// Scores
// ---------------------------------------------------------------------------

/// The longest query whose scores are sure to fit, in characters.
pub const MAX_QUERY_CHARS: usize = 1_000_000_000;

/// What a query looks for: its words of two characters or more.
pub open spec fn query_terms(query: Seq<char>) -> Seq<Seq<char>> {
    text::words(query).filter(|w: Seq<char>| w.len() > 1)
}

/// `weight` where `field` holds `term`, whatever the case.
pub open spec fn field_score(field: Seq<char>, term: Seq<char>, weight: nat) -> nat {
    if text::contains_text(text::lowered(field), term) {
        weight
    } else {
        0
    }
}

/// What one term adds to a record's score: four for its name, two for its
/// description, one for its body.
pub open spec fn term_score(r: record::RecordView, term: Seq<char>) -> nat {
    field_score(r.name, term, 4) + field_score(r.description, term, 2) + field_score(
        r.body,
        term,
        1,
    )
}

/// A record's score: the sum over all terms.
pub open spec fn relevance(r: record::RecordView, terms: Seq<Seq<char>>) -> nat
    decreases terms.len(),
{
    if terms.len() == 0 {
        0
    } else {
        relevance(r, terms.drop_last()) + term_score(r, terms.last())
    }
}

/// The score of `e` for `query`.
pub open spec fn score_of(e: Entry, query: Seq<char>) -> nat {
    relevance(e.record@, query_terms(query))
}

/// The entries with their scores, in the order they came in.
pub open spec fn scored(entries: Seq<Entry>, query: Seq<char>) -> Seq<Hit> {
    entries.map_values(|e: Entry| Hit { entry: e, score: score_of(e, query) as u32 })
}

/// Every score fits the type it is reported in.
pub open spec fn scores_fit(entries: Seq<Entry>, query: Seq<char>) -> bool {
    forall|i: int| 0 <= i < entries.len() ==> score_of(#[trigger] entries[i], query) <= u32::MAX
}

// ---------------------------------------------------------------------------
// Order
// ---------------------------------------------------------------------------

/// `a` is shown before `b`: a higher score, then a later `updated_at`, then a
/// smaller key.
pub open spec fn ranks_before(a: Hit, b: Hit) -> bool {
    ||| a.score > b.score
    ||| a.score == b.score && {
        ||| text::text_before(b.entry.record.updated_at@, a.entry.record.updated_at@)
        ||| a.entry.record.updated_at@ == b.entry.record.updated_at@ && text::text_before(
            a.entry.key@.text(),
            b.entry.key@.text(),
        )
    }
}

/// The order that hits are shown in.
pub open spec fn rank_order() -> spec_fn(Hit, Hit) -> bool {
    |a: Hit, b: Hit| ranks_before(a, b)
}

/// The entries ranked against `query`: in rank order, and hits that agree in
/// score, stamp and key in the order they came in.
pub open spec fn ranked(entries: Seq<Entry>, query: Seq<char>) -> Seq<Hit> {
    order::sorted(rank_order(), scored(entries, query))
}

/// Hits tie exactly where they agree in score, stamp and key.
pub proof fn lemma_hits_tie(a: Hit, b: Hit)
    ensures
        order::ties(rank_order(), a, b) <==> {
            &&& a.score == b.score
            &&& a.entry.record.updated_at@ == b.entry.record.updated_at@
            &&& a.entry.key@.text() == b.entry.key@.text()
        },
{
    text::lemma_text_before_total(a.entry.record.updated_at@, b.entry.record.updated_at@);
    text::lemma_text_before_total(a.entry.key@.text(), b.entry.key@.text());
    text::lemma_text_before_irreflexive(a.entry.record.updated_at@);
    text::lemma_text_before_irreflexive(a.entry.key@.text());
}

proof fn lemma_ranks_before(a: Hit, b: Hit, c: Hit)
    ensures
        ranks_before(a, b) && ranks_before(b, c) ==> ranks_before(a, c),
        ranks_before(a, c) ==> ranks_before(a, b) || ranks_before(b, c),
        !(ranks_before(a, b) && ranks_before(b, a)),
{
    let (ua, ub, uc) = (
        a.entry.record.updated_at@,
        b.entry.record.updated_at@,
        c.entry.record.updated_at@,
    );
    let (ka, kb, kc) = (a.entry.key@.text(), b.entry.key@.text(), c.entry.key@.text());
    text::lemma_text_order(ua, ub, uc);
    text::lemma_text_order(uc, ub, ua);
    text::lemma_text_order(ka, kb, kc);
    text::lemma_text_before_total(ua, ub);
    text::lemma_text_before_total(ub, uc);
    text::lemma_text_before_total(ka, kb);
    text::lemma_text_before_total(kb, kc);
}

/// Rank order is an order.
pub proof fn lemma_rank_order()
    ensures
        order::is_order(rank_order()),
{
    reveal(order::is_order);
    let before = rank_order();
    assert forall|a: Hit, b: Hit| #[trigger] before(a, b) implies !before(b, a) by {
        lemma_ranks_before(a, b, a);
    }
    assert forall|a: Hit, b: Hit, c: Hit|
        #[trigger] before(a, b) && #[trigger] before(b, c) implies before(a, c) by {
        lemma_ranks_before(a, b, c);
    }
    assert forall|a: Hit, b: Hit, c: Hit| #[trigger] before(a, c) implies #[trigger] before(a, b)
        || before(b, c) by {
        lemma_ranks_before(a, b, c);
    }
}

// ---------------------------------------------------------------------------
// Computing
// ---------------------------------------------------------------------------

/// Whether `a` is shown before `b`.
fn shown_before(a: &Hit, b: &Hit) -> (res: bool)
    ensures
        res == ranks_before(*a, *b),
{
    if a.score != b.score {
        return a.score > b.score;
    }
    match text::sort_texts(
        b.entry.record.updated_at.as_str(),
        a.entry.record.updated_at.as_str(),
    ) {
        text::Sorting::Before => true,
        text::Sorting::After => false,
        text::Sorting::Same => matches!(
            text::sort_texts(
                a.entry.key.to_string().as_str(),
                b.entry.key.to_string().as_str(),
            ),
            text::Sorting::Before
        ),
    }
}

/// The terms that a query looks for.
fn terms_of(query: &str) -> (res: Vec<Vec<char>>)
    ensures
        text::word_views(res@) == query_terms(query@),
{
    let words = text::split_words(&text::to_chars(query));
    let ghost all = text::word_views(words@);
    let ghost long = |w: Seq<char>| w.len() > 1;
    let mut out: Vec<Vec<char>> = Vec::new();
    proof {
        lists::lemma_filter_nothing(all, long);
        assert(text::word_views(out@) == Seq::<Seq<char>>::empty());
    }
    for word in it: words
        invariant
            it.seq() == words@,
            all == text::word_views(words@),
            long == (|w: Seq<char>| w.len() > 1),
            text::word_views(out@) == all.take(it.index() as int).filter(long),
    {
        let ghost before = out@;
        proof {
            lists::lemma_filter_step(all, it.index() as int, long);
            assert(all[it.index() as int] == word@);
        }
        if word.len() > 1 {
            out.push(word);
            assert(text::word_views(out@) == text::word_views(before).push(word@));
        }
    }
    assert(all.take(all.len() as int) == all);
    out
}

proof fn lemma_relevance_grows(r: record::RecordView, terms: Seq<Seq<char>>, k: int)
    requires
        0 <= k <= terms.len(),
    ensures
        relevance(r, terms.take(k)) <= relevance(r, terms),
    decreases terms.len(),
{
    if k == terms.len() {
        assert(terms.take(k) == terms);
    } else {
        lemma_relevance_grows(r, terms.drop_last(), k);
        assert(terms.drop_last().take(k) == terms.take(k));
    }
}

/// The score of one record.
fn score(r: &record::MemoryRecord, terms: &Vec<Vec<char>>) -> (res: u32)
    requires
        relevance(r@, text::word_views(terms@)) <= u32::MAX,
    ensures
        res == relevance(r@, text::word_views(terms@)),
{
    let ghost all = text::word_views(terms@);
    let name = text::lower_chars(r.name.as_str());
    let description = text::lower_chars(r.description.as_str());
    let body = text::lower_chars(r.body.as_str());
    let mut sum: u32 = 0;
    let mut i: usize = 0;
    while i < terms.len()
        invariant
            i <= terms.len(),
            all == text::word_views(terms@),
            name@ == text::lowered(r@.name),
            description@ == text::lowered(r@.description),
            body@ == text::lowered(r@.body),
            relevance(r@, all) <= u32::MAX,
            sum == relevance(r@, all.take(i as int)),
        decreases terms.len() - i,
    {
        proof {
            assert(all.take(i + 1).drop_last() == all.take(i as int));
            assert(all.take(i + 1).last() == terms@[i as int]@);
            lemma_relevance_grows(r@, all, i + 1);
        }
        let mut add: u32 = 0;
        if text::has_text(&name, &terms[i]) {
            add += 4;
        }
        if text::has_text(&description, &terms[i]) {
            add += 2;
        }
        if text::has_text(&body, &terms[i]) {
            add += 1;
        }
        sum += add;
        i += 1;
    }
    assert(all.take(all.len() as int) == all);
    sum
}

/// Put `hit` in front of the hits in `out` that are not shown before it.
fn place(out: &mut Vec<Hit>, hit: Hit)
    requires
        order::in_order(rank_order(), old(out)@),
    ensures
        order::is_sorting(rank_order(), seq![hit] + old(out)@, final(out)@),
{
    let ghost before = out@;
    let mut at: usize = 0;
    while at < out.len() && shown_before(&out[at], &hit)
        invariant
            at <= out.len(),
            out@ == before,
            forall|k: int| 0 <= k < at ==> ranks_before(#[trigger] before[k], hit),
        decreases out.len() - at,
    {
        at += 1;
    }
    proof {
        lemma_rank_order();
        order::lemma_insertion(rank_order(), before, at as int, hit);
    }
    out.insert(at, hit);
}

/// Rank `entries` against a free-text query.
///
/// An empty query ranks everything equally, which makes recall degrade into
/// list: the right behaviour for a session-start hook that just wants what is
/// there.
pub fn rank(entries: Vec<Entry>, query: &str) -> (res: Vec<Hit>)
    requires
        scores_fit(entries@, query@),
    ensures
        res@ == ranked(entries@, query@),
{
    let terms = terms_of(query);
    let ghost all = entries@;
    let ghost hits = scored(all, query@);
    let mut left = entries;
    let mut out: Vec<Hit> = Vec::new();
    assert(hits.skip(hits.len() as int) == out@);
    while left.len() > 0
        invariant
            left@.len() <= all.len(),
            left@ == all.take(left@.len() as int),
            hits == scored(all, query@),
            scores_fit(all, query@),
            text::word_views(terms@) == query_terms(query@),
            order::is_sorting(rank_order(), hits.skip(left@.len() as int), out@),
        decreases left.len(),
    {
        let ghost n: int = left@.len() - 1;
        let ghost below = out@;
        let entry = left.pop().unwrap();
        assert(entry == all[n]);
        let points: u32 = score(&entry.record, &terms);
        let hit = Hit { entry, score: points };
        assert(hit == hits[n]);
        place(&mut out, hit);
        proof {
            assert(hits.skip(n) == seq![hit] + hits.skip(n + 1));
            order::lemma_one_more(rank_order(), hit, hits.skip(n + 1), below, out@);
        }
    }
    proof {
        assert(hits.skip(0) == hits);
        lemma_rank_order();
        order::law_sorting_is_well_defined(rank_order(), hits);
    }
    out
}

// ---------------------------------------------------------------------------
// What holds of every ranking
// ---------------------------------------------------------------------------

/// **Ranking loses nothing and invents nothing**: what comes out is every entry
/// with its score, as often as it went in.
pub proof fn law_ranking_keeps_every_entry(entries: Seq<Entry>, query: Seq<char>)
    ensures
        ranked(entries, query).to_multiset() == scored(entries, query).to_multiset(),
        ranked(entries, query).len() == entries.len(),
{
    lemma_rank_order();
    order::law_sorting_keeps_everything(rank_order(), scored(entries, query));
}

/// **A ranking is in rank order**, and there is no other way to rank.
pub proof fn law_there_is_one_ranking(entries: Seq<Entry>, query: Seq<char>)
    ensures
        order::in_order(rank_order(), ranked(entries, query)),
        forall|out: Seq<Hit>|
            #[trigger] order::is_sorting(rank_order(), scored(entries, query), out) ==> out
                == ranked(entries, query),
{
    lemma_rank_order();
    order::law_sorting_is_well_defined(rank_order(), scored(entries, query));
}

/// No two entries are filed under the same key.
pub open spec fn distinct_keys(entries: Seq<Entry>) -> bool {
    forall|i: int, j: int|
        0 <= i < j < entries.len() ==> (#[trigger] entries[i]).key@.text() != (
        #[trigger] entries[j]).key@.text()
}

proof fn lemma_scored_without_ties(entries: Seq<Entry>, query: Seq<char>)
    requires
        distinct_keys(entries),
    ensures
        order::no_ties(rank_order(), scored(entries, query)),
{
    let s = scored(entries, query);
    assert forall|i: int, j: int| 0 <= i < j < s.len() implies !order::ties(
        rank_order(),
        #[trigger] s[i],
        #[trigger] s[j],
    ) by {
        lemma_hits_tie(s[i], s[j]);
        assert(entries[i].key@.text() != entries[j].key@.text());
    }
}

proof fn lemma_scored_members(entries: Seq<Entry>, query: Seq<char>, h: Hit)
    ensures
        scored(entries, query).contains(h) <==> entries.contains(h.entry) && h.score == score_of(
            h.entry,
            query,
        ) as u32,
{
    let s = scored(entries, query);
    if s.contains(h) {
        let i = choose|i: int| 0 <= i < s.len() && s[i] == h;
        assert(entries[i] == h.entry);
    }
    if entries.contains(h.entry) && h.score == score_of(h.entry, query) as u32 {
        let i = choose|i: int| 0 <= i < entries.len() && entries[i] == h.entry;
        assert(s[i] == h);
    }
}

/// **The ranking does not depend on the order the entries are listed in**, as
/// long as no key is listed twice.
pub proof fn law_ranking_ignores_listing_order(a: Seq<Entry>, b: Seq<Entry>, query: Seq<char>)
    requires
        a.to_multiset() == b.to_multiset(),
        distinct_keys(a),
        distinct_keys(b),
    ensures
        ranked(a, query) == ranked(b, query),
{
    broadcast use vstd::seq_lib::group_to_multiset_ensures;

    assert forall|e: Entry| a.contains(e) == b.contains(e) by {
        assert(a.contains(e) <==> a.to_multiset().count(e) > 0);
        assert(b.contains(e) <==> b.to_multiset().count(e) > 0);
    }
    assert forall|h: Hit| scored(a, query).contains(h) == scored(b, query).contains(h) by {
        lemma_scored_members(a, query, h);
        lemma_scored_members(b, query, h);
    }
    lemma_rank_order();
    lemma_scored_without_ties(a, query);
    lemma_scored_without_ties(b, query);
    order::law_sorting_ignores_arrangement(rank_order(), scored(a, query), scored(b, query));
}

proof fn lemma_words_count(s: Seq<char>)
    ensures
        2 * text::words(s).len() <= s.len() + 1,
    decreases s.len(),
{
    if s.len() > 0 {
        if !text::is_alnum(s[0]) {
            lemma_words_count(s.skip(1));
        } else {
            text::lemma_alnum_run_bound(s);
            let n = text::alnum_run(s) as int;
            let rest = s.skip(n);
            if rest.len() > 0 {
                assert(rest[0] == s[n]);
                assert(text::words(rest) == text::words(rest.skip(1)));
                lemma_words_count(rest.skip(1));
            }
            assert(text::words(s).len() == 1 + text::words(rest).len());
        }
    }
}

proof fn lemma_relevance_bound(r: record::RecordView, terms: Seq<Seq<char>>)
    ensures
        relevance(r, terms) <= 7 * terms.len(),
    decreases terms.len(),
{
    if terms.len() > 0 {
        lemma_relevance_bound(r, terms.drop_last());
    }
}

/// **A query of up to [`MAX_QUERY_CHARS`] characters can rank anything**: no
/// score it gives outgrows its type.
pub proof fn law_scores_fit_for_any_sensible_query(entries: Seq<Entry>, query: Seq<char>)
    requires
        query.len() <= MAX_QUERY_CHARS,
    ensures
        scores_fit(entries, query),
{
    assert forall|i: int| 0 <= i < entries.len() implies score_of(#[trigger] entries[i], query)
        <= u32::MAX by {
        lemma_words_count(query);
        text::words(query).lemma_filter_len(|w: Seq<char>| w.len() > 1);
        lemma_relevance_bound(entries[i].record@, query_terms(query));
    }
}

/// Whether a query is short enough for its scores to fit whatever it is ranked
/// against.
pub fn is_sensible(query: &str) -> (res: bool)
    ensures
        res == (query@.len() <= MAX_QUERY_CHARS),
        res ==> forall|entries: Seq<Entry>| scores_fit(entries, query@),
{
    let res = text::to_chars(query).len() <= MAX_QUERY_CHARS;
    proof {
        if res {
            assert forall|entries: Seq<Entry>| scores_fit(entries, query@) by {
                law_scores_fit_for_any_sensible_query(entries, query@);
            }
        }
    }
    res
}

/// **A query with nothing to look for scores everything zero**, so recall
/// degrades into a list of the most recent memories.
pub proof fn law_an_empty_query_scores_nothing(e: Entry, query: Seq<char>)
    requires
        forall|i: int|
            0 <= i < text::words(query).len() ==> (#[trigger] text::words(query)[i]).len() <= 1,
    ensures
        score_of(e, query) == 0,
{
    let long = |w: Seq<char>| w.len() > 1;
    text::words(query).lemma_all_neg_filter_empty(long);
}

proof fn lemma_all_in_name(r: record::RecordView, terms: Seq<Seq<char>>)
    requires
        forall|i: int|
            0 <= i < terms.len() ==> text::contains_text(
                text::lowered(r.name),
                #[trigger] terms[i],
            ),
    ensures
        relevance(r, terms) >= 4 * terms.len(),
    decreases terms.len(),
{
    if terms.len() > 0 {
        let rest = terms.drop_last();
        assert forall|i: int| 0 <= i < rest.len() implies text::contains_text(
            text::lowered(r.name),
            #[trigger] rest[i],
        ) by {
            assert(rest[i] == terms[i]);
        }
        lemma_all_in_name(r, rest);
        assert(terms.last() == terms[terms.len() - 1]);
    }
}

proof fn lemma_only_in_body(r: record::RecordView, terms: Seq<Seq<char>>)
    requires
        forall|i: int|
            0 <= i < terms.len() ==> !text::contains_text(
                text::lowered(r.name),
                #[trigger] terms[i],
            ) && !text::contains_text(text::lowered(r.description), terms[i]),
    ensures
        relevance(r, terms) <= terms.len(),
    decreases terms.len(),
{
    if terms.len() > 0 {
        let rest = terms.drop_last();
        assert forall|i: int| 0 <= i < rest.len() implies !text::contains_text(
            text::lowered(r.name),
            #[trigger] rest[i],
        ) && !text::contains_text(text::lowered(r.description), rest[i]) by {
            assert(rest[i] == terms[i]);
        }
        lemma_only_in_body(r, rest);
        assert(terms.last() == terms[terms.len() - 1]);
    }
}

/// **A memory about the query outranks one that merely mentions it**: with all
/// the query's terms in its name, it scores above one that has them in its body
/// alone.
pub proof fn law_a_name_match_outranks_a_body_mention(a: Entry, b: Entry, query: Seq<char>)
    requires
        query_terms(query).len() > 0,
        forall|i: int|
            0 <= i < query_terms(query).len() ==> text::contains_text(
                text::lowered(a.record@.name),
                #[trigger] query_terms(query)[i],
            ),
        forall|i: int|
            0 <= i < query_terms(query).len() ==> !text::contains_text(
                text::lowered(b.record@.name),
                #[trigger] query_terms(query)[i],
            ) && !text::contains_text(
                text::lowered(b.record@.description),
                query_terms(query)[i],
            ),
    ensures
        score_of(a, query) > score_of(b, query),
{
    lemma_all_in_name(a.record@, query_terms(query));
    lemma_only_in_body(b.record@, query_terms(query));
}

} // verus!
