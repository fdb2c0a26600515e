//! What recall is for: what a memory scores, which memories come back, and which
//! come first, said of the query's words and of the memory's own fields.

use vstd::prelude::*;

use crate::lists;
use crate::rank;
use crate::record::{Entry, Hit, RecordView};
use crate::store;
use crate::store_laws;
use crate::text;
use crate::text_laws;

verus! {

// ---------------------------------------------------------------------------
// Scores
// ---------------------------------------------------------------------------

/// `r` holds `term` in its name, its description or its body, whatever the case.
pub open spec fn mentions(r: RecordView, term: Seq<char>) -> bool {
    ||| text::contains_text(text::lowered(r.name), term)
    ||| text::contains_text(text::lowered(r.description), term)
    ||| text::contains_text(text::lowered(r.body), term)
}

/// **Each field counts by itself**: a query of one word adds four where the name
/// holds it, two where the description does and one where the body does, each
/// whatever the other two hold. A word of a single character is not looked for.
pub proof fn law_each_field_counts_by_itself(e: Entry, word: Seq<char>)
    requires
        text_laws::all_alnum(word),
    ensures
        word.len() < 2 ==> rank::score_of(e, word) == 0,
        word.len() >= 2 ==> rank::score_of(e, word) == (if text::contains_text(
            text::lowered(e.record.name@),
            text::lowered(word),
        ) {
            4int
        } else {
            0
        }) + (if text::contains_text(text::lowered(e.record.description@), text::lowered(word)) {
            2int
        } else {
            0
        }) + (if text::contains_text(text::lowered(e.record.body@), text::lowered(word)) {
            1int
        } else {
            0
        }),
{
    text_laws::law_letters_on_end_are_one_word(word);
    let long = |w: Seq<char>| w.len() > 1;
    let all = text::words(word);
    if word.len() < 2 {
        all.lemma_all_neg_filter_empty(long);
    } else {
        let terms = rank::query_terms(word);
        lists::lemma_filter_step(all, 0, long);
        lists::lemma_filter_nothing(all, long);
        assert(all.take(1) == all);
        assert(terms == seq![text::lowered(word)]);
        assert(terms.drop_last() == Seq::<Seq<char>>::empty());
        assert(rank::relevance(e.record@, terms.drop_last()) == 0);
    }
}

proof fn lemma_relevance_adds(r: RecordView, a: Seq<Seq<char>>, b: Seq<Seq<char>>)
    ensures
        rank::relevance(r, a + b) == rank::relevance(r, a) + rank::relevance(r, b),
    decreases b.len(),
{
    if b.len() == 0 {
        assert(a + b == a);
    } else {
        lemma_relevance_adds(r, a, b.drop_last());
        assert((a + b).drop_last() == a + b.drop_last());
        assert((a + b).last() == b.last());
    }
}

/// **Scores add up over the words of a query**: what is no letter and no digit
/// parts a query into two that count each for itself.
pub proof fn law_scores_add_up(e: Entry, a: Seq<char>, c: char, b: Seq<char>)
    requires
        !text::is_alnum(c),
    ensures
        rank::score_of(e, a + seq![c] + b) == rank::score_of(e, a) + rank::score_of(e, b),
{
    let long = |w: Seq<char>| w.len() > 1;
    text_laws::law_anything_else_parts_words(a, c, b);
    Seq::filter_distributes_over_add(text::words(a), text::words(b), long);
    lemma_relevance_adds(e.record@, rank::query_terms(a), rank::query_terms(b));
}

proof fn lemma_a_term_counts(r: RecordView, terms: Seq<Seq<char>>, k: int)
    requires
        0 <= k < terms.len(),
    ensures
        rank::relevance(r, terms) >= rank::term_score(r, terms[k]),
    decreases terms.len(),
{
    if k < terms.len() - 1 {
        lemma_a_term_counts(r, terms.drop_last(), k);
        assert(terms.drop_last()[k] == terms[k]);
    }
}

/// **A word that stands in a field counts, whatever the other fields hold**: it
/// adds at least four from the name, two from the description and one from the
/// body, and what several fields hold adds up.
pub proof fn law_a_match_counts(e: Entry, query: Seq<char>, term: Seq<char>)
    requires
        text::words(query).contains(term),
        term.len() >= 2,
    ensures
        rank::score_of(e, query) >= (if text::contains_text(text::lowered(e.record.name@), term) {
            4int
        } else {
            0
        }) + (if text::contains_text(text::lowered(e.record.description@), term) {
            2int
        } else {
            0
        }) + (if text::contains_text(text::lowered(e.record.body@), term) {
            1int
        } else {
            0
        }),
        text::contains_text(text::lowered(e.record.name@), term) ==> rank::score_of(e, query) >= 4,
        text::contains_text(text::lowered(e.record.description@), term) ==> rank::score_of(
            e,
            query,
        ) >= 2,
        text::contains_text(text::lowered(e.record.body@), term) ==> rank::score_of(e, query) >= 1,
{
    lists::lemma_filter_members(text::words(query), |w: Seq<char>| w.len() > 1);
    let terms = rank::query_terms(query);
    assert(terms.contains(term));
    let k = choose|k: int| 0 <= k < terms.len() && terms[k] == term;
    lemma_a_term_counts(e.record@, terms, k);
}

proof fn lemma_nothing_mentioned(r: RecordView, terms: Seq<Seq<char>>)
    requires
        forall|i: int| 0 <= i < terms.len() ==> !mentions(r, #[trigger] terms[i]),
    ensures
        rank::relevance(r, terms) == 0,
    decreases terms.len(),
{
    if terms.len() > 0 {
        let rest = terms.drop_last();
        assert forall|i: int| 0 <= i < rest.len() implies !mentions(r, #[trigger] rest[i]) by {
            assert(rest[i] == terms[i]);
        }
        lemma_nothing_mentioned(r, rest);
        assert(!mentions(r, terms[terms.len() - 1]));
    }
}

/// **A memory matches exactly where it mentions what is looked for**: it scores
/// above zero where one of the query's words of two characters or more stands in
/// its name, its description or its body, and nowhere else.
pub proof fn law_a_memory_matches_where_it_mentions(e: Entry, query: Seq<char>)
    ensures
        rank::score_of(e, query) > 0 <==> exists|term: Seq<char>|
            #[trigger] text::words(query).contains(term) && term.len() >= 2 && mentions(
                e.record@,
                term,
            ),
{
    let terms = rank::query_terms(query);
    lists::lemma_filter_members(text::words(query), |w: Seq<char>| w.len() > 1);
    if exists|term: Seq<char>|
        #[trigger] text::words(query).contains(term) && term.len() >= 2 && mentions(
            e.record@,
            term,
        ) {
        let term = choose|term: Seq<char>|
            #[trigger] text::words(query).contains(term) && term.len() >= 2 && mentions(
                e.record@,
                term,
            );
        law_a_match_counts(e, query, term);
    } else {
        assert forall|i: int| 0 <= i < terms.len() implies !mentions(
            e.record@,
            #[trigger] terms[i],
        ) by {
            assert(terms.contains(terms[i]));
        }
        lemma_nothing_mentioned(e.record@, terms);
    }
}

// ---------------------------------------------------------------------------
// What comes back
// ---------------------------------------------------------------------------

/// **A memory that mentions what is looked for comes back**: where one of the
/// query's words stands in its name, its description or its body, and there is
/// room for every memory, it is among what recall returns.
pub proof fn law_what_mentions_the_query_comes_back(
    entries: Seq<Entry>,
    query: Seq<char>,
    limit: nat,
    k: int,
    term: Seq<char>,
)
    requires
        rank::scores_fit(entries, query),
        entries.len() <= limit,
        0 <= k < entries.len(),
        text::words(query).contains(term),
        term.len() >= 2,
        mentions(entries[k].record@, term),
    ensures
        exists|i: int|
            0 <= i < store::recalled(entries, query, limit).len() && (#[trigger] store::recalled(
                entries,
                query,
                limit,
            )[i]).entry == entries[k],
{
    law_a_match_counts(entries[k], query, term);
    law_how_many_come_back(entries, query, limit + 1);
    entries.lemma_filter_len(|e: Entry| rank::score_of(e, query) > 0);
    store_laws::law_recall_misses_nothing(entries, query, limit + 1, k);
    assert(store::recalled(entries, query, limit) == store::recalled(entries, query, limit + 1));
}

/// **What comes back mentions what is looked for**: unless the query is white
/// space throughout, every hit is a memory of the context with one of the
/// query's words in its name, its description or its body.
pub proof fn law_what_comes_back_mentions_the_query(
    entries: Seq<Entry>,
    query: Seq<char>,
    limit: nat,
    i: int,
)
    requires
        rank::scores_fit(entries, query),
        0 <= i < store::recalled(entries, query, limit).len(),
    ensures
        entries.contains(store::recalled(entries, query, limit)[i].entry),
        store::recalled(entries, query, limit)[i].score == rank::score_of(
            store::recalled(entries, query, limit)[i].entry,
            query,
        ),
        !text_laws::all_space(query) ==> exists|term: Seq<char>|
            #[trigger] text::words(query).contains(term) && term.len() >= 2 && mentions(
                store::recalled(entries, query, limit)[i].entry.record@,
                term,
            ),
{
    store_laws::law_recall_returns_only_matches(entries, query, limit, i);
    text_laws::law_blank_is_white_space_throughout(query);
    law_a_memory_matches_where_it_mentions(
        store::recalled(entries, query, limit)[i].entry,
        query,
    );
}

proof fn lemma_filter_counts<T>(s: Seq<T>, p: spec_fn(T) -> bool, x: T)
    ensures
        s.filter(p).to_multiset().count(x) == if p(x) {
            s.to_multiset().count(x)
        } else {
            0
        },
    decreases s.len(),
{
    broadcast use vstd::seq_lib::group_to_multiset_ensures;

    reveal(Seq::filter);
    if s.len() > 0 {
        let rest = s.drop_last();
        lemma_filter_counts(rest, p, x);
        assert(s == rest.push(s.last()));
        assert(s.to_multiset() == rest.to_multiset().insert(s.last()));
        if p(s.last()) {
            assert(s.filter(p).to_multiset() == rest.filter(p).to_multiset().insert(s.last()));
        }
    }
}

proof fn lemma_same_things_filter_alike<T>(a: Seq<T>, b: Seq<T>, p: spec_fn(T) -> bool)
    requires
        a.to_multiset() == b.to_multiset(),
    ensures
        a.filter(p).len() == b.filter(p).len(),
{
    broadcast use vstd::seq_lib::group_to_multiset_ensures;

    assert forall|x: T|
        a.filter(p).to_multiset().count(x) == b.filter(p).to_multiset().count(x) by {
        lemma_filter_counts(a, p, x);
        lemma_filter_counts(b, p, x);
    }
    assert(a.filter(p).to_multiset() =~= b.filter(p).to_multiset());
    assert(a.filter(p).to_multiset().len() == a.filter(p).len());
    assert(b.filter(p).to_multiset().len() == b.filter(p).len());
}

proof fn lemma_scored_filter_len(entries: Seq<Entry>, query: Seq<char>)
    requires
        rank::scores_fit(entries, query),
    ensures
        rank::scored(entries, query).filter(|h: Hit| h.score > 0).len() == entries.filter(
            |e: Entry| rank::score_of(e, query) > 0,
        ).len(),
    decreases entries.len(),
{
    reveal(Seq::filter);
    if entries.len() > 0 {
        let rest = entries.drop_last();
        assert(rank::scores_fit(rest, query)) by {
            assert forall|i: int| 0 <= i < rest.len() implies rank::score_of(
                #[trigger] rest[i],
                query,
            ) <= u32::MAX by {
                assert(rest[i] == entries[i]);
            }
        }
        lemma_scored_filter_len(rest, query);
        let s = rank::scored(entries, query);
        assert(s.drop_last() == rank::scored(rest, query));
        assert(rank::score_of(entries[entries.len() - 1], query) <= u32::MAX);
    }
}

/// **As many come back as match, up to the limit**: every memory for a query of
/// white space, and else those that score above zero.
pub proof fn law_how_many_come_back(entries: Seq<Entry>, query: Seq<char>, limit: nat)
    requires
        rank::scores_fit(entries, query),
    ensures
        ({
            let n = if text_laws::all_space(query) {
                entries.len()
            } else {
                entries.filter(|e: Entry| rank::score_of(e, query) > 0).len()
            };
            store::recalled(entries, query, limit).len() == if n <= limit {
                n
            } else {
                limit
            }
        }),
{
    let hits = rank::ranked(entries, query);
    text_laws::law_blank_is_white_space_throughout(query);
    rank::law_ranking_keeps_every_entry(entries, query);
    lemma_same_things_filter_alike(
        hits,
        rank::scored(entries, query),
        |h: Hit| h.score > 0,
    );
    lemma_scored_filter_len(entries, query);
}

// ---------------------------------------------------------------------------
// What comes first
// ---------------------------------------------------------------------------

/// **The best comes first**: of two hits, the first has the higher score, or, at
/// equal scores, the later stamp, or, at equal stamps too, the smaller key.
pub proof fn law_the_best_comes_first(
    entries: Seq<Entry>,
    query: Seq<char>,
    limit: nat,
    i: int,
    j: int,
)
    requires
        0 <= i < j < store::recalled(entries, query, limit).len(),
    ensures
        ({
            let a = store::recalled(entries, query, limit)[i];
            let b = store::recalled(entries, query, limit)[j];
            &&& a.score >= b.score
            &&& a.score == b.score ==> !text::text_before(
                a.entry.record.updated_at@,
                b.entry.record.updated_at@,
            )
            &&& a.score == b.score && a.entry.record.updated_at@ == b.entry.record.updated_at@
                ==> !text::text_before(b.entry.key@.text(), a.entry.key@.text())
        }),
{
    store_laws::law_recall_is_in_rank_order(entries, query, limit);
    let out = store::recalled(entries, query, limit);
    let before = rank::rank_order();
    assert(!before(out[j], out[i]));
}

/// **Nothing better is left out**: a memory that matches and does not come back
/// was cut off by the limit, and scores no higher than anything that did; at
/// equal scores its stamp is no later, and at equal stamps too its key is no
/// smaller.
pub proof fn law_nothing_better_is_left_out(
    entries: Seq<Entry>,
    query: Seq<char>,
    limit: nat,
    k: int,
    i: int,
)
    requires
        rank::scores_fit(entries, query),
        0 <= k < entries.len(),
        text_laws::all_space(query) || rank::score_of(entries[k], query) > 0,
        forall|m: int|
            0 <= m < store::recalled(entries, query, limit).len() ==> (#[trigger] store::recalled(
                entries,
                query,
                limit,
            )[m]).entry != entries[k],
        0 <= i < store::recalled(entries, query, limit).len(),
    ensures
        store::recalled(entries, query, limit).len() == limit,
        ({
            let h = store::recalled(entries, query, limit)[i];
            let e = entries[k];
            &&& rank::score_of(e, query) <= h.score
            &&& rank::score_of(e, query) == h.score ==> !text::text_before(
                h.entry.record.updated_at@,
                e.record.updated_at@,
            )
            &&& rank::score_of(e, query) == h.score && h.entry.record.updated_at@
                == e.record.updated_at@ ==> !text::text_before(
                e.key@.text(),
                h.entry.key@.text(),
            )
        }),
{
    let out = store::recalled(entries, query, limit);
    let hits = rank::ranked(entries, query);
    let kept = store::worth_returning(hits, query);
    let before = rank::rank_order();
    text_laws::law_blank_is_white_space_throughout(query);
    if out.len() < limit {
        store_laws::law_recall_misses_nothing(entries, query, limit, k);
    }
    let h = rank::scored(entries, query)[k];
    assert(rank::scored(entries, query).contains(h));
    assert(rank::score_of(entries[k], query) <= u32::MAX);
    store_laws::lemma_ranked_members(entries, query, h);
    lists::lemma_filter_members(hits, |x: Hit| x.score > 0);
    assert(kept.contains(h));
    let m = choose|m: int| 0 <= m < kept.len() && kept[m] == h;
    if m < out.len() {
        assert(out[m] == h);
        assert(out[m].entry == entries[k]);
    }
    store_laws::law_recall_is_in_rank_order(entries, query, kept.len());
    assert(store::recalled(entries, query, kept.len()) == kept);
    assert(!before(kept[m], kept[i]));
    assert(out[i] == kept[i]);
}

} // verus!
