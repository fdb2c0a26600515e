//! What holds of saving, listing, recalling and forgetting taken together.

use vstd::prelude::*;

use crate::lists;
use crate::order;
use crate::rank;
use crate::record::{Entry, Hit, KeyView, MemoryRecord, MemoryType, RecordView};
use crate::record;
use crate::record_laws;
use crate::store::{FoundView, ItemView};
use crate::store;
use crate::text;

verus! {

// ---------------------------------------------------------------------------
// Listing
// ---------------------------------------------------------------------------

/// What is found is what was listed under a wanted key.
proof fn lemma_found_members(items: Seq<ItemView>, kind: Option<MemoryType>, f: FoundView)
    ensures
        store::found_entries(items, kind).contains(f) <==> exists|i: int|
            0 <= i < items.len() && store::is_wanted((#[trigger] items[i]).key, kind)
                && store::found_entry(items[i]) == f,
{
    let wanted = |i: ItemView| store::is_wanted(i.key, kind);
    let kept = items.filter(wanted);
    let found = store::found_entries(items, kind);
    lists::lemma_filter_members(items, wanted);
    if found.contains(f) {
        let m = choose|m: int| 0 <= m < found.len() && found[m] == f;
        assert(kept.contains(kept[m]));
        assert(items.contains(kept[m]));
        let i = choose|i: int| 0 <= i < items.len() && items[i] == kept[m];
        assert(store::is_wanted(items[i].key, kind) && store::found_entry(items[i]) == f);
    }
    if exists|i: int|
        0 <= i < items.len() && store::is_wanted((#[trigger] items[i]).key, kind)
            && store::found_entry(items[i]) == f {
        let i = choose|i: int|
            0 <= i < items.len() && store::is_wanted((#[trigger] items[i]).key, kind)
                && store::found_entry(items[i]) == f;
        assert(items.contains(items[i]));
        assert(kept.contains(items[i]));
        let m = choose|m: int| 0 <= m < kept.len() && kept[m] == items[i];
        assert(found[m] == f);
    }
}

/// **What is filed under a key is listed under that key**, where the listing is
/// of everything or of the key's own type, and nowhere else.
pub proof fn law_what_is_filed_is_listed(
    items: Seq<ItemView>,
    i: int,
    key: KeyView,
    kind: Option<MemoryType>,
)
    requires
        0 <= i < items.len(),
        items[i].key == key.text(),
        key.slug.len() > 0,
    ensures
        store::found_entries(items, kind).contains(FoundView { key, value: items[i].value }) <==> (
        kind matches Some(k) ==> k == key.kind),
{
    let f = FoundView { key, value: items[i].value };
    record_laws::law_keys_read_back(key);
    lemma_found_members(items, kind, f);
    match kind {
        None => {
            assert(store::is_wanted(items[i].key, kind) && store::found_entry(items[i]) == f);
        },
        Some(k) => {
            if k == key.kind {
                assert(store::is_wanted(items[i].key, kind) && store::found_entry(items[i]) == f);
            } else if store::found_entries(items, kind).contains(f) {
                let j = choose|j: int|
                    0 <= j < items.len() && store::is_wanted((#[trigger] items[j]).key, kind)
                        && store::found_entry(items[j]) == f;
                assert(store::found_entry(items[j]).key.kind == k);
            }
        },
    }
}

/// **A listing of one type holds nothing of another.**
pub proof fn law_a_listing_of_one_type_holds_only_that(
    items: Seq<ItemView>,
    kind: MemoryType,
    i: int,
)
    requires
        0 <= i < store::found_entries(items, Some(kind)).len(),
    ensures
        store::found_entries(items, Some(kind))[i].key.kind == kind,
{
    let found = store::found_entries(items, Some(kind));
    assert(found.contains(found[i]));
    lemma_found_members(items, Some(kind), found[i]);
    let j = choose|j: int|
        0 <= j < items.len() && store::is_wanted((#[trigger] items[j]).key, Some(kind))
            && store::found_entry(items[j]) == found[i];
    assert(store::found_entry(items[j]).key.kind == kind);
}

/// **Narrowing by type before decoding loses nothing**: it lists exactly the
/// entries that a full listing shows with that type, in the same order.
pub proof fn law_narrowing_by_prefix_is_narrowing_by_type(
    items: Seq<ItemView>,
    kind: MemoryType,
)
    ensures
        store::found_entries(items, Some(kind)) == store::found_entries(items, None).filter(
            |f: FoundView| f.key.kind == kind,
        ),
    decreases items.len(),
{
    let all = |i: ItemView| store::is_wanted(i.key, None);
    let some = |i: ItemView| store::is_wanted(i.key, Some(kind));
    let read = |i: ItemView| store::found_entry(i);
    let of_kind = |f: FoundView| f.key.kind == kind;
    reveal(Seq::filter);
    if items.len() > 0 {
        let rest = items.drop_last();
        let last = items.last();
        law_narrowing_by_prefix_is_narrowing_by_type(rest, kind);
        assert(items[items.len() - 1] == last);
        if all(last) {
            let key = record::parsed_key(last.key)->Ok_0;
            assert(some(last) <==> key.kind == kind);
            let found = store::found_entries(rest, None);
            assert(store::found_entries(items, None) == found.push(store::found_entry(last)));
            assert(found.push(store::found_entry(last)).drop_last() == found);
            if key.kind == kind {
                assert(store::found_entries(items, Some(kind)) == store::found_entries(
                    rest,
                    Some(kind),
                ).push(store::found_entry(last)));
            }
        } else {
            assert(!some(last));
        }
    } else {
        assert(store::found_entries(items, Some(kind)) == Seq::<FoundView>::empty());
        assert(store::found_entries(items, None) == Seq::<FoundView>::empty());
    }
}

/// **Saving the same type and name again replaces, and nothing else does**: two
/// names are filed under one key exactly where their types and their words
/// agree.
pub proof fn law_saving_again_goes_to_the_same_key(
    kind_a: MemoryType,
    a: Seq<char>,
    kind_b: MemoryType,
    b: Seq<char>,
)
    requires
        text::words(a).len() > 0,
        text::words(b).len() > 0,
    ensures
        record::named_key(kind_a, a) is Ok,
        record::named_key(kind_b, b) is Ok,
        record::named_key(kind_a, a)->Ok_0.text() == record::named_key(kind_b, b)->Ok_0.text()
            <==> kind_a == kind_b && text::words(a) == text::words(b),
{
    record_laws::law_a_name_needs_a_word(kind_a, a);
    record_laws::law_a_name_needs_a_word(kind_b, b);
    record_laws::law_the_words_are_the_identity(a, b);
    let ka = record::named_key(kind_a, a)->Ok_0;
    let kb = record::named_key(kind_b, b)->Ok_0;
    if ka.text() == kb.text() {
        record_laws::law_key_text_identifies_the_key(ka, kb);
    }
}

// ---------------------------------------------------------------------------
// What comes back
// ---------------------------------------------------------------------------

proof fn lemma_first_under(entries: Seq<Entry>, key: KeyView)
    ensures
        store::first_under(entries, key) matches Some(e) ==> entries.contains(e) && e.key@ == key,
        store::first_under(entries, key) is None ==> forall|i: int|
            0 <= i < entries.len() ==> (#[trigger] entries[i]).key@ != key,
    decreases entries.len(),
{
    if entries.len() > 0 {
        if entries[0].key@ == key {
            assert(entries.contains(entries[0]));
        } else {
            let rest = entries.skip(1);
            lemma_first_under(rest, key);
            match store::first_under(rest, key) {
                Some(e) => {
                    let i = choose|i: int| 0 <= i < rest.len() && rest[i] == e;
                    assert(entries[i + 1] == e);
                },
                None => {
                    assert forall|i: int| 0 <= i < entries.len() implies (
                    #[trigger] entries[i]).key@ != key by {
                        if i > 0 {
                            assert(rest[i - 1] == entries[i]);
                        }
                    }
                },
            }
        }
    }
}

/// `entries` is a full listing of `items`, each value read for the record that
/// was encoded as it.
pub open spec fn is_faithful_listing(
    items: Seq<ItemView>,
    entries: Seq<Entry>,
    parsed: Seq<Option<MemoryRecord>>,
) -> bool {
    let found = store::found_entries(items, None);
    &&& entries.len() == found.len()
    &&& parsed.len() == found.len()
    &&& forall|i: int|
        0 <= i < entries.len() ==> store::is_decoded(#[trigger] entries[i], found[i], parsed[i])
    &&& forall|i: int|
        0 <= i < entries.len() ==> record::maybe_record(#[trigger] parsed[i])
            == record_laws::read_back(found[i].value)
}

/// **What was saved comes back.** Filed under the key and with the value that
/// saving `r` asks for, and with no other entry of that key, the record is what
/// a lookup finds, unchanged.
pub proof fn law_a_saved_memory_comes_back(
    r: RecordView,
    key: KeyView,
    items: Seq<ItemView>,
    i: int,
    entries: Seq<Entry>,
    parsed: Seq<Option<MemoryRecord>>,
)
    requires
        record::named_key(r.kind, r.name) == Ok::<KeyView, record::KeyErrorView>(key),
        0 <= i < items.len(),
        items[i] == (ItemView { key: key.text(), value: record::wire_text(r) }),
        forall|j: int|
            0 <= j < items.len() && j != i ==> record::parsed_key((#[trigger] items[j]).key) != Ok::<
                KeyView,
                record::KeyErrorView,
            >(key),
        is_faithful_listing(items, entries, parsed),
    ensures
        store::first_under(entries, key) is Some,
        store::first_under(entries, key)->Some_0.record@ == r,
{
    let found = store::found_entries(items, None);
    let f = FoundView { key, value: record::wire_text(r) };
    record_laws::law_keys_read_back(key);
    law_what_is_filed_is_listed(items, i, key, None);
    let m = choose|m: int| 0 <= m < found.len() && found[m] == f;
    assert(entries[m].key@ == key) by {
        assert(store::is_decoded(entries[m], found[m], parsed[m]));
    }
    lemma_first_under(entries, key);
    let e = store::first_under(entries, key)->Some_0;
    let n = choose|n: int| 0 <= n < entries.len() && entries[n] == e;
    assert(store::is_decoded(entries[n], found[n], parsed[n]));
    assert(found.contains(found[n]));
    lemma_found_members(items, None, found[n]);
    let j = choose|j: int|
        0 <= j < items.len() && store::is_wanted((#[trigger] items[j]).key, None)
            && store::found_entry(items[j]) == found[n];
    assert(j == i);
    record_laws::law_records_come_back(key, r);
    assert(record::maybe_record(parsed[n]) == record_laws::read_back(found[n].value));
}

/// **What was forgotten is gone**: where nothing is listed under a key, a
/// lookup of that key finds nothing.
pub proof fn law_a_forgotten_memory_is_gone(
    key: KeyView,
    items: Seq<ItemView>,
    entries: Seq<Entry>,
    parsed: Seq<Option<MemoryRecord>>,
)
    requires
        forall|j: int|
            0 <= j < items.len() ==> record::parsed_key((#[trigger] items[j]).key) != Ok::<
                KeyView,
                record::KeyErrorView,
            >(key),
        is_faithful_listing(items, entries, parsed),
    ensures
        store::first_under(entries, key) is None,
{
    let found = store::found_entries(items, None);
    lemma_first_under(entries, key);
    if store::first_under(entries, key) is Some {
        let e = store::first_under(entries, key)->Some_0;
        let n = choose|n: int| 0 <= n < entries.len() && entries[n] == e;
        assert(store::is_decoded(entries[n], found[n], parsed[n]));
        assert(found.contains(found[n]));
        lemma_found_members(items, None, found[n]);
        let j = choose|j: int|
            0 <= j < items.len() && store::is_wanted((#[trigger] items[j]).key, None)
                && store::found_entry(items[j]) == found[n];
        assert(record::parsed_key(items[j].key) == Ok::<KeyView, record::KeyErrorView>(key));
    }
}

// ---------------------------------------------------------------------------
// Recall
// ---------------------------------------------------------------------------

pub proof fn lemma_ranked_members(entries: Seq<Entry>, query: Seq<char>, h: Hit)
    ensures
        rank::ranked(entries, query).contains(h) <==> rank::scored(entries, query).contains(h),
{
    broadcast use vstd::seq_lib::group_to_multiset_ensures;

    rank::law_ranking_keeps_every_entry(entries, query);
    let a = rank::ranked(entries, query);
    let b = rank::scored(entries, query);
    assert(a.contains(h) <==> a.to_multiset().count(h) > 0);
    assert(b.contains(h) <==> b.to_multiset().count(h) > 0);
}

proof fn lemma_at_most_members(hits: Seq<Hit>, limit: nat, i: int)
    requires
        0 <= i < store::at_most(hits, limit).len(),
    ensures
        store::at_most(hits, limit)[i] == hits[i],
        hits.contains(hits[i]),
{
}

/// **Recall invents nothing**: every hit is an entry of the context, with the
/// score it has for the query; a query that says something returns only entries
/// that match it; and there are never more hits than were asked for.
pub proof fn law_recall_returns_only_matches(
    entries: Seq<Entry>,
    query: Seq<char>,
    limit: nat,
    i: int,
)
    requires
        rank::scores_fit(entries, query),
        0 <= i < store::recalled(entries, query, limit).len(),
    ensures
        ({
            let h = store::recalled(entries, query, limit)[i];
            &&& entries.contains(h.entry)
            &&& h.score == rank::score_of(h.entry, query)
            &&& !text::is_blank(query) ==> h.score > 0
        }),
        store::recalled(entries, query, limit).len() <= limit,
{
    let hits = rank::ranked(entries, query);
    let kept = store::worth_returning(hits, query);
    lists::lemma_filter_members(hits, |h: Hit| h.score > 0);
    lemma_at_most_members(kept, limit, i);
    let h = kept[i];
    assert(hits.contains(h));
    lemma_ranked_members(entries, query, h);
    let scored = rank::scored(entries, query);
    let k = choose|k: int| 0 <= k < scored.len() && scored[k] == h;
    assert(entries[k] == h.entry);
    assert(entries.contains(entries[k]));
}

/// **Recall leaves nothing out that there was room for**: where it returns
/// fewer hits than were asked for, every entry that matches the query is among
/// them, and for a blank query every entry is.
pub proof fn law_recall_misses_nothing(
    entries: Seq<Entry>,
    query: Seq<char>,
    limit: nat,
    k: int,
)
    requires
        rank::scores_fit(entries, query),
        store::recalled(entries, query, limit).len() < limit,
        0 <= k < entries.len(),
        text::is_blank(query) || rank::score_of(entries[k], query) > 0,
    ensures
        exists|i: int|
            0 <= i < store::recalled(entries, query, limit).len() && (#[trigger] store::recalled(
                entries,
                query,
                limit,
            )[i]).entry == entries[k],
{
    let hits = rank::ranked(entries, query);
    let kept = store::worth_returning(hits, query);
    lists::lemma_filter_members(hits, |h: Hit| h.score > 0);
    let h = rank::scored(entries, query)[k];
    assert(rank::scored(entries, query).contains(h));
    lemma_ranked_members(entries, query, h);
    assert(rank::score_of(entries[k], query) <= u32::MAX);
    assert(kept.contains(h));
    let i = choose|i: int| 0 <= i < kept.len() && kept[i] == h;
    assert(store::recalled(entries, query, limit)[i].entry == entries[k]);
}

/// **A blank query returns the context, up to the limit.**
pub proof fn law_a_blank_query_returns_the_context(
    entries: Seq<Entry>,
    query: Seq<char>,
    limit: nat,
)
    requires
        text::is_blank(query),
    ensures
        store::recalled(entries, query, limit).len() == if entries.len() <= limit {
            entries.len()
        } else {
            limit
        },
{
    rank::law_ranking_keeps_every_entry(entries, query);
}

proof fn lemma_filtered_in_order(s: Seq<Hit>, p: spec_fn(Hit) -> bool)
    requires
        order::in_order(rank::rank_order(), s),
    ensures
        order::in_order(rank::rank_order(), s.filter(p)),
    decreases s.len(),
{
    reveal(Seq::filter);
    let before = rank::rank_order();
    if s.len() > 0 {
        let rest = s.drop_last();
        assert forall|i: int, j: int| 0 <= i < j < rest.len() implies !before(
            #[trigger] rest[j],
            #[trigger] rest[i],
        ) by {
            assert(!before(s[j], s[i]));
        }
        lemma_filtered_in_order(rest, p);
        let out = s.filter(p);
        assert forall|i: int, j: int| 0 <= i < j < out.len() implies !before(
            #[trigger] out[j],
            #[trigger] out[i],
        ) by {
            let kept = rest.filter(p);
            if j < kept.len() {
                assert(!before(kept[j], kept[i]));
            } else {
                lists::lemma_filter_members(rest, p);
                assert(kept.contains(kept[i]));
                let k = choose|k: int| 0 <= k < rest.len() && rest[k] == kept[i];
                assert(!before(s[s.len() - 1], s[k]));
            }
        }
    }
}

/// **Recall shows descriptions, never bodies**: what is answered of a memory
/// does not depend on its body.
pub proof fn law_a_summary_shows_no_body(r: RecordView, body: Seq<char>, key: KeyView)
    ensures
        record::summarised(r, key) == record::summarised(
            RecordView {
                v: r.v,
                name: r.name,
                kind: r.kind,
                description: r.description,
                body,
                links: r.links,
                updated_at: r.updated_at,
            },
            key,
        ),
{
}

/// **Recall returns the best first**: what it returns is in rank order.
pub proof fn law_recall_is_in_rank_order(entries: Seq<Entry>, query: Seq<char>, limit: nat)
    ensures
        order::in_order(rank::rank_order(), store::recalled(entries, query, limit)),
{
    let before = rank::rank_order();
    let hits = rank::ranked(entries, query);
    rank::law_there_is_one_ranking(entries, query);
    lemma_filtered_in_order(hits, |h: Hit| h.score > 0);
    let kept = store::worth_returning(hits, query);
    let out = store::recalled(entries, query, limit);
    assert forall|i: int, j: int| 0 <= i < j < out.len() implies !before(
        #[trigger] out[j],
        #[trigger] out[i],
    ) by {
        assert(!before(kept[j], kept[i]));
    }
}

} // verus!
