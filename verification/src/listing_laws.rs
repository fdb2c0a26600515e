//! What listing and looking up are for: which entries are found, in which order
//! they stand, and what one page of them holds.

use vstd::prelude::*;

use crate::fence;
use crate::fence_laws;
use crate::listing;
use crate::order;
use crate::record::{Entry, KeyView, MemoryRecord, MemoryType, RecordView};
use crate::record;
use crate::server;
use crate::store::{FoundView, ItemView};
use crate::store;
use crate::text;

verus! {

// ---------------------------------------------------------------------------
// What is found
// ---------------------------------------------------------------------------

/// **Each listed item is judged by itself**: it is found, with its value as it
/// stands, exactly where its key can be read and is of the type asked for.
pub proof fn law_an_item_is_judged_by_itself(item: ItemView, kind: Option<MemoryType>)
    ensures
        store::found_entries(seq![item], kind) == match record::parsed_key(item.key) {
            Ok(key) => if kind is None || kind == Some(key.kind) {
                seq![FoundView { key, value: item.value }]
            } else {
                Seq::<FoundView>::empty()
            },
            Err(_) => Seq::<FoundView>::empty(),
        },
{
    let wanted = |i: ItemView| store::is_wanted(i.key, kind);
    let one = seq![item];
    crate::lists::lemma_filter_step(one, 0, wanted);
    crate::lists::lemma_filter_nothing(one, wanted);
    assert(one.take(1) == one);
    let read = |i: ItemView| store::found_entry(i);
    if wanted(item) {
        assert(one.filter(wanted) == seq![item]);
        assert(seq![item].map_values(read) == seq![store::found_entry(item)]);
    } else {
        assert(one.filter(wanted) == Seq::<ItemView>::empty());
        assert(Seq::<ItemView>::empty().map_values(read) == Seq::<FoundView>::empty());
    }
}

/// **What is found stands in the order it was listed in**: finding in two lists
/// on end is finding in the one and then in the other.
pub proof fn law_finding_keeps_the_order(
    a: Seq<ItemView>,
    b: Seq<ItemView>,
    kind: Option<MemoryType>,
)
    ensures
        store::found_entries(a + b, kind) == store::found_entries(a, kind) + store::found_entries(
            b,
            kind,
        ),
        store::found_entries(Seq::empty(), kind) == Seq::<FoundView>::empty(),
{
    let wanted = |i: ItemView| store::is_wanted(i.key, kind);
    let read = |i: ItemView| store::found_entry(i);
    Seq::filter_distributes_over_add(a, b, wanted);
    assert((a.filter(wanted) + b.filter(wanted)).map_values(read) == a.filter(wanted).map_values(
        read,
    ) + b.filter(wanted).map_values(read));
    crate::lists::lemma_filter_nothing(Seq::<ItemView>::empty(), wanted);
    assert(Seq::<ItemView>::empty().take(0) == Seq::<ItemView>::empty());
    assert(Seq::<ItemView>::empty().map_values(read) == Seq::<FoundView>::empty());
}

/// **A lookup finds the first entry under the key**, and finds one wherever there
/// is one.
pub proof fn law_a_lookup_finds_the_first(entries: Seq<Entry>, key: KeyView, i: int)
    requires
        0 <= i <= entries.len(),
        forall|k: int| 0 <= k < i ==> (#[trigger] entries[k]).key@ != key,
        i < entries.len() ==> entries[i].key@ == key,
    ensures
        store::first_under(entries, key) == if i < entries.len() {
            Some(entries[i])
        } else {
            None
        },
    decreases entries.len(),
{
    if i > 0 {
        assert(entries[0].key@ != key);
        let rest = entries.skip(1);
        assert forall|k: int| 0 <= k < i - 1 implies (#[trigger] rest[k]).key@ != key by {
            assert(rest[k] == entries[k + 1]);
        }
        law_a_lookup_finds_the_first(rest, key, i - 1);
    }
}

/// **A lookup that finds nothing says which key it looked for, and where.**
pub proof fn law_a_failed_lookup_names_the_key(key: KeyView, context_id: Seq<char>)
    ensures
        server::no_memory(key, context_id) == "no memory `"@ + key.kind.name() + "/"@ + key.slug
            + "` in context `"@ + context_id + "`"@,
{
}

// ---------------------------------------------------------------------------
// Key order
// ---------------------------------------------------------------------------

/// **A listing in key order is the same entries, the smaller key first.**
pub proof fn law_key_order_puts_the_smaller_key_first(entries: Seq<Entry>)
    ensures
        listing::by_key(entries).len() == entries.len(),
        listing::by_key(entries).to_multiset() == entries.to_multiset(),
        forall|i: int, j: int|
            0 <= i < j < entries.len() ==> !text::text_before(
                (#[trigger] listing::by_key(entries)[j]).key@.text(),
                (#[trigger] listing::by_key(entries)[i]).key@.text(),
            ),
{
    let before = listing::key_order();
    let all = listing::by_key(entries);
    listing::lemma_key_order();
    order::law_sorting_is_well_defined(before, entries);
    order::law_sorting_keeps_everything(before, entries);
    assert forall|i: int, j: int| 0 <= i < j < entries.len() implies !text::text_before(
        (#[trigger] all[j]).key@.text(),
        (#[trigger] all[i]).key@.text(),
    ) by {
        assert(!before(all[j], all[i]));
    }
}

/// **Entries under one key keep the order they were listed in.**
pub proof fn law_entries_under_one_key_keep_their_order(entries: Seq<Entry>, i: int)
    requires
        0 <= i < entries.len(),
    ensures
        listing::by_key(entries).filter(|e: Entry| e.key@.text() == entries[i].key@.text())
            == entries.filter(|e: Entry| e.key@.text() == entries[i].key@.text()),
{
    let before = listing::key_order();
    let h = entries[i];
    let same = |e: Entry| e.key@.text() == entries[i].key@.text();
    let tie = |e: Entry| order::ties(before, e, h);
    listing::lemma_key_order();
    order::law_sorting_is_well_defined(before, entries);
    assert forall|e: Entry| #[trigger] same(e) == tie(e) by {
        text::lemma_text_before_total(e.key@.text(), h.key@.text());
        text::lemma_text_before_irreflexive(h.key@.text());
    }
    assert(same =~= tie);
    assert(order::tied(before, listing::by_key(entries), h) == order::tied(before, entries, h));
}

// ---------------------------------------------------------------------------
// Pages
// ---------------------------------------------------------------------------

/// **A page is full unless the listing ends**: it has as many entries as were
/// asked for, or all that are left, and its entries are those that stand in key
/// order from the offset on.
pub proof fn law_a_page_is_full_unless_the_listing_ends(
    entries: Seq<Entry>,
    offset: nat,
    limit: nat,
)
    ensures
        server::page(entries, offset, limit).len() == if offset >= entries.len() {
            0
        } else if entries.len() - offset <= limit {
            (entries.len() - offset) as nat
        } else {
            limit
        },
        forall|k: int|
            0 <= k < server::page(entries, offset, limit).len() ==> #[trigger] server::page(
                entries,
                offset,
                limit,
            )[k] == listing::by_key(entries)[offset + k],
{
    listing::lemma_key_order();
    order::law_sorting_keeps_everything(listing::key_order(), entries);
    assert(listing::by_key(entries).len() == entries.len());
}

/// **The next page starts where this one ends**, and there is one exactly where
/// something is left.
pub proof fn law_the_next_page_starts_where_this_one_ends(
    entries: Seq<Entry>,
    offset: nat,
    limit: nat,
)
    ensures
        server::next_page(entries, offset, limit) == if offset + limit < entries.len() {
            Some(offset + limit)
        } else {
            None
        },
{
    law_a_page_is_full_unless_the_listing_ends(entries, offset, limit);
}

/// **A limit is taken as it is asked for, from one to the most there may be.**
pub proof fn law_a_limit_is_kept_within_its_range(n: usize, most: usize)
    requires
        most >= 1,
    ensures
        1 <= server::clamped(n, most) <= most,
        1 <= n <= most ==> server::clamped(n, most) == n,
        n < 1 ==> server::clamped(n, most) == 1,
        n > most ==> server::clamped(n, most) == most,
        server::LIST_DEFAULT_LIMIT == 50,
        server::LIST_MAX_LIMIT == 200,
        server::RECALL_MAX_LIMIT == 100,
{
}

/// **A recall returns as many as were asked for, or as are configured, or eight**,
/// and in any case from one to a hundred.
pub proof fn law_a_recall_limit_is_the_one_asked_for(
    asked: Option<usize>,
    configured: Option<usize>,
)
    ensures
        1 <= server::recall_limit(asked, configured) <= 100,
        asked matches Some(n) ==> 1 <= n <= 100 ==> server::recall_limit(asked, configured) == n,
        asked is None ==> (configured matches Some(n) ==> 1 <= n <= 100 ==> server::recall_limit(
            asked,
            configured,
        ) == n),
        asked is None && configured is None ==> server::recall_limit(asked, configured) == 8,
        asked matches Some(n) ==> n > 100 ==> server::recall_limit(asked, configured) == 100,
        asked is None ==> (configured matches Some(n) ==> n > 100 ==> server::recall_limit(
            asked,
            configured,
        ) == 100),
{
}

// ---------------------------------------------------------------------------
// What is shown of an entry
// ---------------------------------------------------------------------------

/// **A summary shows the memory's own key, name, description and links**, each
/// whole unless it holds a delimiter shape, with its type and its stamp as they
/// are, and says that it is data.
pub proof fn law_a_summary_shows_the_memory_as_it_is(r: RecordView, key: KeyView)
    ensures
        ({
            let s = record::summarised(r, key);
            &&& s.key == key.kind.name() + "/"@ + key.slug
            &&& s.kind == r.kind
            &&& s.updated_at == r.updated_at
            &&& s.trust == "untrusted-data"@
            &&& s.links.len() == r.links.len()
            &&& s.name == fence::sanitized(r.name)
            &&& s.description == fence::sanitized(r.description)
            &&& forall|i: int|
                0 <= i < r.links.len() ==> #[trigger] s.links[i] == fence::sanitized(r.links[i])
            &&& !text::contains_text(r.name, "UNTRUSTED-MEMORY"@) ==> s.name == r.name
            &&& !text::contains_text(r.description, "UNTRUSTED-MEMORY"@) ==> s.description
                == r.description
            &&& forall|i: int|
                0 <= i < r.links.len() && !text::contains_text(r.links[i], "UNTRUSTED-MEMORY"@)
                    ==> #[trigger] s.links[i] == r.links[i]
        }),
{
    let s = record::summarised(r, key);
    if !text::contains_text(r.name, "UNTRUSTED-MEMORY"@) {
        fence_laws::law_text_without_the_sentinel_is_unchanged(r.name);
    }
    if !text::contains_text(r.description, "UNTRUSTED-MEMORY"@) {
        fence_laws::law_text_without_the_sentinel_is_unchanged(r.description);
    }
    assert forall|i: int|
        0 <= i < r.links.len() && !text::contains_text(
            r.links[i],
            "UNTRUSTED-MEMORY"@,
        ) implies #[trigger] s.links[i] == r.links[i] by {
        fence_laws::law_text_without_the_sentinel_is_unchanged(r.links[i]);
    }
}

/// **What is listed is summed up entry by entry**: an entry's summary is that of
/// its own record under its own key.
pub proof fn law_an_entry_is_summed_up_by_itself(e: Entry)
    ensures
        server::entry_summary(e) == record::summarised(e.record@, e.key@),
        e.key@ == (KeyView { kind: e.key.kind, slug: e.key.slug@ }),
        e.record@ == (RecordView {
            v: e.record.v,
            name: e.record.name@,
            kind: e.record.kind,
            description: e.record.description@,
            body: e.record.body@,
            links: e.record.links@.map_values(|l: String| l@),
            updated_at: e.record.updated_at@,
        }),
{
}

/// **An entry is its own value, decoded**: under the key it was found with, the
/// record that its value was read as, or the value itself kept whole.
pub proof fn law_an_entry_is_its_own_value_decoded(
    e: Entry,
    f: FoundView,
    parsed: Option<MemoryRecord>,
)
    requires
        store::is_decoded(e, f, parsed),
    ensures
        e.key@ == f.key,
        parsed matches Some(r) ==> e.record@ == r@,
        parsed is None ==> {
            &&& e.record@.body == f.value
            &&& e.record@.name == f.key.slug
            &&& e.record@.kind == MemoryType::Reference
            &&& e.record@.v == 0
            &&& e.record@.description == record::first_line_of(f.value)
            &&& e.record@.links.len() == 0
            &&& e.record@.updated_at.len() == 0
        },
{
}

} // verus!
