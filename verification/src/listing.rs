//! Entries in key order.

use vstd::prelude::*;

use crate::order;
use crate::rank;
use crate::record::Entry;
use crate::text;

verus! {

/// Entries sort by the text of their keys.
pub open spec fn key_order() -> spec_fn(Entry, Entry) -> bool {
    |a: Entry, b: Entry| text::text_before(a.key@.text(), b.key@.text())
}

/// The entries in key order; entries under one key in the order they came in.
pub open spec fn by_key(entries: Seq<Entry>) -> Seq<Entry> {
    order::sorted(key_order(), entries)
}

/// Key order is an order.
pub proof fn lemma_key_order()
    ensures
        order::is_order(key_order()),
{
    reveal(order::is_order);
    let before = key_order();
    assert forall|a: Entry, b: Entry| #[trigger] before(a, b) implies !before(b, a) by {
        text::lemma_text_order(a.key@.text(), b.key@.text(), a.key@.text());
    }
    assert forall|a: Entry, b: Entry, c: Entry|
        #[trigger] before(a, b) && #[trigger] before(b, c) implies before(a, c) by {
        text::lemma_text_order(a.key@.text(), b.key@.text(), c.key@.text());
    }
    assert forall|a: Entry, b: Entry, c: Entry| #[trigger] before(a, c) implies #[trigger] before(
        a,
        b,
    ) || before(b, c) by {
        text::lemma_text_order(a.key@.text(), b.key@.text(), c.key@.text());
    }
}

/// Put `entry` in front of the entries in `out` that do not sort before it.
fn place(out: &mut Vec<Entry>, entry: Entry)
    requires
        order::in_order(key_order(), old(out)@),
    ensures
        order::is_sorting(key_order(), seq![entry] + old(out)@, final(out)@),
{
    let ghost before = out@;
    let key = entry.key.to_string();
    let mut at: usize = 0;
    while at < out.len() && matches!(
        text::sort_texts(out[at].key.to_string().as_str(), key.as_str()),
        text::Sorting::Before
    )
        invariant
            at <= out.len(),
            out@ == before,
            key@ == entry.key@.text(),
            forall|k: int|
                0 <= k < at ==> text::text_before((#[trigger] before[k]).key@.text(), key@),
        decreases out.len() - at,
    {
        at += 1;
    }
    proof {
        lemma_key_order();
        order::lemma_insertion(key_order(), before, at as int, entry);
    }
    out.insert(at, entry);
}

/// The entries, sorted by the text of their keys.
pub fn sort_by_key(entries: Vec<Entry>) -> (res: Vec<Entry>)
    ensures
        res@ == by_key(entries@),
        res@.len() == entries@.len(),
{
    let ghost all = entries@;
    let mut left = entries;
    let mut out: Vec<Entry> = Vec::new();
    assert(all.skip(all.len() as int) == out@);
    while left.len() > 0
        invariant
            left@.len() <= all.len(),
            left@ == all.take(left@.len() as int),
            order::is_sorting(key_order(), all.skip(left@.len() as int), out@),
        decreases left.len(),
    {
        let ghost n: int = left@.len() - 1;
        let ghost below = out@;
        let entry = left.pop().unwrap();
        assert(entry == all[n]);
        place(&mut out, entry);
        proof {
            assert(all.skip(n) == seq![entry] + all.skip(n + 1));
            order::lemma_one_more(key_order(), entry, all.skip(n + 1), below, out@);
        }
    }
    proof {
        assert(all.skip(0) == all);
        lemma_key_order();
        order::law_sorting_is_well_defined(key_order(), all);
        order::law_sorting_keeps_everything(key_order(), all);
    }
    out
}

/// **Key order does not depend on the order the entries are listed in**, as
/// long as no key is listed twice.
pub proof fn law_key_order_ignores_listing_order(a: Seq<Entry>, b: Seq<Entry>)
    requires
        a.to_multiset() == b.to_multiset(),
        rank::distinct_keys(a),
        rank::distinct_keys(b),
    ensures
        by_key(a) == by_key(b),
{
    broadcast use vstd::seq_lib::group_to_multiset_ensures;

    assert forall|e: Entry| a.contains(e) == b.contains(e) by {
        assert(a.contains(e) <==> a.to_multiset().count(e) > 0);
        assert(b.contains(e) <==> b.to_multiset().count(e) > 0);
    }
    lemma_key_order();
    lemma_distinct_keys_do_not_tie(a);
    lemma_distinct_keys_do_not_tie(b);
    order::law_sorting_ignores_arrangement(key_order(), a, b);
}

proof fn lemma_distinct_keys_do_not_tie(entries: Seq<Entry>)
    requires
        rank::distinct_keys(entries),
    ensures
        order::no_ties(key_order(), entries),
{
    assert forall|i: int, j: int| 0 <= i < j < entries.len() implies !order::ties(
        key_order(),
        #[trigger] entries[i],
        #[trigger] entries[j],
    ) by {
        text::lemma_text_before_total(entries[i].key@.text(), entries[j].key@.text());
    }
}

} // verus!
