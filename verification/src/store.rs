//! The memory store: typed operations over the agent's memory tasks.
//!
//! Every method here is the part of one operation that this side of the wire
//! decides: what is asked of the store, and what is made of its answer. There
//! is no transport here, no retry and no caching. Whoever holds the connection
//! sends what a method returns and hands the answer to the next.
//!
//! A listing returns the whole context, so the filtering happens here. An entry
//! whose key is not `<type>/<slug>` belongs to something else that writes into
//! the same context, and is skipped: a malformed answer is a bug, an unfamiliar
//! neighbour is not.

use vstd::prelude::*;
use vstd::string::*;

use crate::lists;
use crate::rank;
use crate::record::{Entry, Hit, KeyError, KeyView, MemoryKey, MemoryRecord, MemoryType};
use crate::record;
use crate::text;

verus! {

/// One entry of a context as the store lists it.
#[derive(Debug, Clone)]
pub struct Item {
    pub key: String,
    pub value: String,
}

/// A listed entry as a value.
#[verifier::ext_equal]
pub struct ItemView {
    pub key: Seq<char>,
    pub value: Seq<char>,
}

impl View for Item {
    type V = ItemView;

    open spec fn view(&self) -> ItemView {
        ItemView { key: self.key@, value: self.value@ }
    }
}

/// A listed entry whose key was read, and whose value was not yet.
#[derive(Debug, Clone)]
pub struct Found {
    pub key: MemoryKey,
    pub value: String,
}

/// A found entry as a value.
#[verifier::ext_equal]
pub struct FoundView {
    pub key: KeyView,
    pub value: Seq<char>,
}

impl View for Found {
    type V = FoundView;

    open spec fn view(&self) -> FoundView {
        FoundView { key: self.key@, value: self.value@ }
    }
}

/// The request that files one value under one key.
#[derive(Debug, Clone)]
pub struct PutRequest {
    pub context_id: String,
    pub key: MemoryKey,
    pub value: String,
}

/// The request that deletes what is filed under one key.
#[derive(Debug, Clone)]
pub struct DeleteRequest {
    pub context_id: String,
    pub key: MemoryKey,
}

/// The store says it acted on another key than the one it was given.
///
/// That is worse than a failure: a value that landed where this store cannot
/// address it would never be recalled, and the user would think it saved.
#[derive(Debug, Clone)]
pub enum EchoError {
    Stored { got: String, wanted: String },
    Deleted { got: String, wanted: String },
}

impl EchoError {
    /// What a person is told.
    pub open spec fn message(self) -> Seq<char> {
        match self {
            EchoError::Stored { got, wanted } => "the VTA stored memory `"@ + got@ + "` when `"@
                + wanted@ + "` was requested"@,
            EchoError::Deleted { got, wanted } => "the VTA deleted memory `"@ + got@ + "` when `"@
                + wanted@ + "` was requested"@,
        }
    }

    /// What a person is told.
    pub fn to_string(&self) -> (res: String)
        ensures
            res@ == self.message(),
    {
        let mut out = String::new();
        match self {
            EchoError::Stored { got, wanted } => {
                out.append("the VTA stored memory `");
                out.append(got.as_str());
                out.append("` when `");
                out.append(wanted.as_str());
                out.append("` was requested");
            },
            EchoError::Deleted { got, wanted } => {
                out.append("the VTA deleted memory `");
                out.append(got.as_str());
                out.append("` when `");
                out.append(wanted.as_str());
                out.append("` was requested");
            },
        }
        assert(out@ == self.message());
        out
    }
}

// ---------------------------------------------------------------------------
// What is listed
// ---------------------------------------------------------------------------

/// A stored key that this tool could have written, of the type asked for.
pub open spec fn is_wanted(raw: Seq<char>, kind: Option<MemoryType>) -> bool {
    match kind {
        Some(k) => record::parsed_key(raw) matches Ok(key) && key.kind == k,
        None => record::parsed_key(raw) is Ok,
    }
}

/// A wanted entry with its key read.
pub open spec fn found_entry(item: ItemView) -> FoundView {
    FoundView { key: record::parsed_key(item.key)->Ok_0, value: item.value }
}

/// The wanted entries of a context, their keys read, in the order they are
/// listed.
pub open spec fn found_entries(items: Seq<ItemView>, kind: Option<MemoryType>) -> Seq<FoundView> {
    items.filter(|i: ItemView| is_wanted(i.key, kind)).map_values(|i: ItemView| found_entry(i))
}

/// The views of listed entries.
pub open spec fn item_views(items: Seq<Item>) -> Seq<ItemView> {
    items.map_values(|i: Item| i@)
}

/// The views of found entries.
pub open spec fn found_views(found: Seq<Found>) -> Seq<FoundView> {
    found.map_values(|f: Found| f@)
}

/// `e` is `f` with its value decoded, given the record its JSON was read as.
pub open spec fn is_decoded(e: Entry, f: FoundView, parsed: Option<MemoryRecord>) -> bool {
    &&& e.key@ == f.key
    &&& e.record@ == record::decoded(f.key, f.value, record::maybe_record(parsed))
}

// ---------------------------------------------------------------------------
// What is recalled
// ---------------------------------------------------------------------------

/// The hits worth returning: all of them for a blank query, and only those that
/// matched something for any other.
pub open spec fn worth_returning(hits: Seq<Hit>, query: Seq<char>) -> Seq<Hit> {
    if text::is_blank(query) {
        hits
    } else {
        hits.filter(|h: Hit| h.score > 0)
    }
}

/// The first `limit` of `hits`.
pub open spec fn at_most(hits: Seq<Hit>, limit: nat) -> Seq<Hit> {
    if hits.len() <= limit {
        hits
    } else {
        hits.take(limit as int)
    }
}

/// What recall returns.
pub open spec fn recalled(entries: Seq<Entry>, query: Seq<char>, limit: nat) -> Seq<Hit> {
    at_most(worth_returning(rank::ranked(entries, query), query), limit)
}

/// The first entry filed under `key`.
pub open spec fn first_under(entries: Seq<Entry>, key: KeyView) -> Option<Entry>
    decreases entries.len(),
{
    if entries.len() == 0 {
        None
    } else if entries[0].key@ == key {
        Some(entries[0])
    } else {
        first_under(entries.skip(1), key)
    }
}

/// A memory store bound to one trust context.
#[derive(Debug, Clone)]
pub struct Store {
    context_id: String,
}

impl Store {
    /// The context every operation is scoped to, as characters.
    pub closed spec fn context(&self) -> Seq<char> {
        self.context_id@
    }

    /// Bind a store to a context.
    pub fn new(context_id: &str) -> (res: Store)
        ensures
            res.context() == context_id@,
    {
        Store { context_id: context_id.to_owned() }
    }

    /// The context every operation is scoped to.
    pub fn context_id(&self) -> (res: &str)
        ensures
            res@ == self.context(),
    {
        self.context_id.as_str()
    }

    /// The request that upserts one memory. A second save of the same type and
    /// name replaces it.
    ///
    /// A name that cannot be filed fails here, before any round trip.
    pub fn save(&self, record: &MemoryRecord) -> (res: Result<PutRequest, KeyError>)
        ensures
            match record::named_key(record@.kind, record@.name) {
                Err(e) => res is Err && res->Err_0@ == e,
                Ok(key) => {
                    &&& res is Ok
                    &&& res->Ok_0.context_id@ == self.context()
                    &&& res->Ok_0.key@ == key
                    &&& res->Ok_0.value@ == record::wire_text(record@)
                },
            },
    {
        let key = match MemoryKey::new(record.kind, record.name.as_str()) {
            Ok(key) => key,
            Err(e) => {
                return Err(e);
            },
        };
        let value = match record.encode() {
            Ok(value) => value,
            Err(_) => vstd::pervasive::unreached(),
        };
        Ok(PutRequest { context_id: self.context_id.clone(), key, value })
    }

    /// What a save came to, given the key the store says it stored under.
    pub fn saved(&self, request: PutRequest, echoed: &str) -> (res: Result<MemoryKey, EchoError>)
        ensures
            match res {
                Ok(key) => echoed@ == request.key@.text() && key@ == request.key@,
                Err(e) => {
                    &&& echoed@ != request.key@.text()
                    &&& e matches EchoError::Stored { got, wanted }
                    &&& got@ == echoed@
                    &&& wanted@ == request.key@.text()
                },
            },
    {
        let wanted = request.key.to_string();
        if !text::same_text(echoed, wanted.as_str()) {
            return Err(EchoError::Stored { got: echoed.to_owned(), wanted });
        }
        Ok(request.key)
    }

    /// Every memory in the context, given what the store listed.
    pub fn list(&self, items: Vec<Item>) -> (res: Vec<Found>)
        ensures
            found_views(res@) == found_entries(item_views(items@), None),
    {
        self.list_of_type(items, None)
    }

    /// As [`Store::list`], narrowed to one type.
    ///
    /// The narrowing happens on the raw key, before any value is decoded: a
    /// recall of one type in a context of a thousand memories decodes only the
    /// ones of that type.
    pub fn list_of_type(&self, items: Vec<Item>, kind: Option<MemoryType>) -> (res: Vec<Found>)
        ensures
            found_views(res@) == found_entries(item_views(items@), kind),
    {
        let ghost all = item_views(items@);
        let ghost wanted = |i: ItemView| is_wanted(i.key, kind);
        let ghost read = |i: ItemView| found_entry(i);
        let mut out: Vec<Found> = Vec::new();
        proof {
            lists::lemma_filter_nothing(all, wanted);
            assert(found_views(out@) == Seq::<FoundView>::empty());
            assert(all.take(0).filter(wanted).map_values(read) == Seq::<FoundView>::empty());
        }
        for item in it: items
            invariant
                it.seq() == items@,
                all == item_views(items@),
                wanted == (|i: ItemView| is_wanted(i.key, kind)),
                read == (|i: ItemView| found_entry(i)),
                found_views(out@) == all.take(it.index() as int).filter(wanted).map_values(read),
        {
            let ghost n: int = it.index() as int;
            let ghost before = out@;
            proof {
                assert(all[n] == item@);
                lists::lemma_filter_step(all, n, wanted);
            }
            let of_type = match kind {
                Some(k) => MemoryKey::raw_key_has_type(item.key.as_str(), k),
                None => true,
            };
            if of_type {
                match MemoryKey::parse(item.key.as_str()) {
                    Ok(key) => {
                        out.push(Found { key, value: item.value });
                        proof {
                            assert(found_views(out@) == found_views(before).push(
                                found_entry(all[n]),
                            ));
                            assert(all.take(n).filter(wanted).push(all[n]).map_values(read)
                                == all.take(n).filter(wanted).map_values(read).push(
                                found_entry(all[n]),
                            ));
                        }
                    },
                    Err(_) => {},
                }
            }
        }
        assert(all.take(all.len() as int) == all);
        out
    }

    /// The found entries with their values decoded, given the record that each
    /// value's JSON was read as.
    pub fn entries(&self, found: Vec<Found>, parsed: Vec<Option<MemoryRecord>>) -> (res: Vec<Entry>)
        requires
            found@.len() == parsed@.len(),
        ensures
            res@.len() == found@.len(),
            forall|i: int|
                0 <= i < res@.len() ==> is_decoded(#[trigger] res@[i], found@[i]@, parsed@[i]),
    {
        let ghost all = found@;
        let ghost read = parsed@;
        let mut found = found;
        let mut parsed = parsed;
        let mut out: Vec<Entry> = Vec::new();
        while found.len() > 0
            invariant
                found@.len() == parsed@.len(),
                out@.len() + found@.len() == all.len(),
                all.len() == read.len(),
                found@ == all.take(found@.len() as int),
                parsed@ == read.take(found@.len() as int),
                forall|i: int|
                    0 <= i < out@.len() ==> is_decoded(
                        #[trigger] out@[i],
                        all[i + found@.len()]@,
                        read[i + found@.len()],
                    ),
            decreases found.len(),
        {
            let ghost n: int = found@.len() - 1;
            let f = found.pop().unwrap();
            let p = parsed.pop().unwrap();
            assert(f == all[n]);
            assert(p == read[n]);
            let record = MemoryRecord::decode(&f.key, f.value.as_str(), p);
            let ghost before = out@;
            out.insert(0, Entry { key: f.key, record });
            assert forall|i: int| 0 <= i < out@.len() implies is_decoded(
                #[trigger] out@[i],
                all[i + n]@,
                read[i + n],
            ) by {
                if i > 0 {
                    assert(out@[i] == before[i - 1]);
                }
            }
        }
        out
    }

    /// Ranked recall: rank the entries against `query` and take `limit`.
    ///
    /// A query that matched nothing says so rather than hand back the
    /// least-irrelevant memories in the context: a confident wrong answer is
    /// worse than an empty one.
    pub fn recall(&self, entries: Vec<Entry>, query: &str, limit: usize) -> (res: Vec<Hit>)
        requires
            rank::scores_fit(entries@, query@),
        ensures
            res@ == recalled(entries@, query@, limit as nat),
    {
        let hits = rank::rank(entries, query);
        let mut kept = if text::trim(&text::to_chars(query)).len() == 0 {
            hits
        } else {
            matching(hits)
        };
        kept.truncate(limit);
        kept
    }

    /// One memory by key, or `None` if absent.
    ///
    /// There is no task that reads one memory, so this looks through a listing.
    pub fn get(&self, entries: Vec<Entry>, key: &MemoryKey) -> (res: Option<Entry>)
        ensures
            res == first_under(entries@, key@),
    {
        let ghost all = entries@;
        assert(all.skip(0) == all);
        for entry in it: entries
            invariant
                it.seq() == all,
                all == entries@,
                first_under(all, key@) == first_under(all.skip(it.index() as int), key@),
        {
            let ghost n: int = it.index() as int;
            proof {
                assert(all.skip(n)[0] == entry);
                assert(all.skip(n).skip(1) == all.skip(n + 1));
            }
            if entry.key.same(key) {
                return Some(entry);
            }
        }
        None
    }

    /// The request that deletes one memory.
    pub fn forget(&self, key: &MemoryKey) -> (res: DeleteRequest)
        ensures
            res.context_id@ == self.context(),
            res.key@ == key@,
    {
        DeleteRequest { context_id: self.context_id.clone(), key: key.copy() }
    }

    /// What a deletion came to, given the key the store says it deleted.
    pub fn forgotten(&self, request: &DeleteRequest, echoed: &str) -> (res: Result<(), EchoError>)
        ensures
            match res {
                Ok(_) => echoed@ == request.key@.text(),
                Err(e) => {
                    &&& echoed@ != request.key@.text()
                    &&& e matches EchoError::Deleted { got, wanted }
                    &&& got@ == echoed@
                    &&& wanted@ == request.key@.text()
                },
            },
    {
        let wanted = request.key.to_string();
        if !text::same_text(echoed, wanted.as_str()) {
            return Err(EchoError::Deleted { got: echoed.to_owned(), wanted });
        }
        Ok(())
    }
}

/// The hits that matched something.
fn matching(hits: Vec<Hit>) -> (res: Vec<Hit>)
    ensures
        res@ == hits@.filter(|h: Hit| h.score > 0),
{
    let ghost all = hits@;
    let ghost matched = |h: Hit| h.score > 0;
    let mut out: Vec<Hit> = Vec::new();
    proof {
        lists::lemma_filter_nothing(all, matched);
    }
    for hit in it: hits
        invariant
            it.seq() == all,
            all == hits@,
            matched == (|h: Hit| h.score > 0),
            out@ == all.take(it.index() as int).filter(matched),
    {
        proof {
            lists::lemma_filter_step(all, it.index() as int, matched);
        }
        if hit.score > 0 {
            out.push(hit);
        }
    }
    assert(all.take(all.len() as int) == all);
    out
}

} // verus!
