//! The memory record: what goes in the store's value, and the key it is filed
//! under.
//!
//! The store keeps a `(context, key) -> value` string and nothing else, and it
//! lists every entry of a context at once. So every affordance a memory service
//! needs is carried inside the value, and the key is structured, `<type>/<slug>`,
//! so a prefix filter can do the work the store will not. [`MemoryKey`] owns
//! that encoding.

use vstd::prelude::*;
use vstd::string::*;

use crate::fence;
use crate::json;
use crate::text;

pub use crate::rank::rank;

verus! {

/// Wire version of [`MemoryRecord`].
pub const RECORD_VERSION: u8 = 1;

/// The longest name a memory may be saved under, in characters.
pub const MAX_NAME_CHARS: usize = 120;

/// The longest description a memory may be saved with, in characters.
pub const MAX_DESCRIPTION_CHARS: usize = 300;

/// The largest body a memory may be saved with, in bytes.
pub const MAX_BODY_BYTES: usize = 16384;

/// The most links a memory may be saved with.
pub const MAX_LINKS: usize = 32;

/// The longest link a memory may be saved with, in characters.
pub const MAX_LINK_CHARS: usize = 120;

/// How many characters a stand-in description may have before it is cut.
pub const FIRST_LINE_CHARS: usize = 120;

/// How many characters of a cut description are kept in front of the ellipsis.
pub const FIRST_LINE_KEPT: usize = 117;

// ---------------------------------------------------------------------------
// Types of memory
// ---------------------------------------------------------------------------

/// What kind of thing a memory is.
#[derive(Debug, Clone, Copy, PartialEq, Eq, Structural)]
pub enum MemoryType {
    /// Who the user is — role, expertise, standing preferences.
    User,
    /// Guidance the user has given on how to work. Carries a why.
    Feedback,
    /// Ongoing work, goals, constraints not derivable from the code.
    Project,
    /// Pointers to external resources — URLs, dashboards, tickets.
    Reference,
}

/// The type whose lowercase name is `name`.
pub open spec fn type_named(name: Seq<char>) -> Option<MemoryType> {
    if name == "user"@ {
        Some(MemoryType::User)
    } else if name == "feedback"@ {
        Some(MemoryType::Feedback)
    } else if name == "project"@ {
        Some(MemoryType::Project)
    } else if name == "reference"@ {
        Some(MemoryType::Reference)
    } else {
        None
    }
}

/// The type that `s` names, whatever its case and the white space around it.
pub open spec fn parsed_type(s: Seq<char>) -> Option<MemoryType> {
    type_named(text::lowered(text::trimmed(s)))
}

impl MemoryType {
    /// Every variant, in the order they are presented to a caller.
    pub const ALL: [MemoryType; 4] = [
        MemoryType::User,
        MemoryType::Feedback,
        MemoryType::Project,
        MemoryType::Reference,
    ];

    /// The lowercase wire and key form, as characters.
    pub open spec fn name(self) -> Seq<char> {
        match self {
            MemoryType::User => "user"@,
            MemoryType::Feedback => "feedback"@,
            MemoryType::Project => "project"@,
            MemoryType::Reference => "reference"@,
        }
    }

    /// The lowercase wire and key form.
    pub fn as_str(&self) -> (res: &'static str)
        ensures
            res@ == self.name(),
    {
        match self {
            MemoryType::User => "user",
            MemoryType::Feedback => "feedback",
            MemoryType::Project => "project",
            MemoryType::Reference => "reference",
        }
    }

    /// Parse from the wire or key form. Case-insensitive, since it arrives from
    /// a model as often as from a config file.
    pub fn parse(s: &str) -> (res: Option<MemoryType>)
        ensures
            res == parsed_type(s@),
    {
        let chars = text::to_chars(s);
        let bare = text::from_chars(&text::trim(&chars));
        let name = text::from_chars(&text::lower_chars(bare.as_str()));
        if text::same_text(name.as_str(), "user") {
            Some(MemoryType::User)
        } else if text::same_text(name.as_str(), "feedback") {
            Some(MemoryType::Feedback)
        } else if text::same_text(name.as_str(), "project") {
            Some(MemoryType::Project)
        } else if text::same_text(name.as_str(), "reference") {
            Some(MemoryType::Reference)
        } else {
            None
        }
    }

    /// The lowercase form, as a string of its own.
    pub fn to_string(&self) -> (res: String)
        ensures
            res@ == self.name(),
    {
        self.as_str().to_owned()
    }
}

// ---------------------------------------------------------------------------
// Keys
// ---------------------------------------------------------------------------

/// The words of `name`, hyphen-separated: lowercase, `[a-z0-9-]` only, no
/// leading, trailing or repeated hyphen.
pub open spec fn slug(name: Seq<char>) -> Seq<char> {
    text::joined(text::words(name), "-"@)
}

/// Lowercase, hyphen-separated, `[a-z0-9-]` only, no leading, trailing or
/// repeated hyphens.
pub fn slugify(name: &str) -> (res: String)
    ensures
        res@ == slug(name@),
{
    let words = text::split_words(&text::to_chars(name));
    let mut parts: Vec<String> = Vec::new();
    let mut i: usize = 0;
    while i < words.len()
        invariant
            i <= words.len(),
            parts@.len() == i,
            forall|k: int| 0 <= k < i ==> (#[trigger] parts@[k])@ == words@[k]@,
        decreases words.len() - i,
    {
        parts.push(text::from_chars(&words[i]));
        i += 1;
    }
    assert(text::texts(parts@) == text::word_views(words@));
    text::join(&parts, "-")
}

/// A key as a value: its type and the characters of its slug.
#[verifier::ext_equal]
pub struct KeyView {
    pub kind: MemoryType,
    pub slug: Seq<char>,
}

/// The `<type>/` prefix of every key of one type.
pub open spec fn key_prefix(kind: MemoryType) -> Seq<char> {
    kind.name() + "/"@
}

impl KeyView {
    /// The storage key, `<type>/<slug>`.
    pub open spec fn text(self) -> Seq<char> {
        key_prefix(self.kind) + self.slug
    }
}

/// A storage key, `<type>/<slug>`.
///
/// The store has no prefix parameter, but the client can filter on one, and a
/// key that carries its type means filtering by type costs no extra round trip
/// and no extra field to keep consistent.
#[derive(Debug, Clone, PartialEq, Eq)]
pub struct MemoryKey {
    pub kind: MemoryType,
    pub slug: String,
}

impl View for MemoryKey {
    type V = KeyView;

    open spec fn view(&self) -> KeyView {
        KeyView { kind: self.kind, slug: self.slug@ }
    }
}

/// Why a key could not be built or read back.
#[derive(Debug, Clone, PartialEq, Eq)]
pub enum KeyError {
    /// The name reduced to nothing once slugified (e.g. all punctuation).
    EmptySlug(String),
    /// No `/` separator.
    Malformed(String),
    /// The part before `/` is not a known [`MemoryType`].
    UnknownType(String),
}

/// A key error as a value.
#[verifier::ext_equal]
pub enum KeyErrorView {
    EmptySlug(Seq<char>),
    Malformed(Seq<char>),
    UnknownType(Seq<char>),
}

impl View for KeyError {
    type V = KeyErrorView;

    open spec fn view(&self) -> KeyErrorView {
        match self {
            KeyError::EmptySlug(n) => KeyErrorView::EmptySlug(n@),
            KeyError::Malformed(k) => KeyErrorView::Malformed(k@),
            KeyError::UnknownType(t) => KeyErrorView::UnknownType(t@),
        }
    }
}

impl KeyErrorView {
    /// What a person is told.
    pub open spec fn message(self) -> Seq<char> {
        match self {
            KeyErrorView::EmptySlug(n) => "`"@ + n
                + "` contains no characters usable in a memory name (letters, digits, `-`)"@,
            KeyErrorView::Malformed(k) => "memory key `"@ + k
                + "` is not `<type>/<name>`; types are: user, feedback, project, reference"@,
            KeyErrorView::UnknownType(t) => "unknown memory type `"@ + t
                + "`; expected one of: user, feedback, project, reference"@,
        }
    }
}

impl KeyError {
    /// What a person is told.
    pub fn to_string(&self) -> (res: String)
        ensures
            res@ == self@.message(),
    {
        let mut out = String::new();
        match self {
            KeyError::EmptySlug(n) => {
                out.append("`");
                out.append(n.as_str());
                out.append(
                    "` contains no characters usable in a memory name (letters, digits, `-`)",
                );
            },
            KeyError::Malformed(k) => {
                out.append("memory key `");
                out.append(k.as_str());
                out.append(
                    "` is not `<type>/<name>`; types are: user, feedback, project, reference",
                );
            },
            KeyError::UnknownType(t) => {
                out.append("unknown memory type `");
                out.append(t.as_str());
                out.append("`; expected one of: user, feedback, project, reference");
            },
        }
        assert(out@ == self@.message());
        out
    }
}

/// The key that memories of this type and name are filed under.
pub open spec fn named_key(kind: MemoryType, name: Seq<char>) -> Result<KeyView, KeyErrorView> {
    if slug(name).len() == 0 {
        Err(KeyErrorView::EmptySlug(name))
    } else {
        Ok(KeyView { kind, slug: slug(name) })
    }
}

/// The key that a stored key's text stands for: the type before the first `/`,
/// and the slug after it.
pub open spec fn parsed_key(raw: Seq<char>) -> Result<KeyView, KeyErrorView> {
    let at = text::run_before(raw, '/') as int;
    if at == raw.len() {
        Err(KeyErrorView::Malformed(raw))
    } else {
        match parsed_type(raw.take(at)) {
            None => Err(KeyErrorView::UnknownType(raw.take(at))),
            Some(kind) => if raw.skip(at + 1).len() == 0 {
                Err(KeyErrorView::EmptySlug(raw))
            } else {
                Ok(KeyView { kind, slug: raw.skip(at + 1) })
            },
        }
    }
}

/// The type that a stored key belongs to: what the text before its first `/`
/// reads as, if there is a `/` and that text is a type.
pub open spec fn raw_type(raw: Seq<char>) -> Option<MemoryType> {
    let at = text::run_before(raw, '/') as int;
    if at == raw.len() {
        None
    } else {
        parsed_type(raw.take(at))
    }
}

/// A key, or the reason there is none, as a value.
pub open spec fn key_outcome(res: Result<MemoryKey, KeyError>) -> Result<KeyView, KeyErrorView> {
    match res {
        Ok(k) => Ok(k@),
        Err(e) => Err(e@),
    }
}

impl MemoryKey {
    /// Build a key, normalising `name` into a slug.
    pub fn new(kind: MemoryType, name: &str) -> (res: Result<MemoryKey, KeyError>)
        ensures
            key_outcome(res) == named_key(kind, name@),
    {
        let slug = slugify(name);
        if slug.as_str().is_empty() {
            return Err(KeyError::EmptySlug(name.to_owned()));
        }
        Ok(MemoryKey { kind, slug })
    }

    /// Parse a stored key back into its parts.
    pub fn parse(raw: &str) -> (res: Result<MemoryKey, KeyError>)
        ensures
            key_outcome(res) == parsed_key(raw@),
    {
        let chars = text::to_chars(raw);
        let at: usize = text::find_char(&chars, '/');
        if at == chars.len() {
            return Err(KeyError::Malformed(raw.to_owned()));
        }
        let before = text::from_range(&chars, 0, at);
        let after = text::from_range(&chars, at + 1, chars.len());
        assert(before@ == raw@.take(at as int));
        assert(after@ == raw@.skip(at + 1));
        match MemoryType::parse(before.as_str()) {
            None => Err(KeyError::UnknownType(before)),
            Some(kind) => {
                if after.as_str().is_empty() {
                    Err(KeyError::EmptySlug(raw.to_owned()))
                } else {
                    Ok(MemoryKey { kind, slug: after })
                }
            },
        }
    }

    /// The `<type>/` prefix of every key this tool writes for one type, and only
    /// that type: the trailing `/` is what stops `user` from also matching
    /// `userdata`. A caller filtering raw keys, before decoding them, agrees with
    /// [`MemoryKey::parse`].
    pub fn prefix(kind: MemoryType) -> (res: String)
        ensures
            res@ == key_prefix(kind),
    {
        let mut out = kind.to_string();
        out.append("/");
        out
    }

    /// Whether a raw, still-undecoded storage key belongs to `kind`: whether the
    /// text before its first `/` reads as that type, as it does in
    /// [`MemoryKey::parse`].
    pub fn raw_key_has_type(raw: &str, kind: MemoryType) -> (res: bool)
        ensures
            res <==> raw_type(raw@) == Some(kind),
    {
        let chars = text::to_chars(raw);
        let at: usize = text::find_char(&chars, '/');
        if at == chars.len() {
            return false;
        }
        let before = text::from_range(&chars, 0, at);
        assert(before@ == raw@.take(at as int));
        match MemoryType::parse(before.as_str()) {
            Some(read) => read == kind,
            None => false,
        }
    }

    /// The storage key, `<type>/<slug>`.
    pub fn to_string(&self) -> (res: String)
        ensures
            res@ == self@.text(),
    {
        let mut out = MemoryKey::prefix(self.kind);
        out.append(self.slug.as_str());
        out
    }

    /// Whether two keys name the same memory.
    pub fn same(&self, other: &MemoryKey) -> (res: bool)
        ensures
            res == (self@ == other@),
    {
        self.kind == other.kind && self.slug == other.slug
    }

    /// A copy of this key.
    pub fn copy(&self) -> (res: MemoryKey)
        ensures
            res@ == self@,
    {
        MemoryKey { kind: self.kind, slug: self.slug.clone() }
    }
}

// ---------------------------------------------------------------------------
// Records
// ---------------------------------------------------------------------------

/// A record as a value.
#[verifier::ext_equal]
pub struct RecordView {
    pub v: u8,
    pub name: Seq<char>,
    pub kind: MemoryType,
    pub description: Seq<char>,
    pub body: Seq<char>,
    pub links: Seq<Seq<char>>,
    pub updated_at: Seq<char>,
}

/// One memory, as stored in the value string.
#[derive(Debug, Clone)]
pub struct MemoryRecord {
    /// Wire version. See [`RECORD_VERSION`].
    pub v: u8,
    /// Human-facing name. The slug in the key is derived from this; keeping the
    /// original means display never has to un-slugify.
    pub name: String,
    /// What kind of memory this is. Duplicated from the key deliberately: a
    /// record read on its own is still self-describing.
    pub kind: MemoryType,
    /// One line. This is what recall ranks and returns.
    pub description: String,
    /// The memory itself.
    pub body: String,
    /// Names of related memories. Free-form: a link to a memory that does not
    /// exist yet marks something worth writing, it is not an error.
    pub links: Vec<String>,
    /// RFC 3339, set on every write.
    pub updated_at: String,
}

impl View for MemoryRecord {
    type V = RecordView;

    open spec fn view(&self) -> RecordView {
        RecordView {
            v: self.v,
            name: self.name@,
            kind: self.kind,
            description: self.description@,
            body: self.body@,
            links: text::texts(self.links@),
            updated_at: self.updated_at@,
        }
    }
}

/// A moment in UTC as text: it ends with a zero offset, and is long enough for
/// a year, a month, a day and a time of day in front of it.
pub open spec fn is_utc_stamp(s: Seq<char>) -> bool {
    &&& s.len() >= 25
    &&& s.skip(s.len() - 6) == "+00:00"@
}

/// Calls `chrono::Utc::now` and `to_rfc3339` on what it gives. Which moment
/// comes back is up to the clock. What holds of all of them is that the text
/// ends with the offset of UTC and is no shorter than a date and a time of day
/// to the second. A clock set before 1970 stops the program here.
#[verifier::external_body]
fn now_rfc3339() -> (res: String)
    ensures
        is_utc_stamp(res@),
{
    chrono::Utc::now().to_rfc3339()
}

/// The first line of `s`, trimmed, and cut with an ellipsis where it is long.
pub open spec fn first_line_of(s: Seq<char>) -> Seq<char> {
    let line = text::trimmed(s.take(text::run_before(s, '\n') as int));
    if line.len() > FIRST_LINE_CHARS {
        line.take(FIRST_LINE_KEPT as int).push('…')
    } else {
        line
    }
}

/// First line of `s`, trimmed and capped: a stand-in description for a value
/// that did not come from here.
pub fn first_line(s: &str) -> (res: String)
    ensures
        res@ == first_line_of(s@),
{
    let chars = text::to_chars(s);
    let end: usize = text::find_char(&chars, '\n');
    let upto = text::to_chars(text::from_range(&chars, 0, end).as_str());
    assert(upto@ == s@.take(end as int));
    let line = text::trim(&upto);
    if line.len() > FIRST_LINE_CHARS {
        let mut out = text::from_range(&line, 0, FIRST_LINE_KEPT);
        assert(out@ == line@.take(FIRST_LINE_KEPT as int));
        out.push('…');
        out
    } else {
        text::from_chars(&line)
    }
}

/// What a value reads as: the record in it, or, where it holds none, a stand-in
/// that keeps the whole value as its body.
pub open spec fn decoded(
    key: KeyView,
    value: Seq<char>,
    parsed: Option<RecordView>,
) -> RecordView {
    match parsed {
        Some(r) => r,
        None => RecordView {
            v: 0,
            name: key.slug,
            kind: MemoryType::Reference,
            description: first_line_of(value),
            body: value,
            links: seq![],
            updated_at: seq![],
        },
    }
}

/// A record, or none, as a value.
pub open spec fn maybe_record(parsed: Option<MemoryRecord>) -> Option<RecordView> {
    match parsed {
        Some(r) => Some(r@),
        None => None,
    }
}

/// The links of a record as JSON strings.
pub open spec fn json_links(links: Seq<Seq<char>>) -> Seq<Seq<char>> {
    links.map_values(|l: Seq<char>| json::json_text(l))
}

/// The value string for a record: one JSON object, its members in a fixed
/// order.
pub open spec fn wire_text(r: RecordView) -> Seq<char> {
    "{\"v\":"@ + text::decimal(r.v as nat) + ",\"name\":"@ + json::json_text(r.name)
        + ",\"type\":\""@ + r.kind.name() + "\",\"description\":"@ + json::json_text(
        r.description,
    ) + ",\"body\":"@ + json::json_text(r.body) + ",\"links\":["@ + text::joined(
        json_links(r.links),
        ","@,
    ) + "],\"updatedAt\":"@ + json::json_text(r.updated_at) + "}"@
}

/// The first limit that a record breaks.
#[derive(Debug, Clone, Copy, PartialEq, Eq, Structural)]
pub enum Limit {
    Name,
    Description,
    Body,
    Links,
    Link,
}

impl Limit {
    /// What a caller is told about this limit.
    pub open spec fn message(self) -> Seq<char> {
        match self {
            Limit::Name => "name is over 120 characters"@,
            Limit::Description => "description is over 300 characters"@,
            Limit::Body => "body is over 16 KiB"@,
            Limit::Links => "there are more than 32 links"@,
            Limit::Link => "a link is over 120 characters"@,
        }
    }

    /// What a caller is told about this limit.
    pub fn to_string(&self) -> (res: String)
        ensures
            res@ == self.message(),
    {
        let said: &'static str = match self {
            Limit::Name => "name is over 120 characters",
            Limit::Description => "description is over 300 characters",
            Limit::Body => "body is over 16 KiB",
            Limit::Links => "there are more than 32 links",
            Limit::Link => "a link is over 120 characters",
        };
        said.to_owned()
    }
}

/// Some link is longer than a link may be.
pub open spec fn has_long_link(links: Seq<Seq<char>>) -> bool {
    exists|i: int| 0 <= i < links.len() && (#[trigger] links[i]).len() > MAX_LINK_CHARS
}

/// The first limit that `r` breaks, if it breaks one. The body is measured in
/// UTF-8 bytes, everything else in characters.
pub open spec fn broken_limit(r: RecordView) -> Option<Limit> {
    if r.name.len() > MAX_NAME_CHARS {
        Some(Limit::Name)
    } else if r.description.len() > MAX_DESCRIPTION_CHARS {
        Some(Limit::Description)
    } else if vstd::utf8::encode_utf8(r.body).len() > MAX_BODY_BYTES {
        Some(Limit::Body)
    } else if r.links.len() > MAX_LINKS {
        Some(Limit::Links)
    } else if has_long_link(r.links) {
        Some(Limit::Link)
    } else {
        None
    }
}

/// The compact form recall returns: enough to decide, not enough to cost.
#[derive(Debug, Clone)]
pub struct MemorySummary {
    pub key: String,
    pub name: String,
    pub kind: MemoryType,
    pub description: String,
    pub links: Vec<String>,
    pub updated_at: String,
    /// Stated on every projection so a reader never has to infer it.
    pub trust: String,
}

/// A summary as a value.
#[verifier::ext_equal]
pub struct SummaryView {
    pub key: Seq<char>,
    pub name: Seq<char>,
    pub kind: MemoryType,
    pub description: Seq<char>,
    pub links: Seq<Seq<char>>,
    pub updated_at: Seq<char>,
    pub trust: Seq<char>,
}

impl View for MemorySummary {
    type V = SummaryView;

    open spec fn view(&self) -> SummaryView {
        SummaryView {
            key: self.key@,
            name: self.name@,
            kind: self.kind,
            description: self.description@,
            links: text::texts(self.links@),
            updated_at: self.updated_at@,
            trust: self.trust@,
        }
    }
}

/// The full form of one memory.
#[derive(Debug, Clone)]
pub struct MemoryDetail {
    pub summary: MemorySummary,
    pub body: String,
}

/// The summary of `r` under `key`: what its author wrote is sanitised, so no
/// consumer of a summary can be shown a delimiter shape by it.
pub open spec fn summarised(r: RecordView, key: KeyView) -> SummaryView {
    SummaryView {
        key: key.text(),
        name: fence::sanitized(r.name),
        kind: r.kind,
        description: fence::sanitized(r.description),
        links: r.links.map_values(|l: Seq<char>| fence::sanitized(l)),
        updated_at: r.updated_at,
        trust: "untrusted-data"@,
    }
}

impl MemoryRecord {
    /// A record written at `updated_at`.
    pub fn stamped(
        kind: MemoryType,
        name: &str,
        description: &str,
        body: &str,
        links: Vec<String>,
        updated_at: String,
    ) -> (res: MemoryRecord)
        ensures
            res@ == (RecordView {
                v: RECORD_VERSION,
                name: name@,
                kind,
                description: description@,
                body: body@,
                links: text::texts(links@),
                updated_at: updated_at@,
            }),
    {
        MemoryRecord {
            v: RECORD_VERSION,
            name: name.to_owned(),
            kind,
            description: description.to_owned(),
            body: body.to_owned(),
            links,
            updated_at,
        }
    }

    /// Build a record, stamping `updated_at` now.
    pub fn new(
        kind: MemoryType,
        name: &str,
        description: &str,
        body: &str,
        links: Vec<String>,
    ) -> (res: MemoryRecord)
        ensures
            is_utc_stamp(res@.updated_at),
            res@ == (RecordView {
                v: RECORD_VERSION,
                name: name@,
                kind,
                description: description@,
                body: body@,
                links: text::texts(links@),
                updated_at: res@.updated_at,
            }),
    {
        MemoryRecord::stamped(kind, name, description, body, links, now_rfc3339())
    }

    /// Decode a stored value, given the record its JSON was read as.
    ///
    /// Values written by something else, or by hand, are not an error: they
    /// come back as a `Reference` record whose body is the raw string, so a
    /// mixed context stays listable and forgettable. The alternative, erroring, means one
    /// stray entry makes every recall fail.
    pub fn decode(key: &MemoryKey, value: &str, parsed: Option<MemoryRecord>) -> (res: MemoryRecord)
        ensures
            res@ == decoded(key@, value@, maybe_record(parsed)),
            parsed matches Some(r) ==> res == r,
    {
        match parsed {
            Some(r) => r,
            None => {
                let res = MemoryRecord {
                    v: 0,
                    name: key.slug.clone(),
                    kind: MemoryType::Reference,
                    description: first_line(value),
                    body: value.to_owned(),
                    links: Vec::new(),
                    updated_at: String::new(),
                };
                assert(text::texts(res.links@) == Seq::<Seq<char>>::empty());
                res
            },
        }
    }

    /// Encode for storage.
    pub fn encode(&self) -> (res: Result<String, serde_json::Error>)
        ensures
            res is Ok,
            res->Ok_0@ == wire_text(self@),
    {
        let mut links: Vec<String> = Vec::new();
        let mut i: usize = 0;
        while i < self.links.len()
            invariant
                i <= self.links.len(),
                links@.len() == i,
                forall|k: int|
                    0 <= k < i ==> (#[trigger] links@[k])@ == json::json_text(self.links@[k]@),
            decreases self.links.len() - i,
        {
            links.push(json::json_string(self.links[i].as_str())?);
            i += 1;
        }
        assert(text::texts(links@) == json_links(self@.links));
        let mut out = String::new();
        out.append("{\"v\":");
        out.append(text::to_decimal(self.v as usize).as_str());
        out.append(",\"name\":");
        out.append(json::json_string(self.name.as_str())?.as_str());
        out.append(",\"type\":\"");
        out.append(self.kind.as_str());
        out.append("\",\"description\":");
        out.append(json::json_string(self.description.as_str())?.as_str());
        out.append(",\"body\":");
        out.append(json::json_string(self.body.as_str())?.as_str());
        out.append(",\"links\":[");
        out.append(text::join(&links, ",").as_str());
        out.append("],\"updatedAt\":");
        out.append(json::json_string(self.updated_at.as_str())?.as_str());
        out.append("}");
        assert(out@ == wire_text(self@));
        Ok(out)
    }

    /// Refuse a record that is too large to save, saying which limit it breaks.
    pub fn check_limits(&self) -> (res: Result<(), Limit>)
        ensures
            res == match broken_limit(self@) {
                Some(limit) => Err::<(), Limit>(limit),
                None => Ok::<(), Limit>(()),
            },
    {
        if text::to_chars(self.name.as_str()).len() > MAX_NAME_CHARS {
            return Err(Limit::Name);
        }
        if text::to_chars(self.description.as_str()).len() > MAX_DESCRIPTION_CHARS {
            return Err(Limit::Description);
        }
        if self.body.as_str().as_bytes().len() > MAX_BODY_BYTES {
            return Err(Limit::Body);
        }
        if self.links.len() > MAX_LINKS {
            return Err(Limit::Links);
        }
        let ghost links = text::texts(self.links@);
        let mut i: usize = 0;
        while i < self.links.len()
            invariant
                i <= self.links.len(),
                links == text::texts(self.links@),
                forall|k: int| 0 <= k < i ==> (#[trigger] links[k]).len() <= MAX_LINK_CHARS,
                self@.name.len() <= MAX_NAME_CHARS,
                self@.description.len() <= MAX_DESCRIPTION_CHARS,
                vstd::utf8::encode_utf8(self@.body).len() <= MAX_BODY_BYTES,
                self@.links == links,
                links.len() <= MAX_LINKS,
            decreases self.links.len() - i,
        {
            if text::to_chars(self.links[i].as_str()).len() > MAX_LINK_CHARS {
                assert(links[i as int].len() > MAX_LINK_CHARS);
                return Err(Limit::Link);
            }
            assert(links[i as int] == self.links@[i as int]@);
            i += 1;
        }
        Ok(())
    }

    /// The compact form recall returns.
    pub fn summary(&self, key: &MemoryKey) -> (res: MemorySummary)
        ensures
            res@ == summarised(self@, key@),
    {
        let mut links: Vec<String> = Vec::new();
        let mut i: usize = 0;
        while i < self.links.len()
            invariant
                i <= self.links.len(),
                links@.len() == i,
                forall|k: int|
                    0 <= k < i ==> (#[trigger] links@[k])@ == fence::sanitized(self.links@[k]@),
            decreases self.links.len() - i,
        {
            links.push(fence::Fence::sanitize(self.links[i].as_str()));
            i += 1;
        }
        assert(text::texts(links@) == self@.links.map_values(|l: Seq<char>| fence::sanitized(l)));
        MemorySummary {
            key: key.to_string(),
            name: fence::Fence::sanitize(self.name.as_str()),
            kind: self.kind,
            description: fence::Fence::sanitize(self.description.as_str()),
            links,
            updated_at: self.updated_at.clone(),
            trust: "untrusted-data".to_owned(),
        }
    }

    /// The full form of one memory: its summary, and its body.
    pub fn full(&self, key: &MemoryKey) -> (res: MemoryDetail)
        ensures
            res.summary@ == summarised(self@, key@),
            res.body@ == fence::sanitized(self@.body),
    {
        MemoryDetail {
            summary: self.summary(key),
            body: fence::Fence::sanitize(self.body.as_str()),
        }
    }
}

/// One entry as it came back from the store.
#[derive(Debug, Clone)]
pub struct Entry {
    pub key: MemoryKey,
    pub record: MemoryRecord,
}

/// A ranked recall hit.
#[derive(Debug, Clone)]
pub struct Hit {
    pub entry: Entry,
    pub score: u32,
}

} // verus!
