//! What holds of keys, slugs and stored values taken together.

use vstd::prelude::*;

use crate::json;
use crate::record::{KeyView, MemoryType, RecordView};
use crate::record;
use crate::text;

verus! {

// ---------------------------------------------------------------------------
// Type names
// ---------------------------------------------------------------------------

proof fn lemma_bare_text_is_not_trimmed(s: Seq<char>)
    requires
        s.len() > 0,
        !text::is_space(s[0]),
        !text::is_space(s.last()),
    ensures
        text::trimmed(s) == s,
{
    assert(text::trim_start(s) == s);
    assert(text::trim_end(s) == s);
}

/// A type's name is small letters, and no type's name is another's.
pub proof fn lemma_type_names(kind: MemoryType)
    ensures
        kind.name().len() > 0,
        forall|i: int|
            0 <= i < kind.name().len() ==> 'a' <= (#[trigger] kind.name()[i]) && kind.name()[i]
                <= 'z',
        record::type_named(kind.name()) == Some(kind),
{
    reveal_strlit("user");
    reveal_strlit("feedback");
    reveal_strlit("project");
    reveal_strlit("reference");
}

/// **A type's name reads back as that type.**
pub proof fn law_type_names_read_back(kind: MemoryType)
    ensures
        record::parsed_type(kind.name()) == Some(kind),
{
    lemma_type_names(kind);
    let name = kind.name();
    lemma_bare_text_is_not_trimmed(name);
    assert(text::lowered(name) == name);
}

// ---------------------------------------------------------------------------
// Keys
// ---------------------------------------------------------------------------

proof fn lemma_key_text(key: KeyView)
    ensures
        text::run_before(key.text(), '/') == key.kind.name().len(),
        key.text().len() == key.kind.name().len() + 1 + key.slug.len(),
        key.text().take(key.kind.name().len() as int) == key.kind.name(),
        key.text().skip(key.kind.name().len() as int + 1) == key.slug,
{
    reveal_strlit("/");
    lemma_type_names(key.kind);
    let name = key.kind.name();
    let raw = key.text();
    assert("/"@ == seq!['/']);
    assert(raw[name.len() as int] == '/');
    assert forall|i: int| 0 <= i < name.len() implies #[trigger] raw[i] != '/' by {
        assert(raw[i] == name[i]);
    }
    text::lemma_run_before_is(raw, '/', name.len());
    assert(raw.take(name.len() as int) == name);
    assert(raw.skip(name.len() as int + 1) == key.slug);
}

/// **A key reads back from its text.** The one thing asked of it is what every
/// key has that was ever built from a name: a slug that is not empty.
pub proof fn law_keys_read_back(key: KeyView)
    requires
        key.slug.len() > 0,
    ensures
        record::parsed_key(key.text()) == Ok::<KeyView, record::KeyErrorView>(key),
{
    lemma_key_text(key);
    law_type_names_read_back(key.kind);
}

/// **A key built from a name reads back from its text.**
pub proof fn law_named_keys_read_back(kind: MemoryType, name: Seq<char>)
    ensures
        record::named_key(kind, name) matches Ok(key) ==> record::parsed_key(key.text()) == Ok::<
            KeyView,
            record::KeyErrorView,
        >(key),
{
    if record::slug(name).len() > 0 {
        law_keys_read_back(KeyView { kind, slug: record::slug(name) });
    }
}

/// **No two keys share a text**: a memory is where its key says, and nowhere
/// else.
pub proof fn law_key_text_identifies_the_key(a: KeyView, b: KeyView)
    requires
        a.text() == b.text(),
    ensures
        a == b,
{
    lemma_key_text(a);
    lemma_key_text(b);
    lemma_type_names(a.kind);
    lemma_type_names(b.kind);
    assert(a.kind.name() == b.kind.name());
    assert(a.kind == b.kind);
    assert(a.slug == b.slug);
}

proof fn lemma_prefix_names_the_type(kind: MemoryType, raw: Seq<char>)
    requires
        record::key_prefix(kind).is_prefix_of(raw),
    ensures
        raw == (KeyView { kind, slug: raw.skip(kind.name().len() as int + 1) }).text(),
{
    reveal_strlit("/");
    let prefix = record::key_prefix(kind);
    assert(prefix.len() == kind.name().len() + 1);
    assert(raw == prefix + raw.skip(prefix.len() as int));
}

/// **The `<type>/` prefix matches the keys of that type and no others.**
pub proof fn law_the_prefix_is_exact(key: KeyView, kind: MemoryType)
    ensures
        record::key_prefix(kind).is_prefix_of(key.text()) <==> key.kind == kind,
{
    if record::key_prefix(kind).is_prefix_of(key.text()) {
        lemma_prefix_names_the_type(kind, key.text());
        law_key_text_identifies_the_key(
            key,
            KeyView { kind, slug: key.text().skip(kind.name().len() as int + 1) },
        );
    }
    if key.kind == kind {
        let prefix = record::key_prefix(kind);
        assert(key.text().take(prefix.len() as int) == prefix);
    }
}

/// **Filtering raw keys agrees with parsing them**: the type filter lets a key
/// through exactly where the parsed key is of that type, whoever wrote it and
/// however they spelt it, and it lets through everything under the type's
/// prefix.
pub proof fn law_the_filter_agrees_with_the_key(raw: Seq<char>, kind: MemoryType)
    ensures
        record::parsed_key(raw) matches Ok(key) ==> (record::raw_type(raw) == Some(kind)
            <==> key.kind == kind),
        record::key_prefix(kind).is_prefix_of(raw) ==> record::raw_type(raw) == Some(kind),
{
    if record::key_prefix(kind).is_prefix_of(raw) {
        lemma_prefix_names_the_type(kind, raw);
        let key = KeyView { kind, slug: raw.skip(kind.name().len() as int + 1) };
        lemma_key_text(key);
        law_type_names_read_back(kind);
    }
}

// ---------------------------------------------------------------------------
// Slugs
// ---------------------------------------------------------------------------

/// A word as a slug spells it: a small letter or a digit at a time, at least
/// one of them.
pub open spec fn is_slug_word(w: Seq<char>) -> bool {
    &&& w.len() > 0
    &&& forall|i: int| 0 <= i < w.len() ==> text::is_alnum(#[trigger] w[i]) && text::lower(w[i]) == w[i]
}

proof fn lemma_lowered_letters(s: Seq<char>)
    requires
        s.len() > 0,
        forall|i: int| 0 <= i < s.len() ==> text::is_alnum(#[trigger] s[i]),
    ensures
        is_slug_word(text::lowered(s)),
{
    let w = text::lowered(s);
    assert forall|i: int| 0 <= i < w.len() implies text::is_alnum(#[trigger] w[i]) && text::lower(
        w[i],
    ) == w[i] by {
        assert(text::is_alnum(s[i]));
        assert(w[i] == text::lower(s[i]));
    }
}

proof fn lemma_words_are_slug_words(s: Seq<char>)
    ensures
        forall|i: int| 0 <= i < text::words(s).len() ==> is_slug_word(#[trigger] text::words(s)[i]),
    decreases s.len(),
{
    if s.len() > 0 {
        if !text::is_alnum(s[0]) {
            lemma_words_are_slug_words(s.skip(1));
            assert(text::words(s) == text::words(s.skip(1)));
        } else {
            text::lemma_alnum_run_bound(s);
            let n = text::alnum_run(s) as int;
            lemma_words_are_slug_words(s.skip(n));
            assert forall|i: int| 0 <= i < n implies text::is_alnum(#[trigger] s.take(n)[i]) by {
                assert(s.take(n)[i] == s[i]);
            }
            lemma_lowered_letters(s.take(n));
            let first = text::lowered(s.take(n));
            let rest = text::words(s.skip(n));
            assert(text::words(s) == seq![first] + rest);
            assert forall|i: int| 0 <= i < text::words(s).len() implies is_slug_word(
                #[trigger] text::words(s)[i],
            ) by {
                if i > 0 {
                    assert(text::words(s)[i] == rest[i - 1]);
                }
            }
        }
    }
}

proof fn lemma_words_of_one_word(w: Seq<char>)
    requires
        is_slug_word(w),
    ensures
        text::words(w) == seq![w],
{
    assert(text::is_alnum(w[0]));
    text::lemma_alnum_run_is(w, w.len());
    assert(w.take(w.len() as int) == w);
    assert(text::lowered(w) == w);
    assert(text::words(w.skip(w.len() as int)) == Seq::<Seq<char>>::empty());
}

proof fn lemma_words_around_a_hyphen(a: Seq<char>, b: Seq<char>)
    ensures
        text::words(a + seq!['-'] + b) == text::words(a) + text::words(b),
    decreases a.len(),
{
    let s = a + seq!['-'] + b;
    if a.len() == 0 {
        assert(s[0] == '-');
        assert(s.skip(1) == b);
        assert(text::words(a) + text::words(b) == text::words(b));
    } else {
        assert(s[0] == a[0]);
        if !text::is_alnum(a[0]) {
            lemma_words_around_a_hyphen(a.skip(1), b);
            assert(s.skip(1) == a.skip(1) + seq!['-'] + b);
        } else {
            text::lemma_alnum_run_bound(a);
            let n = text::alnum_run(a) as int;
            assert forall|i: int| 0 <= i < n implies text::is_alnum(#[trigger] s[i]) by {
                assert(s[i] == a[i]);
            }
            assert(!text::is_alnum(s[n])) by {
                if n < a.len() {
                    assert(s[n] == a[n]);
                } else {
                    assert(s[n] == '-');
                }
            }
            text::lemma_alnum_run_is(s, n as nat);
            assert(s.take(n) == a.take(n));
            assert(s.skip(n) == a.skip(n) + seq!['-'] + b);
            lemma_words_around_a_hyphen(a.skip(n), b);
            let first = seq![text::lowered(a.take(n))];
            assert(first + (text::words(a.skip(n)) + text::words(b)) == (first + text::words(
                a.skip(n),
            )) + text::words(b));
        }
    }
}

proof fn lemma_words_of_a_slug(words: Seq<Seq<char>>)
    requires
        forall|i: int| 0 <= i < words.len() ==> is_slug_word(#[trigger] words[i]),
    ensures
        text::words(text::joined(words, "-"@)) == words,
    decreases words.len(),
{
    reveal_strlit("-");
    assert("-"@ == seq!['-']);
    if words.len() == 0 {
        assert(text::words(Seq::<char>::empty()) == Seq::<Seq<char>>::empty());
        assert(words == Seq::<Seq<char>>::empty());
    } else if words.len() == 1 {
        lemma_words_of_one_word(words[0]);
        assert(words == seq![words[0]]);
    } else {
        let rest = words.drop_last();
        assert forall|i: int| 0 <= i < rest.len() implies is_slug_word(#[trigger] rest[i]) by {
            assert(rest[i] == words[i]);
        }
        lemma_words_of_a_slug(rest);
        lemma_words_of_one_word(words.last());
        lemma_words_around_a_hyphen(text::joined(rest, "-"@), words.last());
        assert(words == rest + seq![words.last()]);
    }
}

/// **A slug has the words of the name it was made from.**
pub proof fn law_a_slug_keeps_the_words(name: Seq<char>)
    ensures
        text::words(record::slug(name)) == text::words(name),
{
    lemma_words_are_slug_words(name);
    lemma_words_of_a_slug(text::words(name));
}

/// **Making a slug of a slug changes nothing.**
pub proof fn law_slugs_are_stable(name: Seq<char>)
    ensures
        record::slug(record::slug(name)) == record::slug(name),
{
    law_a_slug_keeps_the_words(name);
}

/// **Names are filed together exactly where their words agree**: case,
/// punctuation and spacing make no difference, and nothing else is lost.
pub proof fn law_the_words_are_the_identity(a: Seq<char>, b: Seq<char>)
    ensures
        record::slug(a) == record::slug(b) <==> text::words(a) == text::words(b),
{
    law_a_slug_keeps_the_words(a);
    law_a_slug_keeps_the_words(b);
}

/// **A name can be filed exactly where it has a word in it.**
pub proof fn law_a_name_needs_a_word(kind: MemoryType, name: Seq<char>)
    ensures
        record::named_key(kind, name) is Ok <==> text::words(name).len() > 0,
{
    law_a_slug_keeps_the_words(name);
    if text::words(name).len() == 0 {
        assert(record::slug(name).len() == 0);
    } else if record::slug(name).len() == 0 {
        assert(text::words(record::slug(name)).len() == 0);
    }
}

/// A character a slug may hold.
pub open spec fn is_slug_char(c: char) -> bool {
    ||| 'a' <= c && c <= 'z'
    ||| '0' <= c && c <= '9'
    ||| c == '-'
}

proof fn lemma_slug_shape(words: Seq<Seq<char>>)
    requires
        words.len() > 0,
        forall|i: int| 0 <= i < words.len() ==> is_slug_word(#[trigger] words[i]),
    ensures
        ({
            let s = text::joined(words, "-"@);
            &&& s.len() > 0
            &&& s[0] != '-'
            &&& s.last() != '-'
            &&& forall|i: int| 0 <= i < s.len() ==> is_slug_char(#[trigger] s[i])
            &&& forall|i: int| 0 < i < s.len() && s[i - 1] == '-' ==> #[trigger] s[i] != '-'
        }),
    decreases words.len(),
{
    reveal_strlit("-");
    assert("-"@ == seq!['-']);
    let s = text::joined(words, "-"@);
    let w = words.last();
    assert(is_slug_word(words[words.len() - 1]));
    assert forall|i: int| 0 <= i < w.len() implies is_slug_char(#[trigger] w[i]) && w[i] != '-' by {
        assert(text::is_alnum(w[i]));
    }
    if words.len() == 1 {
        assert(s == w);
    } else {
        let rest = words.drop_last();
        assert forall|i: int| 0 <= i < rest.len() implies is_slug_word(#[trigger] rest[i]) by {
            assert(rest[i] == words[i]);
        }
        lemma_slug_shape(rest);
        let head = text::joined(rest, "-"@);
        let n = head.len() as int;
        assert(s == head + seq!['-'] + w);
        assert forall|i: int| 0 <= i < s.len() implies is_slug_char(#[trigger] s[i]) by {
            if i < n {
                assert(s[i] == head[i]);
            } else if i > n {
                assert(s[i] == w[i - n - 1]);
            }
        }
        assert forall|i: int| 0 < i < s.len() && s[i - 1] == '-' implies #[trigger] s[i] != '-' by {
            if i < n {
                assert(s[i] == head[i]);
                assert(s[i - 1] == head[i - 1]);
            } else if i == n {
                assert(s[i - 1] == head[n - 1]);
            } else {
                assert(s[i] == w[i - n - 1]);
            }
        }
    }
}

/// **A slug is small letters, digits and single hyphens**, with no hyphen at
/// either end.
pub proof fn law_slugs_have_the_shape_of_a_slug(name: Seq<char>)
    ensures
        ({
            let s = record::slug(name);
            &&& forall|i: int| 0 <= i < s.len() ==> is_slug_char(#[trigger] s[i])
            &&& s.len() > 0 ==> s[0] != '-' && s.last() != '-'
            &&& forall|i: int| 0 < i < s.len() && s[i - 1] == '-' ==> #[trigger] s[i] != '-'
        }),
{
    lemma_words_are_slug_words(name);
    if text::words(name).len() > 0 {
        lemma_slug_shape(text::words(name));
    }
}

// ---------------------------------------------------------------------------
// Stored values
// ---------------------------------------------------------------------------

/// What stands behind equal beginnings of equal texts is equal.
pub proof fn lemma_same_beginning(p: Seq<char>, x: Seq<char>, y: Seq<char>)
    requires
        p + x == p + y,
    ensures
        x == y,
{
    assert((p + x).skip(p.len() as int) == x);
    assert((p + y).skip(p.len() as int) == y);
}

proof fn lemma_decimal_digits(n: nat)
    ensures
        text::decimal(n).len() > 0,
        forall|i: int|
            0 <= i < text::decimal(n).len() ==> '0' <= (#[trigger] text::decimal(n)[i])
                && text::decimal(n)[i] <= '9',
    decreases n,
{
    if n >= 10 {
        lemma_decimal_digits(n / 10);
    }
}

proof fn lemma_decimal_grows(n: nat)
    requires
        n >= 10,
    ensures
        text::decimal(n).len() >= 2,
{
    lemma_decimal_digits(n / 10);
}

/// **A number reads back from its decimal digits.**
pub proof fn law_decimals_are_unambiguous(m: nat, n: nat)
    requires
        text::decimal(m) == text::decimal(n),
    ensures
        m == n,
    decreases m,
{
    if m >= 10 {
        lemma_decimal_grows(m);
    }
    if n >= 10 {
        lemma_decimal_grows(n);
    }
    if m < 10 {
        assert(n < 10);
        assert(text::decimal(m)[0] == text::digit(m));
        assert(text::decimal(n)[0] == text::digit(n));
    } else {
        assert(n >= 10);
        assert(text::decimal(m).drop_last() == text::decimal(m / 10));
        assert(text::decimal(n).drop_last() == text::decimal(n / 10));
        assert(text::decimal(m).last() == text::digit(m % 10));
        assert(text::decimal(n).last() == text::digit(n % 10));
        law_decimals_are_unambiguous(m / 10, n / 10);
        assert(m == 10 * (m / 10) + m % 10);
        assert(n == 10 * (n / 10) + n % 10);
    }
}

proof fn lemma_decimal_before_a_comma(m: nat, n: nat, x: Seq<char>, y: Seq<char>)
    requires
        text::decimal(m) + (seq![','] + x) == text::decimal(n) + (seq![','] + y),
    ensures
        m == n,
        x == y,
{
    lemma_decimal_digits(m);
    lemma_decimal_digits(n);
    let a = text::decimal(m);
    let b = text::decimal(n);
    let p = a + (seq![','] + x);
    let q = b + (seq![','] + y);
    assert(p[a.len() as int] == ',');
    assert(q[b.len() as int] == ',');
    if a.len() < b.len() {
        assert(q[a.len() as int] == b[a.len() as int]);
    }
    if b.len() < a.len() {
        assert(p[b.len() as int] == a[b.len() as int]);
    }
    assert(p.take(a.len() as int) == a);
    assert(q.take(b.len() as int) == b);
    law_decimals_are_unambiguous(m, n);
    lemma_same_beginning(a, seq![','] + x, seq![','] + y);
    lemma_same_beginning(seq![','], x, y);
}

proof fn lemma_type_before_a_quote(a: MemoryType, b: MemoryType, x: Seq<char>, y: Seq<char>)
    requires
        a.name() + (seq!['"'] + x) == b.name() + (seq!['"'] + y),
    ensures
        a == b,
        x == y,
{
    lemma_type_names(a);
    lemma_type_names(b);
    let p = a.name() + (seq!['"'] + x);
    let q = b.name() + (seq!['"'] + y);
    let m = a.name().len() as int;
    let n = b.name().len() as int;
    assert(p[m] == '"');
    assert(q[n] == '"');
    if m < n {
        assert(q[m] == b.name()[m]);
    }
    if n < m {
        assert(p[n] == a.name()[n]);
    }
    assert(p.take(m) == a.name());
    assert(q.take(n) == b.name());
    lemma_same_beginning(a.name(), seq!['"'] + x, seq!['"'] + y);
    lemma_same_beginning(seq!['"'], x, y);
}

pub proof fn lemma_joined_from_the_front(parts: Seq<Seq<char>>, sep: Seq<char>)
    requires
        parts.len() >= 2,
    ensures
        text::joined(parts, sep) == parts[0] + sep + text::joined(parts.skip(1), sep),
    decreases parts.len(),
{
    let rest = parts.skip(1);
    if parts.len() == 2 {
        assert(text::joined(parts.drop_last(), sep) == parts[0]);
        assert(text::joined(rest, sep) == parts[1]);
    } else {
        lemma_joined_from_the_front(parts.drop_last(), sep);
        assert(parts.drop_last().skip(1) == rest.drop_last());
        assert(text::joined(rest, sep) == text::joined(rest.drop_last(), sep) + sep
            + parts.last());
        assert(text::joined(parts, sep) == parts[0] + sep + text::joined(rest.drop_last(), sep)
            + sep + parts.last());
        assert(text::joined(parts, sep) == parts[0] + sep + (text::joined(rest.drop_last(), sep)
            + sep + parts.last()));
    }
}

proof fn lemma_links_before_a_bracket(
    a: Seq<Seq<char>>,
    b: Seq<Seq<char>>,
    x: Seq<char>,
    y: Seq<char>,
)
    requires
        text::joined(record::json_links(a), ","@) + (seq![']'] + x) == text::joined(
            record::json_links(b),
            ","@,
        ) + (seq![']'] + y),
    ensures
        a == b,
        x == y,
    decreases a.len(),
{
    reveal_strlit(",");
    assert(","@ == seq![',']);
    let ja = record::json_links(a);
    let jb = record::json_links(b);
    let p = text::joined(ja, ","@) + (seq![']'] + x);
    let q = text::joined(jb, ","@) + (seq![']'] + y);
    if a.len() > 0 {
        lemma_links_start(a, x);
    }
    if b.len() > 0 {
        lemma_links_start(b, y);
    }
    if a.len() == 0 || b.len() == 0 {
        if a.len() == 0 {
            assert(p[0] == ']');
        }
        if b.len() == 0 {
            assert(q[0] == ']');
        }
        assert(a == b);
        assert(p == seq![']'] + x);
        assert(q == seq![']'] + y);
        lemma_same_beginning(seq![']'], x, y);
    } else {
        let u = lemma_first_link(a, x);
        let v = lemma_first_link(b, y);
        json::law_json_strings_are_unambiguous(a[0], b[0], u, v);
        if a.len() == 1 || b.len() == 1 {
            assert(u[0] == v[0]);
            assert(a == b);
            lemma_same_beginning(seq![']'], x, y);
        } else {
            let pa = text::joined(record::json_links(a.skip(1)), ","@) + (seq![']'] + x);
            let pb = text::joined(record::json_links(b.skip(1)), ","@) + (seq![']'] + y);
            lemma_same_beginning(seq![','], pa, pb);
            lemma_links_before_a_bracket(a.skip(1), b.skip(1), x, y);
            assert(a == seq![a[0]] + a.skip(1));
            assert(b == seq![b[0]] + b.skip(1));
        }
    }
}

/// What follows the first of some links: the end of the list, or a comma and
/// the rest of it.
proof fn lemma_first_link(a: Seq<Seq<char>>, x: Seq<char>) -> (after: Seq<char>)
    requires
        a.len() > 0,
    ensures
        text::joined(record::json_links(a), ","@) + (seq![']'] + x) == json::json_text(a[0])
            + after,
        after == if a.len() == 1 {
            seq![']'] + x
        } else {
            seq![','] + (text::joined(record::json_links(a.skip(1)), ","@) + (seq![']'] + x))
        },
{
    reveal_strlit(",");
    assert(","@ == seq![',']);
    let ja = record::json_links(a);
    assert(ja[0] == json::json_text(a[0]));
    if a.len() == 1 {
        seq![']'] + x
    } else {
        lemma_joined_from_the_front(ja, ","@);
        assert(ja.skip(1) == record::json_links(a.skip(1)));
        let rest = text::joined(ja.skip(1), ","@);
        let after = seq![','] + (rest + (seq![']'] + x));
        assert(ja[0] + seq![','] + rest + (seq![']'] + x) == ja[0] + after);
        after
    }
}

proof fn lemma_links_start(a: Seq<Seq<char>>, x: Seq<char>)
    requires
        a.len() > 0,
    ensures
        ({
            let p = text::joined(record::json_links(a), ","@) + (seq![']'] + x);
            p.len() > 0 && p[0] == '"'
        }),
{
    let after = lemma_first_link(a, x);
    assert((json::json_text(a[0]) + after)[0] == '"');
}

/// The value string cut into what stands in front of each member and the member
/// itself.
pub proof fn lemma_wire_parts(r: RecordView)
    ensures
        record::wire_text(r) == "{\"v\":"@ + (text::decimal(r.v as nat) + (seq![','] + (
        "\"name\":"@ + (json::json_text(r.name) + (",\"type\":\""@ + (r.kind.name() + (seq!['"']
            + (",\"description\":"@ + (json::json_text(r.description) + (",\"body\":"@ + (
        json::json_text(r.body) + (",\"links\":["@ + (text::joined(
            record::json_links(r.links),
            ","@,
        ) + (seq![']'] + (",\"updatedAt\":"@ + (json::json_text(r.updated_at)
            + "}"@)))))))))))))))),
{
    reveal_strlit(",\"name\":");
    reveal_strlit("\"name\":");
    reveal_strlit("\",\"description\":");
    reveal_strlit(",\"description\":");
    reveal_strlit("],\"updatedAt\":");
    reveal_strlit(",\"updatedAt\":");
    assert(",\"name\":"@ == seq![','] + "\"name\":"@);
    assert("\",\"description\":"@ == seq!['"'] + ",\"description\":"@);
    assert("],\"updatedAt\":"@ == seq![']'] + ",\"updatedAt\":"@);
}

/// **A stored value says which record it holds**: no two records are encoded
/// alike, so whoever reads the value can have the record back, whole.
pub proof fn law_stored_values_are_unambiguous(a: RecordView, b: RecordView)
    requires
        record::wire_text(a) == record::wire_text(b),
    ensures
        a == b,
{
    lemma_wire_parts(a);
    lemma_wire_parts(b);
    let a8 = json::json_text(a.updated_at) + "}"@;
    let b8 = json::json_text(b.updated_at) + "}"@;
    let a7 = ",\"updatedAt\":"@ + a8;
    let b7 = ",\"updatedAt\":"@ + b8;
    let a6 = text::joined(record::json_links(a.links), ","@) + (seq![']'] + a7);
    let b6 = text::joined(record::json_links(b.links), ","@) + (seq![']'] + b7);
    let a5 = ",\"links\":["@ + a6;
    let b5 = ",\"links\":["@ + b6;
    let a4 = ",\"body\":"@ + (json::json_text(a.body) + a5);
    let b4 = ",\"body\":"@ + (json::json_text(b.body) + b5);
    let a3 = ",\"description\":"@ + (json::json_text(a.description) + a4);
    let b3 = ",\"description\":"@ + (json::json_text(b.description) + b4);
    let a2 = ",\"type\":\""@ + (a.kind.name() + (seq!['"'] + a3));
    let b2 = ",\"type\":\""@ + (b.kind.name() + (seq!['"'] + b3));
    let a1 = "\"name\":"@ + (json::json_text(a.name) + a2);
    let b1 = "\"name\":"@ + (json::json_text(b.name) + b2);
    lemma_same_beginning(
        "{\"v\":"@,
        text::decimal(a.v as nat) + (seq![','] + a1),
        text::decimal(b.v as nat) + (seq![','] + b1),
    );
    lemma_decimal_before_a_comma(a.v as nat, b.v as nat, a1, b1);
    lemma_same_beginning("\"name\":"@, json::json_text(a.name) + a2, json::json_text(b.name) + b2);
    json::law_json_strings_are_unambiguous(a.name, b.name, a2, b2);
    lemma_same_beginning(
        ",\"type\":\""@,
        a.kind.name() + (seq!['"'] + a3),
        b.kind.name() + (seq!['"'] + b3),
    );
    lemma_type_before_a_quote(a.kind, b.kind, a3, b3);
    lemma_same_beginning(
        ",\"description\":"@,
        json::json_text(a.description) + a4,
        json::json_text(b.description) + b4,
    );
    json::law_json_strings_are_unambiguous(a.description, b.description, a4, b4);
    lemma_same_beginning(
        ",\"body\":"@,
        json::json_text(a.body) + a5,
        json::json_text(b.body) + b5,
    );
    json::law_json_strings_are_unambiguous(a.body, b.body, a5, b5);
    lemma_same_beginning(",\"links\":["@, a6, b6);
    lemma_links_before_a_bracket(a.links, b.links, a7, b7);
    lemma_same_beginning(",\"updatedAt\":"@, a8, b8);
    json::law_json_strings_are_unambiguous(a.updated_at, b.updated_at, "}"@, "}"@);
}

/// The record that was encoded as `value`, if one was.
pub open spec fn read_back(value: Seq<char>) -> Option<RecordView> {
    if exists|r: RecordView| #[trigger] record::wire_text(r) == value {
        Some(choose|r: RecordView| #[trigger] record::wire_text(r) == value)
    } else {
        None
    }
}

/// **What was encoded comes back**: read for what it holds, the value of a
/// record decodes to that record, under whatever key.
pub proof fn law_records_come_back(key: KeyView, r: RecordView)
    ensures
        read_back(record::wire_text(r)) == Some(r),
        record::decoded(key, record::wire_text(r), read_back(record::wire_text(r))) == r,
{
    let back = choose|x: RecordView| #[trigger] record::wire_text(x) == record::wire_text(r);
    law_stored_values_are_unambiguous(back, r);
}

/// **A value that holds no record loses nothing**: it stays whole as the body
/// of a reference, is flagged by version zero, and only the description stands
/// for it in short.
pub proof fn law_foreign_values_are_kept(key: KeyView, value: Seq<char>)
    ensures
        ({
            let r = record::decoded(key, value, None);
            &&& r.body == value
            &&& r.v == 0
            &&& r.name == key.slug
            &&& r.kind == MemoryType::Reference
            &&& r.description.len() <= record::FIRST_LINE_CHARS
        }),
{
}

} // verus!
