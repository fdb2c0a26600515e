//! Strings as sequences of characters.
//!
//! Everything this crate promises about a string is stated over its `Seq<char>`
//! view. The functions here are the few operations the other modules build on;
//! each has a specification function that says what it computes.

use vstd::prelude::*;
use vstd::string::*;

verus! {

/// `String::push` appends exactly one character to the end of the string and
/// changes nothing before it.
pub assume_specification[ String::push ](s: &mut String, c: char)
    ensures
        final(s)@ == old(s)@.push(c),
;

/// The characters of a string, in order.
pub fn to_chars(s: &str) -> (res: Vec<char>)
    ensures
        res@ == s@,
{
    let mut out: Vec<char> = Vec::new();
    for c in it: s.chars()
        invariant
            out@ == s@.take(it.index() as int),
            it.seq() == s@,
    {
        out.push(c);
    }
    out
}

/// The string made of the characters `from..to` of `v`.
pub fn from_range(v: &Vec<char>, from: usize, to: usize) -> (res: String)
    requires
        from <= to <= v.len(),
    ensures
        res@ == v@.subrange(from as int, to as int),
{
    let mut out = String::new();
    let mut i: usize = from;
    while i < to
        invariant
            from <= i <= to <= v.len(),
            out@ == v@.subrange(from as int, i as int),
        decreases to - i,
    {
        out.push(v[i]);
        i += 1;
    }
    out
}

/// The string made of the characters of `v`.
pub fn from_chars(v: &Vec<char>) -> (res: String)
    ensures
        res@ == v@,
{
    let res = from_range(v, 0, v.len());
    assert(v@.subrange(0, v@.len() as int) == v@);
    res
}

/// Append every character of `tail` to `out`.
pub fn push_all(out: &mut Vec<char>, tail: &str)
    ensures
        final(out)@ == old(out)@ + tail@,
{
    let ghost start = out@;
    for c in it: tail.chars()
        invariant
            out@ == start + tail@.take(it.index() as int),
            it.seq() == tail@,
    {
        out.push(c);
    }
    assert(tail@.take(tail@.len() as int) == tail@);
}

// ---------------------------------------------------------------------------
// Classes of characters
// ---------------------------------------------------------------------------

/// An ASCII letter or digit.
pub open spec fn is_alnum(c: char) -> bool {
    ||| '0' <= c && c <= '9'
    ||| 'A' <= c && c <= 'Z'
    ||| 'a' <= c && c <= 'z'
}

/// `c` with an ASCII capital letter turned into the small one.
pub open spec fn lower(c: char) -> char {
    if 'A' <= c && c <= 'Z' {
        ((c as int) + 32) as char
    } else {
        c
    }
}

/// A character with Unicode's `White_Space` property.
pub open spec fn is_space(c: char) -> bool {
    ||| '\u{9}' <= c && c <= '\u{d}'
    ||| c == ' '
    ||| c == '\u{85}'
    ||| c == '\u{a0}'
    ||| c == '\u{1680}'
    ||| '\u{2000}' <= c && c <= '\u{200a}'
    ||| c == '\u{2028}'
    ||| c == '\u{2029}'
    ||| c == '\u{202f}'
    ||| c == '\u{205f}'
    ||| c == '\u{3000}'
}

/// Every character of `s`, lowered.
pub open spec fn lowered(s: Seq<char>) -> Seq<char> {
    s.map_values(|c: char| lower(c))
}

/// Whether `c` is an ASCII letter or digit.
pub fn char_is_alnum(c: char) -> (res: bool)
    ensures
        res == is_alnum(c),
{
    ('0' <= c && c <= '9') || ('A' <= c && c <= 'Z') || ('a' <= c && c <= 'z')
}

/// `c`, lowered.
pub fn char_lower(c: char) -> (res: char)
    ensures
        res == lower(c),
{
    if 'A' <= c && c <= 'Z' {
        let code: u8 = c as u8;
        (code + 32) as char
    } else {
        c
    }
}

/// Whether `c` is white space.
pub fn char_is_space(c: char) -> (res: bool)
    ensures
        res == is_space(c),
{
    ('\u{9}' <= c && c <= '\u{d}') || c == ' ' || c == '\u{85}' || c == '\u{a0}' || c == '\u{1680}'
        || ('\u{2000}' <= c && c <= '\u{200a}') || c == '\u{2028}' || c == '\u{2029}' || c
        == '\u{202f}' || c == '\u{205f}' || c == '\u{3000}'
}

/// The characters of `s`, lowered.
pub fn lower_chars(s: &str) -> (res: Vec<char>)
    ensures
        res@ == lowered(s@),
{
    let mut out: Vec<char> = Vec::new();
    for c in it: s.chars()
        invariant
            out@ == lowered(s@.take(it.index() as int)),
            it.seq() == s@,
    {
        out.push(char_lower(c));
        assert(s@.take(it.index() as int + 1) == s@.take(it.index() as int).push(c));
    }
    assert(s@.take(s@.len() as int) == s@);
    out
}

// ---------------------------------------------------------------------------
// Trimming
// ---------------------------------------------------------------------------

/// `s` without the white space it starts with.
pub open spec fn trim_start(s: Seq<char>) -> Seq<char>
    decreases s.len(),
{
    if s.len() > 0 && is_space(s[0]) {
        trim_start(s.skip(1))
    } else {
        s
    }
}

/// `s` without the white space it ends with.
pub open spec fn trim_end(s: Seq<char>) -> Seq<char>
    decreases s.len(),
{
    if s.len() > 0 && is_space(s.last()) {
        trim_end(s.drop_last())
    } else {
        s
    }
}

/// `s` without the white space at either end.
pub open spec fn trimmed(s: Seq<char>) -> Seq<char> {
    trim_end(trim_start(s))
}

/// The characters of `s` without the white space at either end.
pub fn trim(s: &Vec<char>) -> (res: Vec<char>)
    ensures
        res@ == trimmed(s@),
{
    let mut from: usize = 0;
    assert(s@.skip(0) == s@);
    while from < s.len() && char_is_space(s[from])
        invariant
            from <= s.len(),
            trim_start(s@.skip(from as int)) == trim_start(s@),
        decreases s.len() - from,
    {
        assert(s@.skip(from as int).skip(1) == s@.skip(from + 1));
        from += 1;
    }
    assert(trim_start(s@) == s@.skip(from as int));
    let mut to: usize = s.len();
    assert(s@.subrange(from as int, to as int) == s@.skip(from as int));
    while to > from && char_is_space(s[to - 1])
        invariant
            from <= to <= s.len(),
            trim_end(s@.subrange(from as int, to as int)) == trim_end(s@.skip(from as int)),
        decreases to,
    {
        assert(s@.subrange(from as int, to as int).drop_last() == s@.subrange(
            from as int,
            to - 1,
        ));
        to -= 1;
    }
    let mut out: Vec<char> = Vec::new();
    let mut i: usize = from;
    while i < to
        invariant
            from <= i <= to <= s.len(),
            out@ == s@.subrange(from as int, i as int),
        decreases to - i,
    {
        out.push(s[i]);
        i += 1;
    }
    out
}

/// Whether `s` holds nothing but white space.
pub open spec fn is_blank(s: Seq<char>) -> bool {
    trimmed(s).len() == 0
}

// ---------------------------------------------------------------------------
// Words
// ---------------------------------------------------------------------------

/// How many letters and digits `s` starts with.
pub open spec fn alnum_run(s: Seq<char>) -> nat
    decreases s.len(),
{
    if s.len() > 0 && is_alnum(s[0]) {
        1 + alnum_run(s.skip(1))
    } else {
        0
    }
}

/// The maximal runs of ASCII letters and digits in `s`, lowered, in order.
pub open spec fn words(s: Seq<char>) -> Seq<Seq<char>>
    decreases s.len(),
{
    if s.len() == 0 {
        seq![]
    } else if !is_alnum(s[0]) {
        words(s.skip(1))
    } else {
        proof {
            lemma_alnum_run_bound(s);
        }
        seq![lowered(s.take(alnum_run(s) as int))] + words(s.skip(alnum_run(s) as int))
    }
}

pub proof fn lemma_alnum_run_bound(s: Seq<char>)
    ensures
        alnum_run(s) <= s.len(),
        forall|i: int| 0 <= i < alnum_run(s) ==> is_alnum(#[trigger] s[i]),
        alnum_run(s) < s.len() ==> !is_alnum(s[alnum_run(s) as int]),
    decreases s.len(),
{
    if s.len() > 0 && is_alnum(s[0]) {
        lemma_alnum_run_bound(s.skip(1));
        assert forall|i: int| 0 <= i < alnum_run(s) implies is_alnum(#[trigger] s[i]) by {
            if i > 0 {
                assert(s[i] == s.skip(1)[i - 1]);
            }
        }
    }
}

/// The run at the start of `s` is as long as its letters and digits go on.
pub proof fn lemma_alnum_run_is(s: Seq<char>, n: nat)
    requires
        n <= s.len(),
        forall|i: int| 0 <= i < n ==> is_alnum(#[trigger] s[i]),
        n < s.len() ==> !is_alnum(s[n as int]),
    ensures
        alnum_run(s) == n,
{
    lemma_alnum_run_bound(s);
    let m = alnum_run(s);
    if m < n {
        assert(is_alnum(s[m as int]));
    }
    if n < m {
        assert(is_alnum(s[n as int]));
    }
}

/// The views of a list of words.
pub open spec fn word_views(v: Seq<Vec<char>>) -> Seq<Seq<char>> {
    v.map_values(|w: Vec<char>| w@)
}

/// The words of `s`.
pub fn split_words(s: &Vec<char>) -> (res: Vec<Vec<char>>)
    ensures
        word_views(res@) == words(s@),
{
    let mut out: Vec<Vec<char>> = Vec::new();
    let mut i: usize = 0;
    assert(s@.skip(0) == s@);
    assert(word_views(out@) + words(s@) == words(s@));
    while i < s.len()
        invariant
            i <= s.len(),
            word_views(out@) + words(s@.skip(i as int)) == words(s@),
        decreases s.len() - i,
    {
        let ghost rest = s@.skip(i as int);
        if !char_is_alnum(s[i]) {
            assert(rest.skip(1) == s@.skip(i + 1));
            i += 1;
        } else {
            let start: usize = i;
            let mut word: Vec<char> = Vec::new();
            while i < s.len() && char_is_alnum(s[i])
                invariant
                    start <= i <= s.len(),
                    word@ == lowered(s@.subrange(start as int, i as int)),
                    forall|k: int| start <= k < i ==> is_alnum(#[trigger] s@[k]),
                    i == start ==> is_alnum(s@[start as int]),
                    start < s.len(),
                decreases s.len() - i,
            {
                assert(s@.subrange(start as int, i + 1) == s@.subrange(
                    start as int,
                    i as int,
                ).push(s@[i as int]));
                word.push(char_lower(s[i]));
                i += 1;
            }
            let ghost before = out@;
            proof {
                assert forall|k: int| 0 <= k < i - start implies is_alnum(#[trigger] rest[k]) by {
                    assert(rest[k] == s@[start + k]);
                }
                lemma_alnum_run_is(rest, (i - start) as nat);
                assert(rest.take(i - start) == s@.subrange(start as int, i as int));
                assert(rest.skip(i - start) == s@.skip(i as int));
            }
            out.push(word);
            proof {
                assert(word_views(out@) == word_views(before).push(word@));
                assert(word_views(before) + (seq![word@] + words(s@.skip(i as int)))
                    == word_views(out@) + words(s@.skip(i as int)));
            }
        }
    }
    assert(s@.skip(i as int).len() == 0);
    assert(word_views(out@) + words(s@.skip(i as int)) == word_views(out@));
    out
}

// ---------------------------------------------------------------------------
// Searching
// ---------------------------------------------------------------------------

/// `needle` stands in `hay` at position `i`.
pub open spec fn occurs_at(hay: Seq<char>, needle: Seq<char>, i: int) -> bool {
    &&& 0 <= i
    &&& i + needle.len() <= hay.len()
    &&& hay.subrange(i, i + needle.len()) == needle
}

/// `needle` stands somewhere in `hay`.
pub open spec fn contains_text(hay: Seq<char>, needle: Seq<char>) -> bool {
    exists|i: int| occurs_at(hay, needle, i)
}

/// Whether `needle` stands in `hay` at position `i`.
pub fn matches_at(hay: &Vec<char>, needle: &Vec<char>, i: usize) -> (res: bool)
    requires
        i <= hay.len(),
    ensures
        res == occurs_at(hay@, needle@, i as int),
{
    if needle.len() > hay.len() - i {
        return false;
    }
    let mut k: usize = 0;
    while k < needle.len()
        invariant
            i <= hay.len(),
            needle.len() <= hay.len() - i,
            k <= needle.len(),
            forall|m: int| 0 <= m < k ==> hay@[i + m] == #[trigger] needle@[m],
        decreases needle.len() - k,
    {
        if hay[i + k] != needle[k] {
            proof {
                let sub = hay@.subrange(i as int, i + needle@.len());
                assert(sub[k as int] == hay@[i + k]);
            }
            return false;
        }
        k += 1;
    }
    assert(hay@.subrange(i as int, i + needle@.len()) == needle@);
    true
}

/// Whether `needle` stands somewhere in `hay`.
pub fn has_text(hay: &Vec<char>, needle: &Vec<char>) -> (res: bool)
    ensures
        res == contains_text(hay@, needle@),
{
    let mut i: usize = 0;
    while i <= hay.len()
        invariant
            i <= hay.len() + 1,
            forall|k: int| 0 <= k < i ==> !#[trigger] occurs_at(hay@, needle@, k),
        decreases hay.len() + 1 - i,
    {
        if matches_at(hay, needle, i) {
            return true;
        }
        if i == hay.len() {
            proof {
                assert forall|k: int| !occurs_at(hay@, needle@, k) by {
                    if 0 <= k && k < i {
                        assert(!occurs_at(hay@, needle@, k));
                    }
                }
            }
            return false;
        }
        i += 1;
    }
    false
}

/// Whether `s` starts with `prefix`.
pub fn starts_with(s: &str, prefix: &str) -> (res: bool)
    ensures
        res == prefix@.is_prefix_of(s@),
{
    let all = to_chars(s);
    let start = to_chars(prefix);
    let res = matches_at(&all, &start, 0);
    assert(occurs_at(s@, prefix@, 0) <==> prefix@.is_prefix_of(s@));
    res
}

/// Whether two strings hold the same characters.
pub fn same_text(a: &str, b: &str) -> (res: bool)
    ensures
        res == (a@ == b@),
{
    let a_chars = to_chars(a);
    let b_chars = to_chars(b);
    let res = a_chars.len() == b_chars.len() && matches_at(&a_chars, &b_chars, 0);
    assert(a@.subrange(0, a@.len() as int) == a@);
    res
}

/// How many characters stand in `s` before the first `stop`.
pub open spec fn run_before(s: Seq<char>, stop: char) -> nat
    decreases s.len(),
{
    if s.len() == 0 || s[0] == stop {
        0
    } else {
        1 + run_before(s.skip(1), stop)
    }
}

pub proof fn lemma_run_before_is(s: Seq<char>, stop: char, n: nat)
    requires
        n <= s.len(),
        forall|i: int| 0 <= i < n ==> #[trigger] s[i] != stop,
        n < s.len() ==> s[n as int] == stop,
    ensures
        run_before(s, stop) == n,
    decreases s.len(),
{
    if s.len() == 0 || s[0] == stop {
        if n > 0 {
            assert(s[0] != stop);
        }
    } else {
        assert forall|i: int| 0 <= i < n - 1 implies #[trigger] s.skip(1)[i] != stop by {
            assert(s.skip(1)[i] == s[i + 1]);
        }
        lemma_run_before_is(s.skip(1), stop, (n - 1) as nat);
    }
}

pub proof fn lemma_run_before_bound(s: Seq<char>, stop: char)
    ensures
        run_before(s, stop) <= s.len(),
        forall|i: int| 0 <= i < run_before(s, stop) ==> #[trigger] s[i] != stop,
        run_before(s, stop) < s.len() ==> s[run_before(s, stop) as int] == stop,
    decreases s.len(),
{
    if s.len() > 0 && s[0] != stop {
        lemma_run_before_bound(s.skip(1), stop);
        assert forall|i: int| 0 <= i < run_before(s, stop) implies #[trigger] s[i] != stop by {
            if i > 0 {
                assert(s[i] == s.skip(1)[i - 1]);
            }
        }
    }
}

/// The position of the first `stop` in `s`, or the length of `s`.
pub fn find_char(s: &Vec<char>, stop: char) -> (res: usize)
    ensures
        res == run_before(s@, stop),
        res <= s.len(),
{
    let mut i: usize = 0;
    while i < s.len() && s[i] != stop
        invariant
            i <= s.len(),
            forall|k: int| 0 <= k < i ==> #[trigger] s@[k] != stop,
        decreases s.len() - i,
    {
        i += 1;
    }
    proof {
        lemma_run_before_is(s@, stop, i as nat);
    }
    i
}

// ---------------------------------------------------------------------------
// Joining
// ---------------------------------------------------------------------------

/// The parts in order, with `sep` between each two.
pub open spec fn joined(parts: Seq<Seq<char>>, sep: Seq<char>) -> Seq<char>
    decreases parts.len(),
{
    if parts.len() == 0 {
        seq![]
    } else if parts.len() == 1 {
        parts[0]
    } else {
        joined(parts.drop_last(), sep) + sep + parts.last()
    }
}

/// The views of a list of strings.
pub open spec fn texts(v: Seq<String>) -> Seq<Seq<char>> {
    v.map_values(|s: String| s@)
}

/// The same strings, again.
pub fn copy_texts(v: &Vec<String>) -> (res: Vec<String>)
    ensures
        texts(res@) == texts(v@),
{
    let mut out: Vec<String> = Vec::new();
    let mut i: usize = 0;
    while i < v.len()
        invariant
            i <= v.len(),
            out@ == v@.take(i as int),
        decreases v.len() - i,
    {
        out.push(v[i].clone());
        i += 1;
    }
    assert(v@.take(v@.len() as int) == v@);
    out
}

/// A copy of a string that may not be there.
pub fn copy_option(s: &Option<String>) -> (res: Option<String>)
    ensures
        res == *s,
{
    match s {
        Some(s) => Some(s.clone()),
        None => None,
    }
}

/// The view of a string that may not be there.
pub open spec fn option_view(s: Option<String>) -> Option<Seq<char>> {
    match s {
        Some(s) => Some(s@),
        None => None,
    }
}

/// The strings in order, with `sep` between each two.
pub fn join(parts: &Vec<String>, sep: &str) -> (res: String)
    ensures
        res@ == joined(texts(parts@), sep@),
{
    let mut out = String::new();
    let mut i: usize = 0;
    while i < parts.len()
        invariant
            i <= parts.len(),
            out@ == joined(texts(parts@).take(i as int), sep@),
        decreases parts.len() - i,
    {
        let ghost all = texts(parts@);
        assert(all.take(i + 1).drop_last() == all.take(i as int));
        assert(all.take(i + 1).last() == parts@[i as int]@);
        if i > 0 {
            out.append(sep);
        } else {
            assert(all.take(1)[0] == parts@[0]@);
        }
        out.append(parts[i].as_str());
        i += 1;
    }
    assert(texts(parts@).take(parts@.len() as int) == texts(parts@));
    out
}

/// `n` in decimal digits, with no sign and no leading zero.
pub open spec fn decimal(n: nat) -> Seq<char>
    decreases n,
{
    if n < 10 {
        seq![digit(n)]
    } else {
        decimal(n / 10).push(digit(n % 10))
    }
}

/// The digit for `n`, where `n` is below ten.
pub open spec fn digit(n: nat) -> char {
    (('0' as int) + n) as char
}

/// `n` in decimal.
pub fn to_decimal(n: usize) -> (res: String)
    ensures
        res@ == decimal(n as nat),
    decreases n,
{
    let mut out = if n < 10 {
        String::new()
    } else {
        to_decimal(n / 10)
    };
    let low: u8 = (n % 10) as u8;
    out.push((48 + low) as char);
    assert(n < 10 ==> n % 10 == n);
    out
}

// ---------------------------------------------------------------------------
// Order
// ---------------------------------------------------------------------------

/// `a` sorts strictly before `b`: character by character, a shorter string
/// before the longer ones it starts.
pub open spec fn text_before(a: Seq<char>, b: Seq<char>) -> bool
    decreases a.len(),
{
    if b.len() == 0 {
        false
    } else if a.len() == 0 {
        true
    } else if a[0] != b[0] {
        a[0] < b[0]
    } else {
        text_before(a.skip(1), b.skip(1))
    }
}

pub proof fn lemma_text_before_irreflexive(a: Seq<char>)
    ensures
        !text_before(a, a),
    decreases a.len(),
{
    if a.len() > 0 {
        lemma_text_before_irreflexive(a.skip(1));
    }
}

pub proof fn lemma_text_before_total(a: Seq<char>, b: Seq<char>)
    ensures
        text_before(a, b) || text_before(b, a) || a == b,
    decreases a.len(),
{
    if a.len() > 0 && b.len() > 0 && a[0] == b[0] {
        lemma_text_before_total(a.skip(1), b.skip(1));
        if a.skip(1) == b.skip(1) {
            assert(a == seq![a[0]] + a.skip(1));
            assert(b == seq![b[0]] + b.skip(1));
        }
    } else if a.len() == 0 && b.len() == 0 {
        assert(a == b);
    }
}

pub proof fn lemma_text_before_transitive(a: Seq<char>, b: Seq<char>, c: Seq<char>)
    requires
        text_before(a, b),
        text_before(b, c),
    ensures
        text_before(a, c),
    decreases a.len(),
{
    if a.len() > 0 && b.len() > 0 && c.len() > 0 && a[0] == b[0] && b[0] == c[0] {
        lemma_text_before_transitive(a.skip(1), b.skip(1), c.skip(1));
    }
}

/// Texts sort strictly, and what is left between two that sort is beside one of
/// them.
pub proof fn lemma_text_order(a: Seq<char>, b: Seq<char>, c: Seq<char>)
    ensures
        text_before(a, b) && text_before(b, c) ==> text_before(a, c),
        text_before(a, c) ==> text_before(a, b) || text_before(b, c),
        !(text_before(a, b) && text_before(b, a)),
        !text_before(a, a),
{
    lemma_text_before_irreflexive(a);
    if text_before(a, b) && text_before(b, c) {
        lemma_text_before_transitive(a, b, c);
    }
    if text_before(a, b) && text_before(b, a) {
        lemma_text_before_transitive(a, b, a);
    }
    if text_before(a, c) {
        lemma_text_before_total(a, b);
        lemma_text_before_total(b, c);
        if text_before(b, a) {
            lemma_text_before_transitive(b, a, c);
        }
    }
}

/// How one string sorts against another.
#[derive(Debug, Clone, Copy, PartialEq, Eq, Structural)]
pub enum Sorting {
    Before,
    Same,
    After,
}

/// How `a` sorts against `b`.
pub fn sort_texts(a: &str, b: &str) -> (res: Sorting)
    ensures
        (res is Before) == text_before(a@, b@),
        (res is Same) == (a@ == b@),
        (res is After) == text_before(b@, a@),
{
    let x = to_chars(a);
    let y = to_chars(b);
    let mut i: usize = 0;
    proof {
        assert(x@.skip(0) == x@);
        assert(y@.skip(0) == y@);
    }
    while i < x.len() && i < y.len() && x[i] == y[i]
        invariant
            i <= x.len(),
            i <= y.len(),
            forall|k: int| 0 <= k < i ==> x@[k] == y@[k],
            text_before(x@, y@) == text_before(x@.skip(i as int), y@.skip(i as int)),
            text_before(y@, x@) == text_before(y@.skip(i as int), x@.skip(i as int)),
        decreases x.len() - i,
    {
        assert(x@.skip(i as int).skip(1) == x@.skip(i + 1));
        assert(y@.skip(i as int).skip(1) == y@.skip(i + 1));
        i += 1;
    }
    proof {
        lemma_text_before_irreflexive(x@);
        lemma_text_before_irreflexive(y@);
    }
    if i == y.len() {
        if i == x.len() {
            assert(x@ == y@);
            Sorting::Same
        } else {
            Sorting::After
        }
    } else if i == x.len() {
        Sorting::Before
    } else if x[i] < y[i] {
        Sorting::Before
    } else {
        Sorting::After
    }
}

} // verus!
