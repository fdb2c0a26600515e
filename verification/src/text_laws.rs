//! What the operations on strings are for, said of single characters and of how
//! the operations behave on texts put together.

use vstd::prelude::*;

use crate::text;

verus! {

// ---------------------------------------------------------------------------
// Characters
// ---------------------------------------------------------------------------

/// **A letter or digit is an ASCII one**, told by its code.
pub proof fn law_letters_and_digits_are_ascii(c: char)
    ensures
        text::is_alnum(c) <==> {
            ||| 48 <= c as int <= 57
            ||| 65 <= c as int <= 90
            ||| 97 <= c as int <= 122
        },
{
}

/// **Lowering changes the capitals from A to Z and nothing else.**
pub proof fn law_lowering_changes_only_capitals(c: char)
    ensures
        65 <= c as int <= 90 ==> text::lower(c) as int == c as int + 32,
        !(65 <= c as int <= 90) ==> text::lower(c) == c,
{
}

/// **Lowering a text lowers each of its characters where it stands.**
pub proof fn law_lowering_is_character_by_character(s: Seq<char>)
    ensures
        text::lowered(s).len() == s.len(),
        forall|i: int| 0 <= i < s.len() ==> #[trigger] text::lowered(s)[i] == text::lower(s[i]),
{
}

/// **White space is what Unicode says it is**, told by its code.
pub proof fn law_white_space_is_unicodes(c: char)
    ensures
        text::is_space(c) <==> {
            ||| 9 <= c as int <= 13
            ||| c as int == 32
            ||| c as int == 133
            ||| c as int == 160
            ||| c as int == 5760
            ||| 8192 <= c as int <= 8202
            ||| c as int == 8232
            ||| c as int == 8233
            ||| c as int == 8239
            ||| c as int == 8287
            ||| c as int == 12288
        },
{
}

// ---------------------------------------------------------------------------
// Trimming
// ---------------------------------------------------------------------------

/// Nothing but white space.
pub open spec fn all_space(s: Seq<char>) -> bool {
    forall|i: int| 0 <= i < s.len() ==> text::is_space(#[trigger] s[i])
}

proof fn lemma_trim_start(s: Seq<char>) -> (before: Seq<char>)
    ensures
        s == before + text::trim_start(s),
        all_space(before),
        text::trim_start(s).len() > 0 ==> !text::is_space(text::trim_start(s)[0]),
    decreases s.len(),
{
    if s.len() > 0 && text::is_space(s[0]) {
        let rest = lemma_trim_start(s.skip(1));
        let before = seq![s[0]] + rest;
        assert(s == seq![s[0]] + s.skip(1));
        assert forall|i: int| 0 <= i < before.len() implies text::is_space(#[trigger] before[i]) by {
            if i > 0 {
                assert(before[i] == rest[i - 1]);
            }
        }
        before
    } else {
        assert(s == Seq::<char>::empty() + s);
        Seq::empty()
    }
}

proof fn lemma_trim_end(s: Seq<char>) -> (after: Seq<char>)
    ensures
        s == text::trim_end(s) + after,
        all_space(after),
        text::trim_end(s).len() > 0 ==> !text::is_space(text::trim_end(s).last()) && text::trim_end(
            s,
        )[0] == s[0],
    decreases s.len(),
{
    if s.len() > 0 && text::is_space(s.last()) {
        let rest = lemma_trim_end(s.drop_last());
        let after = rest.push(s.last());
        assert(s == s.drop_last().push(s.last()));
        assert(s == text::trim_end(s) + after);
        after
    } else {
        assert(s == s + Seq::<char>::empty());
        Seq::empty()
    }
}

/// **Trimming takes away white space at the ends, all of it and nothing else.**
pub proof fn law_trimming_takes_the_white_space_at_the_ends(s: Seq<char>)
    ensures
        exists|before: Seq<char>, after: Seq<char>|
            #![trigger all_space(before), all_space(after)]
            all_space(before) && all_space(after) && s == before + text::trimmed(s) + after,
        text::trimmed(s).len() > 0 ==> !text::is_space(text::trimmed(s)[0]) && !text::is_space(
            text::trimmed(s).last(),
        ),
{
    let before = lemma_trim_start(s);
    let after = lemma_trim_end(text::trim_start(s));
    assert(s == before + text::trimmed(s) + after);
    assert(all_space(before) && all_space(after));
}

/// **A text is blank exactly where it is white space throughout.**
pub proof fn law_blank_is_white_space_throughout(s: Seq<char>)
    ensures
        text::is_blank(s) <==> all_space(s),
{
    let before = lemma_trim_start(s);
    let after = lemma_trim_end(text::trim_start(s));
    assert(s == before + text::trimmed(s) + after);
    if text::trimmed(s).len() > 0 {
        assert(s[before.len() as int] == text::trimmed(s)[0]);
        assert(!text::is_space(s[before.len() as int]));
    } else {
        assert forall|i: int| 0 <= i < s.len() implies text::is_space(#[trigger] s[i]) by {
            if i < before.len() {
                assert(s[i] == before[i]);
            } else {
                assert(s[i] == after[i - before.len()]);
            }
        }
    }
}

// ---------------------------------------------------------------------------
// Words
// ---------------------------------------------------------------------------

/// Letters and digits throughout.
pub open spec fn all_alnum(s: Seq<char>) -> bool {
    forall|i: int| 0 <= i < s.len() ==> text::is_alnum(#[trigger] s[i])
}

/// **Letters and digits on end are one word**, lowered, and no text has no word.
pub proof fn law_letters_on_end_are_one_word(w: Seq<char>)
    requires
        all_alnum(w),
    ensures
        text::words(w) == if w.len() == 0 {
            Seq::<Seq<char>>::empty()
        } else {
            seq![text::lowered(w)]
        },
{
    if w.len() > 0 {
        assert(text::is_alnum(w[0]));
        text::lemma_alnum_run_is(w, w.len());
        assert(w.take(w.len() as int) == w);
        assert(text::words(w.skip(w.len() as int)) == Seq::<Seq<char>>::empty());
    }
}

/// **Whatever is no letter and no digit parts words**: what stands on either
/// side of it has the words it has by itself.
pub proof fn law_anything_else_parts_words(a: Seq<char>, c: char, b: Seq<char>)
    requires
        !text::is_alnum(c),
    ensures
        text::words(a + seq![c] + b) == text::words(a) + text::words(b),
    decreases a.len(),
{
    let s = a + seq![c] + b;
    if a.len() == 0 {
        assert(s[0] == c);
        assert(s.skip(1) == b);
        assert(text::words(a) + text::words(b) == text::words(b));
    } else {
        assert(s[0] == a[0]);
        if !text::is_alnum(a[0]) {
            law_anything_else_parts_words(a.skip(1), c, b);
            assert(s.skip(1) == a.skip(1) + seq![c] + b);
        } else {
            text::lemma_alnum_run_bound(a);
            let n = text::alnum_run(a) as int;
            assert forall|i: int| 0 <= i < n implies text::is_alnum(#[trigger] s[i]) by {
                assert(s[i] == a[i]);
            }
            assert(!text::is_alnum(s[n])) by {
                if n < a.len() {
                    assert(s[n] == a[n]);
                } else {
                    assert(s[n] == c);
                }
            }
            text::lemma_alnum_run_is(s, n as nat);
            assert(s.take(n) == a.take(n));
            assert(s.skip(n) == a.skip(n) + seq![c] + b);
            law_anything_else_parts_words(a.skip(n), c, b);
            let first = seq![text::lowered(a.take(n))];
            assert(first + (text::words(a.skip(n)) + text::words(b)) == (first + text::words(
                a.skip(n),
            )) + text::words(b));
        }
    }
}

// ---------------------------------------------------------------------------
// Searching
// ---------------------------------------------------------------------------

/// **A text holds another where the other starts what is left of it somewhere.**
pub proof fn law_holding_a_text_is_having_it_somewhere(hay: Seq<char>, needle: Seq<char>)
    ensures
        text::contains_text(hay, needle) <==> exists|i: int|
            0 <= i <= hay.len() && needle.is_prefix_of(#[trigger] hay.skip(i)),
{
    if text::contains_text(hay, needle) {
        let i = choose|i: int| text::occurs_at(hay, needle, i);
        assert(hay.skip(i).subrange(0, needle.len() as int) == hay.subrange(i, i + needle.len()));
        assert(needle.is_prefix_of(hay.skip(i)));
    }
    if exists|i: int| 0 <= i <= hay.len() && needle.is_prefix_of(#[trigger] hay.skip(i)) {
        let i = choose|i: int| 0 <= i <= hay.len() && needle.is_prefix_of(#[trigger] hay.skip(i));
        assert(hay.skip(i).subrange(0, needle.len() as int) == hay.subrange(i, i + needle.len()));
        assert(text::occurs_at(hay, needle, i));
    }
}

/// A text made of three parts holds the middle one.
pub proof fn lemma_holds_its_middle(before: Seq<char>, part: Seq<char>, after: Seq<char>)
    ensures
        text::contains_text(before + part + after, part),
        text::occurs_at(before + part + after, part, before.len() as int),
{
    let whole = before + part + after;
    assert(whole.subrange(before.len() as int, (before.len() + part.len()) as int) == part);
    assert(text::occurs_at(whole, part, before.len() as int));
}

/// What stands in a part stands in the whole.
pub proof fn lemma_holds_what_its_parts_hold(
    before: Seq<char>,
    part: Seq<char>,
    after: Seq<char>,
    needle: Seq<char>,
)
    requires
        text::contains_text(part, needle),
    ensures
        text::contains_text(before + part + after, needle),
{
    let whole = before + part + after;
    let i = choose|i: int| text::occurs_at(part, needle, i);
    let at = before.len() + i;
    assert(whole.subrange(at, at + needle.len()) == part.subrange(i, i + needle.len()));
    assert(text::occurs_at(whole, needle, at));
}

/// What a part of a text holds, the text holds.
pub proof fn lemma_holding_goes_on(whole: Seq<char>, part: Seq<char>, needle: Seq<char>)
    requires
        text::contains_text(whole, part),
        text::contains_text(part, needle),
    ensures
        text::contains_text(whole, needle),
{
    let i = choose|i: int| text::occurs_at(whole, part, i);
    let before = whole.take(i);
    let after = whole.skip(i + part.len());
    assert(whole == before + part + after);
    lemma_holds_what_its_parts_hold(before, part, after, needle);
}

// ---------------------------------------------------------------------------
// Joining and numbers
// ---------------------------------------------------------------------------

/// **Joining puts the separator between each two parts and nowhere else.**
pub proof fn law_joining_puts_the_separator_between(
    a: Seq<Seq<char>>,
    b: Seq<Seq<char>>,
    sep: Seq<char>,
)
    ensures
        text::joined(Seq::empty(), sep) == Seq::<char>::empty(),
        a.len() == 1 ==> text::joined(a, sep) == a[0],
        a.len() > 0 && b.len() > 0 ==> text::joined(a + b, sep) == text::joined(a, sep) + sep
            + text::joined(b, sep),
    decreases b.len(),
{
    if a.len() > 0 && b.len() > 0 {
        let whole = a + b;
        assert(whole.last() == b.last());
        if b.len() == 1 {
            assert(whole.drop_last() == a);
        } else {
            law_joining_puts_the_separator_between(a, b.drop_last(), sep);
            assert(whole.drop_last() == a + b.drop_last());
            assert(text::joined(whole, sep) == text::joined(a, sep) + sep + text::joined(
                b.drop_last(),
                sep,
            ) + sep + b.last());
            assert(text::joined(whole, sep) == text::joined(a, sep) + sep + (text::joined(
                b.drop_last(),
                sep,
            ) + sep + b.last()));
        }
    }
}

/// The number that decimal digits spell.
pub open spec fn spelt_number(s: Seq<char>) -> int
    decreases s.len(),
{
    if s.len() == 0 {
        0
    } else {
        10 * spelt_number(s.drop_last()) + (s.last() as int - 48)
    }
}

/// **A number's decimal digits spell that number**, in digits alone and without
/// a leading zero.
pub proof fn law_decimals_spell_their_number(n: nat)
    ensures
        spelt_number(text::decimal(n)) == n,
        text::decimal(n).len() > 0,
        forall|i: int|
            0 <= i < text::decimal(n).len() ==> 48 <= (#[trigger] text::decimal(n)[i]) as int <= 57,
        n > 0 ==> text::decimal(n)[0] as int != 48,
    decreases n,
{
    let s = text::decimal(n);
    if n < 10 {
        assert(s.drop_last() == Seq::<char>::empty());
        assert(spelt_number(s.drop_last()) == 0);
        assert(s.last() as int == 48 + n);
    } else {
        law_decimals_spell_their_number(n / 10);
        assert(s.drop_last() == text::decimal(n / 10));
        assert(s.last() as int == 48 + n % 10);
        assert(s[0] == text::decimal(n / 10)[0]);
        assert(n == 10 * (n / 10) + n % 10);
        assert forall|i: int| 0 <= i < s.len() implies 48 <= (#[trigger] s[i]) as int <= 57 by {
            if i < s.len() - 1 {
                assert(s[i] == text::decimal(n / 10)[i]);
            }
        }
    }
}

// ---------------------------------------------------------------------------
// Order
// ---------------------------------------------------------------------------

/// The two texts agree in their first `k` characters, and there the first ends
/// or has the smaller character.
pub open spec fn parts_at(a: Seq<char>, b: Seq<char>, k: int) -> bool {
    &&& 0 <= k <= a.len()
    &&& k < b.len()
    &&& a.take(k) == b.take(k)
    &&& k == a.len() || (a[k] as int) < (b[k] as int)
}

/// **Texts sort by the first character in which they differ**, and a text sorts
/// before those it starts.
pub proof fn law_texts_sort_where_they_part(a: Seq<char>, b: Seq<char>)
    ensures
        text::text_before(a, b) <==> exists|k: int| parts_at(a, b, k),
    decreases a.len(),
{
    if b.len() > 0 {
        if a.len() == 0 {
            assert(a.take(0) == b.take(0));
            assert(parts_at(a, b, 0));
        } else if a[0] != b[0] {
            if a[0] < b[0] {
                assert(a.take(0) == b.take(0));
                assert(parts_at(a, b, 0));
            }
            assert forall|k: int| parts_at(a, b, k) implies a[0] < b[0] by {
                if k > 0 {
                    assert(a.take(k)[0] == a[0]);
                    assert(b.take(k)[0] == b[0]);
                }
            }
        } else {
            let x = a.skip(1);
            let y = b.skip(1);
            law_texts_sort_where_they_part(x, y);
            if text::text_before(x, y) {
                let k = choose|k: int| parts_at(x, y, k);
                assert(a.take(k + 1) == seq![a[0]] + x.take(k));
                assert(b.take(k + 1) == seq![b[0]] + y.take(k));
                assert(parts_at(a, b, k + 1));
            }
            if exists|k: int| parts_at(a, b, k) {
                let k = choose|k: int| parts_at(a, b, k);
                assert(k > 0);
                assert(x.take(k - 1) == a.take(k).skip(1));
                assert(y.take(k - 1) == b.take(k).skip(1));
                assert(parts_at(x, y, k - 1));
            }
        }
    }
}

} // verus!
