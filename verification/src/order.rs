//! Sorting by an order in which some things tie.
//!
//! Lists here are sorted the way a stable sort sorts them: nothing stands after
//! something it sorts before, and things that tie keep the order they came in.
//! Every list has exactly one such arrangement, whatever the order.

use vstd::prelude::*;

verus! {

/// `before` sorts strictly, and things that tie with a third tie with each
/// other.
#[verifier::opaque]
pub open spec fn is_order<T>(before: spec_fn(T, T) -> bool) -> bool {
    &&& forall|a: T, b: T| #[trigger] before(a, b) ==> !before(b, a)
    &&& forall|a: T, b: T, c: T|
        #[trigger] before(a, b) && #[trigger] before(b, c) ==> before(a, c)
    &&& forall|a: T, b: T, c: T|
        #[trigger] before(a, c) ==> #[trigger] before(a, b) || before(b, c)
}

/// Neither of the two sorts before the other.
pub open spec fn ties<T>(before: spec_fn(T, T) -> bool, a: T, b: T) -> bool {
    !before(a, b) && !before(b, a)
}

/// What in `s` ties with `h`, in order.
pub open spec fn tied<T>(before: spec_fn(T, T) -> bool, s: Seq<T>, h: T) -> Seq<T> {
    s.filter(|x: T| ties(before, x, h))
}

/// Nothing stands after something it sorts before.
pub open spec fn in_order<T>(before: spec_fn(T, T) -> bool, s: Seq<T>) -> bool {
    forall|i: int, j: int| 0 <= i < j < s.len() ==> !before(#[trigger] s[j], #[trigger] s[i])
}

/// `out` is `input` in order, with what ties left in the order it came in.
pub open spec fn is_sorting<T>(
    before: spec_fn(T, T) -> bool,
    input: Seq<T>,
    out: Seq<T>,
) -> bool {
    &&& in_order(before, out)
    &&& forall|h: T| #[trigger] tied(before, out, h) == tied(before, input, h)
}

/// `input`, sorted. See [`law_sorting_is_well_defined`].
pub open spec fn sorted<T>(before: spec_fn(T, T) -> bool, input: Seq<T>) -> Seq<T> {
    choose|out: Seq<T>| is_sorting(before, input, out)
}

/// What [`is_order`] says of three things.
proof fn lemma_order<T>(before: spec_fn(T, T) -> bool, a: T, b: T, c: T)
    requires
        is_order(before),
    ensures
        before(a, b) ==> !before(b, a),
        before(a, b) && before(b, c) ==> before(a, c),
        before(a, c) ==> before(a, b) || before(b, c),
        !before(a, a),
{
    reveal(is_order);
    if before(a, a) {
        assert(!before(a, a));
    }
    if before(a, c) {
        assert(before(a, b) || before(b, c));
    }
}

proof fn lemma_filter_one<T>(x: T, p: spec_fn(T) -> bool)
    ensures
        seq![x].filter(p) == if p(x) {
            seq![x]
        } else {
            seq![]
        },
{
    reveal(Seq::filter);
    let one = seq![x];
    assert(one.drop_last() == Seq::<T>::empty());
    assert(one.drop_last().filter(p) == Seq::<T>::empty());
    assert(one.last() == x);
}

proof fn lemma_tied_last<T>(before: spec_fn(T, T) -> bool, s: Seq<T>, h: T)
    requires
        s.len() > 0,
    ensures
        tied(before, s, h) == if ties(before, s.last(), h) {
            tied(before, s.drop_last(), h).push(s.last())
        } else {
            tied(before, s.drop_last(), h)
        },
{
    let p = |x: T| ties(before, x, h);
    assert(s == s.drop_last() + seq![s.last()]);
    Seq::filter_distributes_over_add(s.drop_last(), seq![s.last()], p);
    lemma_filter_one(s.last(), p);
}

/// Something of `s` ties with `h` exactly where `tied(s, h)` holds something.
proof fn lemma_tied_members<T>(before: spec_fn(T, T) -> bool, s: Seq<T>, h: T)
    ensures
        forall|i: int|
            0 <= i < s.len() && ties(before, #[trigger] s[i], h) ==> tied(before, s, h).len() > 0,
        tied(before, s, h).len() > 0 ==> exists|i: int|
            0 <= i < s.len() && ties(before, #[trigger] s[i], h),
    decreases s.len(),
{
    if s.len() > 0 {
        lemma_tied_last(before, s, h);
        let rest = s.drop_last();
        lemma_tied_members(before, rest, h);
        assert forall|i: int| 0 <= i < s.len() && ties(before, #[trigger] s[i], h) implies tied(
            before,
            s,
            h,
        ).len() > 0 by {
            if i < rest.len() {
                assert(rest[i] == s[i]);
            }
        }
        if tied(before, s, h).len() > 0 {
            if ties(before, s.last(), h) {
                assert(ties(before, s[s.len() - 1], h));
            } else {
                let i = choose|i: int| 0 <= i < rest.len() && ties(before, #[trigger] rest[i], h);
                assert(ties(before, s[i], h));
            }
        }
    } else {
        reveal(Seq::filter);
    }
}

proof fn lemma_in_order_drop_last<T>(before: spec_fn(T, T) -> bool, s: Seq<T>)
    requires
        in_order(before, s),
        s.len() > 0,
    ensures
        in_order(before, s.drop_last()),
{
    let rest = s.drop_last();
    assert forall|i: int, j: int| 0 <= i < j < rest.len() implies !before(
        #[trigger] rest[j],
        #[trigger] rest[i],
    ) by {
        assert(!before(s[j], s[i]));
    }
}

/// Of two lists in order in which the same things tie in the same sequence, the
/// last elements are one and the same.
proof fn lemma_same_last<T>(before: spec_fn(T, T) -> bool, a: Seq<T>, b: Seq<T>)
    requires
        is_order(before),
        in_order(before, a),
        in_order(before, b),
        forall|h: T| #[trigger] tied(before, a, h) == tied(before, b, h),
        a.len() > 0,
    ensures
        b.len() > 0,
        a.last() == b.last(),
{
    let h = a.last();
    lemma_order(before, h, h, h);
    lemma_tied_members(before, a, h);
    lemma_tied_members(before, b, h);
    assert(ties(before, a[a.len() - 1], h));
    assert(tied(before, a, h) == tied(before, b, h));
    let k = choose|k: int| 0 <= k < b.len() && ties(before, #[trigger] b[k], h);
    let last = b.last();
    if !ties(before, last, h) {
        assert(k < b.len() - 1);
        assert(!before(b[b.len() - 1], b[k]));
        lemma_order(before, last, b[k], h);
        lemma_order(before, h, b[k], last);
        assert(before(h, last));
        lemma_tied_members(before, a, last);
        lemma_tied_members(before, b, last);
        lemma_order(before, last, last, last);
        assert(ties(before, b[b.len() - 1], last));
        assert(tied(before, a, last) == tied(before, b, last));
        let m = choose|m: int| 0 <= m < a.len() && ties(before, #[trigger] a[m], last);
        lemma_order(before, h, a[m], last);
        assert(before(h, a[m]));
        assert(m < a.len() - 1);
        assert(!before(a[a.len() - 1], a[m]));
    }
    lemma_tied_last(before, a, h);
    lemma_tied_last(before, b, h);
    assert(tied(before, a, h).last() == h);
    assert(tied(before, b, h).last() == last);
}

proof fn lemma_same_ties_same_list<T>(before: spec_fn(T, T) -> bool, a: Seq<T>, b: Seq<T>)
    requires
        is_order(before),
        in_order(before, a),
        in_order(before, b),
        forall|h: T| #[trigger] tied(before, a, h) == tied(before, b, h),
    ensures
        a == b,
    decreases a.len(),
{
    if a.len() == 0 {
        if b.len() > 0 {
            assert forall|h: T| #[trigger] tied(before, b, h) == tied(before, a, h) by {
                assert(tied(before, a, h) == tied(before, b, h));
            }
            lemma_same_last(before, b, a);
        }
        assert(a == b);
    } else {
        lemma_same_last(before, a, b);
        let h = a.last();
        let a1 = a.drop_last();
        let b1 = b.drop_last();
        assert forall|g: T| #[trigger] tied(before, a1, g) == tied(before, b1, g) by {
            lemma_tied_last(before, a, g);
            lemma_tied_last(before, b, g);
            assert(tied(before, a, g) == tied(before, b, g));
            if ties(before, h, g) {
                assert(tied(before, a, g).drop_last() == tied(before, a1, g));
                assert(tied(before, b, g).drop_last() == tied(before, b1, g));
            }
        }
        lemma_in_order_drop_last(before, a);
        lemma_in_order_drop_last(before, b);
        lemma_same_ties_same_list(before, a1, b1);
        assert(a == a1.push(h));
        assert(b == b1.push(h));
    }
}

/// Put in at `at`, where everything before sorts before it and nothing from
/// there on does, one more thing keeps a sorted list sorted.
pub proof fn lemma_insertion<T>(before: spec_fn(T, T) -> bool, list: Seq<T>, at: int, x: T)
    requires
        is_order(before),
        in_order(before, list),
        0 <= at <= list.len(),
        forall|k: int| 0 <= k < at ==> before(#[trigger] list[k], x),
        at < list.len() ==> !before(list[at], x),
    ensures
        is_sorting(before, seq![x] + list, list.insert(at, x)),
{
    let out = list.insert(at, x);
    let head = list.take(at);
    let tail = list.skip(at);
    assert(out == head + (seq![x] + tail));
    assert(list == head + tail);
    assert forall|i: int, j: int| 0 <= i < j < out.len() implies !before(
        #[trigger] out[j],
        #[trigger] out[i],
    ) by {
        if i < at && j == at {
            assert(before(list[i], x));
            lemma_order(before, list[i], x, x);
        } else if i == at {
            assert(out[j] == list[j - 1]);
            if j - 1 > at {
                assert(!before(list[j - 1], list[at]));
                lemma_order(before, list[j - 1], list[at], x);
            }
        } else if j < at {
            assert(!before(list[j], list[i]));
        } else if i < at {
            assert(!before(list[j - 1], list[i]));
        } else {
            assert(!before(list[j - 1], list[i - 1]));
        }
    }
    assert forall|h: T| #[trigger] tied(before, out, h) == tied(before, seq![x] + list, h) by {
        let p = |y: T| ties(before, y, h);
        Seq::filter_distributes_over_add(head, seq![x] + tail, p);
        Seq::filter_distributes_over_add(seq![x], tail, p);
        Seq::filter_distributes_over_add(head, tail, p);
        Seq::filter_distributes_over_add(seq![x], list, p);
        lemma_filter_one(x, p);
        if ties(before, x, h) {
            assert forall|k: int| 0 <= k < head.len() implies !p(#[trigger] head[k]) by {
                assert(before(list[k], x));
                lemma_order(before, list[k], h, x);
            }
            head.lemma_all_neg_filter_empty(p);
            assert(tied(before, head, h) == Seq::<T>::empty());
        }
        let one = seq![x].filter(p);
        assert(tied(before, out, h) == tied(before, head, h) + (one + tied(before, tail, h)));
        assert(tied(before, seq![x] + list, h) == one + (tied(before, head, h) + tied(
            before,
            tail,
            h,
        )));
        assert(tied(before, head, h) + (one + tied(before, tail, h)) == one + (tied(
            before,
            head,
            h,
        ) + tied(before, tail, h)));
    }
}

/// A sorting of `rest`, with one more thing sorted into it, is a sorting of
/// both.
pub proof fn lemma_one_more<T>(
    before: spec_fn(T, T) -> bool,
    x: T,
    rest: Seq<T>,
    below: Seq<T>,
    out: Seq<T>,
)
    requires
        is_sorting(before, rest, below),
        is_sorting(before, seq![x] + below, out),
    ensures
        is_sorting(before, seq![x] + rest, out),
{
    assert forall|h: T| #[trigger] tied(before, out, h) == tied(before, seq![x] + rest, h) by {
        let p = |y: T| ties(before, y, h);
        assert(tied(before, out, h) == tied(before, seq![x] + below, h));
        Seq::filter_distributes_over_add(seq![x], below, p);
        Seq::filter_distributes_over_add(seq![x], rest, p);
        assert(tied(before, below, h) == tied(before, rest, h));
    }
}

/// Where one more thing goes in a list in order.
proof fn lemma_place<T>(before: spec_fn(T, T) -> bool, list: Seq<T>, x: T) -> (at: int)
    requires
        in_order(before, list),
    ensures
        0 <= at <= list.len(),
        forall|k: int| 0 <= k < at ==> before(#[trigger] list[k], x),
        at < list.len() ==> !before(list[at], x),
    decreases list.len(),
{
    if list.len() == 0 {
        0
    } else {
        let rest = list.drop_last();
        lemma_in_order_drop_last(before, list);
        let at = lemma_place(before, rest, x);
        assert forall|k: int| 0 <= k < at implies before(#[trigger] list[k], x) by {
            assert(list[k] == rest[k]);
        }
        if at < rest.len() {
            assert(list[at] == rest[at]);
            at
        } else if before(list.last(), x) {
            at + 1
        } else {
            at
        }
    }
}

proof fn lemma_some_sorting<T>(before: spec_fn(T, T) -> bool, input: Seq<T>) -> (out: Seq<T>)
    requires
        is_order(before),
    ensures
        is_sorting(before, input, out),
    decreases input.len(),
{
    if input.len() == 0 {
        input
    } else {
        let x = input[0];
        let rest = input.skip(1);
        let below = lemma_some_sorting(before, rest);
        let at = lemma_place(before, below, x);
        let out = below.insert(at, x);
        lemma_insertion(before, below, at, x);
        lemma_one_more(before, x, rest, below, out);
        assert(input == seq![x] + rest);
        out
    }
}

/// **Every list has a sorting, and only one.**
pub proof fn law_sorting_is_well_defined<T>(before: spec_fn(T, T) -> bool, input: Seq<T>)
    requires
        is_order(before),
    ensures
        is_sorting(before, input, sorted(before, input)),
        forall|out: Seq<T>|
            #[trigger] is_sorting(before, input, out) ==> out == sorted(before, input),
{
    let some = lemma_some_sorting(before, input);
    assert(is_sorting(before, input, some));
    assert forall|out: Seq<T>| #[trigger] is_sorting(before, input, out) implies out == sorted(
        before,
        input,
    ) by {
        let one = sorted(before, input);
        assert forall|h: T| #[trigger] tied(before, out, h) == tied(before, one, h) by {
            assert(tied(before, out, h) == tied(before, input, h));
            assert(tied(before, one, h) == tied(before, input, h));
        }
        lemma_same_ties_same_list(before, out, one);
    }
}

proof fn lemma_count_among_ties<T>(before: spec_fn(T, T) -> bool, s: Seq<T>, x: T)
    requires
        is_order(before),
    ensures
        s.to_multiset().count(x) == tied(before, s, x).to_multiset().count(x),
    decreases s.len(),
{
    broadcast use vstd::seq_lib::group_to_multiset_ensures;

    lemma_order(before, x, x, x);
    if s.len() == 0 {
        reveal(Seq::filter);
    } else {
        let rest = s.drop_last();
        lemma_count_among_ties(before, rest, x);
        lemma_tied_last(before, s, x);
        assert(s == rest.push(s.last()));
    }
}

/// **Sorting loses nothing and invents nothing**: what comes out is what went
/// in, everything as often as before.
pub proof fn law_sorting_keeps_everything<T>(before: spec_fn(T, T) -> bool, input: Seq<T>)
    requires
        is_order(before),
    ensures
        sorted(before, input).to_multiset() == input.to_multiset(),
        sorted(before, input).len() == input.len(),
{
    broadcast use vstd::seq_lib::group_to_multiset_ensures;

    law_sorting_is_well_defined(before, input);
    let out = sorted(before, input);
    assert forall|x: T| out.to_multiset().count(x) == input.to_multiset().count(x) by {
        lemma_count_among_ties(before, out, x);
        lemma_count_among_ties(before, input, x);
        assert(tied(before, out, x) == tied(before, input, x));
    }
    assert(out.to_multiset() =~= input.to_multiset());
    assert(out.to_multiset().len() == out.len());
    assert(input.to_multiset().len() == input.len());
}

/// No two things in `s` tie.
pub open spec fn no_ties<T>(before: spec_fn(T, T) -> bool, s: Seq<T>) -> bool {
    forall|i: int, j: int|
        0 <= i < j < s.len() ==> !ties(before, #[trigger] s[i], #[trigger] s[j])
}

/// With no ties in `s`, at most one thing in it ties with `h`.
proof fn lemma_at_most_one_tie<T>(before: spec_fn(T, T) -> bool, s: Seq<T>, h: T)
    requires
        is_order(before),
        no_ties(before, s),
    ensures
        forall|i: int|
            0 <= i < s.len() && ties(before, #[trigger] s[i], h) ==> tied(before, s, h)
                == seq![s[i]],
        (forall|i: int| 0 <= i < s.len() ==> !ties(before, #[trigger] s[i], h)) ==> tied(
            before,
            s,
            h,
        ) == Seq::<T>::empty(),
{
    let p = |x: T| ties(before, x, h);
    assert forall|i: int| 0 <= i < s.len() && ties(before, #[trigger] s[i], h) implies tied(
        before,
        s,
        h,
    ) == seq![s[i]] by {
        let head = s.take(i);
        let tail = s.skip(i + 1);
        assert(s == head + (seq![s[i]] + tail));
        Seq::filter_distributes_over_add(head, seq![s[i]] + tail, p);
        Seq::filter_distributes_over_add(seq![s[i]], tail, p);
        lemma_filter_one(s[i], p);
        assert forall|k: int| 0 <= k < head.len() implies !p(#[trigger] head[k]) by {
            assert(!ties(before, s[k], s[i]));
            lemma_order(before, s[k], h, s[i]);
            lemma_order(before, s[i], h, s[k]);
        }
        assert forall|k: int| 0 <= k < tail.len() implies !p(#[trigger] tail[k]) by {
            let other = s[i + 1 + k];
            assert(!ties(before, s[i], other));
            lemma_order(before, other, h, s[i]);
            lemma_order(before, s[i], h, other);
        }
        head.lemma_all_neg_filter_empty(p);
        tail.lemma_all_neg_filter_empty(p);
        assert(head.filter(p) == Seq::<T>::empty());
        assert(tail.filter(p) == Seq::<T>::empty());
        assert(tied(before, s, h) == seq![s[i]]);
    }
    if forall|i: int| 0 <= i < s.len() ==> !ties(before, #[trigger] s[i], h) {
        s.lemma_all_neg_filter_empty(p);
    }
}

proof fn lemma_ties_ignore_arrangement<T>(
    before: spec_fn(T, T) -> bool,
    a: Seq<T>,
    b: Seq<T>,
    h: T,
)
    requires
        is_order(before),
        no_ties(before, a),
        no_ties(before, b),
        forall|x: T| a.contains(x) == b.contains(x),
    ensures
        tied(before, a, h) == tied(before, b, h),
{
    lemma_at_most_one_tie(before, a, h);
    lemma_at_most_one_tie(before, b, h);
    if exists|i: int| 0 <= i < a.len() && ties(before, #[trigger] a[i], h) {
        let i = choose|i: int| 0 <= i < a.len() && ties(before, #[trigger] a[i], h);
        assert(a.contains(a[i]));
        let j = choose|j: int| 0 <= j < b.len() && b[j] == a[i];
        assert(ties(before, b[j], h));
    } else {
        assert forall|j: int| 0 <= j < b.len() implies !ties(before, #[trigger] b[j], h) by {
            assert(b.contains(b[j]));
            let i = choose|i: int| 0 <= i < a.len() && a[i] == b[j];
            assert(!ties(before, a[i], h));
        }
    }
}

/// **Where nothing ties, a sorting does not depend on how the list was
/// arranged.**
pub proof fn law_sorting_ignores_arrangement<T>(
    before: spec_fn(T, T) -> bool,
    a: Seq<T>,
    b: Seq<T>,
)
    requires
        is_order(before),
        no_ties(before, a),
        no_ties(before, b),
        forall|x: T| a.contains(x) == b.contains(x),
    ensures
        sorted(before, a) == sorted(before, b),
{
    law_sorting_is_well_defined(before, a);
    law_sorting_is_well_defined(before, b);
    let out = sorted(before, a);
    assert forall|h: T| #[trigger] tied(before, out, h) == tied(before, b, h) by {
        assert(tied(before, out, h) == tied(before, a, h));
        lemma_ties_ignore_arrangement(before, a, b, h);
    }
    assert(is_sorting(before, b, out));
}

} // verus!
