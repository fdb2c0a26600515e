//! What the commands' output is for: every memory is shown, whole and under its
//! own type, and a hook is given all of it.

use vstd::prelude::*;

use crate::cli;
use crate::json;
use crate::lists;
use crate::record::{Entry, MemoryType};
use crate::text;
use crate::text_laws;

verus! {

// ---------------------------------------------------------------------------
// Items
// ---------------------------------------------------------------------------

/// **A body is shown whole, its lines set in**: every character in its turn, and
/// two spaces behind every line break.
pub proof fn law_a_body_is_shown_line_by_line(a: Seq<char>, b: Seq<char>)
    ensures
        cli::deeper(a + b) == cli::deeper(a) + cli::deeper(b),
        cli::deeper(Seq::empty()) == Seq::<char>::empty(),
        a.len() == 1 ==> cli::deeper(a) == if a[0] == '\n' {
            "\n  "@
        } else {
            a
        },
        (forall|i: int| 0 <= i < a.len() ==> #[trigger] a[i] != '\n') ==> cli::deeper(a) == a,
    decreases b.len(), a.len(),
{
    if a.len() == 1 {
        assert(a.drop_last() == Seq::<char>::empty());
        assert(cli::deeper(a.drop_last()) == Seq::<char>::empty());
        assert(a == Seq::<char>::empty().push(a[0]));
        assert(Seq::<char>::empty() + "\n  "@ == "\n  "@);
    }
    if a.len() > 0 && forall|i: int| 0 <= i < a.len() ==> #[trigger] a[i] != '\n' {
        let rest = a.drop_last();
        assert forall|i: int| 0 <= i < rest.len() implies #[trigger] rest[i] != '\n' by {
            assert(rest[i] == a[i]);
        }
        law_a_body_is_shown_line_by_line(rest, Seq::empty());
        assert(a[a.len() - 1] != '\n');
        assert(rest.push(a.last()) == a);
    }
    if b.len() == 0 {
        assert(a + b == a);
        assert(cli::deeper(a) + cli::deeper(b) == cli::deeper(a));
    } else {
        law_a_body_is_shown_line_by_line(a, b.drop_last());
        assert((a + b).drop_last() == a + b.drop_last());
        assert((a + b).last() == b.last());
        if b.last() == '\n' {
            assert(cli::deeper(a) + cli::deeper(b.drop_last()) + "\n  "@ == cli::deeper(a) + (
            cli::deeper(b.drop_last()) + "\n  "@));
        } else {
            assert((cli::deeper(a) + cli::deeper(b.drop_last())).push(b.last()) == cli::deeper(a)
                + cli::deeper(b.drop_last()).push(b.last()));
        }
    }
}

/// **One memory is shown by its name, its key and its description**, all of
/// each, and by its body too where bodies are asked for and it has one.
pub proof fn law_one_memory_is_one_item(e: &Entry, full: bool)
    ensures
        cli::item_text(e, full) == "\n- **"@ + e.record.name@ + "** (`"@ + (e.key.kind.name() + "/"@
            + e.key.slug@) + "`) — "@ + e.record.description@ + if full && e.record.body@.len() > 0 {
            "\n\n  "@ + cli::deeper(e.record.body@)
        } else {
            Seq::<char>::empty()
        },
        cli::items_text(seq![e], full) == cli::item_text(e, full),
{
    let one = seq![e];
    assert(one.drop_last() == Seq::<&Entry>::empty());
    assert(cli::items_text(one.drop_last(), full) == Seq::<char>::empty());
    assert(Seq::<char>::empty() + cli::item_text(e, full) == cli::item_text(e, full));
}

/// **Items stand one behind the other, none left out.**
pub proof fn law_items_stand_one_behind_the_other(a: Seq<&Entry>, b: Seq<&Entry>, full: bool)
    ensures
        cli::items_text(a + b, full) == cli::items_text(a, full) + cli::items_text(b, full),
        cli::items_text(Seq::empty(), full) == Seq::<char>::empty(),
    decreases b.len(),
{
    if b.len() == 0 {
        assert(a + b == a);
        assert(cli::items_text(a, full) + cli::items_text(b, full) == cli::items_text(a, full));
    } else {
        law_items_stand_one_behind_the_other(a, b.drop_last(), full);
        assert((a + b).drop_last() == a + b.drop_last());
        assert((a + b).last() == b.last());
        assert(cli::items_text(a, full) + cli::items_text(b.drop_last(), full) + cli::item_text(
            b.last(),
            full,
        ) == cli::items_text(a, full) + (cli::items_text(b.drop_last(), full) + cli::item_text(
            b.last(),
            full,
        )));
    }
}

// ---------------------------------------------------------------------------
// Sections
// ---------------------------------------------------------------------------

/// **A type's section holds the memories of that type, all of them and in
/// order**, under the type's name, and there is none where there are none.
pub proof fn law_a_section_holds_the_memories_of_its_type(
    entries: Seq<&Entry>,
    kind: MemoryType,
    full: bool,
)
    ensures
        cli::section(entries, kind, full) == if entries.filter(
            |e: &Entry| e.key.kind == kind,
        ).len() == 0 {
            Seq::<char>::empty()
        } else {
            "\n## "@ + kind.name() + "\n"@ + cli::items_text(
                entries.filter(|e: &Entry| e.key.kind == kind),
                full,
            ) + "\n"@
        },
{
}

/// **A rendering is a heading that counts every memory, and a section for each
/// type**; where there is no memory, it is a sentence that says so.
pub proof fn law_a_rendering_is_a_heading_and_four_sections(
    context_id: Seq<char>,
    entries: Seq<&Entry>,
    full: bool,
)
    ensures
        entries.len() == 0 ==> cli::rendered(context_id, entries, full)
            == "No memories stored in trust context `"@ + context_id + "`."@,
        entries.len() > 0 ==> cli::rendered(context_id, entries, full) == "# Stored memories ("@
            + text::decimal(entries.len()) + " in trust context `"@ + context_id + "`)\n"@ + (
        cli::section(entries, MemoryType::User, full) + cli::section(
            entries,
            MemoryType::Feedback,
            full,
        ) + cli::section(entries, MemoryType::Project, full) + cli::section(
            entries,
            MemoryType::Reference,
            full,
        )),
{
    let h = "# Stored memories ("@ + text::decimal(entries.len()) + " in trust context `"@
        + context_id + "`)\n"@;
    let u = cli::section(entries, MemoryType::User, full);
    let f = cli::section(entries, MemoryType::Feedback, full);
    let p = cli::section(entries, MemoryType::Project, full);
    let r = cli::section(entries, MemoryType::Reference, full);
    assert(h + u + f + p + r == h + (u + f + p + r));
}

proof fn lemma_filter_before(entries: Seq<&Entry>, kind: MemoryType, i: int) -> (after: Seq<&Entry>)
    requires
        0 <= i < entries.len(),
        entries[i].key.kind == kind,
    ensures
        cli::of_kind(entries, kind) == cli::of_kind(entries.take(i), kind) + seq![entries[i]]
            + after,
{
    let p = |e: &Entry| e.key.kind == kind;
    let tail = entries.skip(i + 1);
    lists::lemma_filter_step(entries, i, p);
    assert(entries == entries.take(i + 1) + tail);
    Seq::filter_distributes_over_add(entries.take(i + 1), tail, p);
    assert(entries.take(i).filter(p).push(entries[i]) == entries.take(i).filter(p)
        + seq![entries[i]]);
    tail.filter(p)
}

/// Where the section of one type stands in a rendering.
proof fn lemma_section_stands(
    context_id: Seq<char>,
    entries: Seq<&Entry>,
    kind: MemoryType,
    full: bool,
) -> (around: (Seq<char>, Seq<char>))
    requires
        entries.len() > 0,
    ensures
        cli::rendered(context_id, entries, full) == around.0 + cli::section(entries, kind, full)
            + around.1,
{
    let h = "# Stored memories ("@ + text::decimal(entries.len()) + " in trust context `"@
        + context_id + "`)\n"@;
    let u = cli::section(entries, MemoryType::User, full);
    let f = cli::section(entries, MemoryType::Feedback, full);
    let p = cli::section(entries, MemoryType::Project, full);
    let r = cli::section(entries, MemoryType::Reference, full);
    match kind {
        MemoryType::User => {
            assert(h + u + f + p + r == h + u + (f + p + r));
            (h, f + p + r)
        },
        MemoryType::Feedback => {
            assert(h + u + f + p + r == (h + u) + f + (p + r));
            (h + u, p + r)
        },
        MemoryType::Project => {
            assert(h + u + f + p + r == (h + u + f) + p + r);
            (h + u + f, r)
        },
        MemoryType::Reference => {
            assert(h + u + f + p + r == (h + u + f + p) + r + Seq::<char>::empty());
            (h + u + f + p, Seq::empty())
        },
    }
}

/// What stands in the middle of a section, with what is around it.
proof fn lemma_around_an_item(
    left: Seq<char>,
    head: Seq<char>,
    earlier: Seq<char>,
    item: Seq<char>,
    later: Seq<char>,
    end: Seq<char>,
    right: Seq<char>,
)
    ensures
        left + (head + (earlier + item + later) + end) + right == left + (head + earlier + item) + (
        later + end + right),
{
}

/// **Every memory is shown under the heading of its own type**: behind that
/// heading come the items of the memories of that type that stand before it, and
/// then its own.
pub proof fn law_every_memory_is_shown_under_its_type(
    context_id: Seq<char>,
    entries: Seq<&Entry>,
    full: bool,
    i: int,
)
    requires
        0 <= i < entries.len(),
    ensures
        text::contains_text(
            cli::rendered(context_id, entries, full),
            "\n## "@ + entries[i].key.kind.name() + "\n"@ + cli::items_text(
                entries.take(i).filter(|e: &Entry| e.key.kind == entries[i].key.kind),
                full,
            ) + cli::item_text(entries[i], full),
        ),
{
    let kind = entries[i].key.kind;
    let (left, right) = lemma_section_stands(context_id, entries, kind, full);
    let later = lemma_filter_before(entries, kind, i);
    let earlier = cli::of_kind(entries.take(i), kind);
    lemma_items_around(earlier, entries[i], later, full);
    let head = "\n## "@ + kind.name() + "\n"@;
    let a = cli::items_text(earlier, full);
    let item = cli::item_text(entries[i], full);
    let b = cli::items_text(later, full);
    assert(cli::section(entries, kind, full) == head + (a + item + b) + "\n"@);
    lemma_around_an_item(left, head, a, item, b, "\n"@, right);
    text_laws::lemma_holds_its_middle(left, head + a + item, b + "\n"@ + right);
    assert(earlier == entries.take(i).filter(|e: &Entry| e.key.kind == entries[i].key.kind));
}

proof fn lemma_items_around(
    earlier: Seq<&Entry>,
    e: &Entry,
    later: Seq<&Entry>,
    full: bool,
)
    ensures
        cli::items_text(earlier + seq![e] + later, full) == cli::items_text(earlier, full)
            + cli::item_text(e, full) + cli::items_text(later, full),
{
    law_items_stand_one_behind_the_other(earlier, seq![e], full);
    law_items_stand_one_behind_the_other(earlier + seq![e], later, full);
    law_one_memory_is_one_item(e, full);
}

proof fn lemma_an_item_holds_its_line(e: &Entry, full: bool)
    ensures
        ({
            let line = "\n- **"@ + e.record.name@ + "** (`"@ + (e.key.kind.name() + "/"@
                + e.key.slug@) + "`) — "@ + e.record.description@;
            &&& text::contains_text(cli::item_text(e, full), line)
            &&& full && e.record.body@.len() > 0 ==> cli::item_text(e, full) == line + ("\n\n  "@
                + cli::deeper(e.record.body@))
        }),
{
    law_one_memory_is_one_item(e, full);
    let line = "\n- **"@ + e.record.name@ + "** (`"@ + (e.key.kind.name() + "/"@ + e.key.slug@)
        + "`) — "@ + e.record.description@;
    let none = Seq::<char>::empty();
    let tail = if full && e.record.body@.len() > 0 {
        "\n\n  "@ + cli::deeper(e.record.body@)
    } else {
        none
    };
    text_laws::lemma_holds_its_middle(none, line, tail);
    assert(none + line == line);
}

/// **Every memory that is rendered is shown**: its name, its key and its whole
/// description stand together in one item, and its body, with its lines set in,
/// right behind them where bodies are asked for.
pub proof fn law_every_memory_is_shown(
    context_id: Seq<char>,
    entries: Seq<&Entry>,
    full: bool,
    i: int,
)
    requires
        0 <= i < entries.len(),
    ensures
        ({
            let e = entries[i];
            let line = "\n- **"@ + e.record.name@ + "** (`"@ + (e.key.kind.name() + "/"@
                + e.key.slug@) + "`) — "@ + e.record.description@;
            &&& text::contains_text(cli::rendered(context_id, entries, full), line)
            &&& full && e.record.body@.len() > 0 ==> text::contains_text(
                cli::rendered(context_id, entries, full),
                line + ("\n\n  "@ + cli::deeper(e.record.body@)),
            )
        }),
{
    let e = entries[i];
    law_every_memory_is_shown_under_its_type(context_id, entries, full, i);
    lemma_an_item_holds_its_line(e, full);
    let head = "\n## "@ + e.key.kind.name() + "\n"@ + cli::items_text(
        entries.take(i).filter(|x: &Entry| x.key.kind == entries[i].key.kind),
        full,
    );
    let line = "\n- **"@ + e.record.name@ + "** (`"@ + (e.key.kind.name() + "/"@ + e.key.slug@)
        + "`) — "@ + e.record.description@;
    lemma_the_end_is_held(
        cli::rendered(context_id, entries, full),
        head,
        cli::item_text(e, full),
        line,
    );
}

proof fn lemma_the_end_is_held(
    whole: Seq<char>,
    head: Seq<char>,
    item: Seq<char>,
    line: Seq<char>,
)
    requires
        text::contains_text(whole, head + item),
        text::contains_text(item, line),
    ensures
        text::contains_text(whole, item),
        text::contains_text(whole, line),
{
    let none = Seq::<char>::empty();
    text_laws::lemma_holds_its_middle(head, item, none);
    assert(head + item + none == head + item);
    text_laws::lemma_holding_goes_on(whole, head + item, item);
    text_laws::lemma_holding_goes_on(whole, item, line);
}

// ---------------------------------------------------------------------------
// The hook
// ---------------------------------------------------------------------------

/// **A hook is given the whole of what was rendered**: the envelope is one JSON
/// object around its JSON string, and no two contexts share one.
pub proof fn law_a_hook_is_given_all_of_it(a: Seq<char>, b: Seq<char>)
    ensures
        cli::envelope(a) == "{\"hookSpecificOutput\":{"@ + ("\"additionalContext\":"@
            + json::json_text(a)) + ","@ + "\"hookEventName\":\"SessionStart\""@ + "}}"@,
        text::contains_text(cli::envelope(a), json::json_text(a)),
        cli::envelope(a) == cli::envelope(b) ==> a == b,
{
    reveal_strlit("{\"hookSpecificOutput\":{\"additionalContext\":");
    reveal_strlit("{\"hookSpecificOutput\":{");
    reveal_strlit("\"additionalContext\":");
    reveal_strlit(",");
    reveal_strlit("\"hookEventName\":\"SessionStart\"");
    reveal_strlit("}}");
    reveal_strlit(",\"hookEventName\":\"SessionStart\"}}");
    let head = "{\"hookSpecificOutput\":{\"additionalContext\":"@;
    let tail = ",\"hookEventName\":\"SessionStart\"}}"@;
    assert(head == "{\"hookSpecificOutput\":{"@ + "\"additionalContext\":"@);
    assert(tail == ","@ + "\"hookEventName\":\"SessionStart\""@ + "}}"@);
    assert(cli::envelope(a) == "{\"hookSpecificOutput\":{"@ + ("\"additionalContext\":"@
        + json::json_text(a)) + ","@ + "\"hookEventName\":\"SessionStart\""@ + "}}"@);
    text_laws::lemma_holds_its_middle(head, json::json_text(a), tail);
    if cli::envelope(a) == cli::envelope(b) {
        assert(cli::envelope(a) == head + (json::json_text(a) + tail));
        assert(cli::envelope(b) == head + (json::json_text(b) + tail));
        crate::record_laws::lemma_same_beginning(
            head,
            json::json_text(a) + tail,
            json::json_text(b) + tail,
        );
        json::law_json_strings_are_unambiguous(a, b, tail, tail);
    }
}

} // verus!
