//! What holds of a session's messages whatever is written to the store.

use vstd::prelude::*;
use crate::agent_bridge::messages::{
    context_rows, floor_of, is_tool_row, kept_before, last_compaction, last_id, last_of, law_usage_roundtrip,
    no_limit, selected, session_context, usage_json, usage_of, without_orphans, Kinds,
    KEPT_BEFORE_PATH,
};
use crate::agent_bridge::rows::{StoredMessageView, WriteView};
use crate::agent_bridge::tables::TablesView;
use crate::json::{json_parsed, JsonV};
use crate::sqlite::member_number;
use crate::text::{is_first, lemma_filtered, lemma_first};

verus! {

/// An element that passes is in the filtered list.
pub proof fn lemma_filter_has(
    s: Seq<StoredMessageView>,
    p: spec_fn(StoredMessageView) -> bool,
    x: StoredMessageView,
)
    requires
        s.contains(x),
        p(x),
    ensures
        s.filter(p).contains(x),
    decreases s.len(),
{
    reveal(Seq::filter);
    if s.last() == x {
        assert(s.filter(p)[s.filter(p).len() - 1] == x);
    } else {
        let k = choose|k: int| 0 <= k < s.len() && s[k] == x;
        assert(s.drop_last()[k] == x);
        lemma_filter_has(s.drop_last(), p, x);
        let j = choose|j: int|
            0 <= j < s.drop_last().filter(p).len() && s.drop_last().filter(p)[j] == x;
        assert(s.filter(p)[j] == x);
    }
}

/// Changing only what does not pass, before and after, changes nothing that passes.
pub proof fn lemma_filter_unmoved(
    s: Seq<StoredMessageView>,
    t: Seq<StoredMessageView>,
    p: spec_fn(StoredMessageView) -> bool,
)
    requires
        s.len() == t.len(),
        forall|i: int| 0 <= i < s.len() ==> (#[trigger] t[i]) == s[i] || (!p(s[i]) && !p(t[i])),
    ensures
        s.filter(p) == t.filter(p),
    decreases s.len(),
{
    reveal(Seq::filter);
    if s.len() > 0 {
        assert(t[s.len() - 1] == t.last());
        assert forall|i: int| 0 <= i < s.drop_last().len() implies (#[trigger] t.drop_last()[i])
            == s.drop_last()[i] || (!p(s.drop_last()[i]) && !p(t.drop_last()[i])) by {
            assert(t[i] == t.drop_last()[i]);
        }
        lemma_filter_unmoved(s.drop_last(), t.drop_last(), p);
    }
}

/// What a session's selections are made of.
pub proof fn lemma_selected(
    ms: Seq<StoredMessageView>,
    session_id: Seq<char>,
    kinds: Kinds,
    from: int,
    below: int,
)
    ensures
        forall|i: int|
            0 <= i < selected(ms, session_id, kinds, from, below).len() ==> {
                let m = #[trigger] selected(ms, session_id, kinds, from, below)[i];
                &&& m.session_id == session_id
                &&& m.rewound_at is None
                &&& kinds.holds(m.type_)
                &&& from <= m.id < below
                &&& ms.contains(m)
            },
{
    let p = |m: StoredMessageView|
        {
            &&& m.session_id == session_id
            &&& m.rewound_at is None
            &&& kinds.holds(m.type_)
            &&& from <= m.id < below
        };
    lemma_filtered(ms, p);
    assert forall|i: int| 0 <= i < selected(ms, session_id, kinds, from, below).len() implies {
        let m = #[trigger] selected(ms, session_id, kinds, from, below)[i];
        &&& m.session_id == session_id
        &&& m.rewound_at is None
        &&& kinds.holds(m.type_)
        &&& from <= m.id < below
        &&& ms.contains(m)
    } by {
        assert(p(ms.filter(p)[i]));
    }
}

pub proof fn lemma_selected_has(
    ms: Seq<StoredMessageView>,
    session_id: Seq<char>,
    kinds: Kinds,
    from: int,
    below: int,
    m: StoredMessageView,
)
    requires
        ms.contains(m),
        m.session_id == session_id,
        m.rewound_at is None,
        kinds.holds(m.type_),
        from <= m.id < below,
    ensures
        selected(ms, session_id, kinds, from, below).contains(m),
{
    let p = |m: StoredMessageView|
        {
            &&& m.session_id == session_id
            &&& m.rewound_at is None
            &&& kinds.holds(m.type_)
            &&& from <= m.id < below
        };
    lemma_filter_has(ms, p, m);
}

/// What is left of a list without the tool rows at its beginning.
proof fn lemma_without_orphans(ms: Seq<StoredMessageView>)
    ensures
        forall|i: int|
            0 <= i < without_orphans(ms).len() ==> ms.contains(#[trigger] without_orphans(ms)[i]),
        without_orphans(ms).len() > 0 ==> !is_tool_row(without_orphans(ms)[0]),
        without_orphans(ms).len() <= ms.len(),
        forall|m: StoredMessageView| #[trigger]
            ms.contains(m) && !is_tool_row(m) ==> without_orphans(ms).contains(m),
    decreases ms.len(),
{
    if ms.len() > 0 && is_tool_row(ms[0]) {
        let t = ms.skip(1);
        lemma_without_orphans(t);
        assert forall|i: int| 0 <= i < without_orphans(ms).len() implies ms.contains(
            #[trigger] without_orphans(ms)[i],
        ) by {
            assert(t.contains(without_orphans(t)[i]));
            let k = choose|k: int| 0 <= k < t.len() && t[k] == without_orphans(t)[i];
            assert(ms[k + 1] == without_orphans(ms)[i]);
        }
        assert forall|m: StoredMessageView| #[trigger] ms.contains(m) && !is_tool_row(m) implies
            without_orphans(ms).contains(m) by {
            let k = choose|k: int| 0 <= k < ms.len() && ms[k] == m;
            assert(t[k - 1] == m);
            assert(t.contains(m));
        }
    }
}

/// A session's context holds only messages of that session that were not taken
/// back, none of them from before the last reset and none of them bookkeeping, and
/// it does not begin with a tool's row.
pub proof fn law_context(ms: Seq<StoredMessageView>, session_id: Seq<char>, limit: int, kept: int)
    requires
        limit >= 0,
    ensures
        forall|i: int|
            0 <= i < context_rows(ms, session_id, limit, kept).len() ==> {
                let m = #[trigger] context_rows(ms, session_id, limit, kept)[i];
                &&& ms.contains(m)
                &&& m.session_id == session_id
                &&& m.rewound_at is None
                &&& m.id > floor_of(ms, session_id)
                &&& Kinds::Context.holds(m.type_)
            },
        context_rows(ms, session_id, limit, kept).len() > 0 ==> !is_tool_row(
            context_rows(ms, session_id, limit, kept)[0],
        ),
        last_compaction(ms, session_id) is None ==> context_rows(ms, session_id, limit, kept).len()
            <= limit,
{
    let floor = floor_of(ms, session_id);
    let rows = match last_compaction(ms, session_id) {
        Some(c) => {
            let spoken = selected(ms, session_id, Kinds::Spoken, floor + 1, c.id as int);
            let before = last_of(spoken, kept);
            lemma_selected(ms, session_id, Kinds::Spoken, floor + 1, c.id as int);
            lemma_selected(ms, session_id, Kinds::Compactions, floor + 1, no_limit());
            let cs = selected(ms, session_id, Kinds::Compactions, floor + 1, no_limit());
            assert(cs[cs.len() - 1] == c);
            let start = if kept > 0 && before.len() > 0 { before[0].id as int } else { c.id as int };
            if kept > 0 && before.len() > 0 {
                if spoken.len() > kept {
                    assert(before[0] == spoken[spoken.len() - kept]);
                } else {
                    assert(before[0] == spoken[0]);
                }
            }
            assert(start > floor);
            lemma_selected(ms, session_id, Kinds::Context, start, no_limit());
            selected(ms, session_id, Kinds::Context, start, no_limit())
        },
        None => {
            lemma_selected(ms, session_id, Kinds::Context, floor + 1, no_limit());
            let all = selected(ms, session_id, Kinds::Context, floor + 1, no_limit());
            let rows = last_of(all, limit);
            assert forall|i: int| 0 <= i < rows.len() implies all.contains(#[trigger] rows[i]) by {
                if all.len() > limit {
                    assert(rows[i] == all[i + (all.len() - limit)]);
                }
            }
            rows
        },
    };
    lemma_without_orphans(rows);
    assert(context_rows(ms, session_id, limit, kept) == without_orphans(rows));
    assert forall|i: int| 0 <= i < without_orphans(rows).len() implies {
        let m = #[trigger] without_orphans(rows)[i];
        &&& ms.contains(m)
        &&& m.session_id == session_id
        &&& m.rewound_at is None
        &&& m.id > floor
        &&& Kinds::Context.holds(m.type_)
    } by {
        let m = without_orphans(rows)[i];
        assert(rows.contains(m));
        let k = choose|k: int| 0 <= k < rows.len() && rows[k] == m;
        assert(rows[k] == m);
    }
}

/// A summary that is not a tool's is part of the context.
pub proof fn law_context_has_summary(
    ms: Seq<StoredMessageView>,
    session_id: Seq<char>,
    limit: int,
    kept: int,
)
    requires
        last_compaction(ms, session_id) matches Some(c) && !is_tool_row(c),
    ensures
        context_rows(ms, session_id, limit, kept).contains(last_compaction(ms, session_id)->0),
{
    reveal_strlit("compaction");
    reveal_strlit("context_usage");
    reveal_strlit("context_reset");
    let c = last_compaction(ms, session_id)->0;
    let floor = floor_of(ms, session_id);
    lemma_selected(ms, session_id, Kinds::Compactions, floor + 1, no_limit());
    let cs = selected(ms, session_id, Kinds::Compactions, floor + 1, no_limit());
    assert(cs[cs.len() - 1] == c);
    assert(c.type_.len() == 10);
    lemma_selected(ms, session_id, Kinds::Spoken, floor + 1, c.id as int);
    let spoken = selected(ms, session_id, Kinds::Spoken, floor + 1, c.id as int);
    let before = last_of(spoken, kept);
    let start = if kept > 0 && before.len() > 0 { before[0].id as int } else { c.id as int };
    if kept > 0 && before.len() > 0 {
        if spoken.len() > kept {
            assert(before[0] == spoken[spoken.len() - kept]);
        } else {
            assert(before[0] == spoken[0]);
        }
    }
    lemma_selected_has(ms, session_id, Kinds::Context, start, no_limit(), c);
    lemma_without_orphans(selected(ms, session_id, Kinds::Context, start, no_limit()));
}

/// What is written to one session does not show in another.
pub proof fn law_session_isolation(t: TablesView, w: WriteView, other: Seq<char>, limit: int)
    requires
        match w {
            WriteView::InsertMessage(m) => m.session_id != other,
            WriteView::DeleteContextUsage { session_id } => session_id != other,
            WriteView::RewindFromId { session_id, .. } => session_id != other,
            WriteView::RewindFromTurn { session_id, .. } => session_id != other,
            WriteView::SetMessageContent { .. } => false,
            _ => true,
        },
    ensures
        session_context(t.after(w).messages, other, limit) == session_context(
            t.messages,
            other,
            limit,
        ),
        t.after(w).messages.filter(|m: StoredMessageView| m.session_id == other)
            == t.messages.filter(|m: StoredMessageView| m.session_id == other),
{
    let a = t.messages;
    let b = t.after(w).messages;
    assert forall|kinds: Kinds, from: int, below: int| #[trigger]
        selected(b, other, kinds, from, below) == selected(a, other, kinds, from, below) by {
        let p = |m: StoredMessageView|
            {
                &&& m.session_id == other
                &&& m.rewound_at is None
                &&& kinds.holds(m.type_)
                &&& from <= m.id < below
            };
        lemma_isolated(t, w, other, p);
    }
    lemma_isolated(t, w, other, |m: StoredMessageView| m.session_id == other);
}

proof fn lemma_isolated(
    t: TablesView,
    w: WriteView,
    other: Seq<char>,
    p: spec_fn(StoredMessageView) -> bool,
)
    requires
        match w {
            WriteView::InsertMessage(m) => m.session_id != other,
            WriteView::DeleteContextUsage { session_id } => session_id != other,
            WriteView::RewindFromId { session_id, .. } => session_id != other,
            WriteView::RewindFromTurn { session_id, .. } => session_id != other,
            WriteView::SetMessageContent { .. } => false,
            _ => true,
        },
        forall|m: StoredMessageView| #[trigger] p(m) ==> m.session_id == other,
    ensures
        t.after(w).messages.filter(p) == t.messages.filter(p),
{
    let a = t.messages;
    let b = t.after(w).messages;
    match w {
        WriteView::InsertMessage(m) => {
            a.lemma_filter_push(m, p);
        },
        WriteView::DeleteContextUsage { session_id } => {
            lemma_filter_twice(a, |m: StoredMessageView| !m.is_usage_of(session_id), p);
        },
        WriteView::RewindFromId { session_id, from_id, now } => {
            lemma_filter_unmoved(a, b, p);
        },
        WriteView::RewindFromTurn { session_id, from_turn, now } => {
            lemma_filter_unmoved(a, b, p);
        },
        _ => {},
    }
}

/// A filter that lets everything through that a second one does is of no
/// consequence to the second.
pub proof fn lemma_filter_twice(
    s: Seq<StoredMessageView>,
    q: spec_fn(StoredMessageView) -> bool,
    p: spec_fn(StoredMessageView) -> bool,
)
    requires
        forall|m: StoredMessageView| #[trigger] p(m) ==> q(m),
    ensures
        s.filter(q).filter(p) == s.filter(p),
    decreases s.len(),
{
    reveal(Seq::filter);
    if s.len() > 0 {
        let t = s.drop_last();
        lemma_filter_twice(t, q, p);
        if q(s.last()) {
            t.filter(q).lemma_filter_push(s.last(), p);
        }
    }
}

/// Taking a session back to before a message hides it and everything behind it, and
/// nothing else.
pub proof fn law_rewind_hides(
    t: TablesView,
    session_id: Seq<char>,
    from_id: i64,
    now: Seq<char>,
    i: int,
)
    requires
        0 <= i < t.messages.len(),
    ensures
        t.after(WriteView::RewindFromId { session_id, from_id, now }).messages.len()
            == t.messages.len(),
        ({
            let m = t.messages[i];
            let n = t.after(WriteView::RewindFromId { session_id, from_id, now }).messages[i];
            &&& n.rewound_at is None <==> m.rewound_at is None && !(m.session_id == session_id
                && m.id >= from_id)
            &&& n == StoredMessageView { rewound_at: n.rewound_at, ..m }
        }),
{
}

/// Right after a reset the context is empty.
pub proof fn law_reset_empties_context(
    t: TablesView,
    m: StoredMessageView,
    session_id: Seq<char>,
    limit: int,
    kept: int,
)
    requires
        t.wf(),
        t.takes(WriteView::InsertMessage(m)),
        m.session_id == session_id,
        m.type_ == "context_reset"@,
        m.rewound_at is None,
        limit >= 0,
    ensures
        context_rows(
            t.after(WriteView::InsertMessage(m)).messages,
            session_id,
            limit,
            kept,
        ).len() == 0,
{
    let ms = t.after(WriteView::InsertMessage(m)).messages;
    let p = |x: StoredMessageView|
        {
            &&& x.session_id == session_id
            &&& x.rewound_at is None
            &&& Kinds::Resets.holds(x.type_)
            &&& 0 <= x.id < no_limit()
        };
    t.messages.lemma_filter_push(m, p);
    assert(selected(ms, session_id, Kinds::Resets, 0, no_limit()).last() == m);
    assert(floor_of(ms, session_id) == m.id);
    law_context(ms, session_id, limit, kept);
    let rows = context_rows(ms, session_id, limit, kept);
    if rows.len() > 0 {
        let x = rows[0];
        assert(ms.contains(x));
        let k = choose|k: int| 0 <= k < ms.len() && ms[k] == x;
        if k < t.messages.len() {
            assert(t.messages[k].id <= t.last_id);
        }
    }
}

proof fn lemma_orphans_keep_last(ms: Seq<StoredMessageView>)
    requires
        ms.len() > 0,
        !is_tool_row(ms.last()),
    ensures
        without_orphans(ms).len() > 0,
        without_orphans(ms).last() == ms.last(),
    decreases ms.len(),
{
    if is_tool_row(ms[0]) {
        assert(ms.skip(1).last() == ms.last());
        lemma_orphans_keep_last(ms.skip(1));
    }
}

/// What is said last in a session is the last of its context, unless it is a tool's.
pub proof fn law_new_message_ends_context(t: TablesView, m: StoredMessageView, limit: int)
    requires
        t.wf(),
        t.takes(WriteView::InsertMessage(m)),
        m.rewound_at is None,
        Kinds::Context.holds(m.type_),
        !is_tool_row(m),
        limit > 0,
    ensures
        ({
            let rows = session_context(
                t.after(WriteView::InsertMessage(m)).messages,
                m.session_id,
                limit,
            );
            rows.len() > 0 && rows.last() == m
        }),
{
    let ms = t.after(WriteView::InsertMessage(m)).messages;
    let sid = m.session_id;
    assert(ms == t.messages.push(m));
    assert forall|x: StoredMessageView| #[trigger] ms.contains(x) implies x.id <= m.id by {
        let k = choose|k: int| 0 <= k < ms.len() && ms[k] == x;
        if k < t.messages.len() {
            assert(t.messages[k] == x);
        }
    }
    assert forall|start: int| start <= m.id implies {
        let rows = #[trigger] selected(ms, sid, Kinds::Context, start, no_limit());
        rows.len() > 0 && rows.last() == m
    } by {
        let p = |x: StoredMessageView|
            {
                &&& x.session_id == sid
                &&& x.rewound_at is None
                &&& Kinds::Context.holds(x.type_)
                &&& start <= x.id < no_limit()
            };
        t.messages.lemma_filter_push(m, p);
    }
    let floor = floor_of(ms, sid);
    lemma_selected(ms, sid, Kinds::Resets, 0, no_limit());
    let resets = selected(ms, sid, Kinds::Resets, 0, no_limit());
    assert(floor < m.id) by {
        if resets.len() > 0 {
            let x = resets[resets.len() - 1];
            assert(ms.contains(x));
            let k = choose|k: int| 0 <= k < ms.len() && ms[k] == x;
            if k < t.messages.len() {
                assert(t.messages[k] == x);
            }
        }
    }
    let kept = match last_compaction(ms, sid) {
        Some(c) => kept_before(member_number(c.metadata, KEPT_BEFORE_PATH@)),
        None => 0,
    };
    match last_compaction(ms, sid) {
        Some(c) => {
            lemma_selected(ms, sid, Kinds::Compactions, floor + 1, no_limit());
            let cs = selected(ms, sid, Kinds::Compactions, floor + 1, no_limit());
            assert(cs[cs.len() - 1] == c);
            let spoken = selected(ms, sid, Kinds::Spoken, floor + 1, c.id as int);
            lemma_selected(ms, sid, Kinds::Spoken, floor + 1, c.id as int);
            let before = last_of(spoken, kept);
            let start = if kept > 0 && before.len() > 0 { before[0].id as int } else { c.id as int };
            if kept > 0 && before.len() > 0 {
                if spoken.len() > kept {
                    assert(before[0] == spoken[spoken.len() - kept]);
                } else {
                    assert(before[0] == spoken[0]);
                }
            }
            assert(start <= m.id);
            lemma_orphans_keep_last(selected(ms, sid, Kinds::Context, start, no_limit()));
        },
        None => {
            let all = selected(ms, sid, Kinds::Context, floor + 1, no_limit());
            assert(last_of(all, limit).last() == all.last());
            lemma_orphans_keep_last(last_of(all, limit));
        },
    }
}

/// What was recorded of a session's usage is what is read, and is recorded once.
pub proof fn law_usage_after_upsert(
    t: TablesView,
    session_id: Seq<char>,
    m: StoredMessageView,
    total_tokens: u32,
    context_limit: u32,
    message_count: u32,
)
    requires
        m.is_usage_of(session_id),
        json_parsed(m.metadata) == Ok::<JsonV, Seq<char>>(
            usage_json(total_tokens, context_limit, message_count),
        ),
    ensures
        usage_of(
            t.after(WriteView::DeleteContextUsage { session_id }).after(
                WriteView::InsertMessage(m),
            ),
            session_id,
        ) == Some((total_tokens, context_limit, message_count)),
        t.after(WriteView::DeleteContextUsage { session_id }).after(
            WriteView::InsertMessage(m),
        ).messages.filter(|x: StoredMessageView| x.is_usage_of(session_id)) == seq![m],
{
    let keep = |x: StoredMessageView| !x.is_usage_of(session_id);
    let rest = t.messages.filter(keep);
    lemma_filtered(t.messages, keep);
    let ms = rest.push(m);
    let hit = |i: int| (|x: StoredMessageView| x.is_usage_of(session_id))(ms[i]);
    assert(hit(rest.len() as int));
    assert forall|j: int| 0 <= j < rest.len() implies !#[trigger] hit(j) by {
        assert(keep(rest[j]));
    }
    assert(is_first(ms.len() as int, hit, rest.len() as int));
    lemma_first(ms.len() as int, hit, rest.len() as int);
    let usage = |x: StoredMessageView| x.is_usage_of(session_id);
    assert(rest.filter(usage).len() == 0) by {
        lemma_filtered(rest, usage);
        if rest.filter(usage).len() > 0 {
            let x = rest.filter(usage)[0];
            assert(usage(x));
            assert(rest.contains(x));
            let k = choose|k: int| 0 <= k < rest.len() && rest[k] == x;
            assert(keep(rest[k]));
        }
    }
    rest.lemma_filter_push(m, usage);
    assert(ms.filter(usage) =~= seq![m]);
    law_usage_roundtrip(total_tokens, context_limit, message_count);
}

} // verus!
