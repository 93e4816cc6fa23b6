//! What the context of a session is made of: everything from its beginning on, in order,
//! and where that beginning is.

use vstd::prelude::*;
use crate::agent_bridge::message_laws::{
    law_reset_empties_context, lemma_filter_twice, lemma_selected, lemma_selected_has,
};
use crate::agent_bridge::messages::{
    context_rows, floor_of, is_tool_row, kept_before, last_compaction, last_of, no_limit, selected,
    session_context, usage_of, without_orphans, Kinds, KEPT_BEFORE_PATH,
};
use crate::agent_bridge::rows::{StoredMessageView, WriteView};
use crate::agent_bridge::tables::TablesView;
use crate::sqlite::member_number;
use crate::text::{lemma_filtered, lemma_no_first};

verus! {

/// Messages as the store keeps them: numbered upwards, from one.
pub open spec fn numbered(ms: Seq<StoredMessageView>) -> bool {
    &&& forall|i: int, j: int|
        0 <= i < j < ms.len() ==> (#[trigger] ms[i]).id < (#[trigger] ms[j]).id
    &&& forall|i: int| 0 <= i < ms.len() ==> 1 <= (#[trigger] ms[i]).id
}

/// A message that can be in a session's context: one of that session that was not taken
/// back, is no bookkeeping and came behind every reset of the session that still
/// stands.
pub open spec fn counts(
    ms: Seq<StoredMessageView>,
    session_id: Seq<char>,
    m: StoredMessageView,
) -> bool {
    &&& m.session_id == session_id
    &&& m.rewound_at is None
    &&& m.type_ != "context_usage"@
    &&& m.type_ != "context_reset"@
    &&& forall|k: int|
        0 <= k < ms.len() && (#[trigger] ms[k]).session_id == session_id && ms[k].rewound_at is None
            && ms[k].type_ == "context_reset"@ ==> ms[k].id < m.id
}

/// A message of a tool, or one that calls a tool.
pub open spec fn of_tool(m: StoredMessageView) -> bool {
    m.role == "tool"@ || (m.role == "assistant"@ && m.type_ == "tool_call"@)
}

/// The summary from which on a session goes on: the last message that counts and is a
/// summary.
pub open spec fn is_last_summary(
    ms: Seq<StoredMessageView>,
    session_id: Seq<char>,
    i: int,
) -> bool {
    &&& 0 <= i < ms.len()
    &&& counts(ms, session_id, ms[i])
    &&& ms[i].type_ == "compaction"@
    &&& forall|k: int|
        i < k < ms.len() ==> !(counts(ms, session_id, #[trigger] ms[k]) && ms[k].type_
            == "compaction"@)
}

/// The messages before a summary of which it keeps the last ones: those that count and
/// are no summaries.
pub open spec fn spoken_before(
    ms: Seq<StoredMessageView>,
    session_id: Seq<char>,
    i: int,
) -> Seq<StoredMessageView> {
    ms.filter(
        |m: StoredMessageView|
            counts(ms, session_id, m) && m.type_ != "compaction"@ && m.id < ms[i].id,
    )
}

proof fn lemma_types()
    ensures
        "context_usage"@ != "context_reset"@,
        "compaction"@ != "context_usage"@,
        "compaction"@ != "context_reset"@,
        "compaction"@ != "tool_call"@,
{
    reveal_strlit("compaction");
    reveal_strlit("context_usage");
    reveal_strlit("context_reset");
    reveal_strlit("tool_call");
    assert("context_usage"@[8] != "context_reset"@[8]);
    assert("compaction"@.len() == 10);
    assert("tool_call"@.len() == 9);
}

pub proof fn lemma_filter_numbered(
    ms: Seq<StoredMessageView>,
    p: spec_fn(StoredMessageView) -> bool,
)
    requires
        numbered(ms),
    ensures
        numbered(ms.filter(p)),
    decreases ms.len(),
{
    reveal(Seq::filter);
    if ms.len() > 0 {
        let t = ms.drop_last();
        assert(numbered(t));
        lemma_filter_numbered(t, p);
        lemma_filtered(t, p);
        let f = ms.filter(p);
        assert forall|i: int, j: int| 0 <= i < j < f.len() implies (#[trigger] f[i]).id < (
        #[trigger] f[j]).id by {
            let g = t.filter(p);
            if j == g.len() {
                assert(f[i] == g[i]);
                assert(t.contains(g[i]));
                let k = choose|k: int| 0 <= k < t.len() && t[k] == g[i];
                assert(ms[k] == g[i]);
                assert(ms[ms.len() - 1] == f[j]);
            } else {
                assert(f[i] == g[i] && f[j] == g[j]);
            }
        }
        assert forall|i: int| 0 <= i < f.len() implies 1 <= (#[trigger] f[i]).id by {
            if i < t.filter(p).len() {
                assert(f[i] == t.filter(p)[i]);
            } else {
                assert(f[i] == ms[ms.len() - 1]);
            }
        }
    }
}

proof fn lemma_filter_agrees(
    ms: Seq<StoredMessageView>,
    p: spec_fn(StoredMessageView) -> bool,
    q: spec_fn(StoredMessageView) -> bool,
)
    requires
        forall|i: int| 0 <= i < ms.len() ==> p(#[trigger] ms[i]) == q(ms[i]),
    ensures
        ms.filter(p) == ms.filter(q),
    decreases ms.len(),
{
    reveal(Seq::filter);
    if ms.len() > 0 {
        let t = ms.drop_last();
        assert forall|i: int| 0 <= i < t.len() implies p(#[trigger] t[i]) == q(t[i]) by {
            assert(t[i] == ms[i]);
        }
        assert(p(ms[ms.len() - 1]) == q(ms[ms.len() - 1]));
        lemma_filter_agrees(t, p, q);
    }
}

/// What came behind the floor came behind every reset.
proof fn lemma_floor(ms: Seq<StoredMessageView>, session_id: Seq<char>, m: StoredMessageView)
    requires
        numbered(ms),
        ms.contains(m),
    ensures
        m.id > floor_of(ms, session_id) <==> forall|k: int|
            0 <= k < ms.len() && (#[trigger] ms[k]).session_id == session_id
                && ms[k].rewound_at is None && ms[k].type_ == "context_reset"@ ==> ms[k].id < m.id,
{
    let rs = selected(ms, session_id, Kinds::Resets, 0, no_limit());
    lemma_selected(ms, session_id, Kinds::Resets, 0, no_limit());
    let p = |m: StoredMessageView|
        {
            &&& m.session_id == session_id
            &&& m.rewound_at is None
            &&& Kinds::Resets.holds(m.type_)
            &&& 0 <= m.id < no_limit()
        };
    lemma_filter_numbered(ms, p);
    let floor = floor_of(ms, session_id);
    if m.id > floor {
        assert forall|k: int|
            0 <= k < ms.len() && (#[trigger] ms[k]).session_id == session_id
                && ms[k].rewound_at is None && ms[k].type_ == "context_reset"@ implies ms[k].id
            < m.id by {
            lemma_selected_has(ms, session_id, Kinds::Resets, 0, no_limit(), ms[k]);
            let j = choose|j: int| 0 <= j < rs.len() && rs[j] == ms[k];
            assert(rs[j].id <= rs[rs.len() - 1].id);
        }
    } else if rs.len() > 0 {
        let r = rs[rs.len() - 1];
        assert(ms.contains(r));
        let k = choose|k: int| 0 <= k < ms.len() && ms[k] == r;
        assert(ms[k].id >= m.id);
    } else {
        let k = choose|k: int| 0 <= k < ms.len() && ms[k] == m;
        assert(ms[k].id >= 1);
    }
}

proof fn lemma_counted(ms: Seq<StoredMessageView>, session_id: Seq<char>, from: int)
    requires
        numbered(ms),
        from >= floor_of(ms, session_id) + 1,
    ensures
        selected(ms, session_id, Kinds::Context, from, no_limit()) == ms.filter(
            |m: StoredMessageView| counts(ms, session_id, m) && m.id >= from,
        ),
{
    let p = |m: StoredMessageView|
        {
            &&& m.session_id == session_id
            &&& m.rewound_at is None
            &&& Kinds::Context.holds(m.type_)
            &&& from <= m.id < no_limit()
        };
    let q = |m: StoredMessageView| counts(ms, session_id, m) && m.id >= from;
    assert forall|i: int| 0 <= i < ms.len() implies p(#[trigger] ms[i]) == q(ms[i]) by {
        lemma_floor(ms, session_id, ms[i]);
    }
    lemma_filter_agrees(ms, p, q);
}

proof fn lemma_all_counted(ms: Seq<StoredMessageView>, session_id: Seq<char>)
    requires
        numbered(ms),
    ensures
        selected(
            ms,
            session_id,
            Kinds::Context,
            floor_of(ms, session_id) + 1,
            no_limit(),
        ) == ms.filter(|m: StoredMessageView| counts(ms, session_id, m)),
{
    let floor = floor_of(ms, session_id);
    lemma_counted(ms, session_id, floor + 1);
    let p = |m: StoredMessageView| counts(ms, session_id, m) && m.id >= floor + 1;
    let q = |m: StoredMessageView| counts(ms, session_id, m);
    assert forall|i: int| 0 <= i < ms.len() implies p(#[trigger] ms[i]) == q(ms[i]) by {
        lemma_floor(ms, session_id, ms[i]);
    }
    lemma_filter_agrees(ms, p, q);
}

proof fn lemma_spoken(ms: Seq<StoredMessageView>, session_id: Seq<char>, i: int)
    requires
        numbered(ms),
        0 <= i < ms.len(),
    ensures
        selected(
            ms,
            session_id,
            Kinds::Spoken,
            floor_of(ms, session_id) + 1,
            ms[i].id as int,
        ) == spoken_before(ms, session_id, i),
        numbered(spoken_before(ms, session_id, i)),
{
    let floor = floor_of(ms, session_id);
    let p = |m: StoredMessageView|
        {
            &&& m.session_id == session_id
            &&& m.rewound_at is None
            &&& Kinds::Spoken.holds(m.type_)
            &&& floor + 1 <= m.id < ms[i].id as int
        };
    let q = |m: StoredMessageView|
        counts(ms, session_id, m) && m.type_ != "compaction"@ && m.id < ms[i].id;
    assert forall|k: int| 0 <= k < ms.len() implies p(#[trigger] ms[k]) == q(ms[k]) by {
        lemma_floor(ms, session_id, ms[k]);
    }
    lemma_filter_agrees(ms, p, q);
    lemma_filter_numbered(ms, q);
}

pub proof fn lemma_last_summary(ms: Seq<StoredMessageView>, session_id: Seq<char>)
    requires
        numbered(ms),
    ensures
        forall|i: int|
            is_last_summary(ms, session_id, i) ==> last_compaction(ms, session_id) == Some(
                #[trigger] ms[i],
            ),
        (forall|i: int| !is_last_summary(ms, session_id, i)) ==> last_compaction(ms, session_id)
            is None,
{
    lemma_types();
    let floor = floor_of(ms, session_id);
    let p = |m: StoredMessageView|
        {
            &&& m.session_id == session_id
            &&& m.rewound_at is None
            &&& Kinds::Compactions.holds(m.type_)
            &&& floor + 1 <= m.id < no_limit()
        };
    let cs = selected(ms, session_id, Kinds::Compactions, floor + 1, no_limit());
    lemma_selected(ms, session_id, Kinds::Compactions, floor + 1, no_limit());
    lemma_filter_numbered(ms, p);
    if cs.len() > 0 {
        let c = cs[cs.len() - 1];
        assert(ms.contains(c));
        let k = choose|k: int| 0 <= k < ms.len() && ms[k] == c;
        lemma_floor(ms, session_id, c);
        assert(counts(ms, session_id, ms[k]));
        assert forall|j: int| k < j < ms.len() implies !(counts(ms, session_id, #[trigger] ms[j])
            && ms[j].type_ == "compaction"@) by {
            if counts(ms, session_id, ms[j]) && ms[j].type_ == "compaction"@ {
                lemma_floor(ms, session_id, ms[j]);
                lemma_selected_has(
                    ms,
                    session_id,
                    Kinds::Compactions,
                    floor + 1,
                    no_limit(),
                    ms[j],
                );
                let n = choose|n: int| 0 <= n < cs.len() && cs[n] == ms[j];
                assert(cs[n].id <= c.id);
                assert(ms[k].id < ms[j].id);
            }
        }
        assert(is_last_summary(ms, session_id, k));
        assert forall|i: int| is_last_summary(ms, session_id, i) implies last_compaction(
            ms,
            session_id,
        ) == Some(#[trigger] ms[i]) by {
            if i < k {
                assert(counts(ms, session_id, ms[k]));
            }
            if k < i {
                assert(counts(ms, session_id, ms[i]));
            }
        }
    } else {
        assert forall|i: int| !is_last_summary(ms, session_id, i) by {
            if is_last_summary(ms, session_id, i) {
                lemma_floor(ms, session_id, ms[i]);
                lemma_selected_has(
                    ms,
                    session_id,
                    Kinds::Compactions,
                    floor + 1,
                    no_limit(),
                    ms[i],
                );
            }
        }
    }
}

/// Without the tool rows in front: everything from the first row on that is none.
proof fn lemma_from_first(rows: Seq<StoredMessageView>)
    requires
        numbered(rows),
    ensures
        numbered(without_orphans(rows)),
        forall|m: StoredMessageView| #[trigger]
            without_orphans(rows).contains(m) <==> exists|i: int, j: int|
                0 <= i <= j < rows.len() && !of_tool(#[trigger] rows[i]) && #[trigger] rows[j] == m,
    decreases rows.len(),
{
    if rows.len() > 0 && is_tool_row(rows[0]) {
        let t = rows.skip(1);
        lemma_from_first(t);
        assert forall|m: StoredMessageView| #[trigger]
            without_orphans(rows).contains(m) <==> exists|i: int, j: int|
                0 <= i <= j < rows.len() && !of_tool(#[trigger] rows[i]) && #[trigger] rows[j]
                    == m by {
            if without_orphans(rows).contains(m) {
                assert(without_orphans(t).contains(m));
                let (i, j) = choose|i: int, j: int|
                    0 <= i <= j < t.len() && !of_tool(#[trigger] t[i]) && #[trigger] t[j] == m;
                assert(!of_tool(rows[i + 1]) && rows[j + 1] == m);
            }
            if exists|i: int, j: int|
                0 <= i <= j < rows.len() && !of_tool(#[trigger] rows[i]) && #[trigger] rows[j]
                    == m {
                let (i, j) = choose|i: int, j: int|
                    0 <= i <= j < rows.len() && !of_tool(#[trigger] rows[i]) && #[trigger] rows[j]
                        == m;
                assert(!of_tool(t[i - 1]) && t[j - 1] == m);
                assert(without_orphans(t).contains(m));
            }
        }
    } else {
        assert forall|m: StoredMessageView| #[trigger]
            without_orphans(rows).contains(m) <==> exists|i: int, j: int|
                0 <= i <= j < rows.len() && !of_tool(#[trigger] rows[i]) && #[trigger] rows[j]
                    == m by {
            if rows.contains(m) {
                let j = choose|j: int| 0 <= j < rows.len() && rows[j] == m;
                assert(!of_tool(rows[0]) && rows[j] == m);
            }
        }
    }
}

/// Where a session was summed up, nothing is lost from the summary on: every message
/// that counts and is not from before the summary is in the context, be it a tool's or
/// not.
pub proof fn law_context_keeps_all_since_summary(
    ms: Seq<StoredMessageView>,
    session_id: Seq<char>,
    limit: int,
    kept: int,
    i: int,
    k: int,
)
    requires
        numbered(ms),
        is_last_summary(ms, session_id, i),
        ms[i].role != "tool"@,
        i <= k < ms.len(),
        counts(ms, session_id, ms[k]),
    ensures
        context_rows(ms, session_id, limit, kept).contains(ms[k]),
{
    law_context_after_summary(ms, session_id, limit, kept, i, ms[k]);
    lemma_types();
    assert(!of_tool(ms[i]));
    assert(ms.contains(ms[k]));
    assert(ms[i].id <= ms[k].id);
    let spoken = spoken_before(ms, session_id, i);
    lemma_spoken(ms, session_id, i);
    let n = if spoken.len() <= kept { 0 } else { spoken.len() - kept };
    if kept > 0 && spoken.len() > 0 {
        lemma_filtered(
            ms,
            |m: StoredMessageView|
                counts(ms, session_id, m) && m.type_ != "compaction"@ && m.id < ms[i].id,
        );
        assert(spoken[n].id < ms[i].id);
    }
}

/// A session that was summed up goes on from the summary or from the first of the last
/// `kept` messages before it. Its context is made of the messages that count and came
/// from there on, but for those in front of the first that is not a tool's.
pub proof fn law_context_after_summary(
    ms: Seq<StoredMessageView>,
    session_id: Seq<char>,
    limit: int,
    kept: int,
    i: int,
    m: StoredMessageView,
)
    requires
        numbered(ms),
        is_last_summary(ms, session_id, i),
    ensures
        numbered(context_rows(ms, session_id, limit, kept)),
        ({
            let spoken = spoken_before(ms, session_id, i);
            let first = if kept <= 0 || spoken.len() == 0 {
                ms[i].id
            } else if spoken.len() <= kept {
                spoken[0].id
            } else {
                spoken[spoken.len() - kept].id
            };
            context_rows(ms, session_id, limit, kept).contains(m) <==> {
                &&& ms.contains(m)
                &&& counts(ms, session_id, m)
                &&& exists|k: int|
                    {
                        &&& 0 <= k < ms.len()
                        &&& counts(ms, session_id, #[trigger] ms[k])
                        &&& !of_tool(ms[k])
                        &&& first <= ms[k].id <= m.id
                    }
            }
        }),
{
    let c = ms[i];
    lemma_last_summary(ms, session_id);
    lemma_spoken(ms, session_id, i);
    let floor = floor_of(ms, session_id);
    let spoken = spoken_before(ms, session_id, i);
    let before = last_of(spoken, kept);
    let start = if kept > 0 && before.len() > 0 { before[0].id as int } else { c.id as int };
    let first = if kept <= 0 || spoken.len() == 0 {
        ms[i].id
    } else if spoken.len() <= kept {
        spoken[0].id
    } else {
        spoken[spoken.len() - kept].id
    };
    assert(start == first);
    lemma_floor(ms, session_id, c);
    assert(start >= floor + 1) by {
        if kept > 0 && before.len() > 0 {
            lemma_selected(ms, session_id, Kinds::Spoken, floor + 1, c.id as int);
            let n = if spoken.len() <= kept { 0 } else { spoken.len() - kept };
            assert(before[0] == spoken[n]);
        }
    }
    lemma_counted(ms, session_id, start);
    let q = |m: StoredMessageView| counts(ms, session_id, m) && m.id >= start;
    let rows = ms.filter(q);
    lemma_filter_numbered(ms, q);
    lemma_filtered(ms, q);
    assert(context_rows(ms, session_id, limit, kept) == without_orphans(rows));
    lemma_from_first(rows);
    if without_orphans(rows).contains(m) {
        let (a, b) = choose|a: int, b: int|
            0 <= a <= b < rows.len() && !of_tool(#[trigger] rows[a]) && #[trigger] rows[b] == m;
        assert(q(rows[a]) && q(rows[b]));
        assert(ms.contains(rows[a]) && ms.contains(rows[b]));
        let k = choose|k: int| 0 <= k < ms.len() && ms[k] == rows[a];
        assert(counts(ms, session_id, ms[k]));
        assert(rows[a].id <= rows[b].id);
    }
    if ms.contains(m) && counts(ms, session_id, m) && exists|k: int|
        {
            &&& 0 <= k < ms.len()
            &&& counts(ms, session_id, #[trigger] ms[k])
            &&& !of_tool(ms[k])
            &&& first <= ms[k].id <= m.id
        } {
        let k = choose|k: int|
            {
                &&& 0 <= k < ms.len()
                &&& counts(ms, session_id, #[trigger] ms[k])
                &&& !of_tool(ms[k])
                &&& first <= ms[k].id <= m.id
            };
        crate::agent_bridge::message_laws::lemma_filter_has(ms, q, ms[k]);
        crate::agent_bridge::message_laws::lemma_filter_has(ms, q, m);
        let a = choose|a: int| 0 <= a < rows.len() && rows[a] == ms[k];
        let b = choose|b: int| 0 <= b < rows.len() && rows[b] == m;
        if b < a {
            assert(rows[b].id < rows[a].id);
        }
        assert(!of_tool(rows[a]) && rows[b] == m);
    }
}

/// A session that was not summed up: its context is made of the last `limit` messages
/// that count, but for those in front of the first of them that is not a tool's.
pub proof fn law_context_without_summary(
    ms: Seq<StoredMessageView>,
    session_id: Seq<char>,
    limit: int,
    kept: int,
    m: StoredMessageView,
)
    requires
        numbered(ms),
        forall|i: int| !is_last_summary(ms, session_id, i),
        limit >= 0,
    ensures
        session_context(ms, session_id, limit) == context_rows(ms, session_id, limit, kept),
        numbered(context_rows(ms, session_id, limit, kept)),
        ({
            let all = ms.filter(|x: StoredMessageView| counts(ms, session_id, x));
            context_rows(ms, session_id, limit, kept).contains(m) <==> exists|i: int, j: int|
                {
                    &&& all.len() - limit <= i
                    &&& 0 <= i <= j < all.len()
                    &&& !of_tool(#[trigger] all[i])
                    &&& #[trigger] all[j] == m
                }
        }),
{
    lemma_last_summary(ms, session_id);
    lemma_all_counted(ms, session_id);
    let q = |x: StoredMessageView| counts(ms, session_id, x);
    let all = ms.filter(q);
    lemma_filter_numbered(ms, q);
    let rows = last_of(all, limit);
    assert(context_rows(ms, session_id, limit, kept) == without_orphans(rows));
    let n = if all.len() <= limit { 0 } else { all.len() - limit };
    assert(rows =~= all.skip(n));
    lemma_from_first(rows);
    if without_orphans(rows).contains(m) {
        let (a, b) = choose|a: int, b: int|
            0 <= a <= b < rows.len() && !of_tool(#[trigger] rows[a]) && #[trigger] rows[b] == m;
        assert(!of_tool(all[a + n]) && all[b + n] == m);
    }
    if exists|i: int, j: int|
        {
            &&& all.len() - limit <= i
            &&& 0 <= i <= j < all.len()
            &&& !of_tool(#[trigger] all[i])
            &&& #[trigger] all[j] == m
        } {
        let (i, j) = choose|i: int, j: int|
            {
                &&& all.len() - limit <= i
                &&& 0 <= i <= j < all.len()
                &&& !of_tool(#[trigger] all[i])
                &&& #[trigger] all[j] == m
            };
        assert(!of_tool(rows[i - n]) && rows[j - n] == m);
    }
}

/// How many messages a summary kept is what its metadata says, and none where they do
/// not say.
pub proof fn law_context_asks_the_summary(
    ms: Seq<StoredMessageView>,
    session_id: Seq<char>,
    limit: int,
    i: int,
)
    requires
        numbered(ms),
        is_last_summary(ms, session_id, i),
    ensures
        match member_number(ms[i].metadata, "$.kept_before_count"@) {
            Ok(n) => session_context(ms, session_id, limit) == context_rows(
                ms,
                session_id,
                limit,
                n as int,
            ),
            Err(_) => session_context(ms, session_id, limit) == context_rows(
                ms,
                session_id,
                limit,
                0,
            ),
        },
{
    lemma_last_summary(ms, session_id);
}

/// A summary that is written is the one from which the session goes on; where it keeps
/// nothing from before, the context is that summary alone.
pub proof fn law_summary_starts_over(t: TablesView, m: StoredMessageView, limit: int)
    requires
        t.wf(),
        t.takes(WriteView::InsertMessage(m)),
        m.type_ == "compaction"@,
        m.role != "tool"@,
        m.rewound_at is None,
    ensures
        ({
            let ms = t.after(WriteView::InsertMessage(m)).messages;
            &&& numbered(ms)
            &&& is_last_summary(ms, m.session_id, t.messages.len() as int)
            &&& context_rows(ms, m.session_id, limit, 0) == seq![m]
        }),
{
    lemma_types();
    let ms = t.after(WriteView::InsertMessage(m)).messages;
    let n = t.messages.len() as int;
    assert(ms == t.messages.push(m));
    assert forall|i: int| 0 <= i < ms.len() implies 1 <= (#[trigger] ms[i]).id <= m.id by {
        if i < n {
            assert(ms[i] == t.messages[i]);
        }
    }
    assert forall|i: int, j: int| 0 <= i < j < ms.len() implies (#[trigger] ms[i]).id < (
    #[trigger] ms[j]).id by {
        assert(ms[i] == t.messages[i]);
        if j < n {
            assert(ms[j] == t.messages[j]);
        }
    }
    assert forall|k: int|
        0 <= k < ms.len() && (#[trigger] ms[k]).session_id == m.session_id
            && ms[k].rewound_at is None && ms[k].type_ == "context_reset"@ implies ms[k].id
        < m.id by {
        assert(k < n);
        assert(ms[k] == t.messages[k]);
    }
    assert(counts(ms, m.session_id, ms[n]));
    assert(is_last_summary(ms, m.session_id, n));
    let rows = context_rows(ms, m.session_id, limit, 0);
    law_context_keeps_all_since_summary(ms, m.session_id, limit, 0, n, n);
    law_context_after_summary(ms, m.session_id, limit, 0, n, m);
    assert(rows.contains(m));
    assert forall|i: int| 0 <= i < rows.len() implies #[trigger] rows[i] == m by {
        law_context_after_summary(ms, m.session_id, limit, 0, n, rows[i]);
        assert(rows.contains(rows[i]));
        let x = choose|x: int| 0 <= x < ms.len() && ms[x] == rows[i];
        assert(ms[x].id >= m.id);
        if x < n {
            assert(ms[x].id < ms[n].id);
        }
    }
    if rows.len() > 1 {
        assert(rows[0].id < rows[1].id);
    }
    assert(rows =~= seq![m]);
}

/// Taking back what was said last undoes it: the context is what it was before.
pub proof fn law_rewind_undoes(t: TablesView, m: StoredMessageView, now: Seq<char>, limit: int)
    requires
        t.wf(),
        t.takes(WriteView::InsertMessage(m)),
    ensures
        session_context(
            t.after(WriteView::InsertMessage(m)).after(
                WriteView::RewindFromId { session_id: m.session_id, from_id: m.id, now },
            ).messages,
            m.session_id,
            limit,
        ) == session_context(
            t.messages,
            m.session_id,
            limit,
        ),
{
    let sid = m.session_id;
    let a = t.messages;
    let b = t.after(WriteView::InsertMessage(m)).after(
        WriteView::RewindFromId { session_id: sid, from_id: m.id, now },
    ).messages;
    let last = b[a.len() as int];
    assert(b.len() == a.len() + 1);
    assert(last.rewound_at is Some);
    assert forall|i: int| 0 <= i < a.len() implies #[trigger] b[i] == a[i] by {
        assert(a[i].id <= t.last_id);
    }
    assert(b =~= a.push(last));
    assert forall|kinds: Kinds, from: int, below: int| #[trigger]
        selected(b, sid, kinds, from, below) == selected(a, sid, kinds, from, below) by {
        let p = |x: StoredMessageView|
            {
                &&& x.session_id == sid
                &&& x.rewound_at is None
                &&& kinds.holds(x.type_)
                &&& from <= x.id < below
            };
        a.lemma_filter_push(last, p);
    }
}

/// Starting over: right after a reset and the forgetting of the usage that goes with it,
/// the context is empty and no usage is known.
pub proof fn law_reset_starts_over(t: TablesView, m: StoredMessageView, limit: int)
    requires
        t.wf(),
        t.takes(WriteView::InsertMessage(m)),
        m.type_ == "context_reset"@,
        m.rewound_at is None,
        limit >= 0,
    ensures
        ({
            let u = t.after(WriteView::InsertMessage(m)).after(
                WriteView::DeleteContextUsage { session_id: m.session_id },
            );
            &&& session_context(u.messages, m.session_id, limit).len() == 0
            &&& usage_of(u, m.session_id) is None
        }),
{
    lemma_types();
    let sid = m.session_id;
    let a = t.after(WriteView::InsertMessage(m)).messages;
    let u = t.after(WriteView::InsertMessage(m)).after(
        WriteView::DeleteContextUsage { session_id: sid },
    );
    let q = |x: StoredMessageView| !x.is_usage_of(sid);
    assert forall|kinds: Kinds, from: int, below: int| !(kinds is Every) implies #[trigger]
        selected(u.messages, sid, kinds, from, below) == selected(a, sid, kinds, from, below) by {
        let p = |x: StoredMessageView|
            {
                &&& x.session_id == sid
                &&& x.rewound_at is None
                &&& kinds.holds(x.type_)
                &&& from <= x.id < below
            };
        lemma_filter_twice(a, q, p);
    }
    assert(!(Kinds::Resets is Every) && !(Kinds::Compactions is Every) && !(Kinds::Context is Every)
        && !(Kinds::Spoken is Every));
    let kept = match last_compaction(u.messages, sid) {
        Some(c) => kept_before(member_number(c.metadata, KEPT_BEFORE_PATH@)),
        None => 0,
    };
    law_reset_empties_context(t, m, sid, limit, kept);
    lemma_same_selections(a, u.messages, sid, limit, kept);
    let hit = |i: int| (|x: StoredMessageView| x.is_usage_of(sid))(u.messages[i]);
    lemma_filtered(a, q);
    assert forall|j: int| 0 <= j < u.messages.len() implies !#[trigger] hit(j) by {
        assert(q(u.messages[j]));
    }
    lemma_no_first(u.messages.len() as int, hit);
}

proof fn lemma_same_selections(
    a: Seq<StoredMessageView>,
    b: Seq<StoredMessageView>,
    session_id: Seq<char>,
    limit: int,
    kept: int,
)
    requires
        forall|kinds: Kinds, from: int, below: int|
            !(kinds is Every) ==> #[trigger] selected(b, session_id, kinds, from, below)
                == selected(a, session_id, kinds, from, below),
    ensures
        context_rows(b, session_id, limit, kept) == context_rows(a, session_id, limit, kept),
{
    assert(selected(b, session_id, Kinds::Resets, 0, no_limit()) == selected(
        a,
        session_id,
        Kinds::Resets,
        0,
        no_limit(),
    ));
    assert(floor_of(b, session_id) == floor_of(a, session_id));
    assert(last_compaction(b, session_id) == last_compaction(a, session_id));
}

} // verus!
