//! The messages of a session: writing them, taking them back, and the part of them
//! that a model gets to see.

use vstd::prelude::*;
use vstd::string::*;
use crate::agent_bridge::context_laws::{
    is_last_summary, law_reset_starts_over, law_summary_starts_over,
};
use crate::agent_bridge::db::{error_of, AgentDb};
use crate::agent_bridge::message_laws::law_usage_after_upsert;
use crate::agent_bridge::rows::{
    AgentDbError, AgentDbErrorView, StoredMessage, StoredMessageView, Write, WriteView,
};
use crate::agent_bridge::tables::TablesView;
use crate::auto::codec::lemma_depth_grows;
use crate::json::{
    json_parsed, json_text, parse_json, parsed_view, put, reads_as, text_json, write_json, Json,
    JsonV,
};
use crate::sqlite::{
    json_member_number, member_number, member_path, numbers, outcome_of, plain_key, short_enough,
    written_as,
};
use crate::text::{
    dec_int, decimal_int, deep, first_where, lemma_deep_push, lemma_first, lemma_no_first,
    lemma_take_next, opt, same_text, Dup,
};

verus! {

broadcast use lemma_deep_push;

/// Which kinds of message are asked for.
#[derive(Clone, Copy, Debug, PartialEq, Eq, Structural)]
pub enum Kinds {
    /// The points at which the context was started over.
    Resets,
    /// The points at which the context was summed up.
    Compactions,
    /// What a model may see: everything but bookkeeping.
    Context,
    /// What was said: the context without its summaries.
    Spoken,
    /// Everything.
    Every,
}

impl Kinds {
    pub open spec fn holds(self, type_: Seq<char>) -> bool {
        let bookkeeping = type_ == "context_usage"@ || type_ == "context_reset"@;
        match self {
            Kinds::Resets => type_ == "context_reset"@,
            Kinds::Compactions => type_ == "compaction"@,
            Kinds::Context => !bookkeeping,
            Kinds::Spoken => !bookkeeping && type_ != "compaction"@,
            Kinds::Every => true,
        }
    }

    fn test(self, type_: &str) -> (r: bool)
        ensures
            r == self.holds(type_@),
    {
        match self {
            Kinds::Resets => same_text(type_, "context_reset"),
            Kinds::Compactions => same_text(type_, "compaction"),
            Kinds::Context => !same_text(type_, "context_usage") && !same_text(
                type_,
                "context_reset",
            ),
            Kinds::Spoken => !same_text(type_, "context_usage") && !same_text(
                type_,
                "context_reset",
            ) && !same_text(type_, "compaction"),
            Kinds::Every => true,
        }
    }
}

/// The messages of a session that were not taken back, of some kinds, with ids from
/// `from` on and below `below`.
pub open spec fn selected(
    ms: Seq<StoredMessageView>,
    session_id: Seq<char>,
    kinds: Kinds,
    from: int,
    below: int,
) -> Seq<StoredMessageView> {
    ms.filter(
        |m: StoredMessageView|
            {
                &&& m.session_id == session_id
                &&& m.rewound_at is None
                &&& kinds.holds(m.type_)
                &&& from <= m.id < below
            },
    )
}

/// Behind every id.
pub open spec fn no_limit() -> int {
    i64::MAX + 1
}

/// The id of the last message of a list.
pub open spec fn last_id(ms: Seq<StoredMessageView>) -> Option<int> {
    if ms.len() == 0 { None } else { Some(ms.last().id as int) }
}

/// The last `n` of a list.
pub open spec fn last_of<T>(s: Seq<T>, n: int) -> Seq<T> {
    if s.len() <= n { s } else { s.skip(s.len() - n) }
}

/// A tool's call or answer.
pub open spec fn is_tool_row(m: StoredMessageView) -> bool {
    m.role == "tool"@ || (m.role == "assistant"@ && m.type_ == "tool_call"@)
}

/// The list without the tool rows at its beginning.
pub open spec fn without_orphans(ms: Seq<StoredMessageView>) -> Seq<StoredMessageView>
    decreases ms.len(),
{
    if ms.len() > 0 && is_tool_row(ms[0]) {
        without_orphans(ms.skip(1))
    } else {
        ms
    }
}

/// The id behind which the context begins: that of the last reset, or 0.
pub open spec fn floor_of(ms: Seq<StoredMessageView>, session_id: Seq<char>) -> int {
    match last_id(selected(ms, session_id, Kinds::Resets, 0, no_limit())) {
        Some(id) => id,
        None => 0,
    }
}

/// The last summary behind the floor.
pub open spec fn last_compaction(ms: Seq<StoredMessageView>, session_id: Seq<char>) -> Option<
    StoredMessageView,
> {
    let cs = selected(
        ms,
        session_id,
        Kinds::Compactions,
        floor_of(ms, session_id) + 1,
        no_limit(),
    );
    if cs.len() == 0 { None } else { Some(cs.last()) }
}

/// The context of a session. Where it was summed up, it is the summary, everything
/// behind it, and the `kept` messages before it; otherwise the last `limit`
/// messages. Nothing before a reset is in it, and it does not begin with an answer
/// whose call is missing.
pub open spec fn context_rows(
    ms: Seq<StoredMessageView>,
    session_id: Seq<char>,
    limit: int,
    kept: int,
) -> Seq<StoredMessageView> {
    let floor = floor_of(ms, session_id);
    without_orphans(
        match last_compaction(ms, session_id) {
            Some(c) => {
                let before = last_of(
                    selected(ms, session_id, Kinds::Spoken, floor + 1, c.id as int),
                    kept,
                );
                let start = if kept > 0 && before.len() > 0 { before[0].id as int } else {
                    c.id as int
                };
                selected(ms, session_id, Kinds::Context, start, no_limit())
            },
            None => last_of(
                selected(ms, session_id, Kinds::Context, floor + 1, no_limit()),
                limit,
            ),
        },
    )
}

/// Where a summary's metadata says how many messages it kept.
pub const KEPT_BEFORE_PATH: &'static str = "$.kept_before_count";

/// How many messages a summary kept before it, given the number that was found in its
/// metadata; none where no number was found.
pub open spec fn kept_before(found: Result<i64, Seq<char>>) -> int {
    match found {
        Ok(n) => n as int,
        Err(_) => 0,
    }
}

/// What a session's context is, with the metadata of its last summary read.
pub open spec fn session_context(ms: Seq<StoredMessageView>, session_id: Seq<char>, limit: int) -> Seq<
    StoredMessageView,
> {
    let kept = match last_compaction(ms, session_id) {
        Some(c) => kept_before(member_number(c.metadata, KEPT_BEFORE_PATH@)),
        None => 0,
    };
    context_rows(ms, session_id, limit, kept)
}

fn select(
    ms: &Vec<StoredMessage>,
    session_id: &str,
    kinds: Kinds,
    from: i128,
    below: i128,
) -> (r: Vec<StoredMessage>)
    ensures
        deep(r@) == selected(deep(ms@), session_id@, kinds, from as int, below as int),
{
    let ghost all = deep(ms@);
    let ghost p = |m: StoredMessageView|
        {
            &&& m.session_id == session_id@
            &&& m.rewound_at is None
            &&& kinds.holds(m.type_)
            &&& (from as int) <= m.id < (below as int)
        };
    let mut out: Vec<StoredMessage> = Vec::new();
    let mut i: usize = 0;
    proof {
        reveal(Seq::filter);
        assert(deep(out@) =~= all.take(0).filter(p));
    }
    while i < ms.len()
        invariant
            i <= ms@.len(),
            all == deep(ms@),
            p == (|m: StoredMessageView|
                {
                    &&& m.session_id == session_id@
                    &&& m.rewound_at is None
                    &&& kinds.holds(m.type_)
                    &&& (from as int) <= m.id < (below as int)
                }),
            deep(out@) == all.take(i as int).filter(p),
        decreases ms@.len() - i,
    {
        let m = &ms[i];
        proof {
            assert(all[i as int] == m@);
            lemma_take_next(all, i as int);
            all.take(i as int).lemma_filter_push(all[i as int], p);
        }
        let id: i128 = m.id as i128;
        if same_text(m.session_id.as_str(), session_id) && m.rewound_at.is_none() && kinds.test(
            m.type_.as_str(),
        ) && from <= id && id < below {
            out.push(m.dup());
        }
        i += 1;
    }
    assert(all.take(i as int) =~= all);
    out
}

fn tail(ms: Vec<StoredMessage>, n: i128) -> (r: Vec<StoredMessage>)
    requires
        n >= 0,
    ensures
        deep(r@) == last_of(deep(ms@), n as int),
{
    let len: i128 = ms.len() as i128;
    if len <= n {
        return ms;
    }
    let ghost all = deep(ms@);
    let start: usize = (len - n) as usize;
    let mut out: Vec<StoredMessage> = Vec::new();
    let mut i: usize = start;
    assert(deep(out@) =~= all.subrange(start as int, start as int));
    while i < ms.len()
        invariant
            start <= i <= ms@.len(),
            all == deep(ms@),
            deep(out@) == all.subrange(start as int, i as int),
        decreases ms@.len() - i,
    {
        let m = ms[i].dup();
        assert(m@ == all[i as int]);
        out.push(m);
        i += 1;
        assert(deep(out@) =~= all.subrange(start as int, i as int));
    }
    assert(deep(out@) =~= last_of(all, n as int));
    out
}

fn tool_row(m: &StoredMessage) -> (r: bool)
    ensures
        r == is_tool_row(m@),
{
    same_text(m.role.as_str(), "tool") || (same_text(m.role.as_str(), "assistant") && same_text(
        m.type_.as_str(),
        "tool_call",
    ))
}

fn trim_orphans(ms: Vec<StoredMessage>) -> (r: Vec<StoredMessage>)
    ensures
        deep(r@) == without_orphans(deep(ms@)),
{
    let ghost all = deep(ms@);
    let mut i: usize = 0;
    assert(all.skip(0) =~= all);
    while i < ms.len() && tool_row(&ms[i])
        invariant
            i <= ms@.len(),
            all == deep(ms@),
            without_orphans(all) == without_orphans(all.skip(i as int)),
        decreases ms@.len() - i,
    {
        assert(all.skip(i as int)[0] == ms@[i as int]@);
        assert(all.skip(i as int).skip(1) =~= all.skip(i + 1));
        i += 1;
    }
    proof {
        if i < ms@.len() {
            assert(all.skip(i as int)[0] == ms@[i as int]@);
        }
        assert(without_orphans(all) == all.skip(i as int));
    }
    let n: i128 = ms.len() as i128 - i as i128;
    let r = tail(ms, n);
    assert(deep(r@) =~= all.skip(i as int));
    r
}

/// Takes how many messages a summary kept from what was found in its metadata.
pub fn kept_before_count(found: Result<i64, String>) -> (r: i64)
    ensures
        r == kept_before(outcome_of(found)),
{
    match found {
        Ok(n) => n,
        Err(_) => 0,
    }
}

/// The context that a session's messages make, where the last summary kept `kept`
/// messages before it.
pub fn select_context(ms: &Vec<StoredMessage>, session_id: &str, limit: u32, kept: i64) -> (r: Vec<
    StoredMessage,
>)
    ensures
        deep(r@) == context_rows(deep(ms@), session_id@, limit as int, kept as int),
{
    let every: i128 = i64::MAX as i128 + 1;
    let floor: i128 = find_floor(ms, session_id);
    let rows = match find_compaction(ms, session_id) {
        Some(c) => {
            let cid: i128 = c.id as i128;
            let mut start: i128 = cid;
            if kept > 0 {
                let spoken = select(ms, session_id, Kinds::Spoken, floor + 1, cid);
                let before = tail(spoken, kept as i128);
                if before.len() > 0 {
                    assert(deep(before@)[0] == before@[0]@);
                    start = before[0].id as i128;
                }
            }
            select(ms, session_id, Kinds::Context, start, every)
        },
        None => {
            let rows = select(ms, session_id, Kinds::Context, floor + 1, every);
            tail(rows, limit as i128)
        },
    };
    trim_orphans(rows)
}

fn find_floor(ms: &Vec<StoredMessage>, session_id: &str) -> (r: i128)
    ensures
        r == floor_of(deep(ms@), session_id@),
        i64::MIN <= r <= i64::MAX,
{
    let every: i128 = i64::MAX as i128 + 1;
    let resets = select(ms, session_id, Kinds::Resets, 0, every);
    let n: usize = resets.len();
    if n == 0 {
        0
    } else {
        assert(deep(resets@)[n - 1] == resets@[n - 1]@);
        resets[n - 1].id as i128
    }
}

fn find_compaction(ms: &Vec<StoredMessage>, session_id: &str) -> (r: Option<StoredMessage>)
    ensures
        opt(r) == last_compaction(deep(ms@), session_id@),
{
    let every: i128 = i64::MAX as i128 + 1;
    let floor: i128 = find_floor(ms, session_id);
    let cs = select(ms, session_id, Kinds::Compactions, floor + 1, every);
    let n: usize = cs.len();
    if n == 0 {
        None
    } else {
        assert(deep(cs@)[n - 1] == cs@[n - 1]@);
        Some(cs[n - 1].dup())
    }
}

/// A new message, under the next id.
pub open spec fn new_message(
    t: TablesView,
    session_id: Seq<char>,
    project_path: Seq<char>,
    role: Seq<char>,
    type_: Seq<char>,
    llm_message: Seq<char>,
    metadata: Seq<char>,
    turn_count: Option<u32>,
    now: Seq<char>,
) -> StoredMessageView {
    StoredMessageView {
        id: (t.last_id + 1) as i64,
        session_id,
        project_path,
        role,
        type_,
        llm_message,
        metadata,
        created_at: now,
        rewound_at: None,
        turn_count,
    }
}

/// Every id has been given out.
pub open spec fn is_full(t: TablesView) -> bool {
    t.last_id == i64::MAX
}

pub open spec fn full_error() -> AgentDbErrorView {
    AgentDbErrorView::Sqlite("database or disk is full"@)
}

/// The first message that `p` holds of.
pub open spec fn first_message(
    ms: Seq<StoredMessageView>,
    p: spec_fn(StoredMessageView) -> bool,
) -> Option<StoredMessageView> {
    match first_where(ms.len() as int, |i: int| p(ms[i])) {
        Some(i) => Some(ms[i]),
        None => None,
    }
}

/// The last message of a session that opens it, taken back or not.
pub open spec fn session_init_of(ms: Seq<StoredMessageView>, session_id: Seq<char>) -> Option<
    StoredMessageView,
> {
    let inits = ms.filter(
        |m: StoredMessageView| m.session_id == session_id && m.type_ == "session_init"@,
    );
    if inits.len() == 0 { None } else { Some(inits.last()) }
}

/// How full a session's context is: the tokens used, the limit, and the number of
/// messages.
pub open spec fn usage_json(total_tokens: u32, context_limit: u32, message_count: u32) -> JsonV {
    JsonV::Object(
        map![
            "total_tokens"@ => JsonV::Int(total_tokens as int),
            "context_limit"@ => JsonV::Int(context_limit as int),
            "message_count"@ => JsonV::Int(message_count as int),
        ],
    )
}

/// The lower 32 bits of the number under `key`, or 0 where there is none.
pub open spec fn count_under(j: JsonV, key: Seq<char>) -> u32 {
    match j.get(key) {
        Some(v) => match v.as_u64() {
            Some(n) => (n % 0x1_0000_0000) as u32,
            None => 0,
        },
        None => 0,
    }
}

/// What a record of usage says, given what its text was read as.
pub open spec fn usage_from(meta: Result<JsonV, Seq<char>>) -> (u32, u32, u32) {
    let j = match meta {
        Ok(j) => j,
        Err(_) => JsonV::Null,
    };
    (
        count_under(j, "total_tokens"@),
        count_under(j, "context_limit"@),
        count_under(j, "message_count"@),
    )
}

/// What is recorded of a session's usage.
pub open spec fn usage_of(t: TablesView, session_id: Seq<char>) -> Option<(u32, u32, u32)> {
    match first_message(t.messages, |m: StoredMessageView| m.is_usage_of(session_id)) {
        Some(m) => Some(usage_from(json_parsed(m.metadata))),
        None => None,
    }
}

/// A usage record, written as JSON, reads as what it was made of.
pub proof fn law_usage_roundtrip(total_tokens: u32, context_limit: u32, message_count: u32)
    ensures
        usage_from(Ok(usage_json(total_tokens, context_limit, message_count))) == (
            total_tokens,
            context_limit,
            message_count,
        ),
        usage_json(total_tokens, context_limit, message_count).printable(),
        usage_json(total_tokens, context_limit, message_count).depth_at_most(1),
{
    reveal_strlit("total_tokens");
    reveal_strlit("context_limit");
    reveal_strlit("message_count");
    assert("total_tokens"@.len() == 12 && "context_limit"@.len() == 13 && "message_count"@.len()
        == 13);
    assert("context_limit"@[0] != "message_count"@[0]);
    let j = usage_json(total_tokens, context_limit, message_count);
    assert(j.get("total_tokens"@) == Some(JsonV::Int(total_tokens as int)));
    assert(j.get("context_limit"@) == Some(JsonV::Int(context_limit as int)));
    assert(j.get("message_count"@) == Some(JsonV::Int(message_count as int)));
    assert forall|k: Seq<char>| #[trigger] j->Object_0.dom().contains(k) implies {
        &&& j->Object_0[k].printable()
        &&& j->Object_0[k].depth_at_most(0)
    } by {}
}

fn read_count(j: &Json, key: &str) -> (r: u32)
    ensures
        r == count_under(j.view(), key@),
{
    match j.get(key) {
        Some(v) => match v.as_u64() {
            Some(n) => (n % 0x1_0000_0000) as u32,
            None => 0,
        },
        None => 0,
    }
}

/// Reads off a record of usage.
pub fn read_usage(meta: Result<Json, String>) -> (r: (u32, u32, u32))
    ensures
        r == usage_from(parsed_view(meta)),
{
    let j = match meta {
        Ok(j) => j,
        Err(_) => Json::Null,
    };
    (
        read_count(&j, "total_tokens"),
        read_count(&j, "context_limit"),
        read_count(&j, "message_count"),
    )
}

/// What a summary's metadata says.
pub open spec fn compaction_json(kept_before_count: u32) -> JsonV {
    JsonV::Object(
        map![
            "version"@ => JsonV::Int(1),
            "kept_before_count"@ => JsonV::Int(kept_before_count as int),
        ],
    )
}

/// A chat message with a text.
pub open spec fn chat_json(role: Seq<char>, content: Seq<char>) -> JsonV {
    JsonV::Object(map!["role"@ => JsonV::Str(role), "content"@ => JsonV::Str(content)])
}

proof fn lemma_compaction_json(kept_before_count: u32)
    ensures
        compaction_json(kept_before_count).printable(),
        compaction_json(kept_before_count).depth_at_most(1),
        compaction_json(kept_before_count).get("kept_before_count"@) == Some(
            JsonV::Int(kept_before_count as int),
        ),
{
    reveal_strlit("version");
    reveal_strlit("kept_before_count");
    assert("version"@.len() != "kept_before_count"@.len());
    let j = compaction_json(kept_before_count);
    assert forall|k: Seq<char>| #[trigger] j->Object_0.dom().contains(k) implies {
        &&& j->Object_0[k].printable()
        &&& j->Object_0[k].depth_at_most(0)
    } by {}
}

/// A summary's metadata, once it is written, says how many messages it kept. What is
/// found in it is what [`AgentDb::load_session_for_context`] hands on.
pub proof fn law_compaction_roundtrip(kept_before_count: u32)
    requires
        short_enough(json_text(compaction_json(kept_before_count))),
        numbers(
            json_text(compaction_json(kept_before_count)),
            KEPT_BEFORE_PATH@,
            member_number(json_text(compaction_json(kept_before_count)), KEPT_BEFORE_PATH@),
        ),
    ensures
        kept_before(
            member_number(json_text(compaction_json(kept_before_count)), KEPT_BEFORE_PATH@),
        ) == kept_before_count,
{
    let j = compaction_json(kept_before_count);
    lemma_compaction_json(kept_before_count);
    lemma_depth_grows(j, 1, 127);
    reveal_strlit("kept_before_count");
    reveal_strlit("$.kept_before_count");
    reveal_strlit("$.");
    assert(KEPT_BEFORE_PATH@ =~= member_path("kept_before_count"@));
    assert(written_as(json_text(j), j));
    assert(plain_key("kept_before_count"@));
}

pub proof fn lemma_chat_json(role: Seq<char>, content: Seq<char>)
    ensures
        chat_json(role, content).printable(),
        chat_json(role, content).depth_at_most(1),
        chat_json(role, content).get("content"@) == Some(JsonV::Str(content)),
        chat_json(role, content).get("role"@) == Some(JsonV::Str(role)),
{
    reveal_strlit("role");
    reveal_strlit("content");
    assert("role"@.len() != "content"@.len());
    let j = chat_json(role, content);
    assert forall|k: Seq<char>| #[trigger] j->Object_0.dom().contains(k) implies {
        &&& j->Object_0[k].printable()
        &&& j->Object_0[k].depth_at_most(0)
    } by {}
}

/// A chat message as JSON text.
pub fn build_llm_message_json(role: &str, content: &str) -> (r: String)
    ensures
        r@ == json_text(chat_json(role@, content@)),
        reads_as(r@, chat_json(role@, content@)),
{
    let mut m: Vec<(String, Json)> = Vec::new();
    put(&mut m, "role", text_json(role));
    put(&mut m, "content", text_json(content));
    proof {
        lemma_chat_json(role@, content@);
        crate::auto::codec::lemma_depth_grows(chat_json(role@, content@), 1, 127);
    }
    write_json(&Json::Object(m))
}

impl AgentDb {
    /// Adds a message. Gives its id as text.
    pub fn insert_message(
        &mut self,
        session_id: &str,
        project_path: &str,
        role: &str,
        type_: &str,
        llm_message: &str,
        metadata: &str,
        turn_count: Option<u32>,
        now: &str,
    ) -> (r: Result<String, AgentDbError>)
        requires
            old(self).wf(),
        ensures
            final(self).wf(),
            final(self).saved() == old(self).saved(),
            is_full(old(self)@) ==> final(self)@ == old(self)@ && error_of(r) == Some(full_error()),
            !is_full(old(self)@) ==> {
                &&& r matches Ok(s) && s@ == dec_int(old(self)@.last_id + 1)
                &&& final(self)@ == old(self)@.after(
                    WriteView::InsertMessage(
                        new_message(
                            old(self)@,
                            session_id@,
                            project_path@,
                            role@,
                            type_@,
                            llm_message@,
                            metadata@,
                            turn_count,
                            now@,
                        ),
                    ),
                )
            },
    {
        proof {
            self.law_store();
        }
        let last: i64 = self.last_id();
        if last == i64::MAX {
            return Err(AgentDbError::Sqlite("database or disk is full".to_owned()));
        }
        let id: i64 = last + 1;
        let m = StoredMessage {
            id,
            session_id: session_id.to_owned(),
            project_path: project_path.to_owned(),
            role: role.to_owned(),
            type_: type_.to_owned(),
            llm_message: llm_message.to_owned(),
            metadata: metadata.to_owned(),
            created_at: now.to_owned(),
            rewound_at: None,
            turn_count,
        };
        self.write(Write::InsertMessage(m));
        Ok(decimal_int(id as i128))
    }

    /// The messages of a session that were not taken back, in order.
    pub fn load_session_messages(&self, session_id: &str) -> (r: Result<
        Vec<StoredMessage>,
        AgentDbError,
    >)
        requires
            self.wf(),
        ensures
            r matches Ok(v) && deep(v@) == self@.messages.filter(
                |m: StoredMessageView| m.session_id == session_id@ && m.rewound_at is None,
            ),
    {
        let every: i128 = i64::MAX as i128 + 1;
        let rows = select(self.messages(), session_id, Kinds::Every, i64::MIN as i128, every);
        proof {
            let p = |m: StoredMessageView|
                {
                    &&& m.session_id == session_id@
                    &&& m.rewound_at is None
                    &&& Kinds::Every.holds(m.type_)
                    &&& (i64::MIN as int) <= m.id < no_limit()
                };
            let q = |m: StoredMessageView| m.session_id == session_id@ && m.rewound_at is None;
            assert forall|m: StoredMessageView| #[trigger] p(m) == q(m) by {}
            lemma_filter_same(self@.messages, p, q);
        }
        Ok(rows)
    }

    /// The part of a session that a model gets to see: from the last summary on, or
    /// else the last `fallback_limit` messages.
    pub fn load_session_for_context(&self, session_id: &str, fallback_limit: u32) -> (r: Result<
        Vec<StoredMessage>,
        AgentDbError,
    >)
        requires
            self.wf(),
        ensures
            r matches Ok(v) && deep(v@) == session_context(
                self@.messages,
                session_id@,
                fallback_limit as int,
            ),
            last_compaction(self@.messages, session_id@) matches Some(c) ==> numbers(
                c.metadata,
                KEPT_BEFORE_PATH@,
                member_number(c.metadata, KEPT_BEFORE_PATH@),
            ),
    {
        let kept: i64 = match find_compaction(self.messages(), session_id) {
            Some(c) => kept_before_count(
                json_member_number(c.metadata.as_str(), KEPT_BEFORE_PATH),
            ),
            None => 0,
        };
        Ok(select_context(self.messages(), session_id, fallback_limit, kept))
    }

    /// The last message that opens a session.
    pub fn get_session_init(&self, session_id: &str) -> (r: Result<
        Option<StoredMessage>,
        AgentDbError,
    >)
        requires
            self.wf(),
        ensures
            r matches Ok(o) && opt(o) == session_init_of(self@.messages, session_id@),
    {
        let ms = self.messages();
        let ghost all = deep(ms@);
        let ghost p = |m: StoredMessageView|
            m.session_id == session_id@ && m.type_ == "session_init"@;
        let mut found: Option<usize> = None;
        let mut i: usize = 0;
        proof {
            reveal(Seq::filter);
            assert(all.take(0).filter(p) =~= Seq::empty());
        }
        while i < ms.len()
            invariant
                i <= ms@.len(),
                all == deep(ms@),
                p == (|m: StoredMessageView|
                    m.session_id == session_id@ && m.type_ == "session_init"@),
                match found {
                    Some(k) => k < ms@.len() && all.take(i as int).filter(p).len() > 0 && all.take(
                        i as int,
                    ).filter(p).last() == all[k as int],
                    None => all.take(i as int).filter(p).len() == 0,
                },
            decreases ms@.len() - i,
        {
            let m = &ms[i];
            proof {
                assert(all[i as int] == m@);
                lemma_take_next(all, i as int);
                all.take(i as int).lemma_filter_push(all[i as int], p);
            }
            if same_text(m.session_id.as_str(), session_id) && same_text(
                m.type_.as_str(),
                "session_init",
            ) {
                found = Some(i);
            }
            i += 1;
        }
        assert(all.take(i as int) =~= all);
        match found {
            Some(k) => Ok(Some(ms[k].dup())),
            None => Ok(None),
        }
    }

    /// The message with an id.
    pub fn get_message_by_id(&self, id: i64) -> (r: Result<Option<StoredMessage>, AgentDbError>)
        requires
            self.wf(),
        ensures
            r matches Ok(o) && opt(o) == first_message(
                self@.messages,
                |m: StoredMessageView| m.id == id,
            ),
    {
        let ms = self.messages();
        let ghost all = deep(ms@);
        let ghost hit = |i: int| (|m: StoredMessageView| m.id == id)(all[i]);
        let mut i: usize = 0;
        while i < ms.len()
            invariant
                i <= ms@.len(),
                all == deep(ms@),
                all == self@.messages,
                hit == (|i: int| (|m: StoredMessageView| m.id == id)(all[i])),
                forall|k: int| 0 <= k < i ==> !#[trigger] hit(k),
            decreases ms@.len() - i,
        {
            assert(all[i as int] == ms@[i as int]@);
            if ms[i].id == id {
                proof {
                    assert(hit(i as int));
                    lemma_first(all.len() as int, hit, i as int);
                }
                return Ok(Some(ms[i].dup()));
            }
            assert(!hit(i as int));
            i += 1;
        }
        proof {
            lemma_no_first(all.len() as int, hit);
        }
        Ok(None)
    }

    /// Takes a session back to before a message. Gives the number of messages that
    /// were hidden.
    pub fn rewind_messages(&mut self, session_id: &str, from_id: i64, now: &str) -> (r: Result<
        usize,
        AgentDbError,
    >)
        requires
            old(self).wf(),
        ensures
            final(self).wf(),
            final(self).saved() == old(self).saved(),
            r matches Ok(n) && n == old(self)@.messages.filter(
                |m: StoredMessageView| m.rewound_by_id(session_id@, from_id),
            ).len(),
            final(self)@ == old(self)@.after(
                WriteView::RewindFromId { session_id: session_id@, from_id, now: now@ },
            ),
    {
        let ms = self.messages();
        let ghost all = deep(ms@);
        let ghost p = |m: StoredMessageView| m.rewound_by_id(session_id@, from_id);
        let mut n: usize = 0;
        let mut i: usize = 0;
        proof {
            reveal(Seq::filter);
            assert(all.take(0).filter(p) =~= Seq::empty());
        }
        while i < ms.len()
            invariant
                n <= i <= ms@.len(),
                all == deep(ms@),
                p == (|m: StoredMessageView| m.rewound_by_id(session_id@, from_id)),
                n == all.take(i as int).filter(p).len(),
            decreases ms@.len() - i,
        {
            let m = &ms[i];
            proof {
                assert(all[i as int] == m@);
                lemma_take_next(all, i as int);
                all.take(i as int).lemma_filter_push(all[i as int], p);
            }
            if same_text(m.session_id.as_str(), session_id) && m.id >= from_id
                && m.rewound_at.is_none() {
                n += 1;
            }
            i += 1;
        }
        assert(all.take(i as int) =~= all);
        self.write(
            Write::RewindFromId {
                session_id: session_id.to_owned(),
                from_id,
                now: now.to_owned(),
            },
        );
        Ok(n)
    }

    /// Takes a session back to before a turn. Gives the number of messages that were
    /// hidden.
    pub fn rewind_from_turn(&mut self, session_id: &str, from_turn: u32, now: &str) -> (r: Result<
        usize,
        AgentDbError,
    >)
        requires
            old(self).wf(),
        ensures
            final(self).wf(),
            final(self).saved() == old(self).saved(),
            r matches Ok(n) && n == old(self)@.messages.filter(
                |m: StoredMessageView| m.rewound_by_turn(session_id@, from_turn),
            ).len(),
            final(self)@ == old(self)@.after(
                WriteView::RewindFromTurn { session_id: session_id@, from_turn, now: now@ },
            ),
    {
        let ms = self.messages();
        let ghost all = deep(ms@);
        let ghost p = |m: StoredMessageView| m.rewound_by_turn(session_id@, from_turn);
        let mut n: usize = 0;
        let mut i: usize = 0;
        proof {
            reveal(Seq::filter);
            assert(all.take(0).filter(p) =~= Seq::empty());
        }
        while i < ms.len()
            invariant
                n <= i <= ms@.len(),
                all == deep(ms@),
                p == (|m: StoredMessageView| m.rewound_by_turn(session_id@, from_turn)),
                n == all.take(i as int).filter(p).len(),
            decreases ms@.len() - i,
        {
            let m = &ms[i];
            proof {
                assert(all[i as int] == m@);
                lemma_take_next(all, i as int);
                all.take(i as int).lemma_filter_push(all[i as int], p);
            }
            let late = match m.turn_count {
                Some(t) => t >= from_turn,
                None => false,
            };
            if same_text(m.session_id.as_str(), session_id) && late && m.rewound_at.is_none() {
                n += 1;
            }
            i += 1;
        }
        assert(all.take(i as int) =~= all);
        self.write(
            Write::RewindFromTurn {
                session_id: session_id.to_owned(),
                from_turn,
                now: now.to_owned(),
            },
        );
        Ok(n)
    }

    /// Replaces the text of a message.
    pub fn update_message_llm_content(&mut self, row_id: i64, llm_message: &str) -> (r: Result<
        (),
        AgentDbError,
    >)
        requires
            old(self).wf(),
        ensures
            final(self).wf(),
            final(self).saved() == old(self).saved(),
            r is Ok,
            final(self)@ == old(self)@.after(
                WriteView::SetMessageContent { row_id, llm_message: llm_message@ },
            ),
    {
        self.write(Write::SetMessageContent { row_id, llm_message: llm_message.to_owned() });
        Ok(())
    }

    // ── Context usage ──

    /// Records how full a session's context is, in place of what was recorded.
    pub fn upsert_context_usage(
        &mut self,
        session_id: &str,
        project_path: &str,
        total_tokens: u32,
        context_limit: u32,
        message_count: u32,
        now: &str,
    ) -> (r: Result<(), AgentDbError>)
        requires
            old(self).wf(),
        ensures
            final(self).wf(),
            final(self).saved() == old(self).saved(),
            is_full(old(self)@) ==> final(self)@ == old(self)@ && error_of(r) == Some(full_error()),
            !is_full(old(self)@) ==> {
                let cleared = old(self)@.after(
                    WriteView::DeleteContextUsage { session_id: session_id@ },
                );
                let text = json_text(
                    usage_json(total_tokens, context_limit, message_count),
                );
                &&& r is Ok
                &&& reads_as(text, usage_json(total_tokens, context_limit, message_count))
                &&& final(self)@ == cleared.after(
                    WriteView::InsertMessage(
                        new_message(
                            cleared,
                            session_id@,
                            project_path@,
                            "system"@,
                            "context_usage"@,
                            "{}"@,
                            text,
                            None,
                            now@,
                        ),
                    ),
                )
                &&& usage_of(final(self)@, session_id@) == Some(
                    (total_tokens, context_limit, message_count),
                )
            },
    {
        proof {
            self.law_store();
            law_usage_roundtrip(total_tokens, context_limit, message_count);
            crate::auto::codec::lemma_depth_grows(
                usage_json(total_tokens, context_limit, message_count),
                1,
                127,
            );
        }
        if self.last_id() == i64::MAX {
            return Err(AgentDbError::Sqlite("database or disk is full".to_owned()));
        }
        let mut m: Vec<(String, Json)> = Vec::new();
        put(&mut m, "total_tokens", Json::PosInt(total_tokens as u64));
        put(&mut m, "context_limit", Json::PosInt(context_limit as u64));
        put(&mut m, "message_count", Json::PosInt(message_count as u64));
        let metadata = write_json(&Json::Object(m));
        proof {
            let cleared = self@.after(
                WriteView::DeleteContextUsage { session_id: session_id@ },
            );
            let row = new_message(
                cleared,
                session_id@,
                project_path@,
                "system"@,
                "context_usage"@,
                "{}"@,
                metadata@,
                None,
                now@,
            );
            law_usage_after_upsert(
                self@,
                session_id@,
                row,
                total_tokens,
                context_limit,
                message_count,
            );
        }
        self.write(Write::DeleteContextUsage { session_id: session_id.to_owned() });
        let added = self.insert_message(
            session_id,
            project_path,
            "system",
            "context_usage",
            "{}",
            metadata.as_str(),
            None,
            now,
        );
        match added {
            Ok(_) => Ok(()),
            Err(e) => Err(e),
        }
    }

    /// What was recorded of a session's usage: tokens, limit and messages.
    pub fn get_context_usage(&self, session_id: &str) -> (r: Result<
        Option<(u32, u32, u32)>,
        AgentDbError,
    >)
        requires
            self.wf(),
        ensures
            r matches Ok(o) && o == usage_of(self@, session_id@),
    {
        let ms = self.messages();
        let ghost all = deep(ms@);
        let ghost hit = |i: int| (|m: StoredMessageView| m.is_usage_of(session_id@))(all[i]);
        let mut i: usize = 0;
        while i < ms.len()
            invariant
                i <= ms@.len(),
                all == deep(ms@),
                all == self@.messages,
                hit == (|i: int| (|m: StoredMessageView| m.is_usage_of(session_id@))(all[i])),
                forall|k: int| 0 <= k < i ==> !#[trigger] hit(k),
            decreases ms@.len() - i,
        {
            assert(all[i as int] == ms@[i as int]@);
            if same_text(ms[i].session_id.as_str(), session_id) && same_text(
                ms[i].type_.as_str(),
                "context_usage",
            ) {
                proof {
                    assert(hit(i as int));
                    lemma_first(all.len() as int, hit, i as int);
                }
                return Ok(Some(read_usage(parse_json(ms[i].metadata.as_str()))));
            }
            assert(!hit(i as int));
            i += 1;
        }
        proof {
            lemma_no_first(all.len() as int, hit);
        }
        Ok(None)
    }

    /// Forgets what was recorded of a session's usage.
    pub fn delete_context_usage(&mut self, session_id: &str) -> (r: Result<(), AgentDbError>)
        requires
            old(self).wf(),
        ensures
            final(self).wf(),
            final(self).saved() == old(self).saved(),
            r is Ok,
            final(self)@ == old(self)@.after(
                WriteView::DeleteContextUsage { session_id: session_id@ },
            ),
    {
        self.write(Write::DeleteContextUsage { session_id: session_id.to_owned() });
        Ok(())
    }

    /// Starts a session's context over: nothing up to here is seen any more, and its
    /// usage is forgotten.
    pub fn insert_context_reset(&mut self, session_id: &str, project_path: &str, now: &str) -> (r:
        Result<(), AgentDbError>)
        requires
            old(self).wf(),
        ensures
            final(self).wf(),
            final(self).saved() == old(self).saved(),
            is_full(old(self)@) ==> final(self)@ == old(self)@ && error_of(r) == Some(full_error()),
            !is_full(old(self)@) ==> r is Ok && final(self)@ == old(self)@.after(
                WriteView::InsertMessage(
                    new_message(
                        old(self)@,
                        session_id@,
                        project_path@,
                        "system"@,
                        "context_reset"@,
                        "{}"@,
                        "{}"@,
                        None,
                        now@,
                    ),
                ),
            ).after(WriteView::DeleteContextUsage { session_id: session_id@ }),
            !is_full(old(self)@) ==> usage_of(final(self)@, session_id@) is None && forall|limit: int|
                limit >= 0 ==> (#[trigger] session_context(
                    final(self)@.messages,
                    session_id@,
                    limit,
                )).len() == 0,
    {
        proof {
            self.law_store();
            if !is_full(self@) {
                let m = new_message(
                    self@,
                    session_id@,
                    project_path@,
                    "system"@,
                    "context_reset"@,
                    "{}"@,
                    "{}"@,
                    None,
                    now@,
                );
                law_reset_starts_over(self@, m, 0);
                assert forall|limit: int| limit >= 0 implies (#[trigger] session_context(
                    self@.after(WriteView::InsertMessage(m)).after(
                        WriteView::DeleteContextUsage { session_id: session_id@ },
                    ).messages,
                    session_id@,
                    limit,
                )).len() == 0 by {
                    law_reset_starts_over(self@, m, limit);
                }
            }
        }
        let added = self.insert_message(
            session_id,
            project_path,
            "system",
            "context_reset",
            "{}",
            "{}",
            None,
            now,
        );
        match added {
            Ok(_) => {
                self.write(Write::DeleteContextUsage { session_id: session_id.to_owned() });
                Ok(())
            },
            Err(e) => Err(e),
        }
    }

    /// Sums a session's context up. Gives the id of the summary as text.
    pub fn insert_compaction(
        &mut self,
        session_id: &str,
        project_path: &str,
        summary: &str,
        kept_before_count: u32,
        now: &str,
    ) -> (r: Result<String, AgentDbError>)
        requires
            old(self).wf(),
        ensures
            final(self).wf(),
            final(self).saved() == old(self).saved(),
            is_full(old(self)@) ==> final(self)@ == old(self)@ && error_of(r) == Some(full_error()),
            !is_full(old(self)@) ==> {
                let text = json_text(compaction_json(kept_before_count));
                &&& r matches Ok(s) && s@ == dec_int(old(self)@.last_id + 1)
                &&& final(self)@ == old(self)@.after(
                    WriteView::InsertMessage(
                        new_message(
                            old(self)@,
                            session_id@,
                            project_path@,
                            "system"@,
                            "compaction"@,
                            json_text(chat_json("system"@, summary@)),
                            text,
                            None,
                            now@,
                        ),
                    ),
                )
                &&& is_last_summary(
                    final(self)@.messages,
                    session_id@,
                    old(self)@.messages.len() as int,
                )
            },
    {
        proof {
            lemma_compaction_json(kept_before_count);
            self.law_store();
            if !is_full(self@) {
                let m = new_message(
                    self@,
                    session_id@,
                    project_path@,
                    "system"@,
                    "compaction"@,
                    json_text(chat_json("system"@, summary@)),
                    json_text(compaction_json(kept_before_count)),
                    None,
                    now@,
                );
                reveal_strlit("system");
                reveal_strlit("tool");
                assert("system"@.len() != "tool"@.len());
                law_summary_starts_over(self@, m, 0);
            }
        }
        let mut m: Vec<(String, Json)> = Vec::new();
        put(&mut m, "version", Json::PosInt(1));
        put(&mut m, "kept_before_count", Json::PosInt(kept_before_count as u64));
        let metadata = write_json(&Json::Object(m));
        let llm = build_llm_message_json("system", summary);
        self.insert_message(
            session_id,
            project_path,
            "system",
            "compaction",
            llm.as_str(),
            metadata.as_str(),
            None,
            now,
        )
    }
}

proof fn lemma_filter_same(
    s: Seq<StoredMessageView>,
    p: spec_fn(StoredMessageView) -> bool,
    q: spec_fn(StoredMessageView) -> bool,
)
    requires
        forall|m: StoredMessageView| #[trigger] p(m) == q(m),
    ensures
        s.filter(p) == s.filter(q),
    decreases s.len(),
{
    reveal(Seq::filter);
    if s.len() > 0 {
        lemma_filter_same(s.drop_last(), p, q);
        assert(p(s.last()) == q(s.last()));
    }
}

} // verus!
