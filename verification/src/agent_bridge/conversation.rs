//! Messages as the agent sees them, and their way to the store and back.

use vstd::prelude::*;
use vstd::string::*;
use crate::agent_bridge::db::AgentDb;
use crate::agent_bridge::images::{
    externalize_images, externalized, images_come_back, inline_images, inlined,
    law_message_images_roundtrip, lemma_externalized_writable, ImageFile, ImageFileView,
    SavedImage, SavedImageView,
};
use crate::agent_bridge::messages::{full_error, is_full, is_tool_row, new_message, session_context};
use crate::agent_bridge::message_laws::law_new_message_ends_context;
use crate::agent_bridge::rows::{StoredMessage, StoredMessageView, WriteView};
use crate::agent_bridge::tables::TablesView;
use crate::json::{
    items_view, json_parsed, json_text, lemma_items, parse_json, parsed_view, reads_as, write_json,
    Json, JsonV,
};
use crate::text::{dec_int, deep, lemma_deep_push, lemma_take_next, same_text};

verus! {

broadcast use lemma_deep_push;

/// Who a message is from, in the conversation with a model.
#[derive(Clone, Copy, Debug, PartialEq, Eq, Structural)]
pub enum MessageRole {
    User,
    Assistant,
    Tool,
    System,
}

/// What a message is.
#[derive(Clone, Copy, Debug, PartialEq, Eq, Structural)]
pub enum MessageType {
    Text,
    SessionInit,
    Compaction,
    ToolCall,
    ToolResult,
    CompletionSummary,
}

/// Who wrote a message.
#[derive(Clone, Copy, Debug, PartialEq, Eq, Structural)]
pub enum Sender {
    HumanUser,
    Agent,
}

pub open spec fn role_text(role: MessageRole) -> Seq<char> {
    match role {
        MessageRole::User => "user"@,
        MessageRole::Assistant => "assistant"@,
        MessageRole::Tool => "tool"@,
        MessageRole::System => "system"@,
    }
}

pub open spec fn type_text(t: MessageType) -> Seq<char> {
    match t {
        MessageType::Text => "text"@,
        MessageType::SessionInit => "session_init"@,
        MessageType::Compaction => "compaction"@,
        MessageType::ToolCall => "tool_call"@,
        MessageType::ToolResult => "tool_result"@,
        MessageType::CompletionSummary => "completion_summary"@,
    }
}

/// The role that a text names; a text that names none is the system's.
pub open spec fn role_of(s: Seq<char>) -> MessageRole {
    if s == "user"@ {
        MessageRole::User
    } else if s == "assistant"@ {
        MessageRole::Assistant
    } else if s == "tool"@ {
        MessageRole::Tool
    } else {
        MessageRole::System
    }
}

/// The type that a text names; a text that names none is plain text.
pub open spec fn type_of(s: Seq<char>) -> MessageType {
    if s == "session_init"@ {
        MessageType::SessionInit
    } else if s == "compaction"@ {
        MessageType::Compaction
    } else if s == "tool_call"@ {
        MessageType::ToolCall
    } else if s == "tool_result"@ {
        MessageType::ToolResult
    } else if s == "completion_summary"@ {
        MessageType::CompletionSummary
    } else {
        MessageType::Text
    }
}

pub fn role_to_str(role: MessageRole) -> (r: &'static str)
    ensures
        r@ == role_text(role),
{
    match role {
        MessageRole::User => "user",
        MessageRole::Assistant => "assistant",
        MessageRole::Tool => "tool",
        MessageRole::System => "system",
    }
}

pub fn type_to_str(mt: MessageType) -> (r: &'static str)
    ensures
        r@ == type_text(mt),
{
    match mt {
        MessageType::Text => "text",
        MessageType::SessionInit => "session_init",
        MessageType::Compaction => "compaction",
        MessageType::ToolCall => "tool_call",
        MessageType::ToolResult => "tool_result",
        MessageType::CompletionSummary => "completion_summary",
    }
}

pub fn str_to_role(s: &str) -> (r: MessageRole)
    ensures
        r == role_of(s@),
{
    if same_text(s, "user") {
        MessageRole::User
    } else if same_text(s, "assistant") {
        MessageRole::Assistant
    } else if same_text(s, "tool") {
        MessageRole::Tool
    } else {
        MessageRole::System
    }
}

pub fn str_to_type(s: &str) -> (r: MessageType)
    ensures
        r == type_of(s@),
{
    if same_text(s, "session_init") {
        MessageType::SessionInit
    } else if same_text(s, "compaction") {
        MessageType::Compaction
    } else if same_text(s, "tool_call") {
        MessageType::ToolCall
    } else if same_text(s, "tool_result") {
        MessageType::ToolResult
    } else if same_text(s, "completion_summary") {
        MessageType::CompletionSummary
    } else {
        MessageType::Text
    }
}

/// Reading a written role gives the role back.
pub proof fn law_role_roundtrip(role: MessageRole)
    ensures
        role_of(role_text(role)) == role,
{
    reveal_strlit("user");
    reveal_strlit("assistant");
    reveal_strlit("tool");
    reveal_strlit("system");
    assert("user"@[0] != "tool"@[0]);
    assert("user"@.len() == 4 && "assistant"@.len() == 9 && "tool"@.len() == 4 && "system"@.len()
        == 6);
}

/// Reading a written type gives the type back.
pub proof fn law_type_roundtrip(t: MessageType)
    ensures
        type_of(type_text(t)) == t,
{
    reveal_strlit("text");
    reveal_strlit("session_init");
    reveal_strlit("compaction");
    reveal_strlit("tool_call");
    reveal_strlit("tool_result");
    reveal_strlit("completion_summary");
    assert("text"@.len() == 4 && "session_init"@.len() == 12 && "compaction"@.len() == 10
        && "tool_call"@.len() == 9 && "tool_result"@.len() == 11 && "completion_summary"@.len()
        == 18);
}

/// A message as the agent sees it.
#[derive(Debug, PartialEq)]
pub struct AgentMessage {
    /// The text, where the message is one.
    pub content: String,
    /// The message in the form in which a model is sent it.
    pub llm_message: Json,
    pub metadata: Json,
    pub role: MessageRole,
    pub message_type: MessageType,
    pub sender: Sender,
    pub turn_count: Option<u32>,
}

/// What an [`AgentMessage`] stands for.
#[verifier::ext_equal]
pub struct AgentMessageView {
    pub content: Seq<char>,
    pub llm_message: JsonV,
    pub metadata: JsonV,
    pub role: MessageRole,
    pub message_type: MessageType,
    pub sender: Sender,
    pub turn_count: Option<u32>,
}

impl View for AgentMessage {
    type V = AgentMessageView;

    open spec fn view(&self) -> AgentMessageView {
        AgentMessageView {
            content: self.content@,
            llm_message: self.llm_message.view(),
            metadata: self.metadata.view(),
            role: self.role,
            message_type: self.message_type,
            sender: self.sender,
            turn_count: self.turn_count,
        }
    }
}

impl AgentMessageView {
    /// A message whose texts can be read once they are written.
    pub open spec fn readable(self) -> bool {
        &&& self.llm_message.printable()
        &&& self.llm_message.depth_at_most(127)
        &&& self.metadata.printable()
        &&& self.metadata.depth_at_most(127)
    }

    /// The message with the text of its model form, and with the sender that goes with
    /// its role.
    pub open spec fn by_the_book(self) -> AgentMessageView {
        AgentMessageView {
            content: match self.llm_message.get("content"@) {
                Some(JsonV::Str(s)) => s,
                _ => Seq::empty(),
            },
            sender: if self.role is User { Sender::HumanUser } else { Sender::Agent },
            ..self
        }
    }
}

/// The texts under which a message is saved are read as what they were written for.
pub open spec fn saved_texts_readable(m: AgentMessageView, saved: Seq<SavedImageView>) -> bool {
    &&& reads_as(
        json_text(externalized(m.llm_message, saved)),
        externalized(m.llm_message, saved),
    )
    &&& reads_as(json_text(m.metadata), m.metadata)
}

/// The row under which a message is saved.
pub open spec fn saved_row(
    t: TablesView,
    m: AgentMessageView,
    session_id: Seq<char>,
    project_path: Seq<char>,
    saved: Seq<SavedImageView>,
    now: Seq<char>,
) -> StoredMessageView {
    new_message(
        t,
        session_id,
        project_path,
        role_text(m.role),
        type_text(m.message_type),
        json_text(externalized(m.llm_message, saved)),
        json_text(m.metadata),
        m.turn_count,
        now,
    )
}

/// What a text was read as, or an empty object where it is no JSON.
pub open spec fn or_empty(parsed: Result<JsonV, Seq<char>>) -> JsonV {
    match parsed {
        Ok(j) => j,
        Err(_) => JsonV::Object(Map::empty()),
    }
}

fn json_or_empty(parsed: Result<Json, String>) -> (r: Json)
    ensures
        r.view() == or_empty(parsed_view(parsed)),
{
    match parsed {
        Ok(j) => j,
        Err(_) => {
            let none: Vec<(String, Json)> = Vec::new();
            Json::Object(none)
        },
    }
}

/// The message of a row, given what its two texts were read as.
pub open spec fn message_of(
    m: StoredMessageView,
    llm: Result<JsonV, Seq<char>>,
    meta: Result<JsonV, Seq<char>>,
    files: Seq<ImageFileView>,
) -> AgentMessageView {
    let llm_message = inlined(or_empty(llm), m.session_id, files);
    AgentMessageView {
        content: match llm_message.get("content"@) {
            Some(JsonV::Str(s)) => s,
            _ => Seq::empty(),
        },
        llm_message,
        metadata: or_empty(meta),
        role: role_of(m.role),
        message_type: type_of(m.type_),
        sender: if m.role == "user"@ { Sender::HumanUser } else { Sender::Agent },
        turn_count: m.turn_count,
    }
}

/// The message of a row.
pub open spec fn stored_message(m: StoredMessageView, files: Seq<ImageFileView>) -> AgentMessageView {
    message_of(m, json_parsed(m.llm_message), json_parsed(m.metadata), files)
}

/// Makes a message of a row and of what its two texts were read as.
pub fn message_from(
    stored: &StoredMessage,
    llm: Result<Json, String>,
    meta: Result<Json, String>,
    files: &Vec<ImageFile>,
) -> (r: AgentMessage)
    ensures
        r@ == message_of(stored@, parsed_view(llm), parsed_view(meta), deep(files@)),
{
    let llm_message = inline_images(&json_or_empty(llm), stored.session_id.as_str(), files);
    let metadata = json_or_empty(meta);
    let content = match llm_message.get_str("content") {
        Some(s) => s.to_owned(),
        None => String::new(),
    };
    proof {
        reveal_strlit("");
    }
    assert(content@ =~= message_of(
        stored@,
        parsed_view(llm),
        parsed_view(meta),
        deep(files@),
    ).content);
    let sender = if same_text(stored.role.as_str(), "user") {
        Sender::HumanUser
    } else {
        Sender::Agent
    };
    AgentMessage {
        content,
        llm_message,
        metadata,
        role: str_to_role(stored.role.as_str()),
        message_type: str_to_type(stored.type_.as_str()),
        sender,
        turn_count: stored.turn_count,
    }
}

pub fn stored_to_agent_message(stored: &StoredMessage, files: &Vec<ImageFile>) -> (r: AgentMessage)
    ensures
        r@ == stored_message(stored@, deep(files@)),
{
    message_from(
        stored,
        parse_json(stored.llm_message.as_str()),
        parse_json(stored.metadata.as_str()),
        files,
    )
}

// ── The context of a turn ──

pub open spec fn is_compaction(m: StoredMessageView) -> bool {
    m.type_ == "compaction"@
}

/// The place of the last summary.
pub open spec fn last_summary(rows: Seq<StoredMessageView>, i: int) -> bool {
    &&& 0 <= i < rows.len()
    &&& is_compaction(rows[i])
    &&& forall|j: int| i < j < rows.len() ==> !is_compaction(#[trigger] rows[j])
}

/// Where one comes to by going back from `start` over `left` rows that are no
/// summaries.
pub open spec fn back_over(rows: Seq<StoredMessageView>, start: int, left: int) -> int
    decreases start,
{
    if start <= 0 || left <= 0 {
        start
    } else if is_compaction(rows[start - 1]) {
        back_over(rows, start - 1, left)
    } else {
        back_over(rows, start - 1, left - 1)
    }
}

/// How many rows a summary kept before it, given what its metadata was read as.
pub open spec fn kept_count(meta: Result<JsonV, Seq<char>>) -> int {
    match meta {
        Ok(j) => match j.get("kept_before_count"@) {
            Some(v) => match v.as_u64() {
                Some(n) => n,
                None => 0,
            },
            None => 0,
        },
        Err(_) => 0,
    }
}

/// The rows from the last summary on, and those it kept before it.
pub open spec fn rows_from_summary(rows: Seq<StoredMessageView>) -> Seq<StoredMessageView> {
    if exists|i: int| last_summary(rows, i) {
        let i = choose|i: int| last_summary(rows, i);
        rows.skip(back_over(rows, i, kept_count(json_parsed(rows[i].metadata))))
    } else {
        rows
    }
}

/// The number of rows in `from..to` that are no summaries.
pub open spec fn spoken_between(rows: Seq<StoredMessageView>, from: int, to: int) -> int
    decreases to - from,
{
    if from >= to {
        0
    } else {
        spoken_between(rows, from + 1, to) + if is_compaction(rows[from]) { 0int } else { 1 }
    }
}

/// Going back over `left` rows ends behind exactly that many, or at the beginning
/// where there are fewer.
pub proof fn law_back_over(rows: Seq<StoredMessageView>, start: int, left: int)
    requires
        0 <= start <= rows.len(),
        left >= 0,
    ensures
        0 <= back_over(rows, start, left) <= start,
        spoken_between(rows, back_over(rows, start, left), start) <= left,
        back_over(rows, start, left) > 0 ==> spoken_between(
            rows,
            back_over(rows, start, left),
            start,
        ) == left,
    decreases start,
{
    if start > 0 && left > 0 {
        let rest = if is_compaction(rows[start - 1]) { left } else { left - 1 };
        law_back_over(rows, start - 1, rest);
        lemma_spoken_end(rows, back_over(rows, start - 1, rest), start);
    }
}

proof fn lemma_spoken_end(rows: Seq<StoredMessageView>, from: int, to: int)
    requires
        from < to,
    ensures
        spoken_between(rows, from, to) == spoken_between(rows, from, to - 1) + if is_compaction(
            rows[to - 1],
        ) { 0int } else { 1 },
    decreases to - from,
{
    if from + 1 < to {
        lemma_spoken_end(rows, from + 1, to);
        assert(spoken_between(rows, from, to - 1) == spoken_between(rows, from + 1, to - 1)
            + if is_compaction(rows[from]) { 0int } else { 1 });
    } else {
        assert(spoken_between(rows, from + 1, to) == 0);
        assert(spoken_between(rows, from, to - 1) == 0);
    }
}

/// Reads off how many rows a summary kept before it.
pub fn read_kept_count(meta: Result<Json, String>) -> (r: u64)
    ensures
        r == kept_count(parsed_view(meta)),
{
    match meta {
        Ok(j) => match j.get("kept_before_count") {
            Some(v) => match v.as_u64() {
                Some(n) => n,
                None => 0,
            },
            None => 0,
        },
        Err(_) => 0,
    }
}

/// The context that stored messages make.
pub fn reconstruct_context(stored: &Vec<StoredMessage>, files: &Vec<ImageFile>) -> (r: Vec<
    AgentMessage,
>)
    ensures
        deep(r@) == Seq::new(
            rows_from_summary(deep(stored@)).len(),
            |i: int| stored_message(rows_from_summary(deep(stored@))[i], deep(files@)),
        ),
{
    let ghost rows = deep(stored@);
    let mut pos: usize = stored.len();
    while pos > 0 && !same_text(stored[pos - 1].type_.as_str(), "compaction")
        invariant
            pos <= stored@.len(),
            rows == deep(stored@),
            forall|j: int| pos <= j < rows.len() ==> !is_compaction(#[trigger] rows[j]),
        decreases pos,
    {
        assert(rows[pos - 1] == stored@[pos - 1]@);
        pos -= 1;
    }
    let mut start: usize = 0;
    if pos > 0 {
        let at: usize = pos - 1;
        proof {
            assert(rows[at as int] == stored@[at as int]@);
            assert(last_summary(rows, at as int));
            let k = choose|k: int| last_summary(rows, k);
            assert(k == at) by {
                if k < at {
                    assert(!is_compaction(rows[at as int]));
                }
                if k > at {
                    assert(!is_compaction(rows[k]));
                }
            }
        }
        let kept: u64 = read_kept_count(parse_json(stored[at].metadata.as_str()));
        let mut count: u64 = 0;
        start = at;
        while start > 0 && count < kept
            invariant
                start <= at < stored@.len(),
                count <= kept,
                rows == deep(stored@),
                back_over(rows, at as int, kept as int) == back_over(
                    rows,
                    start as int,
                    kept - count,
                ),
            decreases start,
        {
            assert(rows[start - 1] == stored@[start - 1]@);
            start -= 1;
            if !same_text(stored[start].type_.as_str(), "compaction") {
                count += 1;
            }
        }
        assert(rows_from_summary(rows) == rows.skip(start as int));
    } else {
        proof {
            if exists|i: int| last_summary(rows, i) {
                let k = choose|k: int| last_summary(rows, k);
                assert(is_compaction(rows[k]));
            }
        }
        assert(rows.skip(0) =~= rows);
    }
    let ghost kept_rows = rows_from_summary(rows);
    let mut out: Vec<AgentMessage> = Vec::new();
    let mut i: usize = start;
    while i < stored.len()
        invariant
            start <= i <= stored@.len(),
            rows == deep(stored@),
            kept_rows == rows.skip(start as int),
            deep(out@).len() == i - start,
            forall|k: int|
                0 <= k < i - start ==> #[trigger] deep(out@)[k] == stored_message(
                    kept_rows[k],
                    deep(files@),
                ),
        decreases stored@.len() - i,
    {
        assert(kept_rows[i - start] == stored@[i as int]@);
        let m = stored_to_agent_message(&stored[i], files);
        out.push(m);
        i += 1;
    }
    assert(deep(out@) =~= Seq::new(
        kept_rows.len(),
        |i: int| stored_message(kept_rows[i], deep(files@)),
    ));
    out
}

// ── Showing a message ──

/// The texts of a message's blocks, one behind the other.
pub open spec fn block_texts(bs: Seq<JsonV>) -> Seq<char>
    decreases bs.len(),
{
    if bs.len() == 0 {
        Seq::empty()
    } else {
        let b = bs.last();
        let rest = block_texts(bs.drop_last());
        match (b.get("type"@), b.get("text"@)) {
            (Some(JsonV::Str(t)), Some(JsonV::Str(s))) => if t == "text"@ { rest + s } else { rest },
            _ => rest,
        }
    }
}

/// The URLs of a message's image blocks.
pub open spec fn block_images(bs: Seq<JsonV>) -> Seq<Seq<char>>
    decreases bs.len(),
{
    if bs.len() == 0 {
        Seq::empty()
    } else {
        let b = bs.last();
        let rest = block_images(bs.drop_last());
        match (b.get("type"@), crate::agent_bridge::images::block_url(b)) {
            (Some(JsonV::Str(t)), Some(u)) => if t == "image_url"@ { rest.push(u) } else { rest },
            _ => rest,
        }
    }
}

/// The text and the images that are shown for a message.
pub open spec fn display_of(
    parsed: Result<JsonV, Seq<char>>,
    session_id: Seq<char>,
    files: Seq<ImageFileView>,
) -> (Seq<char>, Seq<Seq<char>>) {
    match inlined(or_empty(parsed), session_id, files).get("content"@) {
        Some(JsonV::Str(s)) => (s, Seq::empty()),
        Some(JsonV::Array(bs)) => (block_texts(bs), block_images(bs)),
        _ => (Seq::empty(), Seq::empty()),
    }
}

/// What is shown for a message, given what its text was read as.
pub fn display_content(
    parsed: Result<Json, String>,
    session_id: &str,
    files: &Vec<ImageFile>,
) -> (r: (String, Vec<String>))
    ensures
        (r.0@, deep(r.1@)) == display_of(parsed_view(parsed), session_id@, deep(files@)),
{
    proof {
        reveal_strlit("");
    }
    let j = inline_images(&json_or_empty(parsed), session_id, files);
    let mut text = String::new();
    let mut images: Vec<String> = Vec::new();
    assert(text@ =~= Seq::<char>::empty());
    assert(deep(images@) =~= Seq::<Seq<char>>::empty());
    let content = match j.get("content") {
        Some(c) => c,
        None => {
            return (text, images);
        },
    };
    if let Some(s) = content.as_str() {
        return (s.to_owned(), images);
    }
    let blocks = match content.as_array() {
        Some(a) => a,
        None => {
            return (text, images);
        },
    };
    proof {
        lemma_items(blocks@);
    }
    let ghost bs = items_view(blocks@);
    let mut i: usize = 0;
    assert(bs.take(0) =~= Seq::empty());
    while i < blocks.len()
        invariant
            i <= blocks@.len(),
            bs == items_view(blocks@),
            bs.len() == blocks@.len(),
            forall|k: int| 0 <= k < blocks@.len() ==> #[trigger] bs[k] == blocks@[k].view(),
            text@ == block_texts(bs.take(i as int)),
            deep(images@) == block_images(bs.take(i as int)),
        decreases blocks@.len() - i,
    {
        let b = &blocks[i];
        proof {
            assert(bs[i as int] == b.view());
            lemma_take_next(bs, i as int);
            assert(bs.take(i + 1).drop_last() =~= bs.take(i as int));
            reveal_strlit("text");
            reveal_strlit("image_url");
            assert("text"@.len() != "image_url"@.len());
        }
        if let Some(t) = b.get_str("type") {
            if same_text(t, "text") {
                if let Some(s) = b.get_str("text") {
                    text.append(s);
                }
            } else if same_text(t, "image_url") {
                if let Some(inner) = b.get("image_url") {
                    if let Some(u) = inner.get_str("url") {
                        images.push(u.to_owned());
                    }
                }
            }
        }
        i += 1;
    }
    assert(bs.take(i as int) =~= bs);
    (text, images)
}

/// The text and the images that are shown for a stored message.
pub fn extract_display_content(
    llm_message_json: &str,
    session_id: &str,
    files: &Vec<ImageFile>,
) -> (r: (String, Vec<String>))
    ensures
        (r.0@, deep(r.1@)) == display_of(json_parsed(llm_message_json@), session_id@, deep(files@)),
{
    display_content(parse_json(llm_message_json), session_id, files)
}

// ── Saving and loading ──

/// Why a message could not be saved or loaded.
#[derive(Debug, PartialEq)]
pub enum PersistError {
    Storage(String),
}

/// The id under which a message was saved.
#[derive(Debug, PartialEq)]
pub struct PersistResult {
    pub id: String,
}

/// The messages that a session's context is made of.
pub open spec fn loaded_context(
    ms: Seq<StoredMessageView>,
    session_id: Seq<char>,
    files: Seq<ImageFileView>,
) -> Seq<AgentMessageView> {
    let rows = rows_from_summary(session_context(ms, session_id, 500));
    Seq::new(rows.len(), |i: int| stored_message(rows[i], files))
}

/// Saves the messages of an agent that works on one project.
pub struct SqliteMessagePersister {
    project_path: String,
}

impl View for SqliteMessagePersister {
    type V = Seq<char>;

    closed spec fn view(&self) -> Seq<char> {
        self.project_path@
    }
}

impl SqliteMessagePersister {
    pub fn new(project_path: String) -> (r: SqliteMessagePersister)
        ensures
            r@ == project_path@,
    {
        SqliteMessagePersister { project_path }
    }

    pub fn project_path(&self) -> (r: &str)
        ensures
            r@ == self@,
    {
        self.project_path.as_str()
    }

    /// Saves a message; `saved` are its images that were put in files. What the
    /// store holds afterwards is stated for messages whose numbers are written the
    /// way they are printed, as they are in every message that was read from JSON;
    /// what is nested no deeper than is read is read back.
    pub fn persist_message(
        &self,
        db: &mut AgentDb,
        message: &AgentMessage,
        session_id: &str,
        saved: &Vec<SavedImage>,
        now: &str,
    ) -> (r: Result<PersistResult, PersistError>)
        requires
            old(db).wf(),
        ensures
            final(db).wf(),
            final(db).saved() == old(db).saved(),
            is_full(old(db)@) ==> final(db)@ == old(db)@ && (r matches Err(PersistError::Storage(e))
                && e@ == full_error().text()),
            !is_full(old(db)@) ==> (r matches Ok(p) && p.id@ == dec_int(old(db)@.last_id + 1)),
            !is_full(old(db)@) && message@.metadata.printable() && message@.llm_message.printable()
                ==> final(db)@ == old(db)@.after(
                WriteView::InsertMessage(
                    saved_row(old(db)@, message@, session_id@, self@, deep(saved@), now@),
                ),
            ),
            message@.readable() ==> saved_texts_readable(message@, deep(saved@)),
    {
        proof {
            if message@.llm_message.printable() {
                lemma_externalized_writable(message@.llm_message, deep(saved@), 127);
            }
        }
        let llm_value = externalize_images(&message.llm_message, saved);
        let llm_message = write_json(&llm_value);
        let metadata = write_json(&message.metadata);
        let added = db.insert_message(
            session_id,
            self.project_path.as_str(),
            role_to_str(message.role),
            type_to_str(message.message_type),
            llm_message.as_str(),
            metadata.as_str(),
            message.turn_count,
            now,
        );
        match added {
            Ok(id) => Ok(PersistResult { id }),
            Err(e) => Err(PersistError::Storage(e.to_text())),
        }
    }

    /// The context of a session.
    pub fn load_context(&self, db: &AgentDb, session_id: &str, files: &Vec<ImageFile>) -> (r: Result<
        Vec<AgentMessage>,
        PersistError,
    >)
        requires
            db.wf(),
        ensures
            r matches Ok(v) && deep(v@) == loaded_context(
                db@.messages,
                session_id@,
                deep(files@),
            ),
    {
        match db.load_session_for_context(session_id, 500) {
            Ok(stored) => Ok(reconstruct_context(&stored, files)),
            Err(e) => Err(PersistError::Storage(e.to_text())),
        }
    }
}

/// A message that was saved is read back as it was: its model form with the images in
/// it, its metadata, role, type and turn, and the text and the sender that these give.
pub proof fn law_saved_message_is_read_back(
    t: TablesView,
    m: AgentMessageView,
    session_id: Seq<char>,
    project_path: Seq<char>,
    now: Seq<char>,
    saved: Seq<SavedImageView>,
    files: Seq<ImageFileView>,
)
    requires
        saved_texts_readable(m, saved),
        images_come_back(m.llm_message, saved, session_id, files),
    ensures
        stored_message(saved_row(t, m, session_id, project_path, saved, now), files) == m.by_the_book(),
{
    law_role_roundtrip(m.role);
    law_type_roundtrip(m.message_type);
    law_message_images_roundtrip(m.llm_message, saved, session_id, files);
    reveal_strlit("user");
    reveal_strlit("assistant");
    reveal_strlit("tool");
    reveal_strlit("system");
    assert("user"@[0] != "tool"@[0]);
}

/// The message that was saved last is the one that a session's context ends with,
/// unless it is a tool's, and is there as it was.
pub proof fn law_saved_message_is_loaded(
    t: TablesView,
    m: AgentMessageView,
    session_id: Seq<char>,
    project_path: Seq<char>,
    now: Seq<char>,
    saved: Seq<SavedImageView>,
    files: Seq<ImageFileView>,
)
    requires
        t.wf(),
        !is_full(t),
        !(m.role is Tool),
        !(m.role is Assistant && m.message_type is ToolCall),
        saved_texts_readable(m, saved),
        images_come_back(m.llm_message, saved, session_id, files),
    ensures
        ({
            let row = saved_row(t, m, session_id, project_path, saved, now);
            let context = loaded_context(
                t.after(WriteView::InsertMessage(row)).messages,
                session_id,
                files,
            );
            context.len() > 0 && context.last() == m.by_the_book()
        }),
{
    let row = saved_row(t, m, session_id, project_path, saved, now);
    law_saved_message_is_read_back(t, m, session_id, project_path, now, saved, files);
    law_role_roundtrip(m.role);
    law_type_roundtrip(m.message_type);
    reveal_strlit("user");
    reveal_strlit("assistant");
    reveal_strlit("tool");
    reveal_strlit("system");
    reveal_strlit("text");
    reveal_strlit("session_init");
    reveal_strlit("compaction");
    reveal_strlit("tool_call");
    reveal_strlit("tool_result");
    reveal_strlit("completion_summary");
    reveal_strlit("context_usage");
    reveal_strlit("context_reset");
    assert("user"@[0] == 'u' && "tool"@[0] == 't');
    assert("context_usage"@.len() == 13 && "context_reset"@.len() == 13);
    assert(row.type_.len() != 13);
    assert(!is_tool_row(row));
    let ms = t.after(WriteView::InsertMessage(row)).messages;
    law_new_message_ends_context(t, row, 500);
    let rows = session_context(ms, session_id, 500);
    if exists|i: int| last_summary(rows, i) {
        let i = choose|i: int| last_summary(rows, i);
        let kept = kept_count(json_parsed(rows[i].metadata));
        law_back_over(rows, i, kept);
    }
    let kept_rows = rows_from_summary(rows);
    assert(kept_rows.last() == row);
}

} // verus!
