//! The tables of the store, and what each write does to them.

use vstd::prelude::*;
use vstd::string::*;
use crate::agent_bridge::rows::{
    RunRow, RunRowView, SessionChange, SessionChangeView, SessionRecord, SessionRecordView,
    SessionRowView, StoredMessage, StoredMessageView, Write, WriteView,
};
use crate::text::{deep, lemma_deep_push, same_text, Dup};

verus! {

broadcast use lemma_deep_push;

/// Whether something is switched on.
#[derive(Clone, Debug, PartialEq)]
pub struct Pref {
    pub name: String,
    pub enabled: bool,
}

/// What a [`Pref`] stands for.
#[verifier::ext_equal]
pub struct PrefView {
    pub name: Seq<char>,
    pub enabled: bool,
}

impl View for Pref {
    type V = PrefView;

    open spec fn view(&self) -> PrefView {
        PrefView {
            name: self.name@,
            enabled: self.enabled,
        }
    }
}

impl Dup for Pref {
    fn dup(&self) -> (r: Self) {
        Pref {
            name: self.name.clone(),
            enabled: self.enabled,
        }
    }
}

/// The settings of a list, by name.
pub open spec fn pref_map(s: Seq<PrefView>) -> Map<Seq<char>, bool>
    decreases s.len(),
{
    if s.len() == 0 {
        Map::empty()
    } else {
        pref_map(s.drop_last()).insert(s.last().name, s.last().enabled)
    }
}

/// No name comes twice.
pub open spec fn distinct_prefs(s: Seq<PrefView>) -> bool {
    forall|i: int, j: int|
        0 <= i < j < s.len() ==> (#[trigger] s[i]).name != (#[trigger] s[j]).name
}

/// The store's tables.
#[derive(Clone, Debug)]
pub struct Tables {
    pub sessions: Vec<SessionRecord>,
    pub messages: Vec<StoredMessage>,
    /// The id that was given out last.
    pub last_id: i64,
    pub skills: Vec<Pref>,
    pub subagents: Vec<Pref>,
    pub runs: Vec<RunRow>,
}

/// What [`Tables`] stand for.
#[verifier::ext_equal]
pub struct TablesView {
    /// In the order in which they were made.
    pub sessions: Seq<SessionRecordView>,
    /// In the order of their ids.
    pub messages: Seq<StoredMessageView>,
    pub last_id: int,
    pub skills: Map<Seq<char>, bool>,
    pub subagents: Map<Seq<char>, bool>,
    /// In the order in which they were made.
    pub runs: Seq<RunRowView>,
}

impl View for Tables {
    type V = TablesView;

    open spec fn view(&self) -> TablesView {
        TablesView {
            sessions: deep(self.sessions@),
            messages: deep(self.messages@),
            last_id: self.last_id as int,
            skills: pref_map(deep(self.skills@)),
            subagents: pref_map(deep(self.subagents@)),
            runs: deep(self.runs@),
        }
    }
}

impl SessionRecordView {
    pub open spec fn changed(self, change: SessionChangeView, now: Seq<char>) -> SessionRecordView {
        let row = SessionRowView { updated_at: now, ..self.row };
        match change {
            SessionChangeView::Status(status) => SessionRecordView {
                row: SessionRowView { status, ..row },
                ..self
            },
            SessionChangeView::Title(title) => SessionRecordView {
                row: SessionRowView { title: Some(title), ..row },
                ..self
            },
            SessionChangeView::Mode(mode) => SessionRecordView {
                row: SessionRowView { mode, ..row },
                ..self
            },
            SessionChangeView::Model { provider_id, model } => SessionRecordView {
                row: SessionRowView { provider_id: Some(provider_id), model: Some(model), ..row },
                ..self
            },
            SessionChangeView::Deleted => SessionRecordView { row, deleted_at: Some(now) },
            SessionChangeView::Touched => SessionRecordView { row, ..self },
        }
    }
}

impl StoredMessageView {
    /// A session's record of how full its context is.
    pub open spec fn is_usage_of(self, session_id: Seq<char>) -> bool {
        self.session_id == session_id && self.type_ == "context_usage"@
    }

    /// Whether taking the session back to before `from_id` hides the message.
    pub open spec fn rewound_by_id(self, session_id: Seq<char>, from_id: i64) -> bool {
        self.session_id == session_id && self.id >= from_id && self.rewound_at is None
    }

    /// Whether taking the session back to before a turn hides the message.
    pub open spec fn rewound_by_turn(self, session_id: Seq<char>, from_turn: u32) -> bool {
        &&& self.session_id == session_id
        &&& self.turn_count matches Some(t) && t >= from_turn
        &&& self.rewound_at is None
    }
}

impl RunRowView {
    /// Whether the run was being executed.
    pub open spec fn executing(self) -> bool {
        self.status == "planning"@ || self.status == "running"@
    }
}

impl TablesView {
    /// The tables after a write.
    pub open spec fn after(self, w: WriteView) -> TablesView {
        match w {
            WriteView::CreateSession(row) => TablesView {
                sessions: self.sessions.push(SessionRecordView { row, deleted_at: None }),
                ..self
            },
            WriteView::ChangeSession { id, change, now } => TablesView {
                sessions: Seq::new(
                    self.sessions.len(),
                    |i: int|
                        if self.sessions[i].row.id == id {
                            self.sessions[i].changed(change, now)
                        } else {
                            self.sessions[i]
                        },
                ),
                ..self
            },
            WriteView::SetSkill { name, enabled } => TablesView {
                skills: self.skills.insert(name, enabled),
                ..self
            },
            WriteView::SetSubagent { name, enabled } => TablesView {
                subagents: self.subagents.insert(name, enabled),
                ..self
            },
            WriteView::InsertMessage(m) => TablesView {
                messages: self.messages.push(m),
                last_id: m.id as int,
                ..self
            },
            WriteView::DeleteContextUsage { session_id } => TablesView {
                messages: self.messages.filter(|m: StoredMessageView| !m.is_usage_of(session_id)),
                ..self
            },
            WriteView::RewindFromId { session_id, from_id, now } => TablesView {
                messages: Seq::new(
                    self.messages.len(),
                    |i: int|
                        if self.messages[i].rewound_by_id(session_id, from_id) {
                            StoredMessageView { rewound_at: Some(now), ..self.messages[i] }
                        } else {
                            self.messages[i]
                        },
                ),
                ..self
            },
            WriteView::RewindFromTurn { session_id, from_turn, now } => TablesView {
                messages: Seq::new(
                    self.messages.len(),
                    |i: int|
                        if self.messages[i].rewound_by_turn(session_id, from_turn) {
                            StoredMessageView { rewound_at: Some(now), ..self.messages[i] }
                        } else {
                            self.messages[i]
                        },
                ),
                ..self
            },
            WriteView::SetMessageContent { row_id, llm_message } => TablesView {
                messages: Seq::new(
                    self.messages.len(),
                    |i: int|
                        if self.messages[i].id == row_id {
                            StoredMessageView { llm_message, ..self.messages[i] }
                        } else {
                            self.messages[i]
                        },
                ),
                ..self
            },
            WriteView::InsertRun(row) => TablesView { runs: self.runs.push(row), ..self },
            WriteView::UpdateRun(row) => TablesView {
                runs: Seq::new(
                    self.runs.len(),
                    |i: int|
                        if self.runs[i].id == row.id {
                            RunRowView {
                                session_id: self.runs[i].session_id,
                                created_at: self.runs[i].created_at,
                                ..row
                            }
                        } else {
                            self.runs[i]
                        },
                ),
                ..self
            },
            WriteView::FailZombies { now } => TablesView {
                runs: Seq::new(
                    self.runs.len(),
                    |i: int|
                        if self.runs[i].executing() {
                            RunRowView { status: "failed"@, updated_at: now, ..self.runs[i] }
                        } else {
                            self.runs[i]
                        },
                ),
                ..self
            },
        }
    }

    /// Ids are unique, and those of messages grow and have all been given out.
    pub open spec fn wf(self) -> bool {
        &&& forall|i: int, j: int|
            0 <= i < j < self.sessions.len() ==> (#[trigger] self.sessions[i]).row.id
                != (#[trigger] self.sessions[j]).row.id
        &&& forall|i: int, j: int|
            0 <= i < j < self.messages.len() ==> (#[trigger] self.messages[i]).id < (
            #[trigger] self.messages[j]).id
        &&& forall|i: int|
            0 <= i < self.messages.len() ==> 1 <= (#[trigger] self.messages[i]).id <= self.last_id
        &&& 0 <= self.last_id <= i64::MAX
        &&& forall|i: int, j: int|
            0 <= i < j < self.runs.len() ==> (#[trigger] self.runs[i]).id != (
            #[trigger] self.runs[j]).id
    }

    pub open spec fn has_session(self, id: Seq<char>) -> bool {
        exists|i: int| 0 <= i < self.sessions.len() && (#[trigger] self.sessions[i]).row.id == id
    }

    pub open spec fn has_run(self, id: Seq<char>) -> bool {
        exists|i: int| 0 <= i < self.runs.len() && (#[trigger] self.runs[i]).id == id
    }

    /// Whether the store takes a write.
    pub open spec fn takes(self, w: WriteView) -> bool {
        match w {
            WriteView::CreateSession(row) => !self.has_session(row.id),
            WriteView::InsertMessage(m) => m.id == self.last_id + 1,
            WriteView::InsertRun(row) => !self.has_run(row.id),
            _ => true,
        }
    }
}

/// Filtering a list keeps its order and invents nothing.
proof fn lemma_filter_order(s: Seq<StoredMessageView>, p: spec_fn(StoredMessageView) -> bool)
    requires
        forall|i: int, j: int|
            0 <= i < j < s.len() ==> (#[trigger] s[i]).id < (#[trigger] s[j]).id,
    ensures
        forall|i: int, j: int|
            0 <= i < j < s.filter(p).len() ==> (#[trigger] s.filter(p)[i]).id < (
            #[trigger] s.filter(p)[j]).id,
        forall|i: int| 0 <= i < s.filter(p).len() ==> s.contains(#[trigger] s.filter(p)[i]),
    decreases s.len(),
{
    reveal(Seq::filter);
    if s.len() > 0 {
        let t = s.drop_last();
        lemma_filter_order(t, p);
        assert forall|i: int| 0 <= i < s.filter(p).len() implies s.contains(
            #[trigger] s.filter(p)[i],
        ) by {
            if i < t.filter(p).len() {
                assert(t.contains(t.filter(p)[i]));
                let k = choose|k: int| 0 <= k < t.len() && t[k] == t.filter(p)[i];
                assert(s[k] == s.filter(p)[i]);
            } else {
                assert(s[s.len() - 1] == s.filter(p)[i]);
            }
        }
        assert forall|i: int, j: int| 0 <= i < j < s.filter(p).len() implies (
        #[trigger] s.filter(p)[i]).id < (#[trigger] s.filter(p)[j]).id by {
            if j == t.filter(p).len() {
                assert(t.contains(t.filter(p)[i]));
                let k = choose|k: int| 0 <= k < t.len() && t[k] == t.filter(p)[i];
                assert(s[k].id < s[s.len() - 1].id);
            }
        }
    }
}

/// A write that the store takes leaves it well formed.
pub proof fn law_writes_keep_order(t: TablesView, w: WriteView)
    requires
        t.wf(),
        t.takes(w),
    ensures
        t.after(w).wf(),
{
    let u = t.after(w);
    match w {
        WriteView::DeleteContextUsage { session_id } => {
            let p = |m: StoredMessageView| !m.is_usage_of(session_id);
            lemma_filter_order(t.messages, p);
            assert forall|i: int| 0 <= i < u.messages.len() implies 1 <= (
            #[trigger] u.messages[i]).id <= u.last_id by {
                assert(t.messages.contains(u.messages[i]));
            }
        },
        WriteView::ChangeSession { id, change, now } => {
            assert forall|i: int| 0 <= i < u.sessions.len() implies (
            #[trigger] u.sessions[i]).row.id == t.sessions[i].row.id by {}
        },
        WriteView::InsertMessage(m) => {
            assert forall|i: int, j: int| 0 <= i < j < u.messages.len() implies (
            #[trigger] u.messages[i]).id < (#[trigger] u.messages[j]).id by {
                if j == t.messages.len() {
                    assert(t.messages[i].id <= t.last_id);
                }
            }
        },
        _ => {},
    }
}

proof fn lemma_pref_set(s: Seq<PrefView>, i: int, enabled: bool)
    requires
        distinct_prefs(s),
        0 <= i < s.len(),
    ensures
        pref_map(s.update(i, PrefView { name: s[i].name, enabled }))
            == pref_map(s).insert(s[i].name, enabled),
    decreases s.len(),
{
    let x = PrefView { name: s[i].name, enabled };
    let t = s.update(i, x);
    if i < s.len() - 1 {
        lemma_pref_set(s.drop_last(), i, enabled);
        assert(t.drop_last() =~= s.drop_last().update(i, x));
        assert(s[i].name != s[s.len() - 1].name);
        assert(pref_map(t) =~= pref_map(s).insert(s[i].name, enabled));
    } else {
        assert(t.drop_last() =~= s.drop_last());
        assert(pref_map(t) =~= pref_map(s).insert(s[i].name, enabled));
    }
}

fn set_pref(prefs: &mut Vec<Pref>, name: &str, enabled: bool)
    requires
        distinct_prefs(deep(old(prefs)@)),
    ensures
        distinct_prefs(deep(final(prefs)@)),
        pref_map(deep(final(prefs)@)) == pref_map(deep(old(prefs)@)).insert(name@, enabled),
{
    let ghost s = deep(prefs@);
    let mut i: usize = 0;
    while i < prefs.len()
        invariant
            i <= prefs@.len(),
            s == deep(prefs@),
            s == deep(old(prefs)@),
            distinct_prefs(s),
            forall|k: int| 0 <= k < i ==> (#[trigger] s[k]).name != name@,
        decreases prefs@.len() - i,
    {
        assert(s[i as int] == prefs@[i as int]@);
        if same_text(prefs[i].name.as_str(), name) {
            prefs[i].enabled = enabled;
            proof {
                let x = PrefView { name: s[i as int].name, enabled };
                assert(deep(prefs@) =~= s.update(i as int, x));
                lemma_pref_set(s, i as int, enabled);
                assert forall|a: int, b: int| 0 <= a < b < deep(prefs@).len() implies (
                #[trigger] deep(prefs@)[a]).name != (#[trigger] deep(prefs@)[b]).name by {
                    assert(s[a].name != s[b].name);
                }
            }
            return;
        }
        i += 1;
    }
    let p = Pref { name: name.to_owned(), enabled };
    prefs.push(p);
    proof {
        assert(deep(prefs@).drop_last() =~= s);
        assert forall|a: int, b: int| 0 <= a < b < deep(prefs@).len() implies (
        #[trigger] deep(prefs@)[a]).name != (#[trigger] deep(prefs@)[b]).name by {
            if b < s.len() {
                assert(s[a].name != s[b].name);
            } else {
                assert(s[a].name != name@);
            }
        }
    }
}

fn all_different(v: &Vec<String>) -> (r: bool)
    ensures
        r == forall|a: int, b: int|
            0 <= a < b < deep(v@).len() ==> #[trigger] deep(v@)[a] != #[trigger] deep(v@)[b],
{
    let ghost s = deep(v@);
    let mut i: usize = 0;
    while i < v.len()
        invariant
            i <= v@.len(),
            s == deep(v@),
            forall|a: int, b: int| 0 <= a < b < i ==> #[trigger] s[a] != #[trigger] s[b],
        decreases v@.len() - i,
    {
        let mut k: usize = 0;
        while k < i
            invariant
                k <= i < v@.len(),
                s == deep(v@),
                forall|a: int| 0 <= a < k ==> #[trigger] s[a] != s[i as int],
            decreases i - k,
        {
            assert(s[k as int] == v@[k as int]@);
            assert(s[i as int] == v@[i as int]@);
            if same_text(v[k].as_str(), v[i].as_str()) {
                assert(s[k as int] == s[i as int]);
                return false;
            }
            k += 1;
        }
        i += 1;
    }
    true
}

fn different_prefs(v: &Vec<Pref>) -> (r: bool)
    ensures
        r == distinct_prefs(deep(v@)),
{
    let mut names: Vec<String> = Vec::new();
    let mut i: usize = 0;
    while i < v.len()
        invariant
            i <= v@.len(),
            deep(names@).len() == i,
            forall|k: int| 0 <= k < i ==> #[trigger] deep(names@)[k] == deep(v@)[k].name,
        decreases v@.len() - i,
    {
        assert(deep(v@)[i as int] == v@[i as int]@);
        names.push(v[i].name.clone());
        i += 1;
    }
    let r = all_different(&names);
    proof {
        let s = deep(names@);
        let p = deep(v@);
        if r {
            assert forall|a: int, b: int| 0 <= a < b < p.len() implies (#[trigger] p[a]).name != (
            #[trigger] p[b]).name by {
                assert(s[a] != s[b]);
            }
        } else {
            let (a, b) = choose|a: int, b: int|
                0 <= a < b < s.len() && #[trigger] s[a] == #[trigger] s[b];
            assert(p[a].name == p[b].name);
        }
    }
    r
}

fn change_session(s: &mut SessionRecord, change: &SessionChange, now: &str)
    ensures
        final(s)@ == old(s)@.changed(change@, now@),
{
    s.row.updated_at = now.to_owned();
    match change {
        SessionChange::Status(status) => {
            s.row.status = status.clone();
        },
        SessionChange::Title(title) => {
            s.row.title = Some(title.clone());
        },
        SessionChange::Mode(mode) => {
            s.row.mode = mode.clone();
        },
        SessionChange::Model { provider_id, model } => {
            s.row.provider_id = Some(provider_id.clone());
            s.row.model = Some(model.clone());
        },
        SessionChange::Deleted => {
            s.deleted_at = Some(now.to_owned());
        },
        SessionChange::Touched => {},
    }
}

fn is_usage_of(m: &StoredMessage, session_id: &str) -> (r: bool)
    ensures
        r == m@.is_usage_of(session_id@),
{
    same_text(m.session_id.as_str(), session_id) && same_text(m.type_.as_str(), "context_usage")
}

impl Tables {
    /// Tables with nothing in them.
    pub fn empty() -> (r: Tables)
        ensures
            r@ == (TablesView {
                sessions: Seq::empty(),
                messages: Seq::empty(),
                last_id: 0,
                skills: Map::empty(),
                subagents: Map::empty(),
                runs: Seq::empty(),
            }),
            r.wf(),
    {
        let t = Tables {
            sessions: Vec::new(),
            messages: Vec::new(),
            last_id: 0,
            skills: Vec::new(),
            subagents: Vec::new(),
            runs: Vec::new(),
        };
        assert(t@.sessions =~= Seq::empty());
        assert(t@.messages =~= Seq::empty());
        assert(t@.runs =~= Seq::empty());
        t
    }

    /// Whether the tables are in order.
    pub fn check(&self) -> (r: bool)
        ensures
            r == self.wf(),
    {
        let mut ids: Vec<String> = Vec::new();
        let mut i: usize = 0;
        while i < self.sessions.len()
            invariant
                i <= self.sessions@.len(),
                deep(ids@).len() == i,
                forall|k: int| 0 <= k < i ==> #[trigger] deep(ids@)[k] == self@.sessions[k].row.id,
            decreases self.sessions@.len() - i,
        {
            assert(self@.sessions[i as int] == self.sessions@[i as int]@);
            ids.push(self.sessions[i].row.id.clone());
            i += 1;
        }
        if !all_different(&ids) {
            proof {
                let (a, b) = choose|a: int, b: int|
                    0 <= a < b < deep(ids@).len() && #[trigger] deep(ids@)[a]
                        == #[trigger] deep(ids@)[b];
                assert(self@.sessions[a].row.id == self@.sessions[b].row.id);
            }
            return false;
        }
        assert forall|a: int, b: int| 0 <= a < b < self@.sessions.len() implies (
        #[trigger] self@.sessions[a]).row.id != (#[trigger] self@.sessions[b]).row.id by {
            assert(deep(ids@)[a] != deep(ids@)[b]);
        }
        let mut run_ids: Vec<String> = Vec::new();
        i = 0;
        while i < self.runs.len()
            invariant
                i <= self.runs@.len(),
                deep(run_ids@).len() == i,
                forall|k: int| 0 <= k < i ==> #[trigger] deep(run_ids@)[k] == self@.runs[k].id,
            decreases self.runs@.len() - i,
        {
            assert(self@.runs[i as int] == self.runs@[i as int]@);
            run_ids.push(self.runs[i].id.clone());
            i += 1;
        }
        if !all_different(&run_ids) {
            proof {
                let (a, b) = choose|a: int, b: int|
                    0 <= a < b < deep(run_ids@).len() && #[trigger] deep(run_ids@)[a]
                        == #[trigger] deep(run_ids@)[b];
                assert(self@.runs[a].id == self@.runs[b].id);
            }
            return false;
        }
        assert forall|a: int, b: int| 0 <= a < b < self@.runs.len() implies (
        #[trigger] self@.runs[a]).id != (#[trigger] self@.runs[b]).id by {
            assert(deep(run_ids@)[a] != deep(run_ids@)[b]);
        }
        if self.last_id < 0 {
            return false;
        }
        i = 0;
        while i < self.messages.len()
            invariant
                i <= self.messages@.len(),
                forall|a: int, b: int|
                    0 <= a < b < i ==> (#[trigger] self@.messages[a]).id < (
                    #[trigger] self@.messages[b]).id,
                forall|a: int|
                    0 <= a < i ==> 1 <= (#[trigger] self@.messages[a]).id <= self.last_id,
            decreases self.messages@.len() - i,
        {
            let id: i64 = self.messages[i].id;
            assert(self@.messages[i as int] == self.messages@[i as int]@);
            if id < 1 || id > self.last_id {
                return false;
            }
            if i > 0 {
                assert(self@.messages[i - 1] == self.messages@[i - 1]@);
                if self.messages[i - 1].id >= id {
                    return false;
                }
            }
            i += 1;
        }
        different_prefs(&self.skills) && different_prefs(&self.subagents)
    }

    pub open spec fn wf(&self) -> bool {
        &&& self@.wf()
        &&& distinct_prefs(deep(self.skills@))
        &&& distinct_prefs(deep(self.subagents@))
    }

    /// Carries out a write.
    pub fn apply(&mut self, w: &Write)
        requires
            old(self).wf(),
            old(self)@.takes(w@),
        ensures
            final(self)@ == old(self)@.after(w@),
            final(self).wf(),
    {
        proof {
            law_writes_keep_order(self@, w@);
        }
        let ghost want = self@.after(w@);
        match w {
            Write::CreateSession(row) => {
                self.sessions.push(SessionRecord { row: row.dup(), deleted_at: None });
            },
            Write::ChangeSession { id, change, now } => {
                self.change_sessions(id.as_str(), change, now.as_str());
            },
            Write::SetSkill { name, enabled } => {
                set_pref(&mut self.skills, name.as_str(), *enabled);
            },
            Write::SetSubagent { name, enabled } => {
                set_pref(&mut self.subagents, name.as_str(), *enabled);
            },
            Write::InsertMessage(m) => {
                self.last_id = m.id;
                self.messages.push(m.dup());
            },
            Write::DeleteContextUsage { session_id } => {
                self.delete_usage(session_id.as_str());
            },
            Write::RewindFromId { session_id, from_id, now } => {
                self.rewind_from_id(session_id.as_str(), *from_id, now.as_str());
            },
            Write::RewindFromTurn { session_id, from_turn, now } => {
                self.rewind_from_turn(session_id.as_str(), *from_turn, now.as_str());
            },
            Write::SetMessageContent { row_id, llm_message } => {
                self.set_content(*row_id, llm_message.as_str());
            },
            Write::InsertRun(row) => {
                self.runs.push(row.dup());
            },
            Write::UpdateRun(row) => {
                self.update_run(row);
            },
            Write::FailZombies { now } => {
                self.fail_zombies(now.as_str());
            },
        }
        assert(self@ =~= want);
    }

    fn change_sessions(&mut self, id: &str, change: &SessionChange, now: &str)
        requires
            old(self).wf(),
        ensures
            final(self)@ == old(self)@.after(WriteView::ChangeSession { id: id@, change: change@, now: now@ }),
            final(self).skills == old(self).skills,
            final(self).subagents == old(self).subagents,
    {
        let ghost before = self@;
        let ghost want = self@.after(WriteView::ChangeSession { id: id@, change: change@, now: now@ }).sessions;
        let mut i: usize = 0;
        while i < self.sessions.len()
            invariant
                i <= self.sessions@.len(),
                self.sessions@.len() == before.sessions.len(),
                before == old(self)@,
                want == before.after(WriteView::ChangeSession { id: id@, change: change@, now: now@ }).sessions,
                self@ == (TablesView { sessions: self@.sessions, ..before }),
                self.skills == old(self).skills,
                self.subagents == old(self).subagents,
                forall|k: int| 0 <= k < i ==> #[trigger] self@.sessions[k] == want[k],
                forall|k: int|
                    i <= k < before.sessions.len() ==> #[trigger] self@.sessions[k]
                        == before.sessions[k],
            decreases self.sessions@.len() - i,
        {
            let ghost current = self@.sessions;
            assert(self@.sessions[i as int] == self.sessions@[i as int]@);
            if same_text(self.sessions[i].row.id.as_str(), id) {
                change_session(&mut self.sessions[i], change, now);
            }
            proof {
                assert(self@.sessions[i as int] == want[i as int]);
                assert forall|k: int| 0 <= k < before.sessions.len() && k != i implies
                    #[trigger] self@.sessions[k] == current[k] by {}
            }
            i += 1;
        }
        assert(self@.sessions =~= want);
    }

    fn rewind_from_id(&mut self, session_id: &str, from_id: i64, now: &str)
        requires
            old(self).wf(),
        ensures
            final(self)@ == old(self)@.after(WriteView::RewindFromId { session_id: session_id@, from_id, now: now@ }),
            final(self).skills == old(self).skills,
            final(self).subagents == old(self).subagents,
    {
        let ghost before = self@;
        let ghost want = self@.after(WriteView::RewindFromId { session_id: session_id@, from_id, now: now@ }).messages;
        let mut i: usize = 0;
        while i < self.messages.len()
            invariant
                i <= self.messages@.len(),
                self.messages@.len() == before.messages.len(),
                before == old(self)@,
                want == before.after(WriteView::RewindFromId { session_id: session_id@, from_id, now: now@ }).messages,
                self@ == (TablesView { messages: self@.messages, ..before }),
                self.skills == old(self).skills,
                self.subagents == old(self).subagents,
                forall|k: int| 0 <= k < i ==> #[trigger] self@.messages[k] == want[k],
                forall|k: int|
                    i <= k < before.messages.len() ==> #[trigger] self@.messages[k]
                        == before.messages[k],
            decreases self.messages@.len() - i,
        {
            let ghost current = self@.messages;
            assert(self@.messages[i as int] == self.messages@[i as int]@);
            if same_text(self.messages[i].session_id.as_str(), session_id) && self.messages[i].id >= from_id
                && self.messages[i].rewound_at.is_none() {
                self.messages[i].rewound_at = Some(now.to_owned());
            }
            proof {
                assert(self@.messages[i as int] == want[i as int]);
                assert forall|k: int| 0 <= k < before.messages.len() && k != i implies
                    #[trigger] self@.messages[k] == current[k] by {}
            }
            i += 1;
        }
        assert(self@.messages =~= want);
    }

    fn rewind_from_turn(&mut self, session_id: &str, from_turn: u32, now: &str)
        requires
            old(self).wf(),
        ensures
            final(self)@ == old(self)@.after(WriteView::RewindFromTurn { session_id: session_id@, from_turn, now: now@ }),
            final(self).skills == old(self).skills,
            final(self).subagents == old(self).subagents,
    {
        let ghost before = self@;
        let ghost want = self@.after(WriteView::RewindFromTurn { session_id: session_id@, from_turn, now: now@ }).messages;
        let mut i: usize = 0;
        while i < self.messages.len()
            invariant
                i <= self.messages@.len(),
                self.messages@.len() == before.messages.len(),
                before == old(self)@,
                want == before.after(WriteView::RewindFromTurn { session_id: session_id@, from_turn, now: now@ }).messages,
                self@ == (TablesView { messages: self@.messages, ..before }),
                self.skills == old(self).skills,
                self.subagents == old(self).subagents,
                forall|k: int| 0 <= k < i ==> #[trigger] self@.messages[k] == want[k],
                forall|k: int|
                    i <= k < before.messages.len() ==> #[trigger] self@.messages[k]
                        == before.messages[k],
            decreases self.messages@.len() - i,
        {
            let ghost current = self@.messages;
            assert(self@.messages[i as int] == self.messages@[i as int]@);
            let late = match self.messages[i].turn_count {
                Some(t) => t >= from_turn,
                None => false,
            };
            if same_text(self.messages[i].session_id.as_str(), session_id) && late
                && self.messages[i].rewound_at.is_none() {
                self.messages[i].rewound_at = Some(now.to_owned());
            }
            proof {
                assert(self@.messages[i as int] == want[i as int]);
                assert forall|k: int| 0 <= k < before.messages.len() && k != i implies
                    #[trigger] self@.messages[k] == current[k] by {}
            }
            i += 1;
        }
        assert(self@.messages =~= want);
    }

    fn set_content(&mut self, row_id: i64, llm_message: &str)
        requires
            old(self).wf(),
        ensures
            final(self)@ == old(self)@.after(WriteView::SetMessageContent { row_id, llm_message: llm_message@ }),
            final(self).skills == old(self).skills,
            final(self).subagents == old(self).subagents,
    {
        let ghost before = self@;
        let ghost want = self@.after(WriteView::SetMessageContent { row_id, llm_message: llm_message@ }).messages;
        let mut i: usize = 0;
        while i < self.messages.len()
            invariant
                i <= self.messages@.len(),
                self.messages@.len() == before.messages.len(),
                before == old(self)@,
                want == before.after(WriteView::SetMessageContent { row_id, llm_message: llm_message@ }).messages,
                self@ == (TablesView { messages: self@.messages, ..before }),
                self.skills == old(self).skills,
                self.subagents == old(self).subagents,
                forall|k: int| 0 <= k < i ==> #[trigger] self@.messages[k] == want[k],
                forall|k: int|
                    i <= k < before.messages.len() ==> #[trigger] self@.messages[k]
                        == before.messages[k],
            decreases self.messages@.len() - i,
        {
            let ghost current = self@.messages;
            assert(self@.messages[i as int] == self.messages@[i as int]@);
            if self.messages[i].id == row_id {
                self.messages[i].llm_message = llm_message.to_owned();
            }
            proof {
                assert(self@.messages[i as int] == want[i as int]);
                assert forall|k: int| 0 <= k < before.messages.len() && k != i implies
                    #[trigger] self@.messages[k] == current[k] by {}
            }
            i += 1;
        }
        assert(self@.messages =~= want);
    }

    fn update_run(&mut self, row: &RunRow)
        requires
            old(self).wf(),
        ensures
            final(self)@ == old(self)@.after(WriteView::UpdateRun(row@)),
            final(self).skills == old(self).skills,
            final(self).subagents == old(self).subagents,
    {
        let ghost before = self@;
        let ghost want = self@.after(WriteView::UpdateRun(row@)).runs;
        let mut i: usize = 0;
        while i < self.runs.len()
            invariant
                i <= self.runs@.len(),
                self.runs@.len() == before.runs.len(),
                before == old(self)@,
                want == before.after(WriteView::UpdateRun(row@)).runs,
                self@ == (TablesView { runs: self@.runs, ..before }),
                self.skills == old(self).skills,
                self.subagents == old(self).subagents,
                forall|k: int| 0 <= k < i ==> #[trigger] self@.runs[k] == want[k],
                forall|k: int|
                    i <= k < before.runs.len() ==> #[trigger] self@.runs[k]
                        == before.runs[k],
            decreases self.runs@.len() - i,
        {
            let ghost current = self@.runs;
            assert(self@.runs[i as int] == self.runs@[i as int]@);
            if same_text(self.runs[i].id.as_str(), row.id.as_str()) {
                let mut new_row = row.dup();
                new_row.session_id = self.runs[i].session_id.clone();
                new_row.created_at = self.runs[i].created_at.clone();
                self.runs[i] = new_row;
            }
            proof {
                assert(self@.runs[i as int] == want[i as int]);
                assert forall|k: int| 0 <= k < before.runs.len() && k != i implies
                    #[trigger] self@.runs[k] == current[k] by {}
            }
            i += 1;
        }
        assert(self@.runs =~= want);
    }

    fn fail_zombies(&mut self, now: &str)
        requires
            old(self).wf(),
        ensures
            final(self)@ == old(self)@.after(WriteView::FailZombies { now: now@ }),
            final(self).skills == old(self).skills,
            final(self).subagents == old(self).subagents,
    {
        let ghost before = self@;
        let ghost want = self@.after(WriteView::FailZombies { now: now@ }).runs;
        let mut i: usize = 0;
        while i < self.runs.len()
            invariant
                i <= self.runs@.len(),
                self.runs@.len() == before.runs.len(),
                before == old(self)@,
                want == before.after(WriteView::FailZombies { now: now@ }).runs,
                self@ == (TablesView { runs: self@.runs, ..before }),
                self.skills == old(self).skills,
                self.subagents == old(self).subagents,
                forall|k: int| 0 <= k < i ==> #[trigger] self@.runs[k] == want[k],
                forall|k: int|
                    i <= k < before.runs.len() ==> #[trigger] self@.runs[k]
                        == before.runs[k],
            decreases self.runs@.len() - i,
        {
            let ghost current = self@.runs;
            assert(self@.runs[i as int] == self.runs@[i as int]@);
            if same_text(self.runs[i].status.as_str(), "planning")
                || same_text(self.runs[i].status.as_str(), "running") {
                self.runs[i].status = "failed".to_owned();
                self.runs[i].updated_at = now.to_owned();
            }
            proof {
                assert(self@.runs[i as int] == want[i as int]);
                assert forall|k: int| 0 <= k < before.runs.len() && k != i implies
                    #[trigger] self@.runs[k] == current[k] by {}
            }
            i += 1;
        }
        assert(self@.runs =~= want);
    }

    fn delete_usage(&mut self, session_id: &str)
        requires
            old(self).wf(),
        ensures
            final(self)@ == old(self)@.after(
                WriteView::DeleteContextUsage { session_id: session_id@ },
            ),
            final(self).skills == old(self).skills,
            final(self).subagents == old(self).subagents,
    {
        let ghost before = self@;
        let ghost all = self@.messages;
        let ghost keep = |m: StoredMessageView| !m.is_usage_of(session_id@);
        let ghost mut done: int = 0;
        let mut i: usize = 0;
        proof {
            assert(all.take(0).filter(keep) =~= Seq::empty()) by {
                reveal(Seq::filter);
            }
            assert(self@.messages =~= all.take(0).filter(keep) + all.skip(0));
        }
        while i < self.messages.len()
            invariant
                before == old(self)@,
                all == before.messages,
                keep == (|m: StoredMessageView| !m.is_usage_of(session_id@)),
                0 <= done <= all.len(),
                i == all.take(done).filter(keep).len(),
                self@ == (TablesView { messages: self@.messages, ..before }),
                self.skills == old(self).skills,
                self.subagents == old(self).subagents,
                self@.messages == all.take(done).filter(keep) + all.skip(done),
            decreases all.len() - done,
        {
            let ghost head = all.take(done).filter(keep);
            let ghost now = self@.messages;
            proof {
                assert(self@.messages.len() == head.len() + (all.len() - done));
                assert(self@.messages[i as int] == all[done]);
                assert(self@.messages[i as int] == self.messages@[i as int]@);
                crate::text::lemma_take_next(all, done);
                all.take(done).lemma_filter_push(all[done], keep);
            }
            if is_usage_of(&self.messages[i], session_id) {
                self.messages.remove(i);
                proof {
                    assert(!keep(all[done]));
                    assert(self@.messages =~= now.remove(i as int));
                    assert(self@.messages =~= head + all.skip(done + 1));
                    done = done + 1;
                }
            } else {
                i += 1;
                proof {
                    assert(keep(all[done]));
                    assert(self@.messages =~= head.push(all[done]) + all.skip(done + 1));
                    done = done + 1;
                }
            }
        }
        proof {
            assert(all.skip(done) =~= Seq::empty());
            assert(all.take(done) =~= all);
            assert(self@.messages =~= all.filter(keep));
        }
    }
}

} // verus!
