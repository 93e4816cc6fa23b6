//! The store of sessions, messages and runs.
//!
//! The store answers from its tables and keeps a list of the writes that have not
//! been carried over to the disk yet. [`AgentDb::take_writes`] hands that list out.

use vstd::prelude::*;
use vstd::string::*;
use crate::agent_bridge::order::{
    law_newest_order, lemma_order_reaches, newest_order, order_newest, positions, text_less,
};
use crate::agent_bridge::rows::{
    AgentDbError, AgentDbErrorView, RunRow, SessionChange, SessionChangeView, SessionRecordView,
    SessionRow, SessionRowView, StoredMessage, Write, WriteView,
};
use crate::agent_bridge::tables::{distinct_prefs, pref_map, Pref, PrefView, Tables, TablesView};
use crate::text::{
    deep, dup_vec, first_where, is_first, lemma_deep_push, lemma_filtered, lemma_first,
    lemma_no_first, lemma_take_next, opt, same_text, Dup,
};

verus! {

broadcast use lemma_deep_push;

/// The store.
pub struct AgentDb {
    tables: Tables,
    pending: Vec<Write>,
    saved: Ghost<TablesView>,
}

/// The tables after a list of writes.
pub open spec fn replay(t: TablesView, ws: Seq<WriteView>) -> TablesView
    decreases ws.len(),
{
    if ws.len() == 0 {
        t
    } else {
        replay(t, ws.drop_last()).after(ws.last())
    }
}

impl View for AgentDb {
    type V = TablesView;

    closed spec fn view(&self) -> TablesView {
        self.tables@
    }
}

/// The error of an operation that failed.
pub open spec fn error_of<T>(r: Result<T, AgentDbError>) -> Option<AgentDbErrorView> {
    match r {
        Ok(_) => None,
        Err(e) => Some(e@),
    }
}

/// The session with an id.
pub open spec fn session_with_id(t: TablesView, id: Seq<char>) -> Option<SessionRowView> {
    match first_where(t.sessions.len() as int, |i: int| t.sessions[i].row.id == id) {
        Some(i) => Some(t.sessions[i].row),
        None => None,
    }
}

/// The rows, the one that was changed last first.
pub open spec fn newest_sessions(rows: Seq<SessionRowView>) -> Seq<SessionRowView> {
    let stamps = Seq::new(rows.len(), |i: int| rows[i].updated_at);
    Seq::new(rows.len(), |k: int| rows[newest_order(stamps)[k]])
}

pub open spec fn rows_of(s: Seq<SessionRecordView>) -> Seq<SessionRowView> {
    Seq::new(s.len(), |i: int| s[i].row)
}

/// The sessions that were not deleted.
pub open spec fn live_sessions(t: TablesView) -> Seq<SessionRowView> {
    rows_of(t.sessions.filter(|s: SessionRecordView| s.deleted_at is None))
}

/// The sessions that are active in a folder.
pub open spec fn active_sessions(t: TablesView, folder: Seq<char>) -> Seq<SessionRowView> {
    rows_of(
        t.sessions.filter(
            |s: SessionRecordView|
                s.row.folder == folder && s.row.status == "active"@ && s.deleted_at is None,
        ),
    )
}

fn sort_sessions(rows: Vec<SessionRow>) -> (r: Vec<SessionRow>)
    ensures
        deep(r@) == newest_sessions(deep(rows@)),
{
    let ghost all = deep(rows@);
    let ghost want = Seq::new(all.len(), |i: int| all[i].updated_at);
    let mut stamps: Vec<String> = Vec::new();
    let mut i: usize = 0;
    assert(deep(stamps@) =~= want.take(0));
    while i < rows.len()
        invariant
            i <= rows@.len(),
            all == deep(rows@),
            want == Seq::new(all.len(), |i: int| all[i].updated_at),
            deep(stamps@) == want.take(i as int),
        decreases rows@.len() - i,
    {
        let s = rows[i].updated_at.clone();
        proof {
            assert(all[i as int] == rows@[i as int]@);
            lemma_take_next(want, i as int);
        }
        stamps.push(s);
        i += 1;
    }
    assert(want.take(i as int) =~= want);
    let order = order_newest(&stamps);
    let mut out: Vec<SessionRow> = Vec::new();
    let mut k: usize = 0;
    while k < order.len()
        invariant
            k <= order@.len(),
            all == deep(rows@),
            order@.len() == rows@.len(),
            forall|k: int| 0 <= k < order@.len() ==> (#[trigger] order@[k]) < rows@.len(),
            deep(out@).len() == k,
            forall|j: int| 0 <= j < k ==> #[trigger] deep(out@)[j] == all[order@[j] as int],
        decreases order@.len() - k,
    {
        let p: usize = order[k];
        let row = rows[p].dup();
        assert(row@ == all[order@[k as int] as int]);
        out.push(row);
        k += 1;
    }
    proof {
        assert forall|j: int| 0 <= j < all.len() implies #[trigger] deep(out@)[j]
            == all[newest_order(want)[j]] by {
            assert(positions(order@)[j] == order@[j] as int);
        }
        assert(deep(out@) =~= newest_sessions(all));
    }
    out
}

impl AgentDb {
    /// The writes that are not on the disk yet.
    pub closed spec fn pending(&self) -> Seq<WriteView> {
        deep(self.pending@)
    }

    /// What is on the disk once everything that was handed out has been written.
    pub closed spec fn saved(&self) -> TablesView {
        self.saved@
    }

    /// The tables are in order, and the disk lags behind them by the pending writes.
    pub closed spec fn wf(&self) -> bool {
        &&& self.tables.wf()
        &&& replay(self.saved@, deep(self.pending@)) == self.tables@
    }

    /// What every store keeps.
    pub proof fn law_store(&self)
        requires
            self.wf(),
        ensures
            self@.wf(),
            replay(self.saved(), self.pending()) == self@,
    {
    }

    /// A store with nothing in it.
    pub fn new() -> (r: AgentDb)
        ensures
            r.wf(),
            r.pending() == Seq::<WriteView>::empty(),
            r.saved() == r@,
            r@ == (TablesView {
                sessions: Seq::empty(),
                messages: Seq::empty(),
                last_id: 0,
                skills: Map::empty(),
                subagents: Map::empty(),
                runs: Seq::empty(),
            }),
    {
        let tables = Tables::empty();
        let ghost t = tables@;
        let pending: Vec<Write> = Vec::new();
        assert(deep(pending@) =~= Seq::<WriteView>::empty());
        AgentDb { tables, pending, saved: Ghost(t) }
    }

    /// A store with what was read from the disk; `None` where that is not in order.
    pub fn load(tables: Tables) -> (r: Option<AgentDb>)
        ensures
            match r {
                Some(db) => tables.wf() && db.wf() && db@ == tables@ && db.pending() == Seq::<
                    WriteView,
                >::empty() && db.saved() == db@,
                None => !tables.wf(),
            },
    {
        if !tables.check() {
            return None;
        }
        let ghost t = tables@;
        let pending: Vec<Write> = Vec::new();
        assert(deep(pending@) =~= Seq::<WriteView>::empty());
        Some(AgentDb { tables, pending, saved: Ghost(t) })
    }

    /// The version of the schema.
    pub fn schema_version(&self) -> (r: Result<i32, AgentDbError>)
        ensures
            r matches Ok(v) && v == 1,
    {
        Ok(1)
    }

    /// Hands out the writes that are to be carried over to the disk, in order.
    pub fn take_writes(&mut self) -> (r: Vec<Write>)
        requires
            old(self).wf(),
        ensures
            final(self).wf(),
            final(self)@ == old(self)@,
            deep(r@) == old(self).pending(),
            final(self).pending() == Seq::<WriteView>::empty(),
            final(self).saved() == old(self)@,
            replay(old(self).saved(), deep(r@)) == final(self).saved(),
    {
        let ghost t = self.tables@;
        let writes = dup_vec(&self.pending);
        self.pending = Vec::new();
        self.saved = Ghost(t);
        assert(deep(self.pending@) =~= Seq::<WriteView>::empty());
        writes
    }

    /// The messages, in the order of their ids.
    pub(crate) fn messages(&self) -> (r: &Vec<StoredMessage>)
        ensures
            deep(r@) == self@.messages,
    {
        &self.tables.messages
    }

    /// The id that was given out last.
    pub(crate) fn last_id(&self) -> (r: i64)
        ensures
            r == self@.last_id,
    {
        self.tables.last_id
    }

    /// The runs, in the order in which they were made.
    pub(crate) fn runs(&self) -> (r: &Vec<RunRow>)
        ensures
            deep(r@) == self@.runs,
    {
        &self.tables.runs
    }

    /// Carries out a write, and notes it for the disk.
    pub(crate) fn write(&mut self, w: Write)
        requires
            old(self).wf(),
            old(self)@.takes(w@),
        ensures
            final(self).wf(),
            final(self)@ == old(self)@.after(w@),
            final(self).saved() == old(self).saved(),
            final(self).pending() == old(self).pending().push(w@),
    {
        self.tables.apply(&w);
        let ghost ws = deep(self.pending@);
        self.pending.push(w);
        assert(deep(self.pending@).drop_last() =~= ws);
    }

    // ── Sessions ──

    /// Makes a session.
    pub fn create_session(
        &mut self,
        id: &str,
        folder: &str,
        mode: &str,
        title: Option<&str>,
        parent_session_id: Option<&str>,
        provider_id: Option<&str>,
        model: Option<&str>,
        now: &str,
    ) -> (r: Result<(), AgentDbError>)
        requires
            old(self).wf(),
        ensures
            final(self).wf(),
            final(self).saved() == old(self).saved(),
            old(self)@.has_session(id@) ==> final(self)@ == old(self)@ && error_of(r) == Some(
                AgentDbErrorView::Sqlite("UNIQUE constraint failed: sessions.id"@),
            ),
            !old(self)@.has_session(id@) ==> r is Ok && final(self)@ == old(self)@.after(
                WriteView::CreateSession(
                    SessionRowView {
                        id: id@,
                        folder: folder@,
                        mode: mode@,
                        title: opt(title),
                        parent_session_id: opt(parent_session_id),
                        created_at: now@,
                        updated_at: now@,
                        status: "idle"@,
                        provider_id: opt(provider_id),
                        model: opt(model),
                    },
                ),
            ),
    {
        if self.find_session(id).is_some() {
            return Err(AgentDbError::Sqlite("UNIQUE constraint failed: sessions.id".to_owned()));
        }
        let row = SessionRow {
            id: id.to_owned(),
            folder: folder.to_owned(),
            mode: mode.to_owned(),
            title: owned(title),
            parent_session_id: owned(parent_session_id),
            created_at: now.to_owned(),
            updated_at: now.to_owned(),
            status: "idle".to_owned(),
            provider_id: owned(provider_id),
            model: owned(model),
        };
        self.write(Write::CreateSession(row));
        Ok(())
    }

    fn find_session(&self, id: &str) -> (r: Option<usize>)
        requires
            self.wf(),
        ensures
            match r {
                Some(i) => i < self@.sessions.len() && first_where(
                    self@.sessions.len() as int,
                    |i: int| self@.sessions[i].row.id == id@,
                ) == Some(i as int) && self@.has_session(id@),
                None => first_where(
                    self@.sessions.len() as int,
                    |i: int| self@.sessions[i].row.id == id@,
                ) is None && !self@.has_session(id@),
            },
    {
        let ghost all = self@.sessions;
        let ghost hit = |i: int| self@.sessions[i].row.id == id@;
        let mut i: usize = 0;
        while i < self.tables.sessions.len()
            invariant
                i <= self.tables.sessions@.len(),
                all == self@.sessions,
                all.len() == self.tables.sessions@.len(),
                hit == (|i: int| self@.sessions[i].row.id == id@),
                forall|k: int| 0 <= k < i ==> !#[trigger] hit(k),
            decreases self.tables.sessions@.len() - i,
        {
            assert(all[i as int] == self.tables.sessions@[i as int]@);
            if same_text(self.tables.sessions[i].row.id.as_str(), id) {
                proof {
                    assert(hit(i as int));
                    lemma_first(all.len() as int, hit, i as int);
                }
                return Some(i);
            }
            assert(!hit(i as int));
            i += 1;
        }
        proof {
            lemma_no_first(all.len() as int, hit);
            assert forall|k: int| 0 <= k < all.len() implies (#[trigger] all[k]).row.id != id@ by {
                assert(!hit(k));
            }
        }
        None
    }

    /// The session with an id, deleted or not.
    pub fn get_session(&self, id: &str) -> (r: Result<Option<SessionRow>, AgentDbError>)
        requires
            self.wf(),
        ensures
            r matches Ok(o) && opt(o) == session_with_id(self@, id@),
    {
        match self.find_session(id) {
            Some(i) => {
                assert(self@.sessions[i as int] == self.tables.sessions@[i as int]@);
                Ok(Some(self.tables.sessions[i].row.dup()))
            },
            None => Ok(None),
        }
    }

    /// The sessions that were not deleted, the one that was changed last first.
    pub fn list_sessions(&self) -> (r: Result<Vec<SessionRow>, AgentDbError>)
        requires
            self.wf(),
        ensures
            r matches Ok(v) && deep(v@) == newest_sessions(live_sessions(self@)),
    {
        let ghost all = self@.sessions;
        let ghost live = |s: SessionRecordView| s.deleted_at is None;
        let mut out: Vec<SessionRow> = Vec::new();
        let mut i: usize = 0;
        proof {
            reveal(Seq::filter);
            assert(all.take(0).filter(live) =~= Seq::empty());
            assert(deep(out@) =~= rows_of(all.take(0).filter(live)));
        }
        while i < self.tables.sessions.len()
            invariant
                i <= self.tables.sessions@.len(),
                all == self@.sessions,
                all.len() == self.tables.sessions@.len(),
                live == (|s: SessionRecordView| s.deleted_at is None),
                deep(out@) == rows_of(all.take(i as int).filter(live)),
            decreases self.tables.sessions@.len() - i,
        {
            proof {
                assert(all[i as int] == self.tables.sessions@[i as int]@);
                lemma_take_next(all, i as int);
                all.take(i as int).lemma_filter_push(all[i as int], live);
            }
            if self.tables.sessions[i].deleted_at.is_none() {
                let row = self.tables.sessions[i].row.dup();
                out.push(row);
            }
            i += 1;
            assert(deep(out@) =~= rows_of(all.take(i as int).filter(live)));
        }
        assert(all.take(i as int) =~= all);
        Ok(sort_sessions(out))
    }

    /// The session that is active in a folder; of several the one that was changed
    /// last.
    pub fn active_session_for_folder(&self, folder: &str) -> (r: Result<Option<String>, AgentDbError>)
        requires
            self.wf(),
        ensures
            r matches Ok(o) && opt(o) == ({
                let rows = newest_sessions(active_sessions(self@, folder@));
                if rows.len() > 0 { Some(rows[0].id) } else { None }
            }),
    {
        let ghost all = self@.sessions;
        let ghost fits = |s: SessionRecordView|
            s.row.folder == folder@ && s.row.status == "active"@ && s.deleted_at is None;
        let mut out: Vec<SessionRow> = Vec::new();
        let mut i: usize = 0;
        proof {
            reveal(Seq::filter);
            assert(all.take(0).filter(fits) =~= Seq::empty());
            assert(deep(out@) =~= rows_of(all.take(0).filter(fits)));
        }
        while i < self.tables.sessions.len()
            invariant
                i <= self.tables.sessions@.len(),
                all == self@.sessions,
                all.len() == self.tables.sessions@.len(),
                fits == (|s: SessionRecordView|
                    s.row.folder == folder@ && s.row.status == "active"@ && s.deleted_at is None),
                deep(out@) == rows_of(all.take(i as int).filter(fits)),
            decreases self.tables.sessions@.len() - i,
        {
            let s = &self.tables.sessions[i];
            proof {
                assert(all[i as int] == s@);
                lemma_take_next(all, i as int);
                all.take(i as int).lemma_filter_push(all[i as int], fits);
            }
            if same_text(s.row.folder.as_str(), folder) && same_text(s.row.status.as_str(), "active")
                && s.deleted_at.is_none() {
                out.push(s.row.dup());
            }
            i += 1;
            assert(deep(out@) =~= rows_of(all.take(i as int).filter(fits)));
        }
        assert(all.take(i as int) =~= all);
        let rows = sort_sessions(out);
        if rows.len() > 0 {
            assert(deep(rows@)[0] == rows@[0]@);
            Ok(Some(rows[0].id.clone()))
        } else {
            Ok(None)
        }
    }

    fn change_session(&mut self, id: &str, change: SessionChange, now: &str)
        requires
            old(self).wf(),
        ensures
            final(self).wf(),
            final(self).saved() == old(self).saved(),
            final(self)@ == old(self)@.after(
                WriteView::ChangeSession { id: id@, change: change@, now: now@ },
            ),
    {
        self.write(Write::ChangeSession { id: id.to_owned(), change, now: now.to_owned() });
    }

    pub fn set_session_status(&mut self, id: &str, status: &str, now: &str) -> (r: Result<
        (),
        AgentDbError,
    >)
        requires
            old(self).wf(),
        ensures
            final(self).wf(),
            final(self).saved() == old(self).saved(),
            r is Ok,
            final(self)@ == old(self)@.after(
                WriteView::ChangeSession {
                    id: id@,
                    change: SessionChangeView::Status(status@),
                    now: now@,
                },
            ),
    {
        self.change_session(id, SessionChange::Status(status.to_owned()), now);
        Ok(())
    }

    /// Takes a session out of sight. Its messages stay.
    pub fn delete_session(&mut self, id: &str, now: &str) -> (r: Result<(), AgentDbError>)
        requires
            old(self).wf(),
        ensures
            final(self).wf(),
            final(self).saved() == old(self).saved(),
            r is Ok,
            final(self)@ == old(self)@.after(
                WriteView::ChangeSession { id: id@, change: SessionChangeView::Deleted, now: now@ },
            ),
    {
        self.change_session(id, SessionChange::Deleted, now);
        Ok(())
    }

    pub fn set_session_title(&mut self, id: &str, title: &str, now: &str) -> (r: Result<
        (),
        AgentDbError,
    >)
        requires
            old(self).wf(),
        ensures
            final(self).wf(),
            final(self).saved() == old(self).saved(),
            r is Ok,
            final(self)@ == old(self)@.after(
                WriteView::ChangeSession {
                    id: id@,
                    change: SessionChangeView::Title(title@),
                    now: now@,
                },
            ),
    {
        self.change_session(id, SessionChange::Title(title.to_owned()), now);
        Ok(())
    }

    /// Has a session go on with another model.
    pub fn set_session_model(&mut self, id: &str, provider_id: &str, model: &str, now: &str) -> (r:
        Result<(), AgentDbError>)
        requires
            old(self).wf(),
        ensures
            final(self).wf(),
            final(self).saved() == old(self).saved(),
            r is Ok,
            final(self)@ == old(self)@.after(
                WriteView::ChangeSession {
                    id: id@,
                    change: SessionChangeView::Model { provider_id: provider_id@, model: model@ },
                    now: now@,
                },
            ),
    {
        let change = SessionChange::Model {
            provider_id: provider_id.to_owned(),
            model: model.to_owned(),
        };
        self.change_session(id, change, now);
        Ok(())
    }

    pub fn set_session_mode(&mut self, id: &str, mode: &str, now: &str) -> (r: Result<
        (),
        AgentDbError,
    >)
        requires
            old(self).wf(),
        ensures
            final(self).wf(),
            final(self).saved() == old(self).saved(),
            r is Ok,
            final(self)@ == old(self)@.after(
                WriteView::ChangeSession {
                    id: id@,
                    change: SessionChangeView::Mode(mode@),
                    now: now@,
                },
            ),
    {
        self.change_session(id, SessionChange::Mode(mode.to_owned()), now);
        Ok(())
    }

    /// Makes a session the one that was changed last.
    pub fn touch_session(&mut self, id: &str, now: &str) -> (r: Result<(), AgentDbError>)
        requires
            old(self).wf(),
        ensures
            final(self).wf(),
            final(self).saved() == old(self).saved(),
            r is Ok,
            final(self)@ == old(self)@.after(
                WriteView::ChangeSession { id: id@, change: SessionChangeView::Touched, now: now@ },
            ),
    {
        self.change_session(id, SessionChange::Touched, now);
        Ok(())
    }

    // ── Skills and subagents ──

    pub fn set_skill_enabled(&mut self, name: &str, enabled: bool) -> (r: Result<(), AgentDbError>)
        requires
            old(self).wf(),
        ensures
            final(self).wf(),
            final(self).saved() == old(self).saved(),
            r is Ok,
            final(self)@ == old(self)@.after(WriteView::SetSkill { name: name@, enabled }),
    {
        self.write(Write::SetSkill { name: name.to_owned(), enabled });
        Ok(())
    }

    pub fn set_subagent_enabled(&mut self, name: &str, enabled: bool) -> (r: Result<
        (),
        AgentDbError,
    >)
        requires
            old(self).wf(),
        ensures
            final(self).wf(),
            final(self).saved() == old(self).saved(),
            r is Ok,
            final(self)@ == old(self)@.after(WriteView::SetSubagent { name: name@, enabled }),
    {
        self.write(Write::SetSubagent { name: name.to_owned(), enabled });
        Ok(())
    }

    /// The skills that are switched off, each once.
    pub fn load_disabled_skills(&self) -> (r: Result<Vec<String>, AgentDbError>)
        requires
            self.wf(),
        ensures
            r matches Ok(v) && lists_disabled(deep(v@), self@.skills),
    {
        Ok(disabled(&self.tables.skills))
    }

    /// The subagents that are switched off, each once.
    pub fn load_disabled_subagents(&self) -> (r: Result<Vec<String>, AgentDbError>)
        requires
            self.wf(),
        ensures
            r matches Ok(v) && lists_disabled(deep(v@), self@.subagents),
    {
        Ok(disabled(&self.tables.subagents))
    }
}

fn owned(o: Option<&str>) -> (r: Option<String>)
    ensures
        opt(r) == opt(o),
{
    match o {
        Some(s) => Some(s.to_owned()),
        None => None,
    }
}

/// Exactly the names that are switched off, each once.
pub open spec fn lists_disabled(names: Seq<Seq<char>>, prefs: Map<Seq<char>, bool>) -> bool {
    &&& names.no_duplicates()
    &&& forall|n: Seq<char>| #[trigger]
        names.contains(n) <==> prefs.dom().contains(n) && !prefs[n]
}

proof fn lemma_pref_at(s: Seq<PrefView>, i: int)
    requires
        distinct_prefs(s),
        0 <= i < s.len(),
    ensures
        pref_map(s).dom().contains(s[i].name),
        pref_map(s)[s[i].name] == s[i].enabled,
    decreases s.len(),
{
    if i < s.len() - 1 {
        lemma_pref_at(s.drop_last(), i);
        assert(s[i].name != s[s.len() - 1].name);
    }
}

proof fn lemma_pref_in(s: Seq<PrefView>, n: Seq<char>)
    requires
        pref_map(s).dom().contains(n),
    ensures
        exists|i: int| 0 <= i < s.len() && (#[trigger] s[i]).name == n,
    decreases s.len(),
{
    if s.len() > 0 {
        if s.last().name == n {
            assert(s[s.len() - 1].name == n);
        } else {
            lemma_pref_in(s.drop_last(), n);
            let i = choose|i: int|
                0 <= i < s.drop_last().len() && (#[trigger] s.drop_last()[i]).name == n;
            assert(s[i].name == n);
        }
    }
}

fn disabled(prefs: &Vec<Pref>) -> (r: Vec<String>)
    requires
        distinct_prefs(deep(prefs@)),
    ensures
        lists_disabled(deep(r@), pref_map(deep(prefs@))),
{
    let ghost all = deep(prefs@);
    let ghost m = pref_map(all);
    let mut out: Vec<String> = Vec::new();
    let mut i: usize = 0;
    while i < prefs.len()
        invariant
            i <= prefs@.len(),
            all == deep(prefs@),
            distinct_prefs(all),
            deep(out@).no_duplicates(),
            forall|k: int|
                0 <= k < deep(out@).len() ==> exists|j: int|
                    0 <= j < i && (#[trigger] all[j]).name == #[trigger] deep(out@)[k]
                        && !all[j].enabled,
            forall|j: int|
                0 <= j < i && !(#[trigger] all[j]).enabled ==> deep(out@).contains(all[j].name),
        decreases prefs@.len() - i,
    {
        assert(all[i as int] == prefs@[i as int]@);
        let ghost o = deep(out@);
        if !prefs[i].enabled {
            let n = prefs[i].name.clone();
            proof {
                assert forall|k: int| 0 <= k < o.len() implies #[trigger] o[k] != n@ by {
                    let j = choose|j: int|
                        0 <= j < i && (#[trigger] all[j]).name == o[k] && !all[j].enabled;
                    assert(all[j].name != all[i as int].name);
                }
            }
            out.push(n);
            proof {
                assert forall|k: int| 0 <= k < deep(out@).len() implies exists|j: int|
                    0 <= j < i + 1 && (#[trigger] all[j]).name == #[trigger] deep(out@)[k]
                        && !all[j].enabled by {
                    if k < o.len() {
                        assert(o[k] == deep(out@)[k]);
                        let j = choose|j: int|
                            0 <= j < i && (#[trigger] all[j]).name == o[k] && !all[j].enabled;
                        assert(all[j].name == deep(out@)[k]);
                    } else {
                        assert(all[i as int].name == deep(out@)[k]);
                    }
                }
                assert forall|j: int| 0 <= j < i + 1 && !(#[trigger] all[j]).enabled implies deep(
                    out@,
                ).contains(all[j].name) by {
                    if j < i {
                        assert(o.contains(all[j].name));
                        let k = choose|k: int| 0 <= k < o.len() && o[k] == all[j].name;
                        assert(deep(out@)[k] == all[j].name);
                    } else {
                        assert(deep(out@)[o.len() as int] == all[j].name);
                    }
                }
            }
        }
        i += 1;
    }
    proof {
        let names = deep(out@);
        assert forall|n: Seq<char>| #[trigger] names.contains(n) <==> m.dom().contains(n) && !m[n] by {
            if names.contains(n) {
                let k = choose|k: int| 0 <= k < names.len() && names[k] == n;
                let j = choose|j: int|
                    0 <= j < all.len() && (#[trigger] all[j]).name == names[k] && !all[j].enabled;
                lemma_pref_at(all, j);
            }
            if m.dom().contains(n) && !m[n] {
                lemma_pref_in(all, n);
                let j = choose|j: int| 0 <= j < all.len() && (#[trigger] all[j]).name == n;
                lemma_pref_at(all, j);
            }
        }
    }
    out
}

// ── Laws ──

/// The list of sessions holds every session once, and none before one that was
/// changed later.
pub proof fn law_newest_sessions(rows: Seq<SessionRowView>)
    ensures
        newest_sessions(rows).len() == rows.len(),
        forall|i: int| 0 <= i < rows.len() ==> newest_sessions(rows).contains(#[trigger] rows[i]),
        forall|a: int, b: int|
            0 <= a < b < rows.len() ==> !text_less(
                (#[trigger] newest_sessions(rows)[a]).updated_at,
                (#[trigger] newest_sessions(rows)[b]).updated_at,
            ),
{
    let stamps = Seq::new(rows.len(), |i: int| rows[i].updated_at);
    law_newest_order(stamps);
    let order = newest_order(stamps);
    assert forall|i: int| 0 <= i < rows.len() implies newest_sessions(rows).contains(
        #[trigger] rows[i],
    ) by {
        lemma_order_reaches(stamps, i);
        let k = choose|k: int| 0 <= k < order.len() && order[k] == i;
        assert(newest_sessions(rows)[k] == rows[i]);
    }
    assert forall|a: int, b: int| 0 <= a < b < rows.len() implies !text_less(
        (#[trigger] newest_sessions(rows)[a]).updated_at,
        (#[trigger] newest_sessions(rows)[b]).updated_at,
    ) by {
        assert(!text_less(stamps[order[a]], stamps[order[b]]));
    }
}

/// A session that was deleted is not listed any more, and is still found by its id.
pub proof fn law_deleted_session_is_hidden(t: TablesView, id: Seq<char>, now: Seq<char>)
    requires
        t.wf(),
        t.has_session(id),
    ensures
        ({
            let u = t.after(
                WriteView::ChangeSession { id, change: SessionChangeView::Deleted, now },
            );
            &&& forall|i: int|
                0 <= i < live_sessions(u).len() ==> (#[trigger] live_sessions(u)[i]).id != id
            &&& session_with_id(u, id) is Some
        }),
{
    let u = t.after(WriteView::ChangeSession { id, change: SessionChangeView::Deleted, now });
    let live = |s: SessionRecordView| s.deleted_at is None;
    let kept = u.sessions.filter(live);
    lemma_filtered(u.sessions, live);
    assert forall|i: int| 0 <= i < live_sessions(u).len() implies (
    #[trigger] live_sessions(u)[i]).id != id by {
        assert(live(kept[i]));
        assert(u.sessions.contains(kept[i]));
        let k = choose|k: int| 0 <= k < u.sessions.len() && u.sessions[k] == kept[i];
        if t.sessions[k].row.id == id {
            assert(u.sessions[k].deleted_at is Some);
        }
    }
    let i = choose|i: int| 0 <= i < t.sessions.len() && (#[trigger] t.sessions[i]).row.id == id;
    let hit = |k: int| u.sessions[k].row.id == id;
    assert(hit(i));
    assert forall|j: int| 0 <= j < i implies !#[trigger] hit(j) by {
        assert(t.sessions[j].row.id != t.sessions[i].row.id);
    }
    assert(is_first(u.sessions.len() as int, hit, i));
    lemma_first(u.sessions.len() as int, hit, i);
}

/// A session that was made is found by its id, as it was made.
pub proof fn law_created_session_is_found(t: TablesView, row: SessionRowView)
    requires
        !t.has_session(row.id),
    ensures
        session_with_id(t.after(WriteView::CreateSession(row)), row.id) == Some(row),
{
    let u = t.after(WriteView::CreateSession(row));
    let n = t.sessions.len() as int;
    let hit = |k: int| u.sessions[k].row.id == row.id;
    assert(hit(n));
    assert forall|j: int| 0 <= j < n implies !#[trigger] hit(j) by {
        assert(t.sessions[j].row.id != row.id);
    }
    assert(is_first(u.sessions.len() as int, hit, n));
    lemma_first(u.sessions.len() as int, hit, n);
}

} // verus!
