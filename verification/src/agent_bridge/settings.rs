//! The settings of the automatic mode.

use vstd::prelude::*;
use vstd::string::*;
use crate::agent_bridge::db::{live_sessions, newest_sessions, AgentDb};
use crate::agent_bridge::rows::{SessionRow, SessionRowView};
use crate::auto::codec::{
    array_of, law_list_roundtrip, lemma_depth_grows, list_from_json, list_json, list_to_json,
    model_ref_json, model_ref_of, Coded, ModelRef, ModelRefView,
};
use crate::auto::types::{WorkerPoolEntry, WorkerPoolEntryView};
use crate::json::{json_parsed, json_text, parse_json, parsed_view, write_json, Json, JsonV};
use crate::text::{
    dec, decimal, deep, dup_opt, dup_vec, lemma_deep_push, lemma_take_next, opt, same_text, Dup,
};

verus! {

broadcast use lemma_deep_push;

/// The provider and the model of a session in automatic mode.
pub const AUTO_SENTINEL_PROVIDER_ID: &'static str = "auto";

pub const AUTO_SENTINEL_MODEL: &'static str = "auto";

/// Under which names the settings are kept.
pub const AUTO_ORCHESTRATOR_KEY: &'static str = "auto_orchestrator_model";

pub const AUTO_WORKER_POOL_KEY: &'static str = "auto_worker_pool";

pub const AUTO_ENABLED_KEY: &'static str = "auto_enabled";

/// How often a run may replace a failing plan by itself: never, the user decides.
pub const AUTO_REPLAN_BUDGET: u32 = 0;

/// Whether a provider and a model stand for the automatic mode.
pub open spec fn auto_pair(provider_id: Seq<char>, model: Seq<char>) -> bool {
    provider_id == AUTO_SENTINEL_PROVIDER_ID@ && model == AUTO_SENTINEL_MODEL@
}

/// Whether a session with this provider and this model is in automatic mode.
pub fn is_auto_mode(provider_id: &str, model: &str) -> (r: bool)
    ensures
        r == auto_pair(provider_id@, model@),
{
    same_text(provider_id, AUTO_SENTINEL_PROVIDER_ID) && same_text(model, AUTO_SENTINEL_MODEL)
}

// ── Kept settings ──

/// A kept setting.
#[derive(Clone, Debug, PartialEq)]
pub struct Setting {
    pub key: String,
    pub value: String,
}

/// What a [`Setting`] stands for.
#[verifier::ext_equal]
pub struct SettingView {
    pub key: Seq<char>,
    pub value: Seq<char>,
}

impl View for Setting {
    type V = SettingView;

    open spec fn view(&self) -> SettingView {
        SettingView {
            key: self.key@,
            value: self.value@,
        }
    }
}

impl Dup for Setting {
    fn dup(&self) -> (r: Self) {
        Setting {
            key: self.key.clone(),
            value: self.value.clone(),
        }
    }
}

/// A change to the kept settings.
#[derive(Clone, Debug, PartialEq)]
pub enum SettingWrite {
    Keep { key: String, value: String },
    Delete { key: String },
}

/// What a [`SettingWrite`] stands for.
#[verifier::ext_equal]
pub enum SettingWriteView {
    Keep { key: Seq<char>, value: Seq<char> },
    Delete { key: Seq<char> },
}

impl View for SettingWrite {
    type V = SettingWriteView;

    open spec fn view(&self) -> SettingWriteView {
        match self {
            SettingWrite::Keep { key, value } => SettingWriteView::Keep {
                key: key@,
                value: value@,
            },
            SettingWrite::Delete { key } => SettingWriteView::Delete {
                key: key@,
            },
        }
    }
}

impl Dup for SettingWrite {
    fn dup(&self) -> (r: Self) {
        match self {
            SettingWrite::Keep { key, value } => SettingWrite::Keep {
                key: key.clone(),
                value: value.clone(),
            },
            SettingWrite::Delete { key } => SettingWrite::Delete {
                key: key.clone(),
            },
        }
    }
}

/// The settings of a list by name; of two with one name the later counts.
pub open spec fn setting_map(s: Seq<SettingView>) -> Map<Seq<char>, Seq<char>>
    decreases s.len(),
{
    if s.len() == 0 {
        Map::empty()
    } else {
        setting_map(s.drop_last()).insert(s.last().key, s.last().value)
    }
}

/// The kept settings, and the changes to them that are not on the disk yet.
pub struct AppState {
    entries: Vec<Setting>,
    pending: Vec<SettingWrite>,
}

impl View for AppState {
    type V = Map<Seq<char>, Seq<char>>;

    closed spec fn view(&self) -> Map<Seq<char>, Seq<char>> {
        setting_map(deep(self.entries@))
    }
}

proof fn lemma_setting_drop(s: Seq<SettingView>, i: int)
    requires
        0 <= i < s.len(),
    ensures
        setting_map(s.remove(i)).remove(s[i].key) == setting_map(s).remove(s[i].key),
    decreases s.len(),
{
    let k = s[i].key;
    if i < s.len() - 1 {
        let t = s.drop_last();
        lemma_setting_drop(t, i);
        assert(s.remove(i).drop_last() =~= t.remove(i));
        assert(s.remove(i).last() == s.last());
        let a = setting_map(t.remove(i));
        let b = setting_map(t);
        let l = s.last().key;
        let x = s.last().value;
        assert(a.remove(k) == b.remove(k));
        if l == k {
            assert(a.insert(l, x).remove(k) =~= a.remove(k));
            assert(b.insert(l, x).remove(k) =~= b.remove(k));
        } else {
            assert(a.insert(l, x).remove(k) =~= a.remove(k).insert(l, x));
            assert(b.insert(l, x).remove(k) =~= b.remove(k).insert(l, x));
        }
    } else {
        assert(s.remove(i) =~= s.drop_last());
        assert(setting_map(s).remove(k) =~= setting_map(s.drop_last()).remove(k));
    }
}

proof fn lemma_setting_absent(s: Seq<SettingView>, k: Seq<char>)
    requires
        forall|i: int| 0 <= i < s.len() ==> (#[trigger] s[i]).key != k,
    ensures
        !setting_map(s).dom().contains(k),
    decreases s.len(),
{
    if s.len() > 0 {
        assert(s[s.len() - 1].key != k);
        assert forall|i: int| 0 <= i < s.drop_last().len() implies (#[trigger] s.drop_last()[i]).key
            != k by {
            assert(s[i].key != k);
        }
        lemma_setting_absent(s.drop_last(), k);
    }
}

impl AppState {
    /// The changes that are not on the disk yet.
    pub closed spec fn pending(&self) -> Seq<SettingWriteView> {
        deep(self.pending@)
    }

    /// No settings.
    pub fn new() -> (r: AppState)
        ensures
            r@ == Map::<Seq<char>, Seq<char>>::empty(),
            r.pending() == Seq::<SettingWriteView>::empty(),
    {
        let entries: Vec<Setting> = Vec::new();
        let pending: Vec<SettingWrite> = Vec::new();
        assert(deep(entries@) =~= Seq::<SettingView>::empty());
        assert(deep(pending@) =~= Seq::<SettingWriteView>::empty());
        AppState { entries, pending }
    }

    /// The settings that were read from the disk.
    pub fn load(entries: Vec<Setting>) -> (r: AppState)
        ensures
            r@ == setting_map(deep(entries@)),
            r.pending() == Seq::<SettingWriteView>::empty(),
    {
        let pending: Vec<SettingWrite> = Vec::new();
        assert(deep(pending@) =~= Seq::<SettingWriteView>::empty());
        AppState { entries, pending }
    }

    /// Hands out the changes that are to be carried over to the disk, in order.
    pub fn take_writes(&mut self) -> (r: Vec<SettingWrite>)
        ensures
            deep(r@) == old(self).pending(),
            final(self).pending() == Seq::<SettingWriteView>::empty(),
            final(self)@ == old(self)@,
    {
        let writes = dup_vec(&self.pending);
        self.pending = Vec::new();
        assert(deep(self.pending@) =~= Seq::<SettingWriteView>::empty());
        writes
    }

    pub fn get_setting(&self, key: &str) -> (r: Option<String>)
        ensures
            match r {
                Some(v) => self@.dom().contains(key@) && self@[key@] == v@,
                None => !self@.dom().contains(key@),
            },
    {
        let ghost all = deep(self.entries@);
        let mut i: usize = self.entries.len();
        assert(all.take(i as int) =~= all);
        while i > 0
            invariant
                i <= self.entries@.len(),
                all == deep(self.entries@),
                self@.dom().contains(key@) == setting_map(all.take(i as int)).dom().contains(key@),
                self@.dom().contains(key@) ==> self@[key@] == setting_map(
                    all.take(i as int),
                )[key@],
            decreases i,
        {
            proof {
                lemma_take_next(all, i - 1);
                assert(all.take(i as int).drop_last() =~= all.take(i - 1));
                assert(all[i - 1] == self.entries@[i - 1]@);
            }
            i -= 1;
            if same_text(self.entries[i].key.as_str(), key) {
                return Some(self.entries[i].value.clone());
            }
        }
        assert(all.take(0) =~= Seq::empty());
        None
    }

    fn drop_setting(&mut self, key: &str)
        ensures
            final(self)@ == old(self)@.remove(key@),
            final(self).pending() == old(self).pending(),
    {
        let ghost want = self@.remove(key@);
        let mut i: usize = 0;
        while i < self.entries.len()
            invariant
                i <= self.entries@.len(),
                self@.remove(key@) == want,
                self.pending() == old(self).pending(),
                forall|k: int| 0 <= k < i ==> (#[trigger] deep(self.entries@)[k]).key != key@,
            decreases self.entries@.len() - i,
        {
            let ghost s = deep(self.entries@);
            assert(s[i as int] == self.entries@[i as int]@);
            if same_text(self.entries[i].key.as_str(), key) {
                proof {
                    lemma_setting_drop(s, i as int);
                }
                self.entries.remove(i);
                proof {
                    assert(deep(self.entries@) =~= s.remove(i as int));
                    assert forall|k: int| 0 <= k < i implies (#[trigger] deep(self.entries@)[k]).key
                        != key@ by {
                        assert(s[k].key != key@);
                    }
                }
            } else {
                i += 1;
            }
        }
        proof {
            lemma_setting_absent(deep(self.entries@), key@);
            assert(self@.remove(key@) =~= self@);
        }
    }

    pub fn set_setting(&mut self, key: &str, value: &str) -> (r: Result<(), String>)
        ensures
            r is Ok,
            final(self)@ == old(self)@.insert(key@, value@),
            final(self).pending() == old(self).pending().push(
                SettingWriteView::Keep { key: key@, value: value@ },
            ),
    {
        self.drop_setting(key);
        let ghost s = deep(self.entries@);
        self.entries.push(Setting { key: key.to_owned(), value: value.to_owned() });
        proof {
            assert(deep(self.entries@).drop_last() =~= s);
            assert(self@ =~= old(self)@.insert(key@, value@));
        }
        self.pending.push(SettingWrite::Keep { key: key.to_owned(), value: value.to_owned() });
        Ok(())
    }

    pub fn delete_setting(&mut self, key: &str) -> (r: Result<(), String>)
        ensures
            r is Ok,
            final(self)@ == old(self)@.remove(key@),
            final(self).pending() == old(self).pending().push(
                SettingWriteView::Delete { key: key@ },
            ),
    {
        self.drop_setting(key);
        self.pending.push(SettingWrite::Delete { key: key.to_owned() });
        Ok(())
    }
}

// ── Reading ──

/// What the user has set for the automatic mode.
#[derive(Clone, Debug, PartialEq)]
pub struct AutoSettings {
    /// Whether the mode can be chosen at all.
    pub enabled: bool,
    pub orchestrator: Option<ModelRef>,
    pub worker_pool: Vec<WorkerPoolEntry>,
}

/// What an [`AutoSettings`] stands for.
#[verifier::ext_equal]
pub struct AutoSettingsView {
    pub enabled: bool,
    pub orchestrator: Option<ModelRefView>,
    pub worker_pool: Seq<WorkerPoolEntryView>,
}

impl View for AutoSettings {
    type V = AutoSettingsView;

    open spec fn view(&self) -> AutoSettingsView {
        AutoSettingsView {
            enabled: self.enabled,
            orchestrator: opt(self.orchestrator),
            worker_pool: deep(self.worker_pool@),
        }
    }
}

impl Dup for AutoSettings {
    fn dup(&self) -> (r: Self) {
        AutoSettings {
            enabled: self.enabled,
            orchestrator: dup_opt(&self.orchestrator),
            worker_pool: dup_vec(&self.worker_pool),
        }
    }
}

impl Default for AutoSettings {
    fn default() -> (r: AutoSettings)
        ensures
            r@ == (AutoSettingsView {
                enabled: false,
                orchestrator: None,
                worker_pool: Seq::empty(),
            }),
    {
        let worker_pool: Vec<WorkerPoolEntry> = Vec::new();
        assert(deep(worker_pool@) =~= Seq::empty());
        AutoSettings { enabled: false, orchestrator: None, worker_pool }
    }
}

/// The orchestrator that a setting names, given what its text was read as.
pub open spec fn orchestrator_in(parsed: Result<JsonV, Seq<char>>) -> Option<ModelRefView> {
    match parsed {
        Ok(j) => model_ref_of(j),
        Err(_) => None,
    }
}

/// The pool that a setting names, given what its text was read as; empty where it
/// names none.
pub open spec fn pool_in(parsed: Result<JsonV, Seq<char>>) -> Seq<WorkerPoolEntryView> {
    match parsed {
        Ok(j) => match array_of::<WorkerPoolEntry>(j) {
            Some(s) => s,
            None => Seq::empty(),
        },
        Err(_) => Seq::empty(),
    }
}

pub open spec fn orchestrator_of(s: Map<Seq<char>, Seq<char>>) -> Option<ModelRefView> {
    if s.dom().contains(AUTO_ORCHESTRATOR_KEY@) {
        orchestrator_in(json_parsed(s[AUTO_ORCHESTRATOR_KEY@]))
    } else {
        None
    }
}

pub open spec fn pool_of(s: Map<Seq<char>, Seq<char>>) -> Seq<WorkerPoolEntryView> {
    if s.dom().contains(AUTO_WORKER_POOL_KEY@) {
        pool_in(json_parsed(s[AUTO_WORKER_POOL_KEY@]))
    } else {
        Seq::empty()
    }
}

pub open spec fn enabled_in(s: Map<Seq<char>, Seq<char>>) -> bool {
    s.dom().contains(AUTO_ENABLED_KEY@) && s[AUTO_ENABLED_KEY@] == "true"@
}

pub open spec fn settings_of(s: Map<Seq<char>, Seq<char>>) -> AutoSettingsView {
    AutoSettingsView {
        enabled: enabled_in(s),
        orchestrator: orchestrator_of(s),
        worker_pool: pool_of(s),
    }
}

/// Takes the orchestrator from what its setting was read as.
pub fn orchestrator_from(parsed: Result<Json, String>) -> (r: Option<ModelRef>)
    ensures
        opt(r) == orchestrator_in(parsed_view(parsed)),
{
    match parsed {
        Ok(j) => ModelRef::from_json(&j),
        Err(_) => None,
    }
}

/// Takes the pool from what its setting was read as.
pub fn pool_from(parsed: Result<Json, String>) -> (r: Vec<WorkerPoolEntry>)
    ensures
        deep(r@) == pool_in(parsed_view(parsed)),
{
    let none: Vec<WorkerPoolEntry> = Vec::new();
    assert(deep(none@) =~= Seq::<WorkerPoolEntryView>::empty());
    match parsed {
        Ok(j) => match list_from_json::<WorkerPoolEntry>(&j) {
            Some(v) => v,
            None => none,
        },
        Err(_) => none,
    }
}

pub fn read_auto_orchestrator(app_state: &AppState) -> (r: Option<ModelRef>)
    ensures
        opt(r) == orchestrator_of(app_state@),
{
    match app_state.get_setting(AUTO_ORCHESTRATOR_KEY) {
        Some(raw) => orchestrator_from(parse_json(raw.as_str())),
        None => None,
    }
}

pub fn read_auto_worker_pool(app_state: &AppState) -> (r: Vec<WorkerPoolEntry>)
    ensures
        deep(r@) == pool_of(app_state@),
{
    match app_state.get_setting(AUTO_WORKER_POOL_KEY) {
        Some(raw) => pool_from(parse_json(raw.as_str())),
        None => {
            let none: Vec<WorkerPoolEntry> = Vec::new();
            assert(deep(none@) =~= Seq::<WorkerPoolEntryView>::empty());
            none
        },
    }
}

pub fn read_auto_enabled(app_state: &AppState) -> (r: bool)
    ensures
        r == enabled_in(app_state@),
{
    match app_state.get_setting(AUTO_ENABLED_KEY) {
        Some(raw) => same_text(raw.as_str(), "true"),
        None => false,
    }
}

pub fn read_auto_settings(app_state: &AppState) -> (r: AutoSettings)
    ensures
        r@ == settings_of(app_state@),
{
    AutoSettings {
        enabled: read_auto_enabled(app_state),
        orchestrator: read_auto_orchestrator(app_state),
        worker_pool: read_auto_worker_pool(app_state),
    }
}

/// What the user has set.
pub fn agent_get_auto_settings(app_state: &AppState) -> (r: Result<AutoSettings, String>)
    ensures
        r matches Ok(s) && s@ == settings_of(app_state@),
{
    Ok(read_auto_settings(app_state))
}

// ── Writing ──

/// Chooses the orchestrator, or none. What is kept reads as what was chosen.
pub fn agent_set_auto_orchestrator_model(app_state: &mut AppState, model: Option<ModelRef>) -> (r:
    Result<(), String>)
    ensures
        r is Ok,
        match model {
            Some(m) => final(app_state)@ == old(app_state)@.insert(
                AUTO_ORCHESTRATOR_KEY@,
                json_text(model_ref_json(m@)),
            ),
            None => final(app_state)@ == old(app_state)@.remove(AUTO_ORCHESTRATOR_KEY@),
        },
        final(app_state).pending() == old(app_state).pending().push(
            match model {
                Some(m) => SettingWriteView::Keep {
                    key: AUTO_ORCHESTRATOR_KEY@,
                    value: json_text(model_ref_json(m@)),
                },
                None => SettingWriteView::Delete { key: AUTO_ORCHESTRATOR_KEY@ },
            },
        ),
        orchestrator_of(final(app_state)@) == opt(model),
{
    match model {
        Some(m) => {
            proof {
                ModelRef::law_roundtrip(m@);
                ModelRef::law_writable(m@);
                lemma_depth_grows(model_ref_json(m@), 1, 127);
            }
            let raw = write_json(&m.to_json());
            app_state.set_setting(AUTO_ORCHESTRATOR_KEY, raw.as_str())
        },
        None => app_state.delete_setting(AUTO_ORCHESTRATOR_KEY),
    }
}

/// Chooses the pool. What is kept reads as what was chosen.
pub fn agent_set_auto_worker_pool(app_state: &mut AppState, pool: Vec<WorkerPoolEntry>) -> (r:
    Result<(), String>)
    ensures
        r is Ok,
        final(app_state)@ == old(app_state)@.insert(
            AUTO_WORKER_POOL_KEY@,
            json_text(JsonV::Array(list_json::<WorkerPoolEntry>(deep(pool@)))),
        ),
        final(app_state).pending() == old(app_state).pending().push(
            SettingWriteView::Keep {
                key: AUTO_WORKER_POOL_KEY@,
                value: json_text(JsonV::Array(list_json::<WorkerPoolEntry>(deep(pool@)))),
            },
        ),
        pool_of(final(app_state)@) == deep(pool@),
{
    proof {
        law_list_roundtrip::<WorkerPoolEntry>(deep(pool@));
        lemma_depth_grows(JsonV::Array(list_json::<WorkerPoolEntry>(deep(pool@))), 2, 127);
    }
    let raw = write_json(&list_to_json(&pool));
    app_state.set_setting(AUTO_WORKER_POOL_KEY, raw.as_str())
}

/// A session that is in automatic mode.
pub open spec fn uses_auto(s: SessionRowView) -> bool {
    s.provider_id matches Some(p) && s.model matches Some(m) && auto_pair(p, m)
}

/// The sessions in automatic mode, the one that was changed last first; deleted
/// ones do not count.
pub fn agent_list_sessions_using_auto(db: &AgentDb) -> (r: Result<Vec<SessionRow>, String>)
    requires
        db.wf(),
    ensures
        r matches Ok(v) && deep(v@) == newest_sessions(live_sessions(db@)).filter(
            |s: SessionRowView| uses_auto(s),
        ),
{
    let all = match db.list_sessions() {
        Ok(v) => v,
        Err(e) => {
            let mut msg = "Failed to list sessions: ".to_owned();
            msg.append(e.to_text().as_str());
            return Err(msg);
        },
    };
    let ghost rows = deep(all@);
    let ghost p = |s: SessionRowView| uses_auto(s);
    let mut out: Vec<SessionRow> = Vec::new();
    let mut i: usize = 0;
    proof {
        reveal(Seq::filter);
        assert(deep(out@) =~= rows.take(0).filter(p));
    }
    while i < all.len()
        invariant
            i <= all@.len(),
            rows == deep(all@),
            p == (|s: SessionRowView| uses_auto(s)),
            deep(out@) == rows.take(i as int).filter(p),
        decreases all@.len() - i,
    {
        let s = &all[i];
        proof {
            assert(rows[i as int] == s@);
            lemma_take_next(rows, i as int);
            rows.take(i as int).lemma_filter_push(rows[i as int], p);
        }
        let auto = match (&s.provider_id, &s.model) {
            (Some(p), Some(m)) => is_auto_mode(p.as_str(), m.as_str()),
            _ => false,
        };
        if auto {
            out.push(s.dup());
        }
        i += 1;
    }
    assert(rows.take(i as int) =~= rows);
    Ok(out)
}

/// Why the mode cannot be switched on or off now, if it cannot.
pub open spec fn switch_fault(
    enabled: bool,
    s: Map<Seq<char>, Seq<char>>,
    users: Seq<SessionRowView>,
) -> Option<Seq<char>> {
    if enabled {
        if orchestrator_of(s) is None {
            Some("Cannot enable Auto: pick an orchestrator model in Settings → Auto first."@)
        } else if pool_of(s).len() == 0 {
            Some("Cannot enable Auto: add at least one model to the worker pool first."@)
        } else {
            None
        }
    } else if users.len() > 0 {
        Some(
            "Cannot disable Auto: "@ + dec(users.len())
                + " session(s) still use it. Switch them to a regular model first."@,
        )
    } else {
        None
    }
}

/// Switches the mode on or off.
pub fn agent_set_auto_enabled(app_state: &mut AppState, db: &AgentDb, enabled: bool) -> (r: Result<
    (),
    String,
>)
    requires
        db.wf(),
    ensures
        ({
            let users = newest_sessions(live_sessions(db@)).filter(
                |s: SessionRowView| uses_auto(s),
            );
            match switch_fault(enabled, old(app_state)@, users) {
                Some(e) => {
                    &&& r matches Err(m) && m@ == e
                    &&& final(app_state)@ == old(app_state)@
                    &&& final(app_state).pending() == old(app_state).pending()
                },
                None => {
                    let value = if enabled { "true"@ } else { "false"@ };
                    &&& r is Ok
                    &&& final(app_state)@ == old(app_state)@.insert(AUTO_ENABLED_KEY@, value)
                    &&& final(app_state).pending() == old(app_state).pending().push(
                        SettingWriteView::Keep { key: AUTO_ENABLED_KEY@, value },
                    )
                },
            }
        }),
{
    if enabled {
        if read_auto_orchestrator(app_state).is_none() {
            return Err(
                "Cannot enable Auto: pick an orchestrator model in Settings → Auto first.".to_owned(),
            );
        }
        if read_auto_worker_pool(app_state).len() == 0 {
            return Err(
                "Cannot enable Auto: add at least one model to the worker pool first.".to_owned(),
            );
        }
        app_state.set_setting(AUTO_ENABLED_KEY, "true")
    } else {
        let blockers = match agent_list_sessions_using_auto(db) {
            Ok(v) => v,
            Err(e) => {
                return Err(e);
            },
        };
        if blockers.len() > 0 {
            let mut msg = "Cannot disable Auto: ".to_owned();
            msg.append(decimal(blockers.len() as u128).as_str());
            msg.append(" session(s) still use it. Switch them to a regular model first.");
            return Err(msg);
        }
        app_state.set_setting(AUTO_ENABLED_KEY, "false")
    }
}

/// Switching the mode on or off shows in what is read, and touches nothing else.
pub proof fn law_switch_reads_back(s: Map<Seq<char>, Seq<char>>, enabled: bool)
    ensures
        ({
            let t = s.insert(AUTO_ENABLED_KEY@, if enabled { "true"@ } else { "false"@ });
            settings_of(t) == AutoSettingsView { enabled, ..settings_of(s) }
        }),
{
    reveal_strlit("true");
    reveal_strlit("false");
    reveal_strlit("auto_enabled");
    reveal_strlit("auto_worker_pool");
    reveal_strlit("auto_orchestrator_model");
    assert("true"@.len() != "false"@.len());
    assert(AUTO_ENABLED_KEY@.len() == 12 && AUTO_WORKER_POOL_KEY@.len() == 16
        && AUTO_ORCHESTRATOR_KEY@.len() == 23);
}

/// Choosing the orchestrator leaves the pool, and choosing the pool leaves the
/// orchestrator.
pub proof fn law_choices_are_independent(
    s: Map<Seq<char>, Seq<char>>,
    orchestrator: Seq<char>,
    pool: Seq<char>,
)
    ensures
        pool_of(s.insert(AUTO_ORCHESTRATOR_KEY@, orchestrator)) == pool_of(s),
        orchestrator_of(s.insert(AUTO_WORKER_POOL_KEY@, pool)) == orchestrator_of(s),
{
    reveal_strlit("auto_worker_pool");
    reveal_strlit("auto_orchestrator_model");
    assert(AUTO_WORKER_POOL_KEY@.len() == 16 && AUTO_ORCHESTRATOR_KEY@.len() == 23);
}

} // verus!
