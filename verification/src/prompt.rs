//! The system prompt: a cacheable beginning and the environment behind it.

use vstd::prelude::*;
use vstd::string::*;
use crate::auto::worker::ToolMode;
use crate::clock::{day_text, local_day};
use crate::text::{deep, dup_opt, dup_vec, lemma_deep_push, opt, replace_all, replaced, Dup};

verus! {

broadcast use lemma_deep_push;

/// What is said about the index where there is one.
pub const INDEX_PROMPT_BLOCK: &'static str = "# Codebase Index (semantic search — PREFER THIS for finding code)\n\nThis project is indexed. Two extra tools are available and are faster and more accurate than grep/glob for locating code:\n\n- `codebase_search` — semantic, AI-ranked search across the whole codebase. Handles conceptual queries (e.g. \"color parsing\", \"rate limiting logic\") and finds relevant code even when you don't know the exact symbol or string.\n- `codebase_graph` — call/dependency graph: find a function's callers, callees, definitions, and references.\n\nExploration workflow (this OVERRIDES the grep/glob guidance in the sections below): when you need to find where something is implemented or understand how a feature works, call `codebase_search` FIRST (and `codebase_graph` for relationships), then `read` the files it points to. Use `grep`/`glob` only for exact-string matches, or if the index tool reports it is unavailable.\n";

/// What stands in front of the list of skills.
pub const SKILLS_HEADING: &'static str = "# Available Skills\nSkills are instruction packs loaded on demand via the `skill` tool. The descriptions below are a MENU — they do not contain the rules themselves. Whenever a task matches a skill by name, topic, or intent — or the user explicitly mentions one — CALL THE `skill` TOOL FIRST and follow the body verbatim. Do not guess at the rules from the description. Skip the tool only when no skill below is clearly relevant.\n\nAvailable:\n";

/// What stands in front of the list of subagents.
pub const SUBAGENTS_HEADING: &'static str = "# Available Subagents\nSubagents currently enabled for this turn (see \"Default Subagents\" in the main prompt for routing guidance):\n";

/// A mark behind which a provider keeps what it has read.
#[derive(Clone, Copy, Debug, PartialEq, Eq, Structural)]
pub enum CacheControl {
    Ephemeral,
}

/// One block of the system prompt.
#[derive(Clone, Debug, PartialEq)]
pub struct SystemBlock {
    pub text: String,
    pub cache_control: Option<CacheControl>,
}

/// What a [`SystemBlock`] stands for.
#[verifier::ext_equal]
pub struct SystemBlockView {
    pub text: Seq<char>,
    pub cache_control: Option<CacheControl>,
}

impl View for SystemBlock {
    type V = SystemBlockView;

    open spec fn view(&self) -> SystemBlockView {
        SystemBlockView {
            text: self.text@,
            cache_control: self.cache_control,
        }
    }
}

impl Dup for SystemBlock {
    fn dup(&self) -> (r: Self) {
        SystemBlock {
            text: self.text.clone(),
            cache_control: self.cache_control,
        }
    }
}

/// A skill or a subagent by its name and what it is for.
#[derive(Clone, Debug, PartialEq)]
pub struct PromptEntry {
    pub name: String,
    pub description: String,
}

/// What a [`PromptEntry`] stands for.
#[verifier::ext_equal]
pub struct PromptEntryView {
    pub name: Seq<char>,
    pub description: Seq<char>,
}

impl View for PromptEntry {
    type V = PromptEntryView;

    open spec fn view(&self) -> PromptEntryView {
        PromptEntryView {
            name: self.name@,
            description: self.description@,
        }
    }
}

impl Dup for PromptEntry {
    fn dup(&self) -> (r: Self) {
        PromptEntry {
            name: self.name.clone(),
            description: self.description.clone(),
        }
    }
}

/// The fixed part of the prompt for each mode, with `{{working_dir}}` where the
/// working directory goes.
#[derive(Clone, Debug, PartialEq)]
pub struct PromptTemplates {
    pub ask: String,
    pub coding: String,
    pub plan: String,
}

/// What a [`PromptTemplates`] stands for.
#[verifier::ext_equal]
pub struct PromptTemplatesView {
    pub ask: Seq<char>,
    pub coding: Seq<char>,
    pub plan: Seq<char>,
}

impl View for PromptTemplates {
    type V = PromptTemplatesView;

    open spec fn view(&self) -> PromptTemplatesView {
        PromptTemplatesView {
            ask: self.ask@,
            coding: self.coding@,
            plan: self.plan@,
        }
    }
}

impl Dup for PromptTemplates {
    fn dup(&self) -> (r: Self) {
        PromptTemplates {
            ask: self.ask.clone(),
            coding: self.coding.clone(),
            plan: self.plan.clone(),
        }
    }
}

/// Where and when the agent runs.
#[derive(Clone, Debug, PartialEq)]
pub struct Environment {
    pub date: String,
    pub os: String,
    pub arch: String,
}

/// What an [`Environment`] stands for.
#[verifier::ext_equal]
pub struct EnvironmentView {
    pub date: Seq<char>,
    pub os: Seq<char>,
    pub arch: Seq<char>,
}

impl View for Environment {
    type V = EnvironmentView;

    open spec fn view(&self) -> EnvironmentView {
        EnvironmentView {
            date: self.date@,
            os: self.os@,
            arch: self.arch@,
        }
    }
}

impl Dup for Environment {
    fn dup(&self) -> (r: Self) {
        Environment {
            date: self.date.clone(),
            os: self.os.clone(),
            arch: self.arch.clone(),
        }
    }
}

/// What a prompt is made of.
#[derive(Clone, Debug, PartialEq)]
pub struct PromptInput {
    pub working_dir: String,
    pub branch: Option<String>,
    pub project_note: Option<String>,
    pub skills: Vec<PromptEntry>,
    pub subagents: Vec<PromptEntry>,
    pub context_engine_enabled: bool,
    pub environment: Environment,
}

/// What a [`PromptInput`] stands for.
#[verifier::ext_equal]
pub struct PromptInputView {
    pub working_dir: Seq<char>,
    pub branch: Option<Seq<char>>,
    pub project_note: Option<Seq<char>>,
    pub skills: Seq<PromptEntryView>,
    pub subagents: Seq<PromptEntryView>,
    pub context_engine_enabled: bool,
    pub environment: EnvironmentView,
}

impl View for PromptInput {
    type V = PromptInputView;

    open spec fn view(&self) -> PromptInputView {
        PromptInputView {
            working_dir: self.working_dir@,
            branch: opt(self.branch),
            project_note: opt(self.project_note),
            skills: deep(self.skills@),
            subagents: deep(self.subagents@),
            context_engine_enabled: self.context_engine_enabled,
            environment: self.environment@,
        }
    }
}

impl Dup for PromptInput {
    fn dup(&self) -> (r: Self) {
        PromptInput {
            working_dir: self.working_dir.clone(),
            branch: dup_opt(&self.branch),
            project_note: dup_opt(&self.project_note),
            skills: dup_vec(&self.skills),
            subagents: dup_vec(&self.subagents),
            context_engine_enabled: self.context_engine_enabled,
            environment: self.environment.dup(),
        }
    }
}

impl PromptTemplatesView {
    pub open spec fn of(self, mode: ToolMode) -> Seq<char> {
        match mode {
            ToolMode::Ask => self.ask,
            ToolMode::Coding => self.coding,
            ToolMode::Plan => self.plan,
        }
    }
}

/// A list with one entry to a line.
pub open spec fn entry_lines(es: Seq<PromptEntryView>) -> Seq<char>
    decreases es.len(),
{
    if es.len() == 0 {
        Seq::empty()
    } else {
        entry_lines(es.drop_last()) + ("- "@ + es.last().name + ": "@ + es.last().description + "\n"@)
    }
}

impl PromptInputView {
    /// The list of skills and subagents.
    pub open spec fn menu(self) -> Seq<char> {
        let skills = SKILLS_HEADING@ + entry_lines(self.skills);
        let subagents = SUBAGENTS_HEADING@ + entry_lines(self.subagents);
        if self.skills.len() == 0 {
            subagents
        } else if self.subagents.len() == 0 {
            skills
        } else {
            skills + "\n"@ + subagents
        }
    }

    /// The texts that stay the same from day to day: the body, what is said about
    /// the index, and the menu, each of the last two where it applies.
    pub open spec fn cacheable(self, template: Seq<char>) -> Seq<Seq<char>> {
        let body = seq![replaced(template, "{{working_dir}}"@, self.working_dir)];
        let indexed = if self.context_engine_enabled {
            body.push(INDEX_PROMPT_BLOCK@)
        } else {
            body
        };
        if self.skills.len() > 0 || self.subagents.len() > 0 {
            indexed.push(self.menu())
        } else {
            indexed
        }
    }

    /// The environment: directory, branch, note, date and machine.
    pub open spec fn env_section(self) -> Seq<char> {
        let branch = match self.branch {
            Some(b) => "- Git branch: "@ + b + "\n"@,
            None => Seq::empty(),
        };
        let note = match self.project_note {
            Some(n) => "- "@ + n + "\n"@,
            None => Seq::empty(),
        };
        "# Environment\n- Working directory: "@ + self.working_dir + "\n"@ + branch + note
            + "- Date: "@ + self.environment.date + "\n- OS: "@ + self.environment.os + "/"@
            + self.environment.arch + "\n"@
    }

    /// The blocks: the cacheable texts, the last of them marked, and the
    /// environment.
    pub open spec fn blocks(self, template: Seq<char>) -> Seq<SystemBlockView> {
        let texts = self.cacheable(template);
        Seq::new(
            texts.len(),
            |i: int|
                SystemBlockView {
                    text: texts[i],
                    cache_control: if i == texts.len() - 1 {
                        Some(CacheControl::Ephemeral)
                    } else {
                        None
                    },
                },
        ).push(SystemBlockView { text: self.env_section(), cache_control: None })
    }
}

/// Exactly one block is marked, the one in front of the environment, whatever else
/// the prompt holds; and there are two to four blocks.
pub proof fn law_one_cache_marker(input: PromptInputView, template: Seq<char>, i: int)
    requires
        0 <= i < input.blocks(template).len(),
    ensures
        input.blocks(template)[i].cache_control is Some <==> i == input.blocks(template).len() - 2,
        2 <= input.blocks(template).len() <= 4,
        input.blocks(template).last().text == input.env_section(),
{
}

/// Nothing in front of the environment depends on the date or the machine, on the
/// branch or on the note about the project.
pub proof fn law_date_only_in_environment(
    a: PromptInputView,
    environment: EnvironmentView,
    branch: Option<Seq<char>>,
    project_note: Option<Seq<char>>,
    template: Seq<char>,
    i: int,
)
    requires
        0 <= i < a.blocks(template).len() - 1,
    ensures
        (PromptInputView { environment, branch, project_note, ..a }).blocks(template).len()
            == a.blocks(template).len(),
        (PromptInputView { environment, branch, project_note, ..a }).blocks(template)[i]
            == a.blocks(template)[i],
{
}

/// What the agent is told of where and when it runs. `None` where the time has no
/// date.
pub fn environment_at(seconds: i64, offset: i32, os: &str, arch: &str) -> (r: Option<Environment>)
    ensures
        opt(r) == match day_text(seconds, offset) {
            Some(date) => Some(EnvironmentView { date, os: os@, arch: arch@ }),
            None => None,
        },
{
    match local_day(seconds, offset) {
        Some(date) => Some(Environment { date, os: os.to_owned(), arch: arch.to_owned() }),
        None => None,
    }
}

fn append_entries(s: &mut String, entries: &Vec<PromptEntry>)
    ensures
        final(s)@ == old(s)@ + entry_lines(deep(entries@)),
{
    let ghost head = s@;
    let ghost es = deep(entries@);
    let mut i: usize = 0;
    assert(head + entry_lines(es.take(0)) =~= head);
    while i < entries.len()
        invariant
            i <= entries@.len(),
            es == deep(entries@),
            s@ == head + entry_lines(es.take(i as int)),
        decreases entries@.len() - i,
    {
        let e = &entries[i];
        assert(es[i as int] == e@);
        let mut line = "- ".to_owned();
        line.append(e.name.as_str());
        line.append(": ");
        line.append(e.description.as_str());
        line.append("\n");
        s.append(line.as_str());
        i += 1;
        assert(es.take(i as int).drop_last() =~= es.take(i - 1));
        assert(s@ =~= head + entry_lines(es.take(i as int)));
    }
    assert(es.take(i as int) =~= es);
}

fn menu_text(input: &PromptInput) -> (r: String)
    requires
        input@.skills.len() > 0 || input@.subagents.len() > 0,
    ensures
        r@ == input@.menu(),
{
    let mut s = String::new();
    if input.skills.len() > 0 {
        s.append(SKILLS_HEADING);
        append_entries(&mut s, &input.skills);
        assert(s@ =~= SKILLS_HEADING@ + entry_lines(input@.skills));
    }
    if input.subagents.len() > 0 {
        if input.skills.len() > 0 {
            s.append("\n");
        }
        let mut t = SUBAGENTS_HEADING.to_owned();
        append_entries(&mut t, &input.subagents);
        s.append(t.as_str());
    }
    assert(s@ =~= input@.menu());
    s
}

fn env_text(input: &PromptInput) -> (r: String)
    ensures
        r@ == input@.env_section(),
{
    let mut s = "# Environment\n- Working directory: ".to_owned();
    s.append(input.working_dir.as_str());
    s.append("\n");
    let mut branch = String::new();
    if let Some(b) = &input.branch {
        branch = "- Git branch: ".to_owned();
        branch.append(b.as_str());
        branch.append("\n");
    }
    let mut note = String::new();
    if let Some(n) = &input.project_note {
        note = "- ".to_owned();
        note.append(n.as_str());
        note.append("\n");
    }
    s.append(branch.as_str());
    s.append(note.as_str());
    s.append("- Date: ");
    s.append(input.environment.date.as_str());
    s.append("\n- OS: ");
    s.append(input.environment.os.as_str());
    s.append("/");
    s.append(input.environment.arch.as_str());
    s.append("\n");
    proof {
        reveal_strlit("");
    }
    assert(s@ =~= input@.env_section());
    s
}

/// The system prompt for a mode, as an ordered list of blocks.
pub fn build_system_prompt(templates: &PromptTemplates, mode: ToolMode, input: &PromptInput) -> (r:
    Vec<SystemBlock>)
    ensures
        deep(r@) == input@.blocks(templates@.of(mode)),
{
    let template = match mode {
        ToolMode::Ask => &templates.ask,
        ToolMode::Coding => &templates.coding,
        ToolMode::Plan => &templates.plan,
    };
    let ghost texts = input@.cacheable(template@);
    proof {
        reveal_strlit("{{working_dir}}");
    }
    let body = replace_all(template.as_str(), "{{working_dir}}", input.working_dir.as_str());
    let mut blocks: Vec<SystemBlock> = Vec::new();
    blocks.push(SystemBlock { text: body, cache_control: None });
    if input.context_engine_enabled {
        blocks.push(SystemBlock { text: INDEX_PROMPT_BLOCK.to_owned(), cache_control: None });
    }
    if input.skills.len() > 0 || input.subagents.len() > 0 {
        blocks.push(SystemBlock { text: menu_text(input), cache_control: None });
    }
    assert(deep(blocks@) =~= Seq::new(
        texts.len(),
        |i: int| SystemBlockView { text: texts[i], cache_control: None },
    ));
    let last: usize = blocks.len() - 1;
    blocks[last].cache_control = Some(CacheControl::Ephemeral);
    blocks.push(SystemBlock { text: env_text(input), cache_control: None });
    assert(deep(blocks@) =~= input@.blocks(template@));
    blocks
}

} // verus!
