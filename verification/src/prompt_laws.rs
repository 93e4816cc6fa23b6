//! What the instructions of an agent say, whatever they are made of.

use vstd::prelude::*;
use crate::auto::worker::ToolMode;
use crate::prompt::{
    entry_lines, CacheControl, PromptEntryView, PromptInputView, PromptTemplatesView,
    INDEX_PROMPT_BLOCK, SKILLS_HEADING, SUBAGENTS_HEADING,
};
use crate::text::{holds_text, lemma_holds_more, lemma_holds_text, replaced};

verus! {

/// Each mode has its own instructions.
pub proof fn law_mode_picks_template(t: PromptTemplatesView, mode: ToolMode)
    ensures
        mode == ToolMode::Ask ==> t.of(mode) == t.ask,
        mode == ToolMode::Coding ==> t.of(mode) == t.coding,
        mode == ToolMode::Plan ==> t.of(mode) == t.plan,
{
}

/// The blocks stand in a fixed order: the instructions with the working directory put
/// in, what is said of the index where there is one, the menu where there is anything
/// on it, and the environment.
pub proof fn law_blocks_in_order(input: PromptInputView, template: Seq<char>)
    ensures
        ({
            let bs = input.blocks(template);
            let menu = input.skills.len() > 0 || input.subagents.len() > 0;
            &&& bs[0].text == replaced(template, "{{working_dir}}"@, input.working_dir)
            &&& bs.len() == 2 + (if input.context_engine_enabled { 1int } else { 0 }) + (if menu {
                1int
            } else {
                0
            })
            &&& input.context_engine_enabled ==> bs[1].text == INDEX_PROMPT_BLOCK@
            &&& menu ==> bs[bs.len() - 2].text == input.menu()
            &&& bs[bs.len() - 1].text == input.env_section()
            &&& bs[bs.len() - 1].cache_control is None
            &&& bs[bs.len() - 2].cache_control == Some(CacheControl::Ephemeral)
        }),
{
}

/// The menu lists the skills and then the subagents, each under its heading where there
/// are any.
pub proof fn law_menu(input: PromptInputView)
    ensures
        ({
            let skills = SKILLS_HEADING@ + entry_lines(input.skills);
            let subagents = SUBAGENTS_HEADING@ + entry_lines(input.subagents);
            &&& input.skills.len() > 0 && input.subagents.len() > 0 ==> input.menu() == skills
                + "\n"@ + subagents
            &&& input.skills.len() > 0 && input.subagents.len() == 0 ==> input.menu() == skills
            &&& input.skills.len() == 0 && input.subagents.len() > 0 ==> input.menu() == subagents
        }),
{
}

/// One entry to a line, in order, with its name and its description.
pub proof fn law_menu_lines(es: Seq<PromptEntryView>, e: PromptEntryView)
    ensures
        entry_lines(Seq::empty()).len() == 0,
        entry_lines(es.push(e)) == entry_lines(es) + ("- "@ + e.name + ": "@ + e.description
            + "\n"@),
{
    assert(es.push(e).drop_last() =~= es);
}

/// Every skill and every subagent is on the menu.
pub proof fn law_menu_is_complete(input: PromptInputView, i: int)
    ensures
        0 <= i < input.skills.len() ==> holds_text(
            input.menu(),
            "- "@ + input.skills[i].name + ": "@ + input.skills[i].description + "\n"@,
        ),
        0 <= i < input.subagents.len() ==> holds_text(
            input.menu(),
            "- "@ + input.subagents[i].name + ": "@ + input.subagents[i].description + "\n"@,
        ),
{
    let none = Seq::<char>::empty();
    let a = entry_lines(input.skills);
    let b = entry_lines(input.subagents);
    if 0 <= i < input.skills.len() {
        let p = "- "@ + input.skills[i].name + ": "@ + input.skills[i].description + "\n"@;
        lemma_lines_hold(input.skills, i);
        let tail = if input.subagents.len() == 0 {
            none
        } else {
            "\n"@ + (SUBAGENTS_HEADING@ + b)
        };
        lemma_holds_more(SKILLS_HEADING@, a, tail, p);
        assert(input.menu() =~= SKILLS_HEADING@ + a + tail);
    }
    if 0 <= i < input.subagents.len() {
        let p = "- "@ + input.subagents[i].name + ": "@ + input.subagents[i].description + "\n"@;
        lemma_lines_hold(input.subagents, i);
        let head = if input.skills.len() == 0 {
            SUBAGENTS_HEADING@
        } else {
            SKILLS_HEADING@ + a + "\n"@ + SUBAGENTS_HEADING@
        };
        lemma_holds_more(head, b, none, p);
        assert(input.menu() =~= head + b + none);
    }
}

proof fn lemma_lines_hold(es: Seq<PromptEntryView>, i: int)
    requires
        0 <= i < es.len(),
    ensures
        holds_text(entry_lines(es), "- "@ + es[i].name + ": "@ + es[i].description + "\n"@),
    decreases es.len(),
{
    let before = entry_lines(es.drop_last());
    let e = es.last();
    let last = "- "@ + e.name + ": "@ + e.description + "\n"@;
    let none = Seq::<char>::empty();
    if i == es.len() - 1 {
        lemma_holds_text(before, last, none);
        assert(before + last + none =~= before + last);
    } else {
        lemma_lines_hold(es.drop_last(), i);
        lemma_holds_more(
            none,
            before,
            last,
            "- "@ + es[i].name + ": "@ + es[i].description + "\n"@,
        );
        assert(none + before + last =~= before + last);
    }
}

/// The environment says where, on which branch and with which note where there is one,
/// on which day and on what machine.
pub proof fn law_environment_says(input: PromptInputView)
    ensures
        ({
            let head = "# Environment\n- Working directory: "@ + input.working_dir + "\n"@;
            let branch = if input.branch is Some {
                "- Git branch: "@ + input.branch->0 + "\n"@
            } else {
                Seq::empty()
            };
            let note = if input.project_note is Some {
                "- "@ + input.project_note->0 + "\n"@
            } else {
                Seq::empty()
            };
            let tail = "- Date: "@ + input.environment.date + "\n- OS: "@ + input.environment.os
                + "/"@ + input.environment.arch + "\n"@;
            input.env_section() == head + branch + note + tail
        }),
{
    let head = "# Environment\n- Working directory: "@ + input.working_dir + "\n"@;
    let branch = if input.branch is Some {
        "- Git branch: "@ + input.branch->0 + "\n"@
    } else {
        Seq::empty()
    };
    let note = if input.project_note is Some {
        "- "@ + input.project_note->0 + "\n"@
    } else {
        Seq::empty()
    };
    let tail = "- Date: "@ + input.environment.date + "\n- OS: "@ + input.environment.os + "/"@
        + input.environment.arch + "\n"@;
    assert(input.env_section() =~= head + branch + note + tail);
}

} // verus!
