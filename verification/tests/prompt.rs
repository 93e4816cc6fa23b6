use auto_agent::auto::worker::ToolMode;
use auto_agent::prompt::{
    build_system_prompt, environment_at, Environment, PromptEntry, PromptInput, PromptTemplates,
    SystemBlock,
};

const MODES: [ToolMode; 3] = [ToolMode::Ask, ToolMode::Coding, ToolMode::Plan];

fn templates() -> PromptTemplates {
    PromptTemplates {
        ask: "Ask in {{working_dir}}.".into(),
        coding: "Code in {{working_dir}}.".into(),
        plan: "Plan in {{working_dir}}.".into(),
    }
}

fn environment() -> Environment {
    environment_at(1_700_000_000, 0, "linux", "x86_64").unwrap()
}

const TODAY: &str = "2023-11-14";

fn input(
    working_dir: &str,
    branch: Option<&str>,
    skills: Vec<PromptEntry>,
    engine: bool,
) -> PromptInput {
    PromptInput {
        working_dir: working_dir.into(),
        branch: branch.map(|b| b.to_string()),
        project_note: None,
        skills,
        subagents: vec![],
        context_engine_enabled: engine,
        environment: environment(),
    }
}

fn hello() -> Vec<PromptEntry> {
    vec![PromptEntry { name: "hello".into(), description: "A greeting skill.".into() }]
}

fn build(mode: ToolMode, i: &PromptInput) -> Vec<SystemBlock> {
    build_system_prompt(&templates(), mode, i)
}

fn joined(blocks: &[SystemBlock]) -> String {
    blocks.iter().map(|b| b.text.as_str()).collect::<Vec<_>>().join("\n")
}

#[test]
fn test_build_system_prompt_splits_into_two_blocks() {
    for mode in MODES {
        let blocks = build(mode, &input("/p", Some("main"), vec![], false));
        assert_eq!(blocks.len(), 2, "{:?}: expected exactly 2 blocks", mode);
        assert!(blocks[0].cache_control.is_some(), "{:?}: block 0 must be cached", mode);
        assert!(blocks[1].cache_control.is_none(), "{:?}: block 1 must NOT be cached", mode);
    }
}

#[test]
fn test_skills_block_inserted_when_registry_non_empty() {
    for mode in MODES {
        let blocks = build(mode, &input("/p", Some("main"), hello(), false));
        assert_eq!(blocks.len(), 3, "{:?}: expected 3 blocks with skills", mode);
        assert!(blocks[0].cache_control.is_none(), "{:?}: static body no marker", mode);
        assert!(
            blocks[1].cache_control.is_some(),
            "{:?}: last cacheable block carries marker",
            mode
        );
        assert!(blocks[2].cache_control.is_none(), "{:?}: env uncached", mode);
        assert!(blocks[1].text.contains("# Available Skills"));
        assert!(blocks[1].text.contains("hello: A greeting skill."));
    }
}

#[test]
fn test_exactly_one_cache_marker_across_all_configs() {
    for semantic_on in [false, true] {
        for skills in [vec![], hello()] {
            for mode in MODES {
                let blocks =
                    build(mode, &input("/p", Some("main"), skills.clone(), semantic_on));
                let markers = blocks.iter().filter(|b| b.cache_control.is_some()).count();
                assert_eq!(markers, 1);
                let last_idx = blocks.len() - 1;
                assert!(
                    blocks[last_idx].cache_control.is_none(),
                    "env block must stay uncached"
                );
                assert!(
                    blocks[last_idx - 1].cache_control.is_some(),
                    "marker must sit on the last cacheable block"
                );
            }
        }
    }
}

#[test]
fn test_skills_block_omitted_when_registry_empty() {
    let blocks = build(ToolMode::Ask, &input("/p", Some("main"), vec![], false));
    assert_eq!(blocks.len(), 2, "empty registry must not add a block");
}

#[test]
fn test_index_block_inserted_only_when_context_engine_enabled() {
    for mode in MODES {
        let on = build(mode, &input("/p", Some("main"), vec![], true));
        assert!(
            on.iter().any(|b| b.text.contains("codebase_search")),
            "{:?}: index block must advertise codebase_search when engine enabled",
            mode
        );
        let off = build(mode, &input("/p", Some("main"), vec![], false));
        assert!(
            !off.iter().any(|b| b.text.contains("codebase_search")),
            "{:?}: no index block when engine disabled",
            mode
        );
    }
}

#[test]
fn test_static_body_excludes_date() {
    for mode in MODES {
        let blocks = build(mode, &input("/p", Some("main"), vec![], false));
        assert!(
            !blocks[0].text.contains(TODAY),
            "{:?}: static body must not contain today's date (would invalidate cache daily)",
            mode
        );
    }
}

#[test]
fn test_env_block_contains_date_and_working_dir() {
    for mode in MODES {
        let blocks = build(mode, &input("/home/user/project", Some("main"), vec![], false));
        assert!(blocks[1].text.contains(TODAY), "{:?}: env must contain date", mode);
        assert!(
            blocks[1].text.contains("/home/user/project"),
            "{:?}: env must contain working_dir",
            mode
        );
        assert!(
            blocks[1].text.contains("main"),
            "{:?}: env must contain branch when provided",
            mode
        );
    }
}

#[test]
fn test_working_dir_injected_all_modes() {
    for mode in MODES {
        let prompt = joined(&build(mode, &input("/home/user/project", None, vec![], false)));
        assert!(prompt.contains("/home/user/project"), "Mode {:?} missing working_dir", mode);
        assert!(
            !prompt.contains("{{working_dir}}"),
            "Mode {:?} has unresolved placeholder",
            mode
        );
    }
}

#[test]
fn test_branch_injected() {
    let prompt =
        joined(&build(ToolMode::Coding, &input("/tmp", Some("feature/login"), vec![], false)));
    assert!(prompt.contains("feature/login"));
}

#[test]
fn test_branch_omitted_when_none() {
    let prompt = joined(&build(ToolMode::Ask, &input("/tmp", None, vec![], false)));
    assert!(!prompt.contains("Git branch"));
}

#[test]
fn test_date_injected() {
    let prompt = joined(&build(ToolMode::Ask, &input("/tmp", None, vec![], false)));
    assert!(prompt.contains(TODAY));
}

#[test]
fn test_os_arch_injected() {
    for mode in MODES {
        let prompt = joined(&build(mode, &input("/tmp", None, vec![], false)));
        assert!(prompt.contains("linux"), "Mode {:?} missing OS", mode);
        assert!(prompt.contains("x86_64"), "Mode {:?} missing ARCH", mode);
    }
}

#[test]
fn test_no_unresolved_placeholders() {
    for mode in MODES {
        let prompt = joined(&build(mode, &input("/tmp", Some("main"), vec![], false)));
        assert!(!prompt.contains("{{"), "Mode {:?} has unresolved placeholder", mode);
    }
}

#[test]
fn environment_is_written_in_full() {
    let mut i = input("/w", Some("dev"), vec![], false);
    i.project_note = Some("monorepo".into());
    i.environment = Environment { date: "2026-01-02".into(), os: "linux".into(), arch: "x".into() };
    let blocks = build(ToolMode::Ask, &i);
    assert_eq!(blocks[0].text, "Ask in /w.");
    assert_eq!(
        blocks[1].text,
        "# Environment\n- Working directory: /w\n- Git branch: dev\n- monorepo\n- Date: 2026-01-02\n- OS: linux/x\n"
    );
    assert!(environment_at(i64::MAX, 0, "l", "x").is_none());
}

#[test]
fn skills_and_subagents_share_a_block() {
    let mut i = input("/w", None, hello(), true);
    i.subagents = vec![
        PromptEntry { name: "scout".into(), description: "Looks around.".into() },
        PromptEntry { name: "scribe".into(), description: "Writes.".into() },
    ];
    let blocks = build(ToolMode::Coding, &i);
    assert_eq!(blocks.len(), 4);
    let menu = &blocks[2].text;
    assert!(menu.starts_with("# Available Skills\n"));
    assert!(menu.contains("- hello: A greeting skill.\n\n# Available Subagents\n"));
    assert!(menu.ends_with("- scout: Looks around.\n- scribe: Writes.\n"));
    i.skills = vec![];
    assert!(build(ToolMode::Coding, &i)[2].text.starts_with("# Available Subagents\n"));
}
