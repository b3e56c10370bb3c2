use niles::digits::{i64_to_decimal, int_error, parse_u64_str, u64_to_decimal};
use niles::keyed::KeyedMap;
use niles::spec::{
    apply_project_config, command_config_run, AgentConfig, CommandConfig, ProjectConfig,
    PromptMode, TaskSpec, TaskStep,
};
use niles::state::{
    run_status_label, selected_step, step_kind_label, step_status_label, RunState, RunStatus,
    StepKind, StepRecord, StepStatus,
};
use niles::statuslog::{find_first_actionable, find_last_actionable};
use niles::text::{
    contains_str, split_char, squash_whitespace_exec, str_eq, str_le, trim_end_str, trim_str,
};
use niles::time::UtcTime;
use niles::wake::WakeKind;

#[test]
fn status_labels_spell_the_state_words() {
    assert_eq!(run_status_label(&RunStatus::Created), "created");
    assert_eq!(run_status_label(&RunStatus::Running), "running");
    assert_eq!(run_status_label(&RunStatus::Completed), "completed");
    assert_eq!(run_status_label(&RunStatus::Failed), "failed");
    assert_eq!(step_kind_label(&StepKind::Agent), "agent");
    assert_eq!(step_kind_label(&StepKind::Command), "command");
    assert_eq!(step_status_label(&StepStatus::Completed), "completed");
    assert_eq!(step_status_label(&StepStatus::Failed), "failed");
}

fn step(index: usize, label: &str) -> StepRecord {
    StepRecord {
        index,
        kind: StepKind::Command,
        label: label.to_owned(),
        status: StepStatus::Completed,
        started_at: UtcTime::from_secs(0),
        finished_at: UtcTime::from_secs(1),
        exit_code: Some(0),
        stdout: "/r/out".to_owned(),
        stderr: "/r/err".to_owned(),
        diff: None,
    }
}

fn run(steps: Vec<StepRecord>) -> RunState {
    RunState {
        id: "r1".to_owned(),
        goal: "ship".to_owned(),
        task_file: None,
        created_at: UtcTime::from_secs(0),
        updated_at: UtcTime::from_secs(1),
        status: RunStatus::Completed,
        steps,
    }
}

#[test]
fn a_step_is_selected_by_index_or_else_the_last() {
    let state = run(vec![step(1, "a"), step(2, "b"), step(2, "c")]);
    assert_eq!(selected_step(&state, Some(2)).unwrap().label, "b");
    assert_eq!(selected_step(&state, None).unwrap().label, "c");
    assert_eq!(
        selected_step(&state, Some(7)).err().unwrap(),
        "step 7 not found"
    );
    assert_eq!(
        selected_step(&run(Vec::new()), None).err().unwrap(),
        "run has no recorded steps"
    );
}

fn agent(binary: &str) -> AgentConfig {
    AgentConfig {
        binary: Some(binary.to_owned()),
        args: Vec::new(),
        prompt: PromptMode::default(),
    }
}

#[test]
fn a_keyed_map_keeps_one_value_per_key_in_key_order() {
    let mut map = KeyedMap::new();
    map.insert("b".to_owned(), 2);
    map.insert("a".to_owned(), 1);
    map.insert("c".to_owned(), 3);
    map.insert("b".to_owned(), 20);
    let keys: Vec<&str> = map.entries().iter().map(|(k, _)| k.as_str()).collect();
    assert_eq!(keys, ["a", "b", "c"]);
    assert_eq!(map.get("b"), Some(&20));
    assert_eq!(map.get("z"), None);
    let mut more = KeyedMap::new();
    more.insert("c".to_owned(), 30);
    more.insert("d".to_owned(), 4);
    map.extend(more);
    let pairs: Vec<(&str, i32)> = map.entries().iter().map(|(k, v)| (k.as_str(), *v)).collect();
    assert_eq!(pairs, [("a", 1), ("b", 20), ("c", 30), ("d", 4)]);
}

#[test]
fn the_task_wins_over_the_project_config() {
    let mut task_agents = KeyedMap::new();
    task_agents.insert("codex".to_owned(), agent("codex-task"));
    let mut task_commands = KeyedMap::new();
    task_commands.insert("test".to_owned(), CommandConfig::Short("cargo test".to_owned()));
    let spec = TaskSpec {
        goal: "ship".to_owned(),
        workspace: None,
        agents: task_agents,
        steps: vec![TaskStep::Command {
            command: "test".to_owned(),
        }],
        commands: task_commands,
    };
    let mut config = ProjectConfig::default();
    config.workspace = Some("/repo".to_owned());
    config.agents.insert("codex".to_owned(), agent("codex-project"));
    config.agents.insert("hermes".to_owned(), agent("hermes"));
    config.commands.insert(
        "lint".to_owned(),
        CommandConfig::Full {
            run: "cargo clippy".to_owned(),
        },
    );

    let merged = apply_project_config(spec, config);

    assert_eq!(merged.goal, "ship");
    assert_eq!(merged.workspace.as_deref(), Some("/repo"));
    assert_eq!(
        merged.agents.get("codex").unwrap().binary.as_deref(),
        Some("codex-task")
    );
    assert_eq!(
        merged.agents.get("hermes").unwrap().binary.as_deref(),
        Some("hermes")
    );
    assert_eq!(merged.steps.len(), 1);
    assert_eq!(
        command_config_run(merged.commands.get("lint").unwrap()),
        "cargo clippy"
    );
    assert_eq!(
        command_config_run(merged.commands.get("test").unwrap()),
        "cargo test"
    );
}

#[test]
fn status_logs_are_scanned_for_actionable_lines() {
    let log = b"working: a\ndone: one\nworking: b\nfailed: two\npartial".to_vec();
    let last = find_last_actionable(&log).unwrap();
    assert_eq!(last.kind, WakeKind::Failed);
    assert_eq!(last.end, 44);
    assert_eq!(find_first_actionable(&log, 0), Ok(("done: one".to_owned(), 21)));
    assert_eq!(find_first_actionable(&log, 21), Ok(("failed: two".to_owned(), 44)));
    assert_eq!(find_first_actionable(&b"working: x\npart".to_vec(), 0), Err(11));
    let crlf = b"done: ok\r\n".to_vec();
    assert_eq!(find_first_actionable(&crlf, 0), Ok(("done: ok".to_owned(), 10)));
    assert_eq!(niles::tmux::format_capture(&vec![0x66, 0xff, 0x6f, 0x20, 0x0a, 0x0a]), "f\u{fffd}o\n");
}

#[test]
fn numbers_print_and_parse_as_std_does() {
    assert_eq!(u64_to_decimal(0), "0");
    assert_eq!(u64_to_decimal(u64::MAX), u64::MAX.to_string());
    assert_eq!(i64_to_decimal(i64::MIN), i64::MIN.to_string());
    assert_eq!(parse_u64_str("+42"), Some(42));
    assert_eq!(parse_u64_str("18446744073709551615"), Some(u64::MAX));
    assert_eq!(parse_u64_str("18446744073709551616"), None);
    assert_eq!(parse_u64_str(""), None);
    for bad in ["", "x1", "18446744073709551616", "+"] {
        assert_eq!(
            int_error(bad),
            bad.parse::<u64>().unwrap_err().to_string(),
            "{bad}"
        );
    }
}

#[test]
fn text_helpers_agree_with_str() {
    for s in ["", "  a b \n", "\t\u{3000}x\u{3000}"] {
        assert_eq!(trim_str(s), s.trim());
        assert_eq!(trim_end_str(s), s.trim_end());
        assert_eq!(
            squash_whitespace_exec(s),
            s.split_whitespace().collect::<Vec<_>>().join(" ")
        );
    }
    assert_eq!(split_char("a,b,,c", ','), vec!["a", "b", "", "c"]);
    assert!(contains_str("can't find session: x", "find session"));
    assert!(str_eq("é", "é"));
    for (a, b) in [("a", "b"), ("ab", "a"), ("", "x"), ("Z", "a"), ("é", "z")] {
        assert_eq!(str_le(a, b), a <= b, "{a} <= {b}");
    }
}

#[test]
fn a_task_summary_lists_agents_commands_steps_and_workspace() {
    let mut agents = KeyedMap::new();
    agents.insert("zeta".to_owned(), agent("zeta-bin"));
    agents.insert(
        "codex".to_owned(),
        AgentConfig {
            binary: None,
            args: Vec::new(),
            prompt: PromptMode::Stdin,
        },
    );
    let mut commands = KeyedMap::new();
    commands.insert("test".to_owned(), CommandConfig::Short("cargo test".to_owned()));
    commands.insert(
        "lint".to_owned(),
        CommandConfig::Full {
            run: "cargo clippy \"-D\"".to_owned(),
        },
    );
    let spec = TaskSpec {
        goal: "ship".to_owned(),
        workspace: Some("/repo".to_owned()),
        agents,
        steps: vec![
            TaskStep::Agent {
                agent: "codex".to_owned(),
                task: "fix\nit".to_owned(),
            },
            TaskStep::Command {
                command: "test".to_owned(),
            },
        ],
        commands,
    };
    assert_eq!(
        niles::spec::summarize_spec(&spec),
        "{\"agents\":[{\"binary\":\"codex\",\"id\":\"codex\"},{\"binary\":\"zeta-bin\",\"id\":\"zeta\"}],\
         \"commands\":{\"lint\":{\"run\":\"cargo clippy \\\"-D\\\"\"},\"test\":\"cargo test\"},\
         \"steps\":[{\"agent\":\"codex\",\"task\":\"fix\\nit\"},{\"command\":\"test\"}],\
         \"workspace\":\"/repo\"}"
    );

    let empty = TaskSpec {
        goal: "g".to_owned(),
        workspace: None,
        agents: KeyedMap::new(),
        steps: Vec::new(),
        commands: KeyedMap::new(),
    };
    assert_eq!(
        niles::spec::summarize_spec(&empty),
        "{\"agents\":[],\"commands\":{},\"steps\":[],\"workspace\":null}"
    );
}

#[test]
fn a_progress_note_moves_no_wake() {
    let log = b"working: start\ndone: first pass\n".to_vec();
    let mut longer = log.clone();
    longer.extend_from_slice(b"working: polishing\n");
    let before = find_last_actionable(&log).unwrap();
    let after = find_last_actionable(&longer).unwrap();
    assert_eq!(before.end, after.end);
    assert_eq!(before.kind, after.kind);
    assert_eq!(after.end, log.len() as u64);
}

#[test]
fn an_ascii_status_line_reads_as_its_bytes() {
    let log = b"done: shipped\r\nworking: more\n".to_vec();
    let (text, kind) = niles::statuslog::read_line(&log, 0, 14);
    assert_eq!(text, "done: shipped");
    assert_eq!(kind, Some(WakeKind::Done));
    let (text, kind) = niles::statuslog::read_line(&log, 15, 28);
    assert_eq!(text, "working: more");
    assert_eq!(kind, None);
}
