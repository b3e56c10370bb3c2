use niles::session::{launch_accepts_event, launch_step, LaunchAction, LaunchEvent, LaunchState};
use niles::session::{
    choose_workspace_session, deterministic_session, deterministic_tail, exit_code_label,
    foreground_failure, manager_prompt_io, manager_session, opening_turn, prepare_manager_command,
    prepare_manager_window_command, sort_texts, startup_context, AgentInvocation, BriefDelivery,
    ManagerCommand, WorkspaceSessionChoice, STARTUP_PROMPT,
};
use niles::tmux::target::SessionName;

fn system_prompt_agent() -> AgentInvocation {
    AgentInvocation {
        binary: "lead-cli".to_owned(),
        args: ["--model", "opus", "--effort", "max"].map(str::to_owned).to_vec(),
        env: Vec::new(),
        brief: BriefDelivery::SystemPrompt("--append-system-prompt".to_owned()),
    }
}

fn codex() -> AgentInvocation {
    AgentInvocation {
        binary: "codex".to_owned(),
        args: Vec::new(),
        env: Vec::new(),
        brief: BriefDelivery::Arg,
    }
}

fn hermes() -> AgentInvocation {
    AgentInvocation {
        binary: "hermes".to_owned(),
        args: Vec::new(),
        env: Vec::new(),
        brief: BriefDelivery::Flag {
            value: "-q".to_owned(),
        },
    }
}

fn assert_prompt_parity(invocation: AgentInvocation, brief: &str) -> ManagerCommand {
    let foreground = prepare_manager_command(invocation.clone(), brief.to_owned());
    let window = prepare_manager_window_command(invocation, brief.to_owned());

    assert_eq!(window.invocation.args, foreground.invocation.args);
    assert_eq!(window.stdin, foreground.stdin);
    window
}

#[test]
fn manager_window_prompt_matches_foreground_for_system_prompt_agent() {
    assert_prompt_parity(system_prompt_agent(), "brief body");
}

#[test]
fn manager_window_prompt_matches_foreground_for_combined_arg_agent() {
    let brief = "brief body";
    let window = assert_prompt_parity(codex(), brief);

    assert_eq!(window.stdin, None);
    assert_eq!(
        window.invocation.args,
        vec!["brief body\n\nStart the Niles manager session.".to_owned()]
    );
}

#[test]
fn manager_prompt_args_seed_a_hermes_query() {
    let args = manager_prompt_io(hermes().brief, "brief body".to_owned()).args;

    assert_eq!(args[0], "-q");
    assert_eq!(args[1], format!("brief body\n\n{STARTUP_PROMPT}"));
    assert_eq!(args.len(), 2);
}

#[test]
fn manager_prompt_args_pass_brief_as_system_prompt() {
    let args = manager_prompt_io(system_prompt_agent().brief, "brief body".to_owned()).args;

    assert_eq!(args.len(), 3);
    assert_eq!(args[0], "--append-system-prompt");
    assert_eq!(args[1], "brief body");
    assert_eq!(args[2], "Start the Niles manager session.");
}

#[test]
fn a_stdin_agent_takes_the_opening_turn_on_stdin() {
    let io = manager_prompt_io(BriefDelivery::Stdin, "b".to_owned());
    assert!(io.args.is_empty());
    assert_eq!(io.stdin.as_deref(), Some("b\n\nStart the Niles manager session."));
    assert_eq!(opening_turn("b"), "b\n\nStart the Niles manager session.");
}

#[test]
fn the_invocation_keeps_its_own_arguments_first() {
    let command = prepare_manager_command(system_prompt_agent(), "brief body".to_owned());
    assert_eq!(command.invocation.binary, "lead-cli");
    assert_eq!(
        command.invocation.args,
        [
            "--model",
            "opus",
            "--effort",
            "max",
            "--append-system-prompt",
            "brief body",
            "Start the Niles manager session."
        ]
        .map(str::to_owned)
    );
    assert_eq!(command.stdin, None);
}

#[test]
fn a_failed_lead_names_its_exit() {
    assert_eq!(exit_code_label(Some(2)), "2");
    assert_eq!(exit_code_label(Some(-1)), "-1");
    assert_eq!(exit_code_label(None), "signal");
    assert_eq!(
        foreground_failure("lead-cli", Some(3)),
        "foreground agent `lead-cli` exited with 3"
    );
}

#[test]
fn deterministic_session_is_non_ambient_and_stable() {
    let workspace = "/tmp/niles-workspace-session-deterministic-1234";

    let first = deterministic_session(workspace);
    let second = deterministic_session(workspace);

    assert_eq!(first, second);
    assert!(first
        .as_str()
        .starts_with("niles-niles-workspace-session-deterministic-"));
    assert_ne!(first.as_str(), "niles");
}

#[test]
fn the_tail_is_the_low_half_of_the_fnv_hash() {
    // FNV-1a of the empty input is the offset basis; its low 32 bits are 0x84222325.
    assert_eq!(deterministic_tail(""), "84222325");
    // FNV-1a of "a" is 0xaf63dc4c8601ec8c.
    assert_eq!(deterministic_tail("a"), "8601ec8c");
    assert_eq!(deterministic_tail("/w").len(), 8);
}

fn session(name: &str) -> SessionName {
    SessionName::new(name.to_owned()).unwrap()
}

#[test]
fn live_manager_session_wins_over_differing_pointer() {
    let choice = choose_workspace_session(
        Some((session("niles"), true)),
        Some((session("aquila"), true)),
        "/w",
    );
    assert!(matches!(choice, WorkspaceSessionChoice::Manager(s) if s.as_str() == "niles"));
}

#[test]
fn pointer_is_honored_when_no_manager_session_exists() {
    let choice = choose_workspace_session(None, Some((session("aquila"), true)), "/w");
    assert!(matches!(choice, WorkspaceSessionChoice::Pointer(s) if s.as_str() == "aquila"));
}

#[test]
fn dead_manager_session_falls_back_to_live_pointer() {
    let choice = choose_workspace_session(
        Some((session("niles"), false)),
        Some((session("aquila"), true)),
        "/w",
    );
    assert!(matches!(choice, WorkspaceSessionChoice::Pointer(s) if s.as_str() == "aquila"));
}

#[test]
fn dead_pinned_session_falls_back_to_deterministic() {
    let choice = choose_workspace_session(None, Some((session("aquila"), false)), "/w/proj");
    let expected = deterministic_session("/w/proj");
    assert!(matches!(choice, WorkspaceSessionChoice::Deterministic(s) if s == expected));
}

#[test]
fn the_manager_window_names_its_session() {
    assert_eq!(manager_session(None), Ok(None));
    assert_eq!(manager_session(Some(String::new())), Ok(None));
    assert_eq!(
        manager_session(Some("niles:niles-manager".to_owned()))
            .unwrap()
            .unwrap()
            .as_str(),
        "niles"
    );
    assert_eq!(
        manager_session(Some("broken".to_owned())).unwrap_err(),
        "latest manager session window is invalid: broken: tmux window target `broken` must be session:window"
    );
}

#[test]
fn startup_context_lists_worker_directories() {
    let ids = vec!["beta".to_owned(), "alpha".to_owned()];
    assert_eq!(startup_context(&ids), "worker: alpha, beta");
}

#[test]
fn startup_context_reports_none_for_an_empty_workspace() {
    assert_eq!(startup_context(&Vec::new()), "worker: none");
}

#[test]
fn worker_ids_sort_in_text_order() {
    let ids = ["b", "a-2", "a", "B", "a-10"].map(str::to_owned).to_vec();
    let mut expected = ids.clone();
    expected.sort();
    assert_eq!(sort_texts(&ids), expected);
}

#[test]
fn bare_niles_outside_tmux_fails_before_any_setup() {
    let (state, action) = launch_step(LaunchState::Start, LaunchEvent::Session { in_tmux: false, name: None });
    assert_eq!(state, LaunchState::Finished);
    assert_eq!(
        action,
        LaunchAction::Exit(Err(
            "niles must run inside tmux. Start one with `tmux new -s niles`, or attach an existing session, then rerun."
                .to_owned()
        ))
    );
    assert!(!launch_accepts_event(state, &LaunchEvent::Completed(Ok(()))));
}

#[test]
fn bare_niles_creates_the_worker_dir_then_the_manifest_then_runs_the_lead() {
    let (state, action) = launch_step(
        LaunchState::Start,
        LaunchEvent::Session { in_tmux: true, name: Some("work".to_owned()) },
    );
    assert_eq!((state, action), (LaunchState::CreatingWorkerDir, LaunchAction::CreateWorkerDir));
    let (state, action) = launch_step(state, LaunchEvent::Completed(Ok(())));
    assert_eq!((state, action), (LaunchState::EnsuringManifest, LaunchAction::EnsureManifest));
    let (state, action) = launch_step(state, LaunchEvent::Completed(Ok(())));
    assert_eq!((state, action), (LaunchState::RunningLead, LaunchAction::LaunchLead));
    let (state, action) = launch_step(state, LaunchEvent::Completed(Err("foreground agent `codex` exited with 3".to_owned())));
    assert_eq!(
        (state, action),
        (LaunchState::Finished, LaunchAction::Exit(Err("foreground agent `codex` exited with 3".to_owned())))
    );
}

#[test]
fn bare_niles_stops_at_a_failed_prelude_or_an_unnamed_session() {
    let (state, action) = launch_step(LaunchState::CreatingWorkerDir, LaunchEvent::Completed(Err("failed to create .niles/worker".to_owned())));
    assert_eq!(
        (state, action),
        (LaunchState::Finished, LaunchAction::Exit(Err("failed to create .niles/worker".to_owned())))
    );
    let (state, action) = launch_step(LaunchState::Start, LaunchEvent::Session { in_tmux: true, name: None });
    assert_eq!(
        (state, action),
        (LaunchState::Finished, LaunchAction::Exit(Err("failed to determine the current tmux session name".to_owned())))
    );
}
