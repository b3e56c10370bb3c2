use niles::bootstrap::{
    prompt_existing_session_action, session_candidates, tmux_launch_action, tmux_session_present,
    unaddressable_reason, ExistingSessionAction, PromptStep, SessionPrompt, TerminalMode,
    TmuxLaunchAction, FOREGROUND_TMUX_SESSION,
};

#[test]
fn tmux_session_present_accepts_nonempty_env() {
    assert!(tmux_session_present(Some("/tmp/tmux-501/default,1,0")));
}

#[test]
fn tmux_session_present_rejects_missing_or_empty_env() {
    assert!(!tmux_session_present(None));
    assert!(!tmux_session_present(Some("")));
    assert!(!tmux_session_present(Some("   ")));
}

#[test]
fn tmux_launch_action_continues_inside_tmux_even_without_tty() {
    let action = tmux_launch_action(
        Some("/tmp/tmux-501/default,1,0"),
        TerminalMode {
            stdin: false,
            stdout: false,
        },
        true,
    )
    .unwrap();

    assert_eq!(action, TmuxLaunchAction::ContinueHere);
}

#[test]
fn tmux_launch_action_starts_session_for_interactive_no_tmux() {
    let action = tmux_launch_action(
        None,
        TerminalMode {
            stdin: true,
            stdout: true,
        },
        false,
    )
    .unwrap();

    assert_eq!(
        action,
        TmuxLaunchAction::StartSession {
            session: FOREGROUND_TMUX_SESSION,
        }
    );
}

#[test]
fn tmux_launch_action_prompts_for_interactive_existing_session() {
    let action = tmux_launch_action(
        None,
        TerminalMode {
            stdin: true,
            stdout: true,
        },
        true,
    )
    .unwrap();

    assert_eq!(action, TmuxLaunchAction::PromptExistingSession);
}

#[test]
fn tmux_launch_action_errors_for_non_tty_no_tmux() {
    let err = tmux_launch_action(
        None,
        TerminalMode {
            stdin: true,
            stdout: false,
        },
        true,
    )
    .unwrap_err();

    assert!(err.to_string().contains("not both TTYs"));
    assert!(err.to_string().contains("will not auto-start tmux"));
}

fn none_exist() -> Vec<String> {
    Vec::new()
}

#[test]
fn existing_session_prompt_can_attach_existing_session() {
    let (action, output) = prompt_existing_session_action(
        "1\n",
        &vec![FOREGROUND_TMUX_SESSION.to_owned()],
        &none_exist(),
    );

    assert_eq!(
        action.unwrap(),
        ExistingSessionAction::Attach(FOREGROUND_TMUX_SESSION.to_owned())
    );
    assert!(output.contains("Live Niles sessions:"));
    assert!(output.contains("  1. niles"));
    assert!(output.contains("Selection [1-2]: "));
}

#[test]
fn a_live_session_under_another_name_is_still_offered() {
    let candidates = session_candidates(FOREGROUND_TMUX_SESSION, false, &vec!["aquila".to_owned()]);

    assert_eq!(candidates, ["aquila"]);
}

#[test]
fn the_default_session_is_offered_even_without_a_manager_window() {
    let candidates = session_candidates(FOREGROUND_TMUX_SESSION, true, &Vec::new());

    assert_eq!(candidates, ["niles"]);
}

#[test]
fn nothing_running_means_no_prompt_at_all() {
    assert!(session_candidates(FOREGROUND_TMUX_SESSION, false, &Vec::new()).is_empty());
}

#[test]
fn the_default_session_is_never_listed_twice() {
    let live = vec!["niles".to_owned(), "aquila".to_owned()];

    assert_eq!(
        session_candidates(FOREGROUND_TMUX_SESSION, true, &live),
        ["niles", "aquila"]
    );
}

#[test]
fn existing_session_prompt_lists_every_live_niles_session() {
    let live = vec!["niles".to_owned(), "aquila".to_owned(), "orion".to_owned()];

    let (action, output) = prompt_existing_session_action("3\n", &live, &none_exist());

    assert_eq!(action.unwrap(), ExistingSessionAction::Attach("orion".to_owned()));
    assert!(output.contains("  1. niles"));
    assert!(output.contains("  2. aquila"));
    assert!(output.contains("  3. orion"));
    assert!(output.contains("  4. Start a new session with another name."));
}

#[test]
fn existing_session_prompt_reprompts_on_out_of_range_and_junk() {
    let (action, output) = prompt_existing_session_action(
        "0\n9\nabc\n1\n",
        &vec![FOREGROUND_TMUX_SESSION.to_owned()],
        &none_exist(),
    );

    assert_eq!(
        action.unwrap(),
        ExistingSessionAction::Attach(FOREGROUND_TMUX_SESSION.to_owned())
    );
    assert_eq!(output.matches("Please answer").count(), 3);
}

#[test]
fn new_session_name_prompt_rejects_names_tmux_cannot_target() {
    let (action, output) = prompt_existing_session_action(
        "2\nmy.proj\nniles-2\n",
        &vec![FOREGROUND_TMUX_SESSION.to_owned()],
        &none_exist(),
    );

    assert_eq!(
        action.unwrap(),
        ExistingSessionAction::StartNamedSession("niles-2".to_owned())
    );
    assert!(output.contains("`:` and `.` as target separators"));
}

#[test]
fn new_session_name_prompt_rejects_a_session_that_is_live_but_unlisted() {
    let (action, output) = prompt_existing_session_action(
        "2\nscratch\nniles-2\n",
        &vec![FOREGROUND_TMUX_SESSION.to_owned()],
        &vec!["scratch".to_owned()],
    );

    assert_eq!(
        action.unwrap(),
        ExistingSessionAction::StartNamedSession("niles-2".to_owned())
    );
    assert!(output.contains("tmux session `scratch` already exists."));
}

#[test]
fn existing_session_prompt_reads_different_new_session_name() {
    let (action, output) = prompt_existing_session_action(
        "2\n\nniles\nniles-2\n",
        &vec![FOREGROUND_TMUX_SESSION.to_owned()],
        &none_exist(),
    );

    assert_eq!(
        action.unwrap(),
        ExistingSessionAction::StartNamedSession("niles-2".to_owned())
    );
    assert!(output.contains("name cannot be empty"));
    assert!(output.contains("tmux session `niles` already exists."));
}

#[test]
fn an_input_that_ends_before_a_choice_fails() {
    let (action, _) = prompt_existing_session_action(
        "",
        &vec![FOREGROUND_TMUX_SESSION.to_owned()],
        &none_exist(),
    );
    assert!(action.is_err());
}

#[test]
fn unaddressable_names_say_why() {
    assert_eq!(
        unaddressable_reason("").as_deref(),
        Some("session name cannot be empty")
    );
    assert!(unaddressable_reason("a:b").unwrap().contains("target separators"));
    assert_eq!(unaddressable_reason("niles-2"), None);
}

#[test]
fn the_prompt_steps_through_choosing_naming_and_checking() {
    let (mut prompt, menu) = SessionPrompt::start(vec!["niles".to_owned()]);
    assert!(menu.starts_with("Live Niles sessions:"));
    match prompt.on_line(Some("2")) {
        PromptStep::Ask(text) => assert!(!text.is_empty()),
        _ => panic!("choosing a new session asks for its name"),
    }
    match prompt.on_line(Some("fresh")) {
        PromptStep::CheckExists(name) => assert_eq!(name, "fresh"),
        _ => panic!("a name is checked against tmux"),
    }
    match prompt.on_exists(false) {
        PromptStep::Finished(action) => {
            assert_eq!(action, ExistingSessionAction::StartNamedSession("fresh".to_owned()))
        }
        _ => panic!("a free name is taken"),
    }
}
