use session_naming::tab_title::{
    agent_session_title, agent_tab_text_preference, preferred_agent_tab_titles, rail_task_label,
    stored_handle_title, tab_info_text, tab_secondary_line, tab_title, terminal_agent_text,
    AgentSessionHandle, AgentTabTextPreference, CliAgentId, CliAgentSessionText,
    FocusedSessionText, TabInfoKind, TabState, TabTitleSettings, TerminalAgentText,
};

fn text(s: &str) -> Option<String> {
    Some(s.to_owned())
}

fn agent_text() -> TerminalAgentText {
    TerminalAgentText {
        conversation_display_title: text("Conversation title"),
        conversation_latest_user_prompt: text("latest conversation prompt"),
        cli_agent_title: text("Renamed session"),
        cli_agent_latest_user_prompt: text("latest cli prompt"),
        is_oz_agent: true,
        cli_agent: Some(CliAgentId(1)),
    }
}

fn settings() -> TabTitleSettings {
    TabTitleSettings {
        projects_enabled: true,
        resume_project_tasks_enabled: true,
        two_line: true,
        primary: TabInfoKind::AgentSession,
        secondary: TabInfoKind::WorkingDirectory,
        rail_task: TabInfoKind::AgentSession,
        preference: AgentTabTextPreference::ConversationTitle,
    }
}

fn focused(agent_text: TerminalAgentText) -> Option<FocusedSessionText> {
    Some(FocusedSessionText {
        agent_text,
        last_completed_command: text("cargo test"),
        working_directory: text("~/dev/warp"),
        git_branch: text("main"),
    })
}

fn tab(custom_title: Option<String>, focused: Option<FocusedSessionText>) -> TabState {
    TabState {
        custom_title,
        display_title: "zsh".to_owned(),
        focused,
        active_session_path: text("/Users/sam/dev/orbit"),
    }
}

#[test]
fn preference_picks_title_or_prompt_for_each_source() {
    let t = agent_text();
    let (conversation, cli) =
        preferred_agent_tab_titles(&t, AgentTabTextPreference::ConversationTitle);
    assert_eq!(conversation.as_deref(), Some("Conversation title"));
    assert_eq!(cli.as_deref(), Some("Renamed session"));
    let (conversation, cli) = preferred_agent_tab_titles(&t, AgentTabTextPreference::LatestUserPrompt);
    assert_eq!(conversation.as_deref(), Some("latest conversation prompt"));
    assert_eq!(cli.as_deref(), Some("latest cli prompt"));

    let sparse = TerminalAgentText {
        conversation_display_title: None,
        conversation_latest_user_prompt: text("only prompt"),
        cli_agent_title: text("only title"),
        cli_agent_latest_user_prompt: None,
        is_oz_agent: false,
        cli_agent: None,
    };
    let (conversation, cli) =
        preferred_agent_tab_titles(&sparse, AgentTabTextPreference::ConversationTitle);
    assert_eq!(conversation.as_deref(), Some("only prompt"));
    assert_eq!(cli.as_deref(), Some("only title"));
    let (_, cli) = preferred_agent_tab_titles(&sparse, AgentTabTextPreference::LatestUserPrompt);
    assert_eq!(cli.as_deref(), Some("only title"));
}

#[test]
fn cli_agent_title_wins_over_conversation_title() {
    let t = agent_text();
    assert_eq!(
        agent_session_title(Some(&t), AgentTabTextPreference::ConversationTitle).as_deref(),
        Some("Renamed session")
    );
    let no_cli = TerminalAgentText {
        cli_agent_title: None,
        cli_agent_latest_user_prompt: None,
        ..agent_text()
    };
    assert_eq!(
        agent_session_title(Some(&no_cli), AgentTabTextPreference::ConversationTitle).as_deref(),
        Some("Conversation title")
    );
    assert_eq!(agent_session_title(None, AgentTabTextPreference::ConversationTitle), None);
    assert_eq!(
        agent_tab_text_preference(true),
        AgentTabTextPreference::LatestUserPrompt
    );
    assert_eq!(
        agent_tab_text_preference(false),
        AgentTabTextPreference::ConversationTitle
    );
}

#[test]
fn stale_cli_agents_contribute_no_text() {
    let stale = CliAgentSessionText {
        agent: CliAgentId(7),
        is_plugin_backed: false,
        title: text("stale"),
        latest_user_prompt: text("stale prompt"),
    };
    let t = terminal_agent_text(Some(&stale), false, text("conv"), text("prompt"));
    assert_eq!(t.conversation_display_title, None);
    assert_eq!(t.cli_agent_title, None);
    assert!(!t.is_oz_agent);
    // Which agent runs is known even when its texts are stale.
    assert_eq!(t.cli_agent, Some(CliAgentId(7)));

    let live = CliAgentSessionText {
        agent: CliAgentId(3),
        is_plugin_backed: true,
        title: text("live"),
        latest_user_prompt: text("live prompt"),
    };
    let t = terminal_agent_text(Some(&live), false, text("conv"), None);
    assert_eq!(t.conversation_display_title.as_deref(), Some("conv"));
    assert_eq!(t.cli_agent_title.as_deref(), Some("live"));
    assert_eq!(t.cli_agent_latest_user_prompt.as_deref(), Some("live prompt"));
    assert!(t.is_oz_agent);
    assert_eq!(t.cli_agent, Some(CliAgentId(3)));

    let t = terminal_agent_text(None, true, None, text("prompt"));
    assert_eq!(t.cli_agent, None);
    assert!(t.is_oz_agent);
    assert_eq!(t.cli_agent_title, None);
    assert_eq!(t.conversation_latest_user_prompt.as_deref(), Some("prompt"));
}

#[test]
fn tab_lines_skip_blank_text() {
    let focused = FocusedSessionText {
        agent_text: agent_text(),
        last_completed_command: text("  \t"),
        working_directory: text("~/dev/warp"),
        git_branch: None,
    };
    let pref = AgentTabTextPreference::ConversationTitle;
    assert_eq!(tab_info_text(TabInfoKind::Command, Some(&focused), pref), None);
    assert_eq!(
        tab_info_text(TabInfoKind::WorkingDirectory, Some(&focused), pref).as_deref(),
        Some("~/dev/warp")
    );
    assert_eq!(tab_info_text(TabInfoKind::Branch, Some(&focused), pref), None);
    assert_eq!(
        tab_info_text(TabInfoKind::UserInstruction, Some(&focused), pref).as_deref(),
        Some("latest cli prompt")
    );
    assert_eq!(
        tab_info_text(TabInfoKind::AgentSession, Some(&focused), pref).as_deref(),
        Some("Renamed session")
    );
    assert_eq!(tab_info_text(TabInfoKind::Branch, None, pref), None);
}

#[test]
fn tab_title_prefers_rename_then_primary_then_terminal_title() {
    let on = settings();
    assert_eq!(tab_title(&tab(text("Custom"), focused(agent_text())), &on), "Custom");
    assert_eq!(tab_title(&tab(None, focused(agent_text())), &on), "Renamed session");
    let off = TabTitleSettings { projects_enabled: false, ..settings() };
    assert_eq!(tab_title(&tab(None, focused(agent_text())), &off), "zsh");
    assert_eq!(tab_title(&tab(None, None), &on), "zsh");
}

#[test]
fn second_line_needs_two_lines_and_a_different_kind() {
    let on = settings();
    let t = tab(None, focused(agent_text()));
    assert_eq!(tab_secondary_line(&t, &on).as_deref(), Some("~/dev/warp"));
    let one_line = TabTitleSettings { two_line: false, ..settings() };
    assert_eq!(tab_secondary_line(&t, &one_line), None);
    let off = TabTitleSettings { projects_enabled: false, ..settings() };
    assert_eq!(tab_secondary_line(&t, &off), None);
    // The same information is never shown twice.
    let same = TabTitleSettings { secondary: TabInfoKind::AgentSession, ..settings() };
    assert_eq!(tab_secondary_line(&t, &same), None);
}

#[test]
fn rail_rows_fall_back_to_stored_titles_then_tab_title() {
    let handles = vec![
        AgentSessionHandle {
            cwd: "/Users/sam/dev/orbit".to_owned(),
            title: text("Orbit work"),
        },
        AgentSessionHandle {
            cwd: "/Users/sam/dev/warp".to_owned(),
            title: None,
        },
        AgentSessionHandle {
            cwd: "/Users/sam/dev/warp".to_owned(),
            title: text("Older warp work"),
        },
    ];
    let on = settings();
    let exited = tab(None, None);
    assert_eq!(
        stored_handle_title(&exited, &on, &handles).as_deref(),
        Some("Orbit work")
    );
    // The first handle for the directory decides, even without a title.
    let warp = TabState { active_session_path: text("/Users/sam/dev/warp"), ..tab(None, None) };
    assert_eq!(stored_handle_title(&warp, &on, &handles), None);
    let no_resume = TabTitleSettings { resume_project_tasks_enabled: false, ..settings() };
    assert_eq!(stored_handle_title(&exited, &no_resume, &handles), None);
    let no_path = TabState { active_session_path: None, ..tab(None, None) };
    assert_eq!(stored_handle_title(&no_path, &on, &handles), None);

    // Live agent: its name. Exited agent: the stored title. Neither: the tab title.
    assert_eq!(rail_task_label(&tab(None, focused(agent_text())), &on, &handles), "Renamed session");
    assert_eq!(rail_task_label(&exited, &on, &handles), "Orbit work");
    assert_eq!(rail_task_label(&warp, &on, &handles), "zsh");
}

#[test]
fn rail_rows_are_never_blank() {
    let blank = TerminalAgentText {
        cli_agent_title: text("  "),
        ..agent_text()
    };
    let handles = vec![AgentSessionHandle {
        cwd: "/Users/sam/dev/orbit".to_owned(),
        title: text(" \t"),
    }];
    let on = TabTitleSettings { primary: TabInfoKind::Command, ..settings() };
    // A blank agent name and a blank stored title both give way to the tab title.
    assert_eq!(rail_task_label(&tab(None, focused(blank)), &on, &handles), "cargo test");
    let t = TabState { custom_title: text("T"), ..tab(None, None) };
    assert_eq!(rail_task_label(&t, &on, &handles), "T");
}
