//! Agent-aware tab titles: the single answer to "what is the agent in this
//! tab called", shared by the tab bar, the vertical tabs and the project
//! rail.
//!
//! The facts these rules decide on (the focused session's texts, the
//! settings, the stored session handles) are read from the running app by
//! the caller and handed in as plain values.
use vstd::prelude::*;
use crate::json::opt_string;
use crate::text::{trim, trim_chars, chars_of};

verus! {

/// Which text of an agent session names a tab.
#[derive(Clone, Copy, Debug, PartialEq, Eq, Structural)]
pub enum AgentTabTextPreference {
    ConversationTitle,
    LatestUserPrompt,
}

/// Which CLI agent runs in a session, by the app's id for it.
#[derive(Clone, Copy, Debug, PartialEq, Eq, Structural)]
pub struct CliAgentId(pub u32);

/// The agent-related texts of one terminal session.
pub struct TerminalAgentText {
    pub conversation_display_title: Option<String>,
    pub conversation_latest_user_prompt: Option<String>,
    pub cli_agent_title: Option<String>,
    pub cli_agent_latest_user_prompt: Option<String>,
    pub is_oz_agent: bool,
    /// The CLI agent running in the session, if any.
    pub cli_agent: Option<CliAgentId>,
}

/// What the terminal session knows of a CLI agent running in it.
pub struct CliAgentSessionText {
    /// Which CLI agent it is.
    pub agent: CliAgentId,
    /// The agent reports through a plugin, so its texts are live.
    pub is_plugin_backed: bool,
    /// The session's title-like text (what `/rename` updates).
    pub title: Option<String>,
    /// The session's latest user prompt.
    pub latest_user_prompt: Option<String>,
}

/// The distinct kinds of text a tab line can show.
#[derive(Clone, Copy, Debug, PartialEq, Eq, Structural)]
pub enum TabInfoKind {
    AgentSession,
    UserInstruction,
    Command,
    WorkingDirectory,
    Branch,
}

/// The texts of a tab's focused terminal session.
pub struct FocusedSessionText {
    pub agent_text: TerminalAgentText,
    pub last_completed_command: Option<String>,
    pub working_directory: Option<String>,
    pub git_branch: Option<String>,
}

/// A durable record of an agent session: the directory it ran in and the
/// last title seen for it.
pub struct AgentSessionHandle {
    pub cwd: String,
    pub title: Option<String>,
}

/// The tab settings and feature flags the title rules read.
pub struct TabTitleSettings {
    /// The Projects feature is on.
    pub projects_enabled: bool,
    /// Resuming project tasks is on.
    pub resume_project_tasks_enabled: bool,
    /// Tabs show two lines.
    pub two_line: bool,
    /// What the first tab line shows.
    pub primary: TabInfoKind,
    /// What the second tab line shows, as the settings resolve it against
    /// the primary choice.
    pub secondary: TabInfoKind,
    /// What a project-rail task row shows.
    pub rail_task: TabInfoKind,
    /// Title or latest prompt for agent sessions.
    pub preference: AgentTabTextPreference,
}

/// What a tab (its pane group) knows of itself.
pub struct TabState {
    /// An explicit rename of the tab.
    pub custom_title: Option<String>,
    /// The terminal/shell title.
    pub display_title: String,
    /// The texts of the focused terminal session, if there is one.
    pub focused: Option<FocusedSessionText>,
    /// The active session's directory, where it has one as text.
    pub active_session_path: Option<String>,
}

/// `a.or(b)`.
pub open spec fn or_else(a: Option<Seq<char>>, b: Option<Seq<char>>) -> Option<Seq<char>> {
    match a {
        Some(x) => Some(x),
        None => b,
    }
}

/// The conversation (Oz) title of a session under `preference`.
pub open spec fn preferred_conversation_title(
    t: TerminalAgentText,
    preference: AgentTabTextPreference,
) -> Option<Seq<char>> {
    match preference {
        AgentTabTextPreference::ConversationTitle => or_else(
            opt_string(t.conversation_display_title),
            opt_string(t.conversation_latest_user_prompt),
        ),
        AgentTabTextPreference::LatestUserPrompt => or_else(
            opt_string(t.conversation_latest_user_prompt),
            opt_string(t.conversation_display_title),
        ),
    }
}

/// The CLI agent's title of a session under `preference`.
pub open spec fn preferred_cli_agent_title(
    t: TerminalAgentText,
    preference: AgentTabTextPreference,
) -> Option<Seq<char>> {
    match preference {
        AgentTabTextPreference::ConversationTitle => opt_string(t.cli_agent_title),
        AgentTabTextPreference::LatestUserPrompt => or_else(
            opt_string(t.cli_agent_latest_user_prompt),
            opt_string(t.cli_agent_title),
        ),
    }
}

/// The agent session name: the CLI agent's title over the conversation's.
pub open spec fn agent_session_title_spec(
    t: TerminalAgentText,
    preference: AgentTabTextPreference,
) -> Option<Seq<char>> {
    or_else(preferred_cli_agent_title(t, preference), preferred_conversation_title(t, preference))
}

/// Text worth showing: not blank once trimmed.
pub open spec fn non_blank(text: Option<Seq<char>>) -> Option<Seq<char>> {
    match text {
        Some(t) => if trim(t).len() > 0 {
            Some(t)
        } else {
            None
        },
        None => None,
    }
}

/// The text of one kind for a tab whose focused session is `focused`
/// (`None`: no focused session).
pub open spec fn tab_info_text_spec(
    kind: TabInfoKind,
    focused: Option<FocusedSessionText>,
    preference: AgentTabTextPreference,
) -> Option<Seq<char>> {
    match focused {
        None => None,
        Some(f) => match kind {
            TabInfoKind::AgentSession => agent_session_title_spec(f.agent_text, preference),
            TabInfoKind::UserInstruction => non_blank(
                or_else(
                    opt_string(f.agent_text.cli_agent_latest_user_prompt),
                    opt_string(f.agent_text.conversation_latest_user_prompt),
                ),
            ),
            TabInfoKind::Command => non_blank(opt_string(f.last_completed_command)),
            TabInfoKind::WorkingDirectory => non_blank(opt_string(f.working_directory)),
            TabInfoKind::Branch => non_blank(opt_string(f.git_branch)),
        },
    }
}

/// The title of the first handle recorded for `cwd`.
pub open spec fn stored_title_spec(handles: Seq<AgentSessionHandle>, cwd: Seq<char>) -> Option<
    Seq<char>,
>
    decreases handles.len(),
{
    if handles.len() == 0 {
        None
    } else if handles[0].cwd@ == cwd {
        opt_string(handles[0].title)
    } else {
        stored_title_spec(handles.drop_first(), cwd)
    }
}

/// The name shown on a tab: an explicit rename, then (with the Projects
/// feature on) the primary text, then the terminal title.
pub open spec fn tab_title_spec(tab: TabState, settings: TabTitleSettings) -> Seq<char> {
    match opt_string(tab.custom_title) {
        Some(c) => c,
        None => {
            let primary = tab_info_text_spec(settings.primary, tab.focused, settings.preference);
            if settings.projects_enabled && primary is Some {
                primary.unwrap()
            } else {
                tab.display_title@
            }
        },
    }
}

/// The second line of a tab: with the Projects feature on and two lines
/// configured, the secondary text, unless the secondary choice is the
/// primary one.
pub open spec fn tab_secondary_line_spec(tab: TabState, settings: TabTitleSettings) -> Option<
    Seq<char>,
> {
    if settings.projects_enabled && settings.two_line && settings.secondary != settings.primary {
        tab_info_text_spec(settings.secondary, tab.focused, settings.preference)
    } else {
        None
    }
}

/// The stored title of a tab whose agent has exited.
pub open spec fn stored_handle_title_spec(
    tab: TabState,
    settings: TabTitleSettings,
    handles: Seq<AgentSessionHandle>,
) -> Option<Seq<char>> {
    if settings.resume_project_tasks_enabled && tab.active_session_path is Some {
        stored_title_spec(handles, tab.active_session_path.unwrap()@)
    } else {
        None
    }
}

/// A project-rail row: the first non-blank of the configured text and the
/// stored title, else the tab's title.
pub open spec fn rail_task_label_spec(
    tab: TabState,
    settings: TabTitleSettings,
    handles: Seq<AgentSessionHandle>,
) -> Seq<char> {
    match or_else(
        non_blank(tab_info_text_spec(settings.rail_task, tab.focused, settings.preference)),
        non_blank(stored_handle_title_spec(tab, settings, handles)),
    ) {
        Some(t) => t,
        None => tab_title_spec(tab, settings),
    }
}

/// `Option<String>::clone`.
fn clone_text(text: &Option<String>) -> (r: Option<String>)
    ensures
        opt_string(r) == opt_string(*text),
{
    match text {
        Some(s) => Some(s.clone()),
        None => None,
    }
}

/// `a.or(b)` on owned texts.
fn or_text(a: Option<String>, b: Option<String>) -> (r: Option<String>)
    ensures
        opt_string(r) == or_else(opt_string(a), opt_string(b)),
{
    match a {
        Some(x) => Some(x),
        None => b,
    }
}

/// The setting `use_latest_user_prompt_as_conversation_title_in_tab_names`
/// as a preference.
pub fn agent_tab_text_preference(use_latest_user_prompt: bool) -> (r: AgentTabTextPreference)
    ensures
        r == (if use_latest_user_prompt {
            AgentTabTextPreference::LatestUserPrompt
        } else {
            AgentTabTextPreference::ConversationTitle
        }),
{
    if use_latest_user_prompt {
        AgentTabTextPreference::LatestUserPrompt
    } else {
        AgentTabTextPreference::ConversationTitle
    }
}

/// The (conversation title, CLI agent title) of a session under
/// `preference`: the preferred text of each, falling back to the other.
pub fn preferred_agent_tab_titles(
    agent_text: &TerminalAgentText,
    preference: AgentTabTextPreference,
) -> (r: (Option<String>, Option<String>))
    ensures
        opt_string(r.0) == preferred_conversation_title(*agent_text, preference),
        opt_string(r.1) == preferred_cli_agent_title(*agent_text, preference),
{
    let conversation_title = match preference {
        AgentTabTextPreference::ConversationTitle => or_text(
            clone_text(&agent_text.conversation_display_title),
            clone_text(&agent_text.conversation_latest_user_prompt),
        ),
        AgentTabTextPreference::LatestUserPrompt => or_text(
            clone_text(&agent_text.conversation_latest_user_prompt),
            clone_text(&agent_text.conversation_display_title),
        ),
    };
    let cli_agent_title = match preference {
        AgentTabTextPreference::ConversationTitle => clone_text(&agent_text.cli_agent_title),
        AgentTabTextPreference::LatestUserPrompt => or_text(
            clone_text(&agent_text.cli_agent_latest_user_prompt),
            clone_text(&agent_text.cli_agent_title),
        ),
    };
    (conversation_title, cli_agent_title)
}

/// The agent session name for a tab whose focused session has
/// `agent_text`, if it has one: the CLI agent's own title wins over the
/// conversation title. `None` without a focused session.
pub fn agent_session_title(
    agent_text: Option<&TerminalAgentText>,
    preference: AgentTabTextPreference,
) -> (r: Option<String>)
    ensures
        opt_string(r) == match agent_text {
            Some(t) => agent_session_title_spec(*t, preference),
            None => None,
        },
{
    match agent_text {
        Some(t) => {
            let (conversation_title, cli_agent_title) = preferred_agent_tab_titles(t, preference);
            or_text(cli_agent_title, conversation_title)
        },
        None => None,
    }
}

/// The agent texts of a terminal session. A CLI agent that is not
/// plugin-backed has stale texts, so none is taken then; otherwise the
/// conversation's texts, and the CLI session's where there is one. The
/// session counts as an Oz agent when it is an ambient agent session or has
/// a conversation title.
pub fn terminal_agent_text(
    cli_session: Option<&CliAgentSessionText>,
    is_ambient_agent: bool,
    conversation_display_title: Option<String>,
    conversation_latest_user_prompt: Option<String>,
) -> (r: TerminalAgentText)
    ensures
        r.cli_agent == match cli_session {
            Some(s) => Some(s.agent),
            None => None,
        },
        (cli_session matches Some(s) && !s.is_plugin_backed) ==> {
            &&& r.conversation_display_title is None
            &&& r.conversation_latest_user_prompt is None
            &&& r.cli_agent_title is None
            &&& r.cli_agent_latest_user_prompt is None
            &&& r.is_oz_agent == is_ambient_agent
        },
        !(cli_session matches Some(s) && !s.is_plugin_backed) ==> {
            &&& opt_string(r.conversation_display_title) == opt_string(conversation_display_title)
            &&& opt_string(r.conversation_latest_user_prompt) == opt_string(
                conversation_latest_user_prompt,
            )
            &&& r.is_oz_agent == (conversation_display_title is Some || is_ambient_agent)
            &&& opt_string(r.cli_agent_title) == match cli_session {
                Some(s) => opt_string(s.title),
                None => None,
            }
            &&& opt_string(r.cli_agent_latest_user_prompt) == match cli_session {
                Some(s) => opt_string(s.latest_user_prompt),
                None => None,
            }
        },
{
    let mut agent_text = TerminalAgentText {
        conversation_display_title: None,
        conversation_latest_user_prompt: None,
        cli_agent_title: None,
        cli_agent_latest_user_prompt: None,
        is_oz_agent: is_ambient_agent,
        cli_agent: match cli_session {
            Some(session) => Some(session.agent),
            None => None,
        },
    };
    if let Some(session) = cli_session {
        if !session.is_plugin_backed {
            return agent_text;
        }
    }
    agent_text.is_oz_agent = conversation_display_title.is_some() || agent_text.is_oz_agent;
    agent_text.conversation_display_title = conversation_display_title;
    agent_text.conversation_latest_user_prompt = conversation_latest_user_prompt;
    if let Some(session) = cli_session {
        agent_text.cli_agent_title = clone_text(&session.title);
        agent_text.cli_agent_latest_user_prompt = clone_text(&session.latest_user_prompt);
    }
    agent_text
}

/// `text` unless it is blank once trimmed.
fn non_blank_text(text: Option<String>) -> (r: Option<String>)
    ensures
        opt_string(r) == non_blank(opt_string(text)),
{
    match text {
        Some(t) => {
            let chars = chars_of(t.as_str());
            if trim_chars(chars.as_slice()).len() > 0 {
                Some(t)
            } else {
                None
            }
        },
        None => None,
    }
}

/// One kind of text for a tab whose focused session is `focused`; `None`
/// when that information is not available (no focused session, no agent,
/// no command yet) or, but for the agent session name, blank.
pub fn tab_info_text(
    kind: TabInfoKind,
    focused: Option<&FocusedSessionText>,
    preference: AgentTabTextPreference,
) -> (r: Option<String>)
    ensures
        opt_string(r) == tab_info_text_spec(kind, deref_focused(focused), preference),
{
    let f = match focused {
        Some(f) => f,
        None => return None,
    };
    match kind {
        TabInfoKind::AgentSession => agent_session_title(Some(&f.agent_text), preference),
        TabInfoKind::UserInstruction => non_blank_text(
            or_text(
                clone_text(&f.agent_text.cli_agent_latest_user_prompt),
                clone_text(&f.agent_text.conversation_latest_user_prompt),
            ),
        ),
        TabInfoKind::Command => non_blank_text(clone_text(&f.last_completed_command)),
        TabInfoKind::WorkingDirectory => non_blank_text(clone_text(&f.working_directory)),
        TabInfoKind::Branch => non_blank_text(clone_text(&f.git_branch)),
    }
}

/// `focused` as an optional value, for the contracts.
pub open spec fn deref_focused(focused: Option<&FocusedSessionText>) -> Option<FocusedSessionText> {
    match focused {
        Some(f) => Some(*f),
        None => None,
    }
}

/// The focused session of a tab, borrowed.
fn focused_of(tab: &TabState) -> (r: Option<&FocusedSessionText>)
    ensures
        deref_focused(r) == tab.focused,
{
    match &tab.focused {
        Some(f) => Some(f),
        None => None,
    }
}

/// The name to show on a tab: an explicit rename wins, then (with the
/// Projects feature on) whatever the primary setting selects, then the
/// terminal title.
pub fn tab_title(tab: &TabState, settings: &TabTitleSettings) -> (r: String)
    ensures
        r@ == tab_title_spec(*tab, *settings),
{
    if let Some(custom) = &tab.custom_title {
        return custom.clone();
    }
    if settings.projects_enabled {
        if let Some(text) = tab_info_text(settings.primary, focused_of(tab), settings.preference) {
            return text;
        }
    }
    tab.display_title.clone()
}

/// The smaller second line of a two-line tab, or `None` when the tab is
/// single-line or there is nothing useful to show. The secondary choice is
/// resolved against the primary by the settings; a choice that still equals
/// the primary shows nothing, so a tab never shows the same information
/// twice.
pub fn tab_secondary_line(tab: &TabState, settings: &TabTitleSettings) -> (r: Option<String>)
    ensures
        opt_string(r) == tab_secondary_line_spec(*tab, *settings),
{
    if !settings.projects_enabled || !settings.two_line || settings.secondary == settings.primary {
        return None;
    }
    tab_info_text(settings.secondary, focused_of(tab), settings.preference)
}

/// The label of a task row in the project rail: the configured text, else
/// the stored session title, else the tab's own title; blank texts are
/// passed over, so a row is never blank while the tab's title is not.
pub fn rail_task_label(tab: &TabState, settings: &TabTitleSettings, handles: &[AgentSessionHandle]) -> (r:
    String)
    ensures
        r@ == rail_task_label_spec(*tab, *settings, handles@),
{
    let task = non_blank_text(tab_info_text(settings.rail_task, focused_of(tab), settings.preference));
    if let Some(t) = task {
        return t;
    }
    if let Some(t) = non_blank_text(stored_handle_title(tab, settings, handles)) {
        return t;
    }
    tab_title(tab, settings)
}

/// The cached conversation title for a tab whose agent has already exited:
/// with task resume enabled, the title of the first handle recorded for the
/// tab's directory.
pub fn stored_handle_title(
    tab: &TabState,
    settings: &TabTitleSettings,
    handles: &[AgentSessionHandle],
) -> (r: Option<String>)
    ensures
        opt_string(r) == stored_handle_title_spec(*tab, *settings, handles@),
{
    if !settings.resume_project_tasks_enabled {
        return None;
    }
    let dir = match &tab.active_session_path {
        Some(c) => c.as_str(),
        None => return None,
    };
    let n = handles.len();
    let mut i: usize = 0;
    assert(handles@.skip(0) =~= handles@);
    while i < n
        invariant
            settings.resume_project_tasks_enabled,
            tab.active_session_path is Some,
            tab.active_session_path.unwrap()@ == dir@,
            n == handles@.len(),
            i <= n,
            stored_title_spec(handles@, dir@) == stored_title_spec(handles@.skip(i as int), dir@),
        decreases n - i,
    {
        let ghost rest = handles@.skip(i as int);
        assert(rest[0] == handles@[i as int]);
        let handle = &handles[i];
        if crate::text::eq_lit(chars_of(handle.cwd.as_str()).as_slice(), dir) {
            assert(stored_title_spec(rest, dir@) == opt_string(rest[0].title));
            return clone_text(&handle.title);
        }
        assert(rest.drop_first() =~= handles@.skip(i + 1));
        i = i + 1;
    }
    None
}

/// The CLI agent's own title, whenever it has one, names the agent session:
/// it wins over any conversation title.
pub proof fn lemma_cli_agent_title_wins(t: TerminalAgentText, preference: AgentTabTextPreference)
    ensures
        preferred_cli_agent_title(t, preference) is Some ==> agent_session_title_spec(
            t,
            preference,
        ) == preferred_cli_agent_title(t, preference),
        preferred_cli_agent_title(t, preference) is None ==> agent_session_title_spec(
            t,
            preference,
        ) == preferred_conversation_title(t, preference),
{
}

/// A tab line other than the agent session name never shows blank text.
pub proof fn lemma_tab_info_text_not_blank(
    kind: TabInfoKind,
    focused: Option<FocusedSessionText>,
    preference: AgentTabTextPreference,
)
    ensures
        kind != TabInfoKind::AgentSession ==> (tab_info_text_spec(kind, focused, preference) matches Some(
            t,
        ) ==> trim(t).len() > 0),
{
}

/// A rail row is never blank while the tab's own title is not.
pub proof fn lemma_rail_row_not_blank(
    tab: TabState,
    settings: TabTitleSettings,
    handles: Seq<AgentSessionHandle>,
)
    requires
        trim(tab_title_spec(tab, settings)).len() > 0,
    ensures
        trim(rail_task_label_spec(tab, settings, handles)).len() > 0,
{
}

/// A tab never shows the same information twice: a second line is shown
/// only for a kind other than the first line's.
pub proof fn lemma_secondary_line_differs(tab: TabState, settings: TabTitleSettings)
    ensures
        tab_secondary_line_spec(tab, settings) is Some ==> settings.secondary != settings.primary,
{
}

/// The user-instruction line shows the CLI agent's latest prompt where the
/// session has one, else the conversation's latest prompt, each only when it
/// is not blank; the title preference plays no part in it.
pub proof fn lemma_user_instruction_text(
    f: FocusedSessionText,
    preference: AgentTabTextPreference,
    other: AgentTabTextPreference,
)
    ensures
        f.agent_text.cli_agent_latest_user_prompt matches Some(p) ==> tab_info_text_spec(
            TabInfoKind::UserInstruction,
            Some(f),
            preference,
        ) == (if trim(p@).len() > 0 {
            Some(p@)
        } else {
            None::<Seq<char>>
        }),
        f.agent_text.cli_agent_latest_user_prompt is None ==> tab_info_text_spec(
            TabInfoKind::UserInstruction,
            Some(f),
            preference,
        ) == match f.agent_text.conversation_latest_user_prompt {
            Some(p) => if trim(p@).len() > 0 {
                Some(p@)
            } else {
                None::<Seq<char>>
            },
            None => None,
        },
        tab_info_text_spec(TabInfoKind::UserInstruction, Some(f), preference) == tab_info_text_spec(
            TabInfoKind::UserInstruction,
            Some(f),
            other,
        ),
{
}

/// Under the title preference the CLI agent's latest prompt never names a
/// session: the CLI candidate is the CLI agent's title alone; with one, it
/// names the session; without one, the conversation title does, else the
/// conversation's latest prompt.
pub proof fn lemma_title_preference_names(t: TerminalAgentText)
    ensures
        preferred_cli_agent_title(t, AgentTabTextPreference::ConversationTitle) == opt_string(
            t.cli_agent_title,
        ),
        t.cli_agent_title matches Some(s) ==> agent_session_title_spec(
            t,
            AgentTabTextPreference::ConversationTitle,
        ) == Some(s@),
        t.cli_agent_title is None ==> (t.conversation_display_title matches Some(s)
            ==> agent_session_title_spec(t, AgentTabTextPreference::ConversationTitle) == Some(s@)),
        t.cli_agent_title is None && t.conversation_display_title is None
            ==> agent_session_title_spec(t, AgentTabTextPreference::ConversationTitle) == opt_string(
            t.conversation_latest_user_prompt,
        ),
{
}

/// Under the title preference two sessions that differ only in the CLI
/// agent's latest prompt get the same name.
pub proof fn lemma_title_preference_ignores_cli_prompt(t1: TerminalAgentText, t2: TerminalAgentText)
    requires
        opt_string(t1.cli_agent_title) == opt_string(t2.cli_agent_title),
        opt_string(t1.conversation_display_title) == opt_string(t2.conversation_display_title),
        opt_string(t1.conversation_latest_user_prompt) == opt_string(
            t2.conversation_latest_user_prompt,
        ),
    ensures
        agent_session_title_spec(t1, AgentTabTextPreference::ConversationTitle)
            == agent_session_title_spec(t2, AgentTabTextPreference::ConversationTitle),
{
}

/// Under the latest-prompt preference a session is named by the first of:
/// the CLI agent's latest prompt, the CLI agent's title, the conversation's
/// latest prompt, the conversation title.
pub proof fn lemma_prompt_preference_names(t: TerminalAgentText)
    ensures
        t.cli_agent_latest_user_prompt matches Some(s) ==> agent_session_title_spec(
            t,
            AgentTabTextPreference::LatestUserPrompt,
        ) == Some(s@),
        t.cli_agent_latest_user_prompt is None ==> (t.cli_agent_title matches Some(s)
            ==> agent_session_title_spec(t, AgentTabTextPreference::LatestUserPrompt) == Some(s@)),
        t.cli_agent_latest_user_prompt is None && t.cli_agent_title is None ==> (
        t.conversation_latest_user_prompt matches Some(s) ==> agent_session_title_spec(
            t,
            AgentTabTextPreference::LatestUserPrompt,
        ) == Some(s@)),
        t.cli_agent_latest_user_prompt is None && t.cli_agent_title is None
            && t.conversation_latest_user_prompt is None ==> agent_session_title_spec(
            t,
            AgentTabTextPreference::LatestUserPrompt,
        ) == opt_string(t.conversation_display_title),
{
}

} // verus!
