use session_naming::transcript_paths::{claude_project_dir, claude_transcript_path, encode_cwd};
use session_naming::transcript_naming::{
    is_acceptable_label, is_hex_blob, label_from_transcript_head, label_from_transcript_tail,
    resolve_label_from_transcript, tidy,
};

const CWD: &str = "/Users/example/dev/poa-agent";
const CONFIG: &str = "/Users/example/.config/agent";

fn label(head: &str) -> Option<String> {
    label_from_transcript_head(head, CWD)
}

fn tail_label(tail: &str) -> Option<String> {
    label_from_transcript_tail(tail, CWD)
}

/// A golden transcript shaped like the real thing: `ai-title` + its
/// `agent-name` mirror up front, the head `cwd`/`slug` carrier, the first
/// prompt behind an injected `<command-name>` wrapper, and a renamed
/// `ai-title` appended at the very end the way `/rename` writes one.
fn golden_transcript() -> String {
    [
        r#"{"type":"ai-title","aiTitle":"Initial working title","sessionId":"61f785ca-1c31-4671-a420-f89c47875750"}"#,
        "\n",
        r#"{"type":"agent-name","agentName":"Initial working title"}"#,
        "\n",
        r#"{"type":"mode","mode":"default","cwd":"/Users/example/dev/poa-agent","slug":"quietly-humming-otter"}"#,
        "\n",
        r#"{"type":"user","message":{"role":"user","content":"<command-name>/context</command-name>"}}"#,
        "\n",
        r#"{"type":"user","message":{"role":"user","content":"add retries to the ingest DAG"}}"#,
        "\n",
        r#"{"type":"assistant","message":{"role":"assistant","content":[{"type":"text","text":"..."}]}}"#,
        "\n",
        r#"{"type":"ai-title","aiTitle":"Add retries to the ingest DAG"}"#,
        "\n",
        r#"{"type":"ai-title","aiTitle":"Ingest reliability work"}"#,
        "\n",
    ]
    .concat()
}

#[test]
fn last_ai_title_wins_over_earlier_ones_and_prompts() {
    let head = [
        r#"{"type":"user","message":{"role":"user","content":"first prompt text"}}"#,
        "\n",
        r#"{"type":"ai-title","aiTitle":"Early working title"}"#,
        "\n",
        r#"{"type":"ai-title","aiTitle":"Add Jira search and fix orbit dashboard startup"}"#,
        "\n",
    ]
    .concat();
    assert_eq!(
        label(&head).as_deref(),
        Some("Add Jira search and fix orbit dashboard startup")
    );
}

#[test]
fn falls_back_to_first_user_prompt_without_ai_title() {
    let head = [
        r#"{"type":"summary","summary":"unrelated"}"#,
        "\n",
        r#"{"type":"user","message":{"role":"user","content":"fix the retry backoff in the DAG"}}"#,
        "\n",
        r#"{"type":"user","message":{"role":"user","content":"second prompt ignored"}}"#,
        "\n",
    ]
    .concat();
    assert_eq!(
        label(&head).as_deref(),
        Some("fix the retry backoff in the DAG")
    );
}

#[test]
fn array_content_blocks_are_supported() {
    let head = [
        r#"{"type":"user","message":{"role":"user","content":[{"type":"text","text":"prompt from blocks"}]}}"#,
        "\n",
    ]
    .concat();
    assert_eq!(label(&head).as_deref(), Some("prompt from blocks"));
}

#[test]
fn sidechain_user_records_are_not_prompts() {
    let head = [
        r#"{"type":"user","isSidechain":true,"message":{"role":"user","content":"subagent replay"}}"#,
        "\n",
        r#"{"type":"user","message":{"role":"user","content":"the real prompt"}}"#,
        "\n",
    ]
    .concat();
    assert_eq!(label(&head).as_deref(), Some("the real prompt"));
}

#[test]
fn junk_auto_name_is_rejected_and_falls_through() {
    // "poa-agent-0f" is the CLI's own `<dir>-<2hex>` display default.
    let head = [
        r#"{"type":"ai-title","aiTitle":"poa-agent-0f"}"#,
        "\n",
        r#"{"type":"user","message":{"role":"user","content":"real work description"}}"#,
        "\n",
    ]
    .concat();
    assert_eq!(label(&head).as_deref(), Some("real work description"));
}

#[test]
fn bare_directory_name_is_rejected() {
    let head = [r#"{"type":"ai-title","aiTitle":"poa-agent"}"#, "\n"].concat();
    assert_eq!(label(&head), None);
}

#[test]
fn whitespace_only_candidates_are_rejected() {
    let head = [
        r#"{"type":"ai-title","aiTitle":"   "}"#,
        "\n",
        r#"{"type":"user","message":{"role":"user","content":"  \n\t "}}"#,
        "\n",
    ]
    .concat();
    assert_eq!(label(&head), None);
}

#[test]
fn long_labels_are_collapsed_and_ellipsized() {
    let long = "word ".repeat(60);
    let head = format!(r#"{{"type":"user","message":{{"role":"user","content":"{long}"}}}}"#);
    let resolved = label(&head).expect("long prompt should still name the row");
    assert!(resolved.chars().count() <= 80);
    assert!(resolved.ends_with('…'));
    assert!(!resolved.contains("  "), "whitespace is collapsed");
}

#[test]
fn truncated_final_line_and_garbage_lines_are_skipped() {
    let head = [
        r#"not json at all"#,
        "\n",
        r#"{"type":"ai-title","aiTitle":"Debug cargo install compilation error"}"#,
        "\n",
        // A record cut off mid-way by the bounded read.
        r#"{"type":"ai-title","aiTi"#,
    ]
    .concat();
    assert_eq!(
        label(&head).as_deref(),
        Some("Debug cargo install compilation error")
    );
}

#[test]
fn empty_and_missing_content_yield_none() {
    assert_eq!(label(""), None);
    assert_eq!(label("\n\n"), None);
    let head = [r#"{"type":"user","message":{"role":"user"}}"#, "\n"].concat();
    assert_eq!(label(&head), None);
}

#[test]
fn transcript_path_matches_claude_layout() {
    // `encode_cwd` replaces every non-alphanumeric character with `-` per
    // the CLI's convention.
    let path = claude_transcript_path(
        Some(CONFIG),
        "/Users/example/dev/poa-agent",
        "61f785ca-1c31-4671-a420-f89c47875750",
    )
    .expect("path should derive");
    assert!(
        path.ends_with(
            "projects/-Users-example-dev-poa-agent/61f785ca-1c31-4671-a420-f89c47875750.jsonl"
        ),
        "unexpected layout: {path}"
    );
}

#[test]
fn project_dir_mangles_dots_underscores_and_spaces() {
    let cases = [
        (
            "/Users/example/dev/poa-agent",
            "-Users-example-dev-poa-agent",
        ),
        (
            "/Users/example/dev/cse_market_analysis",
            "-Users-example-dev-cse-market-analysis",
        ),
        (
            "/Users/example/My Projects/app",
            "-Users-example-My-Projects-app",
        ),
        (
            "/Users/example/dev/app/.agent/worktrees/w1",
            "-Users-example-dev-app--agent-worktrees-w1",
        ),
    ];
    for (cwd, expected) in cases {
        let dir = claude_project_dir(Some(CONFIG), cwd).expect("dir should derive");
        assert!(
            dir.ends_with(&format!("/{expected}")),
            "{cwd} encoded as {dir:?}, expected to end with {expected}"
        );
    }
}

#[test]
fn unreadable_file_resolves_to_none_not_error() {
    // Neither read succeeded: no label, and no error.
    assert_eq!(resolve_label_from_transcript(None, None, CWD), None);
}

#[test]
fn tail_rename_wins_over_the_head_title() {
    let golden = golden_transcript();
    assert_eq!(
        tail_label(&golden).as_deref(),
        Some("Ingest reliability work")
    );
    assert_eq!(
        label(&golden).as_deref(),
        Some("Ingest reliability work"),
        "head tier also takes the last title it can see"
    );
}

#[test]
fn agent_name_records_are_read_like_ai_titles() {
    let tail = [
        r#"{"type":"agent-name","agentName":"Wire up the rail"}"#,
        "\n",
    ]
    .concat();
    assert_eq!(tail_label(&tail).as_deref(), Some("Wire up the rail"));
    assert_eq!(label(&tail).as_deref(), Some("Wire up the rail"));
}

#[test]
fn injected_wrappers_and_caveats_are_skipped_for_the_next_real_prompt() {
    let head = [
        r#"{"type":"user","message":{"role":"user","content":"<command-name>/context</command-name>"}}"#,
        "\n",
        r#"{"type":"user","message":{"role":"user","content":"Caveat: The messages below were generated..."}}"#,
        "\n",
        r#"{"type":"user","message":{"role":"user","content":"port the scan mechanism"}}"#,
        "\n",
    ]
    .concat();
    assert_eq!(label(&head).as_deref(), Some("port the scan mechanism"));
}

#[test]
fn a_wrapper_only_transcript_yields_no_prompt_name() {
    let head = [
        r#"{"type":"user","message":{"role":"user","content":"<local-command-stdout>ok</local-command-stdout>"}}"#,
        "\n",
        r#"{"type":"user","message":{"role":"user","content":"Caveat: replayed context"}}"#,
        "\n",
    ]
    .concat();
    assert_eq!(label(&head), None);
}

#[test]
fn leading_summary_records_never_become_the_name() {
    let head = [
        r#"{"type":"summary","summary":"Refactor the ingestion pipeline","leafUuid":"abc"}"#,
        "\n",
        r#"{"type":"user","message":{"role":"user","content":"now do the rail"}}"#,
        "\n",
    ]
    .concat();
    assert_eq!(label(&head).as_deref(), Some("now do the rail"));
}

#[test]
fn slug_is_the_last_resort_and_is_de_kebabed() {
    let head = [
        r#"{"type":"mode","mode":"default","slug":"quietly-humming-otter"}"#,
        "\n",
        r#"{"type":"user","message":{"role":"user","content":"<command-name>/clear</command-name>"}}"#,
        "\n",
    ]
    .concat();
    assert_eq!(label(&head).as_deref(), Some("quietly humming otter"));
}

#[test]
fn derived_style_junk_names_are_rejected_at_every_tier() {
    let head = [
        r#"{"type":"ai-title","aiTitle":"poa-agent-3f"}"#,
        "\n",
        r#"{"type":"user","message":{"role":"user","content":"the actual request"}}"#,
        "\n",
    ]
    .concat();
    assert_eq!(tail_label(&head), None, "junk is rejected in the tail too");
    assert_eq!(label(&head).as_deref(), Some("the actual request"));
}

#[test]
fn bare_hex_blobs_are_rejected() {
    for junk in [
        r#"{"type":"ai-title","aiTitle":"3f8a9c2d"}"#,
        r#"{"type":"ai-title","aiTitle":"61f785ca-1c31"}"#,
        r#"{"type":"ai-title","aiTitle":"deadbeefcafe"}"#,
    ] {
        assert_eq!(tail_label(junk), None, "should reject: {junk}");
    }
    assert_eq!(
        tail_label(r#"{"type":"ai-title","aiTitle":"decaf"}"#).as_deref(),
        Some("decaf")
    );
}

#[test]
fn tail_skips_a_record_cut_by_the_seek() {
    let tail = [
        r#"e":"ai-title","aiTitle":"Cut in half"}"#,
        "\n",
        r#"{"type":"ai-title","aiTitle":"Whole record"}"#,
        "\n",
    ]
    .concat();
    assert_eq!(tail_label(&tail).as_deref(), Some("Whole record"));
}

// ---------------------------------------------------------------------------
// Further cases

#[test]
fn resolve_prefers_the_tail_and_falls_back_to_the_head() {
    let head = [r#"{"type":"ai-title","aiTitle":"Rerank eval harness"}"#, "\n"].concat();
    let tail = [
        r#"{"type":"assistant","message":{"role":"assistant","content":"x"}}"#,
        "\n",
    ]
    .concat();
    // No title in the tail: the head tier names the session.
    assert_eq!(
        resolve_label_from_transcript(Some(&tail), Some(&head), CWD).as_deref(),
        Some("Rerank eval harness")
    );
    // A title in the tail wins over the head.
    let renamed = [r#"{"type":"ai-title","aiTitle":"Renamed"}"#, "\n"].concat();
    assert_eq!(
        resolve_label_from_transcript(Some(&renamed), Some(&head), CWD).as_deref(),
        Some("Renamed")
    );
    // A failed tail read still falls back to the head.
    assert_eq!(
        resolve_label_from_transcript(None, Some(&head), CWD).as_deref(),
        Some("Rerank eval harness")
    );
    // A failed head read leaves only the tail.
    assert_eq!(resolve_label_from_transcript(Some(&tail), None, CWD), None);
}

#[test]
fn tidy_collapses_and_cuts_at_eighty_characters() {
    assert_eq!(tidy("  a \t b\n\nc  "), "a b c");
    assert_eq!(tidy(""), "");
    let exact = "x".repeat(80);
    assert_eq!(tidy(&exact), exact);
    let long = "y".repeat(81);
    let cut = tidy(&long);
    assert_eq!(cut, format!("{}…", "y".repeat(79)));
    // The cut lands after a space: it is trimmed before the ellipsis.
    let spaced = format!("{} {}", "z".repeat(78), "tail-of-the-label");
    assert_eq!(tidy(&spaced), format!("{}…", "z".repeat(78)));
}

#[test]
fn hex_blob_needs_eight_digits() {
    assert!(is_hex_blob("3f8a9c2d"));
    assert!(is_hex_blob("61f7-85ca"));
    assert!(is_hex_blob("DEADBEEF"));
    assert!(!is_hex_blob("3f8a9c2"));
    assert!(!is_hex_blob("decaf"));
    assert!(!is_hex_blob("3f8a9c2g"));
}

#[test]
fn acceptable_labels_depend_on_the_directory_name() {
    assert!(!is_acceptable_label("", CWD));
    assert!(!is_acceptable_label("   ", CWD));
    assert!(!is_acceptable_label(" \t\n", CWD));
    assert!(!is_acceptable_label("POA-AGENT", CWD));
    assert!(!is_acceptable_label("poa-agent-a9", CWD));
    assert!(is_acceptable_label("poa-agent-zz", CWD));
    assert!(is_acceptable_label("poa-agent-a9b", CWD));
    // A trailing slash or `.` does not hide the directory name.
    assert!(!is_acceptable_label("poa-agent", "/Users/example/dev/poa-agent/"));
    assert!(!is_acceptable_label("poa-agent", "/Users/example/dev/poa-agent/."));
    // A path without a file name rejects nothing on that account.
    assert!(is_acceptable_label("poa-agent", "/"));
    assert!(is_acceptable_label("dev", "/Users/example/dev/.."));
}

#[test]
fn carriage_returns_end_lines_like_newlines() {
    let head = [r#"{"type":"ai-title","aiTitle":"Windows line"}"#, "\r\n"].concat();
    assert_eq!(label(&head).as_deref(), Some("Windows line"));
}

#[test]
fn a_non_string_ai_title_hides_the_agent_name() {
    let head = [
        r#"{"type":"ai-title","aiTitle":null,"agentName":"Mirror name"}"#,
        "\n",
    ]
    .concat();
    assert_eq!(label(&head), None);
    let head = [r#"{"type":"ai-title","agentName":"Mirror name"}"#, "\n"].concat();
    assert_eq!(label(&head).as_deref(), Some("Mirror name"));
}

#[test]
fn encoding_a_path_keeps_only_ascii_letters_and_digits() {
    assert_eq!(encode_cwd("/a_b.c d/Ünï"), "-a-b-c-d--n-");
    assert_eq!(encode_cwd("abc123"), "abc123");
}

#[test]
fn config_directories_join_like_paths() {
    assert_eq!(claude_project_dir(None, "/x"), None);
    assert_eq!(
        claude_project_dir(Some("/cfg/"), "/x").as_deref(),
        Some("/cfg/projects/-x")
    );
    assert_eq!(
        claude_project_dir(Some(""), "/x").as_deref(),
        Some("projects/-x")
    );
    assert_eq!(
        claude_transcript_path(Some("/cfg"), "/x", "id").as_deref(),
        Some("/cfg/projects/-x/id.jsonl")
    );
}

#[test]
fn tidying_twice_changes_nothing() {
    for candidate in [
        "  a \t b\n\nc  ",
        "",
        "plain",
        &"word ".repeat(60),
        &format!("{} {}", "z".repeat(78), "tail"),
    ] {
        let once = tidy(candidate);
        assert_eq!(tidy(&once), once);
        assert!(once.chars().count() <= 80);
        assert!(!once.contains("  "));
        assert_eq!(once.trim(), once);
    }
}

#[test]
fn resolved_labels_are_always_acceptable() {
    let golden = golden_transcript();
    let long = format!(
        r#"{{"type":"user","message":{{"role":"user","content":"{}"}}}}"#,
        "word ".repeat(60)
    );
    for (tail, head) in [
        (Some(golden.as_str()), Some(golden.as_str())),
        (None, Some(long.as_str())),
        (Some(r#"{"type":"ai-title","aiTitle":"poa-agent-0f"}"#), Some(golden.as_str())),
    ] {
        let label = resolve_label_from_transcript(tail, head, CWD).expect("named");
        assert!(is_acceptable_label(&label, CWD));
        assert_eq!(tidy(&label), label);
    }
}

#[test]
fn encoding_an_encoded_directory_changes_nothing() {
    let once = encode_cwd("/Users/example/My Projects/app");
    assert_eq!(encode_cwd(&once), once);
}

#[test]
fn a_rename_appended_at_the_end_names_the_session() {
    let golden = golden_transcript();
    let renamed = [
        golden.as_str(),
        r#"{"type":"ai-title","aiTitle":"Renamed at the end"}"#,
        "\n",
    ]
    .concat();
    assert_eq!(tail_label(&renamed).as_deref(), Some("Renamed at the end"));
    assert_eq!(label(&renamed).as_deref(), Some("Renamed at the end"));
    assert_eq!(
        resolve_label_from_transcript(Some(&renamed), Some(&golden), CWD).as_deref(),
        Some("Renamed at the end")
    );
}
