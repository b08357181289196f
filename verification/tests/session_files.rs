use session_naming::session_files::session_id_from_transcript_file_name;

const SESSION_A: &str = "61f785ca-1c31-4671-a420-f89c47875750";

#[test]
fn uuid_filename_filter_accepts_only_transcripts() {
    assert_eq!(
        session_id_from_transcript_file_name(&format!("{SESSION_A}.jsonl")),
        Some(SESSION_A)
    );
    // The `<uuid>/` subdirectories (session memory, subagents) sit right next
    // to the transcripts; without the `.jsonl` suffix they would become rows
    // for sessions that cannot be resumed.
    assert_eq!(session_id_from_transcript_file_name(SESSION_A), None);
    assert_eq!(session_id_from_transcript_file_name("memory"), None);
    // Anchored: no prefix, no suffix, no partial ids.
    assert_eq!(
        session_id_from_transcript_file_name(&format!("prefix-{SESSION_A}.jsonl")),
        None
    );
    assert_eq!(
        session_id_from_transcript_file_name(&format!("{SESSION_A}-extra.jsonl")),
        None
    );
    assert_eq!(
        session_id_from_transcript_file_name("61f785ca-1c31-4671-a420.jsonl"),
        None
    );
    assert_eq!(session_id_from_transcript_file_name("notes.jsonl"), None);
    assert_eq!(session_id_from_transcript_file_name("summary.json"), None);
    // Uppercase is not the form the CLI writes, so it is not accepted either.
    assert_eq!(
        session_id_from_transcript_file_name("61F785CA-1C31-4671-A420-F89C47875750.jsonl"),
        None
    );
}

#[test]
fn hyphens_must_sit_in_uuid_positions() {
    assert_eq!(
        session_id_from_transcript_file_name("61f785ca1-c31-4671-a420-f89c47875750.jsonl"),
        None
    );
    assert_eq!(
        session_id_from_transcript_file_name(&format!("{SESSION_A}.json1")),
        None
    );
    assert_eq!(
        session_id_from_transcript_file_name("00000000-0000-0000-0000-000000000000.jsonl"),
        Some("00000000-0000-0000-0000-000000000000")
    );
}
