use codex_logic::commit_attribution::{
    build_commit_message_trailer, commit_message_trailer_instruction,
    commit_publication_instructions, resolve_attribution_value, CommitPublicationConfig,
};

#[test]
fn default_attribution_when_none_configured() {
    assert_eq!(
        build_commit_message_trailer(None),
        Some("Co-authored-by: Codex <noreply@openai.com>".to_string())
    );
}

#[test]
fn configured_attribution_is_trimmed() {
    assert_eq!(
        resolve_attribution_value(Some("  Jane Doe <jane@example.com>\n")),
        Some("Jane Doe <jane@example.com>".to_string())
    );
    assert_eq!(
        build_commit_message_trailer(Some("\u{3000}Bot <bot@example.com>\t")),
        Some("Co-authored-by: Bot <bot@example.com>".to_string())
    );
}

#[test]
fn blank_attribution_disables_trailer() {
    assert_eq!(resolve_attribution_value(Some("")), None);
    assert_eq!(resolve_attribution_value(Some(" \t\u{a0}\u{2003} ")), None);
    assert_eq!(commit_message_trailer_instruction(Some("   ")), None);
    let config = CommitPublicationConfig {
        commit_attribution: Some(" "),
        public_contribution_mode: false,
    };
    assert!(commit_publication_instructions(config).is_empty());
}

#[test]
fn trailer_instruction_text() {
    let instruction = commit_message_trailer_instruction(Some("A <a@b.c>")).expect("instruction");
    assert_eq!(
        instruction,
        "When you write or edit a git commit message, ensure the message ends with this trailer exactly once:\nCo-authored-by: A <a@b.c>\n\nRules:\n- Keep existing trailers and append this trailer at the end if missing.\n- Do not duplicate this trailer if it already exists.\n- Keep one blank line between the commit body and trailer block."
    );
}

#[test]
fn public_mode_replaces_trailer_instruction() {
    let config = CommitPublicationConfig {
        commit_attribution: Some("A <a@b.c>"),
        public_contribution_mode: true,
    };
    let instructions = commit_publication_instructions(config);
    assert_eq!(instructions.len(), 1);
    assert!(instructions[0].starts_with("## PUBLIC CONTRIBUTION MODE\n\n"));
    assert!(!instructions[0].contains("Co-authored-by: A"));
    assert!(instructions[0].ends_with("controls publication\nsurfaces."));
}

#[test]
fn private_mode_gives_one_trailer_instruction() {
    let config = CommitPublicationConfig {
        commit_attribution: None,
        public_contribution_mode: false,
    };
    let instructions = commit_publication_instructions(config);
    assert_eq!(instructions.len(), 1);
    assert!(instructions[0].contains("\nCo-authored-by: Codex <noreply@openai.com>\n"));
}
