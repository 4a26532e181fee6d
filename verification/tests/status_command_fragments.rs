use codex_logic::status_command_fragments::is_status_command_fragment;

#[test]
fn status_fragments_are_recognized() {
    for text in ["status", "tatus$", "atus", "tus", "us", "s"] {
        assert!(is_status_command_fragment(text), "{text}");
    }
}

#[test]
fn other_texts_are_not_fragments() {
    for text in ["", "statu", "Status", "tatus", "stat", "status ", "x"] {
        assert!(!is_status_command_fragment(text), "{text}");
    }
}
