use codex_logic::model_actions::{
    is_model_binding_action, model_action_config_path, model_action_ids, model_action_metadata,
    model_binding_config_path, ModelPreset, ReasoningEffort,
};

fn preset(id: &str, model: &str, name: &str, description: &str) -> ModelPreset {
    ModelPreset {
        id: id.to_string(),
        model: model.to_string(),
        display_name: name.to_string(),
        description: description.to_string(),
        default_reasoning_effort: ReasoningEffort::Medium,
    }
}

#[test]
fn binding_actions_exclude_previous_and_next() {
    assert!(is_model_binding_action("model.bindings", "gpt-5"));
    assert!(!is_model_binding_action("model.bindings", "previous"));
    assert!(!is_model_binding_action("model.bindings", "next"));
    assert!(!is_model_binding_action("model", "gpt-5"));
}

#[test]
fn config_paths_name_context_and_action() {
    assert_eq!(model_binding_config_path("gpt-5"), "tui.keymap.model.bindings.gpt-5");
    assert_eq!(model_action_config_path("model.bindings", "gpt-5"), "tui.keymap.model.bindings.gpt-5");
    assert_eq!(model_action_config_path("model", "next"), "tui.keymap.model.next");
    assert_eq!(model_action_config_path("model.bindings", "next"), "tui.keymap.model.bindings.next");
}

#[test]
fn action_ids_keep_first_occurrence_order() {
    let presets = vec![preset("a", "m-a", "A", ""), preset("b", "m-b", "B", ""), preset("a", "m-a2", "A2", "")];
    let ids = model_action_ids(&presets, vec!["c".to_string(), "b".to_string(), "d".to_string()]);
    assert_eq!(ids, vec!["a".to_string(), "b".to_string(), "c".to_string(), "d".to_string()]);
}

#[test]
fn metadata_of_known_and_unknown_presets() {
    let presets = vec![preset("fast", "gpt-fast", "Fast", ""), preset("deep", "gpt-deep", "Deep", "Thinks hard")];
    let fast = model_action_metadata(&presets, "fast");
    assert_eq!(fast.label, "Fast");
    assert_eq!(fast.description, "Model slug: gpt-fast");
    let deep = model_action_metadata(&presets, "deep");
    assert_eq!(deep.label, "Deep");
    assert_eq!(deep.description, "Thinks hard");
    let gone = model_action_metadata(&presets, "old");
    assert_eq!(gone.label, "old");
    assert_eq!(gone.description, "Model preset is no longer in the current catalog.");
}
