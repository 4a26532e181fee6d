use codex_logic::model_actions::{ModelPreset, ReasoningEffort};
use codex_logic::model_shortcuts::{
    apply_model_shortcut_selection, handle_model_shortcuts, model_shortcut_action,
    select_adjacent_model, select_model_by_id, AppEvent, ModelShortcutAction, ShortcutEffect,
};

fn preset(id: &str, model: &str, effort: ReasoningEffort) -> ModelPreset {
    ModelPreset {
        id: id.to_string(),
        model: model.to_string(),
        display_name: id.to_uppercase(),
        description: String::new(),
        default_reasoning_effort: effort,
    }
}

fn catalog() -> Vec<ModelPreset> {
    vec![
        preset("one", "m1", ReasoningEffort::Low),
        preset("two", "m2", ReasoningEffort::Medium),
        preset("three", "m3", ReasoningEffort::High),
    ]
}

fn selected_model(events: &[AppEvent]) -> (String, Option<ReasoningEffort>) {
    assert_eq!(events.len(), 3);
    let model = match &events[0] {
        AppEvent::UpdateModel(m) => m.clone(),
        _ => panic!("first event updates the model"),
    };
    let effort = match &events[1] {
        AppEvent::UpdateReasoningEffort(e) => *e,
        _ => panic!("second event updates the effort"),
    };
    match &events[2] {
        AppEvent::PersistModelSelection { model: m, effort: e } => {
            assert_eq!(*m, model);
            assert_eq!(*e, effort);
        }
        _ => panic!("third event persists"),
    }
    (model, effort)
}

fn sent_events(effects: Vec<ShortcutEffect>) -> Vec<AppEvent> {
    effects
        .into_iter()
        .map(|e| match e {
            ShortcutEffect::Send(ev) => ev,
            ShortcutEffect::InfoMessage(m) => panic!("unexpected message {m}"),
        })
        .collect()
}

#[test]
fn next_and_previous_wrap_around() {
    let models = catalog();
    assert_eq!(selected_model(&select_adjacent_model(&models, "m3", true)).0, "m1");
    assert_eq!(selected_model(&select_adjacent_model(&models, "m1", false)).0, "m3");
    assert_eq!(
        selected_model(&select_adjacent_model(&models, "m1", true)),
        ("m2".to_string(), Some(ReasoningEffort::Medium))
    );
}

#[test]
fn unknown_current_model_goes_to_an_end() {
    let models = catalog();
    assert_eq!(selected_model(&select_adjacent_model(&models, "other", true)).0, "m1");
    assert_eq!(selected_model(&select_adjacent_model(&models, "other", false)).0, "m3");
}

#[test]
fn selection_sends_three_events() {
    let events = apply_model_shortcut_selection("m9".to_string(), Some(ReasoningEffort::XHigh));
    assert_eq!(selected_model(&events), ("m9".to_string(), Some(ReasoningEffort::XHigh)));
}

#[test]
fn bound_model_is_selected_or_reported_missing() {
    let models = catalog();
    let effects = select_model_by_id(&models, "two");
    assert_eq!(selected_model(&sent_events(effects)).0, "m2");
    let effects = select_model_by_id(&models, "ten");
    assert_eq!(effects.len(), 1);
    match &effects[0] {
        ShortcutEffect::InfoMessage(m) => assert_eq!(m, "Model `ten` is no longer available."),
        _ => panic!("expected a message"),
    }
}

#[test]
fn shortcut_choice_prefers_previous_then_next_then_bindings() {
    let bindings = vec![("a".to_string(), false), ("b".to_string(), true), ("c".to_string(), true)];
    assert!(matches!(model_shortcut_action(true, true, &bindings), Some(ModelShortcutAction::Previous)));
    assert!(matches!(model_shortcut_action(false, true, &bindings), Some(ModelShortcutAction::Next)));
    match model_shortcut_action(false, false, &bindings) {
        Some(ModelShortcutAction::Select(id)) => assert_eq!(id, "b"),
        _ => panic!("expected the first pressed binding"),
    }
    assert!(model_shortcut_action(false, false, &vec![("a".to_string(), false)]).is_none());
}

#[test]
fn handling_reports_unready_states() {
    let models = catalog();
    let (handled, effects) = handle_model_shortcuts(None, true, &models, "m1");
    assert!(!handled);
    assert!(effects.is_empty());

    let (handled, effects) =
        handle_model_shortcuts(Some(ModelShortcutAction::Next), false, &models, "m1");
    assert!(handled);
    match &effects[..] {
        [ShortcutEffect::InfoMessage(m)] => {
            assert_eq!(m, "Model selection is disabled until startup completes.")
        }
        _ => panic!("expected one message"),
    }

    let (handled, effects) =
        handle_model_shortcuts(Some(ModelShortcutAction::Next), true, &Vec::new(), "m1");
    assert!(handled);
    match &effects[..] {
        [ShortcutEffect::InfoMessage(m)] => {
            assert_eq!(m, "Models are being updated; please try /model again in a moment.")
        }
        _ => panic!("expected one message"),
    }
}

#[test]
fn handling_dispatches_actions() {
    let models = catalog();
    let (handled, effects) =
        handle_model_shortcuts(Some(ModelShortcutAction::Previous), true, &models, "m2");
    assert!(handled);
    assert_eq!(selected_model(&sent_events(effects)).0, "m1");
    let (_, effects) = handle_model_shortcuts(
        Some(ModelShortcutAction::Select("three".to_string())),
        true,
        &models,
        "m2",
    );
    assert_eq!(selected_model(&sent_events(effects)).0, "m3");
}

#[test]
fn next_shortcut_cycles_through_the_catalog() {
    let models = catalog();
    for start in ["m1", "m2", "m3"] {
        let mut current = start.to_string();
        let mut seen = Vec::new();
        for _ in 0..models.len() {
            current = selected_model(&select_adjacent_model(&models, &current, true)).0;
            seen.push(current.clone());
        }
        assert_eq!(current, start);
        seen.sort();
        assert_eq!(seen, vec!["m1", "m2", "m3"]);
    }
}
