//! The model shortcuts of the TUI: which shortcut a key press triggers, and what
//! the application shows and sends for it (switch to the previous or next model
//! of the catalog, or to a bound model).
use vstd::prelude::*;

use crate::model_actions::{
    first_index_of, lemma_first_index_of_scan, preset_ids, preset_models, ModelPreset,
    ReasoningEffort,
};
use crate::text::text_eq;

verus! {

/// The model shortcut that a key press asks for.
pub enum ModelShortcutAction {
    Previous,
    Next,
    Select(String),
}

/// An event that the shortcuts send to the application.
pub enum AppEvent {
    UpdateModel(String),
    UpdateReasoningEffort(Option<ReasoningEffort>),
    PersistModelSelection { model: String, effort: Option<ReasoningEffort> },
}

/// What handling a shortcut does: show an informational message, or send an event.
pub enum ShortcutEffect {
    InfoMessage(String),
    Send(AppEvent),
}

/// A shortcut action with its model id as text.
pub enum ActionView {
    Previous,
    Next,
    Select(Seq<char>),
}

/// An application event with its texts as character sequences.
pub enum AppEventView {
    UpdateModel(Seq<char>),
    UpdateReasoningEffort(Option<ReasoningEffort>),
    PersistModelSelection { model: Seq<char>, effort: Option<ReasoningEffort> },
}

/// An effect with its texts as character sequences.
pub enum EffectView {
    InfoMessage(Seq<char>),
    Send(AppEventView),
}

impl DeepView for ModelShortcutAction {
    type V = ActionView;

    open spec fn deep_view(&self) -> ActionView {
        match self {
            ModelShortcutAction::Previous => ActionView::Previous,
            ModelShortcutAction::Next => ActionView::Next,
            ModelShortcutAction::Select(id) => ActionView::Select(id@),
        }
    }
}

impl DeepView for AppEvent {
    type V = AppEventView;

    open spec fn deep_view(&self) -> AppEventView {
        match self {
            AppEvent::UpdateModel(m) => AppEventView::UpdateModel(m@),
            AppEvent::UpdateReasoningEffort(e) => AppEventView::UpdateReasoningEffort(*e),
            AppEvent::PersistModelSelection { model, effort } => AppEventView::PersistModelSelection {
                model: model@,
                effort: *effort,
            },
        }
    }
}

impl DeepView for ShortcutEffect {
    type V = EffectView;

    open spec fn deep_view(&self) -> EffectView {
        match self {
            ShortcutEffect::InfoMessage(m) => EffectView::InfoMessage(m@),
            ShortcutEffect::Send(e) => EffectView::Send(e.deep_view()),
        }
    }
}

/// The three events that select a model: update the model, update the reasoning
/// effort, and persist both.
pub open spec fn selection_events(model: Seq<char>, effort: Option<ReasoningEffort>) -> Seq<
    AppEventView,
> {
    seq![
        AppEventView::UpdateModel(model),
        AppEventView::UpdateReasoningEffort(effort),
        AppEventView::PersistModelSelection { model, effort },
    ]
}

/// The events that select one preset of the catalog.
pub open spec fn preset_selection_events(preset: ModelPreset) -> Seq<AppEventView> {
    selection_events(preset.model@, Some(preset.default_reasoning_effort))
}

/// The same events, sent as effects.
pub open spec fn sent(events: Seq<AppEventView>) -> Seq<EffectView> {
    events.map_values(|e: AppEventView| EffectView::Send(e))
}

/// The index the previous/next shortcut moves to: one step forward or backward
/// with wrap-around from the current model, or the first (forward) or last
/// (backward) model when the current model is not in the catalog.
pub open spec fn adjacent_index(position: Option<int>, len: int, forward: bool) -> int {
    match position {
        Some(i) => if forward {
            (i + 1) % len
        } else {
            (i + len - 1) % len
        },
        None => if forward {
            0
        } else {
            len - 1
        },
    }
}

/// The events that the previous/next shortcut sends.
pub open spec fn adjacent_events(models: Seq<ModelPreset>, current: Seq<char>, forward: bool) -> Seq<
    AppEventView,
> {
    preset_selection_events(
        models[adjacent_index(first_index_of(preset_models(models), current), models.len() as int, forward)],
    )
}

/// The message shown when a bound model is not in the catalog.
pub open spec fn unavailable_message(model_id: Seq<char>) -> Seq<char> {
    "Model `"@ + model_id + "` is no longer available."@
}

/// The effects of the shortcut that selects a bound model.
pub open spec fn select_by_id_effects(models: Seq<ModelPreset>, model_id: Seq<char>) -> Seq<
    EffectView,
> {
    match first_index_of(preset_ids(models), model_id) {
        Some(i) => sent(preset_selection_events(models[i])),
        None => seq![EffectView::InfoMessage(unavailable_message(model_id))],
    }
}

/// Whether a shortcut was handled, and what handling it does.
pub open spec fn shortcut_outcome(
    action: Option<ActionView>,
    session_configured: bool,
    models: Seq<ModelPreset>,
    current: Seq<char>,
) -> (bool, Seq<EffectView>) {
    match action {
        None => (false, Seq::empty()),
        Some(a) => if !session_configured {
            (
                true,
                seq![
                    EffectView::InfoMessage(
                        "Model selection is disabled until startup completes."@,
                    ),
                ],
            )
        } else if models.len() == 0 {
            (
                true,
                seq![
                    EffectView::InfoMessage(
                        "Models are being updated; please try /model again in a moment."@,
                    ),
                ],
            )
        } else {
            (
                true,
                match a {
                    ActionView::Previous => sent(adjacent_events(models, current, false)),
                    ActionView::Next => sent(adjacent_events(models, current, true)),
                    ActionView::Select(id) => select_by_id_effects(models, id),
                },
            )
        },
    }
}

/// The model id of the first binding that the key press matches, if any.
pub open spec fn first_pressed_binding(bindings: Seq<(Seq<char>, bool)>) -> Option<Seq<char>>
    decreases bindings.len(),
{
    if bindings.len() == 0 {
        None
    } else if bindings[0].1 {
        Some(bindings[0].0)
    } else {
        first_pressed_binding(bindings.drop_first())
    }
}

/// The shortcut a key press triggers: previous, then next, then the first model
/// binding it matches.
pub open spec fn shortcut_for(
    previous_pressed: bool,
    next_pressed: bool,
    bindings: Seq<(Seq<char>, bool)>,
) -> Option<ActionView> {
    if previous_pressed {
        Some(ActionView::Previous)
    } else if next_pressed {
        Some(ActionView::Next)
    } else {
        match first_pressed_binding(bindings) {
            Some(id) => Some(ActionView::Select(id)),
            None => None,
        }
    }
}

/// Handles a model shortcut. `models` is the catalog (empty while it is being
/// updated) and `current_model` the model in use. Returns whether the key press
/// was a model shortcut, and the messages and events to show and send.
pub fn handle_model_shortcuts(
    action: Option<ModelShortcutAction>,
    session_configured: bool,
    models: &Vec<ModelPreset>,
    current_model: &str,
) -> (r: (bool, Vec<ShortcutEffect>))
    ensures
        r.0 == shortcut_outcome(action.deep_view(), session_configured, models@, current_model@).0,
        r.1.deep_view() == shortcut_outcome(
            action.deep_view(),
            session_configured,
            models@,
            current_model@,
        ).1,
{
    let action = match action {
        Some(a) => a,
        None => {
            let none: Vec<ShortcutEffect> = Vec::new();
            assert(none.deep_view() =~= Seq::<EffectView>::empty());
            return (false, none);
        },
    };
    let mut effects: Vec<ShortcutEffect> = Vec::new();
    if !session_configured {
        effects.push(
            ShortcutEffect::InfoMessage(
                String::from_str("Model selection is disabled until startup completes."),
            ),
        );
        assert(effects.deep_view() =~= seq![
            EffectView::InfoMessage("Model selection is disabled until startup completes."@),
        ]);
        return (true, effects);
    }
    if models.len() == 0 {
        effects.push(
            ShortcutEffect::InfoMessage(
                String::from_str("Models are being updated; please try /model again in a moment."),
            ),
        );
        assert(effects.deep_view() =~= seq![
            EffectView::InfoMessage(
                "Models are being updated; please try /model again in a moment."@,
            ),
        ]);
        return (true, effects);
    }
    match action {
        ModelShortcutAction::Previous => {
            let events = select_adjacent_model(models, current_model, false);
            (true, send_all(events))
        },
        ModelShortcutAction::Next => {
            let events = select_adjacent_model(models, current_model, true);
            (true, send_all(events))
        },
        ModelShortcutAction::Select(model_id) => {
            (true, select_model_by_id(models, model_id.as_str()))
        },
    }
}

fn send_all(events: Vec<AppEvent>) -> (r: Vec<ShortcutEffect>)
    ensures
        r.deep_view() == sent(events.deep_view()),
{
    broadcast use vstd::std_specs::vec::axiom_spec_into_iter;

    let ghost all = events@;
    let mut out: Vec<ShortcutEffect> = Vec::new();
    for e in it: events.into_iter()
        invariant
            it.seq() == all,
            out@.len() == it.index(),
            forall|j: int|
                0 <= j < it.index() ==> #[trigger] out@[j].deep_view() == EffectView::Send(
                    all[j].deep_view(),
                ),
    {
        out.push(ShortcutEffect::Send(e));
    }
    assert(out.deep_view() =~= sent(events.deep_view()));
    out
}

/// The shortcut that a key press triggers. `previous_pressed` and `next_pressed`
/// tell whether the press matches the previous and next bindings; `bindings`
/// holds, for each bound model id in keymap order, whether the press matches
/// one of its bindings.
pub fn model_shortcut_action(
    previous_pressed: bool,
    next_pressed: bool,
    bindings: &Vec<(String, bool)>,
) -> (r: Option<ModelShortcutAction>)
    ensures
        r.deep_view() == shortcut_for(previous_pressed, next_pressed, bindings.deep_view()),
{
    if previous_pressed {
        return Some(ModelShortcutAction::Previous);
    }
    if next_pressed {
        return Some(ModelShortcutAction::Next);
    }
    let n = bindings.len();
    let mut i: usize = 0;
    assert(bindings.deep_view().subrange(0, n as int) =~= bindings.deep_view());
    while i < n
        invariant
            n == bindings.len(),
            i <= n,
            !previous_pressed,
            !next_pressed,
            first_pressed_binding(bindings.deep_view()) == first_pressed_binding(
                bindings.deep_view().subrange(i as int, n as int),
            ),
        decreases n - i,
    {
        let ghost rest = bindings.deep_view().subrange(i as int, n as int);
        assert(rest.len() > 0);
        assert(rest.drop_first() =~= bindings.deep_view().subrange(i + 1, n as int));
        assert(rest[0] == bindings.deep_view()[i as int]);
        if bindings[i].1 {
            assert(first_pressed_binding(rest) == Some(bindings.deep_view()[i as int].0));
            return Some(ModelShortcutAction::Select(bindings[i].0.clone()));
        }
        i = i + 1;
    }
    None
}

/// Selects the model before (`forward` false) or after (`forward` true) the
/// current one, wrapping around the catalog.
pub fn select_adjacent_model(models: &Vec<ModelPreset>, current_model: &str, forward: bool) -> (r:
    Vec<AppEvent>)
    requires
        models.len() > 0,
    ensures
        r.deep_view() == adjacent_events(models@, current_model@, forward),
{
    let n = models.len();
    let mut i: usize = 0;
    while i < n && !text_eq(models[i].model.as_str(), current_model)
        invariant
            n == models.len(),
            i <= n,
            forall|j: int| 0 <= j < i ==> preset_models(models@)[j] != current_model@,
        decreases n - i,
    {
        i = i + 1;
    }
    proof {
        lemma_first_index_of_scan(preset_models(models@), current_model@, i as int);
    }
    let target: usize = if i == n {
        if forward {
            0
        } else {
            n - 1
        }
    } else if forward {
        if i + 1 == n {
            0
        } else {
            i + 1
        }
    } else if i == 0 {
        n - 1
    } else {
        i - 1
    };
    proof {
        if i < n {
            if forward {
                if i + 1 == n {
                    assert((i + 1) % (n as int) == 0) by (nonlinear_arith)
                        requires
                            i + 1 == n,
                            n > 0,
                    ;
                } else {
                    assert((i + 1) % (n as int) == i + 1) by (nonlinear_arith)
                        requires
                            i + 1 < n,
                    ;
                }
            } else {
                if i == 0 {
                    assert((0 + n - 1) % (n as int) == n - 1) by (nonlinear_arith)
                        requires
                            n > 0,
                    ;
                } else {
                    assert((i + n - 1) % (n as int) == i - 1) by (nonlinear_arith)
                        requires
                            0 < i < n,
                    ;
                }
            }
        }
    }
    let preset = &models[target];
    apply_model_shortcut_selection(preset.model.clone(), Some(preset.default_reasoning_effort))
}

/// Selects the model bound to `model_id`, or says that it is no longer available.
pub fn select_model_by_id(models: &Vec<ModelPreset>, model_id: &str) -> (r: Vec<ShortcutEffect>)
    ensures
        r.deep_view() == select_by_id_effects(models@, model_id@),
{
    let n = models.len();
    let mut i: usize = 0;
    while i < n && !text_eq(models[i].id.as_str(), model_id)
        invariant
            n == models.len(),
            i <= n,
            forall|j: int| 0 <= j < i ==> preset_ids(models@)[j] != model_id@,
        decreases n - i,
    {
        i = i + 1;
    }
    proof {
        lemma_first_index_of_scan(preset_ids(models@), model_id@, i as int);
    }
    if i == n {
        let mut message = String::from_str("Model `");
        message.append(model_id);
        message.append("` is no longer available.");
        let mut effects: Vec<ShortcutEffect> = Vec::new();
        effects.push(ShortcutEffect::InfoMessage(message));
        assert(effects.deep_view() =~= seq![
            EffectView::InfoMessage(unavailable_message(model_id@)),
        ]);
        return effects;
    }
    let preset = &models[i];
    let events = apply_model_shortcut_selection(
        preset.model.clone(),
        Some(preset.default_reasoning_effort),
    );
    send_all(events)
}

/// The events that switch to `model` with reasoning `effort` and persist the choice.
pub fn apply_model_shortcut_selection(model: String, effort: Option<ReasoningEffort>) -> (r: Vec<
    AppEvent,
>)
    ensures
        r.deep_view() == selection_events(model@, effort),
{
    let mut events: Vec<AppEvent> = Vec::new();
    events.push(AppEvent::UpdateModel(model.clone()));
    events.push(AppEvent::UpdateReasoningEffort(effort));
    events.push(AppEvent::PersistModelSelection { model, effort });
    assert(events.deep_view() =~= selection_events(model@, effort));
    events
}

/// The previous/next shortcut always lands inside the catalog.
pub proof fn lemma_adjacent_index_in_range(position: Option<int>, len: int, forward: bool)
    requires
        len > 0,
        position matches Some(i) ==> 0 <= i < len,
    ensures
        0 <= adjacent_index(position, len, forward) < len,
{
}

/// Moving forward and then backward (or backward and then forward) returns to the
/// model one started from.
pub proof fn lemma_adjacent_round_trip(i: int, len: int, forward: bool)
    requires
        0 <= i < len,
    ensures
        adjacent_index(Some(adjacent_index(Some(i), len, forward)), len, !forward) == i,
{
    if forward {
        if i + 1 == len {
            assert((i + 1) % len == 0) by (nonlinear_arith)
                requires
                    i + 1 == len,
                    len > 0,
            ;
            assert((0 + len - 1) % len == len - 1) by (nonlinear_arith)
                requires
                    len > 0,
            ;
        } else {
            assert((i + 1) % len == i + 1) by (nonlinear_arith)
                requires
                    0 <= i,
                    i + 1 < len,
            ;
            assert((i + 1 + len - 1) % len == i) by (nonlinear_arith)
                requires
                    0 <= i < len,
            ;
        }
    } else {
        if i == 0 {
            assert((0 + len - 1) % len == len - 1) by (nonlinear_arith)
                requires
                    len > 0,
            ;
            assert((len - 1 + 1) % len == 0) by (nonlinear_arith)
                requires
                    len > 0,
            ;
        } else {
            assert((i + len - 1) % len == i - 1) by (nonlinear_arith)
                requires
                    0 < i < len,
            ;
            assert((i - 1 + 1) % len == i) by (nonlinear_arith)
                requires
                    0 < i < len,
            ;
        }
    }
}

/// The current model after `steps` presses of the next-model shortcut, each
/// switching to the model that the shortcut selects after the current one.
pub open spec fn model_after_next_steps(
    models: Seq<ModelPreset>,
    current: Seq<char>,
    steps: nat,
) -> Seq<char>
    decreases steps,
{
    if steps == 0 {
        current
    } else {
        let next = adjacent_index(
            first_index_of(preset_models(models), current),
            models.len() as int,
            true,
        );
        model_after_next_steps(models, models[next].model@, (steps - 1) as nat)
    }
}

/// Whether no two presets of the catalog have the same model.
pub open spec fn distinct_models(models: Seq<ModelPreset>) -> bool {
    forall|i: int, j: int|
        0 <= i < j < models.len() ==> #[trigger] models[i].model@ != #[trigger] models[j].model@
}

proof fn lemma_position_of_distinct(models: Seq<ModelPreset>, i: int)
    requires
        distinct_models(models),
        0 <= i < models.len(),
    ensures
        first_index_of(preset_models(models), models[i].model@) == Some(i),
{
    let keys = preset_models(models);
    assert forall|j: int| 0 <= j < i implies keys[j] != models[i].model@ by {
        assert(keys[j] == models[j].model@);
    }
    lemma_first_index_of_scan(keys, models[i].model@, i);
}

proof fn lemma_next_steps_advance(models: Seq<ModelPreset>, i: int, steps: nat)
    requires
        distinct_models(models),
        0 <= i < models.len(),
    ensures
        model_after_next_steps(models, models[i].model@, steps) == models[(i + steps)
            % models.len() as int].model@,
    decreases steps,
{
    let len = models.len() as int;
    if steps == 0 {
        vstd::arithmetic::div_mod::lemma_small_mod(i as nat, len as nat);
    } else {
        lemma_position_of_distinct(models, i);
        let j = (i + 1) % len;
        lemma_next_steps_advance(models, j, (steps - 1) as nat);
        vstd::arithmetic::div_mod::lemma_add_mod_noop(i + 1, steps - 1, len);
        vstd::arithmetic::div_mod::lemma_add_mod_noop_right(j, steps - 1, len);
        vstd::arithmetic::div_mod::lemma_small_mod(j as nat, len as nat);
        vstd::arithmetic::div_mod::lemma_mod_bound(i + 1, len);
    }
}

/// In a catalog whose models are all different, pressing the next-model shortcut
/// once for each model of the catalog comes back to the model one started from.
pub proof fn lemma_next_steps_cycle(models: Seq<ModelPreset>, i: int)
    requires
        distinct_models(models),
        0 <= i < models.len(),
    ensures
        model_after_next_steps(models, models[i].model@, models.len()) == models[i].model@,
{
    let len = models.len() as int;
    lemma_next_steps_advance(models, i, models.len());
    vstd::arithmetic::div_mod::lemma_mod_add_multiples_vanish(i, len);
    vstd::arithmetic::div_mod::lemma_small_mod(i as nat, len as nat);
}

/// The effects that switch to a preset: update the model to its model, update the
/// reasoning effort to its default, and persist both, each sent to the application.
pub open spec fn switch_effects(preset: ModelPreset) -> Seq<EffectView> {
    seq![
        EffectView::Send(AppEventView::UpdateModel(preset.model@)),
        EffectView::Send(AppEventView::UpdateReasoningEffort(Some(preset.default_reasoning_effort))),
        EffectView::Send(
            AppEventView::PersistModelSelection {
                model: preset.model@,
                effort: Some(preset.default_reasoning_effort),
            },
        ),
    ]
}

proof fn lemma_sent_preset(preset: ModelPreset)
    ensures
        sent(preset_selection_events(preset)) == switch_effects(preset),
{
    assert(sent(preset_selection_events(preset)) =~= switch_effects(preset));
}

/// With a configured session and a non-empty catalog whose first model equal to
/// the current one is at `i`, the next-model shortcut switches to the model after
/// it (the first after the last) and the previous-model shortcut to the model
/// before it (the last before the first); both are handled.
pub proof fn lemma_shortcuts_move_to_neighbours(
    models: Seq<ModelPreset>,
    current: Seq<char>,
    i: int,
)
    requires
        0 <= i < models.len(),
        models[i].model@ == current,
        forall|j: int| 0 <= j < i ==> models[j].model@ != current,
    ensures
        shortcut_outcome(Some(ActionView::Next), true, models, current) == (
            true,
            switch_effects(models[if i + 1 == models.len() { 0 } else { i + 1 }]),
        ),
        shortcut_outcome(Some(ActionView::Previous), true, models, current) == (
            true,
            switch_effects(models[if i == 0 { models.len() - 1 } else { i - 1 }]),
        ),
{
    let len = models.len() as int;
    let keys = preset_models(models);
    assert forall|j: int| 0 <= j < i implies keys[j] != current by {
        assert(keys[j] == models[j].model@);
    }
    lemma_first_index_of_scan(keys, current, i);
    if i + 1 == len {
        vstd::arithmetic::div_mod::lemma_mod_self_0(len);
    } else {
        vstd::arithmetic::div_mod::lemma_small_mod((i + 1) as nat, len as nat);
    }
    if i == 0 {
        vstd::arithmetic::div_mod::lemma_small_mod((len - 1) as nat, len as nat);
    } else {
        vstd::arithmetic::div_mod::lemma_mod_add_multiples_vanish(i - 1, len);
        vstd::arithmetic::div_mod::lemma_small_mod((i - 1) as nat, len as nat);
    }
    lemma_sent_preset(models[if i + 1 == len { 0 } else { i + 1 }]);
    lemma_sent_preset(models[if i == 0 { len - 1 } else { i - 1 }]);
}

/// With a configured session and a non-empty catalog that does not hold the
/// current model, the next-model shortcut switches to the first model and the
/// previous-model shortcut to the last; both are handled.
pub proof fn lemma_shortcuts_from_unknown_model(models: Seq<ModelPreset>, current: Seq<char>)
    requires
        models.len() > 0,
        forall|j: int| 0 <= j < models.len() ==> models[j].model@ != current,
    ensures
        shortcut_outcome(Some(ActionView::Next), true, models, current) == (
            true,
            switch_effects(models[0]),
        ),
        shortcut_outcome(Some(ActionView::Previous), true, models, current) == (
            true,
            switch_effects(models[models.len() - 1]),
        ),
{
    let keys = preset_models(models);
    assert forall|j: int| 0 <= j < keys.len() implies keys[j] != current by {
        assert(keys[j] == models[j].model@);
    }
    lemma_first_index_of_scan(keys, current, keys.len() as int);
    lemma_sent_preset(models[0]);
    lemma_sent_preset(models[models.len() - 1]);
}

/// With a configured session, the shortcut bound to a model id switches to the
/// first preset of the catalog with that id, and when no preset has it shows
/// that the model is no longer available; both are handled.
pub proof fn lemma_bound_shortcut_selects_by_id(
    models: Seq<ModelPreset>,
    current: Seq<char>,
    model_id: Seq<char>,
    i: int,
)
    requires
        0 <= i <= models.len(),
        forall|j: int| 0 <= j < i ==> models[j].id@ != model_id,
        i < models.len() ==> models[i].id@ == model_id,
    ensures
        i < models.len() ==> shortcut_outcome(
            Some(ActionView::Select(model_id)),
            true,
            models,
            current,
        ) == (true, switch_effects(models[i])),
        (i == models.len() && models.len() > 0) ==> shortcut_outcome(
            Some(ActionView::Select(model_id)),
            true,
            models,
            current,
        ) == (
            true,
            seq![
                EffectView::InfoMessage(
                    "Model `"@ + model_id + "` is no longer available."@,
                ),
            ],
        ),
{
    let keys = preset_ids(models);
    assert forall|j: int| 0 <= j < i implies keys[j] != model_id by {
        assert(keys[j] == models[j].id@);
    }
    if i < models.len() {
        assert(keys[i] == models[i].id@);
        lemma_sent_preset(models[i]);
    }
    lemma_first_index_of_scan(keys, model_id, i);
}

/// A key press triggers the previous-model shortcut when its key is pressed, else
/// the next-model shortcut when that key is, else the binding of the first bound
/// model whose key is pressed, else nothing.
pub proof fn lemma_shortcut_priority(
    previous_pressed: bool,
    next_pressed: bool,
    bindings: Seq<(Seq<char>, bool)>,
    k: int,
)
    requires
        0 <= k <= bindings.len(),
        forall|j: int| 0 <= j < k ==> !(#[trigger] bindings[j]).1,
        k < bindings.len() ==> bindings[k].1,
    ensures
        previous_pressed ==> shortcut_for(previous_pressed, next_pressed, bindings) == Some(
            ActionView::Previous,
        ),
        (!previous_pressed && next_pressed) ==> shortcut_for(
            previous_pressed,
            next_pressed,
            bindings,
        ) == Some(ActionView::Next),
        (!previous_pressed && !next_pressed && k < bindings.len()) ==> shortcut_for(
            previous_pressed,
            next_pressed,
            bindings,
        ) == Some(ActionView::Select(bindings[k].0)),
        (!previous_pressed && !next_pressed && k == bindings.len()) ==> shortcut_for(
            previous_pressed,
            next_pressed,
            bindings,
        ) == None::<ActionView>,
    decreases k,
{
    if k > 0 {
        let rest = bindings.drop_first();
        assert forall|j: int| 0 <= j < k - 1 implies !(#[trigger] rest[j]).1 by {
            assert(rest[j] == bindings[j + 1]);
        }
        if k < bindings.len() {
            assert(rest[k - 1] == bindings[k]);
        }
        lemma_shortcut_priority(previous_pressed, next_pressed, rest, k - 1);
        assert(!bindings[0].1);
    }
}

/// Without a configured session or a catalog, a shortcut only shows a message;
/// no event is sent.
pub proof fn lemma_blocked_shortcut_sends_nothing(
    action: ActionView,
    session_configured: bool,
    models: Seq<ModelPreset>,
    current: Seq<char>,
)
    requires
        !session_configured || models.len() == 0,
    ensures
        shortcut_outcome(Some(action), session_configured, models, current).0,
        shortcut_outcome(Some(action), session_configured, models, current).1.len() == 1,
        shortcut_outcome(Some(action), session_configured, models, current).1[0] is InfoMessage,
{
}

} // verus!
