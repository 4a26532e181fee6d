//! Model presets as the keymap sees them: which actions are model bindings,
//! the configuration path of an action, the list of bindable model ids and
//! the label and description shown for one.
use vstd::prelude::*;

use crate::text::text_eq;

verus! {

/// The keymap context that holds one binding per model.
pub const MODEL_BINDINGS_CONTEXT: &'static str = "model.bindings";

/// The label of the model keymap context.
pub const MODEL_CONTEXT_LABEL: &'static str = "Models";

/// How much reasoning a model preset asks for by default.
#[derive(Clone, Copy, Debug, PartialEq, Eq, Structural)]
pub enum ReasoningEffort {
    Disabled,
    Minimal,
    Low,
    Medium,
    High,
    XHigh,
}

/// A model offered in the catalog.
pub struct ModelPreset {
    pub id: String,
    pub model: String,
    pub display_name: String,
    pub description: String,
    pub default_reasoning_effort: ReasoningEffort,
}

/// The label and description shown for a model action.
pub struct ModelActionMetadata {
    pub label: String,
    pub description: String,
}

/// The keymap context that holds one binding per model.
pub open spec fn model_bindings_context() -> Seq<char> {
    "model.bindings"@
}

/// Whether an action of a context is a per-model binding (not `previous` or `next`).
pub open spec fn is_binding_action(context: Seq<char>, action: Seq<char>) -> bool {
    context == model_bindings_context() && action != "previous"@ && action != "next"@
}

/// The configuration path of an action in a keymap context.
pub open spec fn keymap_path(context: Seq<char>, action: Seq<char>) -> Seq<char> {
    "tui.keymap."@ + context + "."@ + action
}

/// The ids of the presets, in order.
pub open spec fn preset_ids(presets: Seq<ModelPreset>) -> Seq<Seq<char>> {
    presets.map_values(|p: ModelPreset| p.id@)
}

/// The model slugs of the presets, in order.
pub open spec fn preset_models(presets: Seq<ModelPreset>) -> Seq<Seq<char>> {
    presets.map_values(|p: ModelPreset| p.model@)
}

/// The index of the first occurrence of `key`, if any.
pub open spec fn first_index_of(keys: Seq<Seq<char>>, key: Seq<char>) -> Option<int>
    decreases keys.len(),
{
    if keys.len() == 0 {
        None
    } else if keys[0] == key {
        Some(0)
    } else {
        match first_index_of(keys.drop_first(), key) {
            Some(i) => Some(i + 1),
            None => None,
        }
    }
}

/// `first_index_of` names the first occurrence, or none when there is none.
pub proof fn lemma_first_index_of(keys: Seq<Seq<char>>, key: Seq<char>)
    ensures
        match first_index_of(keys, key) {
            Some(i) => 0 <= i < keys.len() && keys[i] == key && forall|j: int|
                0 <= j < i ==> keys[j] != key,
            None => forall|j: int| 0 <= j < keys.len() ==> keys[j] != key,
        },
    decreases keys.len(),
{
    if keys.len() > 0 && keys[0] != key {
        let rest = keys.drop_first();
        lemma_first_index_of(rest, key);
        match first_index_of(rest, key) {
            Some(i) => {
                assert forall|j: int| 0 <= j < i + 1 implies keys[j] != key by {
                    if j > 0 {
                        assert(keys[j] == rest[j - 1]);
                    }
                }
            },
            None => {
                assert forall|j: int| 0 <= j < keys.len() implies keys[j] != key by {
                    if j > 0 {
                        assert(keys[j] == rest[j - 1]);
                    }
                }
            },
        }
    }
}

/// A scan that stopped at `i` finds what `first_index_of` names.
pub proof fn lemma_first_index_of_scan(keys: Seq<Seq<char>>, key: Seq<char>, i: int)
    requires
        0 <= i <= keys.len(),
        forall|j: int| 0 <= j < i ==> keys[j] != key,
        i < keys.len() ==> keys[i] == key,
    ensures
        first_index_of(keys, key) == (if i < keys.len() {
            Some(i)
        } else {
            None::<int>
        }),
{
    lemma_first_index_of(keys, key);
    match first_index_of(keys, key) {
        Some(k) => {
            if k < i {
                assert(keys[k] != key);
            }
            if k > i {
                assert(keys[i] != key);
            }
        },
        None => {
            if i < keys.len() {
                assert(keys[i] != key);
            }
        },
    }
}

/// The keys in order, each kept at its first occurrence only.
pub open spec fn first_occurrences(keys: Seq<Seq<char>>) -> Seq<Seq<char>>
    decreases keys.len(),
{
    if keys.len() == 0 {
        Seq::empty()
    } else {
        let kept = first_occurrences(keys.drop_last());
        if kept.contains(keys.last()) {
            kept
        } else {
            kept.push(keys.last())
        }
    }
}

/// The label a model action shows.
pub open spec fn action_label(presets: Seq<ModelPreset>, action: Seq<char>) -> Seq<char> {
    match first_index_of(preset_ids(presets), action) {
        Some(i) => presets[i].display_name@,
        None => action,
    }
}

/// The description a model action shows.
pub open spec fn action_description(presets: Seq<ModelPreset>, action: Seq<char>) -> Seq<char> {
    match first_index_of(preset_ids(presets), action) {
        Some(i) => if presets[i].description@.len() == 0 {
            "Model slug: "@ + presets[i].model@
        } else {
            presets[i].description@
        },
        None => "Model preset is no longer in the current catalog."@,
    }
}

/// Whether an action of a context binds one model (rather than `previous` or `next`).
pub fn is_model_binding_action(context: &str, action: &str) -> (r: bool)
    ensures
        r == is_binding_action(context@, action@),
{
    text_eq(context, "model.bindings") && !(text_eq(action, "previous") || text_eq(
        action,
        "next",
    ))
}

/// The configuration path of the binding for one model.
pub fn model_binding_config_path(action: &str) -> (r: String)
    ensures
        r@ == keymap_path(model_bindings_context(), action@),
{
    let mut path = String::from_str("tui.keymap.");
    path.append("model.bindings");
    path.append(".");
    path.append(action);
    path
}

/// The configuration path of a model action in a keymap context.
pub fn model_action_config_path(context: &str, action: &str) -> (r: String)
    ensures
        r@ == keymap_path(context@, action@),
{
    if is_model_binding_action(context, action) {
        model_binding_config_path(action)
    } else {
        let mut path = String::from_str("tui.keymap.");
        path.append(context);
        path.append(".");
        path.append(action);
        path
    }
}

fn contains_text(items: &Vec<String>, key: &String) -> (r: bool)
    ensures
        r == items.deep_view().contains(key@),
{
    let mut i: usize = 0;
    while i < items.len()
        invariant
            i <= items.len(),
            forall|j: int| 0 <= j < i ==> items.deep_view()[j] != key@,
        decreases items.len() - i,
    {
        if items[i] == *key {
            assert(items.deep_view()[i as int] == key@);
            return true;
        }
        i = i + 1;
    }
    false
}

/// The ids that can be bound: the preset ids, then the configured ids, each once,
/// in the order of first appearance.
pub fn model_action_ids(model_presets: &Vec<ModelPreset>, configured_ids: Vec<String>) -> (r: Vec<
    String,
>)
    ensures
        r.deep_view() == first_occurrences(
            preset_ids(model_presets@) + configured_ids.deep_view(),
        ),
{
    let ghost all = preset_ids(model_presets@) + configured_ids.deep_view();
    let mut ids: Vec<String> = Vec::new();
    let n = model_presets.len();
    let mut i: usize = 0;
    assert(all.subrange(0, 0) =~= Seq::<Seq<char>>::empty());
    while i < n
        invariant
            n == model_presets.len(),
            i <= n,
            all == preset_ids(model_presets@) + configured_ids.deep_view(),
            ids.deep_view() == first_occurrences(all.subrange(0, i as int)),
        decreases n - i,
    {
        let id = model_presets[i].id.clone();
        let ghost prefix = all.subrange(0, i as int + 1);
        assert(prefix.drop_last() =~= all.subrange(0, i as int));
        assert(prefix.last() == id@);
        if !contains_text(&ids, &id) {
            ids.push(id);
            assert(ids.deep_view() =~= first_occurrences(prefix));
        }
        i = i + 1;
    }
    let m = configured_ids.len();
    let mut k: usize = 0;
    while k < m
        invariant
            n == model_presets.len(),
            m == configured_ids.len(),
            k <= m,
            all == preset_ids(model_presets@) + configured_ids.deep_view(),
            all.len() == n + m,
            ids.deep_view() == first_occurrences(all.subrange(0, n + k)),
        decreases m - k,
    {
        let id = configured_ids[k].clone();
        let ghost prefix = all.subrange(0, n + k + 1);
        assert(prefix.drop_last() =~= all.subrange(0, n + k));
        assert(prefix.last() == id@);
        if !contains_text(&ids, &id) {
            ids.push(id);
            assert(ids.deep_view() =~= first_occurrences(prefix));
        }
        k = k + 1;
    }
    assert(all.subrange(0, n + m) =~= all);
    ids
}

/// The label and description shown for a model action: those of the first preset
/// with that id, or the action itself and a note that the preset is gone.
pub fn model_action_metadata(model_presets: &Vec<ModelPreset>, action: &str) -> (r:
    ModelActionMetadata)
    ensures
        r.label@ == action_label(model_presets@, action@),
        r.description@ == action_description(model_presets@, action@),
{
    let n = model_presets.len();
    let mut i: usize = 0;
    while i < n && !text_eq(model_presets[i].id.as_str(), action)
        invariant
            n == model_presets.len(),
            i <= n,
            forall|j: int| 0 <= j < i ==> preset_ids(model_presets@)[j] != action@,
        decreases n - i,
    {
        i = i + 1;
    }
    proof {
        lemma_first_index_of_scan(preset_ids(model_presets@), action@, i as int);
    }
    if i == n {
        return ModelActionMetadata {
            label: String::from_str(action),
            description: String::from_str("Model preset is no longer in the current catalog."),
        };
    }
    let preset = &model_presets[i];
    let description = if preset.description.as_str().unicode_len() == 0 {
        let mut d = String::from_str("Model slug: ");
        d.append(preset.model.as_str());
        d
    } else {
        preset.description.clone()
    };
    ModelActionMetadata { label: preset.display_name.clone(), description }
}

/// The bindable ids hold no id twice.
pub proof fn lemma_first_occurrences_no_duplicates(keys: Seq<Seq<char>>)
    ensures
        first_occurrences(keys).no_duplicates(),
    decreases keys.len(),
{
    if keys.len() > 0 {
        lemma_first_occurrences_no_duplicates(keys.drop_last());
    }
}

/// The bindable ids are exactly the ids that occur among the presets and the
/// configured ids.
pub proof fn lemma_first_occurrences_same_ids(keys: Seq<Seq<char>>, key: Seq<char>)
    ensures
        first_occurrences(keys).contains(key) == keys.contains(key),
    decreases keys.len(),
{
    if keys.len() > 0 {
        let rest = keys.drop_last();
        let last = keys.last();
        lemma_first_occurrences_same_ids(rest, key);
        let kept = first_occurrences(rest);
        let all = first_occurrences(keys);
        if keys.contains(key) {
            let j = choose|j: int| 0 <= j < keys.len() && keys[j] == key;
            if j < keys.len() - 1 {
                assert(rest[j] == key);
                assert(rest.contains(key));
                let k = choose|k: int| 0 <= k < kept.len() && kept[k] == key;
                if !kept.contains(last) {
                    assert(kept.push(last)[k] == key);
                }
                assert(all.contains(key));
            } else {
                if kept.contains(last) {
                    assert(all.contains(key));
                } else {
                    assert(kept.push(last)[kept.len() as int] == key);
                    assert(all.contains(key));
                }
            }
        }
        if all.contains(key) {
            let k = choose|k: int| 0 <= k < all.len() && all[k] == key;
            if k < kept.len() {
                assert(kept[k] == key);
                assert(kept.contains(key));
                let j = choose|j: int| 0 <= j < rest.len() && rest[j] == key;
                assert(keys[j] == key);
            } else {
                assert(keys[keys.len() - 1] == key);
            }
            assert(keys.contains(key));
        }
    }
}

/// When no id occurs twice, the bindable ids are the ids as given, in order.
pub proof fn lemma_first_occurrences_keeps_distinct(keys: Seq<Seq<char>>)
    requires
        keys.no_duplicates(),
    ensures
        first_occurrences(keys) == keys,
    decreases keys.len(),
{
    if keys.len() > 0 {
        let rest = keys.drop_last();
        assert(rest.no_duplicates());
        lemma_first_occurrences_keeps_distinct(rest);
        if rest.contains(keys.last()) {
            let j = choose|j: int| 0 <= j < rest.len() && rest[j] == keys.last();
            assert(keys[j] == keys[keys.len() - 1]);
        }
        assert(rest.push(keys.last()) =~= keys);
    }
}

} // verus!
