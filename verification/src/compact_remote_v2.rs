//! The decisions of remote conversation compaction (second version): which
//! history items are sent, how the response stream is read for the response id,
//! and what is done with the outcome.
use vstd::prelude::*;

verus! {

/// The phase of an assistant message.
#[derive(Clone, Copy, Debug, PartialEq, Eq, Structural)]
pub enum MessagePhase {
    Commentary,
    FinalAnswer,
}

/// A piece of message content.
#[derive(Clone, Debug)]
pub enum ContentItem {
    InputText { text: String },
    OutputText { text: String },
}

/// An item of the conversation history.
#[allow(inconsistent_fields)]
#[derive(Clone, Debug)]
pub enum ResponseItem {
    Message {
        id: Option<String>,
        role: String,
        content: Vec<ContentItem>,
        phase: Option<MessagePhase>,
    },
    ContextCompaction { encrypted_content: Option<String> },
    Compaction { encrypted_content: String },
    Other,
}

/// Token counts reported with a completed response.
#[derive(Clone, Copy, Debug, PartialEq, Eq, Structural)]
pub struct TokenUsage {
    pub input_tokens: i64,
    pub cached_input_tokens: i64,
    pub output_tokens: i64,
    pub reasoning_output_tokens: i64,
    pub total_tokens: i64,
}

/// An event of a model response stream.
#[derive(Clone, Debug)]
pub enum ResponseEvent {
    Created,
    OutputItemDone(ResponseItem),
    OutputTextDelta(String),
    Completed { response_id: String, token_usage: Option<TokenUsage>, end_turn: Option<bool> },
}

/// An error of the model client.
#[derive(Clone, Debug)]
pub enum CodexErr {
    Fatal(String),
    Stream(String),
}

/// An error with its message as text.
pub enum CodexErrView {
    Fatal(Seq<char>),
    Stream(Seq<char>),
}

impl DeepView for CodexErr {
    type V = CodexErrView;

    open spec fn deep_view(&self) -> CodexErrView {
        match self {
            CodexErr::Fatal(m) => CodexErrView::Fatal(m@),
            CodexErr::Stream(m) => CodexErrView::Stream(m@),
        }
    }
}

/// Where the initial context is injected into the compacted history.
#[derive(Clone, Copy, Debug, PartialEq, Eq, Structural)]
pub enum InitialContextInjection {
    DoNotInject,
    BeforeLastUserMessage,
}

/// What a step of reading the response stream decides.
pub enum StreamStep {
    /// Read the next event.
    Continue,
    /// Stop with this outcome.
    Done(Result<String, CodexErr>),
}

/// The item that a compaction records in the rollout.
pub struct CompactedItem {
    pub message: String,
    pub replacement_history: Option<Vec<ResponseItem>>,
}

/// The error when the stream ends before the response completes.
pub open spec fn stream_closed_message() -> Seq<char> {
    "remote compaction v2 stream closed before response.completed"@
}

/// The outcome of reading a response stream: the response id of the first
/// completed event, unless an error comes first or the stream ends before it.
pub open spec fn collected_response_id(events: Seq<Result<ResponseEvent, CodexErr>>) -> Result<
    Seq<char>,
    CodexErrView,
>
    decreases events.len(),
{
    if events.len() == 0 {
        Err(CodexErrView::Fatal(stream_closed_message()))
    } else {
        match events[0] {
            Err(e) => Err(e.deep_view()),
            Ok(ResponseEvent::Completed { response_id, .. }) => Ok(response_id@),
            Ok(_) => collected_response_id(events.drop_first()),
        }
    }
}

/// Whether an item is a compaction summary of an earlier context.
pub open spec fn is_context_compaction(item: ResponseItem) -> bool {
    item is ContextCompaction
}

/// The history without its context compaction items, in order.
pub open spec fn without_context_compaction(items: Seq<ResponseItem>) -> Seq<ResponseItem>
    decreases items.len(),
{
    if items.len() == 0 {
        Seq::empty()
    } else if is_context_compaction(items.last()) {
        without_context_compaction(items.drop_last())
    } else {
        without_context_compaction(items.drop_last()).push(items.last())
    }
}

/// Whether an item is the empty compaction marker.
pub open spec fn is_compaction_marker(item: ResponseItem) -> bool {
    item matches ResponseItem::Compaction { encrypted_content } && encrypted_content@.len() == 0
}

/// One step of reading the response stream: stop at the end of the stream, at an
/// error, or at the completed event; read on otherwise.
pub fn compaction_stream_step(event: Option<Result<ResponseEvent, CodexErr>>) -> (r: StreamStep)
    ensures
        event is None ==> (r matches StreamStep::Done(Err(e)) && e.deep_view()
            == CodexErrView::Fatal(stream_closed_message())),
        event matches Some(Err(e)) ==> (r matches StreamStep::Done(Err(e2)) && e2.deep_view()
            == e.deep_view()),
        event matches Some(Ok(ResponseEvent::Completed { response_id, .. })) ==> (r matches StreamStep::Done(
            Ok(id),
        ) && id@ == response_id@),
        event matches Some(Ok(ev)) && !(ev is Completed) ==> r is Continue,
{
    match event {
        None => StreamStep::Done(
            Err(
                CodexErr::Fatal(
                    String::from_str("remote compaction v2 stream closed before response.completed"),
                ),
            ),
        ),
        Some(Err(e)) => StreamStep::Done(Err(e)),
        Some(Ok(ResponseEvent::Completed { response_id, .. })) => StreamStep::Done(Ok(response_id)),
        Some(Ok(_)) => StreamStep::Continue,
    }
}

/// Reads the events of a response stream, in order, for the response id.
pub fn collect_compaction_response_id(events: Vec<Result<ResponseEvent, CodexErr>>) -> (r: Result<
    String,
    CodexErr,
>)
    ensures
        r matches Ok(id) ==> collected_response_id(events@) == Ok::<Seq<char>, CodexErrView>(id@),
        r matches Err(e) ==> collected_response_id(events@) == Err::<Seq<char>, CodexErrView>(
            e.deep_view(),
        ),
{
    broadcast use vstd::std_specs::vec::axiom_spec_into_iter;

    let ghost all = events@;
    assert(all.subrange(0, all.len() as int) =~= all);
    for event in it: events.into_iter()
        invariant
            it.seq() == all,
            collected_response_id(all) == collected_response_id(
                all.subrange(it.index() as int, all.len() as int),
            ),
    {
        let ghost rest = all.subrange(it.index() as int, all.len() as int);
        proof {
            assert(rest[0] == event);
            assert(rest.drop_first() =~= all.subrange(it.index() + 1, all.len() as int));
        }
        match compaction_stream_step(Some(event)) {
            StreamStep::Done(outcome) => {
                return outcome;
            },
            StreamStep::Continue => {},
        }
    }
    assert(all.subrange(all.len() as int, all.len() as int) =~= Seq::<
        Result<ResponseEvent, CodexErr>,
    >::empty());
    match compaction_stream_step(None) {
        StreamStep::Done(outcome) => outcome,
        StreamStep::Continue => Err(
            CodexErr::Fatal(
                String::from_str("remote compaction v2 stream closed before response.completed"),
            ),
        ),
    }
}

/// The history sent for compaction: every item but earlier context compactions.
pub fn compaction_prompt_input(history: Vec<ResponseItem>) -> (r: Vec<ResponseItem>)
    ensures
        r@ == without_context_compaction(history@),
{
    broadcast use vstd::std_specs::vec::axiom_spec_into_iter;

    let ghost all = history@;
    let mut kept: Vec<ResponseItem> = Vec::new();
    assert(all.subrange(0, 0) =~= Seq::<ResponseItem>::empty());
    for item in it: history.into_iter()
        invariant
            it.seq() == all,
            kept@ == without_context_compaction(all.subrange(0, it.index() as int)),
    {
        let ghost prefix = all.subrange(0, it.index() + 1);
        proof {
            assert(prefix.drop_last() =~= all.subrange(0, it.index() as int));
            assert(prefix.last() == item);
        }
        let is_summary = match &item {
            ResponseItem::ContextCompaction { .. } => true,
            _ => false,
        };
        if !is_summary {
            kept.push(item);
        }
        assert(kept@ =~= without_context_compaction(prefix));
    }
    assert(all.subrange(0, all.len() as int) =~= all);
    kept
}

/// The input of the compaction request: the prompt input followed by an empty
/// compaction marker.
pub fn v2_compaction_input(prompt_input: Vec<ResponseItem>) -> (r: Vec<ResponseItem>)
    ensures
        r@.len() == prompt_input@.len() + 1,
        r@.subrange(0, prompt_input@.len() as int) == prompt_input@,
        is_compaction_marker(r@.last()),
{
    let mut input = prompt_input;
    input.push(ResponseItem::Compaction { encrypted_content: String::new() });
    assert(input@.subrange(0, prompt_input@.len() as int) =~= prompt_input@);
    input
}

/// The response id kept from the compaction request: its id when it succeeded;
/// on failure the compaction falls back to the compact endpoint without one.
pub fn v2_response_id(result: Result<String, CodexErr>) -> (r: Option<String>)
    ensures
        result matches Ok(id) ==> (r matches Some(kept) && kept@ == id@),
        result is Err ==> r is None,
{
    match result {
        Ok(id) => Some(id),
        Err(_) => None,
    }
}

/// Whether the compacted history gets a reference context item: only when the
/// initial context is injected.
pub fn needs_reference_context_item(injection: InitialContextInjection) -> (r: bool)
    ensures
        r == (injection == InitialContextInjection::BeforeLastUserMessage),
{
    match injection {
        InitialContextInjection::DoNotInject => false,
        InitialContextInjection::BeforeLastUserMessage => true,
    }
}

/// Whether the client acknowledges the processed response: only with a response
/// id and when the websocket feature for it is enabled.
pub fn should_send_response_processed(response_id: &Option<String>, feature_enabled: bool) -> (r:
    bool)
    ensures
        r == (response_id is Some && feature_enabled),
{
    response_id.is_some() && feature_enabled
}

/// The rollout item that records a compaction: no message, and the new history.
pub fn compacted_item(replacement_history: Vec<ResponseItem>) -> (r: CompactedItem)
    ensures
        r.message@.len() == 0,
        r.replacement_history matches Some(h) && h@ == replacement_history@,
{
    CompactedItem { message: String::new(), replacement_history: Some(replacement_history) }
}

/// A model request: its input and the settings that go with it.
pub struct CompactionPrompt {
    pub input: Vec<ResponseItem>,
    /// The model-visible tool specifications, each as its serialized text.
    pub tools: Vec<String>,
    pub parallel_tool_calls: bool,
    pub base_instructions: String,
    /// The name of the personality, when one is set.
    pub personality: Option<String>,
    /// The schema that the output must follow, when there is one.
    pub output_schema: Option<String>,
    pub output_schema_strict: bool,
}

/// Whether two prompts carry the same tools, base instructions, parallel tool
/// call setting and personality, and neither asks for an output schema.
pub open spec fn same_settings(a: CompactionPrompt, b: CompactionPrompt) -> bool {
    &&& a.tools.deep_view() == b.tools.deep_view()
    &&& a.parallel_tool_calls == b.parallel_tool_calls
    &&& a.base_instructions@ == b.base_instructions@
    &&& a.personality.deep_view() == b.personality.deep_view()
    &&& a.output_schema is None && b.output_schema is None
    &&& a.output_schema_strict && b.output_schema_strict
}

/// The prompt of the compaction request: the prompt input followed by an empty
/// compaction marker, with the given tools and settings and no output schema.
pub fn v2_compaction_prompt(
    prompt_input: Vec<ResponseItem>,
    tools: Vec<String>,
    parallel_tool_calls: bool,
    base_instructions: String,
    personality: Option<String>,
) -> (r: CompactionPrompt)
    ensures
        r.input@.len() == prompt_input@.len() + 1,
        r.input@.subrange(0, prompt_input@.len() as int) == prompt_input@,
        is_compaction_marker(r.input@.last()),
        r.tools.deep_view() == tools.deep_view(),
        r.parallel_tool_calls == parallel_tool_calls,
        r.base_instructions@ == base_instructions@,
        r.personality.deep_view() == personality.deep_view(),
        r.output_schema is None,
        r.output_schema_strict,
{
    CompactionPrompt {
        input: v2_compaction_input(prompt_input),
        tools,
        parallel_tool_calls,
        base_instructions,
        personality,
        output_schema: None,
        output_schema_strict: true,
    }
}

/// The prompt of the compact endpoint, made from the compaction request's prompt:
/// its input without the last item (the compaction marker), and the same tools,
/// base instructions, parallel tool call setting and personality.
pub fn compact_endpoint_prompt(v2_prompt: CompactionPrompt) -> (r: CompactionPrompt)
    ensures
        r.input@ == (if v2_prompt.input@.len() == 0 {
            Seq::<ResponseItem>::empty()
        } else {
            v2_prompt.input@.drop_last()
        }),
        r.tools.deep_view() == v2_prompt.tools.deep_view(),
        r.parallel_tool_calls == v2_prompt.parallel_tool_calls,
        r.base_instructions@ == v2_prompt.base_instructions@,
        r.personality.deep_view() == v2_prompt.personality.deep_view(),
        r.output_schema is None,
        r.output_schema_strict,
{
    let mut input = v2_prompt.input;
    if input.len() > 0 {
        input.pop();
    }
    CompactionPrompt {
        input,
        tools: v2_prompt.tools,
        parallel_tool_calls: v2_prompt.parallel_tool_calls,
        base_instructions: v2_prompt.base_instructions,
        personality: v2_prompt.personality,
        output_schema: None,
        output_schema_strict: true,
    }
}

/// The two requests of a compaction share their settings: the compact endpoint
/// gets the prompt input that the compaction request was made from, and the same
/// tools, base instructions, parallel tool call setting and personality.
pub proof fn lemma_requests_share_prompt(
    prompt_input: Seq<ResponseItem>,
    v2_prompt: CompactionPrompt,
    compact_prompt: CompactionPrompt,
)
    requires
        v2_prompt.input@.len() == prompt_input.len() + 1,
        v2_prompt.input@.subrange(0, prompt_input.len() as int) == prompt_input,
        v2_prompt.output_schema is None,
        v2_prompt.output_schema_strict,
        compact_prompt.input@ == v2_prompt.input@.drop_last(),
        compact_prompt.tools.deep_view() == v2_prompt.tools.deep_view(),
        compact_prompt.parallel_tool_calls == v2_prompt.parallel_tool_calls,
        compact_prompt.base_instructions@ == v2_prompt.base_instructions@,
        compact_prompt.personality.deep_view() == v2_prompt.personality.deep_view(),
        compact_prompt.output_schema is None,
        compact_prompt.output_schema_strict,
    ensures
        compact_prompt.input@ == prompt_input,
        same_settings(v2_prompt, compact_prompt),
{
    assert(v2_prompt.input@.drop_last() =~= v2_prompt.input@.subrange(
        0,
        prompt_input.len() as int,
    ));
}

/// Where a compaction task stands.
pub enum CompactionTaskState {
    /// Nothing has run yet.
    Starting,
    /// The start of the compaction item is being announced.
    Announcing,
    /// The tools of the prompt are being built.
    BuildingTools,
    /// The compaction request is under way.
    AwaitingV2Response,
    /// The compact endpoint is asked for the new history.
    AwaitingCompactedHistory { response_id: Option<String> },
    /// The new history is adjusted for the session.
    AwaitingProcessedHistory { response_id: Option<String> },
    /// The new history is being installed.
    AwaitingInstall { response_id: Option<String> },
    /// The token usage is being recomputed for the new history.
    AwaitingTokenRecount { response_id: Option<String> },
    /// The completion of the compaction item is being announced.
    AwaitingCompletion { response_id: Option<String> },
    /// The processed response is being acknowledged.
    AwaitingAcknowledgement,
    /// The task is over.
    Finished,
}

/// What the session reports back to a compaction task.
pub enum CompactionTaskEvent {
    Start,
    Announced,
    ToolsBuilt(Result<(), CodexErr>),
    V2Response(Result<String, CodexErr>),
    CompactedHistory(Result<(), CodexErr>),
    HistoryProcessed,
    HistoryInstalled,
    TokenUsageRecomputed,
    CompletionAnnounced,
    Acknowledged,
}

/// What a compaction task asks the session to do next.
pub enum CompactionTaskAction {
    /// Announce that the compaction item started.
    AnnounceStart,
    /// Build the tools of the prompt from the prompt input.
    BuildTools,
    /// Send the compaction request (the prompt input and the compaction marker).
    SendV2Request,
    /// Ask the compact endpoint for the new history.
    RequestCompactedHistory,
    /// Adjust the new history for the session.
    ProcessCompactedHistory,
    /// Install the new history, with a reference context item or not.
    InstallHistory { with_reference_context_item: bool },
    /// Recompute the token usage of the installed history.
    RecomputeTokenUsage,
    /// Announce that the compaction item completed.
    AnnounceCompletion,
    /// Acknowledge the processed response.
    SendResponseProcessed(String),
    /// End the task with this outcome.
    Finish(Result<(), CodexErr>),
    /// Nothing to do: the event does not belong to this state.
    Wait,
}

/// A compaction task state with its texts as character sequences.
pub enum TaskStateView {
    Starting,
    Announcing,
    BuildingTools,
    AwaitingV2Response,
    AwaitingCompactedHistory { response_id: Option<Seq<char>> },
    AwaitingProcessedHistory { response_id: Option<Seq<char>> },
    AwaitingInstall { response_id: Option<Seq<char>> },
    AwaitingTokenRecount { response_id: Option<Seq<char>> },
    AwaitingCompletion { response_id: Option<Seq<char>> },
    AwaitingAcknowledgement,
    Finished,
}

/// A compaction task event with its texts as character sequences.
pub enum TaskEventView {
    Start,
    Announced,
    ToolsBuilt(Result<(), CodexErrView>),
    V2Response(Result<Seq<char>, CodexErrView>),
    CompactedHistory(Result<(), CodexErrView>),
    HistoryProcessed,
    HistoryInstalled,
    TokenUsageRecomputed,
    CompletionAnnounced,
    Acknowledged,
}

/// A compaction task action with its texts as character sequences.
pub enum TaskActionView {
    AnnounceStart,
    BuildTools,
    SendV2Request,
    RequestCompactedHistory,
    ProcessCompactedHistory,
    InstallHistory { with_reference_context_item: bool },
    RecomputeTokenUsage,
    AnnounceCompletion,
    SendResponseProcessed(Seq<char>),
    Finish(Result<(), CodexErrView>),
    Wait,
}

/// An outcome without a value, its error as a view.
pub open spec fn unit_outcome_view(r: Result<(), CodexErr>) -> Result<(), CodexErrView> {
    match r {
        Ok(_) => Ok(()),
        Err(e) => Err(e.deep_view()),
    }
}

impl DeepView for CompactionTaskState {
    type V = TaskStateView;

    open spec fn deep_view(&self) -> TaskStateView {
        match self {
            CompactionTaskState::Starting => TaskStateView::Starting,
            CompactionTaskState::Announcing => TaskStateView::Announcing,
            CompactionTaskState::BuildingTools => TaskStateView::BuildingTools,
            CompactionTaskState::AwaitingV2Response => TaskStateView::AwaitingV2Response,
            CompactionTaskState::AwaitingCompactedHistory { response_id } =>
                TaskStateView::AwaitingCompactedHistory { response_id: response_id.deep_view() },
            CompactionTaskState::AwaitingProcessedHistory { response_id } =>
                TaskStateView::AwaitingProcessedHistory { response_id: response_id.deep_view() },
            CompactionTaskState::AwaitingInstall { response_id } =>
                TaskStateView::AwaitingInstall { response_id: response_id.deep_view() },
            CompactionTaskState::AwaitingTokenRecount { response_id } =>
                TaskStateView::AwaitingTokenRecount { response_id: response_id.deep_view() },
            CompactionTaskState::AwaitingCompletion { response_id } =>
                TaskStateView::AwaitingCompletion { response_id: response_id.deep_view() },
            CompactionTaskState::AwaitingAcknowledgement => TaskStateView::AwaitingAcknowledgement,
            CompactionTaskState::Finished => TaskStateView::Finished,
        }
    }
}

impl DeepView for CompactionTaskEvent {
    type V = TaskEventView;

    open spec fn deep_view(&self) -> TaskEventView {
        match self {
            CompactionTaskEvent::Start => TaskEventView::Start,
            CompactionTaskEvent::Announced => TaskEventView::Announced,
            CompactionTaskEvent::ToolsBuilt(r) => TaskEventView::ToolsBuilt(unit_outcome_view(*r)),
            CompactionTaskEvent::V2Response(r) => TaskEventView::V2Response(
                match r {
                    Ok(id) => Ok(id@),
                    Err(e) => Err(e.deep_view()),
                },
            ),
            CompactionTaskEvent::CompactedHistory(r) => TaskEventView::CompactedHistory(
                unit_outcome_view(*r),
            ),
            CompactionTaskEvent::HistoryProcessed => TaskEventView::HistoryProcessed,
            CompactionTaskEvent::HistoryInstalled => TaskEventView::HistoryInstalled,
            CompactionTaskEvent::TokenUsageRecomputed => TaskEventView::TokenUsageRecomputed,
            CompactionTaskEvent::CompletionAnnounced => TaskEventView::CompletionAnnounced,
            CompactionTaskEvent::Acknowledged => TaskEventView::Acknowledged,
        }
    }
}

impl DeepView for CompactionTaskAction {
    type V = TaskActionView;

    open spec fn deep_view(&self) -> TaskActionView {
        match self {
            CompactionTaskAction::AnnounceStart => TaskActionView::AnnounceStart,
            CompactionTaskAction::BuildTools => TaskActionView::BuildTools,
            CompactionTaskAction::SendV2Request => TaskActionView::SendV2Request,
            CompactionTaskAction::RequestCompactedHistory => TaskActionView::RequestCompactedHistory,
            CompactionTaskAction::ProcessCompactedHistory => TaskActionView::ProcessCompactedHistory,
            CompactionTaskAction::InstallHistory { with_reference_context_item } =>
                TaskActionView::InstallHistory {
                    with_reference_context_item: *with_reference_context_item,
                },
            CompactionTaskAction::RecomputeTokenUsage => TaskActionView::RecomputeTokenUsage,
            CompactionTaskAction::AnnounceCompletion => TaskActionView::AnnounceCompletion,
            CompactionTaskAction::SendResponseProcessed(id) => TaskActionView::SendResponseProcessed(
                id@,
            ),
            CompactionTaskAction::Finish(r) => TaskActionView::Finish(unit_outcome_view(*r)),
            CompactionTaskAction::Wait => TaskActionView::Wait,
        }
    }
}

/// One step of a compaction task. The start of the compaction item is announced
/// first; then the tools are built, and their failure ends the task with that
/// error before any request; then the compaction request is sent and, whatever
/// became of it, the compact endpoint is asked, whose failure ends the task with
/// that error and installs nothing; otherwise the history is processed, then
/// installed (with a reference context item when the initial context is
/// injected), then the token usage is recomputed and the completion of the item
/// announced, and only then, when the request gave a response id and
/// acknowledgement is enabled, the response is acknowledged. An event that does
/// not belong to the state changes nothing.
pub open spec fn task_step(
    state: TaskStateView,
    event: TaskEventView,
    injection: InitialContextInjection,
    acknowledgement_enabled: bool,
) -> (TaskStateView, TaskActionView) {
    match (state, event) {
        (TaskStateView::Starting, TaskEventView::Start) => (
            TaskStateView::Announcing,
            TaskActionView::AnnounceStart,
        ),
        (TaskStateView::Announcing, TaskEventView::Announced) => (
            TaskStateView::BuildingTools,
            TaskActionView::BuildTools,
        ),
        (TaskStateView::BuildingTools, TaskEventView::ToolsBuilt(r)) => match r {
            Ok(_) => (TaskStateView::AwaitingV2Response, TaskActionView::SendV2Request),
            Err(e) => (TaskStateView::Finished, TaskActionView::Finish(Err(e))),
        },
        (TaskStateView::AwaitingV2Response, TaskEventView::V2Response(r)) => (
            TaskStateView::AwaitingCompactedHistory {
                response_id: match r {
                    Ok(id) => Some(id),
                    Err(_) => None,
                },
            },
            TaskActionView::RequestCompactedHistory,
        ),
        (
            TaskStateView::AwaitingCompactedHistory { response_id },
            TaskEventView::CompactedHistory(r),
        ) => match r {
            Ok(_) => (
                TaskStateView::AwaitingProcessedHistory { response_id },
                TaskActionView::ProcessCompactedHistory,
            ),
            Err(e) => (TaskStateView::Finished, TaskActionView::Finish(Err(e))),
        },
        (TaskStateView::AwaitingProcessedHistory { response_id }, TaskEventView::HistoryProcessed) => (
            TaskStateView::AwaitingInstall { response_id },
            TaskActionView::InstallHistory {
                with_reference_context_item: injection
                    == InitialContextInjection::BeforeLastUserMessage,
            },
        ),
        (TaskStateView::AwaitingInstall { response_id }, TaskEventView::HistoryInstalled) => (
            TaskStateView::AwaitingTokenRecount { response_id },
            TaskActionView::RecomputeTokenUsage,
        ),
        (TaskStateView::AwaitingTokenRecount { response_id }, TaskEventView::TokenUsageRecomputed) => (
            TaskStateView::AwaitingCompletion { response_id },
            TaskActionView::AnnounceCompletion,
        ),
        (TaskStateView::AwaitingCompletion { response_id }, TaskEventView::CompletionAnnounced) => {
            match response_id {
                Some(id) => if acknowledgement_enabled {
                    (TaskStateView::AwaitingAcknowledgement, TaskActionView::SendResponseProcessed(id))
                } else {
                    (TaskStateView::Finished, TaskActionView::Finish(Ok(())))
                },
                None => (TaskStateView::Finished, TaskActionView::Finish(Ok(()))),
            }
        },
        (TaskStateView::AwaitingAcknowledgement, TaskEventView::Acknowledged) => (
            TaskStateView::Finished,
            TaskActionView::Finish(Ok(())),
        ),
        _ => (state, TaskActionView::Wait),
    }
}

/// Advances a compaction task by one event.
pub fn compaction_task_step(
    state: CompactionTaskState,
    event: CompactionTaskEvent,
    injection: InitialContextInjection,
    acknowledgement_enabled: bool,
) -> (r: (CompactionTaskState, CompactionTaskAction))
    ensures
        (r.0.deep_view(), r.1.deep_view()) == task_step(
            state.deep_view(),
            event.deep_view(),
            injection,
            acknowledgement_enabled,
        ),
{
    match (state, event) {
        (CompactionTaskState::Starting, CompactionTaskEvent::Start) => (
            CompactionTaskState::Announcing,
            CompactionTaskAction::AnnounceStart,
        ),
        (CompactionTaskState::Announcing, CompactionTaskEvent::Announced) => (
            CompactionTaskState::BuildingTools,
            CompactionTaskAction::BuildTools,
        ),
        (CompactionTaskState::BuildingTools, CompactionTaskEvent::ToolsBuilt(r)) => match r {
            Ok(_) => (CompactionTaskState::AwaitingV2Response, CompactionTaskAction::SendV2Request),
            Err(e) => (CompactionTaskState::Finished, CompactionTaskAction::Finish(Err(e))),
        },
        (CompactionTaskState::AwaitingV2Response, CompactionTaskEvent::V2Response(r)) => (
            CompactionTaskState::AwaitingCompactedHistory { response_id: v2_response_id(r) },
            CompactionTaskAction::RequestCompactedHistory,
        ),
        (
            CompactionTaskState::AwaitingCompactedHistory { response_id },
            CompactionTaskEvent::CompactedHistory(r),
        ) => match r {
            Ok(_) => (
                CompactionTaskState::AwaitingProcessedHistory { response_id },
                CompactionTaskAction::ProcessCompactedHistory,
            ),
            Err(e) => (CompactionTaskState::Finished, CompactionTaskAction::Finish(Err(e))),
        },
        (
            CompactionTaskState::AwaitingProcessedHistory { response_id },
            CompactionTaskEvent::HistoryProcessed,
        ) => (
            CompactionTaskState::AwaitingInstall { response_id },
            CompactionTaskAction::InstallHistory {
                with_reference_context_item: needs_reference_context_item(injection),
            },
        ),
        (CompactionTaskState::AwaitingInstall { response_id }, CompactionTaskEvent::HistoryInstalled) => (
            CompactionTaskState::AwaitingTokenRecount { response_id },
            CompactionTaskAction::RecomputeTokenUsage,
        ),
        (
            CompactionTaskState::AwaitingTokenRecount { response_id },
            CompactionTaskEvent::TokenUsageRecomputed,
        ) => (
            CompactionTaskState::AwaitingCompletion { response_id },
            CompactionTaskAction::AnnounceCompletion,
        ),
        (
            CompactionTaskState::AwaitingCompletion { response_id },
            CompactionTaskEvent::CompletionAnnounced,
        ) => {
            if should_send_response_processed(&response_id, acknowledgement_enabled) {
                match response_id {
                    Some(id) => (
                        CompactionTaskState::AwaitingAcknowledgement,
                        CompactionTaskAction::SendResponseProcessed(id),
                    ),
                    None => (CompactionTaskState::Finished, CompactionTaskAction::Finish(Ok(()))),
                }
            } else {
                (CompactionTaskState::Finished, CompactionTaskAction::Finish(Ok(())))
            }
        },
        (CompactionTaskState::AwaitingAcknowledgement, CompactionTaskEvent::Acknowledged) => (
            CompactionTaskState::Finished,
            CompactionTaskAction::Finish(Ok(())),
        ),
        (state, _) => (state, CompactionTaskAction::Wait),
    }
}

/// The state and the actions after a task runs through `events` from `state`,
/// the actions appended to `done`.
pub open spec fn task_run(
    state: TaskStateView,
    done: Seq<TaskActionView>,
    events: Seq<TaskEventView>,
    injection: InitialContextInjection,
    acknowledgement_enabled: bool,
) -> (TaskStateView, Seq<TaskActionView>)
    decreases events.len(),
{
    if events.len() == 0 {
        (state, done)
    } else {
        let (next, action) = task_step(state, events[0], injection, acknowledgement_enabled);
        task_run(next, done.push(action), events.drop_first(), injection, acknowledgement_enabled)
    }
}

/// Whether every action of `actions` that `later` picks has an action that
/// `earlier` picks before it.
pub open spec fn comes_after(
    actions: Seq<TaskActionView>,
    earlier: spec_fn(TaskActionView) -> bool,
    later: spec_fn(TaskActionView) -> bool,
) -> bool {
    forall|j: int|
        0 <= j < actions.len() && #[trigger] later(actions[j]) ==> exists|i: int|
            0 <= i < j && #[trigger] earlier(actions[i])
}

/// Whether some action of `actions` is one that `p` picks.
pub open spec fn has_action(actions: Seq<TaskActionView>, p: spec_fn(TaskActionView) -> bool) -> bool {
    exists|i: int| 0 <= i < actions.len() && #[trigger] p(actions[i])
}

/// The announcement of the start.
pub open spec fn is_start_announcement(a: TaskActionView) -> bool {
    a is AnnounceStart
}

/// Any action that does work, other than announcing the start.
pub open spec fn is_task_work(a: TaskActionView) -> bool {
    !(a is AnnounceStart) && !(a is Wait)
}

/// Building the tools.
pub open spec fn is_tool_build(a: TaskActionView) -> bool {
    a is BuildTools
}

/// Sending either request.
pub open spec fn is_request(a: TaskActionView) -> bool {
    a is SendV2Request || a is RequestCompactedHistory
}

/// Installing the new history.
pub open spec fn is_install(a: TaskActionView) -> bool {
    a is InstallHistory
}

/// What may only follow an installation: the token recount, the completion
/// announcement, the acknowledgement and a successful end.
pub open spec fn needs_install(a: TaskActionView) -> bool {
    a is RecomputeTokenUsage || a is AnnounceCompletion || a is SendResponseProcessed
        || a == TaskActionView::Finish(Ok(()))
}

/// The token recount.
pub open spec fn is_token_recount(a: TaskActionView) -> bool {
    a is RecomputeTokenUsage
}

/// The completion announcement.
pub open spec fn is_completion_announcement(a: TaskActionView) -> bool {
    a is AnnounceCompletion
}

/// What may only follow the completion announcement: the acknowledgement and a
/// successful end.
pub open spec fn needs_completion(a: TaskActionView) -> bool {
    a is SendResponseProcessed || a == TaskActionView::Finish(Ok(()))
}

/// The order in which a compaction task acts: the start is announced before any
/// other work, the tools are built before any request, the history is installed
/// before the token recount, the completion announcement, the acknowledgement and
/// a successful end, the token recount comes before the completion announcement,
/// and the completion announcement before the acknowledgement and a successful end.
pub open spec fn task_order(actions: Seq<TaskActionView>) -> bool {
    &&& comes_after(actions, |a| is_start_announcement(a), |a| is_task_work(a))
    &&& comes_after(actions, |a| is_tool_build(a), |a| is_request(a))
    &&& comes_after(actions, |a| is_install(a), |a| needs_install(a))
    &&& comes_after(actions, |a| is_token_recount(a), |a| is_completion_announcement(a))
    &&& comes_after(actions, |a| is_completion_announcement(a), |a| needs_completion(a))
}

/// What a state says of the actions taken to reach it.
pub open spec fn state_history(state: TaskStateView, done: Seq<TaskActionView>) -> bool {
    &&& !(state is Starting) && !(state is Finished) ==> has_action(
        done,
        |a| is_start_announcement(a),
    )
    &&& (state is BuildingTools || state is AwaitingV2Response || state is AwaitingCompactedHistory)
        ==> has_action(
        done,
        |a| is_tool_build(a),
    )
    &&& (state is AwaitingInstall || state is AwaitingTokenRecount || state is AwaitingCompletion
        || state is AwaitingAcknowledgement) ==> has_action(done, |a| is_install(a))
    &&& (state is AwaitingTokenRecount || state is AwaitingCompletion
        || state is AwaitingAcknowledgement) ==> has_action(done, |a| is_token_recount(a))
    &&& (state is AwaitingCompletion || state is AwaitingAcknowledgement) ==> has_action(
        done,
        |a| is_completion_announcement(a),
    )
}

proof fn lemma_push_keeps_has(
    done: Seq<TaskActionView>,
    action: TaskActionView,
    p: spec_fn(TaskActionView) -> bool,
)
    requires
        has_action(done, p) || p(action),
    ensures
        has_action(done.push(action), p),
{
    let more = done.push(action);
    if has_action(done, p) {
        let i = choose|i: int| 0 <= i < done.len() && #[trigger] p(done[i]);
        assert(more[i] == done[i]);
    } else {
        assert(p(more[done.len() as int]));
    }
}

proof fn lemma_push_keeps_order(
    done: Seq<TaskActionView>,
    action: TaskActionView,
    earlier: spec_fn(TaskActionView) -> bool,
    later: spec_fn(TaskActionView) -> bool,
)
    requires
        comes_after(done, earlier, later),
        later(action) ==> has_action(done, earlier),
    ensures
        comes_after(done.push(action), earlier, later),
{
    let more = done.push(action);
    assert forall|j: int| 0 <= j < more.len() && #[trigger] later(more[j]) implies exists|i: int|
        0 <= i < j && #[trigger] earlier(more[i]) by {
        if j < done.len() {
            assert(more[j] == done[j]);
            let i = choose|i: int| 0 <= i < j && #[trigger] earlier(done[i]);
            assert(more[i] == done[i]);
        } else {
            let i = choose|i: int| 0 <= i < done.len() && #[trigger] earlier(done[i]);
            assert(more[i] == done[i]);
        }
    }
}

proof fn lemma_step_keeps_order(
    state: TaskStateView,
    done: Seq<TaskActionView>,
    event: TaskEventView,
    injection: InitialContextInjection,
    acknowledgement_enabled: bool,
)
    requires
        task_order(done),
        state_history(state, done),
    ensures
        task_order(done.push(task_step(state, event, injection, acknowledgement_enabled).1)),
        state_history(
            task_step(state, event, injection, acknowledgement_enabled).0,
            done.push(task_step(state, event, injection, acknowledgement_enabled).1),
        ),
{
    let (next, action) = task_step(state, event, injection, acknowledgement_enabled);
    let start = |a| is_start_announcement(a);
    let work = |a| is_task_work(a);
    let build = |a| is_tool_build(a);
    let request = |a| is_request(a);
    let install = |a| is_install(a);
    let after_install = |a| needs_install(a);
    let recount = |a| is_token_recount(a);
    let completion = |a| is_completion_announcement(a);
    let after_completion = |a| needs_completion(a);
    lemma_push_keeps_order(done, action, start, work);
    lemma_push_keeps_order(done, action, build, request);
    lemma_push_keeps_order(done, action, install, after_install);
    lemma_push_keeps_order(done, action, recount, completion);
    lemma_push_keeps_order(done, action, completion, after_completion);
    if !(next is Starting) && !(next is Finished) {
        lemma_push_keeps_has(done, action, start);
    }
    if next is BuildingTools || next is AwaitingV2Response || next is AwaitingCompactedHistory {
        lemma_push_keeps_has(done, action, build);
    }
    if next is AwaitingInstall || next is AwaitingTokenRecount || next is AwaitingCompletion
        || next is AwaitingAcknowledgement {
        lemma_push_keeps_has(done, action, install);
    }
    if next is AwaitingTokenRecount || next is AwaitingCompletion || next is AwaitingAcknowledgement {
        lemma_push_keeps_has(done, action, recount);
    }
    if next is AwaitingCompletion || next is AwaitingAcknowledgement {
        lemma_push_keeps_has(done, action, completion);
    }
}

proof fn lemma_run_keeps_order(
    state: TaskStateView,
    done: Seq<TaskActionView>,
    events: Seq<TaskEventView>,
    injection: InitialContextInjection,
    acknowledgement_enabled: bool,
)
    requires
        task_order(done),
        state_history(state, done),
    ensures
        task_order(task_run(state, done, events, injection, acknowledgement_enabled).1),
    decreases events.len(),
{
    if events.len() > 0 {
        let (next, action) = task_step(state, events[0], injection, acknowledgement_enabled);
        lemma_step_keeps_order(state, done, events[0], injection, acknowledgement_enabled);
        lemma_run_keeps_order(
            next,
            done.push(action),
            events.drop_first(),
            injection,
            acknowledgement_enabled,
        );
    }
}

/// Whatever the session reports, and in whatever order, a compaction task acts in
/// order: it announces the start before any other work, builds the tools before
/// any request, installs the new history before it recomputes the token usage,
/// announces the completion, acknowledges the response or succeeds, recomputes the
/// token usage before it announces the completion, and announces the completion
/// before it acknowledges the response or succeeds.
pub proof fn lemma_task_acts_in_order(
    events: Seq<TaskEventView>,
    injection: InitialContextInjection,
    acknowledgement_enabled: bool,
)
    ensures
        task_order(
            task_run(TaskStateView::Starting, Seq::empty(), events, injection, acknowledgement_enabled).1,
        ),
{
    lemma_run_keeps_order(
        TaskStateView::Starting,
        Seq::empty(),
        events,
        injection,
        acknowledgement_enabled,
    );
}

/// Whenever a compaction task installs the new history, it installs a reference
/// context item exactly when the initial context is injected before the last user
/// message, whatever the acknowledgement setting and the response id; and once the
/// history is processed, the task installs it.
pub proof fn lemma_install_follows_injection(
    state: TaskStateView,
    event: TaskEventView,
    response_id: Option<Seq<char>>,
    injection: InitialContextInjection,
    acknowledgement_enabled: bool,
)
    ensures
        task_step(state, event, injection, acknowledgement_enabled).1 matches TaskActionView::InstallHistory {
            with_reference_context_item,
        } ==> with_reference_context_item == (injection
            == InitialContextInjection::BeforeLastUserMessage),
        task_step(
            TaskStateView::AwaitingProcessedHistory { response_id },
            TaskEventView::HistoryProcessed,
            injection,
            acknowledgement_enabled,
        ) == (TaskStateView::AwaitingInstall { response_id }, TaskActionView::InstallHistory {
            with_reference_context_item: injection == InitialContextInjection::BeforeLastUserMessage,
        }),
{
}


proof fn lemma_finished_stays_idle(
    done: Seq<TaskActionView>,
    events: Seq<TaskEventView>,
    injection: InitialContextInjection,
    acknowledgement_enabled: bool,
)
    ensures
        task_run(TaskStateView::Finished, done, events, injection, acknowledgement_enabled).0
            == TaskStateView::Finished,
        task_run(TaskStateView::Finished, done, events, injection, acknowledgement_enabled).1
            == done + Seq::new(events.len(), |i: int| TaskActionView::Wait),
    decreases events.len(),
{
    if events.len() > 0 {
        lemma_finished_stays_idle(
            done.push(TaskActionView::Wait),
            events.drop_first(),
            injection,
            acknowledgement_enabled,
        );
        assert(done.push(TaskActionView::Wait) + Seq::new(
            (events.len() - 1) as nat,
            |i: int| TaskActionView::Wait,
        ) =~= done + Seq::new(events.len(), |i: int| TaskActionView::Wait));
    }
}

/// When building the tools or the compact endpoint fails, the task ends with that
/// error, and afterwards, whatever the session reports, it does nothing more: it
/// sends no request, installs nothing, recomputes nothing, announces no
/// completion and acknowledges nothing.
pub proof fn lemma_failure_ends_task(
    response_id: Option<Seq<char>>,
    error: CodexErrView,
    done: Seq<TaskActionView>,
    later: Seq<TaskEventView>,
    injection: InitialContextInjection,
    acknowledgement_enabled: bool,
)
    ensures
        task_step(
            TaskStateView::BuildingTools,
            TaskEventView::ToolsBuilt(Err(error)),
            injection,
            acknowledgement_enabled,
        ) == (TaskStateView::Finished, TaskActionView::Finish(Err(error))),
        task_step(
            TaskStateView::AwaitingCompactedHistory { response_id },
            TaskEventView::CompactedHistory(Err(error)),
            injection,
            acknowledgement_enabled,
        ) == (TaskStateView::Finished, TaskActionView::Finish(Err(error))),
        forall|i: int|
            0 <= i < later.len() ==> (#[trigger] task_run(
                TaskStateView::Finished,
                done,
                later,
                injection,
                acknowledgement_enabled,
            ).1[done.len() + i]) == TaskActionView::Wait,
        task_run(TaskStateView::Finished, done, later, injection, acknowledgement_enabled).1.len()
            == done.len() + later.len(),
{
    lemma_finished_stays_idle(done, later, injection, acknowledgement_enabled);
}

/// The history sent for compaction holds no context compaction item, and keeps
/// every other item.
pub proof fn lemma_prompt_input_drops_only_summaries(items: Seq<ResponseItem>)
    ensures
        forall|i: int|
            0 <= i < without_context_compaction(items).len() ==> !is_context_compaction(
                #[trigger] without_context_compaction(items)[i],
            ),
        without_context_compaction(items).len() <= items.len(),
        forall|i: int|
            0 <= i < items.len() && !is_context_compaction(#[trigger] items[i])
                ==> without_context_compaction(items).contains(items[i]),
    decreases items.len(),
{
    if items.len() > 0 {
        let rest = items.drop_last();
        lemma_prompt_input_drops_only_summaries(rest);
        let kept = without_context_compaction(rest);
        assert forall|i: int|
            0 <= i < items.len() && !is_context_compaction(#[trigger] items[i]) implies without_context_compaction(
            items,
        ).contains(items[i]) by {
            if i < items.len() - 1 {
                assert(rest[i] == items[i]);
                let j = choose|j: int| 0 <= j < kept.len() && kept[j] == rest[i];
                if !is_context_compaction(items.last()) {
                    assert(kept.push(items.last())[j] == items[i]);
                }
            } else {
                assert(kept.push(items.last())[kept.len() as int] == items[i]);
            }
        }
        if !is_context_compaction(items.last()) {
            assert forall|i: int| 0 <= i < kept.push(items.last()).len() implies !is_context_compaction(
                #[trigger] kept.push(items.last())[i],
            ) by {
                if i < kept.len() {
                    assert(kept.push(items.last())[i] == kept[i]);
                }
            }
        }
    }
}

/// The history sent for compaction is the history with every context compaction
/// item removed, whatever its content, and every other item kept in order.
pub proof fn lemma_prompt_input_is_history_without_compactions(items: Seq<ResponseItem>)
    ensures
        without_context_compaction(items) == items.filter(|item: ResponseItem| !(item is ContextCompaction)),
        forall|k: int|
            0 <= k < without_context_compaction(items).len() ==> !(
            #[trigger] without_context_compaction(items)[k] is ContextCompaction),
    decreases items.len(),
{
    let keep = |item: ResponseItem| !(item is ContextCompaction);
    if items.len() > 0 {
        lemma_prompt_input_is_history_without_compactions(items.drop_last());
    }
    reveal(Seq::filter);
    assert(without_context_compaction(items) == items.filter(keep));
    assert forall|k: int|
        0 <= k < without_context_compaction(items).len() implies !(
        #[trigger] without_context_compaction(items)[k] is ContextCompaction) by {
        items.lemma_filter_pred(keep, k);
    }
}


/// Whether a stream event neither completes the response nor is an error.
pub open spec fn is_pending_event(event: Result<ResponseEvent, CodexErr>) -> bool {
    event matches Ok(ev) && !(ev is Completed)
}

/// Reading a response stream gives the response id of its first event that is a
/// completed response, when no error comes before it; the first error when it
/// comes before any completed response; and the stream-closed error when the
/// stream holds neither.
pub proof fn lemma_response_id_of_stream(events: Seq<Result<ResponseEvent, CodexErr>>, k: int)
    requires
        0 <= k <= events.len(),
        forall|j: int| 0 <= j < k ==> is_pending_event(#[trigger] events[j]),
    ensures
        k < events.len() ==> (events[k] matches Ok(ResponseEvent::Completed { response_id, .. })
            ==> collected_response_id(events) == Ok::<Seq<char>, CodexErrView>(response_id@)),
        k < events.len() ==> (events[k] matches Err(e) ==> collected_response_id(events) == Err::<
            Seq<char>,
            CodexErrView,
        >(e.deep_view())),
        (k == events.len()) ==> (collected_response_id(events) == Err::<Seq<char>, CodexErrView>(
            CodexErrView::Fatal("remote compaction v2 stream closed before response.completed"@),
        )),
    decreases k,
{
    if k > 0 {
        let rest = events.drop_first();
        assert forall|j: int| 0 <= j < k - 1 implies is_pending_event(#[trigger] rest[j]) by {
            assert(rest[j] == events[j + 1]);
        }
        lemma_response_id_of_stream(rest, k - 1);
        assert(is_pending_event(events[0]));
        if k < events.len() {
            assert(rest[k - 1] == events[k]);
        }
    }
}

/// After announcing the completion, a task acknowledges the response exactly when
/// the compaction request gave a response id and acknowledgement is enabled, and
/// then with that id; otherwise it ends successfully.
pub proof fn lemma_acknowledgement_needs_id_and_setting(
    response_id: Option<Seq<char>>,
    injection: InitialContextInjection,
    acknowledgement_enabled: bool,
)
    ensures
        task_step(
            TaskStateView::AwaitingCompletion { response_id },
            TaskEventView::CompletionAnnounced,
            injection,
            acknowledgement_enabled,
        ) == (if response_id is Some && acknowledgement_enabled {
            (
                TaskStateView::AwaitingAcknowledgement,
                TaskActionView::SendResponseProcessed(response_id->0),
            )
        } else {
            (TaskStateView::Finished, TaskActionView::Finish(Ok(())))
        }),
        (forall|id: Seq<char>|
            (task_step(
                TaskStateView::AwaitingV2Response,
                TaskEventView::V2Response(Ok(id)),
                injection,
                acknowledgement_enabled,
            ).0 == (TaskStateView::AwaitingCompactedHistory { response_id: Some(id) }))),
        (forall|e: CodexErrView|
            (task_step(
                TaskStateView::AwaitingV2Response,
                TaskEventView::V2Response(Err(e)),
                injection,
                acknowledgement_enabled,
            ) == (
                TaskStateView::AwaitingCompactedHistory { response_id: None },
                TaskActionView::RequestCompactedHistory,
            ))),
{
}

/// Reading stops at the first completed event: events after it do not change the
/// outcome, and an error before it is the outcome.
pub proof fn lemma_first_completion_wins(
    events: Seq<Result<ResponseEvent, CodexErr>>,
    later: Seq<Result<ResponseEvent, CodexErr>>,
)
    requires
        collected_response_id(events) is Ok,
    ensures
        collected_response_id(events + later) == collected_response_id(events),
    decreases events.len(),
{
    if events.len() > 0 {
        assert((events + later)[0] == events[0]);
        match events[0] {
            Ok(ResponseEvent::Completed { .. }) => {},
            Err(_) => {},
            Ok(_) => {
                assert((events + later).drop_first() =~= events.drop_first() + later);
                lemma_first_completion_wins(events.drop_first(), later);
            },
        }
    }
}

} // verus!
