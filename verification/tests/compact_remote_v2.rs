use codex_logic::compact_remote_v2::{
    collect_compaction_response_id, compacted_item, compaction_prompt_input,
    compact_endpoint_prompt, compaction_stream_step, compaction_task_step,
    needs_reference_context_item, v2_compaction_prompt,
    should_send_response_processed, v2_compaction_input, v2_response_id, CodexErr,
    CompactionTaskAction, CompactionTaskEvent, CompactionTaskState, ContentItem,
    InitialContextInjection, MessagePhase, ResponseEvent, ResponseItem, StreamStep,
};

fn message(role: &str, text: &str, phase: Option<MessagePhase>) -> ResponseItem {
    ResponseItem::Message {
        id: None,
        role: role.to_string(),
        content: vec![ContentItem::InputText {
            text: text.to_string(),
        }],
        phase,
    }
}

#[test]
fn collect_compaction_response_id_accepts_additional_output_items() {
    let stream = vec![
        Ok(ResponseEvent::OutputItemDone(message(
            "assistant",
            "IGNORED_COMPACT_REPLY",
            Some(MessagePhase::FinalAnswer),
        ))),
        Ok(ResponseEvent::OutputItemDone(
            ResponseItem::ContextCompaction {
                encrypted_content: Some("encrypted".to_string()),
            },
        )),
        Ok(ResponseEvent::Completed {
            response_id: "resp-compact".to_string(),
            token_usage: None,
            end_turn: Some(true),
        }),
    ];

    let response_id = collect_compaction_response_id(stream)
        .expect("response id should be collected");

    assert_eq!(response_id, "resp-compact");
}

#[test]
fn stream_closed_before_completion_is_fatal() {
    let stream = vec![Ok(ResponseEvent::Created), Ok(ResponseEvent::OutputTextDelta("x".to_string()))];
    match collect_compaction_response_id(stream) {
        Err(CodexErr::Fatal(m)) => {
            assert_eq!(m, "remote compaction v2 stream closed before response.completed")
        }
        _ => panic!("expected a fatal error"),
    }
}

#[test]
fn first_error_or_completion_ends_the_stream() {
    let stream = vec![
        Ok(ResponseEvent::Created),
        Err(CodexErr::Stream("dropped".to_string())),
        Ok(ResponseEvent::Completed {
            response_id: "late".to_string(),
            token_usage: None,
            end_turn: None,
        }),
    ];
    match collect_compaction_response_id(stream) {
        Err(CodexErr::Stream(m)) => assert_eq!(m, "dropped"),
        _ => panic!("expected the stream error"),
    }
    let stream = vec![
        Ok(ResponseEvent::Completed {
            response_id: "first".to_string(),
            token_usage: None,
            end_turn: None,
        }),
        Err(CodexErr::Stream("after".to_string())),
    ];
    assert_eq!(collect_compaction_response_id(stream).ok(), Some("first".to_string()));
}

#[test]
fn stream_steps_continue_until_a_decision() {
    assert!(matches!(compaction_stream_step(Some(Ok(ResponseEvent::Created))), StreamStep::Continue));
    assert!(matches!(compaction_stream_step(None), StreamStep::Done(Err(CodexErr::Fatal(_)))));
}

#[test]
fn prompt_input_drops_context_compactions() {
    let history = vec![
        message("user", "hi", None),
        ResponseItem::ContextCompaction { encrypted_content: None },
        message("assistant", "hello", Some(MessagePhase::Commentary)),
        ResponseItem::Compaction { encrypted_content: "keep".to_string() },
    ];
    let input = compaction_prompt_input(history);
    assert_eq!(input.len(), 3);
    assert!(matches!(&input[0], ResponseItem::Message { role, .. } if role == "user"));
    assert!(matches!(&input[1], ResponseItem::Message { role, .. } if role == "assistant"));
    assert!(matches!(&input[2], ResponseItem::Compaction { encrypted_content } if encrypted_content == "keep"));

    let request = v2_compaction_input(input);
    assert_eq!(request.len(), 4);
    assert!(matches!(&request[3], ResponseItem::Compaction { encrypted_content } if encrypted_content.is_empty()));
}

#[test]
fn outcome_decisions() {
    assert_eq!(v2_response_id(Ok("r1".to_string())), Some("r1".to_string()));
    assert_eq!(v2_response_id(Err(CodexErr::Stream("x".to_string()))), None);
    assert!(needs_reference_context_item(InitialContextInjection::BeforeLastUserMessage));
    assert!(!needs_reference_context_item(InitialContextInjection::DoNotInject));
    assert!(should_send_response_processed(&Some("r".to_string()), true));
    assert!(!should_send_response_processed(&Some("r".to_string()), false));
    assert!(!should_send_response_processed(&None, true));
    let item = compacted_item(vec![message("user", "x", None)]);
    assert!(item.message.is_empty());
    assert_eq!(item.replacement_history.map(|h| h.len()), Some(1));
}

fn run_task(
    events: Vec<CompactionTaskEvent>,
    injection: InitialContextInjection,
    acknowledgement_enabled: bool,
) -> (CompactionTaskState, Vec<CompactionTaskAction>) {
    let mut state = CompactionTaskState::Starting;
    let mut actions = Vec::new();
    for event in events {
        let (next, action) = compaction_task_step(state, event, injection, acknowledgement_enabled);
        state = next;
        actions.push(action);
    }
    (state, actions)
}

fn successful_run() -> Vec<CompactionTaskEvent> {
    vec![
        CompactionTaskEvent::Start,
        CompactionTaskEvent::Announced,
        CompactionTaskEvent::ToolsBuilt(Ok(())),
        CompactionTaskEvent::V2Response(Ok("resp-1".to_string())),
        CompactionTaskEvent::CompactedHistory(Ok(())),
        CompactionTaskEvent::HistoryProcessed,
        CompactionTaskEvent::HistoryInstalled,
        CompactionTaskEvent::TokenUsageRecomputed,
        CompactionTaskEvent::CompletionAnnounced,
        CompactionTaskEvent::Acknowledged,
    ]
}

#[test]
fn compaction_task_installs_then_acknowledges() {
    let (state, actions) =
        run_task(successful_run(), InitialContextInjection::BeforeLastUserMessage, true);
    assert!(matches!(state, CompactionTaskState::Finished));
    assert_eq!(actions.len(), 10);
    assert!(matches!(actions[0], CompactionTaskAction::AnnounceStart));
    assert!(matches!(actions[1], CompactionTaskAction::BuildTools));
    assert!(matches!(actions[2], CompactionTaskAction::SendV2Request));
    assert!(matches!(actions[3], CompactionTaskAction::RequestCompactedHistory));
    assert!(matches!(actions[4], CompactionTaskAction::ProcessCompactedHistory));
    assert!(matches!(
        actions[5],
        CompactionTaskAction::InstallHistory { with_reference_context_item: true }
    ));
    assert!(matches!(actions[6], CompactionTaskAction::RecomputeTokenUsage));
    assert!(matches!(actions[7], CompactionTaskAction::AnnounceCompletion));
    assert!(matches!(&actions[8], CompactionTaskAction::SendResponseProcessed(id) if id == "resp-1"));
    assert!(matches!(actions[9], CompactionTaskAction::Finish(Ok(()))));
}

#[test]
fn compaction_task_skips_acknowledgement_when_disabled_or_without_id() {
    let (state, actions) = run_task(
        successful_run().into_iter().take(9).collect(),
        InitialContextInjection::DoNotInject,
        false,
    );
    assert!(matches!(state, CompactionTaskState::Finished));
    assert!(matches!(
        actions[5],
        CompactionTaskAction::InstallHistory { with_reference_context_item: false }
    ));
    assert!(matches!(actions[8], CompactionTaskAction::Finish(Ok(()))));

    let mut events = successful_run();
    events[3] = CompactionTaskEvent::V2Response(Err(CodexErr::Stream("gone".to_string())));
    events.truncate(9);
    let (state, actions) = run_task(events, InitialContextInjection::DoNotInject, true);
    assert!(matches!(state, CompactionTaskState::Finished));
    assert!(matches!(actions[3], CompactionTaskAction::RequestCompactedHistory));
    assert!(matches!(actions[8], CompactionTaskAction::Finish(Ok(()))));
}

#[test]
fn failed_tool_build_sends_nothing() {
    let mut events = successful_run();
    events[2] = CompactionTaskEvent::ToolsBuilt(Err(CodexErr::Fatal("no tools".to_string())));
    let (state, actions) = run_task(events, InitialContextInjection::BeforeLastUserMessage, true);
    assert!(matches!(state, CompactionTaskState::Finished));
    assert!(matches!(&actions[2], CompactionTaskAction::Finish(Err(CodexErr::Fatal(m))) if m == "no tools"));
    for action in &actions[3..] {
        assert!(matches!(action, CompactionTaskAction::Wait));
    }
}

#[test]
fn failed_compaction_installs_nothing() {
    let mut events = successful_run();
    events[4] =
        CompactionTaskEvent::CompactedHistory(Err(CodexErr::Fatal("compact failed".to_string())));
    let (state, actions) = run_task(events, InitialContextInjection::BeforeLastUserMessage, true);
    assert!(matches!(state, CompactionTaskState::Finished));
    assert!(matches!(&actions[4], CompactionTaskAction::Finish(Err(CodexErr::Fatal(m))) if m == "compact failed"));
    for action in &actions[5..] {
        assert!(matches!(action, CompactionTaskAction::Wait));
    }
}

#[test]
fn out_of_order_events_change_nothing() {
    let (state, actions) = run_task(
        vec![CompactionTaskEvent::HistoryInstalled, CompactionTaskEvent::Acknowledged],
        InitialContextInjection::DoNotInject,
        true,
    );
    assert!(matches!(state, CompactionTaskState::Starting));
    assert!(actions.iter().all(|a| matches!(a, CompactionTaskAction::Wait)));
}

#[test]
fn both_requests_share_the_prompt_settings() {
    let input = vec![message("user", "hi", None), message("assistant", "hello", None)];
    let v2 = v2_compaction_prompt(
        input,
        vec!["{\"name\":\"shell\"}".to_string()],
        true,
        "be brief".to_string(),
        Some("pragmatic".to_string()),
    );
    assert_eq!(v2.input.len(), 3);
    assert!(matches!(&v2.input[2], ResponseItem::Compaction { encrypted_content } if encrypted_content.is_empty()));
    assert!(v2.output_schema.is_none());
    assert!(v2.output_schema_strict);
    let compact = compact_endpoint_prompt(v2);
    assert_eq!(compact.input.len(), 2);
    assert!(matches!(&compact.input[0], ResponseItem::Message { role, .. } if role == "user"));
    assert!(matches!(&compact.input[1], ResponseItem::Message { role, .. } if role == "assistant"));
    assert_eq!(compact.tools, vec!["{\"name\":\"shell\"}".to_string()]);
    assert!(compact.parallel_tool_calls);
    assert_eq!(compact.base_instructions, "be brief");
    assert_eq!(compact.personality, Some("pragmatic".to_string()));
    assert!(compact.output_schema.is_none());
    assert!(compact.output_schema_strict);
}
