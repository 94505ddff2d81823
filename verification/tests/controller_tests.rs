use viktor::controller::{Controller, Phase, TerminationReason, TurnAction};
use viktor::messages::{ChatMessage, FunctionRef, MessageRole, ToolCall};
use viktor::prompts::get_initial_messages;

fn assistant(content: &str, tool_calls: Option<Vec<ToolCall>>) -> ChatMessage {
    ChatMessage {
        role: MessageRole::Assistant,
        content: content.to_string(),
        images: None,
        tool_calls,
    }
}

fn a_tool_call() -> ToolCall {
    ToolCall {
        function: FunctionRef {
            name: "crawler.read_file_contents".to_string(),
            arguments: "{\"paths\":[]}".to_string(),
        },
    }
}

#[test]
fn reasoning_issues_at_most_cap_calls() {
    let cap = 3;
    let mut ctrl = Controller::new(get_initial_messages("task".to_string(), ""), cap);
    let mut backend_calls = 0;
    // the assistant keeps asking for tools and never signals termination
    loop {
        if !ctrl.may_issue_call() {
            let reason = ctrl.force_finalize();
            assert_eq!(reason, TerminationReason::IterationCapReached);
            break;
        }
        ctrl.begin_call();
        backend_calls += 1;
        let act = ctrl.note_assistant(assistant("thinking", Some(vec![a_tool_call()])));
        match act {
            TurnAction::RunTools => {
                ctrl.note_tool_results(&vec!["{}".to_string()]);
            }
            TurnAction::Proceed => {}
            TurnAction::Finalize(_) => panic!("nothing here finalizes"),
        }
    }
    assert_eq!(backend_calls, cap);
    assert_eq!(ctrl.phase, Phase::Finalizing);
}

#[test]
fn empty_tool_call_list_ends_reasoning_immediately() {
    let mut ctrl = Controller::new(get_initial_messages("task".to_string(), ""), 10);
    ctrl.begin_call();
    let act = ctrl.note_assistant(assistant("no marker here", Some(vec![])));
    assert_eq!(act, TurnAction::Finalize(TerminationReason::EmptyToolCalls));
    assert_eq!(ctrl.phase, Phase::Finalizing);
    // finalize is invoked next: no further reasoning call is permitted
    assert!(!ctrl.may_issue_call());
    assert_eq!(ctrl.calls_made, 1);
}

#[test]
fn finalization_marker_ends_reasoning_immediately() {
    let mut ctrl = Controller::new(get_initial_messages("task".to_string(), ""), 10);
    ctrl.begin_call();
    let act = ctrl.note_assistant(assistant(
        "done <FINAL> output follows",
        Some(vec![a_tool_call()]),
    ));
    assert_eq!(
        act,
        TurnAction::Finalize(TerminationReason::FinalizationMarkerSeen)
    );
    assert_eq!(ctrl.phase, Phase::Finalizing);
}

#[test]
fn marker_finalizes_even_without_a_tool_call_list() {
    let mut ctrl = Controller::new(get_initial_messages("task".to_string(), ""), 10);
    ctrl.begin_call();
    let act = ctrl.note_assistant(assistant("all done <FINAL>", None));
    assert_eq!(
        act,
        TurnAction::Finalize(TerminationReason::FinalizationMarkerSeen)
    );
    assert_eq!(ctrl.phase, Phase::Finalizing);
}

#[test]
fn absent_tool_call_list_keeps_reasoning() {
    let mut ctrl = Controller::new(get_initial_messages("task".to_string(), ""), 10);
    ctrl.begin_call();
    let act = ctrl.note_assistant(assistant("plain text", None));
    assert_eq!(act, TurnAction::Proceed);
    assert_eq!(ctrl.phase, Phase::Reasoning);
    assert!(ctrl.may_issue_call());
}

#[test]
fn tool_results_are_appended_in_call_order() {
    let mut ctrl = Controller::new(get_initial_messages("task".to_string(), ""), 10);
    ctrl.begin_call();
    ctrl.note_assistant(assistant("", Some(vec![a_tool_call(), a_tool_call()])));
    let before = ctrl.transcript.len();
    ctrl.note_tool_results(&vec!["first".to_string(), "second".to_string()]);
    assert_eq!(ctrl.transcript.len(), before + 2);
    assert!(matches!(ctrl.transcript[before].role, MessageRole::Tool));
    assert_eq!(ctrl.transcript[before].content, "first");
    assert!(matches!(ctrl.transcript[before + 1].role, MessageRole::Tool));
    assert_eq!(ctrl.transcript[before + 1].content, "second");
}

#[test]
fn finalize_request_appends_the_instruction() {
    let mut ctrl = Controller::new(get_initial_messages("task".to_string(), ""), 1);
    ctrl.begin_call();
    ctrl.note_assistant(assistant("", Some(vec![])));
    let before = ctrl.transcript.len();
    ctrl.finalize_request();
    assert_eq!(ctrl.transcript.len(), before + 1);
    let last = ctrl.transcript.last().unwrap();
    assert!(matches!(last.role, MessageRole::User));
    assert!(last.content.contains("task breakdown"));
}

#[test]
fn unparseable_final_output_is_surfaced_not_fatal() {
    let mut ctrl = Controller::new(get_initial_messages("task".to_string(), ""), 1);
    ctrl.begin_call();
    ctrl.note_assistant(assistant("", Some(vec![])));
    ctrl.finalize_request();
    let res = ctrl.conclude_final("this is not json at all");
    let err = res.err().expect("non-JSON text must be a parse error");
    assert_eq!(err.raw, "this is not json at all");
    // the session continues into interactive mode rather than exiting
    assert_eq!(ctrl.phase, Phase::Interactive);
}

#[test]
fn schema_mismatched_final_output_is_surfaced_not_fatal() {
    let mut ctrl = Controller::new(get_initial_messages("task".to_string(), ""), 1);
    ctrl.begin_call();
    ctrl.note_assistant(assistant("", Some(vec![])));
    ctrl.finalize_request();
    // valid JSON, but not the task shape: surfaced verbatim, never a panic
    let raw = "{\"tasks\":\"not an array\"}";
    let err = ctrl.conclude_final(raw).err().expect("schema mismatch must be an error");
    assert_eq!(err.raw, raw);
    assert_eq!(ctrl.phase, Phase::Interactive);
}

#[test]
fn interactive_exit_words_terminate() {
    for line in ["", "   ", "exit", "EXIT", "quit", " Quit "] {
        let mut ctrl = Controller::new(get_initial_messages("task".to_string(), ""), 1);
        ctrl.begin_call();
        ctrl.note_assistant(assistant("", Some(vec![])));
        ctrl.finalize_request();
        let _ = ctrl.conclude_final("{}");
        assert!(ctrl.note_user_line(line, 5), "line {:?} must end the session", line);
        assert_eq!(ctrl.phase, Phase::Terminated);
    }
}

#[test]
fn interactive_input_reenters_reasoning_with_smaller_cap() {
    let mut ctrl = Controller::new(get_initial_messages("task".to_string(), ""), 1);
    ctrl.begin_call();
    ctrl.note_assistant(assistant("", Some(vec![])));
    ctrl.finalize_request();
    let _ = ctrl.conclude_final("{}");
    let before = ctrl.transcript.len();
    let ends = ctrl.note_user_line("  tell me more  ", 5);
    assert!(!ends);
    assert_eq!(ctrl.phase, Phase::Reasoning);
    assert_eq!(ctrl.cap, 5);
    assert_eq!(ctrl.calls_made, 0);
    assert_eq!(ctrl.transcript.len(), before + 1);
    let last = ctrl.transcript.last().unwrap();
    assert!(matches!(last.role, MessageRole::User));
    assert_eq!(last.content, "tell me more");
}

#[test]
fn opening_transcript_is_system_then_user() {
    let msgs = get_initial_messages("do the thing".to_string(), "house rules");
    assert_eq!(msgs.len(), 2);
    assert!(matches!(msgs[0].role, MessageRole::System));
    assert!(msgs[0].content.ends_with("house rules"));
    assert!(matches!(msgs[1].role, MessageRole::User));
    assert_eq!(msgs[1].content, "do the thing");
}
