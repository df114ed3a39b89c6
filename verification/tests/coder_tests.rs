use hal::coder::error::CoderError;
use hal::coder::executor::{AgentReply, AgentRun, ExecutorEvent, HistoryEntry, Next};
use hal::coder::session::{
    analysis_prompt, entry_text, final_analysis, junior_log, on_pro_event, user_task_prompt, CoderEvent,
    JuniorProgress,
};

fn text(t: &str) -> AgentReply {
    AgentReply::Text(t.to_string())
}

fn call(id: &str, name: &str, args: &str) -> AgentReply {
    AgentReply::ToolCall { id: id.to_string(), name: name.to_string(), arguments: args.to_string() }
}

#[test]
fn test_agent_executor_creation() {
    let run = AgentRun::new(10, vec![]);
    assert_eq!(run.history().len(), 0);
}

#[test]
fn run_until_finish() {
    let mut run = AgentRun::new(10, vec![]);
    match run.start("Do it".to_string()) {
        Next::Request(p) => assert_eq!(p, "Do it"),
        other => panic!("unexpected {:?}", other),
    }
    let t = run.on_initial(Ok(vec![text("thinking"), call("1", "read", "{}")]));
    assert_eq!(t.events.len(), 2);
    assert!(matches!(&t.events[0], ExecutorEvent::Thinking { text } if text == "thinking"));
    assert!(matches!(&t.next, Next::CallTool { name, .. } if name == "read"));
    let t = run.on_tool_result(Ok(String::new()));
    assert!(matches!(&t.events[0], ExecutorEvent::ToolCallCompleted { result, .. } if result == "{\"result\":\"Tool returned no result\"}"));
    assert!(matches!(&t.next, Next::Request(p) if p.is_empty()));
    let t = run.on_reaction(Ok(vec![call("2", "finish", "{}")]));
    assert!(matches!(&t.next, Next::CallTool { name, .. } if name == "finish"));
    let t = run.on_tool_result(Ok("{\"summary\": \"All done\"}".to_string()));
    assert!(matches!(&t.events[1], ExecutorEvent::Finished { summary } if summary == "All done"));
    assert!(matches!(t.next, Next::Stop(None)));
    // user prompt, thought, call, result, call, result
    assert_eq!(run.history().len(), 6);
}

#[test]
fn finish_without_summary() {
    let mut run = AgentRun::new(3, vec![]);
    run.start("x".to_string());
    run.on_initial(Ok(vec![call("1", "finish", "{}")]));
    let t = run.on_tool_result(Ok("not json".to_string()));
    assert!(matches!(&t.events[1], ExecutorEvent::Finished { summary } if summary == "Task completed"));
}

#[test]
fn failed_tool_is_reported_and_recorded() {
    let mut run = AgentRun::new(3, vec![]);
    run.start("x".to_string());
    run.on_initial(Ok(vec![call("7", "write", "{}")]));
    let t = run.on_tool_result(Err("disk full".to_string()));
    assert!(matches!(&t.events[0], ExecutorEvent::ExecutionError { error } if error == "Tool call 'write' failed: disk full"));
    let h = run.history();
    match h.last().unwrap() {
        HistoryEntry::ToolResult { id, content } => {
            assert_eq!(id, "7");
            assert_eq!(content, "{\"error\":\"Tool call 'write' failed: disk full\"}");
        }
        other => panic!("unexpected {:?}", other),
    }
}

#[test]
fn empty_first_answer_fails() {
    let mut run = AgentRun::new(3, vec![]);
    run.start("x".to_string());
    let t = run.on_initial(Ok(vec![]));
    assert!(matches!(t.next, Next::Stop(Some(CoderError::AgentNoInitialResponse))));
    let mut run = AgentRun::new(3, vec![]);
    let t = run.on_initial(Err("timeout".to_string()));
    assert!(matches!(t.next, Next::Stop(Some(CoderError::CompletionError(m))) if m == "timeout"));
}

#[test]
fn agent_that_only_talks_stops() {
    let mut run = AgentRun::new(5, vec![]);
    run.start("x".to_string());
    let t = run.on_initial(Ok(vec![text("hmm")]));
    assert!(matches!(t.next, Next::Stop(Some(CoderError::AgentStoppedResponding(_)))));
}

#[test]
fn iteration_limit() {
    let mut run = AgentRun::new(0, vec![]);
    run.start("x".to_string());
    let t = run.on_initial(Ok(vec![text("a")]));
    assert!(matches!(t.next, Next::Stop(Some(CoderError::MaxIterationsReached(0)))));
    let mut run = AgentRun::new(1, vec![]);
    run.start("x".to_string());
    let t = run.on_initial(Ok(vec![text("a")]));
    assert!(matches!(t.next, Next::Stop(Some(CoderError::MaxIterationsReached(1)))));
}

#[test]
fn session_texts() {
    assert_eq!(user_task_prompt("fix it"), "<user_task>fix it</user_task>\nDo NOTHING else.");
    let h = vec![
        HistoryEntry::User("Task".to_string()),
        HistoryEntry::Assistant(call("9", "ls", "{\"path\":\".\"}")),
        HistoryEntry::ToolResult { id: "9".to_string(), content: "a.txt".to_string() },
    ];
    assert_eq!(entry_text(&h[0]), "User Task/Input:\nTask");
    assert_eq!(
        junior_log(&h),
        "User Task/Input:\nTask\n\nAssistant Tool Call:\n  ID: 9\n  Name: ls\n  Args: {\"path\":\".\"}\n\nTool Result (ID: 9):\n---\na.txt\n---"
    );
    let p = analysis_prompt("LOG");
    assert!(p.contains("<junior_developer_log>\nLOG\n</junior_developer_log>"));
}

#[test]
fn junior_events_and_fatal_errors() {
    let mut progress = JuniorProgress::new();
    assert!(progress.silent_failure(true).is_some());
    let (evs, stop) = progress.on_event(Ok(ExecutorEvent::Thinking { text: "t".to_string() }));
    assert!(!stop);
    assert!(matches!(&evs[0], CoderEvent::JuniorThinking { text } if text == "t"));
    let (evs, stop) = progress.on_event(Err(CoderError::ToolError("bad".to_string())));
    assert!(!stop);
    assert_eq!(evs.len(), 1);
    let (evs, stop) = progress.on_event(Err(CoderError::MaxIterationsReached(4)));
    assert!(stop);
    assert!(matches!(&evs[1], CoderEvent::SessionFailed { error } if error == "Junior agent execution failed: Junior execution reached maximum iterations (4)"));
    assert!(progress.silent_failure(true).is_none());
}

#[test]
fn pro_events_and_analysis() {
    let mut analysis = None;
    let (evs, stop) = on_pro_event(Ok(ExecutorEvent::Finished { summary: "Good".to_string() }), &mut analysis);
    assert!(!stop);
    assert!(matches!(&evs[0], CoderEvent::AnalysisReceived { analysis } if analysis == "Good"));
    assert_eq!(analysis.as_deref(), Some("Good"));
    let (evs, _) = on_pro_event(Ok(ExecutorEvent::ExecutionError { error: "e".to_string() }), &mut analysis);
    assert!(matches!(&evs[0], CoderEvent::Warning { message } if message == "Pro agent tool error during analysis: e"));
    assert_eq!(final_analysis(Some(String::new())), Ok("Analysis complete.".to_string()));
    assert_eq!(final_analysis(Some("x".to_string())), Ok("x".to_string()));
    assert_eq!(
        final_analysis(None),
        Err("Agent error: Pro agent did not generate an analysis".to_string())
    );
}

#[test]
fn tool_call_pending_follows_the_run() {
    let mut run = AgentRun::new(5, vec![]);
    run.start("go".to_string());
    assert!(!run.tool_call_pending());
    let t = run.on_initial(Ok(vec![call("1", "read", "{}")]));
    assert!(matches!(t.events.last(), Some(ExecutorEvent::ToolCallAttempted { id, .. }) if id == "1"));
    assert!(run.tool_call_pending());
    let t = run.on_tool_result(Ok("x".to_string()));
    assert!(matches!(&t.events[0], ExecutorEvent::ToolCallCompleted { id, .. } if id == "1"));
    assert!(!run.tool_call_pending());
}

#[test]
fn session_steps_end_with_their_failure() {
    let mut p = JuniorProgress::new();
    let (events, stop) = p.on_event(Err(CoderError::CompletionError("down".to_string())));
    assert!(stop);
    assert!(matches!(events.last(), Some(CoderEvent::SessionFailed { .. })));
    assert!(events[..events.len() - 1].iter().all(|e| !matches!(e, CoderEvent::SessionFailed { .. } | CoderEvent::SessionEnded { .. })));
}
