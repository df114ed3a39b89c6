//! The decisions of a coder session: a junior agent carries out the user's
//! task, then a senior agent analyses the junior's log. The session turns
//! the runs' events into session events, decides when a failure ends the
//! session, and writes the prompts.

use crate::coder::error::{coder_error_message, CoderError};
use crate::coder::executor::{AgentReply, ExecutorEvent, HistoryEntry};
use vstd::prelude::*;

verus! {

/// What a session reports.
#[derive(Debug, Clone)]
pub enum CoderEvent {
    /// The senior agent made a plan.
    ProPlanReceived { plan: String },
    /// The junior agent thought aloud.
    JuniorThinking { text: String },
    /// The junior agent called a tool.
    JuniorToolCallAttempted { id: String, name: String, arguments: String },
    /// A tool call of the junior agent finished.
    JuniorToolCallCompleted { id: String, result: String, tool_name: String },
    /// The junior agent's work ran into an error.
    JuniorExecutionError { error: String },
    /// The senior agent thought aloud while analysing.
    ProThinking { text: String },
    /// The senior agent called a tool while analysing.
    ProToolCall { tool: String, args: String },
    /// A tool call of the senior agent finished.
    ProToolResult { tool: String, result: String },
    /// A problem that does not end the session.
    Warning { message: String },
    /// The senior agent's analysis.
    AnalysisReceived { analysis: String },
    /// The session ended with an analysis and the senior agent's history.
    SessionEnded { final_analysis: String, history: Vec<HistoryEntry> },
    /// The session failed.
    SessionFailed { error: String },
}

/// The prompt that hands the user's request to the junior agent.
pub open spec fn user_task_prompt_of(request: Seq<char>) -> Seq<char> {
    "<user_task>"@ + request + "</user_task>\nDo NOTHING else."@
}

/// The prompt that hands the user's request to the junior agent.
pub fn user_task_prompt(request: &str) -> (s: String)
    ensures
        s@ == user_task_prompt_of(request@),
{
    let mut s = String::from_str("<user_task>");
    s.append(request);
    s.append("</user_task>\nDo NOTHING else.");
    s
}

/// How a history entry reads in the log that the senior agent analyses.
pub open spec fn entry_text_of(e: HistoryEntry) -> Seq<char> {
    match e {
        HistoryEntry::User(t) => "User Task/Input:\n"@ + t@,
        HistoryEntry::ToolResult { id, content } => "Tool Result (ID: "@ + id@ + "):\n---\n"@ + content@ + "\n---"@,
        HistoryEntry::Assistant(AgentReply::Text(t)) => "Assistant Thought/Response:\n"@ + t@,
        HistoryEntry::Assistant(AgentReply::ToolCall { id, name, arguments }) => "Assistant Tool Call:\n  ID: "@ + id@
            + "\n  Name: "@ + name@ + "\n  Args: "@ + arguments@,
    }
}

/// How a history entry reads in the log (see `entry_text_of`).
pub fn entry_text(e: &HistoryEntry) -> (s: String)
    ensures
        s@ == entry_text_of(*e),
{
    match e {
        HistoryEntry::User(t) => {
            let mut s = String::from_str("User Task/Input:\n");
            s.append(t.as_str());
            s
        },
        HistoryEntry::ToolResult { id, content } => {
            let mut s = String::from_str("Tool Result (ID: ");
            s.append(id.as_str());
            s.append("):\n---\n");
            s.append(content.as_str());
            s.append("\n---");
            s
        },
        HistoryEntry::Assistant(AgentReply::Text(t)) => {
            let mut s = String::from_str("Assistant Thought/Response:\n");
            s.append(t.as_str());
            s
        },
        HistoryEntry::Assistant(AgentReply::ToolCall { id, name, arguments }) => {
            let mut s = String::from_str("Assistant Tool Call:\n  ID: ");
            s.append(id.as_str());
            s.append("\n  Name: ");
            s.append(name.as_str());
            s.append("\n  Args: ");
            s.append(arguments.as_str());
            s
        },
    }
}

/// The log of the first `n` entries of a history: their texts, with a
/// blank line between them.
pub open spec fn log_of(h: Seq<HistoryEntry>, n: int) -> Seq<char>
    decreases n,
{
    if n <= 0 {
        Seq::empty()
    } else if n == 1 {
        entry_text_of(h[0])
    } else {
        log_of(h, n - 1) + "\n\n"@ + entry_text_of(h[n - 1])
    }
}

/// The log of the junior agent's history (see `log_of`).
pub fn junior_log(history: &Vec<HistoryEntry>) -> (s: String)
    ensures
        s@ == log_of(history@, history@.len() as int),
{
    let mut s = String::new();
    let mut i: usize = 0;
    while i < history.len()
        invariant
            i <= history@.len(),
            s@ == log_of(history@, i as int),
        decreases history@.len() - i,
    {
        if i > 0 {
            s.append("\n\n");
        }
        let t = entry_text(&history[i]);
        s.append(t.as_str());
        i += 1;
    }
    s
}

/// The prompt that asks the senior agent to analyse the junior's log.
pub open spec fn analysis_prompt_of(log: Seq<char>) -> Seq<char> {
    "Analyze the implementation of the plan by the junior developer based on the following log:\n\n<junior_developer_log>\n"@
        + log
        + "\n</junior_developer_log>\n\nYou have access to various tools that can help you analyze the implementation.\n\nYour goal is to:\n1. Use available tools to gather any additional information you need\n2. Analyze how well the junior developer followed the plan\n3. Identify any issues or improvements in the implementation\n4. When you have completed your analysis, call the \"finish\" tool with your complete analysis in the summary parameter\n\nIMPORTANT: Your analysis must be complete and detailed in the summary of the finish tool call."@
}

/// The prompt that asks the senior agent to analyse `log`.
pub fn analysis_prompt(log: &str) -> (s: String)
    ensures
        s@ == analysis_prompt_of(log@),
{
    let mut s = String::from_str(
        "Analyze the implementation of the plan by the junior developer based on the following log:\n\n<junior_developer_log>\n",
    );
    s.append(log);
    s.append(
        "\n</junior_developer_log>\n\nYou have access to various tools that can help you analyze the implementation.\n\nYour goal is to:\n1. Use available tools to gather any additional information you need\n2. Analyze how well the junior developer followed the plan\n3. Identify any issues or improvements in the implementation\n4. When you have completed your analysis, call the \"finish\" tool with your complete analysis in the summary parameter\n\nIMPORTANT: Your analysis must be complete and detailed in the summary of the finish tool call.",
    );
    s
}

/// What the session has seen of the junior agent's run.
#[derive(Debug, Clone, Copy, PartialEq, Eq)]
pub struct JuniorProgress {
    /// The run reported something.
    pub executed: bool,
    /// The run reported an error.
    pub had_error: bool,
    /// The run finished through the `finish` tool.
    pub finished: bool,
}

/// The session events for one report of the junior agent's run, and
/// whether the session ends there.
pub open spec fn junior_step(p: JuniorProgress, ev: Result<ExecutorEvent, CoderError>, events: Seq<CoderEvent>, stop: bool, q: JuniorProgress) -> bool {
    match ev {
        Ok(ExecutorEvent::Thinking { text }) => q == JuniorProgress { executed: true, ..p } && !stop
            && events == seq![CoderEvent::JuniorThinking { text }],
        Ok(ExecutorEvent::ToolCallAttempted { id, name, arguments }) => q == JuniorProgress { executed: true, ..p } && !stop
            && events == seq![CoderEvent::JuniorToolCallAttempted { id, name, arguments }],
        Ok(ExecutorEvent::ToolCallCompleted { id, result, tool_name }) => q == JuniorProgress { executed: true, ..p }
            && !stop && events == seq![CoderEvent::JuniorToolCallCompleted { id, result, tool_name }],
        Ok(ExecutorEvent::ExecutionError { error }) => q == JuniorProgress { executed: true, had_error: true, ..p }
            && !stop && events == seq![CoderEvent::JuniorExecutionError { error }],
        Ok(ExecutorEvent::Finished { summary: _ }) => q == JuniorProgress { executed: true, finished: true, ..p }
            && !stop && events == Seq::<CoderEvent>::empty(),
        Err(e) => {
            let msg = "Junior agent execution failed: "@ + coder_error_message(e);
            &&& q == JuniorProgress { executed: true, had_error: true, ..p }
            &&& events.len() >= 1
            &&& events[0] matches CoderEvent::JuniorExecutionError { error } && error@ == msg
            &&& if e is CompletionError || e is MaxIterationsReached || e is AgentNoInitialResponse
                || e is AgentStoppedResponding {
                &&& stop
                &&& events.len() == 2
                &&& events[1] matches CoderEvent::SessionFailed { error } && error@ == msg
            } else {
                !stop && events.len() == 1
            }
        },
    }
}

/// The session's end: an analysis or a failure.
pub open spec fn is_terminal(e: CoderEvent) -> bool {
    e is SessionEnded || e is SessionFailed
}

/// The events of one step of a session end it exactly when the step says
/// so, and then the one event that ends the session comes last.
pub open spec fn terminal_last(events: Seq<CoderEvent>, stop: bool) -> bool {
    &&& forall|i: int| 0 <= i < events.len() ==> (is_terminal(#[trigger] events[i]) <==> (stop && i == events.len() - 1))
    &&& stop ==> events.len() > 0
}

/// Each report of the junior agent's run yields at most one event that
/// ends the session, as its last event, and only when the session stops
/// there; so a session that stops at its first stopping step has exactly
/// one such event, and it is the last.
pub proof fn lemma_junior_step_terminal_last(
    p: JuniorProgress,
    ev: Result<ExecutorEvent, CoderError>,
    events: Seq<CoderEvent>,
    stop: bool,
    q: JuniorProgress,
)
    requires
        junior_step(p, ev, events, stop, q),
    ensures
        terminal_last(events, stop),
{
}

/// What the session does between the junior and the senior agent: a
/// junior run that reported nothing at all and left an empty history is a
/// silent failure, which ends the session.
pub open spec fn silent_outcome(p: JuniorProgress, log_is_empty: bool, r: Option<CoderEvent>) -> bool {
    if !p.executed && !p.finished && !p.had_error && log_is_empty {
        r matches Some(CoderEvent::SessionFailed { error }) && error@ == "Junior agent execution failed silently."@
    } else {
        r is None
    }
}

impl JuniorProgress {
    /// Nothing seen yet.
    pub fn new() -> (p: Self)
        ensures
            !p.executed && !p.had_error && !p.finished,
    {
        JuniorProgress { executed: false, had_error: false, finished: false }
    }

    /// Takes one report of the junior agent's run (see `junior_step`):
    /// events are passed on, a finish is noted, and an error is reported
    /// and ends the session when it is fatal.
    pub fn on_event(&mut self, ev: Result<ExecutorEvent, CoderError>) -> (r: (Vec<CoderEvent>, bool))
        ensures
            junior_step(*old(self), ev, r.0@, r.1, *final(self)),
    {
        self.executed = true;
        let mut events: Vec<CoderEvent> = Vec::new();
        match ev {
            Ok(ExecutorEvent::Thinking { text }) => {
                events.push(CoderEvent::JuniorThinking { text });
                (events, false)
            },
            Ok(ExecutorEvent::ToolCallAttempted { id, name, arguments }) => {
                events.push(CoderEvent::JuniorToolCallAttempted { id, name, arguments });
                (events, false)
            },
            Ok(ExecutorEvent::ToolCallCompleted { id, result, tool_name }) => {
                events.push(CoderEvent::JuniorToolCallCompleted { id, result, tool_name });
                (events, false)
            },
            Ok(ExecutorEvent::ExecutionError { error }) => {
                self.had_error = true;
                events.push(CoderEvent::JuniorExecutionError { error });
                (events, false)
            },
            Ok(ExecutorEvent::Finished { summary: _ }) => {
                self.finished = true;
                (events, false)
            },
            Err(e) => {
                self.had_error = true;
                let mut msg = String::from_str("Junior agent execution failed: ");
                let m = e.message();
                msg.append(m.as_str());
                events.push(CoderEvent::JuniorExecutionError { error: msg.clone() });
                if e.is_fatal() {
                    events.push(CoderEvent::SessionFailed { error: msg });
                    (events, true)
                } else {
                    (events, false)
                }
            },
        }
    }

    /// The failure of a run that reported nothing at all and left an empty
    /// history.
    pub fn silent_failure(&self, log_is_empty: bool) -> (r: Option<CoderEvent>)
        ensures
            silent_outcome(*self, log_is_empty, r),
            r matches Some(e) ==> is_terminal(e),
            (!self.executed && !self.finished && !self.had_error && log_is_empty) ==> (r matches Some(
                CoderEvent::SessionFailed { error },
            ) && error@ == "Junior agent execution failed silently."@),
            !(!self.executed && !self.finished && !self.had_error && log_is_empty) ==> r is None,
    {
        if !self.executed && !self.finished && !self.had_error && log_is_empty {
            Some(CoderEvent::SessionFailed { error: String::from_str("Junior agent execution failed silently.") })
        } else {
            None
        }
    }
}

/// The session events for one report of the senior agent's analysis,
/// whether the session ends there, and the analysis named before (`a0`)
/// and after it (`a1`).
pub open spec fn pro_step(
    ev: Result<ExecutorEvent, CoderError>,
    a0: Option<String>,
    events: Seq<CoderEvent>,
    stop: bool,
    a1: Option<String>,
) -> bool {
    match ev {
        Ok(ExecutorEvent::Thinking { text }) => events == seq![CoderEvent::ProThinking { text }] && !stop
            && a1 == a0,
        Ok(ExecutorEvent::ToolCallAttempted { id: _, name, arguments }) => events == seq![
            CoderEvent::ProToolCall { tool: name, args: arguments },
        ] && !stop && a1 == a0,
        Ok(ExecutorEvent::ToolCallCompleted { id: _, result, tool_name }) => events == seq![
            CoderEvent::ProToolResult { tool: tool_name, result },
        ] && !stop && a1 == a0,
        Ok(ExecutorEvent::Finished { summary }) => events == seq![
            CoderEvent::AnalysisReceived { analysis: summary },
        ] && !stop && a1 == Some(summary),
        Ok(ExecutorEvent::ExecutionError { error }) => events.len() == 1 && (events[0] matches CoderEvent::Warning { message }
            && message@ == "Pro agent tool error during analysis: "@ + error@) && !stop
            && a1 == a0,
        Err(e) => events.len() == 1 && (events[0] matches CoderEvent::SessionFailed { error }
            && error@ == "Pro agent analysis failed: "@ + coder_error_message(e)) && stop
            && a1 == a0,
    }
}

/// The session events for one report of the senior agent's analysis, the
/// analysis it names, and whether the session ends there (see `pro_step`).
pub fn on_pro_event(ev: Result<ExecutorEvent, CoderError>, analysis: &mut Option<String>) -> (r: (Vec<CoderEvent>, bool))
    ensures
        terminal_last(r.0@, r.1),
        pro_step(ev, *old(analysis), r.0@, r.1, *final(analysis)),
{
    let mut events: Vec<CoderEvent> = Vec::new();
    match ev {
        Ok(ExecutorEvent::Thinking { text }) => {
            events.push(CoderEvent::ProThinking { text });
            (events, false)
        },
        Ok(ExecutorEvent::ToolCallAttempted { id: _, name, arguments }) => {
            events.push(CoderEvent::ProToolCall { tool: name, args: arguments });
            (events, false)
        },
        Ok(ExecutorEvent::ToolCallCompleted { id: _, result, tool_name }) => {
            events.push(CoderEvent::ProToolResult { tool: tool_name, result });
            (events, false)
        },
        Ok(ExecutorEvent::Finished { summary }) => {
            *analysis = Some(summary.clone());
            events.push(CoderEvent::AnalysisReceived { analysis: summary });
            (events, false)
        },
        Ok(ExecutorEvent::ExecutionError { error }) => {
            let mut m = String::from_str("Pro agent tool error during analysis: ");
            m.append(error.as_str());
            events.push(CoderEvent::Warning { message: m });
            (events, false)
        },
        Err(e) => {
            let mut m = String::from_str("Pro agent analysis failed: ");
            let t = e.message();
            m.append(t.as_str());
            events.push(CoderEvent::SessionFailed { error: m });
            (events, true)
        },
    }
}

/// The analysis that ends a session: the senior agent's, or `Analysis
/// complete.` when it was empty; with none, the session fails.
pub fn final_analysis(analysis: Option<String>) -> (r: Result<String, String>)
    ensures
        match analysis {
            Some(a) => r matches Ok(s) && s@ == if a@.len() == 0 { "Analysis complete."@ } else { a@ },
            None => r matches Err(m) && m@ == "Agent error: Pro agent did not generate an analysis"@,
        },
{
    match analysis {
        Some(a) => {
            if a.as_str().is_empty() {
                Ok(String::from_str("Analysis complete."))
            } else {
                Ok(a)
            }
        },
        None => Err(String::from_str("Agent error: Pro agent did not generate an analysis")),
    }
}


/// The events of the first `i` steps, in order.
pub open spec fn steps_output(steps: Seq<Seq<CoderEvent>>, i: int) -> Seq<CoderEvent>
    decreases i,
{
    if i <= 0 {
        Seq::empty()
    } else {
        steps_output(steps, i - 1) + steps[i - 1]
    }
}

/// The event that closes a session whose senior agent left `analysis`
/// (see `final_analysis`): the session's end with that analysis and the
/// senior agent's `history`, or its failure.
pub open spec fn closing_event(analysis: Option<String>, history: Vec<HistoryEntry>, e: CoderEvent) -> bool {
    match analysis {
        Some(a) => e matches CoderEvent::SessionEnded { final_analysis, history: h } && h == history
            && final_analysis@ == if a@.len() == 0 { "Analysis complete."@ } else { a@ },
        None => e matches CoderEvent::SessionFailed { error } && error@
            == "Agent error: Pro agent did not generate an analysis"@,
    }
}

/// A whole session as its driver makes it. The junior agent's reports
/// `jin` are taken one by one from the start (`junior_step`), the session
/// ending at the first step that stops it; if none does, the silent-failure
/// check (`silent_outcome`) may end it; otherwise the senior agent's
/// reports `pin` are taken one by one (`pro_step`), from no analysis, the
/// session ending at the first step that stops it; if none does, the
/// closing event ends it.
pub open spec fn driven_session(
    jin: Seq<Result<ExecutorEvent, CoderError>>,
    jprogress: Seq<JuniorProgress>,
    jsteps: Seq<Seq<CoderEvent>>,
    jstops: Seq<bool>,
    log_is_empty: bool,
    silent: Option<CoderEvent>,
    pin: Seq<Result<ExecutorEvent, CoderError>>,
    analyses: Seq<Option<String>>,
    psteps: Seq<Seq<CoderEvent>>,
    pstops: Seq<bool>,
    closing: Option<CoderEvent>,
) -> bool {
    let jn = jin.len() as int;
    let pn = pin.len() as int;
    let junior_stopped = jn > 0 && jstops[jn - 1];
    let pro_stopped = pn > 0 && pstops[pn - 1];
    &&& jprogress.len() == jn + 1 && jsteps.len() == jn && jstops.len() == jn
    &&& jprogress[0] == (JuniorProgress { executed: false, had_error: false, finished: false })
    &&& forall|i: int| 0 <= i < jn ==> junior_step(jprogress[i], #[trigger] jin[i], jsteps[i], jstops[i], jprogress[i + 1])
    &&& forall|i: int| 0 <= i < jn - 1 ==> !(#[trigger] jstops[i])
    &&& analyses.len() == pn + 1 && psteps.len() == pn && pstops.len() == pn
    &&& analyses[0] is None
    &&& forall|i: int| 0 <= i < pn ==> pro_step(#[trigger] pin[i], analyses[i], psteps[i], pstops[i], analyses[i + 1])
    &&& forall|i: int| 0 <= i < pn - 1 ==> !(#[trigger] pstops[i])
    &&& if junior_stopped {
        silent is None && pn == 0 && closing is None
    } else {
        &&& silent_outcome(jprogress[jn], log_is_empty, silent)
        &&& if silent is Some {
            pn == 0 && closing is None
        } else if pro_stopped {
            closing is None
        } else {
            closing matches Some(e) && exists|h: Vec<HistoryEntry>| closing_event(analyses[pn], h, e)
        }
    }
}

/// Everything a driven session reports, in order.
pub open spec fn session_output(
    jsteps: Seq<Seq<CoderEvent>>,
    silent: Option<CoderEvent>,
    psteps: Seq<Seq<CoderEvent>>,
    closing: Option<CoderEvent>,
) -> Seq<CoderEvent> {
    let opt = |o: Option<CoderEvent>| match o {
        Some(e) => seq![e],
        None => Seq::<CoderEvent>::empty(),
    };
    steps_output(jsteps, jsteps.len() as int) + opt(silent) + steps_output(psteps, psteps.len() as int) + opt(closing)
}

/// Steps none of which stops report no event that ends the session; after
/// them, a step that stops reports one, last.
proof fn lemma_steps_terminal(steps: Seq<Seq<CoderEvent>>, stops: Seq<bool>, i: int)
    requires
        steps.len() == stops.len(),
        0 <= i <= steps.len(),
        forall|k: int| 0 <= k < steps.len() ==> terminal_last(#[trigger] steps[k], stops[k]),
        forall|k: int| 0 <= k < steps.len() - 1 ==> !(#[trigger] stops[k]),
    ensures
        ({
            let out = steps_output(steps, i);
            let stopped = i > 0 && i == steps.len() && stops[i - 1];
            &&& forall|k: int| 0 <= k < out.len() ==> (is_terminal(#[trigger] out[k]) <==> (stopped && k == out.len() - 1))
            &&& stopped ==> out.len() > 0
        }),
    decreases i,
{
    if i > 0 {
        lemma_steps_terminal(steps, stops, i - 1);
        let pre = steps_output(steps, i - 1);
        let out = steps_output(steps, i);
        let st = steps[i - 1];
        assert(terminal_last(st, stops[i - 1]));
        assert forall|k: int| 0 <= k < out.len() implies (is_terminal(#[trigger] out[k]) <==> (
            (i > 0 && i == steps.len() && stops[i - 1]) && k == out.len() - 1)) by {
            if k < pre.len() {
                assert(out[k] == pre[k]);
            } else {
                assert(out[k] == st[k - pre.len()]);
            }
        }
    }
}

/// A session, whatever its agents report, ends with exactly one event
/// that ends it (`SessionEnded` or `SessionFailed`), and that event is the
/// last one it reports.
pub proof fn lemma_session_ends_once(
    jin: Seq<Result<ExecutorEvent, CoderError>>,
    jprogress: Seq<JuniorProgress>,
    jsteps: Seq<Seq<CoderEvent>>,
    jstops: Seq<bool>,
    log_is_empty: bool,
    silent: Option<CoderEvent>,
    pin: Seq<Result<ExecutorEvent, CoderError>>,
    analyses: Seq<Option<String>>,
    psteps: Seq<Seq<CoderEvent>>,
    pstops: Seq<bool>,
    closing: Option<CoderEvent>,
)
    requires
        driven_session(jin, jprogress, jsteps, jstops, log_is_empty, silent, pin, analyses, psteps, pstops, closing),
    ensures
        ({
            let out = session_output(jsteps, silent, psteps, closing);
            &&& out.len() > 0
            &&& forall|k: int| 0 <= k < out.len() ==> (is_terminal(#[trigger] out[k]) <==> k == out.len() - 1)
        }),
{
    let jn = jin.len() as int;
    let pn = pin.len() as int;
    assert forall|k: int| 0 <= k < jn implies terminal_last(#[trigger] jsteps[k], jstops[k]) by {
        lemma_junior_step_terminal_last(jprogress[k], jin[k], jsteps[k], jstops[k], jprogress[k + 1]);
    }
    assert forall|k: int| 0 <= k < pn implies terminal_last(#[trigger] psteps[k], pstops[k]) by {
        assert(pro_step(pin[k], analyses[k], psteps[k], pstops[k], analyses[k + 1]));
    }
    lemma_steps_terminal(jsteps, jstops, jn);
    lemma_steps_terminal(psteps, pstops, pn);
    let a = steps_output(jsteps, jn);
    let b = match silent {
        Some(e) => seq![e],
        None => Seq::<CoderEvent>::empty(),
    };
    let c = steps_output(psteps, pn);
    let d = match closing {
        Some(e) => seq![e],
        None => Seq::<CoderEvent>::empty(),
    };
    let out = session_output(jsteps, silent, psteps, closing);
    assert(out == a + b + c + d);
    if closing is Some {
        let e = closing->0;
        let h = choose|h: Vec<HistoryEntry>| closing_event(analyses[pn], h, e);
        assert(closing_event(analyses[pn], h, e));
        assert(is_terminal(e));
    }
    assert forall|k: int| 0 <= k < out.len() implies (is_terminal(#[trigger] out[k]) <==> k == out.len() - 1) by {
        if k < a.len() {
            assert(out[k] == a[k]);
        } else if k < a.len() + b.len() {
            assert(out[k] == b[k - a.len()]);
        } else if k < a.len() + b.len() + c.len() {
            assert(out[k] == c[k - a.len() - b.len()]);
        } else {
            assert(out[k] == d[k - a.len() - b.len() - c.len()]);
        }
    }
}

} // verus!
