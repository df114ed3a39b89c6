//! The decisions of an agent run: an agent answers with thoughts and tool
//! calls; each tool call is run and its result fed back until the agent
//! calls the `finish` tool, stops answering, or the run reaches its
//! iteration limit. The driver asks the agent, runs the tools and delivers
//! the events; `AgentRun` decides what comes next.

use crate::coder::error::CoderError;
use crate::text::same_text;
use std::collections::VecDeque;
use vstd::prelude::*;

verus! {

/// One piece of an agent's answer.
#[derive(Debug, Clone)]
pub enum AgentReply {
    /// A thought or a reply in words.
    Text(String),
    /// A call of tool `name` with JSON `arguments`.
    ToolCall { id: String, name: String, arguments: String },
}

/// One entry of the conversation history.
#[derive(Debug, Clone)]
pub enum HistoryEntry {
    /// A prompt of the user.
    User(String),
    /// A piece of the agent's answer.
    Assistant(AgentReply),
    /// The result of tool call `id`.
    ToolResult { id: String, content: String },
}

/// What the run reports as it goes.
#[derive(Debug, Clone)]
pub enum ExecutorEvent {
    /// The agent thought aloud.
    Thinking { text: String },
    /// The agent called a tool.
    ToolCallAttempted { id: String, name: String, arguments: String },
    /// A tool call finished with `result`.
    ToolCallCompleted { id: String, result: String, tool_name: String },
    /// A tool call failed; the run goes on.
    ExecutionError { error: String },
    /// The agent called `finish`.
    Finished { summary: String },
}

/// What the driver does next.
#[derive(Debug)]
pub enum Next {
    /// Ask the agent, with the history, to answer `prompt` (empty when the
    /// agent is to react to the history).
    Request(String),
    /// Run the tool `name` with the JSON `arguments`, and hand the result to
    /// `on_tool_result`.
    CallTool { name: String, arguments: String },
    /// The run is over: it finished, or it failed with the error.
    Stop(Option<CoderError>),
}

/// How a run failed, as the contracts see it.
pub enum FailView {
    NoInitialResponse,
    StoppedResponding(Seq<HistoryEntry>),
    MaxIterations(nat),
    Completion(Seq<char>),
    Other,
}

/// `Next` as the contracts see it.
pub enum NextView {
    Request(Seq<char>),
    CallTool(String, String),
    Finish,
    Fail(FailView),
}

impl View for Next {
    type V = NextView;

    open spec fn view(&self) -> NextView {
        match self {
            Next::Request(p) => NextView::Request(p@),
            Next::CallTool { name, arguments } => NextView::CallTool(*name, *arguments),
            Next::Stop(None) => NextView::Finish,
            Next::Stop(Some(e)) => NextView::Fail(
                match e {
                    CoderError::AgentNoInitialResponse => FailView::NoInitialResponse,
                    CoderError::AgentStoppedResponding(h) => FailView::StoppedResponding(h@),
                    CoderError::MaxIterationsReached(n) => FailView::MaxIterations(*n as nat),
                    CoderError::CompletionError(m) => FailView::Completion(m@),
                    _ => FailView::Other,
                },
            ),
        }
    }
}

/// The events and the next step of a decision.
#[derive(Debug)]
pub struct Transition {
    pub events: Vec<ExecutorEvent>,
    pub next: Next,
}

/// The state of a run, as the contracts see it.
pub struct RunView {
    pub max_iterations: nat,
    pub iteration: nat,
    pub queue: Seq<AgentReply>,
    pub reacted: bool,
    pub history: Seq<HistoryEntry>,
    /// The id and name of the tool call under way.
    pub pending: Option<(String, String)>,
}

/// Handing out the queued answers: thoughts become events, until a tool
/// call, which the driver is to run. Once the queue is empty, an
/// iteration that handed nothing out means the agent stopped answering;
/// otherwise the next iteration begins (or the limit is reached), and as it
/// finds the queue empty, the agent is taken to have stopped too.
pub open spec fn drain(s: RunView, events: Seq<ExecutorEvent>) -> (RunView, Seq<ExecutorEvent>, NextView)
    decreases s.queue.len(),
{
    if s.queue.len() == 0 {
        if !s.reacted {
            (s, events, NextView::Fail(FailView::StoppedResponding(s.history)))
        } else if s.iteration >= s.max_iterations {
            (s, events, NextView::Fail(FailView::MaxIterations(s.max_iterations)))
        } else {
            let t = RunView { iteration: s.iteration + 1, reacted: false, ..s };
            (t, events, NextView::Fail(FailView::StoppedResponding(t.history)))
        }
    } else {
        let c = s.queue[0];
        let t = RunView {
            queue: s.queue.drop_first(),
            reacted: true,
            history: s.history.push(HistoryEntry::Assistant(c)),
            ..s
        };
        match c {
            AgentReply::Text(x) => drain(t, events.push(ExecutorEvent::Thinking { text: x })),
            AgentReply::ToolCall { id, name, arguments } => (
                RunView { pending: Some((id, name)), ..t },
                events.push(ExecutorEvent::ToolCallAttempted { id, name, arguments }),
                NextView::CallTool(name, arguments),
            ),
        }
    }
}

/// Beginning an iteration: the limit ends the run, else the queue is
/// handed out.
pub open spec fn begin(s: RunView) -> (RunView, Seq<ExecutorEvent>, NextView) {
    if s.iteration >= s.max_iterations {
        (s, Seq::empty(), NextView::Fail(FailView::MaxIterations(s.max_iterations)))
    } else {
        drain(RunView { iteration: s.iteration + 1, reacted: false, ..s }, Seq::empty())
    }
}

/// What the run does with the first answer: a failed request or an empty
/// answer ends it; otherwise the first iteration begins.
pub open spec fn after_initial(s: RunView, reply: Result<Seq<AgentReply>, Seq<char>>) -> (RunView, Seq<ExecutorEvent>, NextView) {
    match reply {
        Err(e) => (s, Seq::empty(), NextView::Fail(FailView::Completion(e))),
        Ok(v) => {
            let t = RunView { queue: s.queue + v, ..s };
            if t.queue.len() == 0 {
                (t, Seq::empty(), NextView::Fail(FailView::NoInitialResponse))
            } else {
                begin(t)
            }
        },
    }
}

/// What the run does with a reaction of the agent: a failed request ends
/// it; otherwise its answers join the queue, which is handed out.
pub open spec fn after_reaction(s: RunView, reply: Result<Seq<AgentReply>, Seq<char>>) -> (RunView, Seq<ExecutorEvent>, NextView) {
    match reply {
        Err(e) => (s, Seq::empty(), NextView::Fail(FailView::Completion(e))),
        Ok(v) => drain(RunView { queue: s.queue + v, ..s }, Seq::empty()),
    }
}

/// The result recorded for a tool that returned nothing.
pub open spec fn no_result_json() -> Seq<char> {
    "{\"result\":\"Tool returned no result\"}"@
}

/// The JSON object `{"error": msg}` as `serde_json` writes it.
pub uninterp spec fn json_error_object(msg: Seq<char>) -> Seq<char>;

/// The string member `summary` of the JSON object `text`, when `text` is
/// JSON with such a member.
pub uninterp spec fn json_summary_of(text: Seq<char>) -> Option<Seq<char>>;

/// Writes `{"error": msg}` with `serde_json`.
#[verifier::external_body]
fn error_json(msg: &str) -> (s: String)
    ensures
        s@ == json_error_object(msg@),
{
    let mut object = serde_json::Map::new();
    object.insert("error".to_string(), serde_json::Value::String(msg.to_string()));
    serde_json::Value::Object(object).to_string()
}

/// Parses `text` with `serde_json` and reads its string member `summary`.
#[verifier::external_body]
fn summary_of(text: &str) -> (r: Option<String>)
    ensures
        match r {
            Some(s) => json_summary_of(text@) == Some(s@),
            None => json_summary_of(text@) is None,
        },
{
    let value: serde_json::Value = serde_json::from_str(text).ok()?;
    value.get("summary")?.as_str().map(|s| s.to_string())
}

/// What taking the result of the tool call under way does (see
/// `AgentRun::on_tool_result`): from `s` to `t`, with `events`, then
/// `next`.
pub open spec fn tool_result_step(
    s: RunView,
    result: Result<String, String>,
    t: RunView,
    events: Seq<ExecutorEvent>,
    next: NextView,
) -> bool {
                let (id, name) = s.pending->0;
                &&& t.pending is None
                &&& t.queue == s.queue
                &&& t.iteration == s.iteration
                &&& t.reacted == s.reacted
                &&& t.max_iterations == s.max_iterations
                &&& t.history.len() == s.history.len() + 1
                &&& t.history.drop_last() == s.history
                &&& match result {
                    Ok(r) => {
                        let recorded = if r@.len() == 0 { no_result_json() } else { r@ };
                        &&& t.history.last() matches HistoryEntry::ToolResult { id: i, content }
                            && i == id && content@ == recorded
                        &&& events.len() >= 1
                        &&& events[0] matches ExecutorEvent::ToolCallCompleted { id: i, result: res, tool_name }
                            && i == id && res@ == recorded && tool_name == name
                        &&& if name@ == "finish"@ {
                            &&& next == NextView::Finish
                            &&& events.len() == 2
                            &&& events[1] matches ExecutorEvent::Finished { summary } && summary@ == match json_summary_of(recorded) {
                                Some(s) => s,
                                None => "Task completed"@,
                            }
                        } else {
                            &&& next == NextView::Request(Seq::<char>::empty())
                            &&& events.len() == 1
                        }
                    },
                    Err(e) => {
                        let msg = "Tool call '"@ + name@ + "' failed: "@ + e@;
                        &&& t.history.last() matches HistoryEntry::ToolResult { id: i, content }
                            && i == id && content@ == json_error_object(msg)
                        &&& events.len() == 1
                        &&& events[0] matches ExecutorEvent::ExecutionError { error } && error@ == msg
                        &&& next == NextView::Request(Seq::<char>::empty())
                    },
                }
            }

/// The state of an agent run.
pub struct AgentRun {
    max_iterations: usize,
    iteration: usize,
    queue: VecDeque<AgentReply>,
    reacted: bool,
    history: Vec<HistoryEntry>,
    pending: Option<(String, String)>,
    reported: Ghost<Seq<ExecutorEvent>>,
}

impl View for AgentRun {
    type V = RunView;

    closed spec fn view(&self) -> RunView {
        RunView {
            max_iterations: self.max_iterations as nat,
            iteration: self.iteration as nat,
            queue: self.queue@,
            reacted: self.reacted,
            history: self.history@,
            pending: self.pending,
        }
    }
}

/// A copy of `r`.
fn copy_reply(r: &AgentReply) -> (c: AgentReply)
    ensures
        c == *r,
{
    match r {
        AgentReply::Text(t) => AgentReply::Text(t.clone()),
        AgentReply::ToolCall { id, name, arguments } => AgentReply::ToolCall {
            id: id.clone(),
            name: name.clone(),
            arguments: arguments.clone(),
        },
    }
}

/// A copy of `e`.
fn copy_entry(e: &HistoryEntry) -> (c: HistoryEntry)
    ensures
        c == *e,
{
    match e {
        HistoryEntry::User(t) => HistoryEntry::User(t.clone()),
        HistoryEntry::Assistant(r) => HistoryEntry::Assistant(copy_reply(r)),
        HistoryEntry::ToolResult { id, content } => HistoryEntry::ToolResult { id: id.clone(), content: content.clone() },
    }
}

/// A copy of the history `h`.
pub fn copy_history(h: &Vec<HistoryEntry>) -> (c: Vec<HistoryEntry>)
    ensures
        c@ == h@,
{
    let mut c: Vec<HistoryEntry> = Vec::new();
    let mut i: usize = 0;
    while i < h.len()
        invariant
            i <= h@.len(),
            c@ == h@.take(i as int),
        decreases h@.len() - i,
    {
        c.push(copy_entry(&h[i]));
        assert(h@.take(i + 1) =~= h@.take(i as int).push(h@[i as int]));
        i += 1;
    }
    assert(h@.take(h@.len() as int) =~= h@);
    c
}

/// The order in which a run reports: every completed tool call comes
/// right after the attempt with the same id; `Finished` comes only right
/// after a completed call of `finish`; and while a tool call is under way,
/// its attempt is the last report.
pub open spec fn reports_ordered(ev: Seq<ExecutorEvent>, pending: Option<(String, String)>) -> bool {
    &&& forall|i: int| 0 <= i < ev.len() && (#[trigger] ev[i]) is ToolCallCompleted ==> i > 0
        && (ev[i - 1] matches ExecutorEvent::ToolCallAttempted { id, .. } && id == ev[i]->ToolCallCompleted_id)
    &&& forall|i: int| 0 <= i < ev.len() && (#[trigger] ev[i]) is Finished ==> i > 0
        && (ev[i - 1] matches ExecutorEvent::ToolCallCompleted { tool_name, .. } && tool_name@ == "finish"@)
    &&& pending matches Some((id, name)) ==> ev.len() > 0
        && (ev.last() matches ExecutorEvent::ToolCallAttempted { id: i, name: n, .. } && i == id && n == name)
}

/// Handing out the queue of a run with no tool call under way reports
/// thoughts, and at most one tool call attempt, last, which is then the
/// call under way; a run that calls no tool keeps no call under way.
proof fn lemma_drain_reports(s: RunView, acc: Seq<ExecutorEvent>)
    requires
        s.pending is None,
    ensures
        ({
            let r = drain(s, acc);
            &&& r.1.len() >= acc.len()
            &&& r.1.take(acc.len() as int) == acc
            &&& forall|i: int| acc.len() <= i < r.1.len() - 1 ==> (#[trigger] r.1[i]) is Thinking
            &&& r.1.len() > acc.len() ==> (r.1.last() is Thinking || r.1.last() is ToolCallAttempted)
            &&& r.2 is CallTool ==> r.1.len() > acc.len() && (r.1.last() matches ExecutorEvent::ToolCallAttempted {
                id,
                name,
                ..
            } && r.0.pending == Some((id, name)))
            &&& !(r.2 is CallTool) ==> r.0.pending is None && (r.1.len() > acc.len() ==> r.1.last() is Thinking)
        }),
    decreases s.queue.len(),
{
    if s.queue.len() > 0 {
        let c = s.queue[0];
        let t = RunView {
            queue: s.queue.drop_first(),
            reacted: true,
            history: s.history.push(HistoryEntry::Assistant(c)),
            ..s
        };
        match c {
            AgentReply::Text(x) => {
                let acc2 = acc.push(ExecutorEvent::Thinking { text: x });
                lemma_drain_reports(t, acc2);
                let r = drain(t, acc2);
                assert(r.1.take(acc.len() as int) =~= r.1.take(acc2.len() as int).take(acc.len() as int));
                assert(acc2.take(acc.len() as int) =~= acc);
                assert(r.1[acc.len() as int] == acc2[acc.len() as int]);
            },
            AgentReply::ToolCall { id, name, arguments } => {
                assert(acc.push(ExecutorEvent::ToolCallAttempted { id, name, arguments }).take(acc.len() as int) =~= acc);
            },
        }
    } else {
        assert(acc.take(acc.len() as int) =~= acc);
    }
}

/// Appending the reports of handing out the queue keeps a run's reports
/// in order.
proof fn lemma_drain_keeps_order(ev: Seq<ExecutorEvent>, s: RunView)
    requires
        s.pending is None,
        reports_ordered(ev, None),
    ensures
        reports_ordered(ev + drain(s, Seq::empty()).1, drain(s, Seq::empty()).0.pending),
{
    lemma_drain_reports(s, Seq::empty());
    let r = drain(s, Seq::empty());
    let all = ev + r.1;
    assert forall|i: int| 0 <= i < all.len() implies !((#[trigger] all[i]) is ToolCallCompleted) || i < ev.len() by {
        if i >= ev.len() {
            assert(all[i] == r.1[i - ev.len()]);
        }
    }
    assert forall|i: int| 0 <= i < all.len() && (#[trigger] all[i]) is ToolCallCompleted implies i > 0
        && (all[i - 1] matches ExecutorEvent::ToolCallAttempted { id, .. } && id == all[i]->ToolCallCompleted_id) by {
        assert(all[i] == ev[i] && all[i - 1] == ev[i - 1]);
    }
    assert forall|i: int| 0 <= i < all.len() implies !((#[trigger] all[i]) is Finished) || i < ev.len() by {
        if i >= ev.len() {
            assert(all[i] == r.1[i - ev.len()]);
        }
    }
    assert forall|i: int| 0 <= i < all.len() && (#[trigger] all[i]) is Finished implies i > 0
        && (all[i - 1] matches ExecutorEvent::ToolCallCompleted { tool_name, .. } && tool_name@ == "finish"@) by {
        assert(all[i] == ev[i] && all[i - 1] == ev[i - 1]);
    }
    if r.2 is CallTool {
        assert(all.last() == r.1.last());
    }
}

impl AgentRun {
    /// The iteration count stays within the limit, and the reports so far
    /// are in order.
    pub closed spec fn wf(&self) -> bool {
        &&& self.iteration <= self.max_iterations
        &&& reports_ordered(self.reported@, self.pending)
    }

    /// The iteration count stays within the limit.
    closed spec fn bounded(&self) -> bool {
        self.iteration <= self.max_iterations
    }

    /// Everything the run has reported so far, in order.
    pub closed spec fn reported(&self) -> Seq<ExecutorEvent> {
        self.reported@
    }

    /// A run of at most `max_iterations` iterations that starts from
    /// `history`.
    pub fn new(max_iterations: usize, history: Vec<HistoryEntry>) -> (r: Self)
        ensures
            r.wf(),
            r.reported() == Seq::<ExecutorEvent>::empty(),
            r@ == (RunView {
                max_iterations: max_iterations as nat,
                iteration: 0,
                queue: Seq::empty(),
                reacted: false,
                history: history@,
                pending: None,
            }),
    {
        AgentRun {
            max_iterations,
            iteration: 0,
            queue: VecDeque::new(),
            reacted: false,
            history,
            pending: None,
            reported: Ghost(Seq::empty()),
        }
    }

    /// The history so far.
    pub fn history(&self) -> (h: Vec<HistoryEntry>)
        ensures
            h@ == self@.history,
    {
        copy_history(&self.history)
    }

    /// Whether a tool call is under way: its result is awaited.
    pub fn tool_call_pending(&self) -> (b: bool)
        ensures
            b == self@.pending is Some,
    {
        self.pending.is_some()
    }

    /// Starts the run with the user's `prompt`: it joins the history, and
    /// the agent is asked to answer it.
    pub fn start(&mut self, prompt: String) -> (next: Next)
        requires
            old(self).wf(),
        ensures
            final(self).wf(),
            final(self).reported() == old(self).reported(),
            final(self)@ == (RunView { history: old(self)@.history.push(HistoryEntry::User(prompt)), ..old(self)@ }),
            next@ == NextView::Request(prompt@),
    {
        self.history.push(HistoryEntry::User(prompt.clone()));
        Next::Request(prompt)
    }

    /// Hands out the queue (see `drain`).
    fn drain(&mut self, events: Vec<ExecutorEvent>) -> (t: Transition)
        requires
            old(self).bounded(),
        ensures
            final(self).bounded(),
            final(self).reported() == old(self).reported(),
            (final(self)@, t.events@, t.next@) == drain(old(self)@, events@),
        decreases old(self)@.queue.len(),
    {
        let mut events = events;
        match self.queue.pop_front() {
            None => {
                if !self.reacted {
                    let h = copy_history(&self.history);
                    Transition { events, next: Next::Stop(Some(CoderError::AgentStoppedResponding(h))) }
                } else if self.iteration >= self.max_iterations {
                    Transition { events, next: Next::Stop(Some(CoderError::MaxIterationsReached(self.max_iterations))) }
                } else {
                    self.iteration = self.iteration + 1;
                    self.reacted = false;
                    let h = copy_history(&self.history);
                    Transition { events, next: Next::Stop(Some(CoderError::AgentStoppedResponding(h))) }
                }
            },
            Some(c) => {
                assert(self.queue@ =~= old(self)@.queue.drop_first());
                self.reacted = true;
                self.history.push(HistoryEntry::Assistant(copy_reply(&c)));
                match c {
                    AgentReply::Text(x) => {
                        events.push(ExecutorEvent::Thinking { text: x });
                        self.drain(events)
                    },
                    AgentReply::ToolCall { id, name, arguments } => {
                        self.pending = Some((id.clone(), name.clone()));
                        events.push(ExecutorEvent::ToolCallAttempted {
                            id,
                            name: name.clone(),
                            arguments: arguments.clone(),
                        });
                        Transition { events, next: Next::CallTool { name, arguments } }
                    },
                }
            },
        }
    }

    /// Begins an iteration (see `begin`).
    fn begin(&mut self) -> (t: Transition)
        requires
            old(self).bounded(),
        ensures
            final(self).bounded(),
            final(self).reported() == old(self).reported(),
            (final(self)@, t.events@, t.next@) == begin(old(self)@),
    {
        if self.iteration >= self.max_iterations {
            return Transition {
                events: Vec::new(),
                next: Next::Stop(Some(CoderError::MaxIterationsReached(self.max_iterations))),
            };
        }
        self.iteration = self.iteration + 1;
        self.reacted = false;
        self.drain(Vec::new())
    }

    /// Appends `v` to the queue.
    fn enqueue(&mut self, v: Vec<AgentReply>)
        ensures
            final(self)@ == (RunView { queue: old(self)@.queue + v@, ..old(self)@ }),
            final(self).bounded() == old(self).bounded(),
            final(self).reported() == old(self).reported(),
    {
        let mut v = v;
        let ghost all = v@;
        let mut k: usize = 0;
        let mut rest: VecDeque<AgentReply> = VecDeque::new();
        let n = v.len();
        while k < n
            invariant
                n == v@.len(),
                k <= n,
                v@ == all,
                rest@ == all.take(k as int),
            decreases n - k,
        {
            rest.push_back(copy_reply(&v[k]));
            assert(all.take(k + 1) =~= all.take(k as int).push(all[k as int]));
            k += 1;
        }
        assert(all.take(n as int) =~= all);
        let ghost q0 = self.queue@;
        while rest.len() > 0
            invariant
                self.queue@ + rest@ == q0 + all,
                self.max_iterations == old(self).max_iterations,
                self.iteration == old(self).iteration,
                self.reacted == old(self).reacted,
                self.history == old(self).history,
                self.pending == old(self).pending,
                self.reported == old(self).reported,
            decreases rest@.len(),
        {
            let ghost r0 = rest@;
            match rest.pop_front() {
                Some(x) => {
                    let ghost q1 = self.queue@;
                    self.queue.push_back(x);
                    assert(self.queue@ + rest@ =~= q1 + r0);
                },
                None => {},
            }
        }
        assert(self.queue@ =~= q0 + all);
    }

    /// Takes the agent's first answer, or the failure of the request (see
    /// `after_initial`).
    pub fn on_initial(&mut self, reply: Result<Vec<AgentReply>, String>) -> (t: Transition)
        requires
            old(self).wf(),
            old(self)@.pending is None,
        ensures
            final(self).wf(),
            final(self).reported() == old(self).reported() + t.events@,
            (final(self)@, t.events@, t.next@) == after_initial(
                old(self)@,
                match reply {
                    Ok(v) => Ok(v@),
                    Err(e) => Err(e@),
                },
            ),
    {
        let ghost before = self.reported@;
        let t = match reply {
            Err(e) => Transition { events: Vec::new(), next: Next::Stop(Some(CoderError::CompletionError(e))) },
            Ok(v) => {
                self.enqueue(v);
                if self.queue.len() == 0 {
                    Transition { events: Vec::new(), next: Next::Stop(Some(CoderError::AgentNoInitialResponse)) }
                } else {
                    let ghost s0 = self@;
                    let t = self.begin();
                    proof {
                        if s0.iteration < s0.max_iterations {
                            lemma_drain_keeps_order(before, RunView { iteration: s0.iteration + 1, reacted: false, ..s0 });
                        }
                    }
                    t
                }
            },
        };
        proof {
            assert(t.events@.len() == 0 ==> before + t.events@ =~= before);
        }
        self.reported = Ghost(self.reported@ + t.events@);
        t
    }

    /// Takes the agent's reaction to the history, or the failure of the
    /// request (see `after_reaction`).
    pub fn on_reaction(&mut self, reply: Result<Vec<AgentReply>, String>) -> (t: Transition)
        requires
            old(self).wf(),
            old(self)@.pending is None,
        ensures
            final(self).wf(),
            final(self).reported() == old(self).reported() + t.events@,
            (final(self)@, t.events@, t.next@) == after_reaction(
                old(self)@,
                match reply {
                    Ok(v) => Ok(v@),
                    Err(e) => Err(e@),
                },
            ),
    {
        let ghost before = self.reported@;
        let t = match reply {
            Err(e) => Transition { events: Vec::new(), next: Next::Stop(Some(CoderError::CompletionError(e))) },
            Ok(v) => {
                self.enqueue(v);
                let ghost s0 = self@;
                let t = self.drain(Vec::new());
                proof {
                    lemma_drain_keeps_order(before, s0);
                }
                t
            },
        };
        proof {
            assert(t.events@.len() == 0 ==> before + t.events@ =~= before);
        }
        self.reported = Ghost(self.reported@ + t.events@);
        t
    }

    /// Takes the result of the tool call under way: its output, or the
    /// message of its failure. The result joins the history; a successful
    /// call of `finish` ends the run, with the `summary` that its result
    /// names (or "Task completed"); otherwise the agent is asked to react.
    /// A tool that returned nothing is recorded as having said so; a
    /// failure is reported and recorded as `{"error": ...}`.
    #[verifier::rlimit(40)]
    pub fn on_tool_result(&mut self, result: Result<String, String>) -> (t: Transition)
        requires
            old(self).wf(),
            old(self)@.pending is Some,
        ensures
            final(self).wf(),
            final(self).reported() == old(self).reported() + t.events@,
            tool_result_step(old(self)@, result, final(self)@, t.events@, t.next@),
    {
        let ghost before = self.reported@;
        let ghost pend = self.pending;
        let (id, name) = match self.pending.take() {
            Some(p) => p,
            None => (String::new(), String::new()),
        };
        let mut events: Vec<ExecutorEvent> = Vec::new();
        let t = match result {
            Ok(r) => {
                let recorded = if r.as_str().is_empty() {
                    String::from_str("{\"result\":\"Tool returned no result\"}")
                } else {
                    r
                };
                events.push(ExecutorEvent::ToolCallCompleted {
                    id: id.clone(),
                    result: recorded.clone(),
                    tool_name: name.clone(),
                });
                if same_text(name.as_str(), "finish") {
                    let summary = match summary_of(recorded.as_str()) {
                        Some(s) => s,
                        None => String::from_str("Task completed"),
                    };
                    events.push(ExecutorEvent::Finished { summary });
                    self.history.push(HistoryEntry::ToolResult { id, content: recorded });
                    Transition { events, next: Next::Stop(None) }
                } else {
                    self.history.push(HistoryEntry::ToolResult { id, content: recorded });
                    Transition { events, next: Next::Request(String::new()) }
                }
            },
            Err(e) => {
                let mut msg = String::from_str("Tool call '");
                msg.append(name.as_str());
                msg.append("' failed: ");
                msg.append(e.as_str());
                let content = error_json(msg.as_str());
                events.push(ExecutorEvent::ExecutionError { error: msg });
                self.history.push(HistoryEntry::ToolResult { id, content });
                Transition { events, next: Next::Request(String::new()) }
            },
        };
        proof {
            lemma_tool_result_keeps_order(before, (pend->0).0, (pend->0).1, t.events@);
            assert(self.history@.drop_last() =~= old(self).history@);
        }
        self.reported = Ghost(self.reported@ + t.events@);
        t
    }
}

/// Appending the reports of a tool result keeps a run's reports in order:
/// the completion follows the attempt of the call under way, and
/// `Finished` follows the completion of `finish`.
proof fn lemma_tool_result_keeps_order(ev: Seq<ExecutorEvent>, id: String, name: String, new: Seq<ExecutorEvent>)
    requires
        reports_ordered(ev, Some((id, name))),
        1 <= new.len() <= 2,
        new[0] is ExecutionError || (new[0] matches ExecutorEvent::ToolCallCompleted { id: i, tool_name: n, .. }
            && i == id && n == name),
        new.len() == 2 ==> new[0] is ToolCallCompleted && new[1] is Finished && name@ == "finish"@,
        new.len() == 1 ==> !(new[0] is Finished),
    ensures
        reports_ordered(ev + new, None),
{
    let all = ev + new;
    let n = ev.len();
    assert forall|i: int| 0 <= i < all.len() && (#[trigger] all[i]) is ToolCallCompleted implies i > 0
        && (all[i - 1] matches ExecutorEvent::ToolCallAttempted { id, .. } && id == all[i]->ToolCallCompleted_id) by {
        if i < n {
            assert(all[i] == ev[i] && all[i - 1] == ev[i - 1]);
        } else if i == n {
            assert(all[i] == new[0] && all[i - 1] == ev.last());
        } else {
            assert(all[i] == new[1]);
        }
    }
    assert forall|i: int| 0 <= i < all.len() && (#[trigger] all[i]) is Finished implies i > 0
        && (all[i - 1] matches ExecutorEvent::ToolCallCompleted { tool_name, .. } && tool_name@ == "finish"@) by {
        if i < n {
            assert(all[i] == ev[i] && all[i - 1] == ev[i - 1]);
        } else if i == n {
            assert(all[i] == new[0]);
        } else {
            assert(all[i] == new[1] && all[i - 1] == new[0]);
        }
    }
}

/// A run reports in order, whatever its agent and tools answer: every
/// completed tool call comes right after the attempt with the same id, and
/// `Finished` comes only right after a completed call of `finish` (and it
/// ends the run: its transition's next step is `Stop(None)`). A failure of
/// the run is never reported as an event: it is the run's last step,
/// `Stop(Some(error))`.
pub proof fn lemma_reports_ordered(run: &AgentRun)
    requires
        run.wf(),
    ensures
        reports_ordered(run.reported(), run@.pending),
{
}

/// A run never goes beyond its iteration limit: beginning an iteration at
/// the limit ends the run with `MaxIterationsReached`, and every decision
/// keeps the count within the limit.
pub proof fn lemma_iterations_bounded(s: RunView)
    requires
        s.iteration <= s.max_iterations,
    ensures
        begin(s).0.iteration <= s.max_iterations,
        s.iteration == s.max_iterations ==> begin(s).2 == NextView::Fail(FailView::MaxIterations(s.max_iterations)),
        drain(s, Seq::empty()).0.iteration <= s.max_iterations,
{
    lemma_drain_keeps(s, Seq::empty());
    if s.iteration < s.max_iterations {
        lemma_drain_keeps(RunView { iteration: s.iteration + 1, reacted: false, ..s }, Seq::empty());
    }
}

/// Handing out the queue only adds to the history and to the events, and
/// keeps the iteration count within the limit.
pub proof fn lemma_drain_keeps(s: RunView, events: Seq<ExecutorEvent>)
    requires
        s.iteration <= s.max_iterations,
    ensures
        drain(s, events).0.iteration <= s.max_iterations,
        drain(s, events).0.max_iterations == s.max_iterations,
        drain(s, events).0.history.len() >= s.history.len(),
        drain(s, events).0.history.take(s.history.len() as int) == s.history,
        drain(s, events).1.len() >= events.len(),
        drain(s, events).1.take(events.len() as int) == events,
    decreases s.queue.len(),
{
    if s.queue.len() > 0 {
        let c = s.queue[0];
        let t = RunView {
            queue: s.queue.drop_first(),
            reacted: true,
            history: s.history.push(HistoryEntry::Assistant(c)),
            ..s
        };
        assert(t.history.take(s.history.len() as int) =~= s.history);
        match c {
            AgentReply::Text(x) => {
                let e2 = events.push(ExecutorEvent::Thinking { text: x });
                lemma_drain_keeps(t, e2);
                assert(e2.take(events.len() as int) =~= events);
                let d = drain(t, e2);
                assert(d.0.history.take(s.history.len() as int) =~= d.0.history.take(t.history.len() as int).take(s.history.len() as int));
                assert(d.1.take(events.len() as int) =~= d.1.take(e2.len() as int).take(events.len() as int));
            },
            AgentReply::ToolCall { id, name, arguments } => {
                assert(events.push(ExecutorEvent::ToolCallAttempted { id, name, arguments }).take(events.len() as int) =~= events);
            },
        }
    } else {
        assert(s.history.take(s.history.len() as int) =~= s.history);
        assert(events.take(events.len() as int) =~= events);
    }
}


/// What the driver hands a run at one step: the agent's first answer, a
/// reaction of the agent, or the result of the tool call under way.
pub enum RunInput {
    Initial(Result<Seq<AgentReply>, Seq<char>>),
    Reaction(Result<Seq<AgentReply>, Seq<char>>),
    ToolResult(Result<String, String>),
}

/// One step of a run, from `s` to `t`, as the step functions state it.
pub open spec fn run_step(s: RunView, input: RunInput, t: RunView, events: Seq<ExecutorEvent>, next: NextView) -> bool {
    match input {
        RunInput::Initial(r) => s.pending is None && (t, events, next) == after_initial(s, r),
        RunInput::Reaction(r) => s.pending is None && (t, events, next) == after_reaction(s, r),
        RunInput::ToolResult(r) => s.pending is Some && tool_result_step(s, r, t, events, next),
    }
}

/// A whole run as a driver makes it: from the state after `start`, the
/// first step takes the agent's first answer; each later step takes what
/// the step before asked for (a reaction after `Request`, a tool result
/// after `CallTool`); and only the last step stops the run.
pub open spec fn driven_run(
    states: Seq<RunView>,
    inputs: Seq<RunInput>,
    events: Seq<Seq<ExecutorEvent>>,
    nexts: Seq<NextView>,
) -> bool {
    let n = inputs.len();
    &&& n >= 1
    &&& states.len() == n + 1 && events.len() == n && nexts.len() == n
    &&& states[0].pending is None
    &&& forall|i: int| 0 <= i < n ==> run_step(states[i], #[trigger] inputs[i], states[i + 1], events[i], nexts[i])
    &&& inputs[0] is Initial
    &&& forall|i: int| 0 < i < n ==> match #[trigger] nexts[i - 1] {
        NextView::Request(_) => inputs[i] is Reaction,
        NextView::CallTool(_, _) => inputs[i] is ToolResult,
        _ => false,
    }
}

/// The reports of the first `i` steps, in order.
pub open spec fn reports_of(events: Seq<Seq<ExecutorEvent>>, i: int) -> Seq<ExecutorEvent>
    decreases i,
{
    if i <= 0 {
        Seq::empty()
    } else {
        reports_of(events, i - 1) + events[i - 1]
    }
}

/// Everything a driven run sends, in order: its reports, then its failure
/// when it failed.
pub open spec fn run_output(events: Seq<Seq<ExecutorEvent>>, nexts: Seq<NextView>) -> Seq<Result<ExecutorEvent, FailView>> {
    let reports = reports_of(events, events.len() as int).map_values(|e: ExecutorEvent| Ok::<ExecutorEvent, FailView>(e));
    match nexts.last() {
        NextView::Fail(f) => reports.push(Err(f)),
        _ => reports,
    }
}

/// An answer of the agent keeps the reports in order and reports no
/// `Finished`.
proof fn lemma_answer_keeps_order(ev: Seq<ExecutorEvent>, s: RunView, r: (RunView, Seq<ExecutorEvent>, NextView), initial: bool, reply: Result<Seq<AgentReply>, Seq<char>>)
    requires
        s.pending is None,
        reports_ordered(ev, None),
        r == if initial { after_initial(s, reply) } else { after_reaction(s, reply) },
    ensures
        reports_ordered(ev + r.1, r.0.pending),
        forall|k: int| 0 <= k < r.1.len() ==> !((#[trigger] r.1[k]) is Finished),
        r.0.history.len() >= s.history.len(),
        r.0.history.take(s.history.len() as int) == s.history,
{
    let empty = Seq::<ExecutorEvent>::empty();
    assert(ev + empty =~= ev);
    match reply {
        Err(_) => {},
        Ok(v) => {
            let t = RunView { queue: s.queue + v, ..s };
            assert(t.history.take(t.history.len() as int) =~= t.history);
            if initial && t.queue.len() == 0 {
            } else if initial && t.iteration >= t.max_iterations {
            } else {
                let d = if initial { RunView { iteration: t.iteration + 1, reacted: false, ..t } } else { t };
                lemma_drain_keeps_order(ev, d);
                lemma_drain_reports(d, empty);
                lemma_drain_history(d, empty);
                assert(d.history == s.history);
            }
        },
    }
}

/// Handing out the queue only appends to the history.
proof fn lemma_drain_history(s: RunView, events: Seq<ExecutorEvent>)
    ensures
        drain(s, events).0.history.len() >= s.history.len(),
        drain(s, events).0.history.take(s.history.len() as int) == s.history,
    decreases s.queue.len(),
{
    if s.queue.len() > 0 {
        let c = s.queue[0];
        let t = RunView {
            queue: s.queue.drop_first(),
            reacted: true,
            history: s.history.push(HistoryEntry::Assistant(c)),
            ..s
        };
        match c {
            AgentReply::Text(x) => {
                lemma_drain_history(t, events.push(ExecutorEvent::Thinking { text: x }));
                let h = drain(s, events).0.history;
                assert(h.take(s.history.len() as int) =~= h.take(t.history.len() as int).take(s.history.len() as int));
                assert(t.history.take(s.history.len() as int) =~= s.history);
            },
            AgentReply::ToolCall { .. } => {
                assert(t.history.take(s.history.len() as int) =~= s.history);
            },
        }
    } else {
        assert(s.history.take(s.history.len() as int) =~= s.history);
    }
}

/// Whether an item sent by a run is the `Finished` report.
pub open spec fn is_finished_item(x: Result<ExecutorEvent, FailView>) -> bool {
    match x {
        Ok(ExecutorEvent::Finished { .. }) => true,
        _ => false,
    }
}

/// The id of a completed tool call that an item reports, if it does.
pub open spec fn completed_id(x: Result<ExecutorEvent, FailView>) -> Option<String> {
    match x {
        Ok(ExecutorEvent::ToolCallCompleted { id, .. }) => Some(id),
        _ => None,
    }
}

/// The id of a tool call attempt that an item reports, if it does.
pub open spec fn attempted_id(x: Result<ExecutorEvent, FailView>) -> Option<String> {
    match x {
        Ok(ExecutorEvent::ToolCallAttempted { id, .. }) => Some(id),
        _ => None,
    }
}

/// A whole run, driven by any agent and any tools, sends its reports in
/// order and its failure last: every completed tool call comes right after
/// the attempt with the same id; `Finished` is sent only right after a
/// completed call of `finish`, as the run's last item, when the run ends
/// by finishing; at most one failure is sent, as the last item; and the
/// history keeps what it held after `start` as its beginning.
pub proof fn lemma_driven_run(
    states: Seq<RunView>,
    inputs: Seq<RunInput>,
    events: Seq<Seq<ExecutorEvent>>,
    nexts: Seq<NextView>,
)
    requires
        driven_run(states, inputs, events, nexts),
    ensures
        ({
            let out = run_output(events, nexts);
            &&& forall|k: int| 0 <= k < out.len() && (#[trigger] out[k]) is Err ==> k == out.len() - 1
            &&& forall|k: int| 0 <= k < out.len() && is_finished_item(#[trigger] out[k])
                ==> k == out.len() - 1 && nexts.last() == NextView::Finish
            &&& forall|k: int| 0 <= k < out.len() && (#[trigger] completed_id(out[k])) is Some
                ==> k > 0 && attempted_id(out[k - 1]) == completed_id(out[k])
        }),
        states.last().history.len() >= states[0].history.len(),
        states.last().history.take(states[0].history.len() as int) == states[0].history,
{
    let n = inputs.len() as int;
    lemma_driven_prefix(states, inputs, events, nexts, n);
    let rep = reports_of(events, n);
    let out = run_output(events, nexts);
    let oks = rep.map_values(|e: ExecutorEvent| Ok::<ExecutorEvent, FailView>(e));
    assert(events.len() == n);
    assert forall|k: int| 0 <= k < out.len() && (#[trigger] out[k]) is Err implies k == out.len() - 1 by {
        if k < oks.len() {
            assert(out[k] == oks[k]);
        }
    }
    assert forall|k: int| 0 <= k < out.len() && is_finished_item(#[trigger] out[k])
        implies k == out.len() - 1 && nexts.last() == NextView::Finish by {
        assert(k < oks.len());
        assert(out[k] == oks[k]);
        assert(rep[k] is Finished);
    }
    assert forall|k: int| 0 <= k < out.len() && (#[trigger] completed_id(out[k])) is Some
        implies k > 0 && attempted_id(out[k - 1]) == completed_id(out[k]) by {
        assert(k < oks.len());
        assert(out[k] == oks[k]);
        assert(rep[k] is ToolCallCompleted);
        assert(out[k - 1] == oks[k - 1]);
    }
}

/// What holds after the first `i` steps of a driven run: the reports are
/// in order; a `Finished` report is the last one, and only after a step
/// that finished the run; the history keeps its beginning.
proof fn lemma_driven_prefix(
    states: Seq<RunView>,
    inputs: Seq<RunInput>,
    events: Seq<Seq<ExecutorEvent>>,
    nexts: Seq<NextView>,
    i: int,
)
    requires
        driven_run(states, inputs, events, nexts),
        0 <= i <= inputs.len(),
    ensures
        reports_ordered(reports_of(events, i), states[i].pending),
        forall|k: int| 0 <= k < reports_of(events, i).len() && (#[trigger] reports_of(events, i)[k]) is Finished
            ==> k == reports_of(events, i).len() - 1 && i > 0 && nexts[i - 1] == NextView::Finish,
        states[i].history.len() >= states[0].history.len(),
        states[i].history.take(states[0].history.len() as int) == states[0].history,
    decreases i,
{
    assert(states[0].history.take(states[0].history.len() as int) =~= states[0].history);
    if i > 0 {
        lemma_driven_prefix(states, inputs, events, nexts, i - 1);
        let j = i - 1;
        let ev = reports_of(events, j);
        let s = states[j];
        let t = states[i];
        let new = events[j];
        assert(run_step(s, inputs[j], t, new, nexts[j]));
        if j > 0 {
            assert(nexts[j - 1] is Request || nexts[j - 1] is CallTool);
        }
        assert(forall|k: int| 0 <= k < ev.len() ==> !((#[trigger] ev[k]) is Finished));
        let all = ev + new;
        assert(reports_of(events, i) == all);
        match inputs[j] {
            RunInput::Initial(r) => {
                lemma_answer_keeps_order(ev, s, (t, new, nexts[j]), true, r);
                assert forall|k: int| 0 <= k < all.len() implies !((#[trigger] all[k]) is Finished) by {
                    if k >= ev.len() {
                        assert(all[k] == new[k - ev.len()]);
                    }
                }
            },
            RunInput::Reaction(r) => {
                lemma_answer_keeps_order(ev, s, (t, new, nexts[j]), false, r);
                assert forall|k: int| 0 <= k < all.len() implies !((#[trigger] all[k]) is Finished) by {
                    if k >= ev.len() {
                        assert(all[k] == new[k - ev.len()]);
                    }
                }
            },
            RunInput::ToolResult(r) => {
                lemma_tool_result_keeps_order(ev, (s.pending->0).0, (s.pending->0).1, new);
                assert(t.history.take(s.history.len() as int) =~= s.history);
                assert(t.history.take(states[0].history.len() as int) =~= t.history.take(s.history.len() as int).take(
                    states[0].history.len() as int,
                ));
                assert forall|k: int| 0 <= k < all.len() && (#[trigger] all[k]) is Finished implies k == all.len() - 1
                    && nexts[j] == NextView::Finish by {
                    if k >= ev.len() {
                        assert(all[k] == new[k - ev.len()]);
                    }
                }
            },
        }
        if !(inputs[j] is ToolResult) {
            let h0 = states[0].history;
            assert(t.history.take(h0.len() as int) =~= t.history.take(s.history.len() as int).take(h0.len() as int));
        }
    }
}

} // verus!
