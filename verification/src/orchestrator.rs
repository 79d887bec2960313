//! The bounded tool-orchestration loop: a session state machine that
//! decides, for each completion-engine reply, whether the requested tool
//! may run or the session is over. The caller performs the outside work
//! (the completion round-trips and the tool execution) and feeds each
//! outcome back in; the machine alone decides, and it never allows more
//! tool executions than the session's cap.

use vstd::prelude::*;

verus! {

/// The phases of one session.
pub enum Phase {
    /// A prompt is out; the completion engine's reply is awaited.
    AwaitingModel,
    /// A tool run was granted; its result is awaited.
    ExecutingTool,
    /// The session is over.
    Done,
}

/// One completion-engine reply, as the orchestrator reads it.
pub enum ModelReply {
    /// The reply requests an invocation of the search capability with the
    /// given query.
    ToolRequest(String),
    /// The reply carries no further tool request; its text is the answer.
    Answer(String),
}

/// What the caller is to do next.
pub enum SessionStep {
    /// Execute the tool on the given query and feed the result back.
    RunTool(String),
    /// The session is done; the payload is the final answer.
    Finished(String),
    /// The session is done: the engine asked for yet another tool run, but
    /// the cap is exhausted.
    CapExhausted,
}

/// The number of tool executions one session may grant.
pub const TURN_CAP: u32 = 5;

/// One bounded tool-calling session: how many tool runs were granted, the
/// cap, and the phase.
pub struct Session {
    /// The current phase.
    pub phase: Phase,
    /// Tool executions granted so far.
    pub turns_used: u32,
    /// The enforced ceiling on tool executions.
    pub turn_cap: u32,
}

/// A fresh session: awaiting the first reply, no turns used, the fixed cap.
pub open spec fn spec_new_session() -> Session {
    Session { phase: Phase::AwaitingModel, turns_used: 0, turn_cap: TURN_CAP }
}

/// The step function of the machine: what a reply does to a session that
/// awaits one. An answer ends the session; a tool request is granted only
/// while the cap is not reached, else the session is forced done.
pub open spec fn spec_on_reply(s: Session, reply: ModelReply) -> (Session, SessionStep) {
    match reply {
        ModelReply::Answer(text) => (
            Session { phase: Phase::Done, ..s },
            SessionStep::Finished(text),
        ),
        ModelReply::ToolRequest(q) => {
            if s.turns_used < s.turn_cap {
                (
                    Session { phase: Phase::ExecutingTool, turns_used: (s.turns_used + 1) as u32, ..s },
                    SessionStep::RunTool(q),
                )
            } else {
                (Session { phase: Phase::Done, ..s }, SessionStep::CapExhausted)
            }
        },
    }
}

/// What feeding a tool result back does: the session awaits the engine again.
pub open spec fn spec_resume(s: Session) -> Session {
    Session { phase: Phase::AwaitingModel, ..s }
}

impl Session {
    /// The session's well-formedness: the granted turns never pass the cap.
    pub open spec fn wf(&self) -> bool {
        self.turns_used <= self.turn_cap
    }

    /// Opens a session with the fixed cap.
    pub fn new() -> (s: Session)
        ensures
            s == spec_new_session(),
            s.wf(),
    {
        Session { phase: Phase::AwaitingModel, turns_used: 0, turn_cap: TURN_CAP }
    }

    /// Feeds one completion-engine reply into the session and says what to
    /// do next: exactly `spec_on_reply`.
    pub fn on_model_reply(&mut self, reply: ModelReply) -> (step: SessionStep)
        requires
            old(self).wf(),
            old(self).phase is AwaitingModel,
        ensures
            (*final(self), step) == spec_on_reply(*old(self), reply),
            final(self).wf(),
            step is RunTool <==> (reply is ToolRequest && old(self).turns_used < old(
                self,
            ).turn_cap),
            step is CapExhausted <==> (reply is ToolRequest && old(self).turns_used == old(
                self,
            ).turn_cap),
            reply matches ModelReply::Answer(text) ==> step == SessionStep::Finished(text),
    {
        match reply {
            ModelReply::Answer(text) => {
                self.phase = Phase::Done;
                SessionStep::Finished(text)
            },
            ModelReply::ToolRequest(q) => {
                if self.turns_used < self.turn_cap {
                    self.phase = Phase::ExecutingTool;
                    self.turns_used = self.turns_used + 1;
                    SessionStep::RunTool(q)
                } else {
                    self.phase = Phase::Done;
                    SessionStep::CapExhausted
                }
            },
        }
    }

    /// Feeds the granted tool's result back: the session awaits the engine
    /// again; the count of granted turns is untouched.
    pub fn on_tool_result(&mut self)
        requires
            old(self).wf(),
            old(self).phase is ExecutingTool,
        ensures
            *final(self) == spec_resume(*old(self)),
            final(self).wf(),
    {
        self.phase = Phase::AwaitingModel;
    }

    /// Whether the session is over.
    pub fn is_done(&self) -> (r: bool)
        ensures
            r == (self.phase is Done),
    {
        match self.phase {
            Phase::Done => true,
            _ => false,
        }
    }
}

/// How many tool executions a session grants over a whole run: each reply
/// is fed in while the session awaits one, each granted tool run is resumed,
/// and the run ends with the replies or with the session.
pub open spec fn spec_run_tools(s: Session, replies: Seq<ModelReply>) -> nat
    decreases replies.len(),
{
    if replies.len() == 0 || !(s.phase is AwaitingModel) {
        0
    } else {
        let (s2, step) = spec_on_reply(s, replies[0]);
        if step is RunTool {
            1 + spec_run_tools(spec_resume(s2), replies.drop_first())
        } else {
            0
        }
    }
}

/// A session grants at most as many further tool runs as its cap leaves.
pub proof fn lemma_run_tools_bounded(s: Session, replies: Seq<ModelReply>)
    requires
        s.wf(),
    ensures
        spec_run_tools(s, replies) <= s.turn_cap - s.turns_used,
    decreases replies.len(),
{
    if replies.len() == 0 || !(s.phase is AwaitingModel) {
    } else {
        let (s2, step) = spec_on_reply(s, replies[0]);
        if step is RunTool {
            lemma_run_tools_bounded(spec_resume(s2), replies.drop_first());
        }
    }
}

/// However many tool invocations the completion engine keeps requesting, a
/// fresh session never executes more than the fixed cap of them.
pub proof fn lemma_session_tool_cap(replies: Seq<ModelReply>)
    ensures
        spec_run_tools(spec_new_session(), replies) <= TURN_CAP,
{
    lemma_run_tools_bounded(spec_new_session(), replies);
}

/// The instruction text every session opens with: it asks the engine to
/// search at most once and then summarize. Advisory only — the enforced
/// ceiling is the session's cap.
pub fn system_prompt() -> (s: &'static str)
    ensures
        s@.len() > 0,
{
    let p = "You are a helpful AI research assistant. Your task is to research topics and provide summaries.\n\nImportant instructions:\n1. Use the web_search tool once to find relevant information\n2. After receiving search results, synthesize them into a summary right away\n3. Do not make repeated search requests - one search is enough\n4. If the first search gives nothing, try one simpler query, then summarize\n\nFormat for the reply after receiving search results:\n- Overview: a short introduction of the topic\n- Key sources found: the URLs from the search\n- Summary: what these sources likely cover, based on their titles and hosts\n- Next steps: what the user might explore further\n\nAlways reply once search results have arrived. Do not keep searching indefinitely.";
    proof {
        reveal_strlit(
            "You are a helpful AI research assistant. Your task is to research topics and provide summaries.\n\nImportant instructions:\n1. Use the web_search tool once to find relevant information\n2. After receiving search results, synthesize them into a summary right away\n3. Do not make repeated search requests - one search is enough\n4. If the first search gives nothing, try one simpler query, then summarize\n\nFormat for the reply after receiving search results:\n- Overview: a short introduction of the topic\n- Key sources found: the URLs from the search\n- Summary: what these sources likely cover, based on their titles and hosts\n- Next steps: what the user might explore further\n\nAlways reply once search results have arrived. Do not keep searching indefinitely.",
        );
    }
    p
}

} // verus!
