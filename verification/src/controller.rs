//! The conversation controller: an explicit state machine over the
//! transcript. It decides, from each assistant message, whether to run
//! tools, keep reasoning, or finalize; counts the backend calls issued
//! against the configured cap; and rules the interactive follow-up.
//!
//! The backend round-trips themselves happen outside; every decision about
//! them is made here.

use vstd::prelude::*;

use vstd::utf8::encode_utf8;

use crate::messages::{ChatMessage, MessageRole};
use crate::response::{breakdown_shape_ok, parse_final, response_matches, ParseError, Response};
use crate::jsonio::{json_ok, json_tree_opt};
use crate::prompts::FINALIZE_INSTRUCTION;
use crate::strutil::{contains_bytes, contains_seq, spec_should_exit, spec_trim, should_exit,
    trim_ws};

verus! {

/// The explicit finalization marker an assistant message may carry.
pub const FINAL_MARKER: &'static str = "<FINAL>";

/// Why the reasoning phase ended.
#[derive(Clone, Copy, PartialEq, Eq, Structural, Debug)]
pub enum TerminationReason {
    FinalizationMarkerSeen,
    EmptyToolCalls,
    IterationCapReached,
}

/// Where the conversation stands.
#[derive(Clone, Copy, PartialEq, Eq, Structural, Debug)]
pub enum Phase {
    Reasoning,
    Finalizing,
    Interactive,
    Terminated,
}

/// What one assistant message asks of the loop.
#[derive(Clone, Copy, PartialEq, Eq, Structural, Debug)]
pub enum TurnAction {
    RunTools,
    Proceed,
    Finalize(TerminationReason),
}

/// The message's content contains the finalization marker (compared over
/// its UTF-8 bytes).
pub open spec fn spec_has_marker(content: Seq<char>) -> bool {
    contains_seq(encode_utf8(content), encode_utf8(FINAL_MARKER@))
}

/// How one assistant message is classified: the marker finalizes at once;
/// a tool-call list that is present but empty finalizes at once; a
/// non-empty list runs a tool round; an absent list reasons on.
pub open spec fn spec_turn_action(msg: ChatMessage) -> TurnAction {
    if spec_has_marker(msg.content@) {
        TurnAction::Finalize(TerminationReason::FinalizationMarkerSeen)
    } else {
        match msg.tool_calls {
            Some(tc) => if tc@.len() == 0 {
                TurnAction::Finalize(TerminationReason::EmptyToolCalls)
            } else {
                TurnAction::RunTools
            },
            None => TurnAction::Proceed,
        }
    }
}

/// `m` is the Tool-role message carrying one tool output.
pub open spec fn is_tool_msg(m: ChatMessage, s: String) -> bool {
    m.role == MessageRole::Tool && m.content == s && m.tool_calls is None
}

/// The controller's bookkeeping never exceeds its cap.
pub open spec fn well_formed(c: Controller) -> bool {
    c.calls_made <= c.cap
}

/// The conversation controller: the append-only transcript, the backend
/// call budget of the current reasoning phase, and the phase.
pub struct Controller {
    pub transcript: Vec<ChatMessage>,
    pub cap: usize,
    pub calls_made: usize,
    pub phase: Phase,
}

impl Controller {
    /// A fresh controller over an opening transcript, in the reasoning
    /// phase with nothing spent of its budget.
    pub fn new(initial: Vec<ChatMessage>, cap: usize) -> (r: Controller)
        ensures
            r.transcript == initial,
            r.cap == cap,
            r.calls_made == 0,
            r.phase == Phase::Reasoning,
            well_formed(r),
    {
        Controller { transcript: initial, cap, calls_made: 0, phase: Phase::Reasoning }
    }

    /// Whether another backend call may be issued: only while reasoning,
    /// and only under the cap.
    pub fn may_issue_call(&self) -> (r: bool)
        ensures
            r == (self.phase == Phase::Reasoning && self.calls_made < self.cap),
    {
        match self.phase {
            Phase::Reasoning => self.calls_made < self.cap,
            _ => false,
        }
    }

    /// Accounts for one backend call being issued.
    pub fn begin_call(&mut self)
        requires
            old(self).phase == Phase::Reasoning,
            old(self).calls_made < old(self).cap,
        ensures
            final(self).calls_made == old(self).calls_made + 1,
            final(self).transcript == old(self).transcript,
            final(self).cap == old(self).cap,
            final(self).phase == old(self).phase,
            well_formed(*final(self)),
    {
        self.calls_made = self.calls_made + 1;
    }

    /// Appends the assistant's message unconditionally and classifies it.
    /// On a finalizing classification the phase moves on at once, without
    /// a tool round.
    pub fn note_assistant(&mut self, msg: ChatMessage) -> (act: TurnAction)
        requires
            old(self).phase == Phase::Reasoning,
        ensures
            final(self).transcript@ == old(self).transcript@.push(msg),
            final(self).cap == old(self).cap,
            final(self).calls_made == old(self).calls_made,
            act == spec_turn_action(msg),
            act is Finalize ==> final(self).phase == Phase::Finalizing,
            !(act is Finalize) ==> final(self).phase == Phase::Reasoning,
    {
        let marker_seen = contains_bytes(msg.content.as_str().as_bytes(), FINAL_MARKER.as_bytes());
        let act = if marker_seen {
            TurnAction::Finalize(TerminationReason::FinalizationMarkerSeen)
        } else {
            match &msg.tool_calls {
                Some(tc) => if tc.len() == 0 {
                    TurnAction::Finalize(TerminationReason::EmptyToolCalls)
                } else {
                    TurnAction::RunTools
                },
                None => TurnAction::Proceed,
            }
        };
        self.transcript.push(msg);
        match act {
            TurnAction::Finalize(_) => {
                self.phase = Phase::Finalizing;
            },
            _ => {},
        }
        act
    }

    /// Appends one Tool-role message per tool output, in the order given —
    /// the order of tool results in the transcript is a correctness
    /// requirement, since the model conditions on position.
    pub fn note_tool_results(&mut self, outputs: &Vec<String>)
        requires
            old(self).phase == Phase::Reasoning,
        ensures
            final(self).transcript@.len() == old(self).transcript@.len() + outputs@.len(),
            forall|k: int|
                0 <= k < old(self).transcript@.len() ==> final(self).transcript@[k] == old(
                    self,
                ).transcript@[k],
            forall|k: int|
                #![trigger outputs@[k]]
                0 <= k < outputs@.len() ==> is_tool_msg(
                    final(self).transcript@[old(self).transcript@.len() + k],
                    outputs@[k],
                ),
            final(self).cap == old(self).cap,
            final(self).calls_made == old(self).calls_made,
            final(self).phase == old(self).phase,
    {
        let mut i: usize = 0;
        while i < outputs.len()
            invariant
                i <= outputs@.len(),
                self.transcript@.len() == old(self).transcript@.len() + i,
                forall|k: int|
                    0 <= k < old(self).transcript@.len() ==> self.transcript@[k] == old(
                        self,
                    ).transcript@[k],
                forall|k: int|
                    #![trigger outputs@[k]]
                    0 <= k < i ==> is_tool_msg(
                        self.transcript@[old(self).transcript@.len() + k],
                        outputs@[k],
                    ),
                self.cap == old(self).cap,
                self.calls_made == old(self).calls_made,
                self.phase == old(self).phase,
            decreases outputs@.len() - i,
        {
            let ghost pre = self.transcript@;
            let m = ChatMessage::plain(MessageRole::Tool, outputs[i].clone());
            self.transcript.push(m);
            proof {
                let base = old(self).transcript@.len() as int;
                assert(self.transcript@ == pre.push(m));
                assert(self.transcript@[base + i] == m);
                assert forall|k: int| #![trigger outputs@[k]] 0 <= k < i + 1 implies is_tool_msg(
                    self.transcript@[base + k],
                    outputs@[k],
                ) by {
                    if k < i {
                        assert(self.transcript@[base + k] == pre[base + k]);
                    } else {
                        assert(self.transcript@[base + k] == m);
                    }
                }
            }
            i = i + 1;
        }
    }

    /// Moves to finalization because the budget is spent: the cap forces
    /// the transition rather than erroring.
    pub fn force_finalize(&mut self) -> (r: TerminationReason)
        requires
            old(self).phase == Phase::Reasoning,
            old(self).calls_made >= old(self).cap,
        ensures
            final(self).phase == Phase::Finalizing,
            final(self).transcript == old(self).transcript,
            final(self).cap == old(self).cap,
            final(self).calls_made == old(self).calls_made,
            r == TerminationReason::IterationCapReached,
    {
        self.phase = Phase::Finalizing;
        TerminationReason::IterationCapReached
    }

    /// Appends the one explicit instruction message that requests the
    /// final structured answer.
    pub fn finalize_request(&mut self)
        requires
            old(self).phase == Phase::Finalizing,
        ensures
            final(self).transcript@.len() == old(self).transcript@.len() + 1,
            forall|k: int|
                0 <= k < old(self).transcript@.len() ==> final(self).transcript@[k] == old(
                    self,
                ).transcript@[k],
            final(self).transcript@.last().role == MessageRole::User,
            final(self).transcript@.last().content@ == FINALIZE_INSTRUCTION@,
            final(self).transcript@.last().tool_calls is None,
            final(self).cap == old(self).cap,
            final(self).calls_made == old(self).calls_made,
            final(self).phase == old(self).phase,
    {
        self.transcript.push(
            ChatMessage::plain(MessageRole::User, String::from_str(FINALIZE_INSTRUCTION)),
        );
    }

    /// Takes the finalization response: parses it as the task breakdown —
    /// success exactly when the text is JSON matching the task shape, and
    /// then the tree's tasks come back in order — and enters the
    /// interactive phase either way; a failed parse surfaces the raw text,
    /// it never aborts the session.
    pub fn conclude_final(&mut self, content: &str) -> (r: Result<Response, ParseError>)
        requires
            old(self).phase == Phase::Finalizing,
        ensures
            final(self).phase == Phase::Interactive,
            final(self).transcript == old(self).transcript,
            final(self).cap == old(self).cap,
            final(self).calls_made == old(self).calls_made,
            r is Ok <==> json_ok(content@) && breakdown_shape_ok(json_tree_opt(content@)->0),
            r is Ok ==> response_matches(r->Ok_0, json_tree_opt(content@)->0),
            r is Err ==> r->Err_0.raw@ == content@,
    {
        self.phase = Phase::Interactive;
        parse_final(content)
    }

    /// Aborts the current turn after a backend transport failure: the
    /// caller logs the error, and the session falls back to interactive
    /// mode rather than terminating.
    pub fn abort_turn(&mut self)
        requires
            old(self).phase == Phase::Reasoning || old(self).phase == Phase::Finalizing,
        ensures
            *final(self) == (Controller { phase: Phase::Interactive, ..*old(self) }),
    {
        self.phase = Phase::Interactive;
    }

    /// Takes one interactive input line. An all white-space line or a
    /// case-insensitive `exit`/`quit` terminates the session; any other
    /// line becomes a User message and re-enters reasoning with the
    /// interactive cap and a fresh budget.
    pub fn note_user_line(&mut self, line: &str, interactive_cap: usize) -> (ends: bool)
        requires
            old(self).phase == Phase::Interactive,
        ensures
            ends == spec_should_exit(line@),
            ends ==> *final(self) == (Controller {
                phase: Phase::Terminated,
                ..*old(self)
            }),
            !ends ==> {
                &&& final(self).phase == Phase::Reasoning
                &&& final(self).cap == interactive_cap
                &&& final(self).calls_made == 0
                &&& final(self).transcript@.len() == old(self).transcript@.len() + 1
                &&& forall|k: int|
                    0 <= k < old(self).transcript@.len() ==> final(self).transcript@[k] == old(
                        self,
                    ).transcript@[k]
                &&& final(self).transcript@.last().role == MessageRole::User
                &&& final(self).transcript@.last().content@ == spec_trim(line@)
                &&& final(self).transcript@.last().tool_calls is None
            },
    {
        if should_exit(line) {
            self.phase = Phase::Terminated;
            return true;
        }
        let trimmed = trim_ws(line);
        self.transcript.push(ChatMessage::plain(MessageRole::User, String::from_str(trimmed)));
        self.phase = Phase::Reasoning;
        self.cap = interactive_cap;
        self.calls_made = 0;
        false
    }
}

/// How many backend calls a reasoning phase consumes, given the budget
/// state and the sequence of assistant responses the backend would return:
/// each turn spends one call, and a finalizing classification stops the
/// phase at once.
pub open spec fn calls_consumed(cap: int, calls: int, responses: Seq<ChatMessage>) -> int
    decreases responses.len(),
{
    if calls >= cap || responses.len() == 0 {
        0
    } else if spec_turn_action(responses[0]) is Finalize {
        1
    } else {
        1 + calls_consumed(cap, calls + 1, responses.drop_first())
    }
}

/// Loop bound: from a state with `calls` of `cap` spent, the reasoning
/// phase issues at most `cap - calls` further backend calls, for any
/// sequence of assistant responses — in particular at most `cap` in all.
pub proof fn lemma_loop_bound(cap: int, calls: int, responses: Seq<ChatMessage>)
    requires
        0 <= calls <= cap,
    ensures
        calls_consumed(cap, calls, responses) <= cap - calls,
    decreases responses.len(),
{
    if calls < cap && responses.len() > 0 && !(spec_turn_action(responses[0]) is Finalize) {
        lemma_loop_bound(cap, calls + 1, responses.drop_first());
    }
}

/// Termination triggers: when the first response carries the marker or a
/// present-but-empty tool-call list, the phase ends with exactly the one
/// call that produced it, whatever would follow.
pub proof fn lemma_termination_triggers(cap: int, calls: int, responses: Seq<ChatMessage>)
    requires
        0 <= calls < cap,
        responses.len() > 0,
        spec_turn_action(responses[0]) is Finalize,
    ensures
        calls_consumed(cap, calls, responses) == 1,
{
}

/// The marker finalizes, whatever the tool-call list holds.
pub proof fn lemma_marker_finalizes(msg: ChatMessage)
    requires
        spec_has_marker(msg.content@),
    ensures
        spec_turn_action(msg) == TurnAction::Finalize(TerminationReason::FinalizationMarkerSeen),
{
}

/// A tool-call list that is present but empty finalizes without a tool
/// round, unless the marker already did.
pub proof fn lemma_empty_tool_calls_finalize(msg: ChatMessage)
    requires
        msg.tool_calls is Some,
        msg.tool_calls->0@.len() == 0,
    ensures
        spec_turn_action(msg) is Finalize,
{
}

} // verus!
