//! A chat session bound to one agent: its builder, its settings and the
//! rule that takes in the streamed answer of a turn.

use crate::agent::session::{
    actions_view, after_text, after_tool_call, reasoning_actions, ActionView, SinkAction,
    StreamItem, Turn, TurnView, Usage,
};
use vstd::prelude::*;

verus! {

/// Marks a builder that holds no agent yet.
#[derive(Debug, Clone, PartialEq, Eq)]
pub struct AgentNotSet;

/// Collects the settings of a session. `A` is the agent, or
/// [`AgentNotSet`] while none was given.
pub struct SessionBuilder<A> {
    agent: A,
    multi_turn_depth: usize,
    show_usage: bool,
}

/// A session with the agent `A`.
pub struct Session<A> {
    agent: A,
    multi_turn_depth: usize,
    show_usage: bool,
}

/// The settings of a builder or of a session.
pub struct Settings<A> {
    pub agent: A,
    /// How many rounds of tool calls one request may take.
    pub multi_turn_depth: usize,
    /// Whether the usage of tokens is shown after every answer.
    pub show_usage: bool,
}

impl<A> View for SessionBuilder<A> {
    type V = Settings<A>;

    closed spec fn view(&self) -> Settings<A> {
        Settings {
            agent: self.agent,
            multi_turn_depth: self.multi_turn_depth,
            show_usage: self.show_usage,
        }
    }
}

impl<A> View for Session<A> {
    type V = Settings<A>;

    closed spec fn view(&self) -> Settings<A> {
        Settings {
            agent: self.agent,
            multi_turn_depth: self.multi_turn_depth,
            show_usage: self.show_usage,
        }
    }
}

impl Default for SessionBuilder<AgentNotSet> {
    /// A builder without an agent: no round of tool calls, no usage shown.
    fn default() -> (builder: Self)
        ensures
            builder@ == (Settings { agent: AgentNotSet, multi_turn_depth: 0, show_usage: false }),
    {
        SessionBuilder { agent: AgentNotSet, multi_turn_depth: 0, show_usage: false }
    }
}

impl SessionBuilder<AgentNotSet> {
    /// A builder without an agent: no round of tool calls, no usage shown.
    pub fn new() -> (builder: Self)
        ensures
            builder@ == (Settings { agent: AgentNotSet, multi_turn_depth: 0, show_usage: false }),
    {
        SessionBuilder { agent: AgentNotSet, multi_turn_depth: 0, show_usage: false }
    }

    /// Gives the session its agent and keeps the other settings.
    pub fn agent<A>(self, agent: A) -> (builder: SessionBuilder<A>)
        ensures
            builder@ == (Settings {
                agent,
                multi_turn_depth: self@.multi_turn_depth,
                show_usage: self@.show_usage,
            }),
    {
        SessionBuilder {
            agent,
            multi_turn_depth: self.multi_turn_depth,
            show_usage: self.show_usage,
        }
    }
}

impl<A> SessionBuilder<A> {
    /// Has the session show the usage of tokens after every answer.
    pub fn show_usage(self) -> (builder: Self)
        ensures
            builder@ == (Settings { show_usage: true, ..self@ }),
    {
        SessionBuilder {
            agent: self.agent,
            multi_turn_depth: self.multi_turn_depth,
            show_usage: true,
        }
    }

    /// Sets how many rounds of tool calls one request may take.
    pub fn multi_turn_depth(self, multi_turn_depth: usize) -> (builder: Self)
        ensures
            builder@ == (Settings { multi_turn_depth, ..self@ }),
    {
        SessionBuilder { agent: self.agent, multi_turn_depth, show_usage: self.show_usage }
    }

    /// The session with the settings that were given.
    pub fn build(self) -> (session: Session<A>)
        ensures
            session@ == self@,
    {
        Session {
            agent: self.agent,
            multi_turn_depth: self.multi_turn_depth,
            show_usage: self.show_usage,
        }
    }
}

/// The turn and the usage after one item of the streamed answer, and what
/// is written for it. Text, reasoning and tool calls go to the turn; the
/// end of the answer gives its usage where usage is shown; an error of the
/// stream is written; anything else is passed over.
pub open spec fn chat_step(
    turn: TurnView,
    usage: Option<Usage>,
    show_usage: bool,
    item: StreamItem,
) -> (TurnView, Option<Usage>, Seq<ActionView>) {
    match item {
        StreamItem::Text(text) => (after_text(turn, text@).0, usage, after_text(turn, text@).1),
        StreamItem::Reasoning(parts) => (turn, usage, reasoning_actions(parts.deep_view())),
        StreamItem::ToolCall { name, arguments } => (
            after_tool_call(turn, name@, arguments@).0,
            usage,
            after_tool_call(turn, name@, arguments@).1,
        ),
        StreamItem::Final(used) => (turn, if show_usage {
            Some(used)
        } else {
            usage
        }, Seq::empty()),
        StreamItem::Failure(cause) => (turn, usage, seq![ActionView::Failure(cause@)]),
        StreamItem::Other => (turn, usage, Seq::empty()),
    }
}

impl<A> Session<A> {
    /// The agent.
    pub fn agent(&self) -> (agent: &A)
        ensures
            *agent == self@.agent,
    {
        &self.agent
    }

    /// How many rounds of tool calls one request may take.
    pub fn multi_turn_depth(&self) -> (depth: usize)
        ensures
            depth == self@.multi_turn_depth,
    {
        self.multi_turn_depth
    }

    /// Whether the usage of tokens is shown after every answer.
    pub fn show_usage(&self) -> (b: bool)
        ensures
            b == self@.show_usage,
    {
        self.show_usage
    }

    /// Takes in one item of the streamed answer of a turn and says what to
    /// write. `usage` is what the turn has learnt of its usage so far.
    pub fn step(&self, turn: &mut Turn, usage: &mut Option<Usage>, item: StreamItem) -> (actions:
        Vec<SinkAction>)
        ensures
            (final(turn)@, *final(usage), actions_view(actions@)) == chat_step(
                old(turn)@,
                *old(usage),
                self@.show_usage,
                item,
            ),
    {
        match item {
            StreamItem::Text(text) => turn.text(text),
            StreamItem::Reasoning(parts) => turn.reasoning(&parts),
            StreamItem::ToolCall { name, arguments } => turn.tool_call(
                name.as_str(),
                arguments.as_str(),
            ),
            StreamItem::Final(used) => {
                if self.show_usage {
                    *usage = Some(used);
                }
                let actions: Vec<SinkAction> = Vec::new();
                assert(actions_view(actions@) =~= Seq::<ActionView>::empty());
                actions
            },
            StreamItem::Failure(cause) => {
                let mut actions: Vec<SinkAction> = Vec::new();
                actions.push(SinkAction::Failure(cause));
                assert(actions_view(actions@) =~= seq![ActionView::Failure(cause@)]);
                actions
            },
            StreamItem::Other => {
                let actions: Vec<SinkAction> = Vec::new();
                assert(actions_view(actions@) =~= Seq::<ActionView>::empty());
                actions
            },
        }
    }
}

} // verus!
