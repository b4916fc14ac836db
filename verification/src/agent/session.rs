//! A session with an agent or a plain chat model: the type-state builder,
//! the state of one turn and the rule that takes in the streamed answer.

use crate::text::{contains, join, joined, occurs_in};
use vstd::prelude::*;
use vstd::string::StringExecFns;

verus! {

/// What can go wrong while a session writes its output.
#[derive(Debug, Clone, PartialEq, Eq)]
pub enum SinkError {
    /// A lower-level I/O error, by its message.
    Io(String),
    /// The output logic failed.
    Output(String),
    /// Anything else.
    Other(String),
}

impl SinkError {
    /// The text that describes the error.
    pub open spec fn spec_message(&self) -> Seq<char> {
        match *self {
            SinkError::Io(text) => "I/O Eror: "@ + text@,
            SinkError::Output(text) => "Output Error: "@ + text@,
            SinkError::Other(text) => "Unkown Error: "@ + text@,
        }
    }

    /// The text that describes the error: a prefix that tells its kind,
    /// then its own message.
    pub fn message(&self) -> (text: String)
        ensures
            text@ == self.spec_message(),
    {
        match self {
            SinkError::Io(detail) => "I/O Eror: ".to_owned().concat(detail.as_str()),
            SinkError::Output(detail) => "Output Error: ".to_owned().concat(detail.as_str()),
            SinkError::Other(detail) => "Unkown Error: ".to_owned().concat(detail.as_str()),
        }
    }
}

/// How many tokens a request used.
#[derive(Debug, Clone, Copy, PartialEq, Eq, Structural)]
pub struct Usage {
    /// Tokens of the prompt.
    pub input_tokens: u64,
    /// Tokens of the completion.
    pub output_tokens: u64,
    /// Both together, as the provider reports them.
    pub total_tokens: u64,
}

impl Usage {
    /// No tokens used.
    pub fn new() -> (usage: Self)
        ensures
            usage == (Usage { input_tokens: 0, output_tokens: 0, total_tokens: 0 }),
    {
        Usage { input_tokens: 0, output_tokens: 0, total_tokens: 0 }
    }
}

/// One entry of the conversation so far.
#[derive(Debug, Clone, PartialEq, Eq)]
pub enum Message {
    /// What the user asked.
    User(String),
    /// What the assistant answered.
    Assistant(String),
}

/// What the stream of an answer yields, one item at a time.
#[derive(Debug, Clone, PartialEq, Eq)]
pub enum StreamItem {
    /// A piece of text.
    Text(String),
    /// The model's reasoning, in parts.
    Reasoning(Vec<String>),
    /// The model calls a tool.
    ToolCall { name: String, arguments: String },
    /// The answer is complete.
    Final(Usage),
    /// The stream reported an error.
    Failure(String),
    /// Anything else.
    Other,
}

/// What a session writes to its output.
#[derive(Debug, Clone, PartialEq, Eq)]
pub enum SinkAction {
    /// The start of a stretch of reasoning.
    ReasonStart,
    /// The end of a stretch of reasoning.
    ReasonEnd,
    /// Plain text.
    Text(String),
    /// An error.
    Failure(String),
}

/// The mathematical content of a [`SinkAction`].
pub enum ActionView {
    ReasonStart,
    ReasonEnd,
    Text(Seq<char>),
    Failure(Seq<char>),
}

impl View for SinkAction {
    type V = ActionView;

    open spec fn view(&self) -> ActionView {
        match *self {
            SinkAction::ReasonStart => ActionView::ReasonStart,
            SinkAction::ReasonEnd => ActionView::ReasonEnd,
            SinkAction::Text(text) => ActionView::Text(text@),
            SinkAction::Failure(text) => ActionView::Failure(text@),
        }
    }
}

/// The actions of a list, each by its mathematical content.
pub open spec fn actions_view(actions: Seq<SinkAction>) -> Seq<ActionView> {
    actions.map_values(|a: SinkAction| a@)
}

/// One turn of the conversation while its answer streams in.
#[derive(Debug, Clone, PartialEq, Eq)]
pub struct Turn {
    response: String,
    is_reasoning: bool,
}

/// The mathematical content of a [`Turn`].
pub struct TurnView {
    /// The answer so far, without what the model marked as reasoning.
    pub response: Seq<char>,
    /// Whether the stream is inside a stretch of reasoning.
    pub is_reasoning: bool,
}

impl View for Turn {
    type V = TurnView;

    closed spec fn view(&self) -> TurnView {
        TurnView { response: self.response@, is_reasoning: self.is_reasoning }
    }
}

/// The turn after a piece of text, and what is written for it. A piece
/// that holds `<think>` opens a stretch of reasoning and one that holds
/// `</think>` closes it; neither is written or kept. Any other piece is
/// written, and kept for the answer unless it is reasoning.
pub open spec fn after_text(turn: TurnView, text: Seq<char>) -> (TurnView, Seq<ActionView>) {
    if occurs_in("<think>"@, text) {
        (TurnView { is_reasoning: true, ..turn }, seq![ActionView::ReasonStart])
    } else if occurs_in("</think>"@, text) {
        (TurnView { is_reasoning: false, ..turn }, seq![ActionView::ReasonEnd])
    } else if turn.is_reasoning {
        (turn, seq![ActionView::Text(text)])
    } else {
        (TurnView { response: turn.response + text, ..turn }, seq![ActionView::Text(text)])
    }
}

/// What is written for the model's reasoning: its parts, one to a line,
/// between the marks of a stretch of reasoning.
pub open spec fn reasoning_actions(parts: Seq<Seq<char>>) -> Seq<ActionView> {
    seq![
        ActionView::ReasonStart,
        ActionView::Text(joined(parts, "\n"@, parts.len() as int)),
        ActionView::ReasonEnd,
    ]
}

/// The line that announces a tool call.
pub open spec fn call_message(name: Seq<char>, arguments: Seq<char>) -> Seq<char> {
    "Call function "@ + name + " with arguments "@ + arguments + "..."@
}

/// The turn after a tool call, and what is written for it: the line that
/// announces the call is written and kept for the answer.
pub open spec fn after_tool_call(turn: TurnView, name: Seq<char>, arguments: Seq<char>) -> (
    TurnView,
    Seq<ActionView>,
) {
    (
        TurnView { response: turn.response + call_message(name, arguments), ..turn },
        seq![ActionView::Text(call_message(name, arguments))],
    )
}

impl Turn {
    /// A turn whose answer has not begun.
    pub fn new() -> (turn: Self)
        ensures
            turn@ == (TurnView { response: Seq::empty(), is_reasoning: false }),
    {
        Turn { response: String::new(), is_reasoning: false }
    }

    /// The answer so far.
    pub fn response(&self) -> (text: &String)
        ensures
            text@ == self@.response,
    {
        &self.response
    }

    /// Whether the stream is inside a stretch of reasoning.
    pub fn is_reasoning(&self) -> (b: bool)
        ensures
            b == self@.is_reasoning,
    {
        self.is_reasoning
    }

    /// Ends the turn and gives up the answer.
    pub fn into_response(self) -> (text: String)
        ensures
            text@ == self@.response,
    {
        self.response
    }

    /// Takes in a piece of text.
    pub fn text(&mut self, text: String) -> (actions: Vec<SinkAction>)
        ensures
            (final(self)@, actions_view(actions@)) == after_text(old(self)@, text@),
    {
        let mut actions: Vec<SinkAction> = Vec::new();
        if contains(text.as_str(), "<think>") {
            self.is_reasoning = true;
            actions.push(SinkAction::ReasonStart);
            assert(actions_view(actions@) =~= seq![ActionView::ReasonStart]);
        } else if contains(text.as_str(), "</think>") {
            self.is_reasoning = false;
            actions.push(SinkAction::ReasonEnd);
            assert(actions_view(actions@) =~= seq![ActionView::ReasonEnd]);
        } else {
            if !self.is_reasoning {
                self.response.append(text.as_str());
            }
            actions.push(SinkAction::Text(text));
            assert(actions_view(actions@) =~= seq![ActionView::Text(text@)]);
        }
        actions
    }

    /// Takes in the model's reasoning. The answer is left as it is.
    pub fn reasoning(&self, parts: &Vec<String>) -> (actions: Vec<SinkAction>)
        ensures
            actions_view(actions@) == reasoning_actions(parts.deep_view()),
    {
        let text = join(parts, "\n");
        let mut actions: Vec<SinkAction> = Vec::new();
        actions.push(SinkAction::ReasonStart);
        actions.push(SinkAction::Text(text));
        actions.push(SinkAction::ReasonEnd);
        assert(actions_view(actions@) =~= reasoning_actions(parts.deep_view()));
        actions
    }

    /// Takes in a tool call.
    pub fn tool_call(&mut self, name: &str, arguments: &str) -> (actions: Vec<SinkAction>)
        ensures
            (final(self)@, actions_view(actions@)) == after_tool_call(
                old(self)@,
                name@,
                arguments@,
            ),
    {
        let mut message = "Call function ".to_owned();
        message.append(name);
        message.append(" with arguments ");
        message.append(arguments);
        message.append("...");
        self.response.append(message.as_str());
        let mut actions: Vec<SinkAction> = Vec::new();
        actions.push(SinkAction::Text(message));
        assert(actions_view(actions@) =~= seq![ActionView::Text(call_message(name@, arguments@))]);
        actions
    }
}

/// Appends one exchange to the conversation: what the user asked, then
/// what the assistant answered.
pub fn record_exchange(chat_log: &mut Vec<Message>, input: String, response: String)
    ensures
        final(chat_log)@ == old(chat_log)@.push(Message::User(input)).push(
            Message::Assistant(response),
        ),
{
    chat_log.push(Message::User(input));
    chat_log.push(Message::Assistant(response));
}

/// Marks a builder or a session that holds no model yet.
#[derive(Debug, Clone, PartialEq, Eq)]
pub struct NoImplProvided;

/// A model that can only chat.
pub struct ChatImpl<T>(T);

/// An agent: it can chat, reason and call tools.
pub struct AgentImpl<A> {
    agent: A,
    multi_turn_depth: usize,
    show_usage: bool,
    usage: Usage,
}

/// Builds a session step by step: first the model is given, then, for an
/// agent, its settings.
pub struct SessionBuilder<T>(T);

/// A configured session.
pub struct Session<T>(T);

impl<T> ChatImpl<T> {
    /// The model.
    pub closed spec fn model(&self) -> T {
        self.0
    }

    /// The model.
    pub fn chat(&self) -> (model: &T)
        ensures
            *model == self.model(),
    {
        &self.0
    }

    /// A plain chat shows no usage.
    pub fn show_usage(&self) -> (b: bool)
        ensures
            !b,
    {
        false
    }

    /// A plain chat keeps no usage.
    pub fn usage(&self) -> (usage: Option<Usage>)
        ensures
            usage is None,
    {
        None
    }
}

/// The state of an agent that a turn can change: the turn itself and the
/// usage that the agent remembers.
pub open spec fn agent_step(
    turn: TurnView,
    usage: Usage,
    show_usage: bool,
    item: StreamItem,
) -> (TurnView, Usage, Seq<ActionView>) {
    match item {
        StreamItem::Text(text) => (after_text(turn, text@).0, usage, after_text(turn, text@).1),
        StreamItem::Reasoning(parts) => (turn, usage, reasoning_actions(parts.deep_view())),
        StreamItem::ToolCall { name, arguments } => (
            after_tool_call(turn, name@, arguments@).0,
            usage,
            after_tool_call(turn, name@, arguments@).1,
        ),
        StreamItem::Final(used) => (turn, if show_usage {
            used
        } else {
            usage
        }, Seq::empty()),
        StreamItem::Failure(_) => (turn, usage, Seq::empty()),
        StreamItem::Other => (turn, usage, Seq::empty()),
    }
}

impl<A> AgentImpl<A> {
    /// The agent.
    pub closed spec fn spec_agent(&self) -> A {
        self.agent
    }

    /// How many rounds of tool calls one request may take.
    pub closed spec fn spec_multi_turn_depth(&self) -> usize {
        self.multi_turn_depth
    }

    /// Whether the usage of tokens is shown.
    pub closed spec fn spec_show_usage(&self) -> bool {
        self.show_usage
    }

    /// The usage that the last complete answer reported.
    pub closed spec fn spec_usage(&self) -> Usage {
        self.usage
    }

    /// The agent.
    pub fn agent(&self) -> (agent: &A)
        ensures
            *agent == self.spec_agent(),
    {
        &self.agent
    }

    /// How many rounds of tool calls one request may take.
    pub fn multi_turn_depth(&self) -> (depth: usize)
        ensures
            depth == self.spec_multi_turn_depth(),
    {
        self.multi_turn_depth
    }

    /// Whether the usage of tokens is shown.
    pub fn show_usage(&self) -> (b: bool)
        ensures
            b == self.spec_show_usage(),
    {
        self.show_usage
    }

    /// The usage that the last complete answer reported.
    pub fn usage(&self) -> (usage: Option<Usage>)
        ensures
            usage == Some(self.spec_usage()),
    {
        Some(self.usage)
    }

    /// Takes in one item of the streamed answer and says what to write.
    /// Text, reasoning and tool calls go to the turn; the end of the answer
    /// leaves its usage with the agent where usage is shown; an error of
    /// the stream and anything else is passed over.
    pub fn step(&mut self, turn: &mut Turn, item: StreamItem) -> (actions: Vec<SinkAction>)
        ensures
            (final(turn)@, final(self).spec_usage(), actions_view(actions@)) == agent_step(
                old(turn)@,
                old(self).spec_usage(),
                old(self).spec_show_usage(),
                item,
            ),
            final(self).spec_agent() == old(self).spec_agent(),
            final(self).spec_multi_turn_depth() == old(self).spec_multi_turn_depth(),
            final(self).spec_show_usage() == old(self).spec_show_usage(),
    {
        match item {
            StreamItem::Text(text) => turn.text(text),
            StreamItem::Reasoning(parts) => turn.reasoning(&parts),
            StreamItem::ToolCall { name, arguments } => turn.tool_call(
                name.as_str(),
                arguments.as_str(),
            ),
            StreamItem::Final(used) => {
                if self.show_usage {
                    self.usage = used;
                }
                let actions: Vec<SinkAction> = Vec::new();
                assert(actions_view(actions@) =~= Seq::<ActionView>::empty());
                actions
            },
            _ => {
                let actions: Vec<SinkAction> = Vec::new();
                assert(actions_view(actions@) =~= Seq::<ActionView>::empty());
                actions
            },
        }
    }
}

impl Default for SessionBuilder<NoImplProvided> {
    /// A builder that holds no model yet.
    fn default() -> (builder: Self)
        ensures
            builder.inner() == NoImplProvided,
    {
        SessionBuilder(NoImplProvided)
    }
}

impl SessionBuilder<NoImplProvided> {
    /// A builder that holds no model yet.
    pub fn new() -> (builder: Self)
        ensures
            builder.inner() == NoImplProvided,
    {
        SessionBuilder(NoImplProvided)
    }

    /// Gives the session an agent. It answers in one round, shows no usage
    /// and has used no tokens.
    pub fn agent<A>(self, agent: A) -> (builder: SessionBuilder<AgentImpl<A>>)
        ensures
            builder.inner().spec_agent() == agent,
            builder.inner().spec_multi_turn_depth() == 1,
            !builder.inner().spec_show_usage(),
            builder.inner().spec_usage() == (Usage {
                input_tokens: 0,
                output_tokens: 0,
                total_tokens: 0,
            }),
    {
        SessionBuilder(
            AgentImpl { agent, multi_turn_depth: 1, show_usage: false, usage: Usage::new() },
        )
    }

    /// Gives the session a model that can only chat.
    pub fn chat<T>(self, chatbot: T) -> (builder: SessionBuilder<ChatImpl<T>>)
        ensures
            builder.inner().model() == chatbot,
    {
        SessionBuilder(ChatImpl(chatbot))
    }
}

impl<T> SessionBuilder<T> {
    /// What the builder holds.
    pub closed spec fn inner(&self) -> T {
        self.0
    }
}

impl<T> Session<T> {
    /// What the session holds.
    pub closed spec fn inner(&self) -> T {
        self.0
    }

    /// Gives up what the session holds.
    pub fn into_inner(self) -> (inner: T)
        ensures
            inner == self.inner(),
    {
        self.0
    }
}

impl<T> SessionBuilder<ChatImpl<T>> {
    /// The session with the model that was given.
    pub fn build(self) -> (session: Session<ChatImpl<T>>)
        ensures
            session.inner() == self.inner(),
    {
        Session(self.0)
    }
}

impl<A> SessionBuilder<AgentImpl<A>> {
    /// Sets how many rounds of tool calls one request may take.
    pub fn multi_turn_depth(self, multi_turn_depth: usize) -> (builder: Self)
        ensures
            builder.inner().spec_multi_turn_depth() == multi_turn_depth,
            builder.inner().spec_agent() == self.inner().spec_agent(),
            builder.inner().spec_show_usage() == self.inner().spec_show_usage(),
            builder.inner().spec_usage() == self.inner().spec_usage(),
    {
        let inner = self.0;
        SessionBuilder(
            AgentImpl {
                agent: inner.agent,
                multi_turn_depth,
                show_usage: inner.show_usage,
                usage: inner.usage,
            },
        )
    }

    /// Has the session show the usage of tokens after every answer.
    pub fn show_usage(self) -> (builder: Self)
        ensures
            builder.inner().spec_show_usage(),
            builder.inner().spec_agent() == self.inner().spec_agent(),
            builder.inner().spec_multi_turn_depth() == self.inner().spec_multi_turn_depth(),
            builder.inner().spec_usage() == self.inner().spec_usage(),
    {
        let inner = self.0;
        SessionBuilder(
            AgentImpl {
                agent: inner.agent,
                multi_turn_depth: inner.multi_turn_depth,
                show_usage: true,
                usage: inner.usage,
            },
        )
    }

    /// The session with the agent and the settings that were given.
    pub fn build(self) -> (session: Session<AgentImpl<A>>)
        ensures
            session.inner() == self.inner(),
    {
        Session(self.0)
    }
}

} // verus!
