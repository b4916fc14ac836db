//! One remote tool, bound to the peer that offers it, as something that can
//! be listed and invoked.

use super::names::{has_name, lemma_put, mapping, names_distinct, put};
use super::tool_set::keyed_by_name;
use super::tool_set::ToolSet;
use vstd::prelude::*;

verus! {

/// What a peer says about one of its tools.
#[derive(Debug, Clone, PartialEq, Eq)]
pub struct RemoteTool {
    /// The tool's name, unique within its peer's catalogue.
    pub name: String,
    /// What the tool does, in words, where the peer says so.
    pub description: Option<String>,
    /// The schema of the arguments that the tool accepts, as JSON text.
    pub input_schema: String,
}

/// The mathematical content of a [`RemoteTool`].
pub struct ToolView {
    pub name: Seq<char>,
    pub description: Option<Seq<char>>,
    pub input_schema: Seq<char>,
}

impl View for RemoteTool {
    type V = ToolView;

    open spec fn view(&self) -> ToolView {
        ToolView {
            name: self.name@,
            description: match self.description {
                Some(text) => Some(text@),
                None => None,
            },
            input_schema: self.input_schema@,
        }
    }
}

/// A catalogue, each tool by its mathematical content.
pub open spec fn tools_view(tools: Seq<RemoteTool>) -> Seq<ToolView> {
    tools.map_values(|t: RemoteTool| t@)
}

/// What a caller advertises of a tool to a language model.
#[derive(Debug, Clone, PartialEq, Eq)]
pub struct ToolDefinition {
    pub name: String,
    pub description: String,
    /// The schema of the arguments, as JSON text.
    pub parameters: String,
}

/// The mathematical content of a [`ToolDefinition`].
pub struct DefinitionView {
    pub name: Seq<char>,
    pub description: Seq<char>,
    pub parameters: Seq<char>,
}

impl View for ToolDefinition {
    type V = DefinitionView;

    open spec fn view(&self) -> DefinitionView {
        DefinitionView {
            name: self.name@,
            description: self.description@,
            parameters: self.parameters@,
        }
    }
}

/// The definition that a tool is advertised with: its own name and schema,
/// and its description, empty where the peer gave none.
pub open spec fn definition_of(tool: ToolView) -> DefinitionView {
    DefinitionView {
        name: tool.name,
        description: match tool.description {
            Some(text) => text,
            None => Seq::empty(),
        },
        parameters: tool.input_schema,
    }
}

/// The request that invokes a tool: what is to be sent, and to which peer.
#[derive(Debug, Clone, PartialEq, Eq)]
pub struct ToolCall {
    /// The name under which the owning peer is registered.
    pub server: String,
    /// The tool's name.
    pub name: String,
    /// The arguments as JSON text: an object, or `null` for none.
    pub arguments: String,
}

/// The mathematical content of a [`ToolCall`].
pub struct ToolCallView {
    pub server: Seq<char>,
    pub name: Seq<char>,
    pub arguments: Seq<char>,
}

impl View for ToolCall {
    type V = ToolCallView;

    open spec fn view(&self) -> ToolCallView {
        ToolCallView { server: self.server@, name: self.name@, arguments: self.arguments@ }
    }
}

/// Why the invocation of a tool gave no result.
#[derive(Debug, Clone, PartialEq, Eq)]
pub enum ToolCallError {
    /// The arguments are not the JSON text of an object or of `null`; the
    /// peer was not contacted. Holds what the parser reported.
    InvalidArguments(String),
    /// The peer could not be reached or refused the call. Holds the cause.
    RemoteFailure(String),
}

/// The mathematical content of a [`ToolCallError`].
pub enum ToolCallFault {
    InvalidArguments(Seq<char>),
    RemoteFailure(Seq<char>),
}

impl View for ToolCallError {
    type V = ToolCallFault;

    open spec fn view(&self) -> ToolCallFault {
        match *self {
            ToolCallError::InvalidArguments(text) => ToolCallFault::InvalidArguments(text@),
            ToolCallError::RemoteFailure(text) => ToolCallFault::RemoteFailure(text@),
        }
    }
}

/// What `serde_json::from_str` makes of `text` when it is asked for an
/// optional JSON object: `Ok` where the text is an object or `null`, else
/// the message of the parser's error.
pub uninterp spec fn json_arguments(text: Seq<char>) -> Result<(), Seq<char>>;

/// A checked text's outcome with the message of its error taken as a
/// sequence of characters.
pub open spec fn checked_view(r: Result<(), String>) -> Result<(), Seq<char>> {
    match r {
        Ok(_) => Ok(()),
        Err(message) => Err(message@),
    }
}

/// Parses `text` with `serde_json::from_str` as an optional JSON object and
/// says whether that succeeded. The parsed value is dropped; of an error its
/// message is kept. Trusted: the outcome is `json_arguments` of the text.
#[verifier::external_body]
fn check_arguments(text: &str) -> (r: Result<(), String>)
    ensures
        checked_view(r) == json_arguments(text@),
{
    match serde_json::from_str::<Option<serde_json::Map<String, serde_json::Value>>>(text) {
        Ok(_) => Ok(()),
        Err(error) => Err(error.to_string()),
    }
}

/// The response of a peer to the invocation of a tool, as the protocol
/// crate holds it.
#[verifier::external_type_specification]
#[verifier::external_body]
pub struct ExCallToolResult(rmcp::model::CallToolResult);

/// What `serde_json::to_string` returns for the response of a peer: the
/// JSON text of the whole response.
pub uninterp spec fn serialised(result: rmcp::model::CallToolResult) -> Seq<char>;

/// Serialises the whole response of a peer with `serde_json::to_string`, so
/// that nothing of it is dropped. Trusted: the text depends on the response
/// alone and is `serialised` of it. The call cannot fail on a response: all
/// its maps have strings as keys.
#[verifier::external_body]
pub fn convert_mcp_call_tool_result_to_string(result: rmcp::model::CallToolResult) -> (text:
    String)
    ensures
        text@ == serialised(result),
{
    serde_json::to_string(&result).unwrap()
}

/// What an invocation comes to, given what the peer answered: the whole
/// response as JSON text, or the failure with its cause.
pub open spec fn responded(outcome: Result<rmcp::model::CallToolResult, String>) -> Result<
    Seq<char>,
    ToolCallFault,
> {
    match outcome {
        Ok(response) => Ok(serialised(response)),
        Err(cause) => Err(ToolCallFault::RemoteFailure(cause@)),
    }
}

/// The result of an invocation, the text and the error each by its
/// mathematical content.
pub open spec fn result_view(r: Result<String, ToolCallError>) -> Result<Seq<char>, ToolCallFault> {
    match r {
        Ok(text) => Ok(text@),
        Err(error) => Err(error@),
    }
}

/// A remote tool together with the name of the peer that offers it.
#[derive(Debug, Clone, PartialEq, Eq)]
pub struct McpToolAdaptor {
    tool: RemoteTool,
    server: String,
}

/// The mathematical content of a [`McpToolAdaptor`].
pub struct AdaptorView {
    pub tool: ToolView,
    pub server: Seq<char>,
}

impl View for McpToolAdaptor {
    type V = AdaptorView;

    closed spec fn view(&self) -> AdaptorView {
        AdaptorView { tool: self.tool@, server: self.server@ }
    }
}

/// What invoking `tool` with `arguments` comes to before any peer is
/// contacted: the request to send where the arguments parse, else the
/// error that rejects them.
pub open spec fn call_of(tool: AdaptorView, arguments: Seq<char>) -> Result<
    ToolCallView,
    ToolCallFault,
> {
    match json_arguments(arguments) {
        Ok(_) => Ok(ToolCallView { server: tool.server, name: tool.tool.name, arguments }),
        Err(message) => Err(ToolCallFault::InvalidArguments(message)),
    }
}

/// A call's result or error, each by its mathematical content.
pub open spec fn call_view(r: Result<ToolCall, ToolCallError>) -> Result<
    ToolCallView,
    ToolCallFault,
> {
    match r {
        Ok(call) => Ok(call@),
        Err(error) => Err(error@),
    }
}

/// The result of an invocation, given what the peer answered: its response
/// as it is, or the failure with its cause.
pub open spec fn completed(outcome: Result<String, String>) -> Result<String, ToolCallError> {
    match outcome {
        Ok(response) => Ok(response),
        Err(cause) => Err(ToolCallError::RemoteFailure(cause)),
    }
}

impl McpToolAdaptor {
    /// Binds `tool` to the peer registered as `server`.
    pub fn new(tool: RemoteTool, server: String) -> (adaptor: Self)
        ensures
            adaptor@ == (AdaptorView { tool: tool@, server: server@ }),
    {
        McpToolAdaptor { tool, server }
    }

    /// The remote tool's name, unchanged.
    pub fn name(&self) -> (name: String)
        ensures
            name@ == self@.tool.name,
    {
        self.tool.name.clone()
    }

    /// The name under which the owning peer is registered.
    pub fn server(&self) -> (server: &String)
        ensures
            server@ == self@.server,
    {
        &self.server
    }

    /// The definition under which the tool is advertised. It is read off the
    /// descriptor; no peer is contacted and the prompt plays no part.
    pub fn definition(&self, _prompt: String) -> (definition: ToolDefinition)
        ensures
            definition@ == definition_of(self@.tool),
    {
        ToolDefinition {
            name: self.tool.name.clone(),
            description: match &self.tool.description {
                Some(text) => text.clone(),
                None => String::new(),
            },
            parameters: self.tool.input_schema.clone(),
        }
    }

    /// The text under which the tool is indexed for retrieval: its
    /// description, empty where the peer gave none.
    pub fn embedding_docs(&self) -> (docs: Vec<String>)
        ensures
            docs@.len() == 1,
            docs@[0]@ == definition_of(self@.tool).description,
    {
        let text = match &self.tool.description {
            Some(text) => text.clone(),
            None => String::new(),
        };
        let mut docs: Vec<String> = Vec::new();
        docs.push(text);
        docs
    }

    /// Prepares the invocation of the tool with `args`, the arguments as
    /// JSON text. Where the text is a JSON object or `null`, the request to
    /// send to the owning peer comes back. Otherwise the arguments are
    /// rejected and no request exists, so nothing reaches the peer.
    pub fn call(&self, args: String) -> (r: Result<ToolCall, ToolCallError>)
        ensures
            call_view(r) == call_of(self@, args@),
    {
        match check_arguments(args.as_str()) {
            Ok(_) => Ok(
                ToolCall { server: self.server.clone(), name: self.tool.name.clone(), arguments: args },
            ),
            Err(message) => Err(ToolCallError::InvalidArguments(message)),
        }
    }

    /// Turns what came of a request into the result of the invocation: a
    /// response, already serialised, is handed on as it is; a failure is
    /// surfaced with its cause.
    pub fn complete(outcome: Result<String, String>) -> (r: Result<String, ToolCallError>)
        ensures
            r == completed(outcome),
    {
        match outcome {
            Ok(response) => Ok(response),
            Err(cause) => Err(ToolCallError::RemoteFailure(cause)),
        }
    }

    /// Turns what the peer answered to a request into the result of the
    /// invocation: a response is serialised in full and handed on; a
    /// failure is surfaced with its cause.
    pub fn respond(outcome: Result<rmcp::model::CallToolResult, String>) -> (r: Result<
        String,
        ToolCallError,
    >)
        ensures
            result_view(r) == responded(outcome),
            outcome matches Err(cause) ==> r == completed(Err(cause)),
    {
        match outcome {
            Ok(response) => Self::complete(Ok(convert_mcp_call_tool_result_to_string(response))),
            Err(cause) => Self::complete(Err(cause)),
        }
    }
}

/// The tool set of one peer after the first `n` tools of its catalogue have
/// been adapted: each tool stands under its name, bound to `server`; of two
/// tools with one name the later stays.
pub open spec fn catalogue(server: Seq<char>, tools: Seq<ToolView>, n: int) -> Seq<
    (Seq<char>, AdaptorView),
>
    decreases n,
{
    if n <= 0 || n > tools.len() {
        Seq::empty()
    } else {
        put(
            catalogue(server, tools, n - 1),
            tools[n - 1].name,
            AdaptorView { tool: tools[n - 1], server },
        )
    }
}

/// In the tool set of one peer no name occurs twice, every tool stands
/// under its own name and is bound to that peer, a name is present exactly
/// when the catalogue holds a tool of that name, and under it stands the
/// last such tool.
pub proof fn lemma_catalogue(server: Seq<char>, tools: Seq<ToolView>, n: int)
    requires
        0 <= n <= tools.len(),
    ensures
        names_distinct(catalogue(server, tools, n)),
        keyed_by_name(catalogue(server, tools, n)),
        forall|name: Seq<char>|
            has_name(catalogue(server, tools, n), name) <==> exists|j: int|
                0 <= j < n && (#[trigger] tools[j]).name == name,
        forall|j: int|
            0 <= j < n && (forall|k: int| j < k < n ==> tools[k].name != tools[j].name)
                ==> mapping(catalogue(server, tools, n))[(#[trigger] tools[j]).name] == (AdaptorView {
                tool: tools[j],
                server,
            }),
    decreases n,
{
    let now = catalogue(server, tools, n);
    if n > 0 {
        lemma_catalogue(server, tools, n - 1);
        let before = catalogue(server, tools, n - 1);
        let last = tools[n - 1];
        let value = AdaptorView { tool: last, server };
        lemma_put(before, last.name, value);
        assert(keyed_by_name(now)) by {
            assert forall|i: int| 0 <= i < now.len() implies (#[trigger] now[i]).0
                == now[i].1.tool.name by {
                if i < before.len() {
                    assert(before[i].0 == before[i].1.tool.name);
                }
            }
        }
        assert forall|name: Seq<char>|
            has_name(now, name) <==> exists|j: int|
                0 <= j < n && (#[trigger] tools[j]).name == name by {
            assert(has_name(now, name) <==> mapping(now).dom().contains(name));
            assert(has_name(before, name) <==> mapping(before).dom().contains(name));
            if has_name(now, name) && name != last.name {
                assert(has_name(before, name));
                let j = choose|j: int| 0 <= j < n - 1 && (#[trigger] tools[j]).name == name;
                assert(0 <= j < n && tools[j].name == name);
            }
            if has_name(now, name) && name == last.name {
                assert(0 <= n - 1 < n && tools[n - 1].name == name);
            }
            if exists|j: int| 0 <= j < n && (#[trigger] tools[j]).name == name {
                let j = choose|j: int| 0 <= j < n && (#[trigger] tools[j]).name == name;
                if j < n - 1 {
                    assert(has_name(before, name));
                }
            }
        }
        assert forall|j: int|
            0 <= j < n && (forall|k: int|
                j < k < n ==> tools[k].name != tools[j].name) implies mapping(
            now,
        )[(#[trigger] tools[j]).name] == (AdaptorView { tool: tools[j], server }) by {
            if j < n - 1 {
                assert(tools[n - 1].name != tools[j].name);
                assert(forall|k: int| j < k < n - 1 ==> tools[k].name != tools[j].name);
            }
        }
    }
}

/// No two tools of a catalogue share a name.
pub open spec fn tools_distinct(tools: Seq<ToolView>) -> bool {
    forall|i: int, j: int| 0 <= i < j < tools.len() ==> tools[i].name != tools[j].name
}

/// Where no two tools of a catalogue share a name, the peer's tool set
/// holds one tool for each of them, in the order of the catalogue.
pub proof fn lemma_catalogue_distinct(server: Seq<char>, tools: Seq<ToolView>, n: int)
    requires
        tools_distinct(tools),
        0 <= n <= tools.len(),
    ensures
        names_distinct(catalogue(server, tools, n)),
        catalogue(server, tools, n).len() == n,
        forall|i: int|
            0 <= i < n ==> #[trigger] catalogue(server, tools, n)[i] == (
                tools[i].name,
                AdaptorView { tool: tools[i], server },
            ),
    decreases n,
{
    lemma_catalogue(server, tools, n);
    if n > 0 {
        lemma_catalogue_distinct(server, tools, n - 1);
        lemma_catalogue(server, tools, n - 1);
        let before = catalogue(server, tools, n - 1);
        if has_name(before, tools[n - 1].name) {
            let j = choose|j: int| 0 <= j < n - 1 && (#[trigger] tools[j]).name == tools[n - 1].name;
            assert(tools[j].name != tools[n - 1].name);
        }
    }
}

/// Adapts the catalogue that the peer registered as `server` returned: every
/// tool becomes an invokable tool bound to that peer.
pub fn get_tool_set(server: &str, tools: Vec<RemoteTool>) -> (set: ToolSet)
    ensures
        set.entries() == catalogue(
            server@,
            tools_view(tools@),
            tools@.len() as int,
        ),
{
    let mut set = ToolSet::new();
    let ghost all = tools_view(tools@);
    let ghost raw = tools@;
    let count = tools.len();
    let mut i: usize = 0;
    for tool in it: tools
        invariant
            it.seq() == raw,
            all == tools_view(raw),
            count == raw.len(),
            i == it.index(),
            set.entries() == catalogue(server@, all, i as int),
    {
        assert(i < count);
        assert(tool@ == all[i as int]);
        let adaptor = McpToolAdaptor::new(tool, server.to_owned());
        set.add_tool(adaptor);
        i += 1;
    }
    set
}

} // verus!
