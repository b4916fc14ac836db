//! Connection descriptors: how one peer is to be reached.

use std::collections::HashMap;
use vstd::prelude::*;

verus! {

/// How to reach one peer. A value is fixed once it is made.
#[derive(Debug, Clone, PartialEq, Eq)]
pub enum TransportConfig {
    /// A long-lived event stream over HTTP at `url`.
    Sse { url: String },
    /// A bidirectional HTTP stream at `url`.
    Streamable { url: String },
    /// A child process started as `command` with `args` and `envs`, spoken
    /// to over its standard input and output.
    Stdio { command: String, args: Vec<String>, envs: HashMap<String, String> },
}

/// The mathematical content of a [`TransportConfig`].
pub enum Descriptor {
    EventStream { url: Seq<char> },
    StreamableHttp { url: Seq<char> },
    Subprocess { command: Seq<char>, args: Seq<Seq<char>>, environment: Map<String, String> },
}

impl View for TransportConfig {
    type V = Descriptor;

    open spec fn view(&self) -> Descriptor {
        match *self {
            TransportConfig::Sse { url } => Descriptor::EventStream { url: url@ },
            TransportConfig::Streamable { url } => Descriptor::StreamableHttp { url: url@ },
            TransportConfig::Stdio { command, args, envs } => Descriptor::Subprocess {
                command: command@,
                args: args.deep_view(),
                environment: envs@,
            },
        }
    }
}

impl TransportConfig {
    /// The word that marks this kind of descriptor in stored configuration.
    pub open spec fn spec_protocol(&self) -> Seq<char> {
        match *self {
            TransportConfig::Sse { .. } => "sse"@,
            TransportConfig::Streamable { .. } => "streamable"@,
            TransportConfig::Stdio { .. } => "stdio"@,
        }
    }

    /// The word that marks this kind of descriptor in stored configuration:
    /// `sse`, `streamable` or `stdio`.
    pub fn protocol(&self) -> (word: &'static str)
        ensures
            word@ == self.spec_protocol(),
    {
        match self {
            TransportConfig::Sse { .. } => "sse",
            TransportConfig::Streamable { .. } => "streamable",
            TransportConfig::Stdio { .. } => "stdio",
        }
    }
}

/// Why a peer could not be reached: the handshake or the spawn failed.
#[derive(Debug, Clone, PartialEq, Eq)]
pub struct ConnectError {
    /// What the transport reported.
    pub message: String,
}

} // verus!
