//! The chat session around an agent: how it is configured, how a line of
//! input is read and how the streamed answer is taken in.

pub mod cli_chat;
pub mod model_adaptor;
pub mod session;
