//! The terminal front end's reading of a line of input.

use crate::text::{trim, trimmed};
use vstd::prelude::*;

verus! {

/// What a line of input asks for: `None` where the user quits with `:q`,
/// else the prompt, which is the line without the white space around it.
pub open spec fn input_of(line: Seq<char>) -> Option<Seq<char>> {
    if trimmed(line) == ":q"@ {
        None
    } else {
        Some(trimmed(line))
    }
}

/// Reads a line that the user entered: the white space around it is
/// dropped; `:q` ends the session, anything else is a prompt.
pub fn read_input(line: &str) -> (input: Option<String>)
    ensures
        match input {
            Some(prompt) => input_of(line@) == Some(prompt@),
            None => input_of(line@) is None,
        },
{
    let prompt = trim(line).to_owned();
    if prompt == ":q".to_owned() {
        None
    } else {
        Some(prompt)
    }
}

} // verus!
