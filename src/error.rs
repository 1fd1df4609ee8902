use vstd::prelude::*;

verus! {

/// Why an action could not be carried out.
#[derive(PartialEq, Eq, Structural, Clone, Copy, Debug)]
pub enum CommandError {
    /// The multiplexer failed or answered with text that could not be read.
    Multiplexer,
    /// No status line was found in the editor's screen text.
    StatusParse,
    /// The variable naming the invoking pane is absent or not a pane id.
    MissingEnvironment,
}

} // verus!
