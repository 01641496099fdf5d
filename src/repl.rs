use vstd::prelude::*;

verus! {

/// Settings of an interactive loop that prints the tokens of each line.
pub struct Repl {
    pub prompt: String,
}

impl Repl {
    /// A loop that shows `prompt` before each line it reads.
    pub fn new(prompt: String) -> (r: Repl)
        ensures
            r.prompt == prompt,
    {
        Repl { prompt }
    }
}

} // verus!
