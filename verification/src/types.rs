use vstd::prelude::*;

verus! {

/// Raw configuration of one command: its local keys, each split into its
/// parts, and the command text itself.
#[derive(Debug, Clone, PartialEq)]
pub struct Configuration {
    pub options: Vec<Vec<String>>,
    pub command: String,
}

/// The options of a configuration as plain values.
pub open spec fn options_view(options: Seq<Vec<String>>) -> Seq<Seq<Seq<char>>> {
    options.map_values(|o: Vec<String>| o@.map_values(|s: String| s@))
}

impl Configuration {
    /// An empty configuration: no options and an empty command.
    pub fn new() -> (c: Configuration)
        ensures
            c.options@.len() == 0,
            c.command@.len() == 0,
    {
        Configuration { options: Vec::new(), command: String::new() }
    }

    /// Clears every option and the command.
    pub fn clear(&mut self)
        ensures
            final(self).options@.len() == 0,
            final(self).command@.len() == 0,
    {
        self.options.clear();
        self.command = String::new();
    }
}

} // verus!
