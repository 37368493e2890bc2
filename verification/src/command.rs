//! The one primitive the daemon asks of the outside world: run a named
//! command-line tool with arguments and hand back its trimmed output. The
//! library only builds `Command` values; the surrounding binary spawns them.
use vstd::prelude::*;

verus! {

/// A planned invocation of an external tool.
#[derive(Debug, Clone)]
pub struct Command {
    pub name: String,
    pub args: Vec<String>,
}

impl Command {
    /// A command with no arguments yet.
    pub fn new(name: &str) -> (r: Command)
        ensures
            r.name@ == name@,
            r.args@.len() == 0,
    {
        Command { name: String::from_str(name), args: Vec::new() }
    }

    /// Appends one argument.
    pub fn arg(&mut self, a: &str)
        ensures
            final(self).name == old(self).name,
            final(self).args.deep_view() == old(self).args.deep_view().push(a@),
    {
        self.args.push(String::from_str(a));
        proof {
            assert(self.args.deep_view() =~~= old(self).args.deep_view().push(a@));
        }
    }
}

} // verus!
