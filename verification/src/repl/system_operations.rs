//! Where the lines of a session come from.

use vstd::prelude::*;
use vstd::string::StringExecFns;

verus! {

/// The source of the lines that a session reads. Nothing is known of what
/// a source hands over: a session is ready for any text.
pub trait SystemOperations {
    /// Gets the source ready for the next line.
    fn request_input(&mut self) {
    }

    /// Appends the next line to `buffer`.
    fn read_line(&self, buffer: &mut String);
}

/// A source that hands over one and the same line every time.
pub struct TestSystemOperations {
    command: String,
}

impl TestSystemOperations {
    /// The line that the source hands over.
    pub closed spec fn spec_command(&self) -> Seq<char> {
        self.command@
    }

    /// A source that hands over `command`.
    pub fn new(command: &str) -> (t: TestSystemOperations)
        ensures
            t.spec_command() == command@,
    {
        TestSystemOperations { command: command.to_owned() }
    }
}

impl SystemOperations for TestSystemOperations {
    fn read_line(&self, buffer: &mut String)
        ensures
            final(buffer)@ == old(buffer)@ + self.spec_command(),
    {
        buffer.append(self.command.as_str());
    }
}

} // verus!
