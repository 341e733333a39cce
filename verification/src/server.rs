use vstd::prelude::*;
use vstd::string::*;

verus! {

/// A handle from which the surrounding program configures and runs its HTTP
/// server. Binding, routing and transport stand outside this library; the
/// handle only marks the configuration step.
pub struct Server {}

impl Server {
    /// Creates a new Server struct to configure.
    pub fn new() -> Server {
        Server {  }
    }
}

/// An error a request handler answers with; the surrounding program renders
/// it through its framework's error machinery.
pub struct MyError {
    /// A short name for what went wrong.
    pub name: &'static str,
}

impl MyError {
    /// The message the error displays.
    pub fn message(&self) -> (r: String)
        ensures
            r@ == "my error: "@ + self.name@,
    {
        let mut s = "my error: ".to_owned();
        s.append(self.name);
        s
    }
}

} // verus!
