//! The greeting application that answers `/:hello`.

use vstd::prelude::*;

verus! {

/// The application module that routes `/:hello` to its greeting.
#[derive(Clone, Copy, Debug)]
pub struct GogaApp;

/// The shell that runs before and after every request of the application.
#[derive(Clone, Copy, Debug)]
pub struct GogaShellApp;

impl GogaApp {
    /// The body of the page for the path parameter `hello`.
    pub fn greeting(hello: &str) -> (res: String)
        ensures
            res@ == "hello, "@ + hello@ + "!"@,
    {
        let mut res = String::from_str("hello, ");
        res.append(hello);
        res.append("!");
        res
    }
}

} // verus!
