//! The application shell. The embedding binary builds one, loads a
//! configuration from its environment, and wires HTTP routes around the
//! resource-access service.

use vstd::prelude::*;

verus! {

/// The application shell.
#[derive(Debug)]
pub struct App {}

impl App {
    /// Creates the shell.
    pub fn new() -> (r: Self)
        ensures
            r == (App {  }),
    {
        Self {  }
    }
}

} // verus!
