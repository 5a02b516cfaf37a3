//! The caller-facing facade.
//!
//! A `WindowsHandler` is the entry point a consumer constructs once and asks
//! for listeners; the listeners' threads, channels and device handles live
//! with the caller, so the handler itself carries no state.

use vstd::prelude::*;

verus! {

/// How subscribed event records are rendered before they are forwarded.
#[derive(Debug, Clone, Copy, PartialEq, Eq, Structural)]
pub enum OutputFormat {
    XmlFormat,
    JsonFormat,
}

/// The facade a consumer constructs to start listeners from.
#[derive(Debug, Clone, Copy)]
pub struct WindowsHandler {}

impl WindowsHandler {
    pub fn new() -> (r: Self)
        ensures
            r == (WindowsHandler {  }),
    {
        Self {  }
    }
}

} // verus!
