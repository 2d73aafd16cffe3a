//! The server's handler slot.
//!
//! Accepting calls and running the handler on them is the business of the
//! program around this library; what the library owns is which handler is
//! installed.

use std::sync::Arc;
use vstd::prelude::*;

verus! {

/// A server that answers calls with the handler installed in it.
pub struct Server<H> {
    handler: Option<Arc<H>>,
}

impl<H> Server<H> {
    /// The handler that answers calls, if one is installed.
    pub closed spec fn installed(&self) -> Option<Arc<H>> {
        self.handler
    }

    /// A server without a handler.
    pub fn new() -> (server: Server<H>)
        ensures
            server.installed() is None,
    {
        Server { handler: None }
    }

    /// Installs `f` as the handler, in place of any handler installed
    /// before.
    pub fn set_handler(&mut self, f: H)
        ensures
            final(self).installed() matches Some(handler) && *handler == f,
    {
        self.handler = Some(Arc::new(f));
    }

    /// The handler that answers calls, if one is installed.
    pub fn handler(&self) -> (handler: Option<Arc<H>>)
        ensures
            handler == self.installed(),
    {
        match &self.handler {
            Some(handler) => Some(handler.clone()),
            None => None,
        }
    }
}

} // verus!
