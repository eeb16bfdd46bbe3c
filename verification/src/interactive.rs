//! Types for the interactive command-line session: its outcome values
//! and the rolling log of recent messages. The prompting itself happens
//! outside.

use vstd::prelude::*;
use crate::config::Config;

verus! {

/// What the interactive session decided.
#[derive(Debug)]
pub enum InteractiveAction {
    /// Run with the collected configuration.
    RunWithConfig(Config),
    /// The session was ended without running.
    Exit,
}

/// The interactive session's result: the configuration and, when one
/// was loaded from a file, its name.
#[derive(Debug)]
pub struct InteractiveResult {
    /// The configuration to run.
    pub config: Config,
    /// The configuration file's stem, when one was used.
    pub config_name: Option<String>,
}

/// A bounded buffer of the most recent log messages: pushing past the
/// bound drops the oldest entry.
#[derive(Debug)]
pub struct RollingLogBuffer {
    messages: Vec<String>,
    max_size: usize,
}

impl RollingLogBuffer {
    /// The buffered messages, oldest first.
    pub closed spec fn messages_spec(self) -> Seq<String> {
        self.messages@
    }

    /// The bound.
    pub closed spec fn max_size_spec(self) -> int {
        self.max_size as int
    }

    /// The buffer never exceeds its bound (once the bound is positive).
    pub open spec fn wf(self) -> bool {
        self.messages_spec().len() <= self.max_size_spec() || self.max_size_spec() == 0
    }

    /// An empty buffer with the given bound.
    pub fn new(max_size: usize) -> (r: Self)
        ensures
            r.wf(),
            r.messages_spec().len() == 0,
            r.max_size_spec() == max_size,
    {
        RollingLogBuffer { messages: Vec::new(), max_size }
    }

    /// Append a message, dropping the oldest once the bound is
    /// reached.
    pub fn push(&mut self, message: String)
        requires
            old(self).wf(),
        ensures
            final(self).wf(),
            final(self).max_size_spec() == old(self).max_size_spec(),
            old(self).messages_spec().len() < old(self).max_size_spec()
                ==> final(self).messages_spec() == old(self).messages_spec().push(message),
            old(self).messages_spec().len() >= old(self).max_size_spec() && old(self).messages_spec().len() > 0
                ==> final(self).messages_spec() == old(self).messages_spec().drop_first().push(message),
    {
        if self.messages.len() >= self.max_size && self.messages.len() > 0 {
            self.messages.remove(0);
            proof {
                assert(self.messages@ =~= old(self).messages_spec().drop_first());
            }
        }
        self.messages.push(message);
    }

    /// The buffered messages, oldest first.
    pub fn get_messages(&self) -> (r: &Vec<String>)
        ensures
            r@ == self.messages_spec(),
    {
        &self.messages
    }
}

} // verus!
